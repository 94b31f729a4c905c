//! Opening a session: the handshake that turns a login and a password into
//! a bearer credential and the id of the account.

use crate::client::cookie::extract_token;
use crate::client::cookie::extract_token_spec;
use crate::client::form::data_for_login;
use crate::client::form::login_form_children;
use crate::client::form::login_form_spec;
use crate::client::form::FormData;
use crate::client::models::LoginResp;
use crate::client::models::Users;
use crate::error::unexpected;
use crate::error::unexpected_event;
use crate::error::Error;
use crate::text::texts_of;
use vstd::prelude::*;
use vstd::string::StringExecFns;

verus! {

/// What the user logs in with.
#[derive(Debug, Clone, PartialEq, Eq)]
pub struct Credentials {
    pub login: String,
    pub password: String,
}

impl Credentials {
    pub fn new(login: String, password: String) -> (c: Credentials)
        ensures
            c.login == login,
            c.password == password,
    {
        Credentials { login, password }
    }
}

/// An open session: the bearer credential and the id of the account. It is
/// made by the handshake and does not change.
#[derive(Debug, Clone, PartialEq, Eq)]
pub struct Session {
    token: String,
    user_id: i32,
}

/// The mathematical content of a [`Session`].
pub struct SessionView {
    pub token: Seq<char>,
    pub user_id: i32,
}

impl View for Session {
    type V = SessionView;

    closed spec fn view(&self) -> SessionView {
        SessionView { token: self.token@, user_id: self.user_id }
    }
}

impl Session {
    /// The bearer credential.
    pub fn token(&self) -> (token: &String)
        ensures
            token@ == self@.token,
    {
        &self.token
    }

    /// The id of the account.
    pub fn user_id(&self) -> (id: i32)
        ensures
            id == self@.user_id,
    {
        self.user_id
    }

    /// The value of the `Authorization` header of a request within this
    /// session: `Bearer`, a space, and the credential.
    pub fn authorization(&self) -> (value: String)
        ensures
            value@ == "Bearer "@ + self@.token,
    {
        String::from_str("Bearer ").concat(self.token.as_str())
    }
}

/// The answer to a submitted login as it arrives: each field is there or
/// is not.
#[derive(Debug, Clone, PartialEq, Eq)]
pub struct LoginAnswer {
    pub redirect: Option<String>,
    pub message: Option<String>,
    pub code: Option<String>,
    pub success: Option<bool>,
}

/// The error of an answer to a login that has neither of the two shapes.
pub open spec fn shape_unknown() -> Error {
    Error::ProtocolViolation("login response not recognised")
}

/// The error of an answer to a login whose flag contradicts its shape.
pub open spec fn shape_inconsistent() -> Error {
    Error::ProtocolViolation("login response inconsistent")
}

/// The error of an account lookup that returned no record.
pub open spec fn no_account() -> Error {
    Error::ProtocolViolation("no account record")
}

/// The shape of an answer to a login. An answer with a redirect target and
/// a flag is a success; failing that, one with a message, a code and a flag
/// is a failure; any other answer has no shape.
pub open spec fn classify_spec(answer: LoginAnswer) -> Result<LoginResp, Error> {
    match (answer.redirect, answer.message, answer.code, answer.success) {
        (Some(redirect), _, _, Some(success)) => Ok(LoginResp::Success { redirect, success }),
        (None, Some(message), Some(code), Some(success)) => Ok(
            LoginResp::Failed { message, code, success },
        ),
        _ => Err(shape_unknown()),
    }
}

/// Tells the two shapes of an answer to a login apart.
pub fn classify(answer: LoginAnswer) -> (r: Result<LoginResp, Error>)
    ensures
        r == classify_spec(answer),
{
    let LoginAnswer { redirect, message, code, success } = answer;
    match (redirect, message, code, success) {
        (Some(redirect), _, _, Some(success)) => Ok(LoginResp::Success { redirect, success }),
        (None, Some(message), Some(code), Some(success)) => Ok(
            LoginResp::Failed { message, code, success },
        ),
        _ => Err(Error::ProtocolViolation("login response not recognised")),
    }
}

/// What an answer to a login means: the redirect target to follow, or the
/// reason why the login is over. A failure carries the message of the
/// remote side; a flag that contradicts the shape is a protocol violation.
pub open spec fn redirect_spec(resp: LoginResp) -> Result<String, Error> {
    match resp {
        LoginResp::Success { redirect, success } => if success {
            Ok(redirect)
        } else {
            Err(shape_inconsistent())
        },
        LoginResp::Failed { message, code, success } => if success {
            Err(shape_inconsistent())
        } else {
            Err(Error::AuthenticationFailed(message))
        },
    }
}

/// Reads an answer to a login.
pub fn redirect_of(resp: LoginResp) -> (r: Result<String, Error>)
    ensures
        r == redirect_spec(resp),
{
    match resp {
        LoginResp::Success { redirect, success } => if success {
            Ok(redirect)
        } else {
            Err(Error::ProtocolViolation("login response inconsistent"))
        },
        LoginResp::Failed { message, code, success } => if success {
            Err(Error::ProtocolViolation("login response inconsistent"))
        } else {
            Err(Error::AuthenticationFailed(message))
        },
    }
}

/// The id of the account: that of the first record of the lookup.
pub open spec fn account_spec(users: Users) -> Result<i32, Error> {
    if users.users@.len() == 0 {
        Err(no_account())
    } else {
        Ok(users.users@[0].id)
    }
}

/// Takes the id of the account from the answer to the lookup.
pub fn account_of(users: &Users) -> (r: Result<i32, Error>)
    ensures
        r == account_spec(*users),
{
    if users.users.len() == 0 {
        Err(Error::ProtocolViolation("no account record"))
    } else {
        Ok(users.users[0].id)
    }
}

/// One thing to do for the handshake. Each request is answered by the
/// event that its description names, or by `LoginEvent::Failed`.
#[derive(Debug, PartialEq, Eq)]
pub enum LoginRequest {
    /// Get the login page; answered by `LoginPage` with its markup.
    GetLoginPage,
    /// Post the form to the login-submit endpoint; answered by
    /// `LoginAnswered`.
    SubmitLogin(FormData),
    /// Get this address and discard the body; answered by
    /// `RedirectFollowed`.
    FollowRedirect(String),
    /// Call the token exchange; answered by `TokenAnswered` with the values
    /// of the `set-cookie` headers of the response, in order.
    ExchangeToken,
    /// Look the account up with this bearer credential; answered by
    /// `AccountAnswered`.
    LookupAccount(String),
}

/// What came of the last request of the handshake.
#[derive(Debug, Clone, PartialEq, Eq)]
pub enum LoginEvent {
    LoginPage(String),
    LoginAnswered(LoginAnswer),
    RedirectFollowed,
    TokenAnswered(Vec<String>),
    AccountAnswered(Users),
    /// The request could not be carried out.
    Failed(Error),
}

/// The mathematical content of a [`LoginRequest`].
pub enum LoginRequestView {
    GetLoginPage,
    SubmitLogin(Map<Seq<char>, Seq<char>>),
    FollowRedirect(String),
    ExchangeToken,
    LookupAccount(Seq<char>),
}

impl View for LoginRequest {
    type V = LoginRequestView;

    open spec fn view(&self) -> LoginRequestView {
        match *self {
            LoginRequest::GetLoginPage => LoginRequestView::GetLoginPage,
            LoginRequest::SubmitLogin(form) => LoginRequestView::SubmitLogin(form@),
            LoginRequest::FollowRedirect(url) => LoginRequestView::FollowRedirect(url),
            LoginRequest::ExchangeToken => LoginRequestView::ExchangeToken,
            LoginRequest::LookupAccount(token) => LoginRequestView::LookupAccount(token@),
        }
    }
}

/// Where a handshake stands: which answer it waits for, and what it keeps
/// for the steps to come.
pub enum LoginView {
    AwaitingPage { login: Seq<char>, password: Seq<char> },
    AwaitingAnswer,
    AwaitingRedirect,
    AwaitingToken,
    AwaitingAccount { token: Seq<char> },
}

/// How a handshake goes on after an event.
pub enum LoginProgressView {
    Next(LoginView, LoginRequestView),
    Done(SessionView),
    Failed(Error),
}

/// How a handshake begins: with the login page.
pub open spec fn login_spec(creds: Credentials) -> LoginProgressView {
    LoginProgressView::Next(
        LoginView::AwaitingPage { login: creds.login@, password: creds.password@ },
        LoginRequestView::GetLoginPage,
    )
}

/// The decision that a handshake takes on `event`. The five steps follow
/// one another; none is tried twice.
///
/// A failure ends the handshake with its error, and an event that does not
/// answer the pending request ends it as a protocol violation. Otherwise:
/// - the login page gives the form to post, unless it lacks the form or a
///   hidden field of it is malformed;
/// - the answer to the form gives the redirect target to follow; a refusal
///   ends the handshake with `AuthenticationFailed` and the message of the
///   remote side;
/// - once the target has been followed, the token exchange is due;
/// - its cookies give the bearer credential, with which the account is
///   looked up;
/// - the first record of the lookup completes the session.
pub open spec fn login_step_spec(l: LoginView, event: LoginEvent) -> LoginProgressView {
    match (l, event) {
        (_, LoginEvent::Failed(reason)) => LoginProgressView::Failed(reason),
        (LoginView::AwaitingPage { login, password }, LoginEvent::LoginPage(page)) => {
            match login_form_spec(login, password, login_form_children(page@)) {
                Ok(form) => LoginProgressView::Next(
                    LoginView::AwaitingAnswer,
                    LoginRequestView::SubmitLogin(form),
                ),
                Err(e) => LoginProgressView::Failed(e),
            }
        },
        (LoginView::AwaitingAnswer, LoginEvent::LoginAnswered(answer)) => {
            match classify_spec(answer) {
                Err(e) => LoginProgressView::Failed(e),
                Ok(resp) => match redirect_spec(resp) {
                    Ok(url) => LoginProgressView::Next(
                        LoginView::AwaitingRedirect,
                        LoginRequestView::FollowRedirect(url),
                    ),
                    Err(e) => LoginProgressView::Failed(e),
                },
            }
        },
        (LoginView::AwaitingRedirect, LoginEvent::RedirectFollowed) => LoginProgressView::Next(
            LoginView::AwaitingToken,
            LoginRequestView::ExchangeToken,
        ),
        (LoginView::AwaitingToken, LoginEvent::TokenAnswered(headers)) => {
            match extract_token_spec(texts_of(headers@)) {
                Ok(token) => LoginProgressView::Next(
                    LoginView::AwaitingAccount { token },
                    LoginRequestView::LookupAccount(token),
                ),
                Err(e) => LoginProgressView::Failed(e),
            }
        },
        (LoginView::AwaitingAccount { token }, LoginEvent::AccountAnswered(users)) => {
            match account_spec(users) {
                Ok(user_id) => LoginProgressView::Done(SessionView { token, user_id }),
                Err(e) => LoginProgressView::Failed(e),
            }
        },
        _ => LoginProgressView::Failed(unexpected()),
    }
}

#[derive(Debug)]
enum LoginStage {
    AwaitingPage(Credentials),
    AwaitingAnswer,
    AwaitingRedirect,
    AwaitingToken,
    AwaitingAccount(String),
}

/// A handshake, between two requests.
#[derive(Debug)]
pub struct Login {
    stage: LoginStage,
}

/// How a handshake goes on.
#[derive(Debug)]
pub enum LoginProgress {
    /// Carry the request out and hand its answer to `step`.
    Next(Login, LoginRequest),
    /// The session is open.
    Done(Session),
    /// The handshake is over without a session.
    Failed(Error),
}

impl View for Login {
    type V = LoginView;

    closed spec fn view(&self) -> LoginView {
        match self.stage {
            LoginStage::AwaitingPage(creds) => LoginView::AwaitingPage {
                login: creds.login@,
                password: creds.password@,
            },
            LoginStage::AwaitingAnswer => LoginView::AwaitingAnswer,
            LoginStage::AwaitingRedirect => LoginView::AwaitingRedirect,
            LoginStage::AwaitingToken => LoginView::AwaitingToken,
            LoginStage::AwaitingAccount(token) => LoginView::AwaitingAccount { token: token@ },
        }
    }
}

impl View for LoginProgress {
    type V = LoginProgressView;

    open spec fn view(&self) -> LoginProgressView {
        match *self {
            LoginProgress::Next(l, request) => LoginProgressView::Next(l@, request@),
            LoginProgress::Done(session) => LoginProgressView::Done(session@),
            LoginProgress::Failed(reason) => LoginProgressView::Failed(reason),
        }
    }
}

/// Begins the handshake that opens a session for `creds`.
pub fn login(creds: Credentials) -> (r: LoginProgress)
    ensures
        r@ == login_spec(creds),
{
    LoginProgress::Next(Login { stage: LoginStage::AwaitingPage(creds) }, LoginRequest::GetLoginPage)
}

impl Login {
    /// Takes the answer to the pending request and decides what comes next.
    pub fn step(self, event: LoginEvent) -> (r: LoginProgress)
        ensures
            r@ == login_step_spec(self@, event),
    {
        match (self.stage, event) {
            (_, LoginEvent::Failed(reason)) => LoginProgress::Failed(reason),
            (LoginStage::AwaitingPage(creds), LoginEvent::LoginPage(page)) => {
                let Credentials { login, password } = creds;
                match data_for_login(login, password, page.as_str()) {
                    Ok(form) => LoginProgress::Next(
                        Login { stage: LoginStage::AwaitingAnswer },
                        LoginRequest::SubmitLogin(form),
                    ),
                    Err(e) => LoginProgress::Failed(e),
                }
            },
            (LoginStage::AwaitingAnswer, LoginEvent::LoginAnswered(answer)) => {
                match classify(answer) {
                    Err(e) => LoginProgress::Failed(e),
                    Ok(resp) => match redirect_of(resp) {
                        Ok(url) => LoginProgress::Next(
                            Login { stage: LoginStage::AwaitingRedirect },
                            LoginRequest::FollowRedirect(url),
                        ),
                        Err(e) => LoginProgress::Failed(e),
                    },
                }
            },
            (LoginStage::AwaitingRedirect, LoginEvent::RedirectFollowed) => LoginProgress::Next(
                Login { stage: LoginStage::AwaitingToken },
                LoginRequest::ExchangeToken,
            ),
            (LoginStage::AwaitingToken, LoginEvent::TokenAnswered(headers)) => {
                match extract_token(&headers) {
                    Ok(token) => {
                        let bearer = token.clone();
                        LoginProgress::Next(
                            Login { stage: LoginStage::AwaitingAccount(token) },
                            LoginRequest::LookupAccount(bearer),
                        )
                    },
                    Err(e) => LoginProgress::Failed(e),
                }
            },
            (LoginStage::AwaitingAccount(token), LoginEvent::AccountAnswered(users)) => {
                match account_of(&users) {
                    Ok(user_id) => LoginProgress::Done(Session { token, user_id }),
                    Err(e) => LoginProgress::Failed(e),
                }
            },
            _ => LoginProgress::Failed(unexpected_event()),
        }
    }
}

/// A refused login ends the handshake: whatever the handshake waits for
/// when the answer comes, an answer in the shape of a refusal yields no
/// further request; where the handshake waits for it, the failure is
/// `AuthenticationFailed` with the message of the remote side.
pub proof fn lemma_refused_login_ends(l: LoginView, answer: LoginAnswer)
    requires
        answer.redirect is None,
        answer.message is Some,
        answer.code is Some,
        answer.success == Some(false),
    ensures
        login_step_spec(l, LoginEvent::LoginAnswered(answer)) is Failed,
        l is AwaitingAnswer ==> login_step_spec(l, LoginEvent::LoginAnswered(answer))
            == LoginProgressView::Failed(Error::AuthenticationFailed(answer.message->0)),
{
}

/// The token exchange is asked for at one point only: when the redirect
/// target has been followed. No other state and no other event lead to it.
pub proof fn lemma_token_exchange_follows_redirect(l: LoginView, event: LoginEvent)
    requires
        login_step_spec(l, event) matches LoginProgressView::Next(_, request)
            && request is ExchangeToken,
    ensures
        l is AwaitingRedirect,
        event is RedirectFollowed,
{
}

} // verus!
