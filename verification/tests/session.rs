use skyeng_words::client::client::account_of;
use skyeng_words::client::client::classify;
use skyeng_words::client::client::login;
use skyeng_words::client::client::redirect_of;
use skyeng_words::client::client::Credentials;
use skyeng_words::client::client::LoginAnswer;
use skyeng_words::client::client::LoginEvent;
use skyeng_words::client::client::LoginProgress;
use skyeng_words::client::client::LoginRequest;
use skyeng_words::client::cookie::cookie_token;
use skyeng_words::client::cookie::extract_token;
use skyeng_words::client::form::data_for_login;
use skyeng_words::client::form::hidden_fields;
use skyeng_words::client::form::login_form;
use skyeng_words::client::form::FormData;
use skyeng_words::client::html::HtmlNode;
use skyeng_words::client::models::LoginResp;
use skyeng_words::client::models::User;
use skyeng_words::client::models::Users;
use skyeng_words::error::Error;

const PAGE: &str = r#"<!DOCTYPE html>
<html>
  <head><title>Login</title></head>
  <body>
    <form class="other" action="/elsewhere"><input type="hidden" name="decoy" value="1"></form>
    <form   class="authentication-page__form wide"  method="post" action="/frame/login-submit" >
      <!-- tokens -->
      <input type="hidden" name="csrfToken" value="abc123" data-extra="x">
      <input   value="/after"   name="redirect"  type="hidden" >
      <input type="text" name="username">
      <input type="password" name="password">
      <label>Remember <input type="hidden" name="nested" value="no"></label>
      <button type="submit">Log in</button>
    </form>
  </body>
</html>"#;

fn s(text: &str) -> String {
    text.to_string()
}

fn pairs(form: FormData) -> Vec<(String, String)> {
    let mut all = form.into_pairs();
    all.sort();
    all
}

fn creds() -> Credentials {
    Credentials::new(s("ann"), s("secret"))
}

fn success(redirect: &str) -> LoginAnswer {
    LoginAnswer { redirect: Some(s(redirect)), message: None, code: None, success: Some(true) }
}

fn refusal(message: &str) -> LoginAnswer {
    LoginAnswer {
        redirect: None,
        message: Some(s(message)),
        code: Some(s("bad_credentials")),
        success: Some(false),
    }
}

fn next(progress: LoginProgress) -> (skyeng_words::client::client::Login, LoginRequest) {
    match progress {
        LoginProgress::Next(state, request) => (state, request),
        LoginProgress::Done(_) => panic!("the handshake is not over yet"),
        LoginProgress::Failed(e) => panic!("the handshake failed: {e:?}"),
    }
}

fn failed(progress: LoginProgress) -> Error {
    match progress {
        LoginProgress::Failed(e) => e,
        _ => panic!("the handshake should have failed"),
    }
}

#[test]
fn login_form_holds_credentials_and_hidden_fields() {
    let form = data_for_login(s("ann"), s("secret"), PAGE).unwrap();
    assert_eq!(
        pairs(form),
        vec![
            (s("csrfToken"), s("abc123")),
            (s("password"), s("secret")),
            (s("redirect"), s("/after")),
            (s("username"), s("ann")),
        ]
    );
}

#[test]
fn page_without_the_form_is_a_protocol_violation() {
    let page = "<html><body><form action=\"/frame/login-submit\"></form></body></html>";
    assert_eq!(
        data_for_login(s("ann"), s("secret"), page),
        Err(Error::ProtocolViolation("login form not found"))
    );
    assert_eq!(
        data_for_login(s("ann"), s("secret"), ""),
        Err(Error::ProtocolViolation("login form not found"))
    );
}

#[test]
fn form_without_hidden_fields_holds_the_credentials_alone() {
    let page = "<form class=\"authentication-page__form\" action=\"/frame/login-submit\">\
                <input type=\"text\" name=\"username\"></form>";
    let form = data_for_login(s("ann"), s("secret"), page).unwrap();
    assert_eq!(pairs(form), vec![(s("password"), s("secret")), (s("username"), s("ann"))]);
}

#[test]
fn hidden_field_without_value_is_a_protocol_violation() {
    let page = "<form class=\"authentication-page__form\" action=\"/frame/login-submit\">\
                <input type=\"hidden\" name=\"csrf\"></form>";
    assert_eq!(
        data_for_login(s("ann"), s("secret"), page),
        Err(Error::ProtocolViolation("hidden field without name or value"))
    );
}

#[test]
fn hidden_field_named_like_a_credential_replaces_it() {
    let nodes = vec![HtmlNode::Element {
        tag: s("input"),
        first: Some(s("hidden")),
        second: Some(s("username")),
        third: Some(s("bob")),
    }];
    let form = login_form(s("ann"), s("secret"), Some(nodes)).unwrap();
    assert_eq!(pairs(form), vec![(s("password"), s("secret")), (s("username"), s("bob"))]);
}

#[test]
fn hidden_fields_pass_over_everything_else() {
    let nodes = vec![
        HtmlNode::Other,
        HtmlNode::Element { tag: s("input"), first: None, second: Some(s("a")), third: Some(s("1")) },
        HtmlNode::Element {
            tag: s("input"),
            first: Some(s("text")),
            second: Some(s("b")),
            third: Some(s("2")),
        },
        HtmlNode::Element {
            tag: s("select"),
            first: Some(s("hidden")),
            second: Some(s("c")),
            third: Some(s("3")),
        },
        HtmlNode::Element {
            tag: s("input"),
            first: Some(s("hidden")),
            second: Some(s("d")),
            third: Some(s("4")),
        },
    ];
    assert_eq!(hidden_fields(&nodes), Ok(vec![(s("d"), s("4"))]));
}

#[test]
fn form_data_replaces_and_finds() {
    let form = FormData::new().insert(s("a"), s("1")).insert(s("b"), s("2")).insert(s("a"), s("3"));
    assert_eq!(form.get(&s("a")), Some(&s("3")));
    assert_eq!(form.get(&s("b")), Some(&s("2")));
    assert_eq!(form.get(&s("c")), None);
    assert_eq!(form.into_pairs().len(), 2);
}

#[test]
fn cookie_token_reads_the_named_cookie() {
    assert_eq!(cookie_token("token_global=abc.def; Path=/; HttpOnly"), Some(s("abc.def")));
    assert_eq!(cookie_token("token_global=abc"), Some(s("abc")));
    assert_eq!(cookie_token("token_global=;"), Some(s("")));
    assert_eq!(cookie_token("session=1; token_global=abc"), None);
    assert_eq!(cookie_token("token_globa"), None);
    assert_eq!(cookie_token(""), None);
}

#[test]
fn first_cookie_with_the_name_gives_the_token() {
    let headers = vec![s("session=1; Path=/"), s("token_global=first; Path=/"), s("token_global=second;")];
    assert_eq!(extract_token(&headers), Ok(s("first")));
}

#[test]
fn missing_cookie_is_a_protocol_violation() {
    assert_eq!(extract_token(&vec![]), Err(Error::ProtocolViolation("no set-cookie header")));
    assert_eq!(
        extract_token(&vec![s("session=1; Path=/")]),
        Err(Error::ProtocolViolation("jwt not found in cookies"))
    );
}

#[test]
fn answers_are_told_apart_by_their_fields() {
    assert_eq!(
        classify(success("https://id/next")),
        Ok(LoginResp::Success { redirect: s("https://id/next"), success: true })
    );
    assert_eq!(
        classify(refusal("invalid password")),
        Ok(LoginResp::Failed {
            message: s("invalid password"),
            code: s("bad_credentials"),
            success: false,
        })
    );
    let neither = LoginAnswer { redirect: None, message: Some(s("m")), code: None, success: Some(false) };
    assert_eq!(classify(neither), Err(Error::ProtocolViolation("login response not recognised")));
    let flagless = LoginAnswer { redirect: Some(s("r")), message: None, code: None, success: None };
    assert_eq!(classify(flagless), Err(Error::ProtocolViolation("login response not recognised")));
}

#[test]
fn flag_that_contradicts_the_shape_is_a_protocol_violation() {
    assert_eq!(
        redirect_of(LoginResp::Success { redirect: s("r"), success: false }),
        Err(Error::ProtocolViolation("login response inconsistent"))
    );
    assert_eq!(
        redirect_of(LoginResp::Failed { message: s("m"), code: s("c"), success: true }),
        Err(Error::ProtocolViolation("login response inconsistent"))
    );
}

#[test]
fn account_is_the_first_record() {
    assert_eq!(account_of(&Users { users: vec![User { id: 7 }, User { id: 8 }] }), Ok(7));
    assert_eq!(
        account_of(&Users { users: vec![] }),
        Err(Error::ProtocolViolation("no account record"))
    );
}

#[test]
fn handshake_opens_a_session() {
    let (state, request) = next(login(creds()));
    assert_eq!(request, LoginRequest::GetLoginPage);
    let (state, request) = next(state.step(LoginEvent::LoginPage(s(PAGE))));
    match request {
        LoginRequest::SubmitLogin(form) => {
            assert_eq!(form.get(&s("username")), Some(&s("ann")));
            assert_eq!(form.get(&s("password")), Some(&s("secret")));
            assert_eq!(form.get(&s("csrfToken")), Some(&s("abc123")));
            assert_eq!(form.get(&s("decoy")), None);
            assert_eq!(form.get(&s("nested")), None);
        }
        other => panic!("the form is due, not {other:?}"),
    }
    let (state, request) = next(state.step(LoginEvent::LoginAnswered(success("https://id/next"))));
    assert_eq!(request, LoginRequest::FollowRedirect(s("https://id/next")));
    let (state, request) = next(state.step(LoginEvent::RedirectFollowed));
    assert_eq!(request, LoginRequest::ExchangeToken);
    let cookies = vec![s("lang=ru; Path=/"), s("token_global=jwt.value; Domain=.skyeng.ru")];
    let (state, request) = next(state.step(LoginEvent::TokenAnswered(cookies)));
    assert_eq!(request, LoginRequest::LookupAccount(s("jwt.value")));
    let users = Users { users: vec![User { id: 4242 }] };
    match state.step(LoginEvent::AccountAnswered(users)) {
        LoginProgress::Done(session) => {
            assert_eq!(session.token(), "jwt.value");
            assert_eq!(session.user_id(), 4242);
            assert_eq!(session.authorization(), "Bearer jwt.value");
        }
        _ => panic!("the session should be open"),
    }
}

#[test]
fn refused_login_fails_with_the_message_and_asks_for_nothing_more() {
    let (state, _) = next(login(creds()));
    let (state, _) = next(state.step(LoginEvent::LoginPage(s(PAGE))));
    let outcome = state.step(LoginEvent::LoginAnswered(refusal("invalid password")));
    assert_eq!(failed(outcome), Error::AuthenticationFailed(s("invalid password")));
}

#[test]
fn lookup_without_records_fails_the_handshake() {
    let (state, _) = next(login(creds()));
    let (state, _) = next(state.step(LoginEvent::LoginPage(s(PAGE))));
    let (state, _) = next(state.step(LoginEvent::LoginAnswered(success("u"))));
    let (state, _) = next(state.step(LoginEvent::RedirectFollowed));
    let (state, _) = next(state.step(LoginEvent::TokenAnswered(vec![s("token_global=t;")])));
    let outcome = state.step(LoginEvent::AccountAnswered(Users { users: vec![] }));
    assert_eq!(failed(outcome), Error::ProtocolViolation("no account record"));
}

#[test]
fn handshake_passes_failures_on() {
    let (state, _) = next(login(creds()));
    let reason = Error::TransientNetworkFailure(s("timeout"));
    assert_eq!(failed(state.step(LoginEvent::Failed(reason.clone()))), reason);
}

#[test]
fn handshake_refuses_an_event_out_of_turn() {
    let (state, _) = next(login(creds()));
    assert_eq!(
        failed(state.step(LoginEvent::RedirectFollowed)),
        Error::ProtocolViolation("event does not answer the pending request")
    );
}

#[test]
fn token_exchange_without_the_cookie_fails_the_handshake() {
    let (state, _) = next(login(creds()));
    let (state, _) = next(state.step(LoginEvent::LoginPage(s(PAGE))));
    let (state, _) = next(state.step(LoginEvent::LoginAnswered(success("u"))));
    let (state, _) = next(state.step(LoginEvent::RedirectFollowed));
    assert_eq!(
        failed(state.step(LoginEvent::TokenAnswered(vec![]))),
        Error::ProtocolViolation("no set-cookie header")
    );
}
