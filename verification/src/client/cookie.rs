//! Finding the bearer credential among the cookies that the token exchange
//! sets.

use crate::error::Error;
use crate::text::chars_of;
use crate::text::texts_of;
use vstd::prelude::*;
use vstd::string::StrSliceExecFns;
use vstd::string::StringExecFns;

verus! {

/// The text of `s` before the first `stop`, or all of it where there is
/// none.
pub open spec fn until(s: Seq<char>, stop: char) -> Seq<char>
    decreases s.len(),
{
    if s.len() == 0 || s[0] == stop {
        Seq::empty()
    } else {
        seq![s[0]] + until(s.drop_first(), stop)
    }
}

/// The credential that one `set-cookie` value carries: where the value
/// begins with `token_global=`, the text between that and the first `;`
/// (or the end); `None` for any other cookie.
pub open spec fn cookie_value(header: Seq<char>) -> Option<Seq<char>> {
    let name = "token_global="@;
    if name.is_prefix_of(header) {
        Some(until(header.skip(name.len() as int), ';'))
    } else {
        None
    }
}

/// The credential of the first cookie that carries one.
pub open spec fn first_token(headers: Seq<Seq<char>>) -> Option<Seq<char>>
    decreases headers.len(),
{
    if headers.len() == 0 {
        None
    } else {
        match cookie_value(headers.first()) {
            Some(value) => Some(value),
            None => first_token(headers.drop_first()),
        }
    }
}

/// The error of a token exchange that set no cookie at all.
pub open spec fn no_cookie() -> Error {
    Error::ProtocolViolation("no set-cookie header")
}

/// The error of a token exchange none of whose cookies is the credential.
pub open spec fn no_token() -> Error {
    Error::ProtocolViolation("jwt not found in cookies")
}

/// What the `set-cookie` values of the token exchange yield: the credential
/// of the first cookie that carries one. Without any value, and without a
/// cookie of that name, the exchange has violated the protocol.
pub open spec fn extract_token_spec(headers: Seq<Seq<char>>) -> Result<Seq<char>, Error> {
    if headers.len() == 0 {
        Err(no_cookie())
    } else {
        match first_token(headers) {
            Some(value) => Ok(value),
            None => Err(no_token()),
        }
    }
}

/// A scan that met no `stop` before `j`, and stands at one or at the end,
/// has found the text before the first `stop`.
proof fn lemma_until(s: Seq<char>, stop: char, j: int)
    requires
        0 <= j <= s.len(),
        forall|k: int| 0 <= k < j ==> s[k] != stop,
        j == s.len() || s[j] == stop,
    ensures
        until(s, stop) == s.take(j),
    decreases j,
{
    if j == 0 {
        assert(s.take(0) =~= Seq::<char>::empty());
    } else {
        let rest = s.drop_first();
        assert forall|k: int| 0 <= k < j - 1 implies rest[k] != stop by {
            assert(rest[k] == s[k + 1]);
        }
        lemma_until(rest, stop, j - 1);
        assert(seq![s[0]] + rest.take(j - 1) =~= s.take(j));
    }
}

/// Reads one `set-cookie` value: the credential, if this is its cookie.
pub fn cookie_token(header: &str) -> (token: Option<String>)
    ensures
        match token {
            Some(t) => cookie_value(header@) == Some(t@),
            None => cookie_value(header@) is None,
        },
{
    let chars = chars_of(header);
    let name = chars_of("token_global=");
    let ghost wanted = "token_global="@;
    if chars.len() < name.len() {
        return None;
    }
    let mut i: usize = 0;
    while i < name.len()
        invariant
            i <= name.len() <= chars.len(),
            chars@ == header@,
            name@ == wanted,
            wanted == "token_global="@,
            forall|k: int| 0 <= k < i ==> chars@[k] == name@[k],
        decreases name.len() - i,
    {
        if chars[i] != name[i] {
            proof {
                let head = header@.subrange(0, wanted.len() as int);
                assert(head[i as int] != wanted[i as int]);
                assert(head != wanted);
            }
            return None;
        }
        i += 1;
    }
    assert(header@.subrange(0, wanted.len() as int) =~= wanted);
    let from = name.len();
    let mut j: usize = from;
    let ghost rest = header@.skip(from as int);
    while j < chars.len() && chars[j] != ';'
        invariant
            from <= j <= chars.len(),
            chars@ == header@,
            rest == header@.skip(from as int),
            forall|k: int| 0 <= k < j - from ==> rest[k] != ';',
        decreases chars.len() - j,
    {
        j += 1;
    }
    proof {
        lemma_until(rest, ';', j - from);
        assert(rest.take(j - from) =~= header@.subrange(from as int, j as int));
    }
    Some(String::from_str(header.substring_char(from, j)))
}

/// Finds the bearer credential in the `set-cookie` values of the token
/// exchange, taken in the order in which they were received.
pub fn extract_token(headers: &Vec<String>) -> (r: Result<String, Error>)
    ensures
        match r {
            Ok(token) => extract_token_spec(texts_of(headers@)) == Ok::<Seq<char>, Error>(token@),
            Err(e) => extract_token_spec(texts_of(headers@)) == Err::<Seq<char>, Error>(e),
        },
{
    if headers.len() == 0 {
        return Err(Error::ProtocolViolation("no set-cookie header"));
    }
    let ghost all = texts_of(headers@);
    assert(all.skip(0) =~= all);
    let mut i: usize = 0;
    while i < headers.len()
        invariant
            i <= headers.len(),
            all == texts_of(headers@),
            first_token(all) == first_token(all.skip(i as int)),
        decreases headers.len() - i,
    {
        let ghost here = all.skip(i as int);
        assert(here.first() == headers@[i as int]@);
        assert(here.drop_first() =~= all.skip(i + 1));
        match cookie_token(headers[i].as_str()) {
            Some(token) => {
                return Ok(token);
            },
            None => {},
        }
        i += 1;
    }
    assert(all.skip(i as int).len() == 0);
    Err(Error::ProtocolViolation("jwt not found in cookies"))
}

} // verus!
