//! The addresses of the remote account.

use crate::pagination::PageRequest;
use crate::text::decimal;
use crate::text::decimal_spec;
use crate::text::join;
use crate::text::join_spec;
use crate::text::texts_of;
use vstd::prelude::*;
use vstd::string::StringExecFns;

verus! {

/// The login page.
pub const LOGIN_PAGE: &'static str = "https://id.skyeng.ru/login";

/// Where the login form is posted.
pub const LOGIN_SUBMIT: &'static str = "https://id.skyeng.ru/frame/login-submit";

/// The token exchange.
pub const TOKEN_EXCHANGE: &'static str = "https://id.skyeng.ru/user-api/v1/auth/jwt";

/// The account lookup.
pub const ACCOUNT_LOOKUP: &'static str = "https://api-student.skyeng.ru/api/v2/users";

/// The default collection.
pub const DEFAULT_WORDSET: &'static str =
    "https://api-words.skyeng.ru/api/for-mobile/v1/wordsets/default.json";

/// The address of one page of the collections of the account `student`.
pub open spec fn wordsets_page_spec(student: i32, page: PageRequest) -> Seq<char> {
    "https://api-words.skyeng.ru/api/for-vimbox/v1/wordsets.json?studentId="@ + decimal_spec(
        student as int,
    ) + "&pageSize="@ + decimal_spec(page.page_size as int) + "&page="@ + decimal_spec(
        page.page as int,
    )
}

/// The address of one page of the members of the collection `wordset` in
/// the account `student`.
pub open spec fn words_of_wordset_spec(student: i32, wordset: i32, page: PageRequest) -> Seq<
    char,
> {
    "https://api-words.skyeng.ru/api/v1/wordsets/"@ + decimal_spec(wordset as int)
        + "/words.json?studentId="@ + decimal_spec(student as int) + "&wordsetId="@
        + decimal_spec(wordset as int) + "&pageSize="@ + decimal_spec(page.page_size as int)
        + "&page="@ + decimal_spec(page.page as int) + "&acceptLanguage=ru"@
}

/// The ids of a group in decimal.
pub open spec fn decimals_spec(ids: Seq<i32>) -> Seq<Seq<char>> {
    Seq::new(ids.len(), |i: int| decimal_spec(ids[i] as int))
}

/// The address that resolves the entry ids `ids`: they are given in
/// decimal, joined by commas.
pub open spec fn meanings_spec(ids: Seq<i32>) -> Seq<char> {
    "https://dictionary.skyeng.ru/api/for-services/v2/meanings?ids="@ + join_spec(
        decimals_spec(ids),
        ","@,
    ) + "&acceptLanguage=ru"@
}

/// Writes the address of one page of the collections of the account.
pub fn wordsets_page(student: i32, page: PageRequest) -> (url: String)
    ensures
        url@ == wordsets_page_spec(student, page),
{
    let mut url = String::from_str(
        "https://api-words.skyeng.ru/api/for-vimbox/v1/wordsets.json?studentId=",
    );
    url.append(decimal(student as i64).as_str());
    url.append("&pageSize=");
    url.append(decimal(page.page_size as i64).as_str());
    url.append("&page=");
    url.append(decimal(page.page as i64).as_str());
    url
}

/// Writes the address of one page of the members of a collection.
pub fn words_of_wordset(student: i32, wordset: i32, page: PageRequest) -> (url: String)
    ensures
        url@ == words_of_wordset_spec(student, wordset, page),
{
    let mut url = String::from_str("https://api-words.skyeng.ru/api/v1/wordsets/");
    url.append(decimal(wordset as i64).as_str());
    url.append("/words.json?studentId=");
    url.append(decimal(student as i64).as_str());
    url.append("&wordsetId=");
    url.append(decimal(wordset as i64).as_str());
    url.append("&pageSize=");
    url.append(decimal(page.page_size as i64).as_str());
    url.append("&page=");
    url.append(decimal(page.page as i64).as_str());
    url.append("&acceptLanguage=ru");
    url
}

/// Writes the address that resolves a group of entry ids.
pub fn meanings(ids: &Vec<i32>) -> (url: String)
    ensures
        url@ == meanings_spec(ids@),
{
    let mut parts: Vec<String> = Vec::new();
    let mut i: usize = 0;
    while i < ids.len()
        invariant
            i <= ids.len(),
            parts.len() == i,
            texts_of(parts@) == decimals_spec(ids@.take(i as int)),
        decreases ids.len() - i,
    {
        let ghost before = parts@;
        parts.push(decimal(ids[i] as i64));
        i += 1;
        assert forall|j: int| 0 <= j < parts.len() implies texts_of(parts@)[j] == decimals_spec(
            ids@.take(i as int),
        )[j] by {
            if j < i - 1 {
                assert(texts_of(before)[j] == decimals_spec(ids@.take(i - 1))[j]);
            }
        }
        assert(texts_of(parts@) =~= decimals_spec(ids@.take(i as int)));
    }
    assert(ids@.take(i as int) =~= ids@);
    let mut url = String::from_str("https://dictionary.skyeng.ru/api/for-services/v2/meanings?ids=");
    url.append(join(&parts, ",").as_str());
    url.append("&acceptLanguage=ru");
    url
}

} // verus!
