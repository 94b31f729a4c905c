//! The answers of the remote account, as plain values.

use crate::pagination::PageEnvelope;
use vstd::prelude::*;

verus! {

/// The answer to a submitted login: the remote side either names a redirect
/// target or explains why it refused.
#[derive(Debug, Clone, PartialEq, Eq)]
pub enum LoginResp {
    Success { redirect: String, success: bool },
    Failed { message: String, code: String, success: bool },
}

/// The answer to the account lookup.
#[derive(Debug, Clone, PartialEq, Eq)]
pub struct Users {
    pub users: Vec<User>,
}

/// One account record.
#[derive(Debug, Clone, Copy, PartialEq, Eq, Structural)]
pub struct User {
    pub id: i32,
}

/// The paging data that comes with every page of a remote list.
#[derive(Debug, Clone, Copy, PartialEq, Eq, Structural)]
pub struct MetaResp {
    pub total: i32,
    pub current_page: i32,
    pub last_page: i32,
    pub page_size: i32,
}

/// A collection of entries in the remote account.
#[derive(Debug, Clone, PartialEq, Eq)]
pub struct Wordset {
    pub id: i32,
    pub title: String,
}

/// One page of the list of collections.
#[derive(Debug, Clone, PartialEq, Eq)]
pub struct WordsetsResp {
    pub meta: MetaResp,
    pub data: Vec<Wordset>,
}

/// A member of a collection: a pointer to the entry it stands for.
#[derive(Debug, Clone, Copy, PartialEq, Eq, Structural)]
pub struct Word {
    pub meaning_id: i32,
}

/// One page of the members of a collection.
#[derive(Debug, Clone, PartialEq, Eq)]
pub struct WordsResp {
    pub meta: MetaResp,
    pub data: Vec<Word>,
}

/// A dictionary entry: one sense of a word.
#[derive(Debug, Clone, PartialEq, Eq)]
pub struct Meaning {
    pub id: i32,
    pub word_id: i32,
    pub difficulty_level: Option<i8>,
    pub text: String,
    pub translation: TextFieldOnly,
    pub definition: Option<TextFieldOnly>,
    pub is_gold_3000: bool,
    pub examples: Vec<TextFieldOnly>,
}

/// A piece of text that the remote side wraps in an object.
#[derive(Debug, Clone, PartialEq, Eq)]
pub struct TextFieldOnly {
    pub text: String,
}

/// The collection that every account has without having made it.
#[derive(Debug, Clone, PartialEq, Eq)]
pub struct DefaultWordset {
    pub id: i32,
    pub title: String,
}

impl From<DefaultWordset> for Wordset {
    fn from(w: DefaultWordset) -> (r: Wordset)
        ensures
            r.id == w.id,
            r.title == w.title,
    {
        Wordset { id: w.id, title: w.title }
    }
}

impl vstd::std_specs::convert::FromSpecImpl<DefaultWordset> for Wordset {
    open spec fn obeys_from_spec() -> bool {
        true
    }

    open spec fn from_spec(w: DefaultWordset) -> Wordset {
        Wordset { id: w.id, title: w.title }
    }
}

/// A page of a remote list of `D`: its paging data and its items.
pub trait Resp<D> {
    /// The paging data of this page.
    spec fn meta(&self) -> MetaResp;

    /// The items of this page, in the order received.
    spec fn data(&self) -> Seq<D>;

    fn get_meta(&self) -> (m: &MetaResp)
        ensures
            *m == self.meta(),
    ;

    fn get_data(self) -> (d: Vec<D>)
        ensures
            d@ == self.data(),
    ;
}

impl Resp<Word> for WordsResp {
    open spec fn meta(&self) -> MetaResp {
        self.meta
    }

    open spec fn data(&self) -> Seq<Word> {
        self.data@
    }

    fn get_meta(&self) -> (m: &MetaResp) {
        &self.meta
    }

    fn get_data(self) -> (d: Vec<Word>) {
        self.data
    }
}

impl Resp<Wordset> for WordsetsResp {
    open spec fn meta(&self) -> MetaResp {
        self.meta
    }

    open spec fn data(&self) -> Seq<Wordset> {
        self.data@
    }

    fn get_meta(&self) -> (m: &MetaResp) {
        &self.meta
    }

    fn get_data(self) -> (d: Vec<Wordset>) {
        self.data
    }
}

/// The page that `resp` holds, as the pager takes it: the declared total of
/// its paging data with its items.
pub fn envelope<D, R: Resp<D>>(resp: R) -> (e: PageEnvelope<D>)
    ensures
        e.total == resp.meta().total,
        e.items@ == resp.data(),
{
    let total = resp.get_meta().total;
    PageEnvelope { total, items: resp.get_data() }
}

} // verus!
