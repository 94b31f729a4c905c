//! The fields of a form that is posted to the remote side: a map from field
//! names to values, kept as a list in which no name occurs twice.

use crate::client::html::first_match_children;
use crate::client::html::node_views;
use crate::client::html::nodes_view;
use crate::client::html::select_children;
use crate::client::html::HtmlNode;
use crate::client::html::HtmlNodeView;
use crate::error::Error;
use crate::text::same_text;
use vstd::prelude::*;
use vstd::string::StringExecFns;

verus! {

/// The names and values of a list of pairs.
pub open spec fn pairs_view(pairs: Seq<(String, String)>) -> Seq<(Seq<char>, Seq<char>)> {
    Seq::new(pairs.len(), |i: int| (pairs[i].0@, pairs[i].1@))
}

/// The map that comes of setting the pairs one after the other: where a name
/// occurs more than once, its last value stays.
pub open spec fn pairs_map(pairs: Seq<(Seq<char>, Seq<char>)>) -> Map<Seq<char>, Seq<char>>
    decreases pairs.len(),
{
    if pairs.len() == 0 {
        Map::empty()
    } else {
        pairs_map(pairs.drop_last()).insert(pairs.last().0, pairs.last().1)
    }
}

/// Whether no name occurs twice among the pairs.
pub open spec fn distinct_names(pairs: Seq<(Seq<char>, Seq<char>)>) -> bool {
    forall|i: int, j: int|
        0 <= i < j < pairs.len() ==> (#[trigger] pairs[i]).0 != (#[trigger] pairs[j]).0
}

/// A name is in the map of a list of pairs exactly if it is the name of one
/// of them.
pub proof fn lemma_pairs_map_dom(pairs: Seq<(Seq<char>, Seq<char>)>, name: Seq<char>)
    ensures
        pairs_map(pairs).contains_key(name) <==> exists|i: int|
            0 <= i < pairs.len() && (#[trigger] pairs[i]).0 == name,
    decreases pairs.len(),
{
    if pairs.len() > 0 {
        let front = pairs.drop_last();
        lemma_pairs_map_dom(front, name);
        if pairs.last().0 == name {
            assert(pairs[pairs.len() - 1].0 == name);
        } else if pairs_map(front).contains_key(name) {
            let i = choose|i: int| 0 <= i < front.len() && (#[trigger] front[i]).0 == name;
            assert(pairs[i].0 == name);
        } else if exists|i: int| 0 <= i < pairs.len() && (#[trigger] pairs[i]).0 == name {
            let i = choose|i: int| 0 <= i < pairs.len() && (#[trigger] pairs[i]).0 == name;
            assert(front[i].0 == name);
        }
    }
}

/// Where no name occurs twice, the map of a list of pairs gives each name
/// the value that stands beside it.
pub proof fn lemma_pairs_map_value(pairs: Seq<(Seq<char>, Seq<char>)>, i: int)
    requires
        distinct_names(pairs),
        0 <= i < pairs.len(),
    ensures
        pairs_map(pairs).contains_key(pairs[i].0),
        pairs_map(pairs)[pairs[i].0] == pairs[i].1,
    decreases pairs.len(),
{
    let front = pairs.drop_last();
    if i < pairs.len() - 1 {
        assert(pairs[i].0 != pairs[pairs.len() - 1].0);
        assert(distinct_names(front)) by {
            assert forall|a: int, b: int| 0 <= a < b < front.len() implies (#[trigger] front[a]).0
                != (#[trigger] front[b]).0 by {
                assert(pairs[a].0 != pairs[b].0);
            }
        }
        lemma_pairs_map_value(front, i);
        assert(front[i] == pairs[i]);
    }
}

/// The fields of a form. Setting a field that is there already replaces its
/// value.
#[derive(Debug, PartialEq, Eq)]
pub struct FormData {
    fields: Vec<(String, String)>,
}

impl View for FormData {
    type V = Map<Seq<char>, Seq<char>>;

    closed spec fn view(&self) -> Map<Seq<char>, Seq<char>> {
        pairs_map(pairs_view(self.fields@))
    }
}

impl FormData {
    #[verifier::type_invariant]
    spec fn inv(&self) -> bool {
        distinct_names(pairs_view(self.fields@))
    }

    /// A form without fields.
    pub fn new() -> (form: FormData)
        ensures
            form@ == Map::<Seq<char>, Seq<char>>::empty(),
    {
        FormData { fields: Vec::new() }
    }

    /// Sets the field `name` to `value`.
    pub fn insert(self, name: String, value: String) -> (form: FormData)
        ensures
            form@ == self@.insert(name@, value@),
    {
        proof {
            use_type_invariant(&self);
        }
        let mut fields = self.fields;
        let ghost before = pairs_view(fields@);
        let mut i: usize = 0;
        while i < fields.len()
            invariant
                i <= fields.len(),
                pairs_view(fields@) == before,
                self@ == pairs_map(before),
                distinct_names(before),
                forall|j: int| 0 <= j < i ==> (#[trigger] before[j]).0 != name@,
            decreases fields.len() - i,
        {
            if fields[i].0 == name {
                fields.set(i, (name, value));
                proof {
                    let after = pairs_view(fields@);
                    assert(after =~= before.update(i as int, (name@, value@)));
                    assert(before[i as int].0 == name@);
                    lemma_update_value(before, i as int, value@);
                }
                return FormData { fields };
            }
            assert(before[i as int].0 == fields@[i as int].0@);
            i += 1;
        }
        fields.push((name, value));
        proof {
            let after = pairs_view(fields@);
            assert(after =~= before.push((name@, value@)));
            assert(after.drop_last() =~= before);
            assert forall|a: int, b: int| 0 <= a < b < after.len() implies (#[trigger] after[a]).0
                != (#[trigger] after[b]).0 by {
                if b < before.len() {
                    assert(before[a].0 != before[b].0);
                } else {
                    assert(before[a].0 != name@);
                }
            }
        }
        FormData { fields }
    }

    /// The value of the field `name`, if the form has one.
    pub fn get(&self, name: &String) -> (value: Option<&String>)
        ensures
            match value {
                Some(v) => self@.contains_key(name@) && self@[name@] == v@,
                None => !self@.contains_key(name@),
            },
    {
        proof {
            use_type_invariant(self);
        }
        let ghost pairs = pairs_view(self.fields@);
        let mut i: usize = 0;
        while i < self.fields.len()
            invariant
                i <= self.fields.len(),
                pairs == pairs_view(self.fields@),
                distinct_names(pairs),
                forall|j: int| 0 <= j < i ==> (#[trigger] pairs[j]).0 != name@,
            decreases self.fields.len() - i,
        {
            if self.fields[i].0 == *name {
                proof {
                    assert(pairs[i as int].0 == name@);
                    lemma_pairs_map_value(pairs, i as int);
                }
                return Some(&self.fields[i].1);
            }
            assert(pairs[i as int].0 == self.fields@[i as int].0@);
            i += 1;
        }
        proof {
            lemma_pairs_map_dom(pairs, name@);
        }
        None
    }

    /// The fields as pairs of name and value, each name once.
    pub fn into_pairs(self) -> (pairs: Vec<(String, String)>)
        ensures
            distinct_names(pairs_view(pairs@)),
            pairs_map(pairs_view(pairs@)) == self@,
    {
        proof {
            use_type_invariant(&self);
        }
        self.fields
    }
}

/// Replacing the value beside a name, in a list where no name occurs twice,
/// sets that name in the map and keeps the names apart.
proof fn lemma_update_value(pairs: Seq<(Seq<char>, Seq<char>)>, i: int, value: Seq<char>)
    requires
        distinct_names(pairs),
        0 <= i < pairs.len(),
    ensures
        distinct_names(pairs.update(i, (pairs[i].0, value))),
        pairs_map(pairs.update(i, (pairs[i].0, value))) == pairs_map(pairs).insert(
            pairs[i].0,
            value,
        ),
{
    let name = pairs[i].0;
    let after = pairs.update(i, (name, value));
    assert(distinct_names(after)) by {
        assert forall|a: int, b: int| 0 <= a < b < after.len() implies (#[trigger] after[a]).0 != (
        #[trigger] after[b]).0 by {
            assert(pairs[a].0 != pairs[b].0);
        }
    }
    let left = pairs_map(after);
    let right = pairs_map(pairs).insert(name, value);
    assert forall|k: Seq<char>| left.contains_key(k) <==> right.contains_key(k) by {
        lemma_pairs_map_dom(after, k);
        lemma_pairs_map_dom(pairs, k);
        if exists|j: int| 0 <= j < after.len() && (#[trigger] after[j]).0 == k {
            let j = choose|j: int| 0 <= j < after.len() && (#[trigger] after[j]).0 == k;
            assert(pairs[j].0 == k);
        }
        if exists|j: int| 0 <= j < pairs.len() && (#[trigger] pairs[j]).0 == k {
            let j = choose|j: int| 0 <= j < pairs.len() && (#[trigger] pairs[j]).0 == k;
            assert(after[j].0 == k);
        }
        if k == name {
            assert(after[i].0 == k);
        }
    }
    assert forall|k: Seq<char>| left.contains_key(k) implies left[k] == right[k] by {
        lemma_pairs_map_dom(after, k);
        let j = choose|j: int| 0 <= j < after.len() && (#[trigger] after[j]).0 == k;
        lemma_pairs_map_value(after, j);
        if j != i {
            assert(pairs[j].0 == k);
            assert(k != name) by {
                if j < i {
                    assert(pairs[j].0 != pairs[i].0);
                } else {
                    assert(pairs[i].0 != pairs[j].0);
                }
            }
            lemma_pairs_map_value(pairs, j);
        }
    }
    assert(left =~= right);
}

/// The error of a login page without the login form.
pub open spec fn form_missing() -> Error {
    Error::ProtocolViolation("login form not found")
}

/// The error of a login form with a hidden field that lacks its name or its
/// value.
pub open spec fn field_malformed() -> Error {
    Error::ProtocolViolation("hidden field without name or value")
}

/// Whether the node is a hidden input: an `input` element whose first
/// attribute, its type, is `hidden`.
pub open spec fn is_hidden_input(node: HtmlNodeView) -> bool {
    match node {
        HtmlNodeView::Element { tag, first, .. } => tag == "input"@ && first == Some("hidden"@),
        HtmlNodeView::Other => false,
    }
}

/// The names and values of the hidden inputs among `nodes`, in order, where
/// the second attribute of a node is its name and the third its value. A
/// hidden input that lacks either makes the page malformed. Every other
/// node is passed over.
pub open spec fn hidden_fields_spec(nodes: Seq<HtmlNodeView>) -> Result<
    Seq<(Seq<char>, Seq<char>)>,
    Error,
>
    decreases nodes.len(),
{
    if nodes.len() == 0 {
        Ok(Seq::empty())
    } else {
        match hidden_fields_spec(nodes.drop_last()) {
            Err(e) => Err(e),
            Ok(pairs) => if is_hidden_input(nodes.last()) {
                match nodes.last() {
                    HtmlNodeView::Element { second: Some(name), third: Some(value), .. } => Ok(
                        pairs.push((name, value)),
                    ),
                    _ => Err(field_malformed()),
                }
            } else {
                Ok(pairs)
            },
        }
    }
}

/// The form that logs in with `login` and `password` on a page whose login
/// form has the children `nodes`: the user name, the password and every
/// hidden field of the form, set in that order. `None` stands for a page
/// without the form.
pub open spec fn login_form_spec(
    login: Seq<char>,
    password: Seq<char>,
    nodes: Option<Seq<HtmlNodeView>>,
) -> Result<Map<Seq<char>, Seq<char>>, Error> {
    match nodes {
        None => Err(form_missing()),
        Some(nodes) => match hidden_fields_spec(nodes) {
            Err(e) => Err(e),
            Ok(pairs) => Ok(
                pairs_map(seq![("username"@, login), ("password"@, password)] + pairs),
            ),
        },
    }
}

/// Collects the hidden fields among the children of a form.
pub fn hidden_fields(nodes: &Vec<HtmlNode>) -> (r: Result<Vec<(String, String)>, Error>)
    ensures
        match r {
            Ok(pairs) => hidden_fields_spec(node_views(nodes@)) == Ok::<
                Seq<(Seq<char>, Seq<char>)>,
                Error,
            >(pairs_view(pairs@)),
            Err(e) => hidden_fields_spec(node_views(nodes@)) == Err::<
                Seq<(Seq<char>, Seq<char>)>,
                Error,
            >(e),
        },
{
    let ghost all = node_views(nodes@);
    let mut pairs: Vec<(String, String)> = Vec::new();
    let mut i: usize = 0;
    assert(all.take(0) =~= Seq::<HtmlNodeView>::empty());
    assert(pairs_view(pairs@) =~= Seq::<(Seq<char>, Seq<char>)>::empty());
    while i < nodes.len()
        invariant
            i <= nodes.len(),
            all == node_views(nodes@),
            hidden_fields_spec(all.take(i as int)) == Ok::<Seq<(Seq<char>, Seq<char>)>, Error>(
                pairs_view(pairs@),
            ),
        decreases nodes.len() - i,
    {
        let ghost upto = all.take(i + 1);
        assert(upto.drop_last() =~= all.take(i as int));
        assert(upto.last() == nodes@[i as int]@);
        let ghost before = pairs_view(pairs@);
        match &nodes[i] {
            HtmlNode::Element { tag, first: Some(kind), second, third } => {
                if same_text(tag.as_str(), "input") && same_text(kind.as_str(), "hidden") {
                    match (second, third) {
                        (Some(name), Some(value)) => {
                            pairs.push((name.clone(), value.clone()));
                            assert(pairs_view(pairs@) =~= before.push((name@, value@)));
                        },
                        _ => {
                            proof {
                                lemma_hidden_fields_fail(all, i as int);
                            }
                            return Err(
                                Error::ProtocolViolation("hidden field without name or value"),
                            );
                        },
                    }
                }
            },
            _ => {},
        }
        i += 1;
    }
    assert(all.take(i as int) =~= all);
    Ok(pairs)
}

/// Once the hidden fields of a part of the children are malformed, those of
/// all the children are.
proof fn lemma_hidden_fields_fail(nodes: Seq<HtmlNodeView>, i: int)
    requires
        0 <= i < nodes.len(),
        hidden_fields_spec(nodes.take(i + 1)) == Err::<Seq<(Seq<char>, Seq<char>)>, Error>(
            field_malformed(),
        ),
    ensures
        hidden_fields_spec(nodes) == Err::<Seq<(Seq<char>, Seq<char>)>, Error>(field_malformed()),
    decreases nodes.len() - i,
{
    if i + 1 == nodes.len() {
        assert(nodes.take(i + 1) =~= nodes);
    } else {
        let longer = nodes.take(i + 2);
        assert(longer.drop_last() =~= nodes.take(i + 1));
        lemma_hidden_fields_fail(nodes, i + 1);
    }
}

/// Builds the form that logs in, from the children of the login form as
/// the parser returned them.
pub fn login_form(login: String, password: String, nodes: Option<Vec<HtmlNode>>) -> (r: Result<
    FormData,
    Error,
>)
    ensures
        match r {
            Ok(form) => login_form_spec(login@, password@, nodes_view(nodes)) == Ok::<
                Map<Seq<char>, Seq<char>>,
                Error,
            >(form@),
            Err(e) => login_form_spec(login@, password@, nodes_view(nodes)) == Err::<
                Map<Seq<char>, Seq<char>>,
                Error,
            >(e),
        },
{
    let nodes = match nodes {
        Some(nodes) => nodes,
        None => {
            return Err(Error::ProtocolViolation("login form not found"));
        },
    };
    let found = match hidden_fields(&nodes) {
        Ok(found) => found,
        Err(e) => {
            return Err(e);
        },
    };
    let ghost hidden = pairs_view(found@);
    let ghost head = seq![("username"@, login@), ("password"@, password@)];
    let mut form = FormData::new();
    form = form.insert(String::from_str("username"), login);
    proof {
        let one = head.take(1);
        let none = Seq::<(Seq<char>, Seq<char>)>::empty();
        assert(one.drop_last() =~= none);
        assert(pairs_map(none) == Map::<Seq<char>, Seq<char>>::empty());
        assert(one.last() == ("username"@, login@));
        assert(pairs_map(one) == form@);
        assert(head.drop_last() =~= one);
    }
    form = form.insert(String::from_str("password"), password);
    assert(form@ == pairs_map(head));
    assert(head + hidden.take(0) =~= head);
    let mut i: usize = 0;
    while i < found.len()
        invariant
            i <= found.len(),
            hidden == pairs_view(found@),
            form@ == pairs_map(head + hidden.take(i as int)),
        decreases found.len() - i,
    {
        let ghost upto = head + hidden.take(i + 1);
        assert(upto.drop_last() =~= head + hidden.take(i as int));
        form = form.insert(found[i].0.clone(), found[i].1.clone());
        i += 1;
    }
    assert(hidden.take(i as int) =~= hidden);
    Ok(form)
}

/// Reads the login page and builds the form that logs in with `login` and
/// `password`: those two and every hidden field of the login form, which
/// the remote side wants back unchanged. What the page holds is for the
/// HTML parser to say; what the form is, given that, is `login_form_spec`.
pub fn data_for_login(login: String, password: String, page: &str) -> (r: Result<FormData, Error>)
    ensures
        match r {
            Ok(form) => login_form_spec(login@, password@, login_form_children(page@)) == Ok::<
                Map<Seq<char>, Seq<char>>,
                Error,
            >(form@),
            Err(e) => login_form_spec(login@, password@, login_form_children(page@)) == Err::<
                Map<Seq<char>, Seq<char>>,
                Error,
            >(e),
        },
{
    let nodes = select_children(
        page,
        "form.authentication-page__form[action=\"/frame/login-submit\"]",
        "type",
        "name",
        "value",
    );
    login_form(login, password, nodes)
}

/// The children of the login form of the page, each with its type, name
/// and value attributes; `None` where the page has no login form.
pub open spec fn login_form_children(page: Seq<char>) -> Option<Seq<HtmlNodeView>> {
    first_match_children(
        page,
        "form.authentication-page__form[action=\"/frame/login-submit\"]"@,
        "type"@,
        "name"@,
        "value"@,
    )
}

} // verus!
