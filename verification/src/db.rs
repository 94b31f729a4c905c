//! What is handed to persistence: the record of an entry, and the text of
//! the question which ids are not stored yet.

use crate::client::models::Meaning;
use crate::client::models::TextFieldOnly;
use crate::list::reversed;
use crate::text::decimal;
use crate::text::decimal_spec;
use crate::text::join;
use crate::text::join_spec;
use crate::text::texts_of;
use vstd::prelude::*;
use vstd::string::StringExecFns;

verus! {

/// An entry as it is stored.
#[derive(Debug, Clone, PartialEq, Eq)]
pub struct WordRecord {
    pub id: i32,
    pub word_id: i32,
    pub difficulty_level: i32,
    pub text: String,
    pub translation: String,
    pub definition: String,
    pub is_gold_3000: bool,
    pub examples: String,
    /// The collection under which the entry was imported.
    pub wordset_id: i32,
    pub exported: bool,
}

/// The mathematical content of a [`WordRecord`].
pub struct WordRecordView {
    pub id: i32,
    pub word_id: i32,
    pub difficulty_level: i32,
    pub text: Seq<char>,
    pub translation: Seq<char>,
    pub definition: Seq<char>,
    pub is_gold_3000: bool,
    pub examples: Seq<char>,
    pub wordset_id: i32,
    pub exported: bool,
}

impl View for WordRecord {
    type V = WordRecordView;

    open spec fn view(&self) -> WordRecordView {
        WordRecordView {
            id: self.id,
            word_id: self.word_id,
            difficulty_level: self.difficulty_level,
            text: self.text@,
            translation: self.translation@,
            definition: self.definition@,
            is_gold_3000: self.is_gold_3000,
            examples: self.examples@,
            wordset_id: self.wordset_id,
            exported: self.exported,
        }
    }
}

/// The texts of a list of wrapped texts.
pub open spec fn plain_texts(fields: Seq<TextFieldOnly>) -> Seq<Seq<char>> {
    Seq::new(fields.len(), |i: int| fields[i].text@)
}

/// The record under which `mean` is stored for the collection
/// `wordset_id`: its fields as they are, a missing difficulty level as 0, a
/// missing definition as the empty text, the examples joined by commas, and
/// not exported.
pub open spec fn record_spec(mean: Meaning, wordset_id: i32) -> WordRecordView {
    WordRecordView {
        id: mean.id,
        word_id: mean.word_id,
        difficulty_level: match mean.difficulty_level {
            Some(level) => level as i32,
            None => 0,
        },
        text: mean.text@,
        translation: mean.translation.text@,
        definition: match mean.definition {
            Some(field) => field.text@,
            None => Seq::empty(),
        },
        is_gold_3000: mean.is_gold_3000,
        examples: join_spec(plain_texts(mean.examples@), ","@),
        wordset_id,
        exported: false,
    }
}

/// Makes the record under which `mean` is stored for the collection
/// `wordset_id`.
pub fn make_word(mean: Meaning, wordset_id: i32) -> (record: WordRecord)
    ensures
        record@ == record_spec(mean, wordset_id),
{
    let Meaning {
        id,
        word_id,
        difficulty_level,
        text,
        translation,
        definition,
        is_gold_3000,
        examples,
    } = mean;
    let mut parts: Vec<String> = Vec::new();
    let mut i: usize = 0;
    while i < examples.len()
        invariant
            i <= examples.len(),
            parts.len() == i,
            texts_of(parts@) == plain_texts(examples@.take(i as int)),
        decreases examples.len() - i,
    {
        let ghost before = parts@;
        parts.push(examples[i].text.clone());
        i += 1;
        assert forall|j: int| 0 <= j < parts.len() implies texts_of(parts@)[j] == plain_texts(
            examples@.take(i as int),
        )[j] by {
            if j < i - 1 {
                assert(texts_of(before)[j] == plain_texts(examples@.take(i - 1))[j]);
            }
        }
        assert(texts_of(parts@) =~= plain_texts(examples@.take(i as int)));
    }
    assert(examples@.take(i as int) =~= examples@);
    WordRecord {
        id,
        word_id,
        difficulty_level: match difficulty_level {
            Some(level) => level as i32,
            None => 0,
        },
        text,
        translation: translation.text,
        definition: match definition {
            Some(field) => field.text,
            None => String::new(),
        },
        is_gold_3000,
        examples: join(&parts, ","),
        wordset_id,
        exported: false,
    }
}

/// The records of a list of entries: one for each, in order.
pub open spec fn records_spec(meanings: Seq<Meaning>, wordset_id: i32) -> Seq<WordRecordView> {
    Seq::new(meanings.len(), |i: int| record_spec(meanings[i], wordset_id))
}

/// What a list of records holds.
pub open spec fn records_view(records: Seq<WordRecord>) -> Seq<WordRecordView> {
    Seq::new(records.len(), |i: int| records[i]@)
}

/// Makes the records under which new entries are stored for the collection
/// `wordset_id`.
pub fn save_new_ws_words(meanings: Vec<Meaning>, wordset_id: i32) -> (records: Vec<WordRecord>)
    ensures
        records_view(records@) == records_spec(meanings@, wordset_id),
{
    let ghost all = meanings@;
    let mut rest = reversed(meanings);
    let mut records: Vec<WordRecord> = Vec::new();
    while rest.len() > 0
        invariant
            rest.len() <= all.len(),
            forall|j: int| 0 <= j < rest.len() ==> rest@[j] == all[all.len() - 1 - j],
            records.len() + rest.len() == all.len(),
            forall|j: int|
                0 <= j < records.len() ==> (#[trigger] records@[j])@ == record_spec(
                    all[j],
                    wordset_id,
                ),
        decreases rest.len(),
    {
        let m = rest.pop().unwrap();
        records.push(make_word(m, wordset_id));
    }
    assert(records_view(records@) =~= records_spec(all, wordset_id));
    records
}

/// One id as a row of a `values` list: the id in decimal, in parentheses.
pub open spec fn row_spec(id: i32) -> Seq<char> {
    seq!['('] + decimal_spec(id as int) + seq![')']
}

/// The rows of a list of ids.
pub open spec fn rows_spec(ids: Seq<i32>) -> Seq<Seq<char>> {
    Seq::new(ids.len(), |i: int| row_spec(ids[i]))
}

/// The statement that asks persistence which of `found` it does not hold:
/// the ids as a `values` list, of which those are selected that are not ids
/// of stored entries. There is nothing to ask about an empty list.
pub open spec fn unknown_ids_statement(found: Seq<i32>) -> Option<Seq<char>> {
    if found.len() == 0 {
        None
    } else {
        Some(
            "with cte(id) as (values "@ + join_spec(rows_spec(found), ","@)
                + ") select id from cte where id not in (select id from words);"@,
        )
    }
}

/// Writes the statement that asks persistence which of the ids `found` it
/// does not hold yet; `None` where there is nothing to ask.
pub fn filter_unexisted_word_ids(found: &Vec<i32>) -> (statement: Option<String>)
    ensures
        match statement {
            Some(text) => unknown_ids_statement(found@) == Some(text@),
            None => unknown_ids_statement(found@) is None,
        },
{
    if found.len() == 0 {
        return None;
    }
    let mut rows: Vec<String> = Vec::new();
    let mut i: usize = 0;
    while i < found.len()
        invariant
            i <= found.len(),
            rows.len() == i,
            texts_of(rows@) == rows_spec(found@.take(i as int)),
        decreases found.len() - i,
    {
        proof {
            reveal_strlit("(");
            reveal_strlit(")");
        }
        let mut row = String::from_str("(");
        row.append(decimal(found[i] as i64).as_str());
        row.append(")");
        assert(row@ =~= row_spec(found@[i as int]));
        let ghost before = rows@;
        rows.push(row);
        i += 1;
        assert forall|j: int| 0 <= j < rows.len() implies texts_of(rows@)[j] == rows_spec(
            found@.take(i as int),
        )[j] by {
            if j < i - 1 {
                assert(texts_of(before)[j] == rows_spec(found@.take(i - 1))[j]);
            }
        }
        assert(texts_of(rows@) =~= rows_spec(found@.take(i as int)));
    }
    assert(found@.take(i as int) =~= found@);
    let mut text = String::from_str("with cte(id) as (values ");
    text.append(join(&rows, ",").as_str());
    text.append(") select id from cte where id not in (select id from words);");
    Some(text)
}

} // verus!
