use skyeng_words::client::models::DefaultWordset;
use skyeng_words::client::models::Meaning;
use skyeng_words::client::models::MetaResp;
use skyeng_words::client::models::Resp;
use skyeng_words::client::models::WordsetsResp;
use skyeng_words::client::models::TextFieldOnly;
use skyeng_words::client::models::Word;
use skyeng_words::client::models::WordsResp;
use skyeng_words::client::models::Wordset;
use skyeng_words::client::models::envelope;
use skyeng_words::client::urls;
use skyeng_words::db::filter_unexisted_word_ids;
use skyeng_words::db::make_word;
use skyeng_words::db::save_new_ws_words;
use skyeng_words::db::WordRecord;
use skyeng_words::error::Error;
use skyeng_words::export::export_found;
use skyeng_words::export::export_to_xlsx;
use skyeng_words::export::Cell;
use skyeng_words::export::ExportError;
use skyeng_words::list::reversed;
use skyeng_words::pagination::PageRequest;
use skyeng_words::sync::account::merge_default;
use skyeng_words::text::chars_of;
use skyeng_words::text::decimal;
use skyeng_words::text::join;
use skyeng_words::text::same_text;

fn s(text: &str) -> String {
    text.to_string()
}

fn field(text: &str) -> TextFieldOnly {
    TextFieldOnly { text: s(text) }
}

fn meaning() -> Meaning {
    Meaning {
        id: 17,
        word_id: 5,
        difficulty_level: Some(3),
        text: s("apple"),
        translation: field("яблоко"),
        definition: Some(field("a round fruit")),
        is_gold_3000: true,
        examples: vec![field("An apple a day"), field("Apple pie")],
    }
}

fn record(id: i32, text: &str, examples: &str, translation: &str) -> WordRecord {
    WordRecord {
        id,
        word_id: 1,
        difficulty_level: 0,
        text: s(text),
        translation: s(translation),
        definition: s(""),
        is_gold_3000: false,
        examples: s(examples),
        wordset_id: 2,
        exported: false,
    }
}

#[test]
fn record_carries_the_entry_and_its_collection() {
    assert_eq!(
        make_word(meaning(), 44),
        WordRecord {
            id: 17,
            word_id: 5,
            difficulty_level: 3,
            text: s("apple"),
            translation: s("яблоко"),
            definition: s("a round fruit"),
            is_gold_3000: true,
            examples: s("An apple a day,Apple pie"),
            wordset_id: 44,
            exported: false,
        }
    );
}

#[test]
fn record_fills_what_the_entry_lacks() {
    let bare = Meaning {
        difficulty_level: None,
        definition: None,
        examples: vec![],
        ..meaning()
    };
    let made = make_word(bare, 1);
    assert_eq!(made.difficulty_level, 0);
    assert_eq!(made.definition, "");
    assert_eq!(made.examples, "");
    assert!(!made.exported);
}

#[test]
fn record_keeps_a_negative_level() {
    let odd = Meaning { difficulty_level: Some(-128), ..meaning() };
    assert_eq!(make_word(odd, 1).difficulty_level, -128);
}

#[test]
fn records_come_one_for_each_entry_in_order() {
    let second = Meaning { id: 18, ..meaning() };
    let made = save_new_ws_words(vec![meaning(), second], 9);
    assert_eq!(made.len(), 2);
    assert_eq!(made[0].id, 17);
    assert_eq!(made[1].id, 18);
    assert_eq!(made[1].wordset_id, 9);
    assert_eq!(save_new_ws_words(vec![], 9), vec![]);
}

#[test]
fn statement_lists_the_ids_as_values() {
    assert_eq!(
        filter_unexisted_word_ids(&vec![4, -15, 0]),
        Some(s(
            "with cte(id) as (values (4),(-15),(0)) select id from cte where id not in (select id from words);"
        ))
    );
    assert_eq!(filter_unexisted_word_ids(&vec![]), None);
}

#[test]
fn table_has_a_header_and_a_row_for_each_entry() {
    let words = vec![record(1, "apple", "a,b", "яблоко"), record(2, "pear", "", "груша")];
    let sheet = export_to_xlsx(&words).unwrap();
    let cell = |row, col, text: &str| Cell { row, col, text: s(text) };
    assert_eq!(
        sheet.cells,
        vec![
            cell(0, 0, "русский"),
            cell(0, 1, "examples"),
            cell(0, 2, "перевод"),
            cell(1, 0, "apple"),
            cell(1, 1, "a,b"),
            cell(1, 2, "яблоко"),
            cell(2, 0, "pear"),
            cell(2, 1, ""),
            cell(2, 2, "груша"),
        ]
    );
    assert_eq!(sheet.exported, vec![1, 2]);
}

#[test]
fn table_of_no_entries_is_the_header_alone() {
    let sheet = export_to_xlsx(&vec![]).unwrap();
    let cell = |row, col, text: &str| Cell { row, col, text: s(text) };
    assert_eq!(
        sheet.cells,
        vec![cell(0, 0, "русский"), cell(0, 1, "examples"), cell(0, 2, "перевод")]
    );
    assert_eq!(sheet.exported, Vec::<i32>::new());
}

#[test]
fn export_without_entries_is_refused() {
    assert_eq!(export_found(&vec![]), Err(ExportError::NoWords));
}

#[test]
fn export_of_found_entries_is_their_table() {
    let words = vec![record(7, "plum", "x", "слива")];
    let found = export_found(&words).unwrap();
    assert_eq!(found, export_to_xlsx(&words).unwrap());
    assert_eq!(found.cells.len(), 6);
    assert_eq!(found.cells[3], Cell { row: 1, col: 0, text: s("plum") });
    assert_eq!(found.cells[4], Cell { row: 1, col: 1, text: s("x") });
    assert_eq!(found.cells[5], Cell { row: 1, col: 2, text: s("слива") });
    assert_eq!(found.exported, vec![7]);
}

#[test]
fn decimal_writes_every_integer() {
    assert_eq!(decimal(0), "0");
    assert_eq!(decimal(7), "7");
    assert_eq!(decimal(10), "10");
    assert_eq!(decimal(-1), "-1");
    assert_eq!(decimal(1234567890), "1234567890");
    assert_eq!(decimal(i64::MAX), "9223372036854775807");
    assert_eq!(decimal(i64::MIN), "-9223372036854775808");
}

#[test]
fn join_puts_the_separator_between() {
    assert_eq!(join(&vec![], ","), "");
    assert_eq!(join(&vec![s("a")], ","), "a");
    assert_eq!(join(&vec![s("a"), s(""), s("c")], ", "), "a, , c");
}

#[test]
fn texts_compare_and_split_into_characters() {
    assert!(same_text("input", "input"));
    assert!(!same_text("input", "Input"));
    assert!(same_text("", ""));
    assert_eq!(chars_of("яб;"), vec!['я', 'б', ';']);
}

#[test]
fn addresses_carry_their_parameters() {
    let page = PageRequest { page_size: 100, page: 3 };
    assert_eq!(
        urls::wordsets_page(77, page),
        "https://api-words.skyeng.ru/api/for-vimbox/v1/wordsets.json?studentId=77&pageSize=100&page=3"
    );
    assert_eq!(
        urls::words_of_wordset(77, 5, page),
        "https://api-words.skyeng.ru/api/v1/wordsets/5/words.json?studentId=77&wordsetId=5&pageSize=100&page=3&acceptLanguage=ru"
    );
    assert_eq!(
        urls::meanings(&vec![1, 22, 333]),
        "https://dictionary.skyeng.ru/api/for-services/v2/meanings?ids=1,22,333&acceptLanguage=ru"
    );
    assert_eq!(
        urls::meanings(&vec![]),
        "https://dictionary.skyeng.ru/api/for-services/v2/meanings?ids=&acceptLanguage=ru"
    );
}

#[test]
fn errors_say_what_they_are() {
    assert_eq!(
        Error::AuthenticationFailed(s("invalid password")).message(),
        "authentication failed: invalid password"
    );
    assert_eq!(
        Error::ProtocolViolation("cookie not valid").message(),
        "invalid skyeng data: cookie not valid"
    );
    assert_eq!(Error::TransientNetworkFailure(s("timeout")).message(), "network failure: timeout");
    assert_eq!(Error::NotFound(s("Travel")).message(), "wordset not found: Travel");
    assert_eq!(Error::PersistenceFailure(s("disk full")).message(), "storage failure: disk full");
}

#[test]
fn default_collection_joins_the_list_once() {
    let listed = vec![Wordset { id: 1, title: s("a") }, Wordset { id: 2, title: s("b") }];
    let merged = merge_default(listed.clone(), DefaultWordset { id: 3, title: s("mine") });
    assert_eq!(merged.len(), 3);
    assert_eq!(merged[2], Wordset { id: 3, title: s("mine") });
    let again = merge_default(listed.clone(), DefaultWordset { id: 2, title: s("mine") });
    assert_eq!(again, listed);
}

#[test]
fn default_collection_converts_to_a_collection() {
    let ws: Wordset = DefaultWordset { id: 3, title: s("mine") }.into();
    assert_eq!(ws, Wordset { id: 3, title: s("mine") });
}

#[test]
fn page_hands_out_its_total_and_items() {
    let meta = MetaResp { total: 5, current_page: 1, last_page: 1, page_size: 100 };
    let resp = WordsResp { meta, data: vec![Word { meaning_id: 9 }] };
    assert_eq!(resp.get_meta().total, 5);
    let page = envelope(resp);
    assert_eq!(page.total, 5);
    assert_eq!(page.items, vec![Word { meaning_id: 9 }]);
}

#[test]
fn reversed_turns_the_list_round() {
    assert_eq!(reversed(vec![1, 2, 3]), vec![3, 2, 1]);
    assert_eq!(reversed(Vec::<i32>::new()), vec![]);
    assert_eq!(reversed(vec![s("a")]), vec![s("a")]);
}

#[test]
fn page_of_collections_hands_out_its_items() {
    let meta = MetaResp { total: 2, current_page: 1, last_page: 1, page_size: 100 };
    let resp = WordsetsResp { meta, data: vec![Wordset { id: 4, title: s("Travel") }] };
    assert_eq!(*resp.get_meta(), meta);
    assert_eq!(resp.get_data(), vec![Wordset { id: 4, title: s("Travel") }]);
}
