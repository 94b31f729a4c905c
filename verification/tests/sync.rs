use skyeng_words::client::models::Meaning;
use skyeng_words::client::models::TextFieldOnly;
use skyeng_words::client::models::Word;
use skyeng_words::sync::batches;
use skyeng_words::sync::contains_id;
use skyeng_words::sync::ids_of;
use skyeng_words::sync::select_new;

fn members(n: i32) -> Vec<Word> {
    (1..=n).map(|meaning_id| Word { meaning_id }).collect()
}

fn entry(id: i32) -> Meaning {
    Meaning {
        id,
        word_id: id * 10,
        difficulty_level: Some(2),
        text: format!("word{id}"),
        translation: TextFieldOnly { text: format!("slovo{id}") },
        definition: None,
        is_gold_3000: false,
        examples: vec![],
    }
}

#[test]
fn sixty_five_members_make_three_batches() {
    let groups = batches(&members(65));
    let sizes: Vec<usize> = groups.iter().map(|g| g.len()).collect();
    assert_eq!(sizes, vec![30, 30, 5]);
    assert_eq!(groups[0], (1..=30).collect::<Vec<i32>>());
    assert_eq!(groups[1], (31..=60).collect::<Vec<i32>>());
    assert_eq!(groups[2], (61..=65).collect::<Vec<i32>>());
}

#[test]
fn no_members_make_no_batch() {
    assert_eq!(batches(&members(0)), Vec::<Vec<i32>>::new());
}

#[test]
fn a_full_batch_stands_alone() {
    let groups = batches(&members(30));
    assert_eq!(groups, vec![(1..=30).collect::<Vec<i32>>()]);
}

#[test]
fn one_member_over_a_full_batch_makes_a_second() {
    let groups = batches(&members(31));
    assert_eq!(groups.len(), 2);
    assert_eq!(groups[1], vec![31]);
}

#[test]
fn batches_keep_every_member_in_order() {
    let list = members(127);
    let joined: Vec<i32> = batches(&list).into_iter().flatten().collect();
    assert_eq!(joined, (1..=127).collect::<Vec<i32>>());
}

#[test]
fn only_unknown_entries_are_kept() {
    let entries = vec![entry(2), entry(3), entry(4), entry(5)];
    let kept = select_new(entries, &vec![4, 5]);
    assert_eq!(kept, vec![entry(4), entry(5)]);
}

#[test]
fn kept_entries_stay_in_the_order_of_the_batch() {
    let entries = vec![entry(9), entry(1), entry(5)];
    let kept = select_new(entries, &vec![5, 9]);
    assert_eq!(kept, vec![entry(9), entry(5)]);
}

#[test]
fn nothing_is_kept_when_nothing_is_unknown() {
    let kept = select_new(vec![entry(1), entry(2)], &vec![]);
    assert_eq!(kept, vec![]);
}

#[test]
fn an_entry_listed_twice_is_kept_twice() {
    let kept = select_new(vec![entry(7), entry(7)], &vec![7]);
    assert_eq!(kept, vec![entry(7), entry(7)]);
}

#[test]
fn ids_come_in_the_order_of_the_entries() {
    assert_eq!(ids_of(&vec![entry(3), entry(1), entry(2)]), vec![3, 1, 2]);
    assert_eq!(ids_of(&vec![]), Vec::<i32>::new());
}

#[test]
fn contains_id_finds_what_is_there() {
    assert!(contains_id(&vec![1, 2, 3], 3));
    assert!(!contains_id(&vec![1, 2, 3], 4));
    assert!(!contains_id(&vec![], 0));
}
