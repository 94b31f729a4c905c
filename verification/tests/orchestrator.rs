use skyeng_words::client::models::DefaultWordset;
use skyeng_words::client::models::Meaning;
use skyeng_words::client::models::MetaResp;
use skyeng_words::client::models::TextFieldOnly;
use skyeng_words::client::models::Word;
use skyeng_words::client::models::WordsResp;
use skyeng_words::client::models::Wordset;
use skyeng_words::client::models::WordsetsResp;
use skyeng_words::error::Error;
use skyeng_words::pagination::PageRequest;
use skyeng_words::sync::account::Run;
use skyeng_words::sync::collection::CollectionSync;
use skyeng_words::sync::collection::Progress;
use skyeng_words::sync::protocol::Event;
use skyeng_words::sync::protocol::Request;
use skyeng_words::sync::report::Failure;
use skyeng_words::sync::report::SyncReport;
use skyeng_words::sync::sync;
use skyeng_words::sync::sync_wordset;
use skyeng_words::sync::IdOrName;

fn entry(id: i32) -> Meaning {
    Meaning {
        id,
        word_id: id + 1000,
        difficulty_level: None,
        text: format!("word{id}"),
        translation: TextFieldOnly { text: format!("slovo{id}") },
        definition: None,
        is_gold_3000: false,
        examples: vec![],
    }
}

fn meta(total: usize, page: PageRequest) -> MetaResp {
    MetaResp {
        total: total as i32,
        current_page: page.page as i32,
        last_page: 1,
        page_size: page.page_size as i32,
    }
}

fn slice<T: Clone>(all: &[T], page: PageRequest) -> Vec<T> {
    let from = (((page.page - 1) * page.page_size) as usize).min(all.len());
    let to = ((page.page * page.page_size) as usize).min(all.len());
    all[from..to].to_vec()
}

/// A remote account and a storage, both in memory, with a log of what was
/// asked of them.
struct World {
    collections: Vec<(i32, String, Vec<i32>)>,
    default: (i32, String, Vec<i32>),
    unresolvable: Vec<i32>,
    read_only: bool,
    stored_collections: Vec<(i32, String)>,
    stored_entries: Vec<(i32, i32)>,
    log: Vec<Request>,
}

impl World {
    fn new(collections: Vec<(i32, &str, Vec<i32>)>, default: (i32, &str, Vec<i32>)) -> World {
        World {
            collections: collections.into_iter().map(|(i, n, m)| (i, n.to_string(), m)).collect(),
            default: (default.0, default.1.to_string(), default.2),
            unresolvable: vec![],
            read_only: false,
            stored_collections: vec![],
            stored_entries: vec![],
            log: vec![],
        }
    }

    fn members_of(&self, id: i32) -> Vec<Word> {
        let ids = if id == self.default.0 {
            self.default.2.clone()
        } else {
            self.collections.iter().find(|c| c.0 == id).map(|c| c.2.clone()).unwrap_or_default()
        };
        ids.into_iter().map(|meaning_id| Word { meaning_id }).collect()
    }

    fn answer(&mut self, request: Request) -> Event {
        self.log.push(request.clone());
        match request {
            Request::CollectionIdByName(name) => Event::NameResolved(
                self.stored_collections.iter().find(|c| c.1 == name).map(|c| c.0),
            ),
            Request::FetchCollections(page) => {
                let all: Vec<Wordset> = self
                    .collections
                    .iter()
                    .map(|c| Wordset { id: c.0, title: c.1.clone() })
                    .collect();
                Event::CollectionsPage(WordsetsResp {
                    meta: meta(all.len(), page),
                    data: slice(&all, page),
                })
            }
            Request::FetchDefault => Event::DefaultCollection(DefaultWordset {
                id: self.default.0,
                title: self.default.1.clone(),
            }),
            Request::CollectionExists(id) => {
                Event::Exists(self.stored_collections.iter().any(|c| c.0 == id))
            }
            Request::InsertCollection(id, name) => {
                self.stored_collections.push((id, name));
                Event::CollectionInserted
            }
            Request::FetchMembers { collection, page } => {
                let all = self.members_of(collection);
                Event::MembersPage(WordsResp { meta: meta(all.len(), page), data: slice(&all, page) })
            }
            Request::Resolve(ids) => {
                if ids.iter().any(|id| self.unresolvable.contains(id)) {
                    Event::Failed(Error::TransientNetworkFailure("connection reset".to_string()))
                } else {
                    Event::Resolved(ids.into_iter().map(entry).collect())
                }
            }
            Request::UnknownIds(ids) => Event::Unknown(
                ids.into_iter()
                    .filter(|id| !self.stored_entries.iter().any(|e| e.0 == *id))
                    .collect(),
            ),
            Request::InsertEntries { .. } if self.read_only => {
                Event::Failed(Error::PersistenceFailure("database is read-only".to_string()))
            }
            Request::InsertEntries { entries, collection } => {
                for e in entries {
                    assert!(!self.stored_entries.iter().any(|s| s.0 == e.id));
                    self.stored_entries.push((e.id, collection));
                }
                Event::EntriesInserted
            }
        }
    }

    fn run_all(&mut self) -> Result<SyncReport, Error> {
        let mut run = sync();
        loop {
            match run {
                Run::Next(state, request) => {
                    let event = self.answer(request);
                    run = state.step(event);
                }
                Run::Done(report) => return Ok(report),
                Run::Failed(e) => return Err(e),
            }
        }
    }

    fn run_one(&mut self, selector: IdOrName) -> Result<SyncReport, Error> {
        let mut run = sync_wordset(selector);
        loop {
            match run {
                Run::Next(state, request) => {
                    let event = self.answer(request);
                    run = state.step(event);
                }
                Run::Done(report) => return Ok(report),
                Run::Failed(e) => return Err(e),
            }
        }
    }

    fn resolved(&self) -> Vec<Vec<i32>> {
        self.log
            .iter()
            .filter_map(|r| match r {
                Request::Resolve(ids) => Some(ids.clone()),
                _ => None,
            })
            .collect()
    }

    fn inserted(&self) -> Vec<Vec<i32>> {
        self.log
            .iter()
            .filter_map(|r| match r {
                Request::InsertEntries { entries, .. } => {
                    Some(entries.iter().map(|e| e.id).collect())
                }
                _ => None,
            })
            .collect()
    }
}

#[test]
fn sync_all_stores_every_entry_once() {
    let mut world = World::new(vec![(10, "Travel", vec![1, 2, 3]), (11, "Food", vec![3, 4])], (
        1,
        "My words",
        vec![5],
    ));
    let report = world.run_all().unwrap();
    assert_eq!(report.processed, vec![10, 11, 1]);
    assert_eq!(report.failed, vec![]);
    assert_eq!(report.persisted, vec![1, 2, 3, 4, 5]);
    assert_eq!(world.stored_entries, vec![(1, 10), (2, 10), (3, 10), (4, 11), (5, 1)]);
    assert_eq!(
        world.stored_collections,
        vec![(10, "Travel".to_string()), (11, "Food".to_string()), (1, "My words".to_string())]
    );
}

#[test]
fn second_sync_stores_nothing() {
    let mut world = World::new(
        vec![(10, "Travel", (1..=65).collect()), (11, "Food", vec![3, 70])],
        (1, "My words", vec![80]),
    );
    let first = world.run_all().unwrap();
    assert_eq!(first.persisted.len(), 67);
    let stored = world.stored_entries.clone();
    let collections = world.stored_collections.clone();
    world.log.clear();
    let second = world.run_all().unwrap();
    assert_eq!(second.persisted, vec![]);
    assert_eq!(second.processed, vec![10, 11, 1]);
    assert_eq!(world.inserted(), Vec::<Vec<i32>>::new());
    assert!(!world.log.iter().any(|r| matches!(r, Request::InsertCollection(..))));
    assert_eq!(world.stored_entries, stored);
    assert_eq!(world.stored_collections, collections);
}

#[test]
fn known_entries_are_not_stored_again() {
    let mut world = World::new(vec![], (1, "My words", vec![]));
    world.stored_entries = vec![(1, 99), (2, 99), (3, 99)];
    world.collections = vec![(10, "Travel".to_string(), vec![2, 3, 4, 5])];
    let report = world.run_one(IdOrName::Id(10)).unwrap();
    assert_eq!(world.inserted(), vec![vec![4, 5]]);
    assert_eq!(report.persisted, vec![4, 5]);
    assert_eq!(report.processed, vec![10]);
    assert!(world.log.contains(&Request::InsertEntries {
        entries: vec![entry(4), entry(5)],
        collection: 10,
    }));
    assert!(world.log.contains(&Request::UnknownIds(vec![2, 3, 4, 5])));
}

#[test]
fn members_are_resolved_in_batches_of_thirty_in_order() {
    let mut world = World::new(vec![(10, "Travel", (1..=65).collect())], (1, "My words", vec![]));
    world.run_one(IdOrName::Id(10)).unwrap();
    assert_eq!(
        world.resolved(),
        vec![
            (1..=30).collect::<Vec<i32>>(),
            (31..=60).collect::<Vec<i32>>(),
            (61..=65).collect::<Vec<i32>>(),
        ]
    );
    assert_eq!(world.inserted().len(), 3);
}

#[test]
fn empty_collection_resolves_and_stores_nothing() {
    let mut world = World::new(vec![(10, "Empty", vec![])], (1, "My words", vec![]));
    let report = world.run_one(IdOrName::Id(10)).unwrap();
    assert_eq!(report, SyncReport { processed: vec![10], failed: vec![], persisted: vec![] });
    assert_eq!(
        world.log,
        vec![Request::FetchMembers {
            collection: 10,
            page: PageRequest { page_size: 100, page: 1 },
        }]
    );
}

#[test]
fn unknown_name_fails_without_contacting_the_remote_side() {
    let mut world = World::new(vec![(10, "Travel", vec![1])], (1, "My words", vec![]));
    let outcome = world.run_one(IdOrName::Name("Business English".to_string()));
    assert_eq!(outcome, Err(Error::NotFound("Business English".to_string())));
    assert_eq!(world.log, vec![Request::CollectionIdByName("Business English".to_string())]);
}

#[test]
fn known_name_leads_to_its_collection() {
    let mut world = World::new(vec![(10, "Travel", vec![1, 2])], (1, "My words", vec![]));
    world.stored_collections.push((10, "Travel".to_string()));
    let report = world.run_one(IdOrName::Name("Travel".to_string())).unwrap();
    assert_eq!(report.processed, vec![10]);
    assert_eq!(report.persisted, vec![1, 2]);
    assert_eq!(world.stored_entries, vec![(1, 10), (2, 10)]);
}

#[test]
fn sync_by_id_does_not_record_the_collection() {
    let mut world = World::new(vec![(10, "Travel", vec![1])], (1, "My words", vec![]));
    world.run_one(IdOrName::Id(10)).unwrap();
    assert_eq!(world.stored_collections, vec![]);
    assert!(!world.log.iter().any(|r| matches!(r, Request::CollectionExists(_))));
}

#[test]
fn failing_batch_stops_its_collection_and_the_run_goes_on() {
    let mut world = World::new(
        vec![(10, "Travel", (1..=40).collect()), (11, "Food", vec![100, 101])],
        (1, "My words", vec![200]),
    );
    world.unresolvable = vec![35];
    let report = world.run_all().unwrap();
    assert_eq!(report.processed, vec![11, 1]);
    assert_eq!(
        report.failed,
        vec![Failure {
            collection: 10,
            reason: Error::TransientNetworkFailure("connection reset".to_string()),
        }]
    );
    let mut expected: Vec<i32> = (1..=30).collect();
    expected.extend([100, 101, 200]);
    assert_eq!(report.persisted, expected);
    assert_eq!(world.stored_entries.len(), 33);
}

#[test]
fn failing_batch_fails_a_single_sync() {
    let mut world = World::new(vec![(10, "Travel", (1..=40).collect())], (1, "My words", vec![]));
    world.unresolvable = vec![35];
    let outcome = world.run_one(IdOrName::Id(10));
    assert_eq!(outcome, Err(Error::TransientNetworkFailure("connection reset".to_string())));
    assert_eq!(world.stored_entries.len(), 30);
}

#[test]
fn default_collection_that_is_listed_is_taken_once() {
    let mut world = World::new(vec![(1, "My words", vec![7]), (10, "Travel", vec![8])], (
        1,
        "My words",
        vec![7],
    ));
    let report = world.run_all().unwrap();
    assert_eq!(report.processed, vec![1, 10]);
    assert_eq!(world.stored_collections.len(), 2);
}

#[test]
fn stored_collection_keeps_its_name() {
    let mut world = World::new(vec![(10, "Renamed", vec![])], (1, "My words", vec![]));
    world.stored_collections.push((10, "Travel".to_string()));
    world.run_all().unwrap();
    assert_eq!(
        world.stored_collections,
        vec![(10, "Travel".to_string()), (1, "My words".to_string())]
    );
}

#[test]
fn more_collections_than_a_page_are_all_listed() {
    let collections: Vec<(i32, &str, Vec<i32>)> = (1..=150).map(|i| (i, "c", vec![])).collect();
    let mut world = World::new(collections, (1000, "My words", vec![]));
    let report = world.run_all().unwrap();
    assert_eq!(report.processed.len(), 151);
    let pages: Vec<u32> = world
        .log
        .iter()
        .filter_map(|r| match r {
            Request::FetchCollections(p) => Some(p.page),
            _ => None,
        })
        .collect();
    assert_eq!(pages, vec![1, 2]);
}

#[test]
fn failure_while_listing_collections_ends_the_run() {
    let run = sync();
    let state = match run {
        Run::Next(state, Request::FetchCollections(page)) => {
            assert_eq!(page, PageRequest { page_size: 100, page: 1 });
            state
        }
        _ => panic!("the list of collections is due first"),
    };
    let reason = Error::TransientNetworkFailure("timeout".to_string());
    match state.step(Event::Failed(reason.clone())) {
        Run::Failed(e) => assert_eq!(e, reason),
        _ => panic!("the run cannot go on"),
    }
}

#[test]
fn event_that_answers_nothing_is_a_protocol_violation() {
    let state = match CollectionSync::start(10, None) {
        Progress::Next(state, _) => state,
        _ => panic!("a request is due"),
    };
    match state.step(Event::EntriesInserted) {
        Progress::Failed { reason, persisted } => {
            assert_eq!(
                reason,
                Error::ProtocolViolation("event does not answer the pending request")
            );
            assert_eq!(persisted, vec![]);
        }
        _ => panic!("the event answers nothing"),
    }
}

#[test]
fn stale_member_count_fails_the_collection() {
    let mut state = match CollectionSync::start(10, None) {
        Progress::Next(state, _) => state,
        _ => panic!("a request is due"),
    };
    let mut calls = 0;
    loop {
        calls += 1;
        let data = if calls == 1 { (1..=40).map(|meaning_id| Word { meaning_id }).collect() } else { vec![] };
        let page = MetaResp { total: 50, current_page: calls, last_page: 1, page_size: 100 };
        match state.step(Event::MembersPage(WordsResp { meta: page, data })) {
            Progress::Next(next, Request::FetchMembers { page, .. }) => {
                assert_eq!(page.page as i32, calls + 1);
                state = next;
            }
            Progress::Failed { reason, .. } => {
                assert_eq!(reason, Error::ProtocolViolation("pagination did not converge"));
                break;
            }
            _ => panic!("the list cannot be complete"),
        }
        assert!(calls < 10);
    }
    assert_eq!(calls, 2);
}

#[test]
fn storage_failure_is_passed_on_unchanged() {
    let mut world = World::new(vec![(10, "Travel", vec![1, 2])], (1, "My words", vec![3]));
    world.stored_collections = vec![(10, "Travel".to_string()), (1, "My words".to_string())];
    world.read_only = true;
    let reason = Error::PersistenceFailure("database is read-only".to_string());
    let report = world.run_all().unwrap();
    assert_eq!(report.processed, vec![]);
    assert_eq!(report.persisted, vec![]);
    assert_eq!(
        report.failed,
        vec![
            Failure { collection: 10, reason: reason.clone() },
            Failure { collection: 1, reason: reason.clone() },
        ]
    );
    assert_eq!(world.run_one(IdOrName::Id(10)), Err(reason));
}

#[test]
fn batch_that_resolves_to_nothing_is_passed_over() {
    let state = match CollectionSync::start(10, None) {
        Progress::Next(state, _) => state,
        _ => panic!("a request is due"),
    };
    let page = MetaResp { total: 1, current_page: 1, last_page: 1, page_size: 100 };
    let members = WordsResp { meta: page, data: vec![Word { meaning_id: 5 }] };
    let state = match state.step(Event::MembersPage(members)) {
        Progress::Next(state, request) => {
            assert_eq!(request, Request::Resolve(vec![5]));
            state
        }
        _ => panic!("the group is to be resolved"),
    };
    match state.step(Event::Resolved(vec![])) {
        Progress::Done(persisted) => assert_eq!(persisted, vec![]),
        _ => panic!("nothing is left to do"),
    }
}

#[test]
fn report_names_what_the_storage_gained() {
    let mut world = World::new(vec![(10, "Travel", vec![1, 2, 3, 4])], (1, "My words", vec![5, 6]));
    world.stored_entries = vec![(2, 99), (6, 99)];
    let before: Vec<i32> = world.stored_entries.iter().map(|e| e.0).collect();
    let report = world.run_all().unwrap();
    assert_eq!(report.persisted, vec![1, 3, 4, 5]);
    assert!(report.persisted.iter().all(|id| !before.contains(id)));
    let mut after: Vec<i32> = world.stored_entries.iter().map(|e| e.0).collect();
    after.sort();
    assert_eq!(after, vec![1, 2, 3, 4, 5, 6]);
    assert_eq!(after.len(), before.len() + report.persisted.len());
}
