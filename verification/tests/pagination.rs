use skyeng_words::error::Error;
use skyeng_words::pagination::PageEnvelope;
use skyeng_words::pagination::PageRequest;
use skyeng_words::pagination::Pager;
use skyeng_words::pagination::Paging;

/// Serves `all` in pages and records the requests.
fn drain(all: &[u32], page_size: u32) -> (Result<Vec<u32>, Error>, Vec<PageRequest>) {
    let mut pager: Pager<u32> = Pager::with_page_size(page_size);
    let mut requests = Vec::new();
    loop {
        let request = pager.request();
        requests.push(request);
        let from = (((request.page - 1) * request.page_size) as usize).min(all.len());
        let to = ((request.page * request.page_size) as usize).min(all.len());
        let envelope = PageEnvelope { total: all.len() as i32, items: all[from..to].to_vec() };
        match pager.advance(envelope) {
            Paging::More(next) => pager = next,
            Paging::Done(items) => return (Ok(items), requests),
            Paging::Failed(e) => return (Err(e), requests),
        }
    }
}

#[test]
fn drain_returns_every_item_in_order() {
    let all: Vec<u32> = (0..250).collect();
    let (items, requests) = drain(&all, 100);
    assert_eq!(items, Ok(all));
    assert_eq!(
        requests,
        vec![
            PageRequest { page_size: 100, page: 1 },
            PageRequest { page_size: 100, page: 2 },
            PageRequest { page_size: 100, page: 3 },
        ]
    );
}

#[test]
fn drain_of_an_exact_multiple_makes_no_extra_call() {
    let all: Vec<u32> = (0..200).collect();
    let (items, requests) = drain(&all, 100);
    assert_eq!(items, Ok(all));
    assert_eq!(requests.len(), 2);
}

#[test]
fn drain_of_an_empty_list_makes_one_call() {
    let (items, requests) = drain(&[], 100);
    assert_eq!(items, Ok(vec![]));
    assert_eq!(requests, vec![PageRequest { page_size: 100, page: 1 }]);
}

#[test]
fn first_request_is_page_one_of_a_hundred() {
    let pager: Pager<u32> = Pager::new();
    assert_eq!(pager.request(), PageRequest { page_size: 100, page: 1 });
}

#[test]
fn stale_total_fails_instead_of_looping() {
    let mut pager: Pager<u32> = Pager::new();
    let mut pages = Vec::new();
    let mut calls = 0;
    let outcome = loop {
        let request = pager.request();
        pages.push(request.page);
        calls += 1;
        let items: Vec<u32> = if request.page == 1 { (0..40).collect() } else { vec![] };
        match pager.advance(PageEnvelope { total: 50, items }) {
            Paging::More(next) => pager = next,
            Paging::Done(items) => break Ok(items),
            Paging::Failed(e) => break Err(e),
        }
        assert!(calls < 10);
    };
    assert_eq!(outcome, Err(Error::ProtocolViolation("pagination did not converge")));
    assert_eq!(pages, vec![1, 2]);
}

#[test]
fn later_totals_are_ignored() {
    let pager: Pager<u32> = Pager::with_page_size(2);
    let pager = match pager.advance(PageEnvelope { total: 3, items: vec![1, 2] }) {
        Paging::More(next) => next,
        _ => panic!("a second page is due"),
    };
    assert_eq!(pager.request(), PageRequest { page_size: 2, page: 2 });
    match pager.advance(PageEnvelope { total: 100, items: vec![3] }) {
        Paging::Done(items) => assert_eq!(items, vec![1, 2, 3]),
        _ => panic!("the list is complete"),
    }
}

#[test]
fn nonpositive_total_is_done_at_once() {
    let pager: Pager<u32> = Pager::new();
    match pager.advance(PageEnvelope { total: -1, items: vec![7] }) {
        Paging::Done(items) => assert_eq!(items, vec![7]),
        _ => panic!("nothing more is due"),
    }
}
