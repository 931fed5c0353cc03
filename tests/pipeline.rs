use srcomapi::builder::Builder;
use srcomapi::cache::CacheEntry;
use srcomapi::paginated::{ListStep, PaginatedList, LIST_URL};
use srcomapi::rate::RATE_LIMIT_INTERVAL;
use srcomapi::retry::{after_attempt, Attempt, RetryStep};
use srcomapi::timeout::Timeout;
use srcomapi::ApiError;

/// Runs the retry policy against scripted outcomes; returns the attempts made
/// and the result.
fn run(outcomes: Vec<Attempt<u32, &'static str>>, num_tries: u8) -> (usize, Result<u32, &'static str>) {
    let mut made: u8 = 0;
    for o in outcomes {
        made += 1;
        match after_attempt(o, made, num_tries) {
            RetryStep::Done(r) => return (made as usize, r),
            RetryStep::Again => {}
        }
    }
    panic!("ran out of scripted outcomes");
}

#[test]
fn client_error_is_not_retried() {
    let outcomes = vec![
        Attempt::ClientError("404"),
        Attempt::Success(1),
        Attempt::Success(1),
        Attempt::Success(1),
        Attempt::Success(1),
    ];
    assert_eq!(run(outcomes, 5), (1, Err("404")));
}

#[test]
fn transient_errors_use_the_whole_budget() {
    let outcomes = vec![
        Attempt::Transient("500 a"),
        Attempt::Transient("500 b"),
        Attempt::Transient("500 c"),
        Attempt::Transient("500 d"),
        Attempt::Transient("500 e"),
    ];
    assert_eq!(run(outcomes, 5), (5, Err("500 e")));
}

#[test]
fn transient_then_success() {
    let outcomes = vec![Attempt::Transient("503"), Attempt::Success(7)];
    assert_eq!(run(outcomes, 5), (2, Ok(7)));
}

#[test]
fn single_try_returns_transient_error() {
    assert_eq!(run(vec![Attempt::Transient("timeout")], 1), (1, Err("timeout")));
}

/// A simulated endpoint of `total` items, answering a page request as the API does.
fn page(total: usize, offset: usize, max: u16) -> (Vec<usize>, u16, u16) {
    let end = (offset + max as usize).min(total);
    let data: Vec<usize> = (offset.min(total)..end).collect();
    let size = data.len() as u16;
    (data, size, max)
}

/// Drains a list against the simulated endpoint; returns the items and the page sizes fetched.
fn drain(list: &mut PaginatedList<usize>, total: usize) -> (Vec<usize>, Vec<u16>) {
    let mut items = Vec::new();
    let mut pages = Vec::new();
    loop {
        match list.next_step() {
            ListStep::Item(x) => items.push(x),
            ListStep::End => break,
            ListStep::Fetch { offset, max } => {
                let (data, size, max) = page(total, offset, max);
                pages.push(size);
                list.accept_page(data, size, max).unwrap();
                match list.take_buffered() {
                    Some(x) => items.push(x),
                    None => break,
                }
            }
        }
    }
    (items, pages)
}

#[test]
fn twenty_five_items_in_pages_of_ten() {
    let mut list = PaginatedList::new("/users".to_string());
    list.set_page_size(10).unwrap();
    let (items, pages) = drain(&mut list, 25);
    assert_eq!(pages, vec![10, 10, 5]);
    assert_eq!(items, (0..25).collect::<Vec<_>>());
    assert!(matches!(list.next_step(), ListStep::End));
}

#[test]
fn page_size_out_of_range_is_refused() {
    let mut list: PaginatedList<usize> = PaginatedList::new("/users".to_string());
    assert!(matches!(list.set_page_size(0), Err(ApiError::InvalidPageSize)));
    assert!(matches!(list.set_page_size(201), Err(ApiError::InvalidPageSize)));
    assert_eq!(list.page_size(), 20);
    assert!(list.set_page_size(200).is_ok());
    assert_eq!(list.page_size(), 200);
    // nothing was fetched
    assert!(matches!(list.next_step(), ListStep::Fetch { offset: 0, max: 200 }));
}

#[test]
fn bulk_list_allows_larger_pages() {
    let mut list: PaginatedList<usize> = PaginatedList::new(LIST_URL.to_string());
    assert_eq!(list.max_page_size(), 1000);
    assert!(list.set_page_size(1000).is_ok());
    assert!(matches!(list.set_page_size(1001), Err(ApiError::InvalidPageSize)));
    assert!(matches!(list.set_page_size(0), Err(ApiError::InvalidPageSize)));
}

#[test]
fn full_last_page_triggers_one_more_fetch() {
    let mut list = PaginatedList::new("/users".to_string());
    list.set_page_size(10).unwrap();
    let (items, pages) = drain(&mut list, 20);
    assert_eq!(pages, vec![10, 10, 0]);
    assert_eq!(items.len(), 20);
}

#[test]
fn page_size_mismatch_is_an_error() {
    let mut list: PaginatedList<usize> = PaginatedList::new("/users".to_string());
    assert!(matches!(list.next_step(), ListStep::Fetch { offset: 0, max: 20 }));
    assert!(matches!(list.accept_page(vec![1, 2, 3], 2, 20), Err(ApiError::PageSizeMismatch)));
    assert_eq!(list.size_hint(), (0, None));
}

#[test]
fn size_hint_reports_current_page() {
    let mut list: PaginatedList<usize> = PaginatedList::new("/users".to_string());
    list.accept_page(vec![1, 2, 3], 3, 20).unwrap();
    assert_eq!(list.size_hint(), (3, Some(3)));
    let mut list2: PaginatedList<usize> = PaginatedList::new("/users".to_string());
    list2.accept_page(vec![1, 2], 2, 2).unwrap();
    assert_eq!(list2.size_hint(), (2, None));
    assert!(matches!(list2.next_step(), ListStep::Item(1)));
    assert!(matches!(list2.next_step(), ListStep::Item(2)));
    assert!(matches!(list2.next_step(), ListStep::Fetch { offset: 2, max: 20 }));
}

#[test]
fn builder_defaults() {
    let b = Builder::new("agent/1.0".to_string());
    assert_eq!(b.user_agent(), "agent/1.0");
    assert!(b.api_key().is_none());
    assert!(b.cache_path().is_none());
    assert_eq!(b.tries(), 1);
    let c = b.into_cache();
    assert_eq!(c.timeout(), Some(Timeout::fixed(RATE_LIMIT_INTERVAL)));
    assert!(c.export().is_empty());
}

#[test]
fn builder_settings() {
    let b = Builder::new("a".to_string())
        .auth("my-api-key".to_string())
        .cache_timeout(None)
        .num_tries(3)
        .unwrap();
    assert_eq!(b.api_key().map(|s| s.as_str()), Some("my-api-key"));
    assert_eq!(b.tries(), 3);
    assert_eq!(b.into_cache().timeout(), None);
}

#[test]
fn zero_tries_is_refused() {
    let b = Builder::new("a".to_string());
    assert!(matches!(b.num_tries(0), Err(ApiError::InvalidNumTries)));
}

#[test]
fn disk_cache_drops_definitely_stale_entries() {
    let entries = vec![
        ("old".to_string(), CacheEntry { timestamp: 0, data: "1".to_string() }),
        ("new".to_string(), CacheEntry { timestamp: 90_000, data: "2".to_string() }),
    ];
    let b = Builder::new("a".to_string()).disk_cache("cache.json".to_string(), &entries, 100_000);
    assert_eq!(b.cache_path().map(|s| s.as_str()), Some("cache.json"));
    let kept: Vec<String> = b.into_cache().export().into_iter().map(|p| p.0).collect();
    assert_eq!(kept, vec!["new".to_string()]);
}

#[test]
fn disk_cache_without_timeout_keeps_everything() {
    let entries = vec![("old".to_string(), CacheEntry { timestamp: 0, data: "1".to_string() })];
    let b = Builder::new("a".to_string()).cache_timeout(None).disk_cache("c".to_string(), &entries, u64::MAX);
    assert_eq!(b.into_cache().export().len(), 1);
}
