use data_scraper::api::{ApiPromoTile, ApiResponseItem, ApiResponseItems};
use data_scraper::backoff::{page_pause, page_pause_ms, Backoff, PAGE_PAUSE_JITTER_MS, PAGE_PAUSE_MS};
use data_scraper::pagination::{PageCursor, PageRequest, PAGE_SIZE};

fn tile(id: usize) -> ApiResponseItem {
    ApiResponseItem::PromoTile(ApiPromoTile { name: "Deal".to_string(), id, link: None, content: None })
}

#[test]
fn department_walk_takes_two_pages() {
    let mut c = PageCursor::new(300);
    assert_eq!(c.next_request(), Some(PageRequest { page: 1, size: 120 }));
    c.record_page(120, 150);
    assert!(!c.finished);
    assert_eq!(c.next_request(), Some(PageRequest { page: 2, size: 30 }));
    c.record_page(30, 150);
    assert!(c.finished);
    assert_eq!(c.fetched, 150);
    assert_eq!(c.next_request(), None);
}

#[test]
fn walk_stops_at_cap() {
    let mut c = PageCursor::new(200);
    assert_eq!(c.next_request(), Some(PageRequest { page: 1, size: PAGE_SIZE }));
    c.record_page(120, 1000);
    assert_eq!(c.next_request(), Some(PageRequest { page: 2, size: 80 }));
    c.record_page(80, 1000);
    assert!(c.finished);
    assert!(c.fetched <= 200);
}

#[test]
fn walk_of_empty_listing() {
    let mut c = PageCursor::new(300);
    c.record_page(0, 0);
    assert!(c.finished);
    assert_eq!(c.next_request(), None);
}

#[test]
fn accepted_page_drops_tiles() {
    let mut c = PageCursor::new(300);
    let mut store = Vec::new();
    let page = ApiResponseItems { items: vec![tile(1), tile(2)], total_items: 5 };
    c.accept_page(&mut store, page);
    assert!(store.is_empty());
    assert_eq!(c.fetched, 0);
    assert!(!c.finished);
    assert_eq!(c.page, 2);
}

#[test]
fn backoff_delays_double_up_to_ceiling() {
    let mut b = Backoff::new();
    let delays: Vec<u64> = (0..8).map(|_| b.next_delay()).collect();
    assert_eq!(delays, vec![1000, 2000, 4000, 8000, 16000, 20000, 20000, 20000]);
}

#[test]
fn backoff_wait_never_exceeds_delay() {
    let mut b = Backoff::new();
    for expected in [1000u64, 2000, 4000, 8000, 16000, 20000] {
        let w = b.next_wait();
        assert!(w <= expected);
    }
}

#[test]
fn page_pause_in_range() {
    for _ in 0..50 {
        let p = page_pause_ms();
        assert!(p >= PAGE_PAUSE_MS && p < PAGE_PAUSE_MS + PAGE_PAUSE_JITTER_MS);
    }
}

#[test]
fn page_pause_adds_jitter() {
    assert_eq!(page_pause(0), PAGE_PAUSE_MS);
    assert_eq!(page_pause(499), PAGE_PAUSE_MS + 499);
}
