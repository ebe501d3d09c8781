use url_shortener::{UrlBook, UrlError, UrlMapping, UrlShortenerContract};

fn mapping(code: &str, url: &str, creator: &str, created_at: u64, clicks: u64) -> UrlMapping {
    UrlMapping {
        short_code: code.to_string(),
        original_url: url.to_string(),
        creator: creator.to_string(),
        created_at,
        click_count: clicks,
    }
}

#[test]
fn scenario_go2x() {
    let mut reg = UrlShortenerContract::new();
    let r = reg.create_short_url(
        "go2x".to_string(),
        "https://example.com".to_string(),
        "alice".to_string(),
        true,
        5,
    );
    assert_eq!(r, Ok("go2x".to_string()));
    assert_eq!(reg.get_total_urls(), 1);
    assert_eq!(reg.resolve_url("go2x"), "https://example.com");
    assert_eq!(reg.get_url("go2x").click_count, 1);
    let r2 = reg.create_short_url(
        "go2x".to_string(),
        "https://other.com".to_string(),
        "bob".to_string(),
        true,
        9,
    );
    assert_eq!(r2, Err(UrlError::DuplicateShortCode));
    assert_eq!(reg.resolve_url("missing"), "NOT_FOUND");
}

#[test]
fn duplicate_create_alters_nothing() {
    let mut reg = UrlShortenerContract::new();
    reg.create_short_url(
        "news".to_string(),
        "https://example.com/news".to_string(),
        "alice".to_string(),
        true,
        7,
    )
    .unwrap();
    let before = reg.get_url("news");
    let r = reg.create_short_url(
        "news".to_string(),
        "https://evil.example".to_string(),
        "mallory".to_string(),
        true,
        8,
    );
    assert_eq!(r, Err(UrlError::DuplicateShortCode));
    assert_eq!(reg.get_total_urls(), 1);
    let after = reg.get_url("news");
    assert_eq!(after.original_url, before.original_url);
    assert_eq!(after.creator, before.creator);
    assert_eq!(after.created_at, before.created_at);
    assert_eq!(after.click_count, before.click_count);
}

#[test]
fn resolve_increments_exactly_once_per_call() {
    let mut reg = UrlShortenerContract::new();
    reg.create_short_url(
        "blog".to_string(),
        "https://example.com/blog".to_string(),
        "alice".to_string(),
        true,
        1,
    )
    .unwrap();
    assert_eq!(reg.get_url("blog").click_count, 0);
    for n in 1..=5u64 {
        let url = reg.resolve_url("blog");
        assert_eq!(url, "https://example.com/blog");
        assert_eq!(reg.get_url("blog").click_count, n);
    }
}

#[test]
fn absent_resolve_leaves_state_unchanged() {
    let mut reg = UrlShortenerContract::new();
    reg.create_short_url(
        "kept".to_string(),
        "https://example.com/kept".to_string(),
        "alice".to_string(),
        true,
        3,
    )
    .unwrap();
    let total_before = reg.get_total_urls();
    let ttl_before = reg.remaining_ttl();
    assert_eq!(reg.resolve_url("never-created"), "NOT_FOUND");
    assert_eq!(reg.get_total_urls(), total_before);
    assert_eq!(reg.remaining_ttl(), ttl_before);
    assert_eq!(reg.get_url("kept").click_count, 0);
}

#[test]
fn absent_lookup_yields_canonical_sentinel() {
    let reg = UrlShortenerContract::new();
    let m = reg.get_url("never-created");
    assert_eq!(m.short_code, "");
    assert_eq!(m.original_url, "NOT_FOUND");
    assert_eq!(
        m.creator,
        "GAAAAAAAAAAAAAAAAAAAAAAAAAAAAAAAAAAAAAAAAAAAAAAAAAAAAAAAD2KM"
    );
    assert_eq!(m.created_at, 0);
    assert_eq!(m.click_count, 0);
}

#[test]
fn total_counts_successful_creates_exactly() {
    let mut reg = UrlShortenerContract::new();
    assert_eq!(reg.get_total_urls(), 0);
    assert!(reg
        .create_short_url("a".to_string(), "https://a.example".to_string(), "alice".to_string(), true, 1)
        .is_ok());
    assert_eq!(reg.get_total_urls(), 1);
    // a refused duplicate does not count
    assert!(reg
        .create_short_url("a".to_string(), "https://b.example".to_string(), "bob".to_string(), true, 2)
        .is_err());
    assert_eq!(reg.get_total_urls(), 1);
    // an unauthorized attempt does not count
    assert!(reg
        .create_short_url("b".to_string(), "https://b.example".to_string(), "bob".to_string(), false, 3)
        .is_err());
    assert_eq!(reg.get_total_urls(), 1);
    // resolutions do not count
    reg.resolve_url("a");
    reg.resolve_url("nope");
    assert_eq!(reg.get_total_urls(), 1);
    assert!(reg
        .create_short_url("b".to_string(), "https://b.example".to_string(), "bob".to_string(), true, 4)
        .is_ok());
    assert_eq!(reg.get_total_urls(), 2);
}

#[test]
fn unauthorized_create_fails_for_fresh_and_taken_codes() {
    let mut reg = UrlShortenerContract::new();
    let r = reg.create_short_url(
        "fresh".to_string(),
        "https://example.com".to_string(),
        "alice".to_string(),
        false,
        5,
    );
    assert_eq!(r, Err(UrlError::Unauthorized));
    assert_eq!(reg.get_total_urls(), 0);
    assert_eq!(reg.get_url("fresh").created_at, 0);
    reg.create_short_url(
        "taken".to_string(),
        "https://example.com".to_string(),
        "alice".to_string(),
        true,
        6,
    )
    .unwrap();
    // authorization is judged before the duplicate check
    let r2 = reg.create_short_url(
        "taken".to_string(),
        "https://other.example".to_string(),
        "bob".to_string(),
        false,
        7,
    );
    assert_eq!(r2, Err(UrlError::Unauthorized));
}

#[test]
fn ttl_renewed_by_every_mutating_call() {
    let mut reg = UrlShortenerContract::new();
    assert_eq!(reg.remaining_ttl(), 0);
    reg.create_short_url(
        "x".to_string(),
        "https://example.com".to_string(),
        "alice".to_string(),
        true,
        1,
    )
    .unwrap();
    assert_eq!(reg.remaining_ttl(), 100000);
    reg.resolve_url("x");
    assert_eq!(reg.remaining_ttl(), 100000);

    // a lifetime below the threshold is extended back to the window
    let mut low = UrlShortenerContract::from_state(
        vec![mapping("x", "https://example.com", "alice", 1, 0)],
        1,
        99999,
    )
    .unwrap();
    low.resolve_url("x");
    assert_eq!(low.remaining_ttl(), 100000);

    // a lifetime at or above the threshold is left alone
    let mut high = UrlShortenerContract::from_state(
        vec![mapping("x", "https://example.com", "alice", 1, 0)],
        1,
        250000,
    )
    .unwrap();
    high.resolve_url("x");
    assert_eq!(high.remaining_ttl(), 250000);

    // a failed creation renews nothing
    let mut idle = UrlShortenerContract::new();
    let r = idle.create_short_url(
        "y".to_string(),
        "https://example.com".to_string(),
        "bob".to_string(),
        false,
        2,
    );
    assert!(r.is_err());
    assert_eq!(idle.remaining_ttl(), 0);
}

#[test]
fn from_state_accepts_lawful_state_and_keeps_it() {
    let reg = UrlShortenerContract::from_state(
        vec![
            mapping("a", "https://a.example", "alice", 10, 3),
            mapping("b", "https://b.example", "bob", 20, 0),
        ],
        2,
        5000,
    );
    let mut reg = reg.unwrap();
    assert_eq!(reg.get_total_urls(), 2);
    assert_eq!(reg.remaining_ttl(), 5000);
    let a = reg.get_url("a");
    assert_eq!(a.original_url, "https://a.example");
    assert_eq!(a.creator, "alice");
    assert_eq!(a.created_at, 10);
    assert_eq!(a.click_count, 3);
    assert_eq!(reg.resolve_url("b"), "https://b.example");
    assert_eq!(reg.get_url("b").click_count, 1);
}

#[test]
fn from_state_refuses_unlawful_state() {
    // two entries under one short code
    assert!(UrlShortenerContract::from_state(
        vec![
            mapping("a", "https://a.example", "alice", 10, 0),
            mapping("a", "https://b.example", "bob", 20, 0),
        ],
        2,
        0,
    )
    .is_none());
    // the absence sentinel is not a storable mapping
    assert!(UrlShortenerContract::from_state(
        vec![mapping("a", "https://a.example", "alice", 0, 0)],
        1,
        0,
    )
    .is_none());
    // a real mapping carries a non-empty short code
    assert!(UrlShortenerContract::from_state(
        vec![mapping("", "https://a.example", "alice", 10, 0)],
        1,
        0,
    )
    .is_none());
}

#[test]
fn click_count_saturates_at_the_numeric_limit() {
    let mut reg = UrlShortenerContract::from_state(
        vec![mapping("hot", "https://hot.example", "alice", 1, u64::MAX - 1)],
        1,
        0,
    )
    .unwrap();
    assert_eq!(reg.resolve_url("hot"), "https://hot.example");
    assert_eq!(reg.get_url("hot").click_count, u64::MAX);
    assert_eq!(reg.resolve_url("hot"), "https://hot.example");
    assert_eq!(reg.get_url("hot").click_count, u64::MAX);
}

#[test]
fn url_book_carries_its_code() {
    let key = UrlBook::Url("go2x".to_string());
    assert_eq!(key.code(), "go2x");
}

#[test]
fn absent_mapping_value_and_clone() {
    let absent = UrlMapping::absent();
    assert_eq!(absent.created_at, 0);
    assert_eq!(absent.original_url, "NOT_FOUND");
    let real = mapping("a", "https://a.example", "alice", 4, 9);
    let copy = real.clone();
    assert_eq!(copy.short_code, real.short_code);
    assert_eq!(copy.original_url, real.original_url);
    assert_eq!(copy.creator, real.creator);
    assert_eq!(copy.created_at, real.created_at);
    assert_eq!(copy.click_count, real.click_count);
}
