use shortlink::db::Store;
use shortlink::error::ErrorKind;
use shortlink::models::Url;
use shortlink::text::{contains_str, str_eq, str_eq_constant_time};

fn record(id: i64, hits: u64) -> Url {
    Url {
        id,
        path: "/p".to_string(),
        title: String::new(),
        body: String::new(),
        icon: String::new(),
        redirect: String::new(),
        hits,
        created_at: 0,
        updated_at: 0,
    }
}

#[test]
fn substring_search_edges() {
    assert!(contains_str("abc", ""));
    assert!(contains_str("", ""));
    assert!(!contains_str("", "a"));
    assert!(contains_str("abc", "abc"));
    assert!(contains_str("xxabcxx", "abc"));
    assert!(!contains_str("ab", "abc"));
    assert!(!contains_str("abdc", "abc"));
}

#[test]
fn string_equality_is_exact_and_unicode_aware() {
    assert!(str_eq("", ""));
    assert!(str_eq("héllo", "héllo"));
    assert!(!str_eq("héllo", "hello"));
    assert!(!str_eq("abc", "abcd"));
    assert!(str_eq_constant_time("héllo", "héllo"));
    assert!(!str_eq_constant_time("héllo", "hélla"));
    assert!(!str_eq_constant_time("a", "ab"));
}

#[test]
fn exhausted_id_space_is_a_storage_error() {
    let mut store = Store { next_id: i64::MAX, records: Vec::new() };
    let e = record(0, 0).insert_at(&mut store, 1).unwrap_err();
    assert_eq!(e.kind, ErrorKind::Storage);
    assert_eq!(e.status_code(), 500);
    assert_eq!(Url::list(&store).len(), 0);
}

#[test]
fn hit_counter_saturates_at_its_width() {
    let mut store = Store { next_id: 2, records: vec![record(1, u64::MAX)] };
    Url::incr(1, &mut store).unwrap();
    assert_eq!(Url::list(&store)[0].hits, u64::MAX);
}
