use shortlink::db;
use shortlink::error::ErrorKind;
use shortlink::models::Url;

fn fields(path: &str, title: &str, body: &str, icon: &str, redirect: &str) -> Url {
    Url {
        id: 0,
        path: path.to_string(),
        title: title.to_string(),
        body: body.to_string(),
        icon: icon.to_string(),
        redirect: redirect.to_string(),
        hits: 0,
        created_at: 0,
        updated_at: 0,
    }
}

#[test]
fn create_round_trip() {
    let mut store = db::new();
    let created = fields("/x", "T", "B", "/i.png", "https://dest.example")
        .insert_at(&mut store, 100)
        .unwrap();
    assert_eq!(created.id, 1);
    assert_eq!(created.hits, 0);
    assert_eq!(created.created_at, 100);
    assert_eq!(created.updated_at, 100);

    let listed = Url::list(&store);
    assert_eq!(listed.len(), 1);
    let u = &listed[0];
    assert_eq!(u.id, 1);
    assert_eq!(u.path, "/x");
    assert_eq!(u.title, "T");
    assert_eq!(u.body, "B");
    assert_eq!(u.icon, "/i.png");
    assert_eq!(u.redirect, "https://dest.example");
    assert_eq!(u.hits, 0);
}

#[test]
fn create_ignores_caller_identity_fields() {
    let mut store = db::new();
    let mut data = fields("/a", "t", "b", "/i", "https://a.example");
    data.id = 77;
    data.hits = 12;
    data.created_at = 5;
    data.updated_at = 6;
    let created = data.insert_at(&mut store, 42).unwrap();
    assert_eq!(created.id, 1);
    assert_eq!(created.hits, 0);
    assert_eq!(created.created_at, 42);
    assert_eq!(created.updated_at, 42);
}

#[test]
fn insert_with_clock_stamps_equal_times() {
    let mut store = db::new();
    let created = fields("/c", "t", "b", "/i", "https://c.example")
        .insert(&mut store)
        .unwrap();
    assert_eq!(created.id, 1);
    assert_eq!(created.hits, 0);
    assert_eq!(created.created_at, created.updated_at);
}

#[test]
fn ids_are_never_reused() {
    let mut store = db::new();
    let first = fields("/a", "", "", "", "").insert_at(&mut store, 1).unwrap();
    assert_eq!(first.id, 1);
    Url::delete(1, &mut store).unwrap();
    let second = fields("/a", "", "", "", "").insert_at(&mut store, 2).unwrap();
    assert_eq!(second.id, 2);
}

#[test]
fn update_replaces_fields_and_advances_updated_at() {
    let mut store = db::new();
    fields("/x", "T", "B", "/i.png", "https://dest.example")
        .insert_at(&mut store, 100)
        .unwrap();
    Url::incr(1, &mut store).unwrap();

    let mut new_fields = fields("/y", "T2", "B2", "/j.png", "https://other.example");
    new_fields.id = 1;
    new_fields.update_at(&mut store, 200).unwrap();

    let listed = Url::list(&store);
    assert_eq!(listed.len(), 1);
    let u = &listed[0];
    assert_eq!(u.id, 1);
    assert_eq!(u.path, "/y");
    assert_eq!(u.title, "T2");
    assert_eq!(u.body, "B2");
    assert_eq!(u.icon, "/j.png");
    assert_eq!(u.redirect, "https://other.example");
    assert_eq!(u.hits, 1);
    assert_eq!(u.created_at, 100);
    assert_eq!(u.updated_at, 200);
}

#[test]
fn update_absent_id_is_not_found() {
    let mut store = db::new();
    let mut data = fields("/x", "", "", "", "");
    data.id = 9;
    let e = data.update_at(&mut store, 10).unwrap_err();
    assert_eq!(e.kind, ErrorKind::NotFound);
    assert_eq!(e.status_code(), 404);
}

#[test]
fn delete_nonexistent_id_succeeds_repeatedly() {
    let mut store = db::new();
    assert!(Url::delete(999, &mut store).is_ok());
    assert!(Url::delete(999, &mut store).is_ok());
    fields("/x", "", "", "", "").insert_at(&mut store, 1).unwrap();
    assert!(Url::delete(1, &mut store).is_ok());
    assert_eq!(Url::list(&store).len(), 0);
    assert!(Url::delete(1, &mut store).is_ok());
    assert_eq!(Url::list(&store).len(), 0);
}

#[test]
fn incr_counts_only_the_target() {
    let mut store = db::new();
    fields("/a", "", "", "", "").insert_at(&mut store, 1).unwrap();
    fields("/b", "", "", "", "").insert_at(&mut store, 1).unwrap();
    Url::incr(2, &mut store).unwrap();
    Url::incr(2, &mut store).unwrap();
    let listed = Url::list(&store);
    assert_eq!(listed[0].hits, 0);
    assert_eq!(listed[1].hits, 2);
}

#[test]
fn incr_absent_id_is_a_silent_no_op() {
    let mut store = db::new();
    fields("/a", "", "", "", "").insert_at(&mut store, 1).unwrap();
    assert!(Url::incr(42, &mut store).is_ok());
    let listed = Url::list(&store);
    assert_eq!(listed.len(), 1);
    assert_eq!(listed[0].hits, 0);
}

#[test]
fn lookup_prefers_lowest_id_among_duplicates() {
    let mut store = db::new();
    fields("/dup", "first", "", "", "https://one.example")
        .insert_at(&mut store, 1)
        .unwrap();
    fields("/dup", "second", "", "", "https://two.example")
        .insert_at(&mut store, 2)
        .unwrap();
    let u = Url::from_path("/dup", &store).unwrap();
    assert_eq!(u.id, 1);
    assert_eq!(u.title, "first");
}

#[test]
fn lookup_is_exact_no_normalization() {
    let mut store = db::new();
    fields("/Case", "", "", "", "").insert_at(&mut store, 1).unwrap();
    assert!(Url::from_path("/case", &store).is_none());
    assert!(Url::from_path("/Case/", &store).is_none());
    assert!(Url::from_path("/Case", &store).is_some());
}

#[test]
fn error_with_code_overrides_status() {
    let e = shortlink::error::Error::new(ErrorKind::Internal, "boom");
    assert_eq!(e.status_code(), 500);
    let e = e.with_code(503);
    assert_eq!(e.status_code(), 503);
    assert_eq!(e.kind, ErrorKind::Internal);
}
