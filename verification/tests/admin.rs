use shortlink::admin::{service, AdminReply, AdminRequest};
use shortlink::db;
use shortlink::error::ErrorKind;
use shortlink::models::Url;
use shortlink::routes::{handle_request, is_lark_bot_ua};

const FALLBACK: &str = "https://www.bilibili.com/video/BV1MX4y1N75X";

fn body(path: &str, title: &str, body: &str, icon: &str, redirect: &str) -> Url {
    Url {
        id: 0,
        path: path.to_string(),
        title: title.to_string(),
        body: body.to_string(),
        icon: icon.to_string(),
        redirect: redirect.to_string(),
        hits: 0,
        created_at: 0,
        updated_at: 0,
    }
}

#[test]
fn wrong_or_missing_token_is_rejected_before_the_store() {
    let gateway = service("secret123");
    let mut store = db::new();
    body("/x", "T", "B", "/i.png", "https://dest.example")
        .insert_at(&mut store, 1)
        .unwrap();

    for auth in [None, Some(""), Some("secret12"), Some("secret1234"), Some("SECRET123")] {
        for req in [
            AdminRequest::List,
            AdminRequest::Create(body("/y", "", "", "", "")),
            AdminRequest::Update(1, body("/z", "", "", "", "")),
            AdminRequest::Delete(1),
        ] {
            let e = gateway.handle(auth, req, &mut store).unwrap_err();
            assert_eq!(e.kind, ErrorKind::Unauthorized);
            assert_eq!(e.status_code(), 401);
        }
    }
    let listed = Url::list(&store);
    assert_eq!(listed.len(), 1);
    assert_eq!(listed[0].path, "/x");
    assert_eq!(listed[0].title, "T");
}

#[test]
fn authorize_requires_exact_token() {
    let gateway = service("secret123");
    assert!(gateway.authorize(Some("secret123")));
    assert!(!gateway.authorize(Some("secret124")));
    assert!(!gateway.authorize(Some("")));
    assert!(!gateway.authorize(None));
    let open_gateway = service("");
    assert!(open_gateway.authorize(Some("")));
    assert!(!open_gateway.authorize(None));
}

#[test]
fn authorized_crud_reaches_the_store() {
    let gateway = service("secret123");
    let mut store = db::new();

    let r = gateway
        .handle(
            Some("secret123"),
            AdminRequest::Create(body("/x", "T", "B", "/i.png", "https://dest.example")),
            &mut store,
        )
        .unwrap();
    assert!(matches!(r, AdminReply::Done));

    let r = gateway
        .handle(Some("secret123"), AdminRequest::List, &mut store)
        .unwrap();
    let listed = match r {
        AdminReply::Urls(v) => v,
        AdminReply::Done => panic!("list must answer with records"),
    };
    assert_eq!(listed.len(), 1);
    assert_eq!(listed[0].path, "/x");

    let r = gateway
        .handle(
            Some("secret123"),
            AdminRequest::Update(1, body("/x", "T2", "B2", "/i.png", "https://dest.example")),
            &mut store,
        )
        .unwrap();
    assert!(matches!(r, AdminReply::Done));
    assert_eq!(Url::list(&store)[0].title, "T2");

    let e = gateway
        .handle(
            Some("secret123"),
            AdminRequest::Update(42, body("/x", "", "", "", "")),
            &mut store,
        )
        .unwrap_err();
    assert_eq!(e.kind, ErrorKind::NotFound);
    assert_eq!(e.status_code(), 404);

    let r = gateway
        .handle(Some("secret123"), AdminRequest::Delete(1), &mut store)
        .unwrap();
    assert!(matches!(r, AdminReply::Done));
    assert_eq!(Url::list(&store).len(), 0);
}

#[test]
fn token_scenario_end_to_end() {
    let gateway = service("secret123");
    let mut store = db::new();

    let r = gateway
        .handle(
            Some("secret123"),
            AdminRequest::Create(body("/x", "T", "B", "/i.png", "https://dest.example")),
            &mut store,
        )
        .unwrap();
    assert!(matches!(r, AdminReply::Done));

    let browser = "Mozilla/5.0 Firefox/120.0";
    let o = handle_request("/x", Some(browser), &store).unwrap();
    assert_eq!(o.response.status, 307);
    assert_eq!(o.response.location.as_deref(), Some("https://dest.example"));

    let crawler = "Mozilla/5.0 Chrome/91.0.4450.0";
    assert!(is_lark_bot_ua(crawler));
    let o = handle_request("/x", Some(crawler), &store).unwrap();
    assert_eq!(o.response.status, 200);
    assert!(o.response.body.contains("T"));
    assert!(o.response.body.contains("B"));

    for ua in [browser, crawler] {
        let o = handle_request("/nonexistent", Some(ua), &store).unwrap();
        assert_eq!(o.response.status, 307);
        assert_eq!(o.response.location.as_deref(), Some(FALLBACK));
    }

    let r = gateway
        .handle(Some("secret123"), AdminRequest::Delete(999), &mut store)
        .unwrap();
    assert!(matches!(r, AdminReply::Done));
}
