//! End-to-end scenarios through `handle_request`, with the real template and
//! storage engines linked.

use posts_service::handlers::{handle_request, Request, Response};
use posts_service::render::Renderer;
use posts_service::router::Method;
use posts_service::store::Store;

fn chars(s: &str) -> Vec<char> {
    s.chars().collect()
}

fn setup_renderer() -> Renderer {
    let mut r = Renderer::new();
    r.register(&chars("hello"), &chars("Hello, {{name}}!")).unwrap();
    r.register(&chars("post"), &chars("id: {{id}}\ntitle: {{title}}\ncontent:\n{{content}}"))
        .unwrap();
    r
}

fn req(method: Method, path: &str, body: &[u8]) -> Request {
    Request { method, path: chars(path), body: body.to_vec() }
}

fn run(method: Method, path: &str, body: &[u8], renderer: &Renderer, store: &mut Store) -> Response {
    handle_request(&req(method, path, body), renderer, store)
}

#[test]
fn create_then_fetch_round_trip() {
    let renderer = setup_renderer();
    let mut store = Store::open().unwrap();
    let created = run(Method::Post, "/posts", b"title=Hi&content=World", &renderer, &mut store);
    assert_eq!(created.status, 200);
    let id = created.body.clone();
    assert_eq!(id.len(), 36);
    assert!(id.chars().enumerate().all(|(i, c)| {
        if i == 8 || i == 13 || i == 18 || i == 23 {
            c == '-'
        } else {
            c.is_ascii_hexdigit()
        }
    }));
    let path = format!("/posts/{}", id);
    let fetched = run(Method::Get, &path, b"", &renderer, &mut store);
    assert_eq!(fetched.status, 200);
    assert_eq!(fetched.body, format!("id: {}\ntitle: Hi\ncontent:\nWorld", id));
}

#[test]
fn fetch_unused_identifier_is_404() {
    let renderer = setup_renderer();
    let mut store = Store::open().unwrap();
    let r = run(
        Method::Get,
        "/posts/00000000-0000-0000-0000-000000000000",
        b"",
        &renderer,
        &mut store,
    );
    assert_eq!(r.status, 404);
    assert_eq!(r.body, "");
}

#[test]
fn greet_renders_name() {
    let renderer = setup_renderer();
    let mut store = Store::open().unwrap();
    let r = run(Method::Get, "/", b"name=Ada", &renderer, &mut store);
    assert_eq!(r.status, 200);
    assert_eq!(r.body, "Hello, Ada!");
}

#[test]
fn unmatched_path_is_404_with_empty_body() {
    let renderer = setup_renderer();
    let mut store = Store::open().unwrap();
    let r = run(Method::Get, "/nonexistent", b"", &renderer, &mut store);
    assert_eq!(r.status, 404);
    assert_eq!(r.body, "");
}

#[test]
fn post_to_root_is_echo_not_greet() {
    let renderer = setup_renderer();
    let mut store = Store::open().unwrap();
    // The body would satisfy Greet; priority must send it to Echo anyway.
    let r = run(Method::Post, "/", b"name=Ada", &renderer, &mut store);
    assert_eq!(r.status, 200);
    assert_eq!(r.body, "Hello, world!!");
}

#[test]
fn other_method_on_root_is_echo() {
    let renderer = setup_renderer();
    let mut store = Store::open().unwrap();
    let r = run(Method::Other, "/", b"", &renderer, &mut store);
    assert_eq!(r.status, 200);
    assert_eq!(r.body, "Hello, world!!");
}

#[test]
fn greet_without_prefix_is_bad_request() {
    let renderer = setup_renderer();
    let mut store = Store::open().unwrap();
    let r = run(Method::Get, "/", b"who=Ada", &renderer, &mut store);
    assert_eq!(r.status, 400);
    assert_eq!(r.body, "");
}

#[test]
fn greet_with_invalid_utf8_is_bad_request() {
    let renderer = setup_renderer();
    let mut store = Store::open().unwrap();
    let r = run(Method::Get, "/", b"name=\xff\xfe", &renderer, &mut store);
    assert_eq!(r.status, 400);
    assert_eq!(r.body, "");
}

#[test]
fn create_with_missing_field_is_bad_request() {
    let renderer = setup_renderer();
    let mut store = Store::open().unwrap();
    let r = run(Method::Post, "/posts", b"title=Hi", &renderer, &mut store);
    assert_eq!(r.status, 400);
    assert_eq!(r.body, "");
    let r = run(Method::Post, "/posts", b"content=World", &renderer, &mut store);
    assert_eq!(r.status, 400);
}

#[test]
fn fetch_with_malformed_identifier_is_bad_request() {
    let renderer = setup_renderer();
    let mut store = Store::open().unwrap();
    let r = run(Method::Get, "/posts/not-an-identifier", b"", &renderer, &mut store);
    assert_eq!(r.status, 400);
    assert_eq!(r.body, "");
}

#[test]
fn fetch_accepts_uppercase_spelling_of_identifier() {
    let renderer = setup_renderer();
    let mut store = Store::open().unwrap();
    let created = run(Method::Post, "/posts", b"title=T&content=C", &renderer, &mut store);
    assert_eq!(created.status, 200);
    let path = format!("/posts/{}", created.body.to_uppercase());
    let fetched = run(Method::Get, &path, b"", &renderer, &mut store);
    assert_eq!(fetched.status, 200);
}

#[test]
fn form_decoding_handles_percent_escapes() {
    let renderer = setup_renderer();
    let mut store = Store::open().unwrap();
    let created = run(
        Method::Post,
        "/posts",
        b"title=a%20b&content=c%26d",
        &renderer,
        &mut store,
    );
    assert_eq!(created.status, 200);
    let path = format!("/posts/{}", created.body);
    let fetched = run(Method::Get, &path, b"", &renderer, &mut store);
    assert_eq!(fetched.status, 200);
    assert_eq!(
        fetched.body,
        format!("id: {}\ntitle: a b\ncontent:\nc&d", created.body)
    );
}

#[test]
fn content_may_be_empty() {
    let renderer = setup_renderer();
    let mut store = Store::open().unwrap();
    let created = run(Method::Post, "/posts", b"title=Hi&content=", &renderer, &mut store);
    assert_eq!(created.status, 200);
    let path = format!("/posts/{}", created.body);
    let fetched = run(Method::Get, &path, b"", &renderer, &mut store);
    assert_eq!(fetched.status, 200);
    assert_eq!(fetched.body, format!("id: {}\ntitle: Hi\ncontent:\n", created.body));
}

#[test]
fn many_records_stay_consistent() {
    let renderer = setup_renderer();
    let mut store = Store::open().unwrap();
    let mut ids: Vec<(String, String, String)> = Vec::new();
    for i in 0..100 {
        let title = format!("title{}", i);
        let content = format!("content{}", i);
        let body = format!("title={}&content={}", title, content);
        let r = run(Method::Post, "/posts", body.as_bytes(), &renderer, &mut store);
        assert_eq!(r.status, 200);
        ids.push((r.body, title, content));
    }
    for (id, title, content) in &ids {
        let path = format!("/posts/{}", id);
        let r = run(Method::Get, &path, b"", &renderer, &mut store);
        assert_eq!(r.status, 200);
        assert_eq!(r.body, format!("id: {}\ntitle: {}\ncontent:\n{}", id, title, content));
    }
}
