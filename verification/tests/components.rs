//! Component-level tests: identifiers, templates, the store, and routing.

use posts_service::ids::{check_uuid, canon_uuid_chars, format_id, fresh_id_bytes};
use posts_service::render::{Renderer, TemplateFailure};
use posts_service::router::{route_request, Method, Route};
use posts_service::store::Store;
use posts_service::template::scan_template;

fn chars(s: &str) -> Vec<char> {
    s.chars().collect()
}

fn text(v: &[char]) -> String {
    v.iter().collect()
}

#[test]
fn format_id_writes_canonical_hex() {
    let bytes: Vec<u8> = vec![
        0x01, 0x23, 0x45, 0x67, 0x89, 0xab, 0xcd, 0xef, 0x01, 0x23, 0x45, 0x67, 0x89, 0xab, 0xcd,
        0xef,
    ];
    let id = format_id(&bytes);
    assert_eq!(text(&id), "01234567-89ab-cdef-0123-456789abcdef");
    assert!(check_uuid(&id));
}

#[test]
fn check_uuid_rejects_near_misses() {
    assert!(check_uuid(&chars("01234567-89ab-cdef-0123-456789abcdef")));
    assert!(check_uuid(&chars("01234567-89AB-CDEF-0123-456789ABCDEF")));
    assert!(!check_uuid(&chars("01234567-89ab-cdef-0123-456789abcde")));
    assert!(!check_uuid(&chars("01234567-89ab-cdef-0123-456789abcdeff")));
    assert!(!check_uuid(&chars("0123456789ab-cdef-0123-456789abcdefff")));
    assert!(!check_uuid(&chars("01234567-89ab-cdef-0123-456789abcdeg")));
    assert!(!check_uuid(&chars("")));
}

#[test]
fn canon_lowers_hex_digits_only() {
    let c = canon_uuid_chars(&chars("01234567-89AB-CDEF-0123-456789ABCDEF"));
    assert_eq!(text(&c), "01234567-89ab-cdef-0123-456789abcdef");
}

#[test]
fn fresh_identifiers_are_distinct() {
    let mut seen = std::collections::HashSet::new();
    for _ in 0..10_000 {
        let id = text(&format_id(&fresh_id_bytes()));
        assert!(seen.insert(id));
    }
}

#[test]
fn store_insert_then_find_returns_the_record() {
    let mut store = Store::open().unwrap();
    let id = store.insert("a title", "some content").unwrap();
    let post = store.find_by_id(&id).unwrap().unwrap();
    assert_eq!(post.title, "a title");
    assert_eq!(post.content, "some content");
    assert_eq!(text(&post.id), text(&id));
}

#[test]
fn store_absent_identifier_is_none_not_error() {
    let store = Store::open().unwrap();
    let r = store.find_by_id(&chars("00000000-0000-0000-0000-000000000000"));
    assert!(r.unwrap().is_none());
}

#[test]
fn store_identifiers_do_not_collide() {
    let mut store = Store::open().unwrap();
    let mut seen = std::collections::HashSet::new();
    for _ in 0..500 {
        let id = store.insert("t", "c").unwrap();
        assert!(seen.insert(text(&id)));
    }
}

#[test]
fn renderer_substitutes_bound_values() {
    let mut r = Renderer::new();
    r.register(&chars("hello"), &chars("Hello, {{name}}!")).unwrap();
    let out = r
        .render(&chars("hello"), &vec![(chars("name"), String::from("Ada"))])
        .unwrap();
    assert_eq!(out, "Hello, Ada!");
}

#[test]
fn renderer_rejects_duplicate_registration() {
    let mut r = Renderer::new();
    r.register(&chars("hello"), &chars("a")).unwrap();
    let e = r.register(&chars("hello"), &chars("b")).unwrap_err();
    assert_eq!(e, TemplateFailure::AlreadyRegistered);
    // The first body stays.
    assert_eq!(r.render(&chars("hello"), &vec![]).unwrap(), "a");
}

#[test]
fn renderer_rejects_malformed_bodies() {
    let mut r = Renderer::new();
    assert_eq!(r.register(&chars("a"), &chars("{{name}")).unwrap_err(), TemplateFailure::Malformed);
    assert_eq!(r.register(&chars("b"), &chars("{name}")).unwrap_err(), TemplateFailure::Malformed);
    assert_eq!(r.register(&chars("c"), &chars("x}y")).unwrap_err(), TemplateFailure::Malformed);
    assert_eq!(r.register(&chars("d"), &chars("{{}}")).unwrap_err(), TemplateFailure::Malformed);
    assert_eq!(
        r.register(&chars("e"), &chars("{{Name}}")).unwrap_err(),
        TemplateFailure::Malformed
    );
    // Names the engine reads as literals rather than bindings are refused.
    assert_eq!(
        r.register(&chars("f"), &chars("{{true}}")).unwrap_err(),
        TemplateFailure::Malformed
    );
    assert_eq!(
        r.register(&chars("g"), &chars("{{false}}")).unwrap_err(),
        TemplateFailure::Malformed
    );
}

#[test]
fn renderer_reports_unregistered_and_unbound() {
    let mut r = Renderer::new();
    r.register(&chars("hello"), &chars("Hello, {{name}}!")).unwrap();
    assert_eq!(
        r.render(&chars("missing"), &vec![]).unwrap_err(),
        TemplateFailure::Unregistered
    );
    assert_eq!(
        r.render(&chars("hello"), &vec![(chars("other"), String::from("x"))]).unwrap_err(),
        TemplateFailure::MissingBinding
    );
}

#[test]
fn renderer_inserts_values_verbatim() {
    let mut r = Renderer::new();
    r.register(&chars("t"), &chars("v: {{v}}")).unwrap();
    // A value holding marker syntax is not scanned again.
    let out = r
        .render(&chars("t"), &vec![(chars("v"), String::from("{{v}} & <b>"))])
        .unwrap();
    assert_eq!(out, "v: {{v}} & <b>");
}

#[test]
fn scan_template_lists_markers_in_order() {
    let names = scan_template(&chars("id: {{id}}\ntitle: {{title}}\ncontent:\n{{content}}"))
        .unwrap();
    let names: Vec<String> = names.iter().map(|n| text(n)).collect();
    assert_eq!(names, vec!["id", "title", "content"]);
    assert!(scan_template(&chars("no markers at all")).unwrap().is_empty());
    assert!(scan_template(&chars("{{a}{b}}")).is_none());
}

#[test]
fn route_priority_on_root() {
    assert!(matches!(route_request(&chars("/"), Method::Get), Route::Greet));
    assert!(matches!(route_request(&chars("/"), Method::Post), Route::Echo));
    assert!(matches!(route_request(&chars("/"), Method::Other), Route::Echo));
}

#[test]
fn route_posts_paths() {
    assert!(matches!(route_request(&chars("/posts"), Method::Post), Route::Create));
    assert!(matches!(route_request(&chars("/posts"), Method::Get), Route::NotFound));
    match route_request(&chars("/posts/abc"), Method::Get) {
        Route::Find(rest) => assert_eq!(text(&rest), "abc"),
        _ => panic!("expected a lookup route"),
    }
    assert!(matches!(route_request(&chars("/posts/abc"), Method::Post), Route::NotFound));
    assert!(matches!(route_request(&chars("/posts/"), Method::Get), Route::Find(_)));
    assert!(matches!(route_request(&chars("/post"), Method::Get), Route::NotFound));
    assert!(matches!(route_request(&chars(""), Method::Get), Route::NotFound));
}
