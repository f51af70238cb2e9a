//! The handlers and the request entry point: each consumes a request and the
//! shared renderer/store handles and produces a response. Every fallible step
//! is turned into a response status; no request is left unanswered.

use vstd::prelude::*;
use crate::form::{parse_form, find_first, first_val, form_pairs_of};
use crate::ids::{check_uuid, canon_uuid_chars, is_uuid_chars, canon_uuid};
use crate::render::Renderer;
use crate::router::{Method, Route, RouteSpec, route_of, route_request};
use crate::store::{Store, lookup};
use crate::template::{all_markers_bound, subst, map_of_pairs, binds_view};
use crate::text::{string_of_chars, utf8_chars};

verus! {

/// An incoming request, as the transport hands it over: method, path, body.
pub struct Request {
    pub method: Method,
    pub path: Vec<char>,
    pub body: Vec<u8>,
}

/// An outgoing response: status code and body text.
pub struct Response {
    pub status: u16,
    pub body: String,
}

/// The fixed body Echo answers with.
pub open spec fn echo_body() -> Seq<char> {
    seq!['H', 'e', 'l', 'l', 'o', ',', ' ', 'w', 'o', 'r', 'l', 'd', '!', '!']
}

/// The form field Greet expects at the front of the body.
pub open spec fn name_prefix() -> Seq<char> {
    seq!['n', 'a', 'm', 'e', '=']
}

pub open spec fn name_key() -> Seq<char> {
    seq!['n', 'a', 'm', 'e']
}

pub open spec fn title_key() -> Seq<char> {
    seq!['t', 'i', 't', 'l', 'e']
}

pub open spec fn content_key() -> Seq<char> {
    seq!['c', 'o', 'n', 't', 'e', 'n', 't']
}

pub open spec fn id_key() -> Seq<char> {
    seq!['i', 'd']
}

/// The template Greet renders.
pub open spec fn hello_tpl() -> Seq<char> {
    seq!['h', 'e', 'l', 'l', 'o']
}

/// The template FindPost renders.
pub open spec fn post_tpl() -> Seq<char> {
    seq!['p', 'o', 's', 't']
}

pub open spec fn empty_body(r: Response) -> bool {
    r.body@ == Seq::<char>::empty()
}

/// What Greet must answer: 400 for a body that is not text or lacks the
/// `name=` prefix; the hello template rendered with the rest of the body
/// bound to `name`, owed whenever that template is registered and covered by
/// the one binding; 500 only where it is not.
pub open spec fn greet_response_ok(
    tpls: Map<Seq<char>, Seq<char>>,
    body: Seq<u8>,
    r: Response,
) -> bool {
    if !vstd::utf8::valid_utf8(body) {
        r.status == 400 && empty_body(r)
    } else {
        let t = vstd::utf8::decode_utf8(body);
        if !(t.len() >= 5 && t.take(5) == name_prefix()) {
            r.status == 400 && empty_body(r)
        } else {
            let b = Map::<Seq<char>, Seq<char>>::empty().insert(name_key(), t.skip(5));
            if tpls.contains_key(hello_tpl()) && all_markers_bound(tpls[hello_tpl()], b) {
                r.status == 200 && r.body@ == subst(tpls[hello_tpl()], b)
            } else {
                r.status == 500 && empty_body(r)
            }
        }
    }
}

/// What CreatePost may answer, and how the store may change: 400 and no
/// change for a body that does not decode or lacks a field; else either 200
/// with a fresh identifier as the body and exactly the new record added, or
/// 500 and no change where the engine refused the write.
pub open spec fn create_response_ok(
    m_old: Map<Seq<char>, (Seq<char>, Seq<char>)>,
    m_new: Map<Seq<char>, (Seq<char>, Seq<char>)>,
    body: Seq<u8>,
    r: Response,
) -> bool {
    match form_pairs_of(body) {
        None => r.status == 400 && empty_body(r) && m_new == m_old,
        Some(ps) => match (first_val(ps, title_key()), first_val(ps, content_key())) {
            (Some(tv), Some(cv)) => (r.status == 200 && is_uuid_chars(r.body@) && canon_uuid(
                r.body@,
            ) == r.body@ && !m_old.contains_key(r.body@) && m_new == m_old.insert(
                r.body@,
                (tv, cv),
            )) || (r.status == 500 && empty_body(r) && m_new == m_old),
            _ => r.status == 400 && empty_body(r) && m_new == m_old,
        },
    }
}

/// What FindPost may answer: 400 for a malformed identifier; 404 for an
/// absent record; for a present record the post template rendered with its
/// fields; 500 where the storage engine refused the read (a residue the
/// storage contract sanctions) or the template set does not cover the record.
pub open spec fn find_response_ok(
    tpls: Map<Seq<char>, Seq<char>>,
    m: Map<Seq<char>, (Seq<char>, Seq<char>)>,
    rest: Seq<char>,
    r: Response,
) -> bool {
    if !is_uuid_chars(rest) {
        r.status == 400 && empty_body(r)
    } else {
        let id = canon_uuid(rest);
        match lookup(m, id) {
            None => (r.status == 404 && empty_body(r)) || (r.status == 500 && empty_body(r)),
            Some(tc) => {
                let b = Map::<Seq<char>, Seq<char>>::empty().insert(id_key(), id).insert(
                    title_key(),
                    tc.0,
                ).insert(content_key(), tc.1);
                if tpls.contains_key(post_tpl()) && all_markers_bound(tpls[post_tpl()], b) {
                    (r.status == 200 && r.body@ == subst(tpls[post_tpl()], b)) || (r.status == 500
                        && empty_body(r))
                } else {
                    r.status == 500 && empty_body(r)
                }
            },
        }
    }
}

fn status_only(status: u16) -> (r: Response)
    ensures
        r.status == status && empty_body(r),
{
    Response { status: status, body: String::new() }
}

/// Echo: a fixed 200 answer, whatever the request held.
pub fn echo() -> (r: Response)
    ensures
        r.status == 200 && r.body@ == echo_body(),
{
    let chars: Vec<char> = vec!['H', 'e', 'l', 'l', 'o', ',', ' ', 'w', 'o', 'r', 'l', 'd', '!', '!'];
    assert(chars@ =~= echo_body());
    Response { status: 200, body: string_of_chars(&chars) }
}

/// Greet: reads `name=<value>` from the body and renders the hello template
/// with `name` bound to the value.
pub fn greet(body: &Vec<u8>, renderer: &Renderer) -> (r: Response)
    requires
        renderer.wf(),
    ensures
        greet_response_ok(renderer.templates(), body@, r),
{
    let text = match utf8_chars(body) {
        Some(t) => t,
        None => {
            return status_only(400);
        },
    };
    if text.len() < 5 || text[0] != 'n' || text[1] != 'a' || text[2] != 'm' || text[3] != 'e'
        || text[4] != '=' {
        proof {
            let t = text@;
            if t.len() >= 5 && t.take(5) == name_prefix() {
                assert(t[0] == t.take(5)[0] && t[1] == t.take(5)[1] && t[2] == t.take(5)[2] && t[3]
                    == t.take(5)[3] && t[4] == t.take(5)[4]);
            }
        }
        return status_only(400);
    }
    assert(text@.take(5) =~= name_prefix());
    let mut rest: Vec<char> = Vec::new();
    let mut i: usize = 5;
    while i < text.len()
        invariant
            5 <= i <= text@.len(),
            rest@ == text@.subrange(5, i as int),
        decreases text.len() - i,
    {
        rest.push(text[i]);
        assert(rest@ =~= text@.subrange(5, i + 1 as int));
        i += 1;
    }
    assert(rest@ =~= text@.skip(5));
    let name_vec: Vec<char> = vec!['n', 'a', 'm', 'e'];
    assert(name_vec@ =~= name_key());
    let hello_vec: Vec<char> = vec!['h', 'e', 'l', 'l', 'o'];
    assert(hello_vec@ =~= hello_tpl());
    let binds: Vec<(Vec<char>, String)> = vec![(name_vec, string_of_chars(&rest))];
    proof {
        let bv = binds_view(binds@);
        assert(bv.len() == 1);
        assert(bv[0] == (binds@[0].0@, binds@[0].1@));
        assert(bv.last() == (name_key(), text@.skip(5)));
        assert(bv.drop_last() =~= Seq::<(Seq<char>, Seq<char>)>::empty());
        assert(map_of_pairs(bv.drop_last()) == Map::<Seq<char>, Seq<char>>::empty());
        assert(map_of_pairs(bv) == Map::<Seq<char>, Seq<char>>::empty().insert(
            name_key(),
            text@.skip(5),
        ));
    }
    match renderer.render(&hello_vec, &binds) {
        Ok(s) => Response { status: 200, body: s },
        Err(_) => status_only(500),
    }
}

/// CreatePost: decodes the form fields `title` and `content`, persists a new
/// record, and answers with the fresh identifier.
pub fn create_post(body: &Vec<u8>, store: &mut Store) -> (r: Response)
    requires
        old(store).wf(),
    ensures
        final(store).wf(),
        create_response_ok(old(store)@, final(store)@, body@, r),
{
    let pairs = match parse_form(body) {
        Some(ps) => ps,
        None => {
            return status_only(400);
        },
    };
    let title_vec: Vec<char> = vec!['t', 'i', 't', 'l', 'e'];
    assert(title_vec@ =~= title_key());
    let content_vec: Vec<char> = vec!['c', 'o', 'n', 't', 'e', 'n', 't'];
    assert(content_vec@ =~= content_key());
    let ti = match find_first(&pairs, &title_vec) {
        Some(i) => i,
        None => {
            return status_only(400);
        },
    };
    let ci = match find_first(&pairs, &content_vec) {
        Some(i) => i,
        None => {
            return status_only(400);
        },
    };
    match store.insert(pairs[ti].1.as_str(), pairs[ci].1.as_str()) {
        Ok(id) => Response { status: 200, body: string_of_chars(&id) },
        Err(_) => status_only(500),
    }
}

/// FindPost: parses the path remainder as an identifier, looks the record up,
/// and renders the post template with its fields; an absent record is 404.
pub fn find_post(rest: &Vec<char>, renderer: &Renderer, store: &Store) -> (r: Response)
    requires
        renderer.wf(),
        store.wf(),
    ensures
        find_response_ok(renderer.templates(), store@, rest@, r),
{
    if !check_uuid(rest) {
        return status_only(400);
    }
    let id = canon_uuid_chars(rest);
    let post = match store.find_by_id(&id) {
        Ok(Some(p)) => p,
        Ok(None) => {
            return status_only(404);
        },
        Err(_) => {
            return status_only(500);
        },
    };
    let id_vec: Vec<char> = vec!['i', 'd'];
    assert(id_vec@ =~= id_key());
    let title_vec: Vec<char> = vec!['t', 'i', 't', 'l', 'e'];
    assert(title_vec@ =~= title_key());
    let content_vec: Vec<char> = vec!['c', 'o', 'n', 't', 'e', 'n', 't'];
    assert(content_vec@ =~= content_key());
    let post_vec: Vec<char> = vec!['p', 'o', 's', 't'];
    assert(post_vec@ =~= post_tpl());
    let binds: Vec<(Vec<char>, String)> = vec![
        (id_vec, string_of_chars(&id)),
        (title_vec, post.title),
        (content_vec, post.content),
    ];
    proof {
        let bv = binds_view(binds@);
        assert(bv.len() == 3);
        assert(bv[0] == (binds@[0].0@, binds@[0].1@));
        assert(bv[1] == (binds@[1].0@, binds@[1].1@));
        assert(bv[2] == (binds@[2].0@, binds@[2].1@));
        let b0 = seq![bv[0]];
        let b01 = seq![bv[0], bv[1]];
        assert(bv.drop_last() =~= b01);
        assert(b01.drop_last() =~= b0);
        assert(b0.drop_last() =~= Seq::<(Seq<char>, Seq<char>)>::empty());
        assert(map_of_pairs(b0.drop_last()) == Map::<Seq<char>, Seq<char>>::empty());
        assert(b0.last() == (id_key(), id@));
        assert(b01.last() == (title_key(), bv[1].1));
        assert(bv.last() == (content_key(), bv[2].1));
        assert(map_of_pairs(b0) == Map::<Seq<char>, Seq<char>>::empty().insert(id_key(), id@));
        assert(map_of_pairs(b01) == Map::<Seq<char>, Seq<char>>::empty().insert(
            id_key(),
            id@,
        ).insert(title_key(), bv[1].1));
        assert(map_of_pairs(bv) == Map::<Seq<char>, Seq<char>>::empty().insert(
            id_key(),
            id@,
        ).insert(title_key(), bv[1].1).insert(content_key(), bv[2].1));
    }
    match renderer.render(&post_vec, &binds) {
        Ok(s) => Response { status: 200, body: s },
        Err(_) => status_only(500),
    }
}

/// The entry point: dispatches the request along the routing table, runs
/// exactly one handler, and always answers. Only CreatePost may change the
/// store, and only as its contract says.
pub fn handle_request(req: &Request, renderer: &Renderer, store: &mut Store) -> (r: Response)
    requires
        renderer.wf(),
        old(store).wf(),
    ensures
        final(store).wf(),
        ({
            match route_of(req.path@, req.method) {
                RouteSpec::Greet => final(store)@ == old(store)@ && greet_response_ok(
                    renderer.templates(),
                    req.body@,
                    r,
                ),
                RouteSpec::Echo => final(store)@ == old(store)@ && r.status == 200 && r.body@
                    == echo_body(),
                RouteSpec::Create => create_response_ok(old(store)@, final(store)@, req.body@, r),
                RouteSpec::Find(rest) => final(store)@ == old(store)@ && find_response_ok(
                    renderer.templates(),
                    old(store)@,
                    rest,
                    r,
                ),
                RouteSpec::NotFound => final(store)@ == old(store)@ && r.status == 404
                    && empty_body(r),
            }
        }),
{
    match route_request(&req.path, req.method) {
        Route::Greet => greet(&req.body, renderer),
        Route::Echo => echo(),
        Route::Create => create_post(&req.body, store),
        Route::Find(rest) => find_post(&rest, renderer, store),
        Route::NotFound => status_only(404),
    }
}

} // verus!
