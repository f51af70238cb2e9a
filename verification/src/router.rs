//! Route dispatch: a deterministic mapping from (path, method) to a handler,
//! evaluated in a fixed priority order.

use vstd::prelude::*;

verus! {

/// The request method, as far as routing distinguishes it.
#[derive(Clone, Copy, PartialEq, Eq, Structural)]
pub enum Method {
    Get,
    Post,
    Other,
}

/// The handler a request is dispatched to. `Find` carries the path remainder
/// after the `/posts/` prefix, the candidate record identifier.
pub enum Route {
    Greet,
    Echo,
    Create,
    Find(Vec<char>),
    NotFound,
}

/// Spec-level route decision, mirroring `Route` with a mathematical remainder.
pub enum RouteSpec {
    Greet,
    Echo,
    Create,
    Find(Seq<char>),
    NotFound,
}

pub open spec fn root_path() -> Seq<char> {
    seq!['/']
}

pub open spec fn posts_path() -> Seq<char> {
    seq!['/', 'p', 'o', 's', 't', 's']
}

pub open spec fn posts_prefix() -> Seq<char> {
    seq!['/', 'p', 'o', 's', 't', 's', '/']
}

/// The routing table, in priority order: `/` with GET goes to Greet; `/` with
/// any other method goes to Echo; POST `/posts` creates a record; GET under
/// `/posts/` looks one up; everything else is NotFound.
pub open spec fn route_of(path: Seq<char>, m: Method) -> RouteSpec {
    if path == root_path() && m == Method::Get {
        RouteSpec::Greet
    } else if path == root_path() {
        RouteSpec::Echo
    } else if path == posts_path() && m == Method::Post {
        RouteSpec::Create
    } else if path.len() >= posts_prefix().len() && path.take(posts_prefix().len() as int)
        == posts_prefix() && m == Method::Get {
        RouteSpec::Find(path.skip(posts_prefix().len() as int))
    } else {
        RouteSpec::NotFound
    }
}

/// Relates the executable route to its spec-level mirror.
pub open spec fn route_matches(r: Route, s: RouteSpec) -> bool {
    match r {
        Route::Greet => s == RouteSpec::Greet,
        Route::Echo => s == RouteSpec::Echo,
        Route::Create => s == RouteSpec::Create,
        Route::Find(rest) => s == RouteSpec::Find(rest@),
        Route::NotFound => s == RouteSpec::NotFound,
    }
}

/// Executable route decision over the path characters and the method.
pub fn route_request(path: &Vec<char>, m: Method) -> (r: Route)
    ensures
        route_matches(r, route_of(path@, m)),
{
    if path.len() == 1 && path[0] == '/' {
        assert(path@ =~= root_path());
        if m == Method::Get {
            return Route::Greet;
        }
        return Route::Echo;
    }
    assert(path@ != root_path()) by {
        if path@ == root_path() {
            assert(path@.len() == 1 && path@[0] == '/');
        }
    }
    let is_posts = path.len() == 6 && path[0] == '/' && path[1] == 'p' && path[2] == 'o'
        && path[3] == 's' && path[4] == 't' && path[5] == 's';
    if is_posts {
        assert(path@ =~= posts_path());
    } else {
        assert(path@ != posts_path()) by {
            if path@ == posts_path() {
                assert(path@.len() == 6);
                assert(path@[0] == '/' && path@[1] == 'p' && path@[2] == 'o' && path@[3] == 's'
                    && path@[4] == 't' && path@[5] == 's');
            }
        }
    }
    if is_posts && m == Method::Post {
        return Route::Create;
    }
    let has_prefix = path.len() >= 7 && path[0] == '/' && path[1] == 'p' && path[2] == 'o'
        && path[3] == 's' && path[4] == 't' && path[5] == 's' && path[6] == '/';
    if has_prefix {
        assert(path@.take(7) =~= posts_prefix());
    } else {
        assert(!(path@.len() >= 7 && path@.take(7) == posts_prefix())) by {
            if path@.len() >= 7 && path@.take(7) == posts_prefix() {
                assert(path@[0] == posts_prefix()[0]);
                assert(path@[1] == posts_prefix()[1]);
                assert(path@[2] == posts_prefix()[2]);
                assert(path@[3] == posts_prefix()[3]);
                assert(path@[4] == posts_prefix()[4]);
                assert(path@[5] == posts_prefix()[5]);
                assert(path@[6] == posts_prefix()[6]);
            }
        }
    }
    if has_prefix && m == Method::Get {
        let mut rest: Vec<char> = Vec::new();
        let mut i: usize = 7;
        while i < path.len()
            invariant
                7 <= i <= path@.len(),
                rest@ == path@.subrange(7, i as int),
            decreases path.len() - i,
        {
            rest.push(path[i]);
            assert(rest@ =~= path@.subrange(7, i + 1 as int));
            i += 1;
        }
        assert(rest@ =~= path@.skip(7));
        return Route::Find(rest);
    }
    Route::NotFound
}

/// Route priority at the root path: any method other than GET on `/` is
/// dispatched to Echo, never to Greet.
pub proof fn lemma_root_non_get_is_echo(m: Method)
    requires
        m != Method::Get,
    ensures
        route_of(root_path(), m) == RouteSpec::Echo,
{
}

} // verus!
