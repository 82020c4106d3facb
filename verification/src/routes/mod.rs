//! What the panel's request handlers compute: the routes of a resource, the
//! pages they show and where they redirect to.

pub mod delete;
pub mod edit;
pub mod home;
pub mod index;
pub mod new;

use crate::html::{HtmlContext, HtmlContextBuilder};
use vstd::prelude::*;
use vstd::string::StringExecFns;

verus! {

/// Which handler serves a route: the listing of a resource's items, the
/// edit form (GET) and its submission (POST), or the delete confirmation
/// (GET) and the deletion (POST).
#[derive(Clone, Copy, Debug, PartialEq, Eq, Structural)]
pub enum Handler {
    View,
    Edit,
    Delete,
}

/// A route of a resource: a path relative to the panel and its handler.
pub struct Route {
    pub path: String,
    pub handler: Handler,
}

/// The suffix of route `i` of a resource, after `/` and the resource's name.
pub open spec fn route_suffix(i: int) -> Seq<char> {
    if i == 0 {
        ""@
    } else if i == 1 {
        "/"@
    } else if i == 2 {
        "/edit"@
    } else if i == 3 {
        "/edit/"@
    } else if i == 4 {
        "/delete"@
    } else {
        "/delete/"@
    }
}

/// The handler of route `i` of a resource.
pub open spec fn route_handler(i: int) -> Handler {
    if i < 2 {
        Handler::View
    } else if i < 4 {
        Handler::Edit
    } else {
        Handler::Delete
    }
}

/// The path of route `i` of resource `name`.
pub open spec fn route_path(name: Seq<char>, i: int) -> Seq<char> {
    "/"@ + name + route_suffix(i)
}

/// The number of routes of a resource.
pub open spec fn route_count() -> int {
    6
}

proof fn lemma_suffix_shape(i: int)
    requires
        0 <= i < route_count(),
    ensures
        route_suffix(i).len() == 0 || route_suffix(i)[0] == '/',
        i == 0 ==> route_suffix(i).len() == 0,
        i == 1 ==> route_suffix(i).len() == 1,
        i == 2 ==> route_suffix(i).len() == 5,
        i == 3 ==> route_suffix(i).len() == 6,
        i == 4 ==> route_suffix(i).len() == 7,
        i == 5 ==> route_suffix(i).len() == 8,
{
    reveal_strlit("");
    reveal_strlit("/");
    reveal_strlit("/edit");
    reveal_strlit("/edit/");
    reveal_strlit("/delete");
    reveal_strlit("/delete/");
}

proof fn lemma_routes_disjoint_shorter(a: Seq<char>, b: Seq<char>, i: int, j: int)
    requires
        a != b,
        a.len() <= b.len(),
        !b.contains('/'),
        0 <= i < route_count(),
        0 <= j < route_count(),
    ensures
        route_path(a, i) != route_path(b, j),
{
    reveal_strlit("/");
    lemma_suffix_shape(i);
    lemma_suffix_shape(j);
    let p = route_path(a, i);
    let q = route_path(b, j);
    if p == q {
        if a.len() < b.len() {
            let k: int = 1 + a.len() as int;
            assert(q[k] == b[a.len() as int]);
            if route_suffix(i).len() == 0 {
                assert(p.len() == k);
            } else {
                assert(p[k] == route_suffix(i)[0]);
            }
        } else {
            assert forall|t: int| 0 <= t < a.len() implies a[t] == b[t] by {
                assert(p[1 + t] == a[t]);
                assert(q[1 + t] == b[t]);
            }
            assert(a =~= b);
        }
    }
}

/// Resources with different names that hold no `/` share no route path, so
/// registering them never gives the router one path twice.
pub proof fn lemma_routes_disjoint(a: Seq<char>, b: Seq<char>, i: int, j: int)
    requires
        a != b,
        !a.contains('/'),
        !b.contains('/'),
        0 <= i < route_count(),
        0 <= j < route_count(),
    ensures
        route_path(a, i) != route_path(b, j),
{
    if a.len() <= b.len() {
        lemma_routes_disjoint_shorter(a, b, i, j);
    } else {
        lemma_routes_disjoint_shorter(b, a, j, i);
    }
}

/// The routes of one resource have pairwise different paths.
pub proof fn lemma_routes_distinct(name: Seq<char>, i: int, j: int)
    requires
        0 <= i < j < route_count(),
    ensures
        route_path(name, i) != route_path(name, j),
{
    lemma_suffix_shape(i);
    lemma_suffix_shape(j);
    assert(route_path(name, i).len() != route_path(name, j).len());
}

/// A page fresh from `builder`, with `content` as its content.
pub open spec fn fresh_page(h: HtmlContext, builder: HtmlContextBuilder, content: Seq<char>) -> bool {
    &&& h.wf()
    &&& h.content@ == content
    &&& h.config == builder.config
    &&& h.title is None
    &&& h.description is None
    &&& h.sections@.len() == 0
}

/// The route of `name` with the given suffix and handler.
fn route(name: &str, suffix: &str, handler: Handler) -> (r: Route)
    ensures
        r.path@ == "/"@ + name@ + suffix@,
        r.handler == handler,
{
    let mut path = String::from_str("/");
    path.append(name);
    path.append(suffix);
    Route { path, handler }
}

/// The routes that a resource named `name` adds to the panel: its listing
/// with and without a trailing slash, its edit page and its delete page,
/// each with and without a trailing slash.
pub fn add_routes_for(name: &str) -> (r: Vec<Route>)
    ensures
        r@.len() == route_count(),
        forall|i: int|
            0 <= i < r@.len() ==> #[trigger] r@[i].path@ == route_path(name@, i) && r@[i].handler
                == route_handler(i),
{
    let mut r = Vec::new();
    r.push(route(name, "", Handler::View));
    r.push(route(name, "/", Handler::View));
    r.push(route(name, "/edit", Handler::Edit));
    r.push(route(name, "/edit/", Handler::Edit));
    r.push(route(name, "/delete", Handler::Delete));
    r.push(route(name, "/delete/", Handler::Delete));
    r
}

/// The listing of resource `name` in the panel mounted at `base`, where the
/// handlers redirect to once they have created, edited or deleted an item.
pub fn resource_url(base: &str, name: &str) -> (r: String)
    ensures
        r@ == base@ + "/"@ + name@,
{
    let mut r = String::from_str(base);
    r.append("/");
    r.append(name);
    r
}

/// The item that a lookup by id found; a lookup that found nothing is out of
/// the handlers' reach.
pub fn require_found<T, E>(r: Result<Option<T>, E>) -> (out: Result<T, E>)
    requires
        !(r matches Ok(None)),
    ensures
        match r {
            Ok(Some(t)) => out == Ok::<T, E>(t),
            Ok(None) => false,
            Err(e) => out == Err::<T, E>(e),
        },
{
    match r {
        Ok(Some(t)) => Ok(t),
        Ok(None) => {
            assert(false);
            unreached()
        },
        Err(e) => Err(e),
    }
}

} // verus!
