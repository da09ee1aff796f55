//! The route table and its lookup, kept in a `matchit::Router` whose values
//! are route numbers.
use vstd::prelude::*;
use matchit::Router;

verus! {

#[verifier::external_type_specification]
#[verifier::external_body]
#[verifier::reject_recursive_types(T)]
pub struct ExRouter<T>(matchit::Router<T>);

/// How a lookup in the router can fail, as `matchit::MatchError` tells it.
#[derive(PartialEq, Eq, Structural, Clone, Copy, Debug)]
pub enum MatchFailure {
    MissingTrailingSlash,
    ExtraTrailingSlash,
    NotFound,
}

/// The routes that a router holds, in the order they were inserted, each with
/// its route number.
pub uninterp spec fn router_routes(router: Router<usize>) -> Seq<(Seq<char>, usize)>;

/// Whether matchit accepts the pattern `route` into a router that holds `routes`.
pub uninterp spec fn route_insert_ok(routes: Seq<(Seq<char>, usize)>, route: Seq<char>) -> bool;

/// The `Display` text of the `InsertError` with which matchit refuses the
/// pattern `route` in a router that holds `routes`.
pub uninterp spec fn route_insert_error(routes: Seq<(Seq<char>, usize)>, route: Seq<char>) -> Seq<char>;

/// What matchit answers for `path` in a router that holds `routes`: the route
/// number and the captured parameters (name, value) in path order, or why
/// nothing matched.
pub uninterp spec fn route_lookup(routes: Seq<(Seq<char>, usize)>, path: Seq<char>) -> Result<
    (usize, Seq<(Seq<char>, Seq<char>)>),
    MatchFailure,
>;

/// The parameters of a match, each name and value taken as characters.
pub open spec fn params_view(params: Seq<(String, String)>) -> Seq<(Seq<char>, Seq<char>)> {
    params.map_values(|p: (String, String)| (p.0@, p.1@))
}

/// The value of the first parameter named `key`, as `matchit::Params::get` finds it.
pub open spec fn param_get(params: Seq<(Seq<char>, Seq<char>)>, key: Seq<char>) -> Option<Seq<char>>
    decreases params.len(),
{
    if params.len() == 0 {
        None
    } else if params[0].0 == key {
        Some(params[0].1)
    } else {
        param_get(params.drop_first(), key)
    }
}

/// The value of the first parameter named `key`.
pub fn params_get<'a>(params: &'a Vec<(String, String)>, key: &str) -> (res: Option<&'a str>)
    ensures
        match res {
            Some(v) => param_get(params_view(params@), key@) == Some(v@),
            None => param_get(params_view(params@), key@) is None,
        },
{
    let ghost all = params_view(params@);
    let mut i: usize = 0;
    assert(all.skip(0) =~= all);
    while i < params.len()
        invariant
            all == params_view(params@),
            i <= params.len(),
            param_get(all, key@) == param_get(all.skip(i as int), key@),
        decreases params.len() - i,
    {
        let ghost rest = all.skip(i as int);
        assert(rest[0] == (params@[i as int].0@, params@[i as int].1@));
        if crate::text::str_equal(params[i].0.as_str(), key) {
            return Some(params[i].1.as_str());
        }
        assert(rest.drop_first() =~= all.skip(i + 1));
        i = i + 1;
    }
    None
}

/// `matchit::Router::new`: a router that holds no route.
#[verifier::external_body]
pub(crate) fn router_new() -> (router: Router<usize>)
    ensures
        router_routes(router) == Seq::<(Seq<char>, usize)>::empty(),
{
    Router::new()
}

/// `matchit::Router::insert`. The router is handed back only where matchit
/// accepts the pattern, and then it holds the routes it held and this one.
/// Where matchit refuses, the router (which matchit may have changed on the
/// way) is dropped and the error is handed back as its `Display` text; so
/// every router in existence holds exactly the routes it accepted.
#[verifier::external_body]
pub(crate) fn router_insert(router: Router<usize>, route: &str, value: usize) -> (res: Result<
    Router<usize>,
    String,
>)
    ensures
        res is Ok <==> route_insert_ok(router_routes(router), route@),
        res matches Ok(r) ==> router_routes(r) == router_routes(router).push((route@, value)),
        res matches Err(t) ==> t@ == route_insert_error(router_routes(router), route@),
{
    let mut router = router;
    match router.insert(route, value) {
        Ok(()) => Ok(router),
        Err(e) => Err(e.to_string()),
    }
}

/// `matchit::Router::at`, with the matched value copied out and the parameters
/// turned into owned (name, value) pairs in the order matchit lists them.
/// What is stated besides the name: a matched value is one that was inserted.
#[verifier::external_body]
pub(crate) fn router_at(router: &Router<usize>, path: &str) -> (res: Result<
    (usize, Vec<(String, String)>),
    MatchFailure,
>)
    ensures
        match res {
            Ok((value, params)) => route_lookup(router_routes(*router), path@) == Ok::<
                (usize, Seq<(Seq<char>, Seq<char>)>),
                MatchFailure,
            >((value, params_view(params@))),
            Err(e) => route_lookup(router_routes(*router), path@) == Err::<
                (usize, Seq<(Seq<char>, Seq<char>)>),
                MatchFailure,
            >(e),
        },
        res matches Ok((value, _)) ==> exists|k: int|
            0 <= k < router_routes(*router).len() && router_routes(*router)[k].1 == value,
{
    match router.at(path) {
        Ok(m) => Ok((*m.value, m.params.iter().map(|(k, v)| (k.to_string(), v.to_string())).collect())),
        Err(matchit::MatchError::MissingTrailingSlash) => Err(MatchFailure::MissingTrailingSlash),
        Err(matchit::MatchError::ExtraTrailingSlash) => Err(MatchFailure::ExtraTrailingSlash),
        Err(matchit::MatchError::NotFound) => Err(MatchFailure::NotFound),
    }
}

impl MatchFailure {
    /// The text that matchit's `Display` gives each failure.
    pub open spec fn message_spec(self) -> Seq<char> {
        match self {
            MatchFailure::MissingTrailingSlash => "match error: expected trailing slash"@,
            MatchFailure::ExtraTrailingSlash => "match error: found extra trailing slash"@,
            MatchFailure::NotFound => "match error: route not found"@,
        }
    }

    /// The failure as matchit displays it.
    pub fn message(&self) -> (res: &'static str)
        ensures
            res@ == self.message_spec(),
    {
        match self {
            MatchFailure::MissingTrailingSlash => "match error: expected trailing slash",
            MatchFailure::ExtraTrailingSlash => "match error: found extra trailing slash",
            MatchFailure::NotFound => "match error: route not found",
        }
    }
}

/// Route number of the about page.
pub const ABOUT_PAGE: usize = 0;
/// Route number of the about page loaded by its tab.
pub const ABOUT_NAV: usize = 1;
/// Route number of the click button.
pub const ABOUT_CLICKED: usize = 2;
/// Route number of the todo page.
pub const TODOS_PAGE: usize = 3;
/// Route number of the todo page loaded by its tab.
pub const TODOS_NAV: usize = 4;
/// Route number of adding an item.
pub const TODOS_ADD: usize = 5;
/// Route number of deleting an item.
pub const TODOS_DELETE: usize = 6;
/// Route number of toggling an item.
pub const TODOS_TOGGLE: usize = 7;
/// Route number of toggling every item.
pub const TODOS_TOGGLE_ALL: usize = 8;
/// Route number of choosing the filter.
pub const TODOS_FILTER: usize = 9;

/// Whether each route of `added`, inserted in order after `start`, is accepted.
pub open spec fn inserts_ok(start: Seq<(Seq<char>, usize)>, added: Seq<(Seq<char>, usize)>) -> bool
    decreases added.len(),
{
    if added.len() == 0 {
        true
    } else {
        inserts_ok(start, added.drop_last()) && route_insert_ok(
            start + added.drop_last(),
            added.last().0,
        )
    }
}

/// The refusal text of the first route of `added` that matchit refuses, when
/// they are inserted in order after `start`.
pub open spec fn first_refusal(start: Seq<(Seq<char>, usize)>, added: Seq<(Seq<char>, usize)>) -> Seq<char>
    decreases added.len(),
{
    if added.len() == 0 {
        Seq::empty()
    } else if inserts_ok(start, added.drop_last()) {
        route_insert_error(start + added.drop_last(), added.last().0)
    } else {
        first_refusal(start, added.drop_last())
    }
}

/// The routes of a table written as (pattern, route number) pairs.
pub open spec fn table_view(table: Seq<(&str, usize)>) -> Seq<(Seq<char>, usize)> {
    table.map_values(|e: (&str, usize)| (e.0@, e.1))
}

proof fn lemma_inserts_ok_prefix(start: Seq<(Seq<char>, usize)>, added: Seq<(Seq<char>, usize)>, k: int)
    requires
        0 <= k <= added.len(),
        inserts_ok(start, added),
    ensures
        inserts_ok(start, added.take(k)),
    decreases added.len(),
{
    if k < added.len() {
        assert(added.drop_last().take(k) =~= added.take(k));
        lemma_inserts_ok_prefix(start, added.drop_last(), k);
    } else {
        assert(added.take(k) =~= added);
    }
}

proof fn lemma_first_refusal_prefix(start: Seq<(Seq<char>, usize)>, added: Seq<(Seq<char>, usize)>, k: int)
    requires
        0 <= k <= added.len(),
        !inserts_ok(start, added.take(k)),
    ensures
        !inserts_ok(start, added),
        first_refusal(start, added) == first_refusal(start, added.take(k)),
    decreases added.len(),
{
    if k < added.len() {
        assert(added.drop_last().take(k) =~= added.take(k));
        lemma_first_refusal_prefix(start, added.drop_last(), k);
    } else {
        assert(added.take(k) =~= added);
    }
}

/// Inserts the routes of `table` in order, stopping at the first that matchit refuses.
pub(crate) fn insert_all(router: Router<usize>, table: &[(&str, usize)]) -> (res: Result<
    Router<usize>,
    String,
>)
    ensures
        res is Ok <==> inserts_ok(router_routes(router), table_view(table@)),
        res matches Ok(r) ==> router_routes(r) == router_routes(router) + table_view(table@),
        res matches Err(t) ==> t@ == first_refusal(router_routes(router), table_view(table@)),
{
    let ghost start = router_routes(router);
    let mut current = router;
    let ghost all = table_view(table@);
    assert(start + all.take(0) =~= start);
    let mut i: usize = 0;
    while i < table.len()
        invariant
            start == router_routes(router),
            all == table_view(table@),
            i <= table.len(),
            router_routes(current) == start + all.take(i as int),
            inserts_ok(start, all.take(i as int)),
        decreases table.len() - i,
    {
        let (route, value) = table[i];
        assert(all.take(i + 1) =~= all.take(i as int).push((route@, value)));
        current = match insert_next(current, route, value, Ghost(start), Ghost(all.take(i as int))) {
            Ok(r) => r,
            Err(e) => {
                proof {
                    if inserts_ok(start, all) {
                        lemma_inserts_ok_prefix(start, all, i + 1);
                    }
                    lemma_first_refusal_prefix(start, all, i + 1);
                }
                return Err(e);
            },
        };
        i = i + 1;
    }
    assert(all.take(i as int) =~= all);
    Ok(current)
}

/// Inserts `route` with number `value`, extending what `start` and `done` describe.
fn insert_next(
    router: Router<usize>,
    route: &str,
    value: usize,
    Ghost(start): Ghost<Seq<(Seq<char>, usize)>>,
    Ghost(done): Ghost<Seq<(Seq<char>, usize)>>,
) -> (res: Result<Router<usize>, String>)
    requires
        router_routes(router) == start + done,
        inserts_ok(start, done),
    ensures
        res is Ok <==> inserts_ok(start, done.push((route@, value))),
        res matches Ok(r) ==> router_routes(r) == start + done.push((route@, value)),
        res matches Err(t) ==> t@ == first_refusal(start, done.push((route@, value))),
{
    let res = router_insert(router, route, value);
    proof {
        let added = done.push((route@, value));
        assert(added.drop_last() =~= done);
        if res is Ok {
            assert(start + done.push((route@, value)) =~= (start + done).push((route@, value)));
        }
    }
    res
}

} // verus!
