//! The service as a whole: its state, the answer to one request, and the
//! buffers through which the host hands a request over and reads the answer.
use vstd::prelude::*;
use vstd::utf8::{decode_utf8, encode_utf8, valid_utf8};
use matchit::Router;
use crate::about::{about, about_clicked, about_clicked_display_html, about_html, about_routes};
use crate::markup;
use crate::request::{string_from_utf8, Request};
use crate::router::{
    first_refusal, inserts_ok, params_view, route_lookup, router_at, router_new, router_routes, MatchFailure,
    ABOUT_CLICKED, ABOUT_NAV, ABOUT_PAGE, TODOS_ADD, TODOS_DELETE, TODOS_FILTER, TODOS_NAV,
    TODOS_PAGE, TODOS_TOGGLE, TODOS_TOGGLE_ALL,
};
use crate::site::{nav, nav_html, page, page_html};
use crate::text::{trim_start_matches, trim_start_spec};
use crate::todos::{
    add_result, component, component_html, delete_result, filter_result, todos_routes,
    toggle_result, toggleall_result, Todos, TodosView,
};

verus! {

/// The buffers shared with the host: the request bytes it wrote, and the
/// answer it reads back.
pub struct RoutingState {
    pub request: Option<Vec<u8>>,
    pub response: Option<String>,
}

/// Everything the service keeps between requests.
pub struct Service {
    /// How many times the click button was pressed.
    pub counter: u64,
    /// The todo list.
    pub todos: Todos,
    /// The route table, or the text of the error met while building it.
    pub router: Result<Router<usize>, String>,
    /// The buffers shared with the host.
    pub routing: RoutingState,
}

/// Every route of the service, in the order they are registered.
pub open spec fn route_table() -> Seq<(Seq<char>, usize)> {
    about_routes() + todos_routes()
}

/// The prefix under which the service is mounted.
pub open spec fn mount_prefix() -> Seq<char> {
    "/wasm-service"@
}

/// The path that is looked up for a request path: the mount prefix removed,
/// as often as it repeats.
pub open spec fn routed_path(path: Seq<char>) -> Seq<char> {
    trim_start_spec(path, mount_prefix())
}

/// What the route number `id` does, given the click count, the todo list, the
/// captured parameters, the request path and the body: the new click count,
/// the new todo list and the answer.
pub open spec fn dispatch_spec(
    counter: u64,
    todos: TodosView,
    id: usize,
    params: Seq<(Seq<char>, Seq<char>)>,
    path: Seq<char>,
    body: Seq<char>,
) -> (u64, TodosView, Seq<char>) {
    if id == ABOUT_PAGE {
        (counter, todos, page_html(markup::ABOUT_TITLE@, about_html(counter, path)))
    } else if id == ABOUT_NAV {
        (counter, todos, nav_html(markup::ABOUT_TITLE@, about_html(counter, path)))
    } else if id == ABOUT_CLICKED {
        (
            (counter + 1) as u64,
            todos,
            about_clicked_display_html((counter + 1) as u64, path),
        )
    } else if id == TODOS_PAGE {
        (counter, todos, page_html(markup::TODOS_TITLE@, component_html(todos)))
    } else if id == TODOS_NAV {
        (counter, todos, nav_html(markup::TODOS_TITLE@, component_html(todos)))
    } else if id == TODOS_ADD {
        (counter, add_result(todos, body).0, add_result(todos, body).1)
    } else if id == TODOS_DELETE {
        (counter, delete_result(todos, params).0, delete_result(todos, params).1)
    } else if id == TODOS_TOGGLE {
        (counter, toggle_result(todos, params).0, toggle_result(todos, params).1)
    } else if id == TODOS_TOGGLE_ALL {
        (counter, toggleall_result(todos).0, toggleall_result(todos).1)
    } else {
        (counter, filter_result(todos, params).0, filter_result(todos, params).1)
    }
}

/// The answer to `request`, with the click count and todo list after it.
pub open spec fn handle_spec(
    counter: u64,
    todos: TodosView,
    router: Result<Router<usize>, String>,
    request: Request,
) -> (u64, TodosView, Seq<char>) {
    match router {
        Err(e) => (counter, todos, markup::ROUTER_FAILED@ + e@ + markup::PARA_CLOSE@),
        Ok(r) => {
            let path = request.path_spec()->0;
            match route_lookup(router_routes(r), routed_path(path)) {
                Ok((id, params)) => dispatch_spec(counter, todos, id, params, path, request.body@),
                Err(MatchFailure::NotFound) => (counter, todos, markup::NOT_FOUND@),
                Err(e) => (
                    counter,
                    todos,
                    markup::MATCH_ERROR_OPEN@ + e.message_spec() + markup::PARA_CLOSE@,
                ),
            }
        },
    }
}

/// Whether answering `request` goes through without a fault: the URI has a
/// path wherever the route table is there to look it up, and a click does not
/// take the counter past its largest value.
pub open spec fn can_handle(counter: u64, router: Result<Router<usize>, String>, request: Request) -> bool {
    match router {
        Err(_) => true,
        Ok(r) => match request.path_spec() {
            None => false,
            Some(path) => match route_lookup(router_routes(r), routed_path(path)) {
                Ok((id, _)) => id == ABOUT_CLICKED ==> counter < u64::MAX,
                Err(_) => true,
            },
        },
    }
}

/// A path is routed the same with the mount prefix in front of it as without.
pub proof fn lemma_mount_prefix(path: Seq<char>)
    ensures
        routed_path(mount_prefix() + path) == routed_path(path),
{
    let m = mount_prefix();
    reveal_strlit("/wasm-service");
    assert((m + path).take(m.len() as int) =~= m);
    assert((m + path).skip(m.len() as int) =~= path);
}

/// A request under the mount prefix is answered as the same request without
/// it: the same route runs with the same parameters, so the click count and
/// the todo list change alike; and the answer is the same text, except on the
/// about pages, which show the path they were asked for.
pub proof fn lemma_mount_prefix_answer(
    counter: u64,
    todos: TodosView,
    router: Result<Router<usize>, String>,
    mounted: Request,
    bare: Request,
    path: Seq<char>,
)
    requires
        mounted.path_spec() == Some(mount_prefix() + path),
        bare.path_spec() == Some(path),
        mounted.body@ == bare.body@,
    ensures
        handle_spec(counter, todos, router, mounted).0 == handle_spec(counter, todos, router, bare).0,
        handle_spec(counter, todos, router, mounted).1 == handle_spec(counter, todos, router, bare).1,
        can_handle(counter, router, mounted) == can_handle(counter, router, bare),
        (match router {
            Ok(r) => match route_lookup(router_routes(r), routed_path(path)) {
                Ok((id, _)) => id >= TODOS_PAGE,
                Err(_) => true,
            },
            Err(_) => true,
        }) ==> handle_spec(counter, todos, router, mounted).2 == handle_spec(
            counter,
            todos,
            router,
            bare,
        ).2,
{
    lemma_mount_prefix(path);
}

/// The section routes answer with their section: "/" and "/todos" with a full
/// page (doctype, head with stylesheets and scripts, the section as body),
/// "/;nav" and "/todos;nav" with only a head and the section; none of them
/// changes the click count or the todo list.
pub proof fn lemma_sections_served(
    counter: u64,
    todos: TodosView,
    params: Seq<(Seq<char>, Seq<char>)>,
    path: Seq<char>,
    body: Seq<char>,
)
    ensures
        dispatch_spec(counter, todos, TODOS_PAGE, params, path, body).2 == markup::PAGE_OPEN@
            + markup::TODOS_TITLE@ + markup::PAGE_HEAD@ + component_html(todos) + markup::PAGE_CLOSE@,
        dispatch_spec(counter, todos, TODOS_NAV, params, path, body).2 == markup::NAV_OPEN@
            + markup::TODOS_TITLE@ + markup::NAV_CLOSE@ + component_html(todos),
        dispatch_spec(counter, todos, ABOUT_PAGE, params, path, body).2 == markup::PAGE_OPEN@
            + markup::ABOUT_TITLE@ + markup::PAGE_HEAD@ + about_html(counter, path)
            + markup::PAGE_CLOSE@,
        dispatch_spec(counter, todos, ABOUT_NAV, params, path, body).2 == markup::NAV_OPEN@
            + markup::ABOUT_TITLE@ + markup::NAV_CLOSE@ + about_html(counter, path),
        dispatch_spec(counter, todos, TODOS_PAGE, params, path, body).0 == counter,
        dispatch_spec(counter, todos, TODOS_PAGE, params, path, body).1 == todos,
        dispatch_spec(counter, todos, TODOS_NAV, params, path, body).0 == counter,
        dispatch_spec(counter, todos, TODOS_NAV, params, path, body).1 == todos,
        dispatch_spec(counter, todos, ABOUT_PAGE, params, path, body).0 == counter,
        dispatch_spec(counter, todos, ABOUT_PAGE, params, path, body).1 == todos,
        dispatch_spec(counter, todos, ABOUT_NAV, params, path, body).0 == counter,
        dispatch_spec(counter, todos, ABOUT_NAV, params, path, body).1 == todos,
{
}

/// Inserting `a` and then `b` is accepted exactly when `a` is, and then `b` after it.
pub proof fn lemma_inserts_ok_append(
    start: Seq<(Seq<char>, usize)>,
    a: Seq<(Seq<char>, usize)>,
    b: Seq<(Seq<char>, usize)>,
)
    ensures
        inserts_ok(start, a + b) == (inserts_ok(start, a) && inserts_ok(start + a, b)),
    decreases b.len(),
{
    if b.len() == 0 {
        assert(a + b =~= a);
    } else {
        assert((a + b).drop_last() =~= a + b.drop_last());
        assert(start + (a + b.drop_last()) =~= (start + a) + b.drop_last());
        lemma_inserts_ok_append(start, a, b.drop_last());
    }
}

/// The first refusal met inserting `a` and then `b` is the first one in `a`,
/// or, where all of `a` is accepted, the first one in `b` after it.
pub proof fn lemma_first_refusal_append(
    start: Seq<(Seq<char>, usize)>,
    a: Seq<(Seq<char>, usize)>,
    b: Seq<(Seq<char>, usize)>,
)
    ensures
        !inserts_ok(start, a + b) ==> first_refusal(start, a + b) == if inserts_ok(start, a) {
            first_refusal(start + a, b)
        } else {
            first_refusal(start, a)
        },
    decreases b.len(),
{
    if b.len() == 0 {
        assert(a + b =~= a);
    } else {
        assert((a + b).drop_last() =~= a + b.drop_last());
        assert(start + (a + b.drop_last()) =~= (start + a) + b.drop_last());
        lemma_inserts_ok_append(start, a, b.drop_last());
        lemma_first_refusal_append(start, a, b.drop_last());
        lemma_inserts_ok_append(start, a, b);
    }
}

/// Builds the route table: the routes of the about section, then those of the todo list.
pub fn build_router() -> (res: Result<Router<usize>, String>)
    ensures
        res is Ok <==> inserts_ok(Seq::empty(), route_table()),
        res matches Ok(r) ==> router_routes(r) == route_table(),
        res matches Err(e) ==> e@ == first_refusal(Seq::empty(), route_table()),
{
    let router = router_new();
    proof {
        lemma_inserts_ok_append(Seq::empty(), about_routes(), todos_routes());
        lemma_first_refusal_append(Seq::empty(), about_routes(), todos_routes());
        assert(Seq::<(Seq<char>, usize)>::empty() + about_routes() =~= about_routes());
    }
    let router = match crate::about::register(router) {
        Ok(r) => r,
        Err(e) => return Err(e),
    };
    let router = match crate::todos::register(router) {
        Ok(r) => r,
        Err(e) => return Err(e),
    };
    assert(Seq::<(Seq<char>, usize)>::empty() + about_routes() + todos_routes() =~= route_table());
    Ok(router)
}

impl RoutingState {
    /// Makes room for a request of `size` bytes, all zero.
    pub fn allocate_request(&mut self, size: usize)
        ensures
            final(self).request matches Some(v) && v@ == Seq::new(size as nat, |i: int| 0u8),
            final(self).response == old(self).response,
    {
        let mut v: Vec<u8> = Vec::new();
        let mut i: usize = 0;
        while i < size
            invariant
                i <= size,
                v@ == Seq::new(i as nat, |j: int| 0u8),
            decreases size - i,
        {
            v.push(0);
            i = i + 1;
            assert(v@ =~= Seq::new(i as nat, |j: int| 0u8));
        }
        self.request = Some(v);
    }

    /// The request as text: `{}` where none was written, the decoded bytes where
    /// they are valid UTF-8, and `None` where they are not.
    pub fn request_text(&self) -> (res: Option<String>)
        ensures
            match self.request {
                None => res matches Some(t) && t@ == markup::EMPTY_REQUEST@,
                Some(bytes) => (res is Some <==> valid_utf8(bytes@)) && (res matches Some(t)
                    ==> t@ == decode_utf8(bytes@)),
            },
    {
        match &self.request {
            None => Some(String::from_str(markup::EMPTY_REQUEST)),
            Some(bytes) => string_from_utf8(bytes.clone()),
        }
    }

    /// The length in bytes of the stored answer, 0 where there is none.
    pub fn response_len(&self) -> (res: usize)
        ensures
            match self.response {
                None => res == 0,
                Some(r) => res == encode_utf8(r@).len() as usize,
            },
    {
        match &self.response {
            None => 0,
            Some(r) => r.as_str().len(),
        }
    }
}

/// The buffers shared with the host, to read or to change.
pub fn get_routing_state(service: &mut Service) -> (state: &mut RoutingState)
    ensures
        *state == old(service).routing,
        final(service).routing == *final(state),
        final(service).counter == old(service).counter,
        final(service).todos == old(service).todos,
        final(service).router == old(service).router,
{
    &mut service.routing
}

impl Service {
    /// Whether the route table, where it was built, holds every route.
    pub open spec fn wf(&self) -> bool {
        self.router matches Ok(r) ==> router_routes(r) == route_table()
    }

    /// A fresh service: no clicks, no todos, every item shown, the route table
    /// built, nothing exchanged with the host yet.
    pub fn new() -> (res: Service)
        ensures
            res.wf(),
            res.counter == 0,
            res.todos@ == (TodosView { items: Seq::empty(), inc: 0, filter: crate::todos::Filter::All }),
            res.router is Ok <==> inserts_ok(Seq::empty(), route_table()),
            res.router matches Err(e) ==> e@ == first_refusal(Seq::empty(), route_table()),
            res.routing.request is None,
            res.routing.response is None,
    {
        Service {
            counter: 0,
            todos: Todos::new(),
            router: build_router(),
            routing: RoutingState { request: None, response: None },
        }
    }
}

proof fn lemma_route_ids(id: usize)
    requires
        exists|k: int| 0 <= k < route_table().len() && route_table()[k].1 == id,
    ensures
        id <= TODOS_FILTER,
{
    let k = choose|k: int| 0 <= k < route_table().len() && route_table()[k].1 == id;
    if k < 3 {
        assert(route_table()[k] == about_routes()[k]);
    } else {
        assert(route_table()[k] == todos_routes()[k - 3]);
    }
}

/// Runs the route numbered `id`.
fn dispatch(
    service: &mut Service,
    id: usize,
    params: &Vec<(String, String)>,
    path: &str,
    request: &Request,
) -> (res: String)
    requires
        id <= TODOS_FILTER,
        id == ABOUT_CLICKED ==> old(service).counter < u64::MAX,
    ensures
        (final(service).counter, final(service).todos@, res@) == dispatch_spec(
            old(service).counter,
            old(service).todos@,
            id,
            params_view(params@),
            path@,
            request.body@,
        ),
        final(service).router == old(service).router,
        final(service).routing == old(service).routing,
{
    if id == ABOUT_PAGE {
        page(markup::ABOUT_TITLE, about(service.counter, path))
    } else if id == ABOUT_NAV {
        nav(markup::ABOUT_TITLE, about(service.counter, path))
    } else if id == ABOUT_CLICKED {
        about_clicked(&mut service.counter, path)
    } else if id == TODOS_PAGE {
        page(markup::TODOS_TITLE, component(&service.todos))
    } else if id == TODOS_NAV {
        nav(markup::TODOS_TITLE, component(&service.todos))
    } else if id == TODOS_ADD {
        service.todos.hx_add(request)
    } else if id == TODOS_DELETE {
        service.todos.hx_delete(params)
    } else if id == TODOS_TOGGLE {
        service.todos.hx_toggle(params)
    } else if id == TODOS_TOGGLE_ALL {
        service.todos.hx_toggleall()
    } else {
        service.todos.hx_filter(params)
    }
}

/// Looks up the route of `request`.
fn lookup(router: &Router<usize>, path: &str) -> (res: Result<(usize, Vec<(String, String)>), MatchFailure>)
    ensures
        match res {
            Ok((id, params)) => route_lookup(router_routes(*router), routed_path(path@)) == Ok::<
                (usize, Seq<(Seq<char>, Seq<char>)>),
                MatchFailure,
            >((id, params_view(params@))),
            Err(e) => route_lookup(router_routes(*router), routed_path(path@)) == Err::<
                (usize, Seq<(Seq<char>, Seq<char>)>),
                MatchFailure,
            >(e),
        },
        res matches Ok((id, _)) ==> exists|k: int|
            0 <= k < router_routes(*router).len() && router_routes(*router)[k].1 == id,
{
    let routed = trim_start_matches(path, "/wasm-service");
    router_at(router, routed)
}

/// Answers `request`: the page or fragment of its route, or why there is none.
pub fn handle_request(service: &mut Service, request: &Request) -> (res: String)
    requires
        old(service).wf(),
        can_handle(old(service).counter, old(service).router, *request),
    ensures
        (final(service).counter, final(service).todos@, res@) == handle_spec(
            old(service).counter,
            old(service).todos@,
            old(service).router,
            *request,
        ),
        final(service).router == old(service).router,
        final(service).routing == old(service).routing,
{
    let found = match &service.router {
        Err(e) => {
            let mut out = String::from_str(markup::ROUTER_FAILED);
            out.append(e.as_str());
            out.append(markup::PARA_CLOSE);
            return out;
        },
        Ok(router) => {
            let path = match request.path() {
                Some(p) => p,
                None => {
                    assert(false);
                    return String::new();
                },
            };
            let found = lookup(router, path.as_str());
            proof {
                if let Ok((id, _)) = found {
                    lemma_route_ids(id);
                }
            }
            (found, path)
        },
    };
    let (found, path) = found;
    match found {
        Ok((id, params)) => dispatch(service, id, &params, path.as_str(), request),
        Err(MatchFailure::NotFound) => String::from_str(markup::NOT_FOUND),
        Err(e) => {
            let mut out = String::from_str(markup::MATCH_ERROR_OPEN);
            out.append(e.message());
            out.append(markup::PARA_CLOSE);
            out
        },
    }
}

/// Answers `request` where that goes through without a fault, and gives
/// `None`, changing nothing, where it would not.
pub fn try_handle_request(service: &mut Service, request: &Request) -> (res: Option<String>)
    requires
        old(service).wf(),
    ensures
        res is Some <==> can_handle(old(service).counter, old(service).router, *request),
        res matches Some(s) ==> (final(service).counter, final(service).todos@, s@) == handle_spec(
            old(service).counter,
            old(service).todos@,
            old(service).router,
            *request,
        ),
        res is None ==> *final(service) == *old(service),
        final(service).router == old(service).router,
        final(service).routing == old(service).routing,
{
    if let Ok(router) = &service.router {
        match request.path() {
            None => return None,
            Some(path) => {
                if let Ok((id, _)) = lookup(router, path.as_str()) {
                    if id == ABOUT_CLICKED && service.counter == u64::MAX {
                        return None;
                    }
                }
            },
        }
    }
    Some(handle_request(service, request))
}

impl Service {
    /// Answers the request that the host decoded (`None` where it could not be
    /// decoded) and stores the answer for the host to read. Gives `false`,
    /// changing nothing, where answering would not go through.
    pub fn fetch(&mut self, parsed: Option<Request>) -> (ok: bool)
        requires
            old(self).wf(),
        ensures
            final(self).wf(),
            final(self).routing.request == old(self).routing.request,
            final(self).router == old(self).router,
            parsed is None ==> ok,
            parsed is None ==> (final(self).routing.response matches Some(r) && r@
                == markup::PARSE_FAILED@),
            parsed is None ==> final(self).counter == old(self).counter && final(self).todos
                == old(self).todos,
            parsed matches Some(request) ==> (ok <==> can_handle(
                old(self).counter,
                old(self).router,
                request,
            )),
            parsed matches Some(request) ==> (ok ==> (final(self).routing.response matches Some(r)
                && (final(self).counter, final(self).todos@, r@) == handle_spec(
                old(self).counter,
                old(self).todos@,
                old(self).router,
                request,
            ))),
            parsed is Some && !ok ==> *final(self) == *old(self),
    {
        match parsed {
            None => {
                self.routing.response = Some(String::from_str(markup::PARSE_FAILED));
                true
            },
            Some(request) => match try_handle_request(self, &request) {
                Some(answer) => {
                    self.routing.response = Some(answer);
                    true
                },
                None => false,
            },
        }
    }
}

} // verus!
