use wasm_service::request::{form_field, Request};
use wasm_service::service::{build_router, get_routing_state, handle_request, try_handle_request, Service};
use wasm_service::todos::{count_frag, input_frag, item_frag, toggleall_frag, Filter, Item, Todos};

fn request(url: &str, body: &str) -> Request {
    Request {
        method: "POST".to_string(),
        url: url.to_string(),
        headers: vec![("hx-request".to_string(), "true".to_string())],
        body: body.to_string(),
    }
}

fn params(pairs: &[(&str, &str)]) -> Vec<(String, String)> {
    pairs.iter().map(|(k, v)| (k.to_string(), v.to_string())).collect()
}

fn labels(t: &Todos) -> Vec<(u32, bool, String)> {
    t.items.iter().map(|i| (i.id, i.done, i.label.clone())).collect()
}

#[test]
fn add_appends_with_next_id() {
    let mut t = Todos::new();
    let out = t.hx_add(&request("http://localhost/todos;add", "todo-new=Buy+milk"));
    assert_eq!(labels(&t), vec![(1, false, "Buy milk".to_string())]);
    assert_eq!(t.inc, 1);
    let expected = format!(
        "{}{}{}{}",
        item_frag(&Item { id: 1, done: false, label: "Buy milk".to_string() }),
        input_frag(true),
        count_frag(&t, true),
        toggleall_frag(&t, true)
    );
    assert_eq!(out, expected);
    t.hx_add(&request("http://localhost/todos;add", "other=1&todo-new=b%26c"));
    assert_eq!(labels(&t)[1], (2, false, "b&c".to_string()));
}

#[test]
fn add_ids_wrap() {
    let mut t = Todos { items: vec![], inc: u32::MAX, filter: Filter::All };
    t.hx_add(&request("http://localhost/", "todo-new=x"));
    assert_eq!(t.inc, 0);
    assert_eq!(t.items[0].id, 0);
}

#[test]
fn add_form_errors() {
    let mut t = Todos::new();
    assert_eq!(
        t.hx_add(&request("http://localhost/", "other=1")),
        "<p>Error decoding form: missing field `todo-new`</p>"
    );
    assert_eq!(
        t.hx_add(&request("http://localhost/", "todo-new=a&todo-new=b")),
        "<p>Error decoding form: duplicate field `todo-new`</p>"
    );
    assert!(t.items.is_empty());
    assert_eq!(t.inc, 0);
}

#[test]
fn form_field_reads_single_field() {
    assert_eq!(form_field(&params(&[("a", "1"), ("todo-new", "x")]), "todo-new"), Ok("x".to_string()));
    assert_eq!(form_field(&params(&[]), "todo-new"), Err("missing field `todo-new`".to_string()));
    assert_eq!(
        form_field(&params(&[("todo-new", "x"), ("todo-new", "y")]), "todo-new"),
        Err("duplicate field `todo-new`".to_string())
    );
}

fn three() -> Todos {
    let mut t = Todos::new();
    for body in ["todo-new=a", "todo-new=b", "todo-new=c"] {
        t.hx_add(&request("http://localhost/", body));
    }
    t
}

#[test]
fn delete_removes_first_with_id() {
    let mut t = three();
    let out = t.hx_delete(&params(&[("id", "2")]));
    assert_eq!(labels(&t), vec![(1, false, "a".to_string()), (3, false, "c".to_string())]);
    assert_eq!(out, format!("{}{}", count_frag(&t, true), toggleall_frag(&t, true)));
    t.hx_delete(&params(&[("id", "9")]));
    assert_eq!(t.items.len(), 2);
}

#[test]
fn delete_param_errors() {
    let mut t = three();
    assert_eq!(t.hx_delete(&params(&[("id", "x")])), "<p>Invalid param `id`</p>");
    assert_eq!(t.hx_delete(&params(&[])), "<p>Missing param `id`</p>");
    assert_eq!(t.items.len(), 3);
}

#[test]
fn toggle_flips_and_shows_per_filter() {
    let mut t = three();
    let out = t.hx_toggle(&params(&[("id", "2")]));
    assert!(t.items[1].done);
    let expected = format!(
        "{}{}{}",
        item_frag(&Item { id: 2, done: true, label: "b".to_string() }),
        count_frag(&t, true),
        toggleall_frag(&t, true)
    );
    assert_eq!(out, expected);
    t.filter = Filter::Active;
    let out = t.hx_toggle(&params(&[("id", "1")]));
    assert!(t.items[0].done);
    assert_eq!(out, format!("{}{}", count_frag(&t, true), toggleall_frag(&t, true)));
}

#[test]
fn toggle_twice_restores() {
    let mut t = three();
    let before = labels(&t);
    t.hx_toggle(&params(&[("id", "3")]));
    t.hx_toggle(&params(&[("id", "3")]));
    assert_eq!(labels(&t), before);
}

#[test]
fn toggle_param_errors() {
    let mut t = three();
    assert_eq!(t.hx_toggle(&params(&[("id", "7")])), "<p>Invalid item number</p>");
    assert_eq!(t.hx_toggle(&params(&[("id", "-1")])), "<p>Invalid param `id`</p>");
    assert_eq!(
        t.hx_toggle(&params(&[("x", "1"), ("y", "2")])),
        "<p>Missing param `id`, got:x=1y=2</p>"
    );
}

#[test]
fn toggleall_sets_every_item() {
    let mut t = three();
    t.hx_toggle(&params(&[("id", "1")]));
    let out = t.hx_toggleall();
    assert!(t.items.iter().all(|i| i.done));
    assert!(out.contains("<ul id=\"items-list\" hx-swap-oob=\"true\">"));
    let out = t.hx_toggleall();
    assert!(t.items.iter().all(|i| !i.done));
    assert!(out.starts_with("<span id=\"todo-count\" hx-swap-oob=\"true\"><strong>3</strong> items left</span>"));
    let mut empty = Todos::new();
    let out = empty.hx_toggleall();
    assert_eq!(out, format!("{}{}", count_frag(&empty, true), toggleall_frag(&empty, true)));
}

#[test]
fn filter_by_name() {
    let mut t = three();
    assert_eq!(Filter::from_name("Completed"), Some(Filter::Completed));
    assert_eq!(Filter::from_name("completed"), None);
    let out = t.hx_filter(&params(&[("filter", "Completed")]));
    assert_eq!(t.filter, Filter::Completed);
    assert!(out.ends_with("<ul id=\"items-list\" hx-swap-oob=\"true\"></ul>"));
    assert_eq!(t.hx_filter(&params(&[("filter", "Bogus")])), "<p>Invalid param `id`</p>");
    assert_eq!(t.hx_filter(&params(&[])), "<p>Missing param `id`</p>");
    assert_eq!(t.filter, Filter::Completed);
}

fn served(s: &mut Service, path: &str, body: &str) -> String {
    handle_request(s, &request(&format!("http://localhost{}", path), body))
}

#[test]
fn router_builds() {
    assert!(build_router().is_ok());
    assert!(Service::new().router.is_ok());
}

#[test]
fn request_path_from_uri() {
    assert_eq!(request("http://localhost/wasm-service/todos?x=1", "").path(), Some("/wasm-service/todos?x=1".to_string()));
    assert_eq!(request("/todos", "").path(), Some("/todos".to_string()));
    assert_eq!(request("localhost:8080", "").path(), None);
}

#[test]
fn routes_with_and_without_mount_prefix() {
    let mut s = Service::new();
    let a = served(&mut s, "/wasm-service/todos;nav", "");
    let b = served(&mut s, "/todos;nav", "");
    assert_eq!(a, b);
    assert!(a.starts_with("<head><title>Todos</title></head><div class=\"nav-tabs\""));
}

#[test]
fn about_pages_and_clicks() {
    let mut s = Service::new();
    let page = served(&mut s, "/wasm-service/", "");
    assert!(page.starts_with("<!DOCTYPE html>"));
    assert!(page.contains("<title>Hello WASM Service Worker</title>"));
    assert!(page.contains("returns HTML for /wasm-service/<br><p>Clicked count here: 0</p>"));
    let click = served(&mut s, "/wasm-service/;clicked", "");
    assert_eq!(s.counter, 1);
    assert!(click.ends_with("returns HTML for /wasm-service/;clicked<br><p>Clicked count here: 1</p></div>"));
    let nav = served(&mut s, "/;nav", "");
    assert!(nav.starts_with("<head><title>Hello WASM Service Worker</title></head>"));
    assert!(nav.contains("Clicked count here: 1"));
}

#[test]
fn todo_routes_change_the_list() {
    let mut s = Service::new();
    served(&mut s, "/wasm-service/todos;add", "todo-new=one");
    served(&mut s, "/wasm-service/todos;add", "todo-new=two");
    assert_eq!(s.todos.items.len(), 2);
    served(&mut s, "/wasm-service/todos/1/toggle", "");
    assert!(s.todos.items[0].done);
    served(&mut s, "/wasm-service/todos;filter=Active", "");
    assert_eq!(s.todos.filter, Filter::Active);
    served(&mut s, "/wasm-service/todos;toggleall", "");
    assert!(s.todos.items.iter().all(|i| i.done));
    served(&mut s, "/wasm-service/todos/2", "");
    assert_eq!(s.todos.items.len(), 1);
    assert_eq!(s.todos.items[0].id, 1);
    let page = served(&mut s, "/todos", "");
    assert!(page.contains("<title>Todos</title>"));
    assert!(page.contains("<strong>0</strong> items left"));
}

#[test]
fn unknown_paths() {
    let mut s = Service::new();
    assert_eq!(served(&mut s, "/zzz", ""), "<p>Not found</p>");
    assert_eq!(
        served(&mut s, "/todos/", ""),
        "<p>Error matching request handler: match error: found extra trailing slash</p>"
    );
}

#[test]
fn faults_are_refused_without_change() {
    let mut s = Service::new();
    assert_eq!(try_handle_request(&mut s, &request("localhost:8080", "")), None);
    s.counter = u64::MAX;
    assert_eq!(try_handle_request(&mut s, &request("http://localhost/;clicked", "")), None);
    assert_eq!(s.counter, u64::MAX);
    assert!(try_handle_request(&mut s, &request("http://localhost/", "")).is_some());
}

#[test]
fn fetch_stores_the_answer() {
    let mut s = Service::new();
    assert!(s.fetch(None));
    assert_eq!(s.routing.response.as_deref(), Some("Failed to parse request string from service worker js"));
    assert_eq!(s.routing.response_len(), 53);
    assert!(s.fetch(Some(request("http://localhost/zzz", ""))));
    assert_eq!(s.routing.response.as_deref(), Some("<p>Not found</p>"));
    assert!(!s.fetch(Some(request("localhost:1", ""))));
    assert_eq!(s.routing.response.as_deref(), Some("<p>Not found</p>"));
}

#[test]
fn routing_buffers() {
    let mut s = Service::new();
    {
        let rs = get_routing_state(&mut s);
        assert_eq!(rs.request_text(), Some("{}".to_string()));
        rs.allocate_request(3);
        assert_eq!(rs.request, Some(vec![0, 0, 0]));
        rs.request = Some("{\"a\":\"é\"}".as_bytes().to_vec());
        rs.response = Some("é".to_string());
    }
    assert_eq!(s.routing.request_text(), Some("{\"a\":\"é\"}".to_string()));
    assert_eq!(s.routing.response_len(), 2);
    s.routing.request = Some(vec![0xff, 0xfe]);
    assert_eq!(s.routing.request_text(), None);
}

#[test]
fn add_then_delete_restores() {
    let mut t = three();
    let before = labels(&t);
    t.hx_add(&request("http://localhost/", "todo-new=d"));
    let id = t.inc.to_string();
    t.hx_delete(&params(&[("id", id.as_str())]));
    assert_eq!(labels(&t), before);
}

#[test]
fn second_registration_is_refused_with_matchit_text() {
    let s = Service::new();
    let router = s.router.unwrap();
    let err = match wasm_service::about::register(router) {
        Ok(_) => panic!("a second registration was accepted"),
        Err(e) => e,
    };
    assert!(err.starts_with("insertion failed due to conflict with previously registered route: "), "{}", err);
}
