use wasm_service::about::{about_clicked, about_clicked_display};
use wasm_service::site::{nav, page, tabs, Tabs};
use wasm_service::text::{parse_u32, push_decimal, str_equal, trim_start_matches};
use wasm_service::todos::{
    count_frag, filter_frag, input_frag, item_frag, items_frag, toggleall_frag, Filter, Item,
    Todos,
};

fn item(id: u32, done: bool, label: &str) -> Item {
    Item { id, done, label: label.to_string() }
}

fn todos_with(items: Vec<Item>, filter: Filter) -> Todos {
    let inc = items.len() as u32;
    Todos { items, inc, filter }
}

#[test]
fn decimal_rendering() {
    let mut out = String::from("n=");
    push_decimal(&mut out, 0);
    assert_eq!(out, "n=0");
    let mut out = String::new();
    push_decimal(&mut out, 1234567890123);
    assert_eq!(out, "1234567890123");
    let mut out = String::new();
    push_decimal(&mut out, u64::MAX);
    assert_eq!(out, u64::MAX.to_string());
}

#[test]
fn u32_parsing_follows_std() {
    for s in ["0", "42", "+7", "007", "4294967295", "4294967296", "", "+", "-1", "12a", " 1", "99999999999"] {
        assert_eq!(parse_u32(s), s.parse::<u32>().ok(), "input {:?}", s);
    }
    assert_eq!(parse_u32("4294967295"), Some(u32::MAX));
    assert_eq!(parse_u32("4294967296"), None);
}

#[test]
fn decimal_reads_back() {
    for n in [0u32, 9, 10, 99, 100, 65535, u32::MAX] {
        let mut out = String::new();
        push_decimal(&mut out, n as u64);
        assert_eq!(parse_u32(&out), Some(n));
    }
}

#[test]
fn prefix_trimming_follows_std() {
    let cases = [
        ("/wasm-service/todos", "/wasm-service"),
        ("/wasm-service/wasm-service/todos", "/wasm-service"),
        ("/todos", "/wasm-service"),
        ("/wasm-servic", "/wasm-service"),
        ("/wasm-service", "/wasm-service"),
        ("aaab", "a"),
        ("abc", ""),
    ];
    for (s, p) in cases {
        assert_eq!(trim_start_matches(s, p), s.trim_start_matches(p), "input {:?} {:?}", s, p);
    }
}

#[test]
fn string_equality() {
    assert!(str_equal("todo-new", "todo-new"));
    assert!(!str_equal("todo-new", "todo-ne"));
    assert!(!str_equal("a", "b"));
    assert!(str_equal("", ""));
}

#[test]
fn nav_and_page_frames() {
    assert_eq!(nav("Todos", "X".to_string()), "<head><title>Todos</title></head>X");
    let p = page("T", "<p>B</p>".to_string());
    assert!(p.starts_with("<!DOCTYPE html><html><head><meta charset=\"UTF-8\"><title>T</title><link rel=\"stylesheet\" href=\"/assets/main.css\">"));
    assert!(p.ends_with("</script></head><body><p>B</p></body></html>"));
    assert!(p.contains("navigator.serviceWorker.register(\"/sw.js\")"));
}

#[test]
fn tabs_mark_the_selected_one() {
    let a = tabs(Tabs::About);
    assert!(a.starts_with("<div class=\"nav-tabs\" hx-target=\"closest body\"><a href=\"\" hx-get=\"./;nav\" hx-push-url=\"\" class=\"selected\">About</a><a href=\"todos\" hx-get=\"./todos;nav\" hx-push-url=\"todos\" >Todos</a><style>"));
    let t = tabs(Tabs::Todos);
    assert!(t.starts_with("<div class=\"nav-tabs\" hx-target=\"closest body\"><a href=\"\" hx-get=\"./;nav\" hx-push-url=\"\" >About</a><a href=\"todos\" hx-get=\"./todos;nav\" hx-push-url=\"todos\" class=\"selected\">Todos</a><style>"));
    assert!(t.ends_with("</style></div>"));
}

#[test]
fn click_counter_display() {
    assert_eq!(
        about_clicked_display(3, "/;clicked"),
        "<div>Hey <b>User</b>, this html is generated from Rust WASM using a service worker that intercepts http calls and returns HTML for /;clicked<br><p>Clicked count here: 3</p></div>"
    );
    let mut counter = 41u64;
    let out = about_clicked(&mut counter, "/x");
    assert_eq!(counter, 42);
    assert!(out.ends_with("/x<br><p>Clicked count here: 42</p></div>"));
}

#[test]
fn item_fragment() {
    assert_eq!(
        item_frag(&item(7, true, "Milk")),
        "<li hx-target=\"this\" hx-swap=\"outerHTML\"><input type=\"checkbox\" checked hx-post=\"./todos/7/toggle\"><label>Milk</label><button class=\"delete\" hx-delete=\"./todos/7\"></button></li>"
    );
    assert_eq!(
        item_frag(&item(12, false, "Eggs")),
        "<li hx-target=\"this\" hx-swap=\"outerHTML\"><input type=\"checkbox\"  hx-post=\"./todos/12/toggle\"><label>Eggs</label><button class=\"delete\" hx-delete=\"./todos/12\"></button></li>"
    );
}

#[test]
fn input_fragment() {
    assert_eq!(
        input_frag(true),
        "<input id=\"todo-new\" name=\"todo-new\" placeholder=\"What needs to be done?\" autofocus hx-post=\"./todos;add\" hx-target=\".todos ul\" hx-swap=\"afterbegin\" hx-swap-oob=\"true\">"
    );
    assert_eq!(
        input_frag(false),
        "<input id=\"todo-new\" name=\"todo-new\" placeholder=\"What needs to be done?\" autofocus hx-post=\"./todos;add\" hx-target=\".todos ul\" hx-swap=\"afterbegin\" >"
    );
}

#[test]
fn count_fragment_plural() {
    let t = todos_with(vec![], Filter::All);
    assert_eq!(count_frag(&t, false), "<span id=\"todo-count\" ><strong>0</strong> items left</span>");
    let t = todos_with(vec![item(1, false, "a"), item(2, true, "b")], Filter::All);
    assert_eq!(count_frag(&t, true), "<span id=\"todo-count\" hx-swap-oob=\"true\"><strong>1</strong> item left</span>");
    let t = todos_with(vec![item(1, false, "a"), item(2, false, "b")], Filter::All);
    assert_eq!(count_frag(&t, true), "<span id=\"todo-count\" hx-swap-oob=\"true\"><strong>2</strong> items left</span>");
}

#[test]
fn toggleall_fragment() {
    let empty = todos_with(vec![], Filter::All);
    assert_eq!(
        toggleall_frag(&empty, false),
        "<input id=\"toggle-all\" type=\"checkbox\"  hx-post=\"./todos;toggleall\" hx-target=\"this\" >"
    );
    let done = todos_with(vec![item(1, true, "a")], Filter::All);
    assert_eq!(
        toggleall_frag(&done, true),
        "<input id=\"toggle-all\" type=\"checkbox\" checked hx-post=\"./todos;toggleall\" hx-target=\"this\" hx-swap-oob=\"true\">"
    );
}

#[test]
fn items_listed_newest_first_under_filter() {
    let items = vec![item(1, false, "first"), item(2, true, "second"), item(3, false, "third")];
    let t = todos_with(items, Filter::All);
    let all = items_frag(&t, false);
    let expected = format!(
        "<ul id=\"items-list\" >{}{}{}</ul>",
        item_frag(&item(3, false, "third")),
        item_frag(&item(2, true, "second")),
        item_frag(&item(1, false, "first"))
    );
    assert_eq!(all, expected);
    let items = vec![item(1, false, "first"), item(2, true, "second"), item(3, false, "third")];
    let t = todos_with(items, Filter::Completed);
    assert_eq!(
        items_frag(&t, true),
        format!("<ul id=\"items-list\" hx-swap-oob=\"true\">{}</ul>", item_frag(&item(2, true, "second")))
    );
    let items = vec![item(1, false, "first"), item(2, true, "second")];
    let t = todos_with(items, Filter::Active);
    assert_eq!(
        items_frag(&t, false),
        format!("<ul id=\"items-list\" >{}</ul>", item_frag(&item(1, false, "first")))
    );
}

#[test]
fn filter_fragment_checks_selected() {
    let t = todos_with(vec![], Filter::Active);
    let f = filter_frag(&t);
    assert!(f.starts_with("<fieldset class=\"filter\" hx-swap=\"none\"><legend>Filter</legend><input type=\"radio\" id=\"filter-all\" name=\"filter\" value=\"All\"  hx-post=\"./todos;filter=All\"><label for=\"filter-all\">All</label><input type=\"radio\" id=\"filter-active\" name=\"filter\" value=\"Active\" checked hx-post=\"./todos;filter=Active\">"));
    assert!(f.contains("value=\"Completed\"  hx-post=\"./todos;filter=Completed\"><label for=\"filter-completed\">Completed</label></fieldset><style>\nS        .filter {"));
}
