//! The fixed text of the pages and fragments, in the order it is written.
use vstd::prelude::*;

verus! {

/// Start of a full page, up to the title.
pub const PAGE_OPEN: &'static str = r##"<!DOCTYPE html><html><head><meta charset="UTF-8"><title>"##;

/// From the end of the title to the start of the body: stylesheets, htmx and the service worker registration.
pub const PAGE_HEAD: &'static str = r##"</title><link rel="stylesheet" href="/assets/main.css"><link rel="stylesheet" href="https://unpkg.com/water.css@2.1.1/out/water.css" integrity="sha384-eHoWBq4xGyEfS3rmZe6gvzlNS/nNJhiPPbKCJN1cQHJukU+q6ji3My2fJGYd1EBo" crossorigin="anonymous"><script src="https://unpkg.com/htmx.org@1.8.2/dist/htmx.js" integrity="sha384-dUlt2hvoUDyqJ29JH9ln6o/B23lVQiQm8Z0+oEuPBWwKXiyG2MozxxFsCKWM7dLl" crossorigin="anonymous"></script><script>
                  if ("serviceWorker" in navigator) {
                    navigator.serviceWorker.register("/sw.js")
                      .then(reg => {
                        reg.addEventListener('statechange', event => {
                          console.log("received `statechange` event", { reg, event })
                        });
                        console.log("service worker registered", reg);
                        reg.active.postMessage({ type: 'clientattached' });
                      }).catch(err => {
                        console.error("service worker registration failed", err);
                      });
                    navigator.serviceWorker.addEventListener('controllerchange', event => {
                      console.log("received `controllerchange` event", event);
                    });
                  } else {
                    console.error("serviceWorker is missing from `navigator`. Note service workers must be served over https or on localhost");
                  }</script></head><body>"##;

/// End of a full page.
pub const PAGE_CLOSE: &'static str = r##"</body></html>"##;

/// Start of a partial page swapped in by the tabs.
pub const NAV_OPEN: &'static str = r##"<head><title>"##;

/// End of the head of a partial page.
pub const NAV_CLOSE: &'static str = r##"</title></head>"##;

/// The tab bar, up to the attributes of the "About" tab.
pub const TABS_OPEN: &'static str = r##"<div class="nav-tabs" hx-target="closest body"><a href="" hx-get="./;nav" hx-push-url="" "##;

/// Between the two tabs.
pub const TABS_MID: &'static str = r##">About</a><a href="todos" hx-get="./todos;nav" hx-push-url="todos" "##;

/// End of the tab bar, with its style.
pub const TABS_CLOSE: &'static str = r##">Todos</a><style>
            .nav-tabs>a {
                padding: 1em;
                color: var(--text-bright);
            }
            .nav-tabs>a:hover {
                background-color: var(--button-hover) !important;
            }
            .nav-tabs>a.selected {
                background-color: var(--button-base);
            }
            </style></div>"##;

/// Marks the selected tab.
pub const SELECTED: &'static str = r##"class="selected""##;

/// Title of the about page.
pub const ABOUT_TITLE: &'static str = r##"Hello WASM Service Worker"##;

/// The about page after the tabs, up to the click target.
pub const ABOUT_OPEN: &'static str = r##"<h1>HTMX + Service Workers + WebAssembly + Rust</h1><div>This is a simple proof of concept that shows how you could use <a href="https://htmx.org/">HTMX</a> and Rust for frontend development.
        The basic idea in HTMX is that a webserver is being called on interactions
        with DOM elements, and returning back snippets of HTML that will replace
        certain DOM elements. Instead of going to a real web serviceWorker this
        project shows how service workers can intercept calls to a server and
        return back responses driven from WebAssembly instead.<br>Repo: <a href="https://github.com/euforic/wasm-service">https://github.com/euforic/wasm-service</a></div><br><button hx-post="./;clicked" hx-swap="innerHTML" hx-target="#target">Click Me</button><div><div id="target">"##;

/// End of the about page.
pub const ABOUT_CLOSE: &'static str = r##"</div></div>"##;

/// Start of the click counter display, up to the url.
pub const CLICKED_OPEN: &'static str = r##"<div>Hey <b>User</b>, this html is generated from Rust WASM using a service worker that intercepts http calls and returns HTML for "##;

/// Between the url and the count.
pub const CLICKED_MID: &'static str = r##"<br><p>Clicked count here: "##;

/// End of the click counter display.
pub const CLICKED_CLOSE: &'static str = r##"</p></div>"##;

/// Title of the todo page.
pub const TODOS_TITLE: &'static str = r##"Todos"##;

/// The todo component after the tabs, up to the controls.
pub const COMPONENT_OPEN: &'static str = r##"<section class="todos"><header><h1>TODOs App</h1><div id="controls">"##;

/// Between the controls and the list.
pub const COMPONENT_MID: &'static str = r##"</div></header>"##;

/// Between the list and the footer content.
pub const COMPONENT_FOOTER: &'static str = r##"<footer>"##;

/// End of the todo component, with its style.
pub const COMPONENT_CLOSE: &'static str = r##"</footer><style>
                .todos {
                    font-size: 1.5em;
                }
                .todos input {
                    display: inline-block;
                    vertical-align: middle;
                }
                header input[type=checkbox] {
                    font-size: 1.5em;
                }
                .todos ul {
                    list-style-type: none;
                    padding-left: 0;
                }
                .todos li {
                    position: relative;
                    height: 2em;
                    width: 20em;
                    overflow: hidden;
                    padding-top: .2em;
                }
                .todos li>* {
                    vertical-align: middle;
                }
                .todos li>input[type=checkbox]:checked + label {
                    text-decoration: line-through;
                    color: var(--text-muted);
                }
                .todos button.delete:after {
                    content: '×';
                    font-size: 2em;
                    position: relative;
                    top: -.2em;
                }
                .todos button.delete {
                    position: absolute;
                    margin-top: -.2em;
                    right: 0;
                    padding: 0;
                    color: #af5b5e;
                    background-color: var(--background-body);
                }
                .todos button.delete:hover {
                    color: #ac262b;
                }

                </style></section>"##;

/// Out-of-band swap marker of htmx.
pub const OOB: &'static str = r##"hx-swap-oob="true""##;

/// Checked box marker.
pub const CHECKED: &'static str = r##"checked"##;

/// Start of the item list, up to its out-of-band marker.
pub const LIST_OPEN: &'static str = r##"<ul id="items-list" "##;

/// End of the list opening tag.
pub const LIST_MID: &'static str = r##">"##;

/// End of the item list.
pub const LIST_CLOSE: &'static str = r##"</ul>"##;

/// Start of an item, up to its checkbox state.
pub const ITEM_OPEN: &'static str = r##"<li hx-target="this" hx-swap="outerHTML"><input type="checkbox" "##;

/// Start of the toggle link of an item.
pub const ITEM_TOGGLE: &'static str = r##" hx-post="./todos/"##;

/// Between the toggle link and the label.
pub const ITEM_LABEL: &'static str = r##"/toggle"><label>"##;

/// Between the label and the delete link.
pub const ITEM_DELETE: &'static str = r##"</label><button class="delete" hx-delete="./todos/"##;

/// End of an item.
pub const ITEM_CLOSE: &'static str = r##""></button></li>"##;

/// The new-item input, up to its out-of-band marker.
pub const INPUT_OPEN: &'static str = r##"<input id="todo-new" name="todo-new" placeholder="What needs to be done?" autofocus hx-post="./todos;add" hx-target=".todos ul" hx-swap="afterbegin" "##;

/// End of an opening tag.
pub const TAG_END: &'static str = r##">"##;

/// The toggle-all checkbox, up to its state.
pub const TOGGLE_ALL_OPEN: &'static str = r##"<input id="toggle-all" type="checkbox" "##;

/// Between the toggle-all state and its out-of-band marker.
pub const TOGGLE_ALL_MID: &'static str = r##" hx-post="./todos;toggleall" hx-target="this" "##;

/// Start of the counter of active items.
pub const COUNT_OPEN: &'static str = r##"<span id="todo-count" "##;

/// Start of the number of active items.
pub const COUNT_NUMBER: &'static str = r##"><strong>"##;

/// After the number.
pub const COUNT_WORD: &'static str = r##"</strong> item"##;

/// Plural ending.
pub const PLURAL: &'static str = r##"s"##;

/// End of the counter of active items.
pub const COUNT_CLOSE: &'static str = r##" left</span>"##;

/// The filter radio group, up to the state of "All".
pub const FILTER_OPEN: &'static str = r##"<fieldset class="filter" hx-swap="none"><legend>Filter</legend><input type="radio" id="filter-all" name="filter" value="All" "##;

/// Up to the state of "Active".
pub const FILTER_ACTIVE: &'static str = r##" hx-post="./todos;filter=All"><label for="filter-all">All</label><input type="radio" id="filter-active" name="filter" value="Active" "##;

/// Up to the state of "Completed".
pub const FILTER_COMPLETED: &'static str = r##" hx-post="./todos;filter=Active"><label for="filter-active">Active</label><input type="radio" id="filter-completed" name="filter" value="Completed" "##;

/// End of the filter radio group, with its style.
pub const FILTER_CLOSE: &'static str = r##" hx-post="./todos;filter=Completed"><label for="filter-completed">Completed</label></fieldset><style>
S        .filter {
            max-width: fit-content;
        }
        .filter input[type=radio] {
            display: none;
        }
        .filter label {
            margin-left: .5em;
            padding: .3em;
            min-width: 3em;
            text-align: center;
            border: .1em solid var(--text-muted);
            border-radius: .5em;
        }
        .filter label:hover {
            border-color: var(--highlight);
            color: var(--highlight);
            box-shadow: 0px 0px .1em .1em var(--highlight);
        }
        .filter input:checked + label {
            border-color: var(--text-bright);
            color: var(--text-bright);
            background-color: var(--button-base);
        }
        </style>"##;

/// Start of the form decoding error.
pub const FORM_ERROR_OPEN: &'static str = r##"<p>Error decoding form: "##;

/// End of a paragraph.
pub const PARA_CLOSE: &'static str = r##"</p>"##;

/// Answer to an id parameter that is not a number.
pub const INVALID_ID: &'static str = r##"<p>Invalid param `id`</p>"##;

/// Answer to a missing id parameter.
pub const MISSING_ID: &'static str = r##"<p>Missing param `id`</p>"##;

/// Start of the answer to a missing id parameter, before the parameters received.
pub const MISSING_ID_GOT: &'static str = r##"<p>Missing param `id`, got:"##;

/// Between a parameter name and its value.
pub const PARAM_EQ: &'static str = r##"="##;

/// Answer to an id that no item has.
pub const INVALID_ITEM: &'static str = r##"<p>Invalid item number</p>"##;

/// Start of the answer when the route table could not be built.
pub const ROUTER_FAILED: &'static str = r##"<p>Failed to build router</p><p>"##;

/// Answer to a path that no route matches.
pub const NOT_FOUND: &'static str = r##"<p>Not found</p>"##;

/// Start of the answer to a path that matches no route for another reason.
pub const MATCH_ERROR_OPEN: &'static str = r##"<p>Error matching request handler: "##;

/// Answer to a request that could not be decoded.
pub const PARSE_FAILED: &'static str = r##"Failed to parse request string from service worker js"##;

/// The request text read when none was stored.
pub const EMPTY_REQUEST: &'static str = r##"{}"##;

} // verus!
