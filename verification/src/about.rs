//! The "about" section: a description of the project and a click counter.
use vstd::prelude::*;
use matchit::Router;
use crate::markup;
use crate::router::{first_refusal, inserts_ok, insert_all, router_routes, table_view, ABOUT_CLICKED, ABOUT_NAV, ABOUT_PAGE};
use crate::site::{tabs, tabs_html, Tabs};
use crate::text::{decimal, push_decimal};

verus! {

/// The routes of this section, in the order they are registered.
pub open spec fn about_routes() -> Seq<(Seq<char>, usize)> {
    seq![("/"@, ABOUT_PAGE), ("/;nav"@, ABOUT_NAV), ("/;clicked"@, ABOUT_CLICKED)]
}

/// The click counter display: which url was asked for, and how many clicks so far.
pub open spec fn about_clicked_display_html(counter: u64, url: Seq<char>) -> Seq<char> {
    markup::CLICKED_OPEN@ + url + markup::CLICKED_MID@ + decimal(counter as nat)
        + markup::CLICKED_CLOSE@
}

/// The about section: tabs, description, click button and the counter display.
pub open spec fn about_html(counter: u64, url: Seq<char>) -> Seq<char> {
    tabs_html(Tabs::About) + markup::ABOUT_OPEN@ + about_clicked_display_html(counter, url)
        + markup::ABOUT_CLOSE@
}

/// Registers the routes of this section, handing the router back where
/// matchit accepts them all.
pub fn register(router: Router<usize>) -> (res: Result<Router<usize>, String>)
    ensures
        res is Ok <==> inserts_ok(router_routes(router), about_routes()),
        res matches Ok(r) ==> router_routes(r) == router_routes(router) + about_routes(),
        res matches Err(t) ==> t@ == first_refusal(router_routes(router), about_routes()),
{
    let table: [(&str, usize); 3] = [("/", ABOUT_PAGE), ("/;nav", ABOUT_NAV), ("/;clicked", ABOUT_CLICKED)];
    assert(table_view(table@) =~= about_routes());
    insert_all(router, table.as_slice())
}

/// Renders the about section for `url` with the count of clicks so far.
pub fn about(counter: u64, url: &str) -> (res: String)
    ensures
        res@ == about_html(counter, url@),
{
    let mut out = tabs(Tabs::About);
    out.append(markup::ABOUT_OPEN);
    let display = about_clicked_display(counter, url);
    out.append(display.as_str());
    out.append(markup::ABOUT_CLOSE);
    out
}

/// Counts one more click and renders the counter display.
pub fn about_clicked(counter: &mut u64, url: &str) -> (res: String)
    requires
        *old(counter) < u64::MAX,
    ensures
        *final(counter) == *old(counter) + 1,
        res@ == about_clicked_display_html(*final(counter), url@),
{
    *counter = *counter + 1;
    about_clicked_display(*counter, url)
}

/// Renders the counter display: the url asked for and the number of clicks.
pub fn about_clicked_display(counter: u64, url: &str) -> (res: String)
    ensures
        res@ == about_clicked_display_html(counter, url@),
{
    let mut out = String::new();
    out.append(markup::CLICKED_OPEN);
    out.append(url);
    out.append(markup::CLICKED_MID);
    push_decimal(&mut out, counter);
    out.append(markup::CLICKED_CLOSE);
    out
}

} // verus!
