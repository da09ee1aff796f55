//! The page frame shared by both sections: full page, partial page and tab bar.
use vstd::prelude::*;
use crate::markup;

verus! {

/// The section whose tab is shown as selected.
#[derive(PartialEq, Eq, Structural, Clone, Copy, Debug)]
pub enum Tabs {
    About,
    Todos,
}

/// A full page: doctype, head with the given title, and `body`.
pub open spec fn page_html(title: Seq<char>, body: Seq<char>) -> Seq<char> {
    markup::PAGE_OPEN@ + title + markup::PAGE_HEAD@ + body + markup::PAGE_CLOSE@
}

/// A partial page, swapped in when a tab is followed: a head with the title, then `content`.
pub open spec fn nav_html(title: Seq<char>, content: Seq<char>) -> Seq<char> {
    markup::NAV_OPEN@ + title + markup::NAV_CLOSE@ + content
}

/// The marker that a tab carries when it is the selected one.
pub open spec fn selected_mark(selected: Tabs, tab: Tabs) -> Seq<char> {
    if selected == tab {
        markup::SELECTED@
    } else {
        Seq::empty()
    }
}

/// The tab bar with `selected` marked.
pub open spec fn tabs_html(selected: Tabs) -> Seq<char> {
    markup::TABS_OPEN@ + selected_mark(selected, Tabs::About) + markup::TABS_MID@ + selected_mark(selected, Tabs::Todos)
        + markup::TABS_CLOSE@
}

/// Renders a full page with the given title around `body`.
pub fn page(title: &str, body: String) -> (res: String)
    ensures
        res@ == page_html(title@, body@),
{
    let mut out = String::new();
    out.append(markup::PAGE_OPEN);
    out.append(title);
    out.append(markup::PAGE_HEAD);
    out.append(body.as_str());
    out.append(markup::PAGE_CLOSE);
    out
}

/// Renders the partial page that a tab loads: a head with the title, then `content`.
pub fn nav(title: &str, content: String) -> (res: String)
    ensures
        res@ == nav_html(title@, content@),
{
    let mut out = String::new();
    out.append(markup::NAV_OPEN);
    out.append(title);
    out.append(markup::NAV_CLOSE);
    out.append(content.as_str());
    out
}

/// Renders the tab bar with `selected` marked.
pub fn tabs(selected: Tabs) -> (res: String)
    ensures
        res@ == tabs_html(selected),
{
    let mut out = String::new();
    out.append(markup::TABS_OPEN);
    if selected == Tabs::About {
        out.append(markup::SELECTED);
    }
    out.append(markup::TABS_MID);
    if selected == Tabs::Todos {
        out.append(markup::SELECTED);
    }
    out.append(markup::TABS_CLOSE);
    out
}

} // verus!
