//! The todo list: its items, the filter that chooses which are listed, the
//! fragments that render them, and the handlers that change them.
use vstd::prelude::*;
use matchit::Router;
use crate::markup;
use crate::router::{
    first_refusal, inserts_ok, insert_all, router_routes, table_view, TODOS_ADD, TODOS_DELETE, TODOS_FILTER,
    TODOS_NAV, TODOS_PAGE, TODOS_TOGGLE, TODOS_TOGGLE_ALL,
};
use crate::site::{tabs, tabs_html, Tabs};
use crate::request::{decode_form_pairs, form_decode, form_field, form_field_spec, Request};
use crate::router::{param_get, params_get, params_view};
use crate::text::{decimal, parse_u32, parse_u32_spec, push_decimal, str_equal};

verus! {

/// Which items the list shows.
#[derive(PartialEq, Eq, Structural, Clone, Copy, Debug)]
pub enum Filter {
    All,
    Active,
    Completed,
}

/// One todo.
pub struct Item {
    pub id: u32,
    pub done: bool,
    pub label: String,
}

/// A todo as a mathematical value.
pub struct ItemView {
    pub id: u32,
    pub done: bool,
    pub label: Seq<char>,
}

impl View for Item {
    type V = ItemView;

    open spec fn view(&self) -> ItemView {
        ItemView { id: self.id, done: self.done, label: self.label@ }
    }
}

/// The state of the todo section: the items in the order they were added,
/// the last id handed out, and the current filter.
pub struct Todos {
    pub items: Vec<Item>,
    pub inc: u32,
    pub filter: Filter,
}

/// The todo section as a mathematical value.
pub struct TodosView {
    pub items: Seq<ItemView>,
    pub inc: u32,
    pub filter: Filter,
}

/// The items of a vector of todos, as values.
pub open spec fn items_view(items: Seq<Item>) -> Seq<ItemView> {
    items.map_values(|i: Item| i@)
}

impl View for Todos {
    type V = TodosView;

    open spec fn view(&self) -> TodosView {
        TodosView { items: items_view(self.items@), inc: self.inc, filter: self.filter }
    }
}

impl Filter {
    /// Whether an item that is `done` or not is listed under this filter.
    pub open spec fn shows(self, done: bool) -> bool {
        match self {
            Filter::All => true,
            Filter::Active => !done,
            Filter::Completed => done,
        }
    }

    /// The filter named exactly `name`.
    pub open spec fn from_name_spec(name: Seq<char>) -> Option<Filter> {
        if name == "All"@ {
            Some(Filter::All)
        } else if name == "Active"@ {
            Some(Filter::Active)
        } else if name == "Completed"@ {
            Some(Filter::Completed)
        } else {
            None
        }
    }
}

/// `s` where `cond` holds, nothing otherwise.
pub open spec fn when(cond: bool, s: Seq<char>) -> Seq<char> {
    if cond {
        s
    } else {
        Seq::empty()
    }
}

/// The out-of-band marker, where the fragment is sent out of band.
pub open spec fn oob_mark(oob: bool) -> Seq<char> {
    when(oob, markup::OOB@)
}

/// One item: its checkbox with the toggle link, its label and its delete button.
pub open spec fn item_html(item: ItemView) -> Seq<char> {
    markup::ITEM_OPEN@ + when(item.done, markup::CHECKED@) + markup::ITEM_TOGGLE@ + decimal(
        item.id as nat,
    ) + markup::ITEM_LABEL@ + item.label + markup::ITEM_DELETE@ + decimal(item.id as nat)
        + markup::ITEM_CLOSE@
}

/// The items that `filter` shows, newest first.
pub open spec fn listed_html(items: Seq<ItemView>, filter: Filter) -> Seq<char>
    decreases items.len(),
{
    if items.len() == 0 {
        Seq::empty()
    } else {
        listed_html(items.drop_first(), filter) + when(filter.shows(items[0].done), item_html(items[0]))
    }
}

/// The item list.
pub open spec fn items_html(oob: bool, items: Seq<ItemView>, filter: Filter) -> Seq<char> {
    markup::LIST_OPEN@ + oob_mark(oob) + markup::LIST_MID@ + listed_html(items, filter)
        + markup::LIST_CLOSE@
}

/// The input for a new item.
pub open spec fn input_html(oob: bool) -> Seq<char> {
    markup::INPUT_OPEN@ + oob_mark(oob) + markup::TAG_END@
}

/// Whether there are items and every one is done.
pub open spec fn all_done(items: Seq<ItemView>) -> bool {
    items.len() > 0 && forall|i: int| 0 <= i < items.len() ==> #[trigger] items[i].done
}

/// The toggle-all checkbox, checked when every item is done.
pub open spec fn toggleall_html(oob: bool, items: Seq<ItemView>) -> Seq<char> {
    markup::TOGGLE_ALL_OPEN@ + when(all_done(items), markup::CHECKED@) + markup::TOGGLE_ALL_MID@
        + oob_mark(oob) + markup::TAG_END@
}

/// How many items are not done.
pub open spec fn active_count(items: Seq<ItemView>) -> nat
    decreases items.len(),
{
    if items.len() == 0 {
        0
    } else {
        active_count(items.drop_last()) + if items.last().done {
            0nat
        } else {
            1nat
        }
    }
}

/// "N item(s) left".
pub open spec fn count_html(oob: bool, items: Seq<ItemView>) -> Seq<char> {
    markup::COUNT_OPEN@ + oob_mark(oob) + markup::COUNT_NUMBER@ + decimal(active_count(items))
        + markup::COUNT_WORD@ + when(active_count(items) != 1, markup::PLURAL@)
        + markup::COUNT_CLOSE@
}

/// The checked marker of the radio button of `choice`.
pub open spec fn filter_mark(selected: Filter, choice: Filter) -> Seq<char> {
    when(selected == choice, markup::CHECKED@)
}

/// The filter radio group with `selected` checked.
pub open spec fn filter_html(selected: Filter) -> Seq<char> {
    markup::FILTER_OPEN@ + filter_mark(selected, Filter::All) + markup::FILTER_ACTIVE@ + filter_mark(
        selected,
        Filter::Active,
    ) + markup::FILTER_COMPLETED@ + filter_mark(selected, Filter::Completed)
        + markup::FILTER_CLOSE@
}

/// The whole todo section.
pub open spec fn component_html(t: TodosView) -> Seq<char> {
    tabs_html(Tabs::Todos) + markup::COMPONENT_OPEN@ + toggleall_html(false, t.items) + input_html(
        false,
    ) + markup::COMPONENT_MID@ + items_html(false, t.items, t.filter) + markup::COMPONENT_FOOTER@
        + count_html(false, t.items) + filter_html(t.filter) + markup::COMPONENT_CLOSE@
}

fn push_oob(out: &mut String, oob: bool)
    ensures
        final(out)@ == old(out)@ + oob_mark(oob),
{
    if oob {
        out.append(markup::OOB);
    } else {
        assert(old(out)@ + oob_mark(oob) =~= old(out)@);
    }
}

fn push_checked(out: &mut String, cond: bool)
    ensures
        final(out)@ == old(out)@ + when(cond, markup::CHECKED@),
{
    if cond {
        out.append(markup::CHECKED);
    } else {
        assert(old(out)@ + when(cond, markup::CHECKED@) =~= old(out)@);
    }
}

impl Todos {
    /// No items, no id handed out yet, every item shown.
    pub fn new() -> (res: Todos)
        ensures
            res@ == (TodosView { items: Seq::empty(), inc: 0, filter: Filter::All }),
    {
        let res = Todos { items: Vec::new(), inc: 0, filter: Filter::All };
        assert(res@.items =~= Seq::<ItemView>::empty());
        res
    }
}

/// Renders one item.
pub fn item_frag(item: &Item) -> (res: String)
    ensures
        res@ == item_html(item@),
{
    let mut out = String::new();
    out.append(markup::ITEM_OPEN);
    push_checked(&mut out, item.done);
    out.append(markup::ITEM_TOGGLE);
    push_decimal(&mut out, item.id as u64);
    out.append(markup::ITEM_LABEL);
    out.append(item.label.as_str());
    out.append(markup::ITEM_DELETE);
    push_decimal(&mut out, item.id as u64);
    out.append(markup::ITEM_CLOSE);
    out
}

/// Renders the item list: the items that the filter shows, newest first.
pub fn items_frag(todos: &Todos, oob: bool) -> (res: String)
    ensures
        res@ == items_html(oob, todos@.items, todos.filter),
{
    let mut out = String::new();
    out.append(markup::LIST_OPEN);
    push_oob(&mut out, oob);
    out.append(markup::LIST_MID);
    let ghost prefix = out@;
    let ghost all = todos@.items;
    let n = todos.items.len();
    let mut j: usize = n;
    assert(all.subrange(n as int, n as int) =~= Seq::<ItemView>::empty());
    while j > 0
        invariant
            n == todos.items.len(),
            all == todos@.items,
            all.len() == n,
            j <= n,
            out@ == prefix + listed_html(all.subrange(j as int, n as int), todos.filter),
        decreases j,
    {
        j = j - 1;
        let item = &todos.items[j];
        let ghost rest = all.subrange(j as int, n as int);
        assert(rest.drop_first() =~= all.subrange(j + 1, n as int));
        assert(rest[0] == item@);
        let shown = match todos.filter {
            Filter::All => true,
            Filter::Active => !item.done,
            Filter::Completed => item.done,
        };
        if shown {
            let frag = item_frag(item);
            out.append(frag.as_str());
        }
        assert(out@ =~= prefix + listed_html(rest, todos.filter));
    }
    assert(all.subrange(0, n as int) =~= all);
    out.append(markup::LIST_CLOSE);
    out
}

/// Renders the input for a new item.
pub fn input_frag(oob: bool) -> (res: String)
    ensures
        res@ == input_html(oob),
{
    let mut out = String::new();
    out.append(markup::INPUT_OPEN);
    push_oob(&mut out, oob);
    out.append(markup::TAG_END);
    out
}

/// Whether there are items and every one is done.
fn every_done(todos: &Todos) -> (res: bool)
    ensures
        res == all_done(todos@.items),
{
    let n = todos.items.len();
    if n == 0 {
        return false;
    }
    let mut i: usize = 0;
    while i < n
        invariant
            n == todos.items.len(),
            i <= n,
            forall|k: int| 0 <= k < i ==> #[trigger] todos@.items[k].done,
        decreases n - i,
    {
        assert(todos@.items[i as int] == todos.items@[i as int]@);
        if !todos.items[i].done {
            assert(!todos@.items[i as int].done);
            assert(todos@.items.len() == n);
            return false;
        }
        i = i + 1;
    }
    true
}

/// Renders the toggle-all checkbox.
pub fn toggleall_frag(todos: &Todos, oob: bool) -> (res: String)
    ensures
        res@ == toggleall_html(oob, todos@.items),
{
    let alldone = every_done(todos);
    let mut out = String::new();
    out.append(markup::TOGGLE_ALL_OPEN);
    push_checked(&mut out, alldone);
    out.append(markup::TOGGLE_ALL_MID);
    push_oob(&mut out, oob);
    out.append(markup::TAG_END);
    out
}

/// The number of items not done.
fn count_active(todos: &Todos) -> (res: usize)
    ensures
        res == active_count(todos@.items),
{
    let n = todos.items.len();
    let mut count: usize = 0;
    let mut i: usize = 0;
    while i < n
        invariant
            n == todos.items.len(),
            i <= n,
            count <= i,
            count == active_count(todos@.items.take(i as int)),
        decreases n - i,
    {
        assert(todos@.items.take(i + 1).drop_last() =~= todos@.items.take(i as int));
        if !todos.items[i].done {
            count = count + 1;
        }
        i = i + 1;
    }
    assert(todos@.items.take(n as int) =~= todos@.items);
    count
}

/// Renders the count of items left.
pub fn count_frag(todos: &Todos, oob: bool) -> (res: String)
    ensures
        res@ == count_html(oob, todos@.items),
{
    let len = count_active(todos);
    let mut out = String::new();
    out.append(markup::COUNT_OPEN);
    push_oob(&mut out, oob);
    out.append(markup::COUNT_NUMBER);
    push_decimal(&mut out, len as u64);
    out.append(markup::COUNT_WORD);
    if len != 1 {
        out.append(markup::PLURAL);
    } else {
        assert(out@ + when(len != 1, markup::PLURAL@) =~= out@);
    }
    out.append(markup::COUNT_CLOSE);
    out
}

/// Renders the filter radio group.
pub fn filter_frag(todos: &Todos) -> (res: String)
    ensures
        res@ == filter_html(todos.filter),
{
    let selected = todos.filter;
    let mut out = String::new();
    out.append(markup::FILTER_OPEN);
    push_checked(&mut out, selected == Filter::All);
    out.append(markup::FILTER_ACTIVE);
    push_checked(&mut out, selected == Filter::Active);
    out.append(markup::FILTER_COMPLETED);
    push_checked(&mut out, selected == Filter::Completed);
    out.append(markup::FILTER_CLOSE);
    out
}

/// Renders the whole todo section.
pub fn component(todos: &Todos) -> (res: String)
    ensures
        res@ == component_html(todos@),
{
    let mut out = tabs(Tabs::Todos);
    out.append(markup::COMPONENT_OPEN);
    let f = toggleall_frag(todos, false);
    out.append(f.as_str());
    let f = input_frag(false);
    out.append(f.as_str());
    out.append(markup::COMPONENT_MID);
    let f = items_frag(todos, false);
    out.append(f.as_str());
    out.append(markup::COMPONENT_FOOTER);
    let f = count_frag(todos, false);
    out.append(f.as_str());
    let f = filter_frag(todos);
    out.append(f.as_str());
    out.append(markup::COMPONENT_CLOSE);
    out
}

/// The routes of this section, in the order they are registered.
pub open spec fn todos_routes() -> Seq<(Seq<char>, usize)> {
    seq![
        ("/todos"@, TODOS_PAGE),
        ("/todos;nav"@, TODOS_NAV),
        ("/todos;add"@, TODOS_ADD),
        ("/todos/:id"@, TODOS_DELETE),
        ("/todos/:id/toggle"@, TODOS_TOGGLE),
        ("/todos;toggleall"@, TODOS_TOGGLE_ALL),
        ("/todos;filter=:filter"@, TODOS_FILTER),
    ]
}

/// Registers the routes of this section, handing the router back where
/// matchit accepts them all.
pub fn register(router: Router<usize>) -> (res: Result<Router<usize>, String>)
    ensures
        res is Ok <==> inserts_ok(router_routes(router), todos_routes()),
        res matches Ok(r) ==> router_routes(r) == router_routes(router) + todos_routes(),
        res matches Err(t) ==> t@ == first_refusal(router_routes(router), todos_routes()),
{
    let table: [(&str, usize); 7] = [
        ("/todos", TODOS_PAGE),
        ("/todos;nav", TODOS_NAV),
        ("/todos;add", TODOS_ADD),
        ("/todos/:id", TODOS_DELETE),
        ("/todos/:id/toggle", TODOS_TOGGLE),
        ("/todos;toggleall", TODOS_TOGGLE_ALL),
        ("/todos;filter=:filter", TODOS_FILTER),
    ];
    assert(table_view(table@) =~= todos_routes());
    insert_all(router, table.as_slice())
}

/// The state with other items.
pub open spec fn with_items(t: TodosView, items: Seq<ItemView>) -> TodosView {
    TodosView { items, inc: t.inc, filter: t.filter }
}

/// The fragments that follow every change of the items: the count and the
/// toggle-all checkbox, both out of band.
pub open spec fn status_html(items: Seq<ItemView>) -> Seq<char> {
    count_html(true, items) + toggleall_html(true, items)
}

/// The text of the new item read from a form body, or the error text.
pub open spec fn new_label(body: Seq<char>) -> Result<Seq<char>, Seq<char>> {
    match form_decode(body) {
        Err(e) => Err(e),
        Ok(pairs) => form_field_spec(pairs, "todo-new"@),
    }
}

/// Adding an item from a form body: the next id (wrapping), not done, with
/// the text of field `todo-new`; the answer is the new item, a fresh input and
/// the status.
pub open spec fn add_result(t: TodosView, body: Seq<char>) -> (TodosView, Seq<char>) {
    match new_label(body) {
        Err(e) => (t, markup::FORM_ERROR_OPEN@ + e + markup::PARA_CLOSE@),
        Ok(label) => {
            let item = ItemView { id: t.inc.wrapping_add(1), done: false, label };
            let items = t.items.push(item);
            (
                TodosView { items, inc: item.id, filter: t.filter },
                item_html(item) + input_html(true) + status_html(items),
            )
        },
    }
}

/// The index of the first item with this id.
pub open spec fn first_with_id(items: Seq<ItemView>, id: u32) -> Option<int>
    decreases items.len(),
{
    if items.len() == 0 {
        None
    } else if items[0].id == id {
        Some(0)
    } else {
        match first_with_id(items.drop_first(), id) {
            Some(k) => Some(k + 1),
            None => None,
        }
    }
}

/// The items without the first one that has this id.
pub open spec fn remove_first_id(items: Seq<ItemView>, id: u32) -> Seq<ItemView> {
    match first_with_id(items, id) {
        Some(k) => items.remove(k),
        None => items,
    }
}

/// Deleting the item named by parameter `id`; the answer is the status.
pub open spec fn delete_result(t: TodosView, params: Seq<(Seq<char>, Seq<char>)>) -> (
    TodosView,
    Seq<char>,
) {
    match param_get(params, "id"@) {
        None => (t, markup::MISSING_ID@),
        Some(s) => match parse_u32_spec(s) {
            None => (t, markup::INVALID_ID@),
            Some(id) => {
                let items = remove_first_id(t.items, id);
                (with_items(t, items), status_html(items))
            },
        },
    }
}

/// The parameters as `name=value`, one after the other.
pub open spec fn params_text(params: Seq<(Seq<char>, Seq<char>)>) -> Seq<char>
    decreases params.len(),
{
    if params.len() == 0 {
        Seq::empty()
    } else {
        params_text(params.drop_last()) + params.last().0 + markup::PARAM_EQ@ + params.last().1
    }
}

/// An item with its state flipped.
pub open spec fn flipped(item: ItemView) -> ItemView {
    ItemView { id: item.id, done: !item.done, label: item.label }
}

/// Flipping the item named by parameter `id`; the answer is the item, where
/// the filter still shows it, and the status.
pub open spec fn toggle_result(t: TodosView, params: Seq<(Seq<char>, Seq<char>)>) -> (
    TodosView,
    Seq<char>,
) {
    match param_get(params, "id"@) {
        None => (t, markup::MISSING_ID_GOT@ + params_text(params) + markup::PARA_CLOSE@),
        Some(s) => match parse_u32_spec(s) {
            None => (t, markup::INVALID_ID@),
            Some(id) => match first_with_id(t.items, id) {
                None => (t, markup::INVALID_ITEM@),
                Some(k) => {
                    let item = flipped(t.items[k]);
                    let items = t.items.update(k, item);
                    (
                        with_items(t, items),
                        when(t.filter.shows(item.done), item_html(item)) + status_html(items),
                    )
                },
            },
        },
    }
}

/// Whether every item is done (true of no items).
pub open spec fn every_item_done(items: Seq<ItemView>) -> bool {
    forall|i: int| 0 <= i < items.len() ==> #[trigger] items[i].done
}

/// The state that toggle-all gives every item: done, unless every item already is.
pub open spec fn toggle_all_target(items: Seq<ItemView>) -> bool {
    !every_item_done(items)
}

/// Every item with its state set to `done`.
pub open spec fn all_set(items: Seq<ItemView>, done: bool) -> Seq<ItemView> {
    items.map_values(|i: ItemView| ItemView { id: i.id, done, label: i.label })
}

/// Marking every item done, or every item not done where all were done; the
/// answer is the status and, where some item changed, the list.
pub open spec fn toggleall_result(t: TodosView) -> (TodosView, Seq<char>) {
    let set = toggle_all_target(t.items);
    let dirty = exists|i: int| 0 <= i < t.items.len() && #[trigger] t.items[i].done != set;
    let items = all_set(t.items, set);
    (with_items(t, items), status_html(items) + when(dirty, items_html(true, items, t.filter)))
}

/// Choosing the filter named by parameter `filter`; the answer is the radio
/// group and the list as the filter shows it.
pub open spec fn filter_result(t: TodosView, params: Seq<(Seq<char>, Seq<char>)>) -> (
    TodosView,
    Seq<char>,
) {
    match param_get(params, "filter"@) {
        None => (t, markup::MISSING_ID@),
        Some(s) => match Filter::from_name_spec(s) {
            None => (t, markup::INVALID_ID@),
            Some(f) => (
                TodosView { items: t.items, inc: t.inc, filter: f },
                filter_html(f) + items_html(true, t.items, f),
            ),
        },
    }
}

impl Filter {
    /// The filter named exactly `name` (the `FromStr` of the variant names).
    pub fn from_name(name: &str) -> (res: Option<Filter>)
        ensures
            res == Filter::from_name_spec(name@),
    {
        if str_equal(name, "All") {
            Some(Filter::All)
        } else if str_equal(name, "Active") {
            Some(Filter::Active)
        } else if str_equal(name, "Completed") {
            Some(Filter::Completed)
        } else {
            None
        }
    }
}

proof fn lemma_items_view_push(items: Seq<Item>, item: Item)
    ensures
        items_view(items.push(item)) == items_view(items).push(item@),
{
    assert(items_view(items.push(item)) =~= items_view(items).push(item@));
}

/// The index of the first item with this id.
fn find_id(todos: &Todos, id: u32) -> (res: Option<usize>)
    ensures
        match res {
            Some(k) => first_with_id(todos@.items, id) == Some(k as int) && k < todos.items.len(),
            None => first_with_id(todos@.items, id) is None,
        },
{
    let ghost all = todos@.items;
    let n = todos.items.len();
    let mut i: usize = 0;
    assert(all.skip(0) =~= all);
    while i < n
        invariant
            all == todos@.items,
            n == todos.items.len(),
            all.len() == n,
            i <= n,
            first_with_id(all, id) == match first_with_id(all.skip(i as int), id) {
                Some(k) => Some(k + i),
                None => None,
            },
        decreases n - i,
    {
        let ghost rest = all.skip(i as int);
        assert(rest[0] == todos.items@[i as int]@);
        if todos.items[i].id == id {
            return Some(i);
        }
        assert(rest.drop_first() =~= all.skip(i + 1));
        i = i + 1;
    }
    assert(all.skip(n as int) =~= Seq::<ItemView>::empty());
    None
}

impl Todos {
    /// Adds an item from the form in the body of `request`.
    pub fn hx_add(&mut self, request: &Request) -> (res: String)
        ensures
            (final(self)@, res@) == add_result(old(self)@, request.body@),
    {
        let label = match decode_form_pairs(request.body.as_str()) {
            Err(e) => {
                let mut out = String::from_str(markup::FORM_ERROR_OPEN);
                out.append(e.as_str());
                out.append(markup::PARA_CLOSE);
                return out;
            },
            Ok(pairs) => match form_field(&pairs, "todo-new") {
                Err(e) => {
                    let mut out = String::from_str(markup::FORM_ERROR_OPEN);
                    out.append(e.as_str());
                    out.append(markup::PARA_CLOSE);
                    return out;
                },
                Ok(label) => label,
            },
        };
        let id = self.inc.wrapping_add(1);
        self.inc = id;
        let item = Item { id, done: false, label };
        let frag = item_frag(&item);
        proof {
            lemma_items_view_push(self.items@, item);
        }
        self.items.push(item);
        let mut out = frag;
        let f = input_frag(true);
        out.append(f.as_str());
        let f = count_frag(self, true);
        out.append(f.as_str());
        let f = toggleall_frag(self, true);
        out.append(f.as_str());
        out
    }

    /// Deletes the first item with the id in parameter `id`.
    pub fn hx_delete(&mut self, params: &Vec<(String, String)>) -> (res: String)
        ensures
            (final(self)@, res@) == delete_result(old(self)@, params_view(params@)),
    {
        let id = match params_get(params, "id") {
            Some(s) => match parse_u32(s) {
                Some(id) => id,
                None => return String::from_str(markup::INVALID_ID),
            },
            None => return String::from_str(markup::MISSING_ID),
        };
        if let Some(index) = find_id(self, id) {
            let ghost before = self.items@;
            self.items.remove(index);
            assert(items_view(self.items@) =~= items_view(before).remove(index as int));
        }
        let mut out = count_frag(self, true);
        let f = toggleall_frag(self, true);
        out.append(f.as_str());
        out
    }

    /// Flips the first item with the id in parameter `id`.
    pub fn hx_toggle(&mut self, params: &Vec<(String, String)>) -> (res: String)
        ensures
            (final(self)@, res@) == toggle_result(old(self)@, params_view(params@)),
    {
        let id = match params_get(params, "id") {
            Some(s) => match parse_u32(s) {
                Some(id) => id,
                None => return String::from_str(markup::INVALID_ID),
            },
            None => {
                let mut out = String::from_str(markup::MISSING_ID_GOT);
                let text = params_text_of(params);
                out.append(text.as_str());
                out.append(markup::PARA_CLOSE);
                return out;
            },
        };
        let index = match find_id(self, id) {
            Some(k) => k,
            None => return String::from_str(markup::INVALID_ITEM),
        };
        let ghost before = self.items@;
        let done = !self.items[index].done;
        self.items[index].done = done;
        assert(items_view(self.items@) =~= items_view(before).update(
            index as int,
            flipped(items_view(before)[index as int]),
        ));
        let shown = match self.filter {
            Filter::All => true,
            Filter::Active => !done,
            Filter::Completed => done,
        };
        let mut out = if shown {
            item_frag(&self.items[index])
        } else {
            String::new()
        };
        let f = count_frag(self, true);
        out.append(f.as_str());
        let f = toggleall_frag(self, true);
        out.append(f.as_str());
        out
    }

    /// Marks every item done, or every item not done where all were done.
    pub fn hx_toggleall(&mut self) -> (res: String)
        ensures
            (final(self)@, res@) == toggleall_result(old(self)@),
    {
        let ghost before = self@.items;
        let n = self.items.len();
        let mut all: bool = true;
        let mut i: usize = 0;
        while i < n
            invariant
                n == self.items.len(),
                before == self@.items,
                i <= n,
                all == (forall|k: int| 0 <= k < i ==> #[trigger] before[k].done),
            decreases n - i,
        {
            assert(before[i as int] == self.items@[i as int]@);
            let ghost was = all;
            all = all && self.items[i].done;
            proof {
                if all {
                    assert forall|k: int| 0 <= k < i + 1 implies #[trigger] before[k].done by {
                        if k < i {
                            assert(was);
                        }
                    }
                } else if was {
                    assert(!before[i as int].done);
                }
            }
            i = i + 1;
        }
        let set = !all;
        assert(set == toggle_all_target(before));
        let mut dirty = false;
        let mut i: usize = 0;
        while i < n
            invariant
                n == self.items.len(),
                before.len() == n,
                set == toggle_all_target(before),
                self.inc == old(self).inc,
                self.filter == old(self).filter,
                i <= n,
                forall|k: int| 0 <= k < i ==> #[trigger] self@.items[k] == (ItemView { id: before[k].id, done: set, label: before[k].label }),
                forall|k: int| i <= k < n ==> #[trigger] self@.items[k] == before[k],
                dirty == (exists|k: int| 0 <= k < i && #[trigger] before[k].done != set),
            decreases n - i,
        {
            let ghost prev = self@.items;
            assert(prev[i as int] == before[i as int]);
            assert(self.items@[i as int]@ == prev[i as int]);
            let ghost was = dirty;
            dirty = dirty || self.items[i].done != set;
            self.items[i].done = set;
            assert(self@.items =~= prev.update(
                i as int,
                ItemView { id: before[i as int].id, done: set, label: before[i as int].label },
            ));
            proof {
                if dirty && !was {
                    assert(before[i as int].done != set);
                }
            }
            i = i + 1;
        }
        assert(self@.items =~= all_set(before, set));
        let mut out = count_frag(self, true);
        let f = toggleall_frag(self, true);
        out.append(f.as_str());
        if dirty {
            let f = items_frag(self, true);
            out.append(f.as_str());
        } else {
            assert(out@ + when(dirty, items_html(true, self@.items, self.filter)) =~= out@);
        }
        out
    }

    /// Chooses the filter named by parameter `filter`.
    pub fn hx_filter(&mut self, params: &Vec<(String, String)>) -> (res: String)
        ensures
            (final(self)@, res@) == filter_result(old(self)@, params_view(params@)),
    {
        let filter = match params_get(params, "filter") {
            Some(s) => match Filter::from_name(s) {
                Some(f) => f,
                None => return String::from_str(markup::INVALID_ID),
            },
            None => return String::from_str(markup::MISSING_ID),
        };
        self.filter = filter;
        let mut out = filter_frag(self);
        let f = items_frag(self, true);
        out.append(f.as_str());
        out
    }
}

proof fn lemma_first_with_id_update(items: Seq<ItemView>, id: u32, k: int, item: ItemView)
    requires
        0 <= k < items.len(),
        item.id == items[k].id,
    ensures
        first_with_id(items.update(k, item), id) == first_with_id(items, id),
    decreases items.len(),
{
    if k > 0 {
        assert(items.update(k, item).drop_first() =~= items.drop_first().update(k - 1, item));
        lemma_first_with_id_update(items.drop_first(), id, k - 1, item);
    } else {
        assert(items.update(k, item).drop_first() =~= items.drop_first());
    }
}

proof fn lemma_first_with_id_found(items: Seq<ItemView>, id: u32)
    ensures
        first_with_id(items, id) matches Some(k) ==> 0 <= k < items.len() && items[k].id == id,
        first_with_id(items, id) is None ==> forall|i: int|
            0 <= i < items.len() ==> #[trigger] items[i].id != id,
    decreases items.len(),
{
    if items.len() > 0 {
        lemma_first_with_id_found(items.drop_first(), id);
        if first_with_id(items, id) is None {
            assert forall|i: int| 0 <= i < items.len() implies #[trigger] items[i].id != id by {
                if i > 0 {
                    assert(items[i] == items.drop_first()[i - 1]);
                }
            }
        }
    }
}

proof fn lemma_first_with_id_push(items: Seq<ItemView>, item: ItemView)
    requires
        forall|i: int| 0 <= i < items.len() ==> #[trigger] items[i].id != item.id,
    ensures
        first_with_id(items.push(item), item.id) == Some(items.len() as int),
    decreases items.len(),
{
    if items.len() > 0 {
        assert(items.push(item).drop_first() =~= items.drop_first().push(item));
        assert forall|i: int| 0 <= i < items.drop_first().len() implies #[trigger] items.drop_first()[i].id
            != item.id by {
            assert(items.drop_first()[i] == items[i + 1]);
        }
        lemma_first_with_id_push(items.drop_first(), item);
    }
}

/// Flipping the same item twice gives back the list as it was: toggling with
/// the same parameters twice leaves the todo list unchanged.
pub proof fn lemma_toggle_twice(t: TodosView, params: Seq<(Seq<char>, Seq<char>)>)
    ensures
        toggle_result(toggle_result(t, params).0, params).0 == t,
{
    let once = toggle_result(t, params).0;
    if let Some(s) = param_get(params, "id"@) {
        if let Some(id) = parse_u32_spec(s) {
            if let Some(k) = first_with_id(t.items, id) {
                lemma_first_with_id_found(t.items, id);
                let item = flipped(t.items[k]);
                lemma_first_with_id_update(t.items, id, k, item);
                assert(once.items[k] == item);
                assert(once.items.update(k, flipped(once.items[k])) =~= t.items);
            }
        }
    }
}

/// A new item can be deleted again through the id in its links: adding an
/// item and then deleting the id it was given leaves the items as they were,
/// where no older item already had that id.
pub proof fn lemma_add_then_delete(t: TodosView, body: Seq<char>)
    requires
        new_label(body) is Ok,
        forall|i: int| 0 <= i < t.items.len() ==> #[trigger] t.items[i].id != t.inc.wrapping_add(1),
    ensures
        delete_result(
            add_result(t, body).0,
            seq![("id"@, decimal(t.inc.wrapping_add(1) as nat))],
        ).0.items == t.items,
{
    let id = t.inc.wrapping_add(1);
    let added = add_result(t, body).0;
    let item = ItemView { id, done: false, label: new_label(body)->Ok_0 };
    assert(added.items == t.items.push(item));
    crate::text::lemma_parse_decimal(id);
    lemma_first_with_id_push(t.items, item);
    assert(t.items.push(item).remove(t.items.len() as int) =~= t.items);
}

/// Adding an item appends it, not done, under the next id, and so leaves one
/// more item to do.
pub proof fn lemma_add_counts(t: TodosView, body: Seq<char>)
    requires
        new_label(body) is Ok,
    ensures
        add_result(t, body).0.items.len() == t.items.len() + 1,
        add_result(t, body).0.items.drop_last() == t.items,
        add_result(t, body).0.items.last().id == t.inc.wrapping_add(1),
        !add_result(t, body).0.items.last().done,
        active_count(add_result(t, body).0.items) == active_count(t.items) + 1,
{
    let after = add_result(t, body).0.items;
    assert(after.drop_last() =~= t.items);
}

/// Toggle-all marks every item done where some item was not done, and every
/// item not done where all of them were done; ids, labels, order, the filter
/// and the last id stay. So the count then shows none left, or all of them,
/// and the toggle-all box is checked exactly in the first case.
pub proof fn lemma_toggleall_effect(t: TodosView)
    ensures
        toggleall_result(t).0.items.len() == t.items.len(),
        toggleall_result(t).0.filter == t.filter,
        toggleall_result(t).0.inc == t.inc,
        forall|i: int|
            0 <= i < t.items.len() ==> #[trigger] toggleall_result(t).0.items[i].id == t.items[i].id
                && toggleall_result(t).0.items[i].label == t.items[i].label,
        (exists|i: int| 0 <= i < t.items.len() && !#[trigger] t.items[i].done) ==> {
            &&& forall|j: int|
                0 <= j < t.items.len() ==> #[trigger] toggleall_result(t).0.items[j].done
            &&& active_count(toggleall_result(t).0.items) == 0
            &&& all_done(toggleall_result(t).0.items)
        },
        (forall|i: int| 0 <= i < t.items.len() ==> #[trigger] t.items[i].done) ==> {
            &&& forall|j: int|
                0 <= j < t.items.len() ==> !#[trigger] toggleall_result(t).0.items[j].done
            &&& active_count(toggleall_result(t).0.items) == t.items.len()
            &&& !all_done(toggleall_result(t).0.items)
        },
{
    let items = toggleall_result(t).0.items;
    lemma_active_count_uniform(items, toggle_all_target(t.items));
    if exists|i: int| 0 <= i < t.items.len() && !#[trigger] t.items[i].done {
        let i = choose|i: int| 0 <= i < t.items.len() && !#[trigger] t.items[i].done;
        assert(!every_item_done(t.items));
        assert(items[i].done);
    }
}

/// Toggling an item found by the `id` parameter flips that item alone and
/// keeps the filter; the answer starts with the item's new fragment exactly
/// when the current filter lists the new state (every state under "All", a
/// not-done item under "Active", a done item under "Completed"), and is
/// otherwise only the count and toggle-all box.
pub proof fn lemma_toggle_answer(t: TodosView, params: Seq<(Seq<char>, Seq<char>)>, id: u32, k: int)
    requires
        param_get(params, "id"@) matches Some(s) && parse_u32_spec(s) == Some(id),
        first_with_id(t.items, id) == Some(k),
    ensures
        0 <= k < t.items.len(),
        toggle_result(t, params).0.filter == t.filter,
        toggle_result(t, params).0.items.len() == t.items.len(),
        toggle_result(t, params).0.items[k].done == !t.items[k].done,
        toggle_result(t, params).0.items[k].id == t.items[k].id,
        toggle_result(t, params).0.items[k].label == t.items[k].label,
        forall|j: int|
            0 <= j < t.items.len() && j != k ==> #[trigger] toggle_result(t, params).0.items[j]
                == t.items[j],
        (t.filter == Filter::All || (t.filter == Filter::Active && t.items[k].done) || (t.filter
            == Filter::Completed && !t.items[k].done)) ==> toggle_result(t, params).1 == item_html(
            toggle_result(t, params).0.items[k],
        ) + status_html(toggle_result(t, params).0.items),
        !(t.filter == Filter::All || (t.filter == Filter::Active && t.items[k].done) || (t.filter
            == Filter::Completed && !t.items[k].done)) ==> toggle_result(t, params).1
            == status_html(toggle_result(t, params).0.items),
{
    lemma_first_with_id_found(t.items, id);
    let r = toggle_result(t, params);
    if !(t.filter == Filter::All || (t.filter == Filter::Active && t.items[k].done) || (t.filter
        == Filter::Completed && !t.items[k].done)) {
        assert(r.1 =~= status_html(r.0.items));
    }
}

/// Each filter is chosen by its own variant name, the name that its radio
/// button posts: choosing it sets that filter and keeps the items.
pub proof fn lemma_filter_names(t: TodosView)
    ensures
        Filter::from_name_spec("All"@) == Some(Filter::All),
        Filter::from_name_spec("Active"@) == Some(Filter::Active),
        Filter::from_name_spec("Completed"@) == Some(Filter::Completed),
        filter_result(t, seq![("filter"@, "All"@)]).0.filter == Filter::All,
        filter_result(t, seq![("filter"@, "Active"@)]).0.filter == Filter::Active,
        filter_result(t, seq![("filter"@, "Completed"@)]).0.filter == Filter::Completed,
        filter_result(t, seq![("filter"@, "All"@)]).0.items == t.items,
        filter_result(t, seq![("filter"@, "Active"@)]).0.items == t.items,
        filter_result(t, seq![("filter"@, "Completed"@)]).0.items == t.items,
{
    reveal_strlit("All");
    reveal_strlit("Active");
    reveal_strlit("Completed");
    assert("Active"@.len() != "All"@.len());
    assert("Completed"@.len() != "All"@.len());
    assert("Completed"@.len() != "Active"@.len());
}

/// A list under "Active" shows no item when every item is done, and a list
/// under "Completed" shows none when no item is done.
pub proof fn lemma_listed_filters(items: Seq<ItemView>)
    ensures
        (forall|i: int| 0 <= i < items.len() ==> #[trigger] items[i].done) ==> listed_html(
            items,
            Filter::Active,
        ) == Seq::<char>::empty(),
        (forall|i: int| 0 <= i < items.len() ==> !#[trigger] items[i].done) ==> listed_html(
            items,
            Filter::Completed,
        ) == Seq::<char>::empty(),
    decreases items.len(),
{
    if items.len() > 0 {
        let rest = items.drop_first();
        assert forall|i: int| 0 <= i < rest.len() implies #[trigger] rest[i] == items[i + 1] by {}
        lemma_listed_filters(rest);
        if forall|i: int| 0 <= i < items.len() ==> #[trigger] items[i].done {
            assert(items[0].done);
            assert(listed_html(items, Filter::Active) =~= listed_html(rest, Filter::Active));
        }
        if forall|i: int| 0 <= i < items.len() ==> !#[trigger] items[i].done {
            assert(!items[0].done);
            assert(listed_html(items, Filter::Completed) =~= listed_html(rest, Filter::Completed));
        }
    }
}

/// The todo section holds the item list under the section's own filter: the
/// same list that choosing that filter sends back.
pub proof fn lemma_component_list(t: TodosView)
    ensures
        exists|before: Seq<char>, after: Seq<char>|
            component_html(t) == before + items_html(false, t.items, t.filter) + after,
{
    let before = tabs_html(Tabs::Todos) + markup::COMPONENT_OPEN@ + toggleall_html(false, t.items)
        + input_html(false) + markup::COMPONENT_MID@;
    let after = markup::COMPONENT_FOOTER@ + count_html(false, t.items) + filter_html(t.filter)
        + markup::COMPONENT_CLOSE@;
    assert(component_html(t) =~= before + items_html(false, t.items, t.filter) + after);
}

/// After toggle-all every item is in the same state, the one that
/// `toggle_all_target` names, and the count of items left follows from it.
pub proof fn lemma_toggleall_uniform(t: TodosView)
    ensures
        toggleall_result(t).0.items.len() == t.items.len(),
        forall|i: int|
            0 <= i < t.items.len() ==> #[trigger] toggleall_result(t).0.items[i].done
                == toggle_all_target(t.items),
        active_count(toggleall_result(t).0.items) == if toggle_all_target(t.items) {
            0
        } else {
            t.items.len()
        },
{
    let items = toggleall_result(t).0.items;
    lemma_active_count_uniform(items, toggle_all_target(t.items));
}

proof fn lemma_active_count_uniform(items: Seq<ItemView>, done: bool)
    requires
        forall|i: int| 0 <= i < items.len() ==> #[trigger] items[i].done == done,
    ensures
        active_count(items) == if done {
            0
        } else {
            items.len()
        },
    decreases items.len(),
{
    if items.len() > 0 {
        let rest = items.drop_last();
        assert forall|i: int| 0 <= i < rest.len() implies #[trigger] rest[i].done == done by {
            assert(rest[i] == items[i]);
        }
        lemma_active_count_uniform(rest, done);
    }
}

/// Deleting removes exactly the first item with the id, where there is one,
/// and keeps the others in order; where none has it, nothing changes.
pub proof fn lemma_delete_removes_one(items: Seq<ItemView>, id: u32)
    ensures
        first_with_id(items, id) matches Some(k) ==> remove_first_id(items, id) == items.remove(k)
            && items[k].id == id && remove_first_id(items, id).len() + 1 == items.len(),
        first_with_id(items, id) is None ==> remove_first_id(items, id) == items && forall|i: int|
            0 <= i < items.len() ==> #[trigger] items[i].id != id,
{
    lemma_first_with_id_found(items, id);
}

/// The parameters as `name=value`, one after the other.
fn params_text_of(params: &Vec<(String, String)>) -> (res: String)
    ensures
        res@ == params_text(params_view(params@)),
{
    let ghost all = params_view(params@);
    let mut out = String::new();
    let mut i: usize = 0;
    assert(all.take(0) =~= Seq::<(Seq<char>, Seq<char>)>::empty());
    while i < params.len()
        invariant
            all == params_view(params@),
            i <= params.len(),
            out@ == params_text(all.take(i as int)),
        decreases params.len() - i,
    {
        assert(all.take(i + 1).drop_last() =~= all.take(i as int));
        assert(all.take(i + 1).last() == (params@[i as int].0@, params@[i as int].1@));
        out.append(params[i].0.as_str());
        out.append(markup::PARAM_EQ);
        out.append(params[i].1.as_str());
        i = i + 1;
    }
    assert(all.take(i as int) =~= all);
    out
}

} // verus!
