//! The observable state store: a fixed set of named fields with typed get/set
//! accessors and a `changed` flag that every mutation sets and that only the
//! frame tick consumes.

use vstd::prelude::*;

verus! {

/// One entry of the application's todo list.
#[derive(Debug)]
pub struct TodoItem {
    pub id: u64,
    pub name: String,
    pub editing: bool,
}

/// The application state: a fixed, statically known set of fields plus the
/// dirty flag. Every `set_<field>` marks the store changed; reads never clear
/// the flag; only [`AppState::consume_dirty`] does.
#[derive(Debug)]
pub struct AppState {
    pub count: u64,
    pub items: Vec<TodoItem>,
    pub new_item_name: String,
    pub changed: bool,
}

/// The state a setter leaves behind: the field replaced, the store dirty.
pub open spec fn spec_set_count(s: AppState, v: u64) -> AppState {
    AppState { count: v, changed: true, ..s }
}

/// See [`spec_set_count`].
pub open spec fn spec_set_items(s: AppState, v: Vec<TodoItem>) -> AppState {
    AppState { items: v, changed: true, ..s }
}

/// See [`spec_set_count`].
pub open spec fn spec_set_new_item_name(s: AppState, v: String) -> AppState {
    AppState { new_item_name: v, changed: true, ..s }
}

/// What [`AppState::consume_dirty`] does: clear the flag, report its old value.
pub open spec fn spec_consume_dirty(s: AppState) -> (AppState, bool) {
    (AppState { changed: false, ..s }, s.changed)
}

impl AppState {
    /// The state at application start: one sample item, a placeholder entry
    /// name, a zero counter, and the store already dirty so that the first
    /// frame renders.
    pub fn new() -> (s: AppState)
        ensures
            s.count == 0,
            s.items@.len() == 1,
            s.items@[0].id == 1,
            s.items@[0].name@ == "Testing!"@,
            s.items@[0].editing == false,
            s.new_item_name@ == "Item Name"@,
            s.changed == true,
    {
        let mut items: Vec<TodoItem> = Vec::new();
        items.push(TodoItem { id: 1, name: String::from_str("Testing!"), editing: false });
        AppState {
            count: 0,
            items,
            new_item_name: String::from_str("Item Name"),
            changed: true,
        }
    }

    /// Read the counter field; reading never touches the dirty flag.
    pub fn get_count(&self) -> (r: u64)
        ensures
            r == self.count,
    {
        self.count
    }

    /// Replace the counter field and mark the store changed.
    pub fn set_count(&mut self, v: u64)
        ensures
            *final(self) == spec_set_count(*old(self), v),
    {
        self.count = v;
        self.changed = true;
    }

    /// Read the todo list; reading never touches the dirty flag.
    pub fn get_items(&self) -> (r: &Vec<TodoItem>)
        ensures
            *r == self.items,
    {
        &self.items
    }

    /// Replace the todo list and mark the store changed.
    pub fn set_items(&mut self, v: Vec<TodoItem>)
        ensures
            *final(self) == spec_set_items(*old(self), v),
    {
        self.items = v;
        self.changed = true;
    }

    /// Read the pending entry name; reading never touches the dirty flag.
    pub fn get_new_item_name(&self) -> (r: &String)
        ensures
            *r == self.new_item_name,
    {
        &self.new_item_name
    }

    /// Replace the pending entry name and mark the store changed.
    pub fn set_new_item_name(&mut self, v: String)
        ensures
            *final(self) == spec_set_new_item_name(*old(self), v),
    {
        self.new_item_name = v;
        self.changed = true;
    }

    /// Atomically read and clear the dirty flag; the frame tick calls this
    /// exactly once per frame, before any render.
    pub fn consume_dirty(&mut self) -> (was: bool)
        ensures
            (*final(self), was) == spec_consume_dirty(*old(self)),
    {
        let was = self.changed;
        self.changed = false;
        was
    }
}

/// Dirty-flag round trip: in the state any `set_<field>` leaves behind,
/// consuming the dirty flag reports `true` exactly once; consuming it again
/// immediately reports `false`.
pub proof fn lemma_dirty_round_trip(s: AppState)
    requires
        s.changed,
    ensures
        spec_consume_dirty(s).1 == true,
        spec_consume_dirty(spec_consume_dirty(s).0).1 == false,
{
}

} // verus!
