//! Event dispatch. The host environment delivers an input event to a node by
//! identity; the node's listener bag names the [`Action`] to run; the action
//! reads at most the editable value of the node it fired on and mutates the
//! state store through its setters, marking it dirty. Handlers never render:
//! rendering is driven exclusively by the frame tick.

use vstd::prelude::*;
use crate::observable::{AppState, TodoItem};
use crate::html::{Action, VNodeView, listener_keys_unique, lemma_view_at, lemma_view_domain};
use crate::host::{HostDoc, HostView, doc_view, wf_doc, find_node};
use crate::reconcile::{spec_build, vnode_find};

verus! {

/// The largest item identity in use, `0` for an empty list.
pub open spec fn spec_max_id(s: Seq<TodoItem>) -> nat
    decreases s,
{
    if s.len() == 0 {
        0
    } else {
        let rest = spec_max_id(s.drop_last());
        if s.last().id > rest {
            s.last().id as nat
        } else {
            rest
        }
    }
}

/// The item list after flipping the `editing` flag of every item carrying
/// `id`: all other fields and items stay as they were.
pub open spec fn items_toggle_rel(s0: Seq<TodoItem>, s1: Seq<TodoItem>, id: u64) -> bool {
    s1.len() == s0.len() && forall|i: int|
        0 <= i < s0.len() ==> s1[i] == (TodoItem {
            editing: if s0[i].id == id {
                !s0[i].editing
            } else {
                s0[i].editing
            },
            ..#[trigger] s0[i]
        })
}

/// The item list after renaming every item carrying `id` to `name`: all other
/// fields and items stay as they were.
pub open spec fn items_rename_rel(s0: Seq<TodoItem>, s1: Seq<TodoItem>, id: u64, name: Seq<char>) -> bool {
    s1.len() == s0.len() && forall|i: int|
        0 <= i < s0.len() ==> {
            &&& (#[trigger] s1[i]).id == s0[i].id
            &&& s1[i].editing == s0[i].editing
            &&& (s0[i].id == id ==> s1[i].name@ == name)
            &&& (s0[i].id != id ==> s1[i] == s0[i])
        }
}

/// What running an action does to the store. `value` is the current textual
/// value of the node the event fired on; only the input-style actions read
/// it. Every action marks the store changed.
pub open spec fn apply_rel(s0: AppState, s1: AppState, a: Action, value: Seq<char>) -> bool {
    &&& s1.changed == true
    &&& match a {
        Action::ToggleEditing(id) => {
            &&& s1.count == s0.count
            &&& s1.new_item_name == s0.new_item_name
            &&& items_toggle_rel(s0.items@, s1.items@, id)
        },
        Action::EditItem(id) => {
            &&& s1.count == s0.count
            &&& s1.new_item_name == s0.new_item_name
            &&& items_rename_rel(s0.items@, s1.items@, id, value)
        },
        Action::EditNewItemName => {
            &&& s1.count == s0.count
            &&& s1.items == s0.items
            &&& s1.new_item_name@ == value
        },
        Action::AddItem => {
            &&& s1.count == s0.count
            &&& s1.items@ == s0.items@.push(
                TodoItem {
                    id: (spec_max_id(s0.items@) + 1) as u64,
                    name: s0.new_item_name,
                    editing: false,
                },
            )
            &&& s1.new_item_name@ == "Item Name"@
        },
        Action::Increment => {
            &&& s1.count == s0.count + 1
            &&& s1.items == s0.items
            &&& s1.new_item_name == s0.new_item_name
        },
    }
}

/// Copy an item list; items are plain values, so the copy equals its source
/// exactly.
fn clone_items(v: &Vec<TodoItem>) -> (r: Vec<TodoItem>)
    ensures
        r@ == v@,
{
    let n = v.len();
    let mut r: Vec<TodoItem> = Vec::new();
    let mut i: usize = 0;
    while i < n
        invariant
            n == v@.len(),
            i <= n,
            r@ =~= v@.take(i as int),
        decreases n - i,
    {
        let it = &v[i];
        r.push(TodoItem { id: it.id, name: it.name.clone(), editing: it.editing });
        proof {
            assert(r@ =~= v@.take(i as int + 1));
        }
        i = i + 1;
    }
    proof {
        assert(v@.take(n as int) =~= v@);
    }
    r
}

/// The largest item identity in use.
fn max_item_id(v: &Vec<TodoItem>) -> (m: u64)
    ensures
        m as nat == spec_max_id(v@),
{
    let n = v.len();
    let mut m: u64 = 0;
    let mut i: usize = 0;
    while i < n
        invariant
            n == v@.len(),
            i <= n,
            m as nat == spec_max_id(v@.take(i as int)),
        decreases n - i,
    {
        proof {
            assert(v@.take(i as int + 1).drop_last() =~= v@.take(i as int));
            assert(v@.take(i as int + 1).last() == v@[i as int]);
        }
        if v[i].id > m {
            m = v[i].id;
        }
        i = i + 1;
    }
    proof {
        assert(v@.take(n as int) =~= v@);
    }
    m
}

/// Run an action against the store: the handler body of the listener that
/// named it. `value` is the current textual value of the node the event fired
/// on.
pub fn apply_action(state: &mut AppState, a: Action, value: &String)
    requires
        a is AddItem ==> spec_max_id(old(state).items@) < u64::MAX,
        a is Increment ==> old(state).count < u64::MAX,
    ensures
        apply_rel(*old(state), *final(state), a, value@),
{
    match a {
        Action::ToggleEditing(id) => {
            let n = state.items.len();
            let mut out: Vec<TodoItem> = Vec::new();
            let mut i: usize = 0;
            while i < n
                invariant
                    n == state.items@.len(),
                    i <= n,
                    *state == *old(state),
                    out@.len() == i,
                    forall|j: int|
                        0 <= j < i ==> out@[j] == (TodoItem {
                            editing: if state.items@[j].id == id {
                                !state.items@[j].editing
                            } else {
                                state.items@[j].editing
                            },
                            ..#[trigger] state.items@[j]
                        }),
                decreases n - i,
            {
                let it = &state.items[i];
                let flipped: bool = if it.id == id {
                    !it.editing
                } else {
                    it.editing
                };
                out.push(TodoItem { id: it.id, name: it.name.clone(), editing: flipped });
                i = i + 1;
            }
            state.set_items(out);
        },
        Action::EditItem(id) => {
            let n = state.items.len();
            let mut out: Vec<TodoItem> = Vec::new();
            let mut i: usize = 0;
            while i < n
                invariant
                    n == state.items@.len(),
                    i <= n,
                    *state == *old(state),
                    out@.len() == i,
                    forall|j: int|
                        0 <= j < i ==> {
                            &&& (#[trigger] out@[j]).id == state.items@[j].id
                            &&& out@[j].editing == state.items@[j].editing
                            &&& (state.items@[j].id == id ==> out@[j].name@ == value@)
                            &&& (state.items@[j].id != id ==> out@[j] == state.items@[j])
                        },
                decreases n - i,
            {
                let it = &state.items[i];
                let name: String = if it.id == id {
                    value.clone()
                } else {
                    it.name.clone()
                };
                out.push(TodoItem { id: it.id, name, editing: it.editing });
                i = i + 1;
            }
            state.set_items(out);
        },
        Action::EditNewItemName => {
            state.set_new_item_name(value.clone());
        },
        Action::AddItem => {
            let max_id = max_item_id(&state.items);
            let name = state.get_new_item_name().clone();
            let mut out = clone_items(&state.items);
            out.push(TodoItem { id: max_id + 1, name, editing: false });
            state.set_items(out);
            state.set_new_item_name(String::from_str("Item Name"));
        },
        Action::Increment => {
            let c = state.get_count();
            state.set_count(c + 1);
        },
    }
}

/// What firing `ev` at the node with identity `id` does against this tree:
/// the action the node's bag names for the event, paired with the node's
/// current textual value, or nothing when the identity is absent or its bag
/// has no entry for the event.
pub open spec fn spec_fire(root: Option<HostView>, id: Seq<char>, ev: Seq<char>) -> Option<
    (Action, Seq<char>),
> {
    match root {
        None => None,
        Some(r) => match crate::host::spec_find(r, id) {
            None => None,
            Some(n) => if n.listeners.contains_key(ev) {
                Some((n.listeners[ev], n.value))
            } else {
                None
            },
        },
    }
}

/// Deliver an input event to the node with identity `target_id`: run the
/// handler its bag names for `event`, if any, against the store. Reports
/// whether a handler ran; an event with no handler has no effect at all.
#[verifier::loop_isolation(false)]
pub fn dispatch_event(doc: &HostDoc, state: &mut AppState, target_id: &String, event: &String) -> (fired:
    bool)
    requires
        wf_doc(*doc),
        spec_max_id(old(state).items@) < u64::MAX,
        old(state).count < u64::MAX,
    ensures
        match spec_fire(doc_view(*doc), target_id@, event@) {
            None => !fired && *final(state) == *old(state),
            Some(av) => fired && apply_rel(*old(state), *final(state), av.0, av.1),
        },
{
    let root = match &doc.root {
        None => {
            return false;
        },
        Some(r) => r,
    };
    let node = match find_node(root, target_id) {
        None => {
            return false;
        },
        Some(n) => n,
    };
    let bag = &node.listeners;
    let n = bag.len();
    let mut i: usize = 0;
    while i < n
        invariant
            n == bag@.len(),
            i <= n,
            *state == *old(state),
            listener_keys_unique(bag@),
            forall|j: int| 0 <= j < i ==> (#[trigger] bag@[j]).0@ != event@,
        decreases n - i,
    {
        if bag[i].0 == *event {
            let a = bag[i].1;
            proof {
                lemma_view_at(bag@, i as int);
            }
            apply_action(state, a, &node.value);
            return true;
        }
        i = i + 1;
    }
    proof {
        lemma_view_domain(bag@, event@);
    }
    false
}

/// Listener replacement, seen from dispatch: after a pass over `v`, firing an
/// event at a node delivers exactly what the new tree's bag for that node
/// names — an event absent from the new bag does nothing (old handlers are
/// gone), an event present in it delivers the new handler and the node's
/// fresh value, never an accumulation of old and new.
pub proof fn lemma_listener_replacement(
    prev: Option<HostView>,
    v: VNodeView,
    id: Seq<char>,
    ev: Seq<char>,
)
    ensures
        match vnode_find(v, id) {
            None => spec_fire(Some(spec_build(prev, v).0), id, ev) is None,
            Some(u) => spec_fire(Some(spec_build(prev, v).0), id, ev) == (if u.listeners.contains_key(
                ev,
            ) {
                Some((u.listeners[ev], u.text))
            } else {
                None::<(Action, Seq<char>)>
            }),
        },
{
    crate::reconcile::lemma_find_build(prev, v, id);
}

} // verus!
