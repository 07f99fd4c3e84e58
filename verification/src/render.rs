//! The application render functions: each builds, from the current state, a
//! fresh virtual tree for one part of the UI. Nodes that must keep their host
//! identity across renders — every node of these trees — are pinned with keyed
//! identities derived from the entity they show, so the reconciler updates
//! them in place instead of recreating them.

use vstd::prelude::*;
use crate::html::{Action, HtmlElement, VNodeView, vnode_view, vnode_view_seq, wf_tree, listeners_view, lemma_vnode_view_seq_index};
use crate::ident::{
    IdGen,
    spec_keyed,
    spec_decimal,
    u64_to_string,
    lemma_decimal_len_pos,
    lemma_decimal_starts_with_digit,
};
use crate::observable::{AppState, TodoItem};
use crate::reconcile::{
    spec_node_count,
    spec_node_count_seq,
    spec_build,
    spec_build_seq,
    spec_reused,
    vnode_find,
    vnode_find_seq,
    lemma_vnode_find_seq_at,
    lemma_vnode_find_seq_none,
};
use crate::host::HostView;

verus! {

/// A childless, listenerless node with these identity, tag and text, and
/// empty class and style.
pub open spec fn is_leaf(n: VNodeView, id: Seq<char>, tag: Seq<char>, text: Seq<char>) -> bool {
    &&& n.id == id
    &&& n.tag == tag
    &&& n.text == text
    &&& n.class == ""@
    &&& n.style == ""@
    &&& n.listeners == Map::<Seq<char>, Action>::empty()
    &&& n.children.len() == 0
}

/// A button with this identity and caption whose only listener runs `a` on
/// `click`.
pub open spec fn is_button(n: VNodeView, id: Seq<char>, text: Seq<char>, a: Action) -> bool {
    &&& n.id == id
    &&& n.tag == "button"@
    &&& n.text == text
    &&& n.class == ""@
    &&& n.style == ""@
    &&& n.listeners == map!["click"@ => a]
    &&& n.children.len() == 0
}

/// An editable input node with this identity, showing `text`, running `a` on
/// every `input` and `keyup` event.
pub open spec fn is_input(n: VNodeView, id: Seq<char>, text: Seq<char>, a: Action) -> bool {
    &&& n.id == id
    &&& n.tag == "textarea"@
    &&& n.text == text
    &&& n.class == ""@
    &&& n.style == ""@
    &&& n.listeners == map!["input"@ => a, "keyup"@ => a]
    &&& n.children.len() == 0
}

/// A plain container node: a `div` with no text, class, style or listeners
/// of its own, only children.
pub open spec fn is_box(n: VNodeView, id: Seq<char>) -> bool {
    &&& n.id == id
    &&& n.tag == "div"@
    &&& n.text == ""@
    &&& n.class == ""@
    &&& n.style == ""@
    &&& n.listeners == Map::<Seq<char>, Action>::empty()
}

/// The editor node a todo item in editing mode shows: an editable input keyed
/// by the item's identity, holding the item's name, feeding every keystroke
/// back into that item's name.
pub open spec fn is_item_edit(n: VNodeView, it: TodoItem) -> bool {
    is_input(
        n,
        spec_keyed("item_"@ + spec_decimal(it.id as nat)),
        it.name@,
        Action::EditItem(it.id),
    )
}

/// The read-only name display of a todo item.
pub open spec fn is_item_text(n: VNodeView, it: TodoItem) -> bool {
    is_leaf(n, spec_keyed("item_text_"@ + spec_decimal(it.id as nat)), "p"@, it.name@)
}

/// The subtree rendered for one todo item: a keyed box holding the name
/// display (or the editor, when the item is in editing mode) and a button
/// that flips the item's editing mode, captioned accordingly.
pub open spec fn is_item_tree(n: VNodeView, it: TodoItem) -> bool {
    &&& is_box(n, spec_keyed("item_box_"@ + spec_decimal(it.id as nat)))
    &&& n.children.len() == 2
    &&& (it.editing ==> is_item_edit(n.children[0], it))
    &&& (!it.editing ==> is_item_text(n.children[0], it))
    &&& is_button(
        n.children[1],
        spec_keyed("item_btn_"@ + spec_decimal(it.id as nat)),
        if it.editing {
            "Save"@
        } else {
            "Edit"@
        },
        Action::ToggleEditing(it.id),
    )
}

/// The subtree for adding an item: a heading, an editable input holding the
/// pending entry name, and a button that appends the new item.
pub open spec fn is_add_tree(n: VNodeView, pending: Seq<char>) -> bool {
    &&& is_box(n, spec_keyed("add_box"@))
    &&& n.children.len() == 3
    &&& is_leaf(n.children[0], spec_keyed("add_title"@), "h3"@, "Add item"@)
    &&& is_input(n.children[1], spec_keyed("add_input"@), pending, Action::EditNewItemName)
    &&& is_button(n.children[2], spec_keyed("add_btn"@), "+"@, Action::AddItem)
}

/// The whole todo UI: a heading, one subtree per item in order, and the
/// add-item subtree.
pub open spec fn is_todo_tree(n: VNodeView, items: Seq<TodoItem>, pending: Seq<char>) -> bool {
    &&& is_box(n, spec_keyed("root"@))
    &&& n.children.len() == 3
    &&& is_leaf(n.children[0], spec_keyed("title"@), "h1"@, "Todo List"@)
    &&& is_box(n.children[1], spec_keyed("items"@))
    &&& n.children[1].children.len() == items.len()
    &&& (forall|i: int|
        0 <= i < items.len() ==> is_item_tree(#[trigger] n.children[1].children[i], items[i]))
    &&& is_add_tree(n.children[2], pending)
}

/// The counter UI: a text node announcing the count, and a button that
/// increments it.
pub open spec fn is_counter_tree(n: VNodeView, count: nat) -> bool {
    &&& is_box(n, spec_keyed("counter"@))
    &&& n.children.len() == 2
    &&& is_leaf(
        n.children[0],
        spec_keyed("counter_text"@),
        "p"@,
        "The current count is "@ + spec_decimal(count) + "!"@,
    )
    &&& is_button(n.children[1], spec_keyed("counter_btn"@), "+1"@, Action::Increment)
}

/// Re-rendering the counter UI reuses every host node: whatever the counts
/// shown before and after, the second pass resolves all three keyed
/// identities in the first pass's output with matching tags, so it creates
/// nothing and updates all three nodes in place.
pub proof fn lemma_counter_rerender_reuses_all(
    prev: Option<crate::host::HostView>,
    t1: VNodeView,
    t2: VNodeView,
    c1: nat,
    c2: nat,
)
    requires
        is_counter_tree(t1, c1),
        is_counter_tree(t2, c2),
    ensures
        crate::reconcile::spec_build(Some(crate::reconcile::spec_build(prev, t1).0), t2).1 == 0,
        crate::reconcile::spec_build(Some(crate::reconcile::spec_build(prev, t1).0), t2).2 == 3,
{
    let b1 = crate::reconcile::spec_build(prev, t1).0;
    let old2 = Some(b1);
    let u0 = t2.children[0];
    let u1 = t2.children[1];
    reveal_strlit("counter");
    reveal_strlit("counter_text");
    reveal_strlit("counter_btn");
    reveal_strlit("unique_key_");
    crate::reconcile::lemma_build_seq_index(prev, t1.children);
    assert(b1.children.len() == 2);
    assert(b1.children[0] == crate::reconcile::spec_build(prev, t1.children[0]).0);
    assert(b1.children[1] == crate::reconcile::spec_build(prev, t1.children[1]).0);

    // The three keyed identities differ pairwise (their keys differ in
    // length), so each lookup resolves to the node built for the same key.
    assert(spec_keyed("counter"@).len() != spec_keyed("counter_text"@).len());
    assert(spec_keyed("counter"@).len() != spec_keyed("counter_btn"@).len());
    assert(spec_keyed("counter_text"@).len() != spec_keyed("counter_btn"@).len());

    assert(crate::host::spec_find(b1, t2.id) == Some(b1));
    assert(crate::reconcile::spec_reused(old2, t2));

    assert(crate::host::spec_find(b1, u0.id) == Some(b1.children[0])) by {
        reveal_with_fuel(crate::host::spec_find, 3);
        reveal_with_fuel(crate::host::spec_find_seq, 3);
        assert(b1.children[0].id == u0.id);
        assert(crate::host::spec_find(b1.children[0], u0.id) == Some(b1.children[0]));
        assert(crate::host::spec_find_seq(b1.children, u0.id) == Some(b1.children[0]));
    }
    assert(crate::reconcile::spec_reused(old2, u0));

    assert(crate::host::spec_find(b1, u1.id) == Some(b1.children[1])) by {
        reveal_with_fuel(crate::host::spec_find, 3);
        reveal_with_fuel(crate::host::spec_find_seq, 3);
        crate::reconcile::lemma_build_seq_index(prev, t1.children[0].children);
        assert(b1.children[0].children.len() == 0);
        assert(b1.children[0].children =~= Seq::<crate::host::HostView>::empty());
        assert(crate::host::spec_find_seq(b1.children[0].children, u1.id) is None);
        assert(crate::host::spec_find(b1.children[0], u1.id) is None);
        assert(b1.children.drop_first() =~= seq![b1.children[1]]);
        assert(b1.children[1].id == u1.id);
        assert(crate::host::spec_find(b1.children[1], u1.id) == Some(b1.children[1]));
        assert(crate::host::spec_find_seq(b1.children.drop_first(), u1.id) == Some(
            b1.children[1],
        ));
        assert(crate::host::spec_find_seq(b1.children, u1.id) == Some(b1.children[1]));
    }
    assert(crate::reconcile::spec_reused(old2, u1));

    crate::reconcile::lemma_reuse_counts(old2, u0);
    crate::reconcile::lemma_reuse_counts(old2, u1);
    let e = Seq::<VNodeView>::empty();
    assert(t2.children.drop_last() =~= seq![u0]);
    assert(seq![u0].drop_last() =~= e);
    assert(seq![u0].last() == u0);
    assert(t2.children.last() == u1);
    assert(crate::reconcile::spec_build_seq(old2, e).1 == 0);
    assert(crate::reconcile::spec_build_seq(old2, seq![u0]).1 == crate::reconcile::spec_build(
        old2,
        u0,
    ).1);
    assert(crate::reconcile::spec_build_seq(old2, seq![u0]).2 == crate::reconcile::spec_build(
        old2,
        u0,
    ).2);
    assert(crate::reconcile::spec_build_seq(old2, t2.children).1 == 0);
    assert(crate::reconcile::spec_build_seq(old2, t2.children).2 == 2);
}

/// The identity of the box rendered for the item with this id.
pub open spec fn key_box(id: u64) -> Seq<char> {
    spec_keyed("item_box_"@ + spec_decimal(id as nat))
}

/// The identity of the name display rendered for the item with this id.
pub open spec fn key_text(id: u64) -> Seq<char> {
    spec_keyed("item_text_"@ + spec_decimal(id as nat))
}

/// The identity of the editor rendered for the item with this id.
pub open spec fn key_edit(id: u64) -> Seq<char> {
    spec_keyed("item_"@ + spec_decimal(id as nat))
}

/// The identity of the mode button rendered for the item with this id.
pub open spec fn key_btn(id: u64) -> Seq<char> {
    spec_keyed("item_btn_"@ + spec_decimal(id as nat))
}

/// The per-item identities collide neither across items nor across the four
/// roles an item's nodes play.
proof fn lemma_item_keys_distinct(a: u64, b: u64)
    ensures
        a != b ==> key_box(a) != key_box(b),
        a != b ==> key_text(a) != key_text(b),
        a != b ==> key_edit(a) != key_edit(b),
        a != b ==> key_btn(a) != key_btn(b),
        key_box(a) != key_text(b),
        key_box(a) != key_edit(b),
        key_box(a) != key_btn(b),
        key_text(a) != key_edit(b),
        key_text(a) != key_btn(b),
        key_edit(a) != key_btn(b),
{
    reveal_strlit("unique_key_");
    reveal_strlit("item_box_");
    reveal_strlit("item_text_");
    reveal_strlit("item_");
    reveal_strlit("item_btn_");
    let da = spec_decimal(a as nat);
    let db = spec_decimal(b as nat);
    lemma_decimal_len_pos(a as nat);
    lemma_decimal_len_pos(b as nat);
    lemma_decimal_starts_with_digit(b as nat);
    if a != b {
        crate::ident::lemma_decimal_injective_contra(a as nat, b as nat);
        if key_box(a) == key_box(b) {
            crate::ident::lemma_keyed_injective("item_box_"@ + da, "item_box_"@ + db);
            assert(da =~= ("item_box_"@ + da).subrange(9, ("item_box_"@ + da).len() as int));
            assert(db =~= ("item_box_"@ + db).subrange(9, ("item_box_"@ + db).len() as int));
        }
        if key_text(a) == key_text(b) {
            crate::ident::lemma_keyed_injective("item_text_"@ + da, "item_text_"@ + db);
            assert(da =~= ("item_text_"@ + da).subrange(10, ("item_text_"@ + da).len() as int));
            assert(db =~= ("item_text_"@ + db).subrange(10, ("item_text_"@ + db).len() as int));
        }
        if key_edit(a) == key_edit(b) {
            crate::ident::lemma_keyed_injective("item_"@ + da, "item_"@ + db);
            assert(da =~= ("item_"@ + da).subrange(5, ("item_"@ + da).len() as int));
            assert(db =~= ("item_"@ + db).subrange(5, ("item_"@ + db).len() as int));
        }
        if key_btn(a) == key_btn(b) {
            crate::ident::lemma_keyed_injective("item_btn_"@ + da, "item_btn_"@ + db);
            assert(da =~= ("item_btn_"@ + da).subrange(9, ("item_btn_"@ + da).len() as int));
            assert(db =~= ("item_btn_"@ + db).subrange(9, ("item_btn_"@ + db).len() as int));
        }
    }
    // Across roles, the identities differ at a fixed position: a letter of
    // one role's prefix against another's, or a letter against the first
    // digit of the item id.
    assert(key_box(a)[16] == 'b');
    assert(key_text(b)[16] == 't');
    assert(key_btn(b)[16] == 'b');
    assert(key_box(a)[17] == 'o');
    assert(key_btn(b)[17] == 't');
    assert(key_edit(b)[16] == db[0]);
    assert(crate::ident::is_digit_char(db[0]));
    assert(key_text(a)[16] == 't');
    assert(key_edit(a)[16] == spec_decimal(a as nat)[0]);
    lemma_decimal_starts_with_digit(a as nat);
}

/// The fixed identities of the todo UI never collide with any item's
/// identities: the short ones differ in length, the `add_` ones in their
/// first letter.
proof fn lemma_fixed_keys_not_item_keys(a: u64)
    ensures
        spec_keyed("root"@) != key_box(a) && spec_keyed("root"@) != key_text(a) && spec_keyed(
            "root"@,
        ) != key_edit(a) && spec_keyed("root"@) != key_btn(a),
        spec_keyed("title"@) != key_box(a) && spec_keyed("title"@) != key_text(a) && spec_keyed(
            "title"@,
        ) != key_edit(a) && spec_keyed("title"@) != key_btn(a),
        spec_keyed("items"@) != key_box(a) && spec_keyed("items"@) != key_text(a) && spec_keyed(
            "items"@,
        ) != key_edit(a) && spec_keyed("items"@) != key_btn(a),
        spec_keyed("add_box"@) != key_box(a) && spec_keyed("add_box"@) != key_text(a)
            && spec_keyed("add_box"@) != key_edit(a) && spec_keyed("add_box"@) != key_btn(a),
        spec_keyed("add_title"@) != key_box(a) && spec_keyed("add_title"@) != key_text(a)
            && spec_keyed("add_title"@) != key_edit(a) && spec_keyed("add_title"@) != key_btn(a),
        spec_keyed("add_input"@) != key_box(a) && spec_keyed("add_input"@) != key_text(a)
            && spec_keyed("add_input"@) != key_edit(a) && spec_keyed("add_input"@) != key_btn(a),
        spec_keyed("add_btn"@) != key_box(a) && spec_keyed("add_btn"@) != key_text(a)
            && spec_keyed("add_btn"@) != key_edit(a) && spec_keyed("add_btn"@) != key_btn(a),
{
    reveal_strlit("unique_key_");
    reveal_strlit("item_box_");
    reveal_strlit("item_text_");
    reveal_strlit("item_");
    reveal_strlit("item_btn_");
    reveal_strlit("root");
    reveal_strlit("title");
    reveal_strlit("items");
    reveal_strlit("add_box");
    reveal_strlit("add_title");
    reveal_strlit("add_input");
    reveal_strlit("add_btn");
    lemma_decimal_len_pos(a as nat);
    let da = spec_decimal(a as nat);
    assert(key_box(a)[11] == 'i');
    assert(key_text(a)[11] == 'i');
    assert(key_edit(a)[11] == 'i');
    assert(key_btn(a)[11] == 'i');
    assert(spec_keyed("add_box"@)[11] == 'a');
    assert(spec_keyed("add_title"@)[11] == 'a');
    assert(spec_keyed("add_input"@)[11] == 'a');
    assert(spec_keyed("add_btn"@)[11] == 'a');
    assert(spec_keyed("root"@).len() == 15);
    assert(spec_keyed("title"@).len() == 16);
    assert(spec_keyed("items"@).len() == 16);
    assert(key_box(a).len() >= 21);
    assert(key_text(a).len() >= 22);
    assert(key_edit(a).len() >= 17);
    assert(key_btn(a).len() >= 21);
}

/// The fixed identities of the todo UI are pairwise distinct.
proof fn lemma_fixed_keys_pairwise()
    ensures
        spec_keyed("root"@) != spec_keyed("title"@),
        spec_keyed("root"@) != spec_keyed("items"@),
        spec_keyed("root"@) != spec_keyed("add_box"@),
        spec_keyed("root"@) != spec_keyed("add_title"@),
        spec_keyed("root"@) != spec_keyed("add_input"@),
        spec_keyed("root"@) != spec_keyed("add_btn"@),
        spec_keyed("title"@) != spec_keyed("items"@),
        spec_keyed("title"@) != spec_keyed("add_box"@),
        spec_keyed("title"@) != spec_keyed("add_title"@),
        spec_keyed("title"@) != spec_keyed("add_input"@),
        spec_keyed("title"@) != spec_keyed("add_btn"@),
        spec_keyed("items"@) != spec_keyed("add_box"@),
        spec_keyed("items"@) != spec_keyed("add_title"@),
        spec_keyed("items"@) != spec_keyed("add_input"@),
        spec_keyed("items"@) != spec_keyed("add_btn"@),
        spec_keyed("add_box"@) != spec_keyed("add_title"@),
        spec_keyed("add_box"@) != spec_keyed("add_input"@),
        spec_keyed("add_box"@) != spec_keyed("add_btn"@),
        spec_keyed("add_title"@) != spec_keyed("add_input"@),
        spec_keyed("add_title"@) != spec_keyed("add_btn"@),
        spec_keyed("add_input"@) != spec_keyed("add_btn"@),
{
    reveal_strlit("unique_key_");
    reveal_strlit("root");
    reveal_strlit("title");
    reveal_strlit("items");
    reveal_strlit("add_box");
    reveal_strlit("add_title");
    reveal_strlit("add_input");
    reveal_strlit("add_btn");
    assert(spec_keyed("root"@).len() == 15);
    assert(spec_keyed("title"@).len() == 16);
    assert(spec_keyed("items"@).len() == 16);
    assert(spec_keyed("add_box"@).len() == 18);
    assert(spec_keyed("add_title"@).len() == 20);
    assert(spec_keyed("add_input"@).len() == 20);
    assert(spec_keyed("add_btn"@).len() == 18);
    assert(spec_keyed("title"@)[11] == 't');
    assert(spec_keyed("items"@)[11] == 'i');
    assert(spec_keyed("add_box"@)[16] == 'o');
    assert(spec_keyed("add_btn"@)[16] == 't');
    assert(spec_keyed("add_title"@)[15] == 't');
    assert(spec_keyed("add_input"@)[15] == 'i');
}

/// Resolving identities within one item's subtree: each of the item's own
/// identities resolves to its node; any other identity is absent.
proof fn lemma_item_tree_find(nd: VNodeView, it: TodoItem, k: Seq<char>)
    requires
        is_item_tree(nd, it),
    ensures
        vnode_find(nd, key_box(it.id)) == Some(nd),
        vnode_find(nd, key_btn(it.id)) == Some(nd.children[1]),
        it.editing ==> vnode_find(nd, key_edit(it.id)) == Some(nd.children[0]),
        !it.editing ==> vnode_find(nd, key_text(it.id)) == Some(nd.children[0]),
        (k != nd.id && k != nd.children[0].id && k != nd.children[1].id) ==> vnode_find(nd, k)
            is None,
{
    lemma_item_keys_distinct(it.id, it.id);
    let c0 = nd.children[0];
    let c1 = nd.children[1];
    assert(nd.children.drop_first() =~= seq![c1]);
    assert(seq![c1].drop_first() =~= Seq::<VNodeView>::empty());
    assert(c0.children.len() == 0);
    assert(c1.children.len() == 0);
    if it.editing {
        assert(vnode_find(c0, key_edit(it.id)) == Some(c0));
        lemma_vnode_find_seq_at(nd.children, key_edit(it.id), 0);
    } else {
        assert(vnode_find(c0, key_text(it.id)) == Some(c0));
        lemma_vnode_find_seq_at(nd.children, key_text(it.id), 0);
    }
    assert(vnode_find(c0, key_btn(it.id)) is None);
    assert(vnode_find(c1, key_btn(it.id)) == Some(c1));
    lemma_vnode_find_seq_at(nd.children, key_btn(it.id), 1);
    assert(vnode_find_seq(nd.children, key_btn(it.id)) == Some(c1));
    if k != nd.id && k != c0.id && k != c1.id {
        assert(vnode_find(c0, k) is None);
        assert(vnode_find(c1, k) is None);
        assert forall|j: int| 0 <= j < nd.children.len() implies vnode_find(
            #[trigger] nd.children[j],
            k,
        ) is None by {
            if j == 0 {
            } else {
                assert(nd.children[j] == c1);
            }
        }
        lemma_vnode_find_seq_none(nd.children, k);
    }
}

/// No two items of the list share an identity.
pub open spec fn item_ids_distinct(items: Seq<TodoItem>) -> bool {
    forall|i: int, j: int|
        0 <= i < j < items.len() ==> (#[trigger] items[i]).id != (#[trigger] items[j]).id
}

/// An identity that is none of any item's identities is absent from the whole
/// row of item subtrees.
proof fn lemma_items_seq_miss(nodes: Seq<VNodeView>, items: Seq<TodoItem>, k: Seq<char>)
    requires
        nodes.len() == items.len(),
        forall|j: int| 0 <= j < items.len() ==> is_item_tree(#[trigger] nodes[j], items[j]),
        forall|j: int|
            0 <= j < items.len() ==> k != key_box((#[trigger] items[j]).id) && k != key_text(
                items[j].id,
            ) && k != key_edit(items[j].id) && k != key_btn(items[j].id),
    ensures
        vnode_find_seq(nodes, k) is None,
{
    assert forall|j: int| 0 <= j < nodes.len() implies vnode_find(#[trigger] nodes[j], k)
        is None by {
        lemma_item_tree_find(nodes[j], items[j], k);
    }
    lemma_vnode_find_seq_none(nodes, k);
}

/// Resolving identities in the whole todo tree: every fixed identity and
/// every item identity resolves to the node rendered under it.
proof fn lemma_todo_tree_find(t: VNodeView, items: Seq<TodoItem>, pending: Seq<char>)
    requires
        is_todo_tree(t, items, pending),
        item_ids_distinct(items),
    ensures
        vnode_find(t, spec_keyed("root"@)) == Some(t),
        vnode_find(t, spec_keyed("title"@)) == Some(t.children[0]),
        vnode_find(t, spec_keyed("items"@)) == Some(t.children[1]),
        vnode_find(t, spec_keyed("add_box"@)) == Some(t.children[2]),
        vnode_find(t, spec_keyed("add_title"@)) == Some(t.children[2].children[0]),
        vnode_find(t, spec_keyed("add_input"@)) == Some(t.children[2].children[1]),
        vnode_find(t, spec_keyed("add_btn"@)) == Some(t.children[2].children[2]),
        forall|i: int|
            0 <= i < items.len() ==> vnode_find(t, key_box((#[trigger] items[i]).id)) == Some(
                t.children[1].children[i],
            ),
        forall|i: int|
            0 <= i < items.len() ==> vnode_find(t, key_btn((#[trigger] items[i]).id)) == Some(
                t.children[1].children[i].children[1],
            ),
        forall|i: int|
            0 <= i < items.len() && (#[trigger] items[i]).editing ==> vnode_find(
                t,
                key_edit(items[i].id),
            ) == Some(t.children[1].children[i].children[0]),
        forall|i: int|
            0 <= i < items.len() && !(#[trigger] items[i]).editing ==> vnode_find(
                t,
                key_text(items[i].id),
            ) == Some(t.children[1].children[i].children[0]),
{
    lemma_fixed_keys_pairwise();
    let title = t.children[0];
    let ibox = t.children[1];
    let abox = t.children[2];
    let nodes = ibox.children;
    let n = items.len() as int;

    // The `add_` identities and the item identities never land on the fixed
    // nodes, and conversely.
    assert forall|j: int| 0 <= j < n implies is_item_tree(#[trigger] nodes[j], items[j]) by {}

    // title
    assert(vnode_find(title, spec_keyed("title"@)) == Some(title));
    lemma_vnode_find_seq_at(t.children, spec_keyed("title"@), 0);

    // items box
    assert(vnode_find(title, spec_keyed("items"@)) is None);
    assert(vnode_find(ibox, spec_keyed("items"@)) == Some(ibox));
    lemma_vnode_find_seq_at(t.children, spec_keyed("items"@), 1);

    // the whole item row misses every fixed `add_` identity
    assert forall|j: int|
        0 <= j < n implies spec_keyed("add_box"@) != key_box((#[trigger] items[j]).id)
        && spec_keyed("add_box"@) != key_text(items[j].id) && spec_keyed("add_box"@) != key_edit(
        items[j].id,
    ) && spec_keyed("add_box"@) != key_btn(items[j].id) && spec_keyed("add_title"@) != key_box(
        items[j].id,
    ) && spec_keyed("add_title"@) != key_text(items[j].id) && spec_keyed("add_title"@)
        != key_edit(items[j].id) && spec_keyed("add_title"@) != key_btn(items[j].id)
        && spec_keyed("add_input"@) != key_box(items[j].id) && spec_keyed("add_input"@)
        != key_text(items[j].id) && spec_keyed("add_input"@) != key_edit(items[j].id)
        && spec_keyed("add_input"@) != key_btn(items[j].id) && spec_keyed("add_btn"@) != key_box(
        items[j].id,
    ) && spec_keyed("add_btn"@) != key_text(items[j].id) && spec_keyed("add_btn"@) != key_edit(
        items[j].id,
    ) && spec_keyed("add_btn"@) != key_btn(items[j].id) by {
        lemma_fixed_keys_not_item_keys(items[j].id);
    }

    // add box and its children
    let atitle = abox.children[0];
    let ainput = abox.children[1];
    let abtn = abox.children[2];
    assert(vnode_find(title, spec_keyed("add_box"@)) is None);
    lemma_items_seq_miss(nodes, items, spec_keyed("add_box"@));
    assert(vnode_find(ibox, spec_keyed("add_box"@)) is None);
    assert(vnode_find(abox, spec_keyed("add_box"@)) == Some(abox));
    lemma_vnode_find_seq_at(t.children, spec_keyed("add_box"@), 2);

    assert(vnode_find(title, spec_keyed("add_title"@)) is None);
    lemma_items_seq_miss(nodes, items, spec_keyed("add_title"@));
    assert(vnode_find(ibox, spec_keyed("add_title"@)) is None);
    assert(vnode_find(atitle, spec_keyed("add_title"@)) == Some(atitle));
    lemma_vnode_find_seq_at(abox.children, spec_keyed("add_title"@), 0);
    assert(vnode_find(abox, spec_keyed("add_title"@)) == Some(atitle));
    lemma_vnode_find_seq_at(t.children, spec_keyed("add_title"@), 2);

    assert(vnode_find(title, spec_keyed("add_input"@)) is None);
    lemma_items_seq_miss(nodes, items, spec_keyed("add_input"@));
    assert(vnode_find(ibox, spec_keyed("add_input"@)) is None);
    assert(vnode_find(atitle, spec_keyed("add_input"@)) is None);
    assert(vnode_find(ainput, spec_keyed("add_input"@)) == Some(ainput));
    lemma_vnode_find_seq_at(abox.children, spec_keyed("add_input"@), 1);
    assert(vnode_find(abox, spec_keyed("add_input"@)) == Some(ainput));
    lemma_vnode_find_seq_at(t.children, spec_keyed("add_input"@), 2);

    assert(vnode_find(title, spec_keyed("add_btn"@)) is None);
    lemma_items_seq_miss(nodes, items, spec_keyed("add_btn"@));
    assert(vnode_find(ibox, spec_keyed("add_btn"@)) is None);
    assert(vnode_find(atitle, spec_keyed("add_btn"@)) is None);
    assert(vnode_find(ainput, spec_keyed("add_btn"@)) is None);
    assert(vnode_find(abtn, spec_keyed("add_btn"@)) == Some(abtn));
    lemma_vnode_find_seq_at(abox.children, spec_keyed("add_btn"@), 2);
    assert(vnode_find(abox, spec_keyed("add_btn"@)) == Some(abtn));
    lemma_vnode_find_seq_at(t.children, spec_keyed("add_btn"@), 2);

    // each item's identities resolve to that item's nodes
    assert forall|i: int| 0 <= i < n implies vnode_find(t, key_box((#[trigger] items[i]).id))
        == Some(nodes[i]) && vnode_find(t, key_btn(items[i].id)) == Some(nodes[i].children[1]) && (
    items[i].editing ==> vnode_find(t, key_edit(items[i].id)) == Some(nodes[i].children[0])) && (!(
    items[i].editing) ==> vnode_find(t, key_text(items[i].id)) == Some(
        nodes[i].children[0],
    )) by {
        lemma_fixed_keys_not_item_keys(items[i].id);
        lemma_item_tree_find(nodes[i], items[i], key_box(items[i].id));
        assert forall|j: int| 0 <= j < i implies vnode_find(
            #[trigger] nodes[j],
            key_box(items[i].id),
        ) is None && vnode_find(nodes[j], key_btn(items[i].id)) is None && vnode_find(
            nodes[j],
            key_edit(items[i].id),
        ) is None && vnode_find(nodes[j], key_text(items[i].id)) is None by {
            lemma_item_keys_distinct(items[j].id, items[i].id);
            lemma_item_keys_distinct(items[i].id, items[j].id);
            lemma_item_tree_find(nodes[j], items[j], key_box(items[i].id));
            lemma_item_tree_find(nodes[j], items[j], key_btn(items[i].id));
            lemma_item_tree_find(nodes[j], items[j], key_edit(items[i].id));
            lemma_item_tree_find(nodes[j], items[j], key_text(items[i].id));
        }
        lemma_vnode_find_seq_at(nodes, key_box(items[i].id), i);
        lemma_vnode_find_seq_at(nodes, key_btn(items[i].id), i);
        if items[i].editing {
            lemma_vnode_find_seq_at(nodes, key_edit(items[i].id), i);
        } else {
            lemma_vnode_find_seq_at(nodes, key_text(items[i].id), i);
        }
        assert(vnode_find(title, key_box(items[i].id)) is None);
        assert(vnode_find(title, key_btn(items[i].id)) is None);
        assert(vnode_find(title, key_edit(items[i].id)) is None);
        assert(vnode_find(title, key_text(items[i].id)) is None);
        lemma_vnode_find_seq_at(t.children, key_box(items[i].id), 1);
        lemma_vnode_find_seq_at(t.children, key_btn(items[i].id), 1);
        if items[i].editing {
            lemma_vnode_find_seq_at(t.children, key_edit(items[i].id), 1);
        } else {
            lemma_vnode_find_seq_at(t.children, key_text(items[i].id), 1);
        }
    }
}

/// An item identity that belongs to no item of the list is absent from the
/// whole todo tree.
proof fn lemma_todo_tree_miss(t: VNodeView, items: Seq<TodoItem>, pending: Seq<char>, g: u64)
    requires
        is_todo_tree(t, items, pending),
        forall|i: int| 0 <= i < items.len() ==> (#[trigger] items[i]).id != g,
    ensures
        vnode_find(t, key_box(g)) is None,
        vnode_find(t, key_text(g)) is None,
        vnode_find(t, key_edit(g)) is None,
        vnode_find(t, key_btn(g)) is None,
{
    lemma_fixed_keys_not_item_keys(g);
    let title = t.children[0];
    let ibox = t.children[1];
    let abox = t.children[2];
    let nodes = ibox.children;
    assert forall|j: int|
        0 <= j < items.len() implies key_box(g) != key_box((#[trigger] items[j]).id) && key_box(g)
        != key_text(items[j].id) && key_box(g) != key_edit(items[j].id) && key_box(g) != key_btn(
        items[j].id,
    ) && key_text(g) != key_box(items[j].id) && key_text(g) != key_text(items[j].id) && key_text(
        g,
    ) != key_edit(items[j].id) && key_text(g) != key_btn(items[j].id) && key_edit(g) != key_box(
        items[j].id,
    ) && key_edit(g) != key_text(items[j].id) && key_edit(g) != key_edit(items[j].id) && key_edit(
        g,
    ) != key_btn(items[j].id) && key_btn(g) != key_box(items[j].id) && key_btn(g) != key_text(
        items[j].id,
    ) && key_btn(g) != key_edit(items[j].id) && key_btn(g) != key_btn(items[j].id) by {
        lemma_item_keys_distinct(g, items[j].id);
        lemma_item_keys_distinct(items[j].id, g);
    }
    lemma_items_seq_miss(nodes, items, key_box(g));
    lemma_items_seq_miss(nodes, items, key_text(g));
    lemma_items_seq_miss(nodes, items, key_edit(g));
    lemma_items_seq_miss(nodes, items, key_btn(g));
    assert forall|k: Seq<char>|
        #![trigger vnode_find(t, k)]
        (k == key_box(g) || k == key_text(g) || k == key_edit(g) || k == key_btn(g)) implies
        vnode_find(t, k) is None by {
        assert(vnode_find(title, k) is None);
        assert(vnode_find_seq(nodes, k) is None);
        assert(vnode_find(ibox, k) is None);
        assert(vnode_find(abox.children[0], k) is None);
        assert(vnode_find(abox.children[1], k) is None);
        assert(vnode_find(abox.children[2], k) is None);
        assert forall|j: int| 0 <= j < abox.children.len() implies vnode_find(
            #[trigger] abox.children[j],
            k,
        ) is None by {
            if j == 1 {
                assert(abox.children[j] == abox.children[1]);
            } else if j == 2 {
                assert(abox.children[j] == abox.children[2]);
            }
        }
        lemma_vnode_find_seq_none(abox.children, k);
        assert(vnode_find(abox, k) is None);
        assert forall|j: int| 0 <= j < t.children.len() implies vnode_find(
            #[trigger] t.children[j],
            k,
        ) is None by {
            if j == 1 {
                assert(t.children[j] == ibox);
            } else if j == 2 {
                assert(t.children[j] == abox);
            }
        }
        lemma_vnode_find_seq_none(t.children, k);
    }
    assert(vnode_find(t, key_box(g)) is None);
    assert(vnode_find(t, key_text(g)) is None);
    assert(vnode_find(t, key_edit(g)) is None);
    assert(vnode_find(t, key_btn(g)) is None);
}

/// An item subtree whose three identities all resolve with matching tags is
/// wholly updated in place.
proof fn lemma_item_counts_reused(old2: Option<HostView>, u: VNodeView, it: TodoItem)
    requires
        is_item_tree(u, it),
        spec_reused(old2, u),
        spec_reused(old2, u.children[0]),
        spec_reused(old2, u.children[1]),
    ensures
        spec_build(old2, u).1 == 0,
        spec_build(old2, u).2 == 3,
{
    lemma_item_counts_split(old2, u);
}

/// An item subtree none of whose three identities resolves is wholly created.
proof fn lemma_item_counts_fresh(old2: Option<HostView>, u: VNodeView, it: TodoItem)
    requires
        is_item_tree(u, it),
        !spec_reused(old2, u),
        !spec_reused(old2, u.children[0]),
        !spec_reused(old2, u.children[1]),
    ensures
        spec_build(old2, u).1 == 3,
        spec_build(old2, u).2 == 0,
{
    lemma_item_counts_split(old2, u);
}

/// The counts of a two-leaf subtree, node by node.
proof fn lemma_item_counts_split(old2: Option<HostView>, u: VNodeView)
    requires
        u.children.len() == 2,
        u.children[0].children.len() == 0,
        u.children[1].children.len() == 0,
    ensures
        spec_build(old2, u).1 == (if spec_reused(old2, u) {
            0nat
        } else {
            1nat
        }) + (if spec_reused(old2, u.children[0]) {
            0nat
        } else {
            1nat
        }) + (if spec_reused(old2, u.children[1]) {
            0nat
        } else {
            1nat
        }),
        spec_build(old2, u).2 == (if spec_reused(old2, u) {
            1nat
        } else {
            0nat
        }) + (if spec_reused(old2, u.children[0]) {
            1nat
        } else {
            0nat
        }) + (if spec_reused(old2, u.children[1]) {
            1nat
        } else {
            0nat
        }),
{
    let c0 = u.children[0];
    let c1 = u.children[1];
    crate::reconcile::lemma_reuse_counts(old2, c0);
    crate::reconcile::lemma_reuse_counts(old2, c1);
    let e = Seq::<VNodeView>::empty();
    assert(u.children.drop_last() =~= seq![c0]);
    assert(seq![c0].drop_last() =~= e);
    assert(seq![c0].last() == c0);
    assert(u.children.last() == c1);
    assert(spec_build_seq(old2, e).1 == 0);
    assert(spec_build_seq(old2, seq![c0]).1 == spec_build(old2, c0).1);
    assert(spec_build_seq(old2, seq![c0]).2 == spec_build(old2, c0).2);
}

/// A row of item subtrees, every one of them wholly reused, is wholly
/// updated in place: no creations, three updates per item.
proof fn lemma_item_row_counts(old2: Option<HostView>, nodes: Seq<VNodeView>, items: Seq<TodoItem>)
    requires
        nodes.len() == items.len(),
        forall|j: int| 0 <= j < items.len() ==> is_item_tree(#[trigger] nodes[j], items[j]),
        forall|j: int|
            0 <= j < nodes.len() ==> spec_reused(old2, #[trigger] nodes[j]) && spec_reused(
                old2,
                nodes[j].children[0],
            ) && spec_reused(old2, nodes[j].children[1]),
    ensures
        spec_build_seq(old2, nodes).1 == 0,
        spec_build_seq(old2, nodes).2 == 3 * nodes.len(),
    decreases nodes.len(),
{
    if nodes.len() > 0 {
        let m = nodes.len() - 1;
        assert forall|j: int| 0 <= j < m implies is_item_tree(
            #[trigger] nodes.drop_last()[j],
            items.drop_last()[j],
        ) by {
            assert(nodes.drop_last()[j] == nodes[j]);
            assert(items.drop_last()[j] == items[j]);
        }
        assert forall|j: int| 0 <= j < m implies spec_reused(
            old2,
            #[trigger] nodes.drop_last()[j],
        ) && spec_reused(old2, nodes.drop_last()[j].children[0]) && spec_reused(
            old2,
            nodes.drop_last()[j].children[1],
        ) by {
            assert(nodes.drop_last()[j] == nodes[j]);
        }
        lemma_item_row_counts(old2, nodes.drop_last(), items.drop_last());
        assert(nodes.last() == nodes[m as int]);
        lemma_item_counts_reused(old2, nodes[m as int], items[m as int]);
    }
}

/// List growth: when the item list grows by one entry at the end — prior
/// items keeping their identities and editing modes, all identities distinct
/// — the next render creates exactly the new item's three nodes and reuses
/// every host node of the previous render unchanged, updating all
/// `7 + 3 * |prior items|` of them in place.
pub proof fn lemma_list_growth_reuses_prior(
    prev: Option<HostView>,
    t1: VNodeView,
    t2: VNodeView,
    s1: Seq<TodoItem>,
    s2: Seq<TodoItem>,
    p1: Seq<char>,
    p2: Seq<char>,
)
    requires
        is_todo_tree(t1, s1, p1),
        is_todo_tree(t2, s2, p2),
        s2.len() == s1.len() + 1,
        forall|i: int|
            0 <= i < s1.len() ==> (#[trigger] s2[i]).id == s1[i].id && s2[i].editing
                == s1[i].editing,
        item_ids_distinct(s2),
    ensures
        spec_build(Some(spec_build(prev, t1).0), t2).1 == 3,
        spec_build(Some(spec_build(prev, t1).0), t2).2 == 7 + 3 * s1.len(),
{
    let b1 = spec_build(prev, t1).0;
    let old2 = Some(b1);
    let n = s1.len() as int;
    let g = s2[n].id;
    assert(item_ids_distinct(s1)) by {
        assert forall|i: int, j: int| 0 <= i < j < s1.len() implies (#[trigger] s1[i]).id != (
        #[trigger] s1[j]).id by {
            assert(s2[i].id != s2[j].id);
        }
    }
    assert forall|i: int| 0 <= i < n implies (#[trigger] s1[i]).id != g by {
        assert(s2[i].id != s2[n].id);
    }
    lemma_todo_tree_find(t1, s1, p1);
    lemma_todo_tree_miss(t1, s1, p1, g);

    let title1 = t1.children[0];
    let ibox1 = t1.children[1];
    let abox1 = t1.children[2];
    let nodes1 = ibox1.children;
    let title2 = t2.children[0];
    let ibox2 = t2.children[1];
    let abox2 = t2.children[2];
    let nodes2 = ibox2.children;

    // The fixed nodes are all reused: their identities resolve in the built
    // tree to the nodes built for the same keys, with the same tags.
    crate::reconcile::lemma_find_build(prev, t1, spec_keyed("root"@));
    crate::reconcile::lemma_find_build(prev, t1, spec_keyed("title"@));
    crate::reconcile::lemma_find_build(prev, t1, spec_keyed("items"@));
    crate::reconcile::lemma_find_build(prev, t1, spec_keyed("add_box"@));
    crate::reconcile::lemma_find_build(prev, t1, spec_keyed("add_title"@));
    crate::reconcile::lemma_find_build(prev, t1, spec_keyed("add_input"@));
    crate::reconcile::lemma_find_build(prev, t1, spec_keyed("add_btn"@));
    assert(spec_reused(old2, t2));
    assert(spec_reused(old2, title2));
    assert(spec_reused(old2, ibox2));
    assert(spec_reused(old2, abox2));
    assert(spec_reused(old2, abox2.children[0]));
    assert(spec_reused(old2, abox2.children[1]));
    assert(spec_reused(old2, abox2.children[2]));

    // Every prior item's three nodes are reused.
    assert forall|i: int| 0 <= i < n implies spec_reused(old2, #[trigger] nodes2[i])
        && spec_reused(old2, nodes2[i].children[0]) && spec_reused(
        old2,
        nodes2[i].children[1],
    ) by {
        assert(is_item_tree(nodes2[i], s2[i]));
        assert(is_item_tree(nodes1[i], s1[i]));
        crate::reconcile::lemma_find_build(prev, t1, key_box(s1[i].id));
        crate::reconcile::lemma_find_build(prev, t1, key_btn(s1[i].id));
        if s1[i].editing {
            crate::reconcile::lemma_find_build(prev, t1, key_edit(s1[i].id));
        } else {
            crate::reconcile::lemma_find_build(prev, t1, key_text(s1[i].id));
        }
    }

    // The new item's three nodes are not: their identities are absent from
    // the previous tree.
    assert(is_item_tree(nodes2[n], s2[n]));
    crate::reconcile::lemma_find_build(prev, t1, key_box(g));
    crate::reconcile::lemma_find_build(prev, t1, key_btn(g));
    crate::reconcile::lemma_find_build(prev, t1, key_edit(g));
    crate::reconcile::lemma_find_build(prev, t1, key_text(g));
    assert(!spec_reused(old2, nodes2[n]));
    assert(!spec_reused(old2, nodes2[n].children[0]));
    assert(!spec_reused(old2, nodes2[n].children[1]));

    // Counts: the prior row updates in place, the new item is created.
    assert forall|j: int| 0 <= j < n implies is_item_tree(
        #[trigger] nodes2.drop_last()[j],
        s2.drop_last()[j],
    ) by {
        assert(nodes2.drop_last()[j] == nodes2[j]);
        assert(s2.drop_last()[j] == s2[j]);
    }
    assert forall|j: int| 0 <= j < n implies spec_reused(old2, #[trigger] nodes2.drop_last()[j])
        && spec_reused(old2, nodes2.drop_last()[j].children[0]) && spec_reused(
        old2,
        nodes2.drop_last()[j].children[1],
    ) by {
        assert(nodes2.drop_last()[j] == nodes2[j]);
    }
    lemma_item_row_counts(old2, nodes2.drop_last(), s2.drop_last());
    assert(nodes2.last() == nodes2[n]);
    lemma_item_counts_fresh(old2, nodes2[n], s2[n]);
    assert(spec_build_seq(old2, nodes2).1 == 3);
    assert(spec_build_seq(old2, nodes2).2 == 3 * n);
    assert(spec_build(old2, ibox2).1 == 3);
    assert(spec_build(old2, ibox2).2 == 3 * n + 1);
    crate::reconcile::lemma_reuse_counts(old2, title2);
    crate::reconcile::lemma_reuse_counts(old2, abox2.children[0]);
    crate::reconcile::lemma_reuse_counts(old2, abox2.children[1]);
    crate::reconcile::lemma_reuse_counts(old2, abox2.children[2]);
    let al = abox2.children;
    reveal_with_fuel(spec_build_seq, 5);
    assert(al.drop_last() =~= seq![al[0], al[1]]);
    assert(seq![al[0], al[1]].drop_last() =~= seq![al[0]]);
    assert(seq![al[0]].drop_last() =~= Seq::<VNodeView>::empty());
    assert(seq![al[0]].last() == al[0]);
    assert(seq![al[0], al[1]].last() == al[1]);
    assert(al.last() == al[2]);
    assert(spec_build_seq(old2, al).1 == 0);
    assert(spec_build_seq(old2, al).2 == 3);
    assert(spec_build(old2, abox2).1 == 0);
    assert(spec_build(old2, abox2).2 == 4);
    let tl = t2.children;
    assert(tl.drop_last() =~= seq![title2, ibox2]);
    assert(seq![title2, ibox2].drop_last() =~= seq![title2]);
    assert(seq![title2].drop_last() =~= Seq::<VNodeView>::empty());
    assert(seq![title2].last() == title2);
    assert(seq![title2, ibox2].last() == ibox2);
    assert(tl.last() == abox2);
    assert(spec_build_seq(old2, tl).1 == 3);
    assert(spec_build_seq(old2, tl).2 == 3 * n + 6);
}

/// Identity continuity across two renders of the todo UI: as long as the
/// items keep their identities and editing modes — their names, the pending
/// entry name, every text may differ — the next render reuses every host
/// node: nothing is created, all `7 + 3 * |items|` nodes are updated in
/// place.
pub proof fn lemma_todo_rerender_reuses_all(
    prev: Option<HostView>,
    t1: VNodeView,
    t2: VNodeView,
    s1: Seq<TodoItem>,
    s2: Seq<TodoItem>,
    p1: Seq<char>,
    p2: Seq<char>,
)
    requires
        is_todo_tree(t1, s1, p1),
        is_todo_tree(t2, s2, p2),
        s2.len() == s1.len(),
        forall|i: int|
            0 <= i < s1.len() ==> (#[trigger] s2[i]).id == s1[i].id && s2[i].editing
                == s1[i].editing,
        item_ids_distinct(s1),
    ensures
        spec_build(Some(spec_build(prev, t1).0), t2).1 == 0,
        spec_build(Some(spec_build(prev, t1).0), t2).2 == 7 + 3 * s1.len(),
{
    let b1 = spec_build(prev, t1).0;
    let old2 = Some(b1);
    let n = s1.len() as int;
    lemma_todo_tree_find(t1, s1, p1);

    let nodes1 = t1.children[1].children;
    let title2 = t2.children[0];
    let ibox2 = t2.children[1];
    let abox2 = t2.children[2];
    let nodes2 = ibox2.children;

    crate::reconcile::lemma_find_build(prev, t1, spec_keyed("root"@));
    crate::reconcile::lemma_find_build(prev, t1, spec_keyed("title"@));
    crate::reconcile::lemma_find_build(prev, t1, spec_keyed("items"@));
    crate::reconcile::lemma_find_build(prev, t1, spec_keyed("add_box"@));
    crate::reconcile::lemma_find_build(prev, t1, spec_keyed("add_title"@));
    crate::reconcile::lemma_find_build(prev, t1, spec_keyed("add_input"@));
    crate::reconcile::lemma_find_build(prev, t1, spec_keyed("add_btn"@));
    assert(spec_reused(old2, t2));
    assert(spec_reused(old2, title2));
    assert(spec_reused(old2, ibox2));
    assert(spec_reused(old2, abox2));
    assert(spec_reused(old2, abox2.children[0]));
    assert(spec_reused(old2, abox2.children[1]));
    assert(spec_reused(old2, abox2.children[2]));

    assert forall|i: int| 0 <= i < n implies spec_reused(old2, #[trigger] nodes2[i])
        && spec_reused(old2, nodes2[i].children[0]) && spec_reused(
        old2,
        nodes2[i].children[1],
    ) by {
        assert(is_item_tree(nodes2[i], s2[i]));
        assert(is_item_tree(nodes1[i], s1[i]));
        crate::reconcile::lemma_find_build(prev, t1, key_box(s1[i].id));
        crate::reconcile::lemma_find_build(prev, t1, key_btn(s1[i].id));
        if s1[i].editing {
            crate::reconcile::lemma_find_build(prev, t1, key_edit(s1[i].id));
        } else {
            crate::reconcile::lemma_find_build(prev, t1, key_text(s1[i].id));
        }
    }

    assert forall|j: int| 0 <= j < n implies is_item_tree(#[trigger] nodes2[j], s2[j]) by {}
    lemma_item_row_counts(old2, nodes2, s2);
    assert(spec_build(old2, ibox2).1 == 0);
    assert(spec_build(old2, ibox2).2 == 3 * n + 1);
    crate::reconcile::lemma_reuse_counts(old2, title2);
    crate::reconcile::lemma_reuse_counts(old2, abox2.children[0]);
    crate::reconcile::lemma_reuse_counts(old2, abox2.children[1]);
    crate::reconcile::lemma_reuse_counts(old2, abox2.children[2]);
    let al = abox2.children;
    reveal_with_fuel(spec_build_seq, 5);
    assert(al.drop_last() =~= seq![al[0], al[1]]);
    assert(seq![al[0], al[1]].drop_last() =~= seq![al[0]]);
    assert(seq![al[0]].drop_last() =~= Seq::<VNodeView>::empty());
    assert(seq![al[0]].last() == al[0]);
    assert(seq![al[0], al[1]].last() == al[1]);
    assert(al.last() == al[2]);
    assert(spec_build_seq(old2, al).1 == 0);
    assert(spec_build_seq(old2, al).2 == 3);
    assert(spec_build(old2, abox2).1 == 0);
    assert(spec_build(old2, abox2).2 == 4);
    let tl = t2.children;
    assert(tl.drop_last() =~= seq![title2, ibox2]);
    assert(seq![title2, ibox2].drop_last() =~= seq![title2]);
    assert(seq![title2].drop_last() =~= Seq::<VNodeView>::empty());
    assert(seq![title2].last() == title2);
    assert(seq![title2, ibox2].last() == ibox2);
    assert(tl.last() == abox2);
    assert(spec_build_seq(old2, tl).1 == 0);
    assert(spec_build_seq(old2, tl).2 == 3 * n + 6);
}

proof fn lemma_wf_node(v: HtmlElement)
    requires
        crate::html::listener_keys_unique(v.listeners@),
        forall|j: int| 0 <= j < v.children@.len() ==> wf_tree(#[trigger] v.children@[j]),
    ensures
        wf_tree(v),
{
}

proof fn lemma_count_seq2(a: VNodeView, b: VNodeView)
    ensures
        spec_node_count_seq(seq![a, b]) == spec_node_count(a) + spec_node_count(b),
{
    let s = seq![a, b];
    reveal_with_fuel(spec_node_count_seq, 4);
    assert(s.drop_last() =~= seq![a]);
    assert(seq![a].drop_last() =~= Seq::<VNodeView>::empty());
}

proof fn lemma_count_seq3(a: VNodeView, b: VNodeView, c: VNodeView)
    ensures
        spec_node_count_seq(seq![a, b, c]) == spec_node_count(a) + spec_node_count(b)
            + spec_node_count(c),
{
    let s = seq![a, b, c];
    assert(s.drop_last() =~= seq![a, b]);
    lemma_count_seq2(a, b);
}

/// A one-entry listener bag: run `a` on `click`.
fn click_bag(a: Action) -> (bag: Vec<(String, Action)>)
    ensures
        crate::html::listener_keys_unique(bag@),
        listeners_view(bag@) == map!["click"@ => a],
{
    let mut bag: Vec<(String, Action)> = Vec::new();
    bag.push((String::from_str("click"), a));
    proof {
        reveal_with_fuel(listeners_view, 3);
        assert(bag@.drop_last() =~= Seq::<(String, Action)>::empty());
        assert(listeners_view(bag@) =~= map!["click"@ => a]);
    }
    bag
}

/// The listener bag of an editable input: run `a` on every `input` and
/// `keyup` event.
fn input_bag(a: Action) -> (bag: Vec<(String, Action)>)
    ensures
        crate::html::listener_keys_unique(bag@),
        listeners_view(bag@) == map!["input"@ => a, "keyup"@ => a],
{
    let mut bag: Vec<(String, Action)> = Vec::new();
    bag.push((String::from_str("input"), a));
    bag.push((String::from_str("keyup"), a));
    proof {
        reveal_with_fuel(listeners_view, 4);
        reveal_strlit("input");
        reveal_strlit("keyup");
        assert("input"@[0] == 'i');
        assert("keyup"@[0] == 'k');
        assert(bag@[0].0@ != bag@[1].0@);
        assert(bag@.drop_last() =~= seq![bag@[0]]);
        assert(seq![bag@[0]].drop_last() =~= Seq::<(String, Action)>::empty());
        assert(listeners_view(bag@) =~= map!["input"@ => a, "keyup"@ => a]);
    }
    bag
}

/// Render the editor for an item in editing mode: an editable input keyed by
/// the item's identity, so that the host node (and the user's cursor in it)
/// survives re-renders while the item is being edited.
pub fn render_edit(item: &TodoItem, ids: &mut IdGen) -> (r: HtmlElement)
    ensures
        is_item_edit(vnode_view(r), *item),
        wf_tree(r),
        spec_node_count(vnode_view(r)) == 1,
        *final(ids) == *old(ids),
{
    let dec = u64_to_string(item.id);
    let key = String::from_str("item_").concat(dec.as_str());
    let bag = input_bag(Action::EditItem(item.id));
    let r = HtmlElement::new(
        ids,
        Some(key.as_str()),
        "textarea",
        item.name.as_str(),
        "",
        "",
        bag,
        Vec::new(),
    );
    proof {
        assert(vnode_view(r).children =~= Seq::<VNodeView>::empty());
    }
    r
}

/// Render one todo item: its name (or its editor, in editing mode) and the
/// button that flips its editing mode.
pub fn render_item(item: &TodoItem, ids: &mut IdGen) -> (r: HtmlElement)
    ensures
        is_item_tree(vnode_view(r), *item),
        wf_tree(r),
        spec_node_count(vnode_view(r)) == 3,
        *final(ids) == *old(ids),
{
    let dec = u64_to_string(item.id);
    let inner: HtmlElement = if item.editing {
        render_edit(item, ids)
    } else {
        let key = String::from_str("item_text_").concat(dec.as_str());
        let r = HtmlElement::new(
            ids,
            Some(key.as_str()),
            "p",
            item.name.as_str(),
            "",
            "",
            Vec::new(),
            Vec::new(),
        );
        proof {
            assert(listeners_view(r.listeners@) =~= Map::<Seq<char>, Action>::empty());
            assert(vnode_view(r).children =~= Seq::<VNodeView>::empty());
            lemma_wf_node(r);
        }
        r
    };
    let btn_key = String::from_str("item_btn_").concat(dec.as_str());
    let btn = HtmlElement::new(
        ids,
        Some(btn_key.as_str()),
        "button",
        if item.editing {
            "Save"
        } else {
            "Edit"
        },
        "",
        "",
        click_bag(Action::ToggleEditing(item.id)),
        Vec::new(),
    );
    proof {
        assert(vnode_view(btn).children =~= Seq::<VNodeView>::empty());
    }
    let box_key = String::from_str("item_box_").concat(dec.as_str());
    let mut kids: Vec<HtmlElement> = Vec::new();
    kids.push(inner);
    kids.push(btn);
    let r = HtmlElement::new(
        ids,
        Some(box_key.as_str()),
        "div",
        "",
        "",
        "",
        Vec::new(),
        kids,
    );
    proof {
        assert(listeners_view(r.listeners@) =~= Map::<Seq<char>, Action>::empty());
        lemma_vnode_view_seq_index(r.children@);
        assert(vnode_view(r).children =~= seq![
            vnode_view(r.children@[0]),
            vnode_view(r.children@[1]),
        ]);
        lemma_count_seq2(vnode_view(r.children@[0]), vnode_view(r.children@[1]));
        lemma_wf_node(btn);
        lemma_wf_node(r);
    }
    r
}

/// Render the add-item controls: a heading, the editable input that holds the
/// pending entry name, and the button that appends the item.
pub fn render_add(state: &AppState, ids: &mut IdGen) -> (r: HtmlElement)
    ensures
        is_add_tree(vnode_view(r), state.new_item_name@),
        wf_tree(r),
        spec_node_count(vnode_view(r)) == 4,
        *final(ids) == *old(ids),
{
    let title = HtmlElement::new(
        ids,
        Some("add_title"),
        "h3",
        "Add item",
        "",
        "",
        Vec::new(),
        Vec::new(),
    );
    let input = HtmlElement::new(
        ids,
        Some("add_input"),
        "textarea",
        state.get_new_item_name().as_str(),
        "",
        "",
        input_bag(Action::EditNewItemName),
        Vec::new(),
    );
    let btn = HtmlElement::new(
        ids,
        Some("add_btn"),
        "button",
        "+",
        "",
        "",
        click_bag(Action::AddItem),
        Vec::new(),
    );
    proof {
        assert(listeners_view(title.listeners@) =~= Map::<Seq<char>, Action>::empty());
        assert(vnode_view(title).children =~= Seq::<VNodeView>::empty());
        assert(vnode_view(input).children =~= Seq::<VNodeView>::empty());
        assert(vnode_view(btn).children =~= Seq::<VNodeView>::empty());
    }
    let mut kids: Vec<HtmlElement> = Vec::new();
    kids.push(title);
    kids.push(input);
    kids.push(btn);
    let r = HtmlElement::new(ids, Some("add_box"), "div", "", "", "", Vec::new(), kids);
    proof {
        assert(listeners_view(r.listeners@) =~= Map::<Seq<char>, Action>::empty());
        lemma_vnode_view_seq_index(r.children@);
        assert(vnode_view(r).children =~= seq![
            vnode_view(r.children@[0]),
            vnode_view(r.children@[1]),
            vnode_view(r.children@[2]),
        ]);
        lemma_count_seq3(
            vnode_view(r.children@[0]),
            vnode_view(r.children@[1]),
            vnode_view(r.children@[2]),
        );
        lemma_wf_node(title);
        lemma_wf_node(input);
        lemma_wf_node(btn);
        lemma_wf_node(r);
    }
    r
}

/// Render the whole todo UI from the current state.
pub fn render(state: &AppState, ids: &mut IdGen) -> (r: HtmlElement)
    ensures
        is_todo_tree(vnode_view(r), state.items@, state.new_item_name@),
        wf_tree(r),
        spec_node_count(vnode_view(r)) == 7 + 3 * state.items@.len(),
        *final(ids) == *old(ids),
{
    let title = HtmlElement::new(
        ids,
        Some("title"),
        "h1",
        "Todo List",
        "",
        "",
        Vec::new(),
        Vec::new(),
    );
    proof {
        assert(listeners_view(title.listeners@) =~= Map::<Seq<char>, Action>::empty());
        assert(vnode_view(title).children =~= Seq::<VNodeView>::empty());
    }
    let n = state.items.len();
    let mut item_nodes: Vec<HtmlElement> = Vec::new();
    let mut i: usize = 0;
    while i < n
        invariant
            n == state.items@.len(),
            i <= n,
            item_nodes@.len() == i,
            forall|j: int|
                0 <= j < i ==> is_item_tree(
                    vnode_view(#[trigger] item_nodes@[j]),
                    state.items@[j],
                ),
            forall|j: int| 0 <= j < i ==> wf_tree(#[trigger] item_nodes@[j]),
            spec_node_count_seq(vnode_view_seq(item_nodes@)) == 3 * i,
            *ids == *old(ids),
        decreases n - i,
    {
        let ghost pre = item_nodes@;
        let node = render_item(&state.items[i], ids);
        item_nodes.push(node);
        proof {
            assert(item_nodes@.drop_last() =~= pre);
            assert(vnode_view_seq(item_nodes@).drop_last() =~= vnode_view_seq(pre));
            assert(vnode_view_seq(item_nodes@).last() == vnode_view(node));
        }
        i = i + 1;
    }
    let items_box = HtmlElement::new(
        ids,
        Some("items"),
        "div",
        "",
        "",
        "",
        Vec::new(),
        item_nodes,
    );
    proof {
        assert(listeners_view(items_box.listeners@) =~= Map::<Seq<char>, Action>::empty());
        lemma_vnode_view_seq_index(items_box.children@);
    }
    let add_box = render_add(state, ids);
    let mut kids: Vec<HtmlElement> = Vec::new();
    kids.push(title);
    kids.push(items_box);
    kids.push(add_box);
    let r = HtmlElement::new(ids, Some("root"), "div", "", "", "", Vec::new(), kids);
    proof {
        assert(listeners_view(r.listeners@) =~= Map::<Seq<char>, Action>::empty());
        lemma_vnode_view_seq_index(r.children@);
        assert(vnode_view(r).children =~= seq![
            vnode_view(r.children@[0]),
            vnode_view(r.children@[1]),
            vnode_view(r.children@[2]),
        ]);
        assert(r.children@[0] == title);
        assert(r.children@[1] == items_box);
        assert(r.children@[2] == add_box);
        lemma_count_seq3(vnode_view(title), vnode_view(items_box), vnode_view(add_box));
        assert(vnode_view(items_box).children == vnode_view_seq(items_box.children@));
        assert forall|j: int| 0 <= j < state.items@.len() implies is_item_tree(
            #[trigger] vnode_view(items_box).children[j],
            state.items@[j],
        ) by {
            assert(vnode_view_seq(items_box.children@)[j] == vnode_view(items_box.children@[j]));
        }
        lemma_wf_node(title);
        lemma_wf_node(items_box);
        lemma_wf_node(r);
    }
    r
}

/// Render the counter UI from the current state.
pub fn render_counter(state: &AppState, ids: &mut IdGen) -> (r: HtmlElement)
    ensures
        is_counter_tree(vnode_view(r), state.count as nat),
        wf_tree(r),
        spec_node_count(vnode_view(r)) == 3,
        *final(ids) == *old(ids),
{
    let dec = u64_to_string(state.get_count());
    let text = String::from_str("The current count is ").concat(dec.as_str()).concat("!");
    let msg = HtmlElement::new(
        ids,
        Some("counter_text"),
        "p",
        text.as_str(),
        "",
        "",
        Vec::new(),
        Vec::new(),
    );
    let btn = HtmlElement::new(
        ids,
        Some("counter_btn"),
        "button",
        "+1",
        "",
        "",
        click_bag(Action::Increment),
        Vec::new(),
    );
    proof {
        assert(listeners_view(msg.listeners@) =~= Map::<Seq<char>, Action>::empty());
        assert(vnode_view(msg).children =~= Seq::<VNodeView>::empty());
        assert(vnode_view(btn).children =~= Seq::<VNodeView>::empty());
    }
    let mut kids: Vec<HtmlElement> = Vec::new();
    kids.push(msg);
    kids.push(btn);
    let r = HtmlElement::new(ids, Some("counter"), "div", "", "", "", Vec::new(), kids);
    proof {
        assert(listeners_view(r.listeners@) =~= Map::<Seq<char>, Action>::empty());
        lemma_vnode_view_seq_index(r.children@);
        assert(vnode_view(r).children =~= seq![
            vnode_view(r.children@[0]),
            vnode_view(r.children@[1]),
        ]);
        assert(r.children@[0] == msg);
        assert(r.children@[1] == btn);
        lemma_count_seq2(vnode_view(msg), vnode_view(btn));
        lemma_wf_node(msg);
        lemma_wf_node(btn);
        lemma_wf_node(r);
    }
    r
}

} // verus!
