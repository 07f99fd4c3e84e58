//! The virtual node tree: an immutable-per-render description of a UI tree.
//! Each node carries its identity, tag, text, class, style, an event-listener
//! bag (event name to handler, keys unique, last registration wins) and its
//! ordered children. Handlers are plain data: [`Action`] values that
//! [`crate::events::apply_action`] interprets against the state store.

use vstd::prelude::*;
use crate::ident::{spec_keyed, spec_decimal, keyed_identity, IdGen};

verus! {

/// What an event handler does when its event fires. Handlers capture at most
/// the identity of the todo item they act on; everything else they read from
/// the store or from the editable node the event fired on.
#[derive(Clone, Copy, PartialEq, Eq, Structural, Debug)]
pub enum Action {
    /// Flip the `editing` flag of the item with this id.
    ToggleEditing(u64),
    /// Replace the name of the item with this id by the value of the editable
    /// node the event fired on.
    EditItem(u64),
    /// Replace the pending entry name by the value of the editable node the
    /// event fired on.
    EditNewItemName,
    /// Append a new item named after the pending entry name, with identity
    /// `max(existing ids) + 1`, and reset the pending entry name.
    AddItem,
    /// Increase the counter field by one.
    Increment,
}

/// The listener bag as the mapping it stands for: event name to handler,
/// later registrations overriding earlier ones.
pub open spec fn listeners_view(l: Seq<(String, Action)>) -> Map<Seq<char>, Action>
    decreases l.len(),
{
    if l.len() == 0 {
        Map::empty()
    } else {
        listeners_view(l.drop_last()).insert(l.last().0@, l.last().1)
    }
}

/// Well-formedness of a listener bag: event names are registered at most once.
pub open spec fn listener_keys_unique(l: Seq<(String, Action)>) -> bool {
    forall|i: int, j: int| 0 <= i < j < l.len() ==> l[i].0@ != l[j].0@
}

/// An event name is in the bag's mapping exactly when some entry carries it.
pub proof fn lemma_view_domain(l: Seq<(String, Action)>, k: Seq<char>)
    ensures
        listeners_view(l).contains_key(k) <==> exists|i: int| 0 <= i < l.len() && l[i].0@ == k,
    decreases l.len(),
{
    if l.len() > 0 {
        lemma_view_domain(l.drop_last(), k);
        if listeners_view(l).contains_key(k) {
            if l.last().0@ == k {
                assert(l[l.len() - 1].0@ == k);
            }
        }
        if exists|i: int| 0 <= i < l.len() && l[i].0@ == k {
            let i = choose|i: int| 0 <= i < l.len() && l[i].0@ == k;
            if i < l.len() - 1 {
                assert(l.drop_last()[i].0@ == k);
            }
        }
    }
}

/// In a well-formed bag, the mapping sends an entry's event name to that
/// entry's handler.
pub proof fn lemma_view_at(l: Seq<(String, Action)>, i: int)
    requires
        listener_keys_unique(l),
        0 <= i < l.len(),
    ensures
        listeners_view(l).contains_key(l[i].0@),
        listeners_view(l)[l[i].0@] == l[i].1,
    decreases l.len(),
{
    if i == l.len() - 1 {
    } else {
        lemma_view_at(l.drop_last(), i);
        assert(l.drop_last()[i] == l[i]);
        assert(l.last().0@ != l[i].0@);
    }
}

/// Replacing the handler of the entry at `i` updates the mapping at that
/// entry's event name and nothing else.
pub proof fn lemma_view_update(l: Seq<(String, Action)>, i: int, a: Action)
    requires
        listener_keys_unique(l),
        0 <= i < l.len(),
    ensures
        listeners_view(l.update(i, (l[i].0, a))) =~= listeners_view(l).insert(l[i].0@, a),
    decreases l.len(),
{
    let lu = l.update(i, (l[i].0, a));
    if i == l.len() - 1 {
        assert(lu.drop_last() =~= l.drop_last());
        assert(lu.last() == (l[i].0, a));
    } else {
        lemma_view_update(l.drop_last(), i, a);
        assert(lu.drop_last() =~= l.drop_last().update(i, (l[i].0, a)));
        assert(lu.last() == l.last());
        assert(l.last().0@ != l[i].0@);
    }
}

/// Folding a list of event names into the mapping, each with the same
/// handler, later names last.
pub open spec fn spec_insert_all(
    m: Map<Seq<char>, Action>,
    evs: Seq<&str>,
    a: Action,
) -> Map<Seq<char>, Action>
    decreases evs.len(),
{
    if evs.len() == 0 {
        m
    } else {
        spec_insert_all(m, evs.drop_last(), a).insert(evs.last()@, a)
    }
}

/// The mathematical model of a virtual node: every string as its character
/// sequence, the listener bag as the mapping it stands for, the children as a
/// sequence of models.
#[verifier::ext_equal]
pub struct VNodeView {
    pub id: Seq<char>,
    pub tag: Seq<char>,
    pub text: Seq<char>,
    pub class: Seq<char>,
    pub style: Seq<char>,
    pub listeners: Map<Seq<char>, Action>,
    pub children: Seq<VNodeView>,
}

/// A virtual UI node: one element of the tree a render call produces.
#[derive(Debug)]
pub struct HtmlElement {
    pub id: String,
    pub tag: String,
    pub text: String,
    pub class: String,
    pub style: String,
    pub listeners: Vec<(String, Action)>,
    pub children: Vec<HtmlElement>,
}

/// A well-formed virtual tree: every listener bag in it has unique keys.
pub open spec fn wf_tree(v: HtmlElement) -> bool
    decreases v,
{
    listener_keys_unique(v.listeners@) && (forall|i: int|
        0 <= i < v.children@.len() ==> wf_tree(#[trigger] v.children@[i]))
}

/// The model of a virtual node.
pub open spec fn vnode_view(v: HtmlElement) -> VNodeView
    decreases v,
{
    VNodeView {
        id: v.id@,
        tag: v.tag@,
        text: v.text@,
        class: v.class@,
        style: v.style@,
        listeners: listeners_view(v.listeners@),
        children: vnode_view_seq(v.children@),
    }
}

/// The models of a sequence of virtual nodes, in order.
pub open spec fn vnode_view_seq(s: Seq<HtmlElement>) -> Seq<VNodeView>
    decreases s,
{
    if s.len() == 0 {
        Seq::empty()
    } else {
        vnode_view_seq(s.drop_last()).push(vnode_view(s.last()))
    }
}

/// [`vnode_view_seq`] maps [`vnode_view`] over the sequence, element by
/// element.
pub proof fn lemma_vnode_view_seq_index(s: Seq<HtmlElement>)
    ensures
        vnode_view_seq(s).len() == s.len(),
        forall|i: int| 0 <= i < s.len() ==> vnode_view_seq(s)[i] == vnode_view(#[trigger] s[i]),
    decreases s,
{
    if s.len() > 0 {
        lemma_vnode_view_seq_index(s.drop_last());
        assert forall|i: int| 0 <= i < s.len() implies vnode_view_seq(s)[i] == vnode_view(
            #[trigger] s[i],
        ) by {
            if i < s.len() - 1 {
                assert(s.drop_last()[i] == s[i]);
                assert(vnode_view_seq(s)[i] == vnode_view_seq(s.drop_last())[i]);
            } else {
                assert(s.last() == s[i]);
            }
        }
    }
}

impl View for HtmlElement {
    type V = VNodeView;

    open spec fn view(&self) -> VNodeView {
        vnode_view(*self)
    }
}

impl HtmlElement {
    /// Build a virtual node. With a unique key the node's identity is the
    /// keyed identity for that key, the same on every render; without one it
    /// is a fresh generated identity drawn from `ids`, different on every
    /// render.
    pub fn new(
        ids: &mut IdGen,
        unique_key: Option<&str>,
        tag: &str,
        text: &str,
        class: &str,
        style: &str,
        listeners: Vec<(String, Action)>,
        children: Vec<HtmlElement>,
    ) -> (r: HtmlElement)
        requires
            listener_keys_unique(listeners@),
            unique_key is None ==> old(ids).next < u64::MAX,
        ensures
            match unique_key {
                Some(k) => r.id@ == spec_keyed(k@) && *final(ids) == *old(ids),
                None => r.id@ == spec_decimal(old(ids).next as nat) && final(ids).next == old(
                    ids,
                ).next + 1,
            },
            r.tag@ == tag@,
            r.text@ == text@,
            r.class@ == class@,
            r.style@ == style@,
            r.listeners == listeners,
            r.children == children,
    {
        let id = match unique_key {
            Some(k) => keyed_identity(k),
            None => ids.next_generated_identity(),
        };
        HtmlElement {
            id,
            tag: tag.to_owned(),
            text: text.to_owned(),
            class: class.to_owned(),
            style: style.to_owned(),
            listeners,
            children,
        }
    }

    /// This node's identity.
    pub fn get_id(&self) -> (r: String)
        ensures
            r@ == self.id@,
    {
        self.id.clone()
    }

    /// Register `listener` for each event name in `events`, in order; a name
    /// already in the bag keeps its place but gets the new handler (last
    /// registration wins).
    pub fn add_listener(&mut self, events: Vec<&str>, listener: Action)
        requires
            listener_keys_unique(old(self).listeners@),
        ensures
            listener_keys_unique(final(self).listeners@),
            listeners_view(final(self).listeners@) == spec_insert_all(
                listeners_view(old(self).listeners@),
                events@,
                listener,
            ),
            final(self).id == old(self).id,
            final(self).tag == old(self).tag,
            final(self).text == old(self).text,
            final(self).class == old(self).class,
            final(self).style == old(self).style,
            final(self).children == old(self).children,
    {
        let ghost m0 = listeners_view(self.listeners@);
        let n = events.len();
        let mut k: usize = 0;
        while k < n
            invariant
                n == events@.len(),
                k <= n,
                listener_keys_unique(self.listeners@),
                listeners_view(self.listeners@) == spec_insert_all(m0, events@.take(k as int), listener),
                self.id == old(self).id,
                self.tag == old(self).tag,
                self.text == old(self).text,
                self.class == old(self).class,
                self.style == old(self).style,
                self.children == old(self).children,
            decreases n - k,
        {
            let ev: &str = events[k];
            listener_insert(&mut self.listeners, ev, listener);
            proof {
                assert(events@.take(k as int + 1).drop_last() =~= events@.take(k as int));
                assert(events@.take(k as int + 1).last() == events@[k as int]);
            }
            k = k + 1;
        }
        proof {
            assert(events@.take(n as int) =~= events@);
        }
    }
}

/// Register `a` for `ev` in the bag: replace the handler of an existing entry
/// with that name, else append a new entry.
fn listener_insert(l: &mut Vec<(String, Action)>, ev: &str, a: Action)
    requires
        listener_keys_unique(old(l)@),
    ensures
        listener_keys_unique(final(l)@),
        listeners_view(final(l)@) == listeners_view(old(l)@).insert(ev@, a),
{
    let evs: String = ev.to_owned();
    let n = l.len();
    let mut i: usize = 0;
    while i < n
        invariant
            n == l@.len(),
            i <= n,
            *l == *old(l),
            evs@ == ev@,
            listener_keys_unique(l@),
            forall|j: int| 0 <= j < i ==> l@[j].0@ != ev@,
        decreases n - i,
    {
        if l[i].0 == evs {
            proof {
                lemma_view_update(l@, i as int, a);
            }
            let p = &mut l[i];
            p.1 = a;
            proof {
                assert(l@ =~= old(l)@.update(i as int, (old(l)@[i as int].0, a)));
            }
            return ;
        }
        i = i + 1;
    }
    proof {
        lemma_view_domain(l@, ev@);
    }
    l.push((evs, a));
    proof {
        assert(l@.drop_last() =~= old(l)@);
        assert(l@.last() == (evs, a));
        assert(listeners_view(l@) =~= listeners_view(old(l)@).insert(ev@, a));
    }
}

} // verus!
