//! A model of the host document: the external, stateful UI tree the core
//! renders into. It offers exactly the capability set the reconciler needs:
//! resolve a node by identity, create or update nodes, replace listeners, and
//! read or write the textual value of an editable node. Keeping the model in
//! the crate lets the whole render loop be verified; the model also counts
//! create and update operations so that identity continuity is observable.

use vstd::prelude::*;
use crate::html::{Action, listener_keys_unique, listeners_view};

verus! {

/// The mathematical model of a host node, mirroring [`crate::html::VNodeView`]
/// plus the `value` a user may have typed into an editable node.
#[verifier::ext_equal]
pub struct HostView {
    pub id: Seq<char>,
    pub tag: Seq<char>,
    pub text: Seq<char>,
    pub class: Seq<char>,
    pub style: Seq<char>,
    pub value: Seq<char>,
    pub listeners: Map<Seq<char>, Action>,
    pub children: Seq<HostView>,
}

/// One live node of the host document.
#[derive(Debug)]
pub struct HostNode {
    pub id: String,
    pub tag: String,
    pub text: String,
    pub class: String,
    pub style: String,
    pub value: String,
    pub listeners: Vec<(String, Action)>,
    pub children: Vec<HostNode>,
}

/// The host document: at most one root under the designated container.
#[derive(Debug)]
pub struct HostDoc {
    pub root: Option<HostNode>,
}

/// Whether a node with this tag supports text-value read/write (an editable,
/// input-style node).
pub open spec fn is_editable(tag: Seq<char>) -> bool {
    tag == "textarea"@
}

/// The model of a host node.
pub open spec fn host_view(h: HostNode) -> HostView
    decreases h,
{
    HostView {
        id: h.id@,
        tag: h.tag@,
        text: h.text@,
        class: h.class@,
        style: h.style@,
        value: h.value@,
        listeners: listeners_view(h.listeners@),
        children: host_view_seq(h.children@),
    }
}

/// The models of a sequence of host nodes, in order.
pub open spec fn host_view_seq(s: Seq<HostNode>) -> Seq<HostView>
    decreases s,
{
    if s.len() == 0 {
        Seq::empty()
    } else {
        host_view_seq(s.drop_last()).push(host_view(s.last()))
    }
}

/// [`host_view_seq`] maps [`host_view`] over the sequence, element by element.
pub proof fn lemma_host_view_seq_index(s: Seq<HostNode>)
    ensures
        host_view_seq(s).len() == s.len(),
        forall|i: int| 0 <= i < s.len() ==> host_view_seq(s)[i] == host_view(#[trigger] s[i]),
    decreases s,
{
    if s.len() > 0 {
        lemma_host_view_seq_index(s.drop_last());
        assert forall|i: int| 0 <= i < s.len() implies host_view_seq(s)[i] == host_view(
            #[trigger] s[i],
        ) by {
            if i < s.len() - 1 {
                assert(s.drop_last()[i] == s[i]);
                assert(host_view_seq(s)[i] == host_view_seq(s.drop_last())[i]);
            } else {
                assert(s.last() == s[i]);
            }
        }
    }
}

impl View for HostNode {
    type V = HostView;

    open spec fn view(&self) -> HostView {
        host_view(*self)
    }
}

/// The model of the whole document.
pub open spec fn doc_view(d: HostDoc) -> Option<HostView> {
    match d.root {
        None => None,
        Some(r) => Some(host_view(r)),
    }
}

/// A well-formed host tree: every listener bag in it has unique keys.
pub open spec fn wf_host(h: HostNode) -> bool
    decreases h,
{
    listener_keys_unique(h.listeners@) && (forall|i: int|
        0 <= i < h.children@.len() ==> wf_host(#[trigger] h.children@[i]))
}

/// A well-formed document: its root tree, if any, is well-formed.
pub open spec fn wf_doc(d: HostDoc) -> bool {
    match d.root {
        None => true,
        Some(r) => wf_host(r),
    }
}

/// Resolve a node by its identity: the first match in document order
/// (preorder), or `None` if the identity is absent.
pub open spec fn spec_find(h: HostView, id: Seq<char>) -> Option<HostView>
    decreases h,
{
    if h.id == id {
        Some(h)
    } else {
        spec_find_seq(h.children, id)
    }
}

/// See [`spec_find`].
pub open spec fn spec_find_seq(s: Seq<HostView>, id: Seq<char>) -> Option<HostView>
    decreases s,
{
    if s.len() == 0 {
        None
    } else {
        match spec_find(s[0], id) {
            Some(n) => Some(n),
            None => spec_find_seq(s.drop_first(), id),
        }
    }
}

/// A sequence of trees resolves an identity exactly when one of them does.
pub proof fn lemma_find_seq_exists(s: Seq<HostView>, id: Seq<char>)
    ensures
        spec_find_seq(s, id) is Some <==> exists|i: int|
            0 <= i < s.len() && spec_find(#[trigger] s[i], id) is Some,
    decreases s,
{
    if s.len() > 0 {
        let tl = s.drop_first();
        lemma_find_seq_exists(tl, id);
        if spec_find(s[0], id) is Some {
        } else if spec_find_seq(tl, id) is Some {
            let i = choose|i: int| 0 <= i < tl.len() && spec_find(#[trigger] tl[i], id) is Some;
            assert(s[i + 1] == tl[i]);
        } else {
            assert forall|i: int| 0 <= i < s.len() implies spec_find(#[trigger] s[i], id)
                is None by {
                if i > 0 {
                    assert(tl[i - 1] == s[i]);
                }
            }
        }
    }
}

/// Resolve a node by identity in the whole document.
pub open spec fn spec_doc_find(d: HostDoc, id: Seq<char>) -> Option<HostView> {
    match doc_view(d) {
        None => None,
        Some(r) => spec_find(r, id),
    }
}

/// Resolve a node by its identity, returning the first match in document
/// order, or `None` if absent.
pub fn find_node<'a>(h: &'a HostNode, id: &String) -> (r: Option<&'a HostNode>)
    ensures
        match r {
            Some(n) => spec_find(h@, id@) == Some(n@) && (wf_host(*h) ==> wf_host(*n)),
            None => spec_find(h@, id@) is None,
        },
    decreases *h,
{
    if h.id == *id {
        return Some(h);
    }
    let n = h.children.len();
    let mut i: usize = 0;
    proof {
        lemma_host_view_seq_index(h.children@);
        assert(h@.children.skip(0) =~= h@.children);
        if wf_host(*h) {
            assert(forall|j: int| 0 <= j < n ==> wf_host(#[trigger] h.children@[j]));
        }
    }
    while i < n
        invariant
            n == h.children@.len(),
            i <= n,
            h.id@ != id@,
            h@.children.len() == n,
            spec_find(h@, id@) == spec_find_seq(h@.children.skip(i as int), id@),
            forall|j: int|
                0 <= j < n ==> h@.children[j] == host_view(#[trigger] h.children@[j]),
            wf_host(*h) ==> (forall|j: int|
                0 <= j < n ==> wf_host(#[trigger] h.children@[j])),
        decreases n - i,
    {
        proof {
            assert(h@.children.skip(i as int)[0] == h@.children[i as int]);
            assert(h@.children.skip(i as int).drop_first() =~= h@.children.skip(i as int + 1));
        }
        proof {
            if wf_host(*h) {
                assert(wf_host(h.children@[i as int]));
            }
        }
        match find_node(&h.children[i], id) {
            Some(f) => {
                proof {
                    assert(spec_find_seq(h@.children.skip(i as int), id@) == Some(f@));
                }
                return Some(f);
            },
            None => {},
        }
        i = i + 1;
    }
    None
}

impl HostDoc {
    /// An empty document: nothing mounted yet.
    pub fn new() -> (d: HostDoc)
        ensures
            d.root is None,
    {
        HostDoc { root: None }
    }
}

/// The current textual value of the editable node with this identity: `None`
/// if the identity is absent or the node does not support text values.
pub open spec fn spec_element_value(d: HostDoc, id: Seq<char>) -> Option<Seq<char>> {
    match spec_doc_find(d, id) {
        Some(n) => if is_editable(n.tag) {
            Some(n.value)
        } else {
            None
        },
        None => None,
    }
}

/// Replace the value of the first node in document order carrying `id`, if it
/// is editable. The second component tells what happened: `Some(true)` — found
/// and set; `Some(false)` — found, but the node does not support text values
/// (nothing changed); `None` — no such node.
pub open spec fn spec_set_value(h: HostView, id: Seq<char>, val: Seq<char>) -> (HostView, Option<
    bool,
>)
    decreases h,
{
    if h.id == id {
        if is_editable(h.tag) {
            (HostView { value: val, ..h }, Some(true))
        } else {
            (h, Some(false))
        }
    } else {
        let r = spec_set_value_seq(h.children, id, val);
        (HostView { children: r.0, ..h }, r.1)
    }
}

/// See [`spec_set_value`].
pub open spec fn spec_set_value_seq(s: Seq<HostView>, id: Seq<char>, val: Seq<char>) -> (Seq<
    HostView,
>, Option<bool>)
    decreases s,
{
    if s.len() == 0 {
        (s, None)
    } else {
        let hd = spec_set_value(s[0], id, val);
        if hd.1 is Some {
            (s.update(0, hd.0), hd.1)
        } else {
            let tl = spec_set_value_seq(s.drop_first(), id, val);
            (seq![s[0]] + tl.0, tl.1)
        }
    }
}

/// When no node carries the identity, setting a value changes nothing.
pub proof fn lemma_set_value_miss(h: HostView, id: Seq<char>, val: Seq<char>)
    requires
        spec_set_value(h, id, val).1 is None,
    ensures
        spec_set_value(h, id, val).0 == h,
    decreases h,
{
    if h.id != id {
        lemma_set_value_seq_miss(h.children, id, val);
        assert(spec_set_value(h, id, val).0 =~= h);
    }
}

/// See [`lemma_set_value_miss`].
pub proof fn lemma_set_value_seq_miss(s: Seq<HostView>, id: Seq<char>, val: Seq<char>)
    requires
        spec_set_value_seq(s, id, val).1 is None,
    ensures
        spec_set_value_seq(s, id, val).0 == s,
    decreases s,
{
    if s.len() > 0 {
        lemma_set_value_miss(s[0], id, val);
        lemma_set_value_seq_miss(s.drop_first(), id, val);
        assert(spec_set_value_seq(s, id, val).0 =~= s);
    }
}

/// Scanning children in order: if the first `i` children do not carry the
/// identity and child `i` resolves it, the whole sequence resolves it at `i`.
proof fn lemma_set_value_seq_at(s: Seq<HostView>, id: Seq<char>, val: Seq<char>, i: int)
    requires
        0 <= i < s.len(),
        forall|j: int| 0 <= j < i ==> spec_set_value(#[trigger] s[j], id, val).1 is None,
        spec_set_value(s[i], id, val).1 is Some,
    ensures
        spec_set_value_seq(s, id, val).0 =~= s.update(i, spec_set_value(s[i], id, val).0),
        spec_set_value_seq(s, id, val).1 == spec_set_value(s[i], id, val).1,
    decreases s,
{
    if i == 0 {
    } else {
        lemma_set_value_miss(s[0], id, val);
        let tl = s.drop_first();
        assert(forall|j: int| 0 <= j < i - 1 ==> spec_set_value(#[trigger] tl[j], id, val).1
            is None) by {
            assert(forall|j: int| 0 <= j < i - 1 ==> tl[j] == s[j + 1]);
        }
        lemma_set_value_seq_at(tl, id, val, i - 1);
        assert(spec_set_value_seq(s, id, val).0 =~= s.update(i, spec_set_value(s[i], id, val).0));
    }
}

/// If no child resolves the identity, scanning them changes nothing.
proof fn lemma_set_value_seq_none(s: Seq<HostView>, id: Seq<char>, val: Seq<char>)
    requires
        forall|j: int| 0 <= j < s.len() ==> spec_set_value(#[trigger] s[j], id, val).1 is None,
    ensures
        spec_set_value_seq(s, id, val).1 is None,
        spec_set_value_seq(s, id, val).0 == s,
    decreases s,
{
    if s.len() > 0 {
        let tl = s.drop_first();
        assert(forall|j: int| 0 <= j < tl.len() ==> spec_set_value(#[trigger] tl[j], id, val).1
            is None) by {
            assert(forall|j: int| 0 <= j < tl.len() ==> tl[j] == s[j + 1]);
        }
        lemma_set_value_seq_none(tl, id, val);
        assert(spec_set_value_seq(s, id, val).0 =~= s);
    }
}

/// Replace the value of the first node carrying `id`, if that node is
/// editable; report what happened as in [`spec_set_value`].
fn set_value_rec(h: &mut HostNode, id: &String, value: &String) -> (r: Option<bool>)
    ensures
        host_view(*final(h)) == spec_set_value(host_view(*old(h)), id@, value@).0,
        r == spec_set_value(host_view(*old(h)), id@, value@).1,
    decreases host_view(*old(h)),
{
    if h.id == *id {
        if is_editable_tag(&h.tag) {
            h.value = value.clone();
            proof {
                assert(host_view(*h) =~= spec_set_value(host_view(*old(h)), id@, value@).0);
            }
            return Some(true);
        } else {
            return Some(false);
        }
    }
    let ghost h0 = host_view(*old(h));
    let n = h.children.len();
    let mut i: usize = 0;
    proof {
        lemma_host_view_seq_index(h.children@);
    }
    while i < n
        invariant
            n == h.children@.len(),
            i <= n,
            host_view(*h) == h0,
            h0 == host_view(*old(h)),
            h.id@ != id@,
            h0.children.len() == n,
            forall|j: int|
                0 <= j < i ==> spec_set_value(#[trigger] h0.children[j], id@, value@).1 is None,
        decreases n - i,
    {
        let ghost pre = h.children@;
        proof {
            lemma_host_view_seq_index(pre);
            assert(host_view_seq(pre) == h0.children);
            assert(host_view(pre[i as int]) == h0.children[i as int]);
        }
        let r = set_value_rec(&mut h.children[i], id, value);
        proof {
            let sv = spec_set_value(h0.children[i as int], id@, value@);
            assert(h.children@ =~= pre.update(i as int, h.children@[i as int]));
            lemma_host_view_seq_index(h.children@);
            assert forall|k: int| 0 <= k < n implies host_view_seq(h.children@)[k] == (if k
                == i as int {
                sv.0
            } else {
                h0.children[k]
            }) by {
                assert(host_view_seq(h.children@)[k] == host_view(h.children@[k]));
                if k != i as int {
                    assert(h.children@[k] == pre[k]);
                    assert(host_view_seq(pre)[k] == host_view(pre[k]));
                }
            }
            if r is Some {
                lemma_set_value_seq_at(h0.children, id@, value@, i as int);
                assert(host_view_seq(h.children@) =~= h0.children.update(i as int, sv.0));
                assert(host_view(*h) =~= spec_set_value(h0, id@, value@).0);
            } else {
                lemma_set_value_miss(h0.children[i as int], id@, value@);
                assert(host_view_seq(h.children@) =~= h0.children);
                assert(host_view(*h) =~= h0);
            }
        }
        if r.is_some() {
            return r;
        }
        i = i + 1;
    }
    proof {
        lemma_set_value_seq_none(h0.children, id@, value@);
        assert(host_view(*h) =~= spec_set_value(h0, id@, value@).0);
    }
    None
}

impl crate::html::HtmlElement {
    /// Read the current textual value of the editable node with this
    /// identity: what the user has typed into it so far. `None` when the
    /// identity is absent or the node does not support text values.
    pub fn get_dom_element_value(id: &String, doc: &HostDoc) -> (r: Option<String>)
        ensures
            match r {
                Some(v) => spec_element_value(*doc, id@) == Some(v@),
                None => spec_element_value(*doc, id@) is None,
            },
    {
        match &doc.root {
            None => None,
            Some(root) => match find_node(root, id) {
                None => None,
                Some(n) => if is_editable_tag(&n.tag) {
                    Some(n.value.clone())
                } else {
                    None
                },
            },
        }
    }

    /// Write the textual value of the first node carrying this identity, if
    /// that node supports text values; report whether a value was written.
    /// Absence of the identity is not an error: nothing changes.
    pub fn try_set_dom_element_value(id: &String, doc: &mut HostDoc, value: String) -> (set: bool)
        ensures
            match doc_view(*old(doc)) {
                None => *final(doc) == *old(doc) && !set,
                Some(rv) => doc_view(*final(doc)) == Some(spec_set_value(rv, id@, value@).0) && set
                    == (spec_set_value(rv, id@, value@).1 == Some(true)),
            },
    {
        let root = doc.root.take();
        match root {
            None => {
                false
            },
            Some(mut r) => {
                let res = set_value_rec(&mut r, id, &value);
                doc.root = Some(r);
                match res {
                    Some(true) => true,
                    _ => false,
                }
            },
        }
    }
}

/// Whether this tag's nodes support text-value read/write.
pub fn is_editable_tag(tag: &String) -> (b: bool)
    ensures
        b == is_editable(tag@),
{
    let t: String = String::from_str("textarea");
    proof {
        reveal_strlit("textarea");
    }
    *tag == t
}

} // verus!
