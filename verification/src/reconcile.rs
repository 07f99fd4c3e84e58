//! The reconciler / mount engine. It walks a virtual tree and, for each node,
//! either reuses a matching existing host node (same identity and same tag) or
//! creates a new one; sets text, class, style and value unconditionally;
//! replaces all listeners; recurses into children in order; and mounts the
//! root under the document's container, structurally replacing a previous
//! root. [`spec_build`] is the functional specification of the whole pass; the
//! executable engine is proved equal to it, and the identity-continuity laws
//! are proved about it.

use vstd::prelude::*;
use crate::html::{
    HtmlElement,
    VNodeView,
    Action,
    vnode_view,
    wf_tree,
    lemma_vnode_view_seq_index,
};
use crate::host::{
    HostNode,
    HostDoc,
    HostView,
    host_view,
    host_view_seq,
    doc_view,
    wf_doc,
    wf_host,
    spec_find,
    spec_find_seq,
    find_node,
    lemma_host_view_seq_index,
    lemma_find_seq_exists,
};
use crate::ident::{spec_keyed, spec_decimal, lemma_keyed_never_generated, lemma_decimal_injective};

verus! {

/// How many nodes a virtual tree holds.
pub open spec fn spec_node_count(v: VNodeView) -> nat
    decreases v,
{
    1 + spec_node_count_seq(v.children)
}

/// See [`spec_node_count`].
pub open spec fn spec_node_count_seq(s: Seq<VNodeView>) -> nat
    decreases s,
{
    if s.len() == 0 {
        0
    } else {
        spec_node_count_seq(s.drop_last()) + spec_node_count(s.last())
    }
}

/// Whether the reconciler reuses an existing host node for `v`: the previous
/// tree resolves `v`'s identity and the resolved node carries `v`'s tag. A
/// node whose identity resolves to a differently-tagged host node is created
/// anew, never retagged in place.
pub open spec fn spec_reused(old: Option<HostView>, v: VNodeView) -> bool {
    match old {
        None => false,
        Some(r) => match spec_find(r, v.id) {
            Some(n) => n.tag == v.tag,
            None => false,
        },
    }
}

/// What one reconciliation pass produces for `v` against the previous root
/// `old`: the resulting host tree, the number of nodes created, and the
/// number of host nodes reused and updated in place. Every produced node
/// carries `v`'s text, class, style and listener bag unconditionally (no
/// fine-grained diffing); its value tracks the text, whether the node was
/// created or updated; identity lookups for every node of the pass go against
/// the same previous root.
pub open spec fn spec_build(old: Option<HostView>, v: VNodeView) -> (HostView, nat, nat)
    decreases v,
{
    let kids = spec_build_seq(old, v.children);
    let node = HostView {
        id: v.id,
        tag: v.tag,
        text: v.text,
        class: v.class,
        style: v.style,
        value: v.text,
        listeners: v.listeners,
        children: kids.0,
    };
    if spec_reused(old, v) {
        (node, kids.1, kids.2 + 1)
    } else {
        (node, kids.1 + 1, kids.2)
    }
}

/// See [`spec_build`]: children are processed in order.
pub open spec fn spec_build_seq(old: Option<HostView>, s: Seq<VNodeView>) -> (Seq<HostView>, nat, nat)
    decreases s,
{
    if s.len() == 0 {
        (Seq::empty(), 0, 0)
    } else {
        let front = spec_build_seq(old, s.drop_last());
        let last = spec_build(old, s.last());
        (front.0.push(last.0), front.1 + last.1, front.2 + last.2)
    }
}

/// Every node of the pass is either created or updated: the two counts sum to
/// the size of the virtual tree.
pub proof fn lemma_build_counts(old: Option<HostView>, v: VNodeView)
    ensures
        spec_build(old, v).1 + spec_build(old, v).2 == spec_node_count(v),
    decreases v,
{
    lemma_build_counts_seq(old, v.children);
}

/// See [`lemma_build_counts`].
pub proof fn lemma_build_counts_seq(old: Option<HostView>, s: Seq<VNodeView>)
    ensures
        spec_build_seq(old, s).1 + spec_build_seq(old, s).2 == spec_node_count_seq(s),
    decreases s,
{
    if s.len() > 0 {
        lemma_build_counts_seq(old, s.drop_last());
        lemma_build_counts(old, s.last());
    }
}

proof fn lemma_count_seq_take_succ(s: Seq<VNodeView>, i: int)
    requires
        0 <= i < s.len(),
    ensures
        spec_node_count_seq(s.take(i + 1)) == spec_node_count_seq(s.take(i)) + spec_node_count(
            s[i],
        ),
{
    assert(s.take(i + 1).drop_last() =~= s.take(i));
    assert(s.take(i + 1).last() == s[i]);
}

proof fn lemma_count_seq_prefix(s: Seq<VNodeView>, i: int)
    requires
        0 <= i <= s.len(),
    ensures
        spec_node_count_seq(s.take(i)) <= spec_node_count_seq(s),
    decreases s.len() - i,
{
    if i == s.len() {
        assert(s.take(i) =~= s);
    } else {
        lemma_count_seq_take_succ(s, i);
        lemma_count_seq_prefix(s, i + 1);
    }
}

/// What one reconciliation pass did: how many host nodes it created and how
/// many it reused and updated in place.
#[derive(Clone, Copy, PartialEq, Eq, Structural, Debug)]
pub struct RenderStats {
    pub created: u64,
    pub updated: u64,
}

/// The previous root a pass reconciles against, as a model.
pub open spec fn opt_view(old_root: Option<&HostNode>) -> Option<HostView> {
    match old_root {
        None => None,
        Some(h) => Some(host_view(*h)),
    }
}

/// Copy a listener bag onto a host node.
fn clone_listeners(l: &Vec<(String, Action)>) -> (r: Vec<(String, Action)>)
    ensures
        r@ == l@,
{
    let n = l.len();
    let mut r: Vec<(String, Action)> = Vec::new();
    let mut i: usize = 0;
    while i < n
        invariant
            n == l@.len(),
            i <= n,
            r@ =~= l@.take(i as int),
        decreases n - i,
    {
        r.push((l[i].0.clone(), l[i].1));
        proof {
            assert(r@ =~= l@.take(i as int + 1));
        }
        i = i + 1;
    }
    proof {
        assert(l@.take(n as int) =~= l@);
    }
    r
}

/// Project `v` onto a host tree: reuse the host node with `v`'s identity if
/// the previous root resolves it with the same tag, else create one; set its
/// properties unconditionally; replace its listeners; recurse into children
/// in order. Returns the tree together with the create and update counts.
fn make_tree(old_root: Option<&HostNode>, v: &HtmlElement) -> (r: (HostNode, u64, u64))
    requires
        wf_tree(*v),
        spec_node_count(vnode_view(*v)) <= u64::MAX,
    ensures
        ({
            let b = spec_build(opt_view(old_root), vnode_view(*v));
            host_view(r.0) == b.0 && r.1 == b.1 && r.2 == b.2 && wf_host(r.0)
        }),
    decreases *v,
{
    let ghost ov = opt_view(old_root);
    let ghost vv = vnode_view(*v);
    let reused: bool = match old_root {
        None => false,
        Some(root) => match find_node(root, &v.id) {
            Some(n) => n.tag == v.tag,
            None => false,
        },
    };
    proof {
        assert(reused == spec_reused(ov, vv));
        lemma_vnode_view_seq_index(v.children@);
    }
    let n = v.children.len();
    let mut kids: Vec<HostNode> = Vec::new();
    let mut created: u64 = 0;
    let mut updated: u64 = 0;
    let mut i: usize = 0;
    while i < n
        invariant
            n == v.children@.len(),
            i <= n,
            wf_tree(*v),
            spec_node_count(vv) <= u64::MAX,
            vv == vnode_view(*v),
            ov == opt_view(old_root),
            vv.children.len() == n,
            forall|j: int|
                0 <= j < n ==> vv.children[j] == vnode_view(#[trigger] v.children@[j]),
            host_view_seq(kids@) == spec_build_seq(ov, vv.children.take(i as int)).0,
            created == spec_build_seq(ov, vv.children.take(i as int)).1,
            updated == spec_build_seq(ov, vv.children.take(i as int)).2,
            forall|j: int| 0 <= j < kids@.len() ==> wf_host(#[trigger] kids@[j]),
        decreases n - i,
    {
        proof {
            assert(wf_tree(v.children@[i as int]));
            assert(spec_node_count(vv.children[i as int]) <= u64::MAX) by {
                lemma_count_seq_take_succ(vv.children, i as int);
                lemma_count_seq_prefix(vv.children, i as int + 1);
            }
        }
        let child = make_tree(old_root, &v.children[i]);
        proof {
            let b = spec_build(ov, vv.children[i as int]);
            lemma_count_seq_take_succ(vv.children, i as int);
            lemma_count_seq_prefix(vv.children, i as int + 1);
            lemma_build_counts_seq(ov, vv.children.take(i as int));
            lemma_build_counts(ov, vv.children[i as int]);
            assert(vv.children.take(i as int + 1).drop_last() =~= vv.children.take(i as int));
            assert(vv.children.take(i as int + 1).last() == vv.children[i as int]);
            assert(host_view_seq(kids@.push(child.0)) =~= host_view_seq(kids@).push(
                host_view(child.0),
            )) by {
                assert(kids@.push(child.0).drop_last() =~= kids@);
                assert(kids@.push(child.0).last() == child.0);
            }
        }
        let (knode, kc, ku) = child;
        kids.push(knode);
        created = created + kc;
        updated = updated + ku;
        i = i + 1;
    }
    proof {
        assert(vv.children.take(n as int) =~= vv.children);
        lemma_build_counts_seq(ov, vv.children);
    }
    let node = HostNode {
        id: v.id.clone(),
        tag: v.tag.clone(),
        text: v.text.clone(),
        class: v.class.clone(),
        style: v.style.clone(),
        value: v.text.clone(),
        listeners: clone_listeners(&v.listeners),
        children: kids,
    };
    proof {
        assert(host_view(node) =~= spec_build(ov, vv).0);
    }
    if reused {
        (node, created, updated + 1)
    } else {
        (node, created + 1, updated)
    }
}

/// Listener replacement is replace-all: whether a node was reused or created,
/// the pass leaves exactly the new tree's listener bag on it — an event absent
/// from the new bag has no handler left (the old one is fully removed), and an
/// event present in it has exactly the new handler, never an accumulation of
/// old and new.
pub proof fn lemma_listeners_replaced(old: Option<HostView>, v: VNodeView)
    ensures
        spec_build(old, v).0.listeners == v.listeners,
        forall|ev: Seq<char>|
            !v.listeners.contains_key(ev) ==> !spec_build(old, v).0.listeners.contains_key(ev),
        forall|ev: Seq<char>|
            v.listeners.contains_key(ev) ==> spec_build(old, v).0.listeners[ev]
                == v.listeners[ev],
{
}

/// Identity continuity: a pass's output carries the identities and tags of the
/// tree it rendered, so a node rendered with the same identity and the same
/// tag in the next pass — in particular one pinned by a keyed identity — is
/// reused, not recreated.
pub proof fn lemma_second_render_reuses_root(old: Option<HostView>, v1: VNodeView, v2: VNodeView)
    requires
        v2.id == v1.id,
        v2.tag == v1.tag,
    ensures
        spec_reused(Some(spec_build(old, v1).0), v2),
{
}

/// A single-node tree is updated in place exactly when it is reused, and
/// created anew exactly when it is not.
pub proof fn lemma_reuse_counts(old: Option<HostView>, v: VNodeView)
    requires
        v.children.len() == 0,
    ensures
        spec_build(old, v).2 == if spec_reused(old, v) {
            1nat
        } else {
            0nat
        },
        spec_build(old, v).1 == if spec_reused(old, v) {
            0nat
        } else {
            1nat
        },
{
}

/// Identity continuity for keyed nodes, across two successive renders: a
/// single-node tree rendered with the same keyed identity and tag as the
/// previous pass's root — however its text and attributes changed — is reused
/// and updated in place: the second pass creates nothing and updates exactly
/// one host node.
pub proof fn lemma_keyed_second_pass(old: Option<HostView>, v1: VNodeView, v2: VNodeView)
    requires
        v2.id == v1.id,
        v2.tag == v1.tag,
        v2.children.len() == 0,
    ensures
        spec_build(Some(spec_build(old, v1).0), v2).1 == 0,
        spec_build(Some(spec_build(old, v1).0), v2).2 == 1,
{
    lemma_second_render_reuses_root(old, v1, v2);
    lemma_reuse_counts(Some(spec_build(old, v1).0), v2);
}

/// Whether some node of the virtual tree carries this identity.
pub open spec fn vnode_has_id(v: VNodeView, id: Seq<char>) -> bool
    decreases v,
{
    v.id == id || exists|i: int|
        0 <= i < v.children.len() && vnode_has_id(#[trigger] v.children[i], id)
}

/// [`spec_build_seq`] builds one host tree per virtual node, in order.
pub proof fn lemma_build_seq_index(old: Option<HostView>, s: Seq<VNodeView>)
    ensures
        spec_build_seq(old, s).0.len() == s.len(),
        forall|i: int|
            0 <= i < s.len() ==> spec_build_seq(old, s).0[i] == spec_build(
                old,
                #[trigger] s[i],
            ).0,
    decreases s,
{
    if s.len() > 0 {
        lemma_build_seq_index(old, s.drop_last());
        assert forall|i: int| 0 <= i < s.len() implies spec_build_seq(old, s).0[i] == spec_build(
            old,
            #[trigger] s[i],
        ).0 by {
            if i < s.len() - 1 {
                assert(s.drop_last()[i] == s[i]);
                assert(spec_build_seq(old, s).0[i] == spec_build_seq(old, s.drop_last()).0[i]);
            } else {
                assert(s.last() == s[i]);
            }
        }
    }
}

/// A pass's output carries exactly the identities of the tree it rendered:
/// an identity resolves in the built tree exactly when some virtual node
/// carried it.
pub proof fn lemma_build_has_id(old: Option<HostView>, v: VNodeView, id: Seq<char>)
    ensures
        spec_find(spec_build(old, v).0, id) is Some <==> vnode_has_id(v, id),
    decreases v,
{
    let b = spec_build(old, v).0;
    lemma_build_seq_index(old, v.children);
    lemma_find_seq_exists(b.children, id);
    if v.id == id {
    } else {
        assert forall|i: int| 0 <= i < v.children.len() implies (spec_find(
            #[trigger] b.children[i],
            id,
        ) is Some <==> vnode_has_id(v.children[i], id)) by {
            lemma_build_has_id(old, v.children[i], id);
        }
    }
}

/// Resolve a virtual node by identity: the first match in preorder, the same
/// order in which the host document resolves identities.
pub open spec fn vnode_find(v: VNodeView, id: Seq<char>) -> Option<VNodeView>
    decreases v,
{
    if v.id == id {
        Some(v)
    } else {
        vnode_find_seq(v.children, id)
    }
}

/// See [`vnode_find`].
pub open spec fn vnode_find_seq(s: Seq<VNodeView>, id: Seq<char>) -> Option<VNodeView>
    decreases s,
{
    if s.len() == 0 {
        None
    } else {
        match vnode_find(s[0], id) {
            Some(u) => Some(u),
            None => vnode_find_seq(s.drop_first(), id),
        }
    }
}

/// Scanning siblings in order: the first one that resolves the identity
/// answers for the whole sequence.
pub proof fn lemma_vnode_find_seq_at(s: Seq<VNodeView>, k: Seq<char>, i: int)
    requires
        0 <= i < s.len(),
        forall|j: int| 0 <= j < i ==> vnode_find(#[trigger] s[j], k) is None,
        vnode_find(s[i], k) is Some,
    ensures
        vnode_find_seq(s, k) == vnode_find(s[i], k),
    decreases s,
{
    if i > 0 {
        let tl = s.drop_first();
        assert(forall|j: int| 0 <= j < i - 1 ==> vnode_find(#[trigger] tl[j], k) is None) by {
            assert(forall|j: int| 0 <= j < i - 1 ==> tl[j] == s[j + 1]);
        }
        assert(tl[i - 1] == s[i]);
        lemma_vnode_find_seq_at(tl, k, i - 1);
    }
}

/// If no sibling resolves the identity, the sequence does not either.
pub proof fn lemma_vnode_find_seq_none(s: Seq<VNodeView>, k: Seq<char>)
    requires
        forall|j: int| 0 <= j < s.len() ==> vnode_find(#[trigger] s[j], k) is None,
    ensures
        vnode_find_seq(s, k) is None,
    decreases s,
{
    if s.len() > 0 {
        let tl = s.drop_first();
        assert(forall|j: int| 0 <= j < tl.len() ==> vnode_find(#[trigger] tl[j], k) is None) by {
            assert(forall|j: int| 0 <= j < tl.len() ==> tl[j] == s[j + 1]);
        }
        lemma_vnode_find_seq_none(tl, k);
    }
}

/// The pass mirrors the virtual tree node for node: resolving an identity in
/// the built tree finds exactly the host node built for the virtual node that
/// the virtual tree resolves it to.
pub proof fn lemma_find_build(old: Option<HostView>, v: VNodeView, id: Seq<char>)
    ensures
        spec_find(spec_build(old, v).0, id) == match vnode_find(v, id) {
            None => None::<HostView>,
            Some(u) => Some(spec_build(old, u).0),
        },
    decreases v,
{
    if v.id != id {
        lemma_find_build_seq(old, v.children, id);
    }
}

/// See [`lemma_find_build`].
pub proof fn lemma_find_build_seq(old: Option<HostView>, s: Seq<VNodeView>, id: Seq<char>)
    ensures
        spec_find_seq(spec_build_seq(old, s).0, id) == match vnode_find_seq(s, id) {
            None => None::<HostView>,
            Some(u) => Some(spec_build(old, u).0),
        },
    decreases s,
{
    lemma_build_seq_index(old, s);
    if s.len() > 0 {
        let hs = spec_build_seq(old, s).0;
        assert(hs[0] == spec_build(old, s[0]).0);
        lemma_find_build(old, s[0], id);
        if vnode_find(s[0], id) is None {
            let tl = s.drop_first();
            lemma_build_seq_index(old, tl);
            assert(hs.drop_first() =~= spec_build_seq(old, tl).0) by {
                assert forall|j: int| 0 <= j < tl.len() implies hs.drop_first()[j]
                    == spec_build_seq(old, tl).0[j] by {
                    assert(tl[j] == s[j + 1]);
                    assert(hs.drop_first()[j] == hs[j + 1]);
                    assert(hs[j + 1] == spec_build(old, s[j + 1]).0);
                    assert(spec_build_seq(old, tl).0[j] == spec_build(old, tl[j]).0);
                }
            }
            lemma_find_build_seq(old, tl, id);
        }
    }
}

/// Every identity of the virtual tree is accounted for: either keyed, or
/// generated from a counter value below `n`.
pub open spec fn ids_below(v: VNodeView, n: nat) -> bool
    decreases v,
{
    ((exists|k: Seq<char>| v.id == spec_keyed(k)) || (exists|m: nat|
        m < n && v.id == spec_decimal(m))) && (forall|i: int|
        0 <= i < v.children.len() ==> ids_below(#[trigger] v.children[i], n))
}

/// A tree whose identities are keyed or generated below `n` never carries an
/// identity generated at or after `n`.
pub proof fn lemma_ids_below_no_generated(v: VNodeView, n: nat, g: nat)
    requires
        ids_below(v, n),
        n <= g,
    ensures
        !vnode_has_id(v, spec_decimal(g)),
    decreases v,
{
    if v.id == spec_decimal(g) {
        if exists|k: Seq<char>| v.id == spec_keyed(k) {
            let k = choose|k: Seq<char>| v.id == spec_keyed(k);
            lemma_keyed_never_generated(k, g);
        } else {
            let m = choose|m: nat| m < n && v.id == spec_decimal(m);
            lemma_decimal_injective(m, g);
        }
    }
    assert forall|i: int| 0 <= i < v.children.len() implies !vnode_has_id(
        #[trigger] v.children[i],
        spec_decimal(g),
    ) by {
        lemma_ids_below_no_generated(v.children[i], n, g);
    }
}

/// Identity discontinuity for generated nodes: a node carrying an identity
/// generated at or after `n` is never reused against the output of a pass
/// whose tree only held keyed identities and identities generated below `n`,
/// whatever tree position either node occupies.
pub proof fn lemma_generated_node_not_reused(
    old: Option<HostView>,
    v1: VNodeView,
    n: nat,
    v2: VNodeView,
    g: nat,
)
    requires
        ids_below(v1, n),
        n <= g,
        v2.id == spec_decimal(g),
    ensures
        !spec_reused(Some(spec_build(old, v1).0), v2),
{
    lemma_ids_below_no_generated(v1, n, g);
    lemma_build_has_id(old, v1, spec_decimal(g));
}

/// Every identity of the virtual tree is generated, from a counter value at
/// or after `n`.
pub open spec fn ids_generated_from(v: VNodeView, n: nat) -> bool
    decreases v,
{
    (exists|m: nat| m >= n && v.id == spec_decimal(m)) && (forall|i: int|
        0 <= i < v.children.len() ==> ids_generated_from(#[trigger] v.children[i], n))
}

/// Identity discontinuity at tree scale: a tree whose every identity is
/// freshly generated — drawn after every identity of the previously rendered
/// tree — shares nothing with the previous pass's output, so the pass
/// rebuilds it from scratch: every node created, none reused.
pub proof fn lemma_generated_tree_all_created(
    old: Option<HostView>,
    v1: VNodeView,
    n: nat,
    v2: VNodeView,
)
    requires
        ids_below(v1, n),
        ids_generated_from(v2, n),
    ensures
        spec_build(Some(spec_build(old, v1).0), v2).1 == spec_node_count(v2),
        spec_build(Some(spec_build(old, v1).0), v2).2 == 0,
    decreases v2,
{
    let g = choose|m: nat| m >= n && v2.id == spec_decimal(m);
    lemma_generated_node_not_reused(old, v1, n, v2, g);
    lemma_generated_seq_all_created(old, v1, n, v2.children);
}

/// See [`lemma_generated_tree_all_created`].
proof fn lemma_generated_seq_all_created(
    old: Option<HostView>,
    v1: VNodeView,
    n: nat,
    s: Seq<VNodeView>,
)
    requires
        ids_below(v1, n),
        forall|i: int| 0 <= i < s.len() ==> ids_generated_from(#[trigger] s[i], n),
    ensures
        spec_build_seq(Some(spec_build(old, v1).0), s).1 == spec_node_count_seq(s),
        spec_build_seq(Some(spec_build(old, v1).0), s).2 == 0,
    decreases s,
{
    if s.len() > 0 {
        lemma_generated_seq_all_created(old, v1, n, s.drop_last());
        lemma_generated_tree_all_created(old, v1, n, s.last());
    }
}

impl HostDoc {
    /// Reconcile the document against `new_tree`: the new root structurally
    /// replaces a previous root (whose unreused nodes are discarded with it)
    /// or is appended into the empty container. Host nodes whose identity and
    /// tag match a node of the new tree are reused and updated in place;
    /// everything else is created. Returns how many nodes were created and
    /// how many updated.
    pub fn render_root(&mut self, new_tree: &HtmlElement) -> (stats: RenderStats)
        requires
            wf_tree(*new_tree),
            spec_node_count(vnode_view(*new_tree)) <= u64::MAX,
        ensures
            ({
                let b = spec_build(doc_view(*old(self)), vnode_view(*new_tree));
                doc_view(*final(self)) == Some(b.0) && stats.created == b.1 && stats.updated == b.2
                    && wf_doc(*final(self))
            }),
    {
        let built = match &self.root {
            None => make_tree(None, new_tree),
            Some(r) => make_tree(Some(r), new_tree),
        };
        let (node, created, updated) = built;
        self.root = Some(node);
        RenderStats { created, updated }
    }
}

} // verus!
