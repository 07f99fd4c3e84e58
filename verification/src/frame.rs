//! The frame scheduler hook and application wiring. The application context
//! owns the state store, the identity counter, the host document and a single
//! slot for the render entry point. Once per host-driven frame the hook runs:
//! it consumes the dirty flag and, only if the store changed since the last
//! tick, renders a fresh virtual tree and reconciles the document against it.

use vstd::prelude::*;
use crate::observable::{AppState, spec_consume_dirty};
use crate::ident::IdGen;
use crate::host::{HostDoc, doc_view, wf_doc};
use crate::html::VNodeView;
use crate::reconcile::{spec_build, RenderStats};
use crate::render::{render, render_counter, is_todo_tree, is_counter_tree};

verus! {

/// The longest item list a frame can render: any larger tree could not even
/// have its nodes counted in a machine word.
pub const MAX_RENDERED_ITEMS: u64 = 0x1000_0000_0000_0000;

/// A render entry point: the function that produces the whole virtual tree
/// from the current state. Exactly one drives the UI.
#[derive(Clone, Copy, PartialEq, Eq, Structural, Debug)]
pub enum RenderFn {
    /// [`render`]: the todo-list UI.
    Todo,
    /// [`render_counter`]: the counter UI.
    Counter,
}

/// The tree this render entry point produces from this state.
pub open spec fn spec_rendered(f: RenderFn, s: AppState, t: VNodeView) -> bool {
    match f {
        RenderFn::Todo => is_todo_tree(t, s.items@, s.new_item_name@),
        RenderFn::Counter => is_counter_tree(t, s.count as nat),
    }
}

/// The application context: the one mutable home of the state store, the
/// identity counter, the host document, the render slot and the frame hook.
/// It is passed explicitly into every call that needs it; nothing is ambient.
#[derive(Debug)]
pub struct App {
    pub state: AppState,
    pub ids: IdGen,
    pub doc: HostDoc,
    pub render_slot: Option<RenderFn>,
    pub frame_hooked: bool,
}

/// What one frame tick does: nothing at all when the store was clean; when it
/// was dirty, the dirty flag is consumed and the document is reconciled
/// against a fresh tree rendered by the registered entry point from the
/// current state.
pub open spec fn on_frame_rel(pre: App, post: App, stats: Option<RenderStats>) -> bool {
    &&& post.render_slot == pre.render_slot
    &&& post.frame_hooked == pre.frame_hooked
    &&& post.ids == pre.ids
    &&& post.state == spec_consume_dirty(pre.state).0
    &&& (!pre.state.changed ==> post == pre && stats is None)
    &&& (pre.state.changed ==> match pre.render_slot {
        Some(f) => exists|t: VNodeView|
            {
                &&& #[trigger] spec_rendered(f, pre.state, t)
                &&& doc_view(post.doc) == Some(spec_build(doc_view(pre.doc), t).0)
                &&& stats == Some(
                    RenderStats {
                        created: spec_build(doc_view(pre.doc), t).1 as u64,
                        updated: spec_build(doc_view(pre.doc), t).2 as u64,
                    },
                )
            },
        None => false,
    })
}

impl App {
    /// A fresh application context: default state (already dirty, so the
    /// first frame renders), a fresh identity counter, an empty document,
    /// nothing registered yet.
    pub fn new() -> (a: App)
        ensures
            a.state.count == 0,
            a.state.items@.len() == 1,
            a.state.items@[0].id == 1,
            a.state.items@[0].name@ == "Testing!"@,
            a.state.items@[0].editing == false,
            a.state.new_item_name@ == "Item Name"@,
            a.state.changed == true,
            a.ids.next == 1,
            a.doc.root is None,
            a.render_slot is None,
            a.frame_hooked == false,
    {
        App {
            state: AppState::new(),
            ids: IdGen::new(),
            doc: HostDoc::new(),
            render_slot: None,
            frame_hooked: false,
        }
    }

    /// Register the application's render entry point. Exactly one application
    /// may drive the UI: registering twice is a programming error, rejected
    /// by the contract.
    pub fn app_setup(&mut self, f: RenderFn)
        requires
            old(self).render_slot is None,
        ensures
            *final(self) == (App { render_slot: Some(f), ..*old(self) }),
    {
        self.render_slot = Some(f);
    }

    /// Hook the frame callback into the host's one registration point, as the
    /// document-ready setup does. Hooking twice is a programming error,
    /// rejected by the contract.
    pub fn app_main(&mut self)
        requires
            !old(self).frame_hooked,
        ensures
            *final(self) == (App { frame_hooked: true, ..*old(self) }),
    {
        self.frame_hooked = true;
    }

    /// One frame tick. If the store reports no change since the last tick,
    /// do nothing — no render, no host mutation. Otherwise render a fresh
    /// tree with the registered entry point and reconcile the document
    /// against it, reporting what the pass created and updated.
    pub fn on_frame(&mut self) -> (stats: Option<RenderStats>)
        requires
            old(self).frame_hooked,
            old(self).render_slot is Some,
            old(self).state.items@.len() <= MAX_RENDERED_ITEMS,
        ensures
            on_frame_rel(*old(self), *final(self), stats),
            wf_doc(final(self).doc) || final(self).doc == old(self).doc,
    {
        if !self.state.consume_dirty() {
            return None;
        }
        match self.render_slot {
            Some(RenderFn::Todo) => {
                let tree = render(&self.state, &mut self.ids);
                let st = self.doc.render_root(&tree);
                proof {
                    assert(spec_rendered(RenderFn::Todo, old(self).state, tree@));
                }
                Some(st)
            },
            Some(RenderFn::Counter) => {
                let tree = render_counter(&self.state, &mut self.ids);
                let st = self.doc.render_root(&tree);
                proof {
                    assert(spec_rendered(RenderFn::Counter, old(self).state, tree@));
                }
                Some(st)
            },
            None => None,
        }
    }
}

/// Idempotence under no change: a frame tick leaves the store clean, so a
/// second tick right after it mutates nothing — same document, same state,
/// no operations — whatever the first tick did.
pub proof fn lemma_frame_idempotent(
    a0: App,
    a1: App,
    s1: Option<RenderStats>,
    a2: App,
    s2: Option<RenderStats>,
)
    requires
        on_frame_rel(a0, a1, s1),
        on_frame_rel(a1, a2, s2),
    ensures
        a2 == a1,
        s2 is None,
{
}

} // verus!
