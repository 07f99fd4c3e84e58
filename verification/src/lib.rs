//! A minimal reactive UI runtime: an observable state store with change
//! detection, a declarative virtual-tree description of UI structure, and a
//! reconciler that projects that tree onto a live, stateful host document,
//! preserving node identity across re-renders where possible.
//!
//! The host document is represented by an in-crate model ([`host::HostDoc`])
//! that offers exactly the capability set the core needs: create a node, set
//! its attributes, replace its listeners, resolve a node by identity, and read
//! the textual value of an editable node. Event handlers are plain data
//! ([`html::Action`] values) interpreted by [`events::apply_action`], so the
//! whole render/reconcile/dispatch loop is verified.

pub mod events;
pub mod frame;
pub mod host;
pub mod html;
pub mod ident;
pub mod observable;
pub mod reconcile;
pub mod render;
