//! Accessibility identities and trees for widgets, with the focus bookkeeping
//! of the windowing shell, each with its contract and proof.
//!
//! Widgets describe themselves by returning an [`A11yTree`]; the shell
//! assembles the per-window tree and hands it to the AccessKit adapter.
pub mod a11y;
pub mod access;
pub mod laws;
pub mod shell;
pub mod widget_id;

pub use a11y::{window_node_id, A11yId, A11yIdView, A11yNode, A11yTree, WindowNodeCounter};
pub use shell::{window_tree, FocusState};
pub use widget_id::{Id, IdCounter, IdView};
