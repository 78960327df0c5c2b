//! Mirrors a retained scene graph of UI items into an accessibility tree:
//! generation-scoped node identifiers, a full-tree builder, focus-only
//! updates, and the decisions of the cross-thread snapshot request.

pub mod identity;
pub mod scene;
pub mod tree;
pub mod dispatch;
pub mod fonts;
