//! A view-scoped render-graph node that executes a sorted, transparency-ordered
//! draw phase for a single camera view within one frame.
//!
//! The node always opens a clearing pass for the view's target, even when no
//! geometry is queued; it brackets the pass opening with a diagnostics span;
//! it submits the view's queued draw items in their pre-established order; and
//! it appends a minimal corrective pass on backends that retain stale viewport
//! state across passes. Encoded passes are recorded into a [`pass::RenderContext`]
//! command log, so every decision the node makes is visible in its output and
//! covered by its contract.

pub mod attachment;
pub mod laws;
pub mod node;
pub mod pass;
pub mod phase;
