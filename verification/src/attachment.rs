//! Attachment resolution for a view's render target: clear-versus-load
//! semantics for the color attachment, and a depth/stencil attachment whose
//! presence is conditional on whether the queued draw items require stencil
//! testing.

use vstd::prelude::*;
use crate::node::NodeRunError;
use crate::phase::{
    find_stencil_requirement, first_stencil_index, items_of, needs_stencil, PipelineStore,
    SortedPhase,
};

verus! {

/// How an attachment's previous contents are treated when a pass begins:
/// cleared to a background color, or loaded (kept) from a prior pass.
#[derive(Clone, Copy, PartialEq, Eq, Structural, Debug)]
pub enum LoadOperation {
    Clear(u32),
    Load,
}

/// Whether an attachment's contents are kept after the pass ends.
#[derive(Clone, Copy, PartialEq, Eq, Structural, Debug)]
pub enum StoreOperation {
    Store,
    Discard,
}

/// A backend-ready attachment descriptor for one GPU-writable surface.
#[derive(Clone, Copy, PartialEq, Eq, Structural, Debug)]
pub struct AttachmentDescriptor {
    pub load_op: LoadOperation,
    pub store_op: StoreOperation,
}

/// A sub-rectangle of the render target that draws are restricted to.
#[derive(Clone, Copy, PartialEq, Eq, Structural, Debug)]
pub struct Viewport {
    pub x: u32,
    pub y: u32,
    pub width: u32,
    pub height: u32,
}

/// The camera state this node reads: an optional custom viewport. When it is
/// `None`, draws cover the full target.
#[derive(Clone, Copy, Debug)]
pub struct ExtractedCamera {
    pub viewport: Option<Viewport>,
}

/// A view's resolved render target. `written` and `stencil_written` record
/// whether a prior pass of this frame already wrote the color and stencil
/// surfaces, which turns a clearing load into a plain load. `has_stencil`
/// says whether a depth/stencil surface exists for this target at all.
#[derive(Clone, Copy, PartialEq, Eq, Structural, Debug)]
pub struct ViewTarget {
    pub written: bool,
    pub stencil_written: bool,
    pub has_stencil: bool,
    pub clear_color: u32,
}

/// The color attachment a target yields: a clear to the configured background
/// on first use in a frame, a load afterwards.
pub open spec fn color_attachment_of(target: ViewTarget) -> AttachmentDescriptor {
    AttachmentDescriptor {
        load_op: if target.written {
            LoadOperation::Load
        } else {
            LoadOperation::Clear(target.clear_color)
        },
        store_op: StoreOperation::Store,
    }
}

/// The depth/stencil attachment a target yields: cleared on first use in a
/// frame, loaded afterwards.
pub open spec fn stencil_attachment_of(target: ViewTarget) -> AttachmentDescriptor {
    AttachmentDescriptor {
        load_op: if target.stencil_written {
            LoadOperation::Load
        } else {
            LoadOperation::Clear(0)
        },
        store_op: StoreOperation::Store,
    }
}

impl ViewTarget {
    /// Resolve the color attachment, marking the color surface as written so
    /// that later passes of the frame load instead of clearing.
    pub fn get_color_attachment(&mut self) -> (r: AttachmentDescriptor)
        ensures
            r == color_attachment_of(*old(self)),
            final(self).written,
            final(self).stencil_written == old(self).stencil_written,
            final(self).has_stencil == old(self).has_stencil,
            final(self).clear_color == old(self).clear_color,
    {
        let r = AttachmentDescriptor {
            load_op: if self.written {
                LoadOperation::Load
            } else {
                LoadOperation::Clear(self.clear_color)
            },
            store_op: StoreOperation::Store,
        };
        self.written = true;
        r
    }

    /// Resolve the depth/stencil attachment, marking the stencil surface as
    /// written. Callers first establish that the target has such a surface.
    pub fn get_stencil_attachment(&mut self) -> (r: AttachmentDescriptor)
        requires
            old(self).has_stencil,
        ensures
            r == stencil_attachment_of(*old(self)),
            final(self).stencil_written,
            final(self).written == old(self).written,
            final(self).has_stencil == old(self).has_stencil,
            final(self).clear_color == old(self).clear_color,
    {
        let r = AttachmentDescriptor {
            load_op: if self.stencil_written {
                LoadOperation::Load
            } else {
                LoadOperation::Clear(0)
            },
            store_op: StoreOperation::Store,
        };
        self.stencil_written = true;
        r
    }
}

/// The attachments resolved for one pass: a color attachment, and a
/// depth/stencil attachment only when some queued draw item requires it.
#[derive(Clone, Copy, Debug)]
pub struct AttachmentSet {
    pub color: AttachmentDescriptor,
    pub depth_stencil: Option<AttachmentDescriptor>,
}

/// What the target holds after attachments for one pass were resolved: the
/// color surface counts as written, and the stencil surface too when an
/// attachment for it was produced.
pub open spec fn target_after_attachments(target: ViewTarget, stencil_attached: bool) -> ViewTarget {
    ViewTarget {
        written: true,
        stencil_written: target.stencil_written || stencil_attached,
        has_stencil: target.has_stencil,
        clear_color: target.clear_color,
    }
}

/// Resolve the attachments for one pass over the queued items: the color
/// attachment always, a depth/stencil attachment exactly when some queued
/// item's pipeline requires stencil testing. An item that requires stencil
/// testing against a target without a stencil surface is an unsupported
/// pipeline/attachment combination, reported per item before any pass is
/// constructed. Attaching depth/stencil unconditionally would fault any
/// pipeline that declares no stencil binding, so the requirement is an
/// explicit declared capability of each pipeline here; a caller that relied
/// on the attachment always being bound must declare it.
pub fn resolve_attachments(
    target: &mut ViewTarget,
    phase: Option<&SortedPhase>,
    store: &PipelineStore,
) -> (r: Result<AttachmentSet, NodeRunError>)
    requires
        store.wf(),
    ensures
        ({
            let items = items_of(phase);
            let stencil_needed = needs_stencil(store.pipelines@, items);
            match r {
                Err(e) => {
                    &&& stencil_needed
                    &&& !old(target).has_stencil
                    &&& *final(target) == *old(target)
                    &&& e == (NodeRunError::UnsupportedAttachmentCombination {
                        item_index: first_stencil_index(store.pipelines@, items) as usize,
                    })
                },
                Ok(a) => {
                    &&& !(stencil_needed && !old(target).has_stencil)
                    &&& a.color == color_attachment_of(*old(target))
                    &&& a.depth_stencil == (if stencil_needed {
                        Some(stencil_attachment_of(*old(target)))
                    } else {
                        Option::<AttachmentDescriptor>::None
                    })
                    &&& *final(target) == target_after_attachments(*old(target), stencil_needed)
                },
            }
        }),
{
    let stencil_requirement = match phase {
        Some(p) => find_stencil_requirement(&p.items, store),
        None => None,
    };
    if let Some(ix) = stencil_requirement {
        if !target.has_stencil {
            return Err(NodeRunError::UnsupportedAttachmentCombination { item_index: ix });
        }
    }
    let color = target.get_color_attachment();
    let depth_stencil = if stencil_requirement.is_some() {
        Some(target.get_stencil_attachment())
    } else {
        None
    };
    Ok(AttachmentSet { color, depth_stencil })
}

} // verus!
