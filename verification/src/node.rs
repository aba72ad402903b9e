//! The view node itself: one invocation per qualifying view per frame. It
//! resolves the view's phase, always opens a clearing pass (even with nothing
//! to draw), brackets the pass opening in a diagnostics span, submits the
//! phase in stored order, and appends the corrective viewport-reset pass on
//! backends that need it. Everything an invocation does is the spec function
//! [`spec_run`] of what it read.

use vstd::prelude::*;
use crate::attachment::{
    color_attachment_of, resolve_attachments, stencil_attachment_of, target_after_attachments,
    AttachmentDescriptor, ExtractedCamera, LoadOperation, StoreOperation, ViewTarget, Viewport,
};
use crate::pass::{
    draw_events, lemma_draw_events_facts, lemma_event_counts_concat, span_closes, span_opens,
    spans_balanced, PassEvent, PassLabel, PassModel, RenderContext, RenderPass,
    RenderPassDescriptor,
};
use crate::phase::{
    first_stencil_index, items_of, lemma_resolved_prefix_is, needs_stencil, registry_lookup,
    resolved_prefix, DrawItem, PhaseRegistry, PipelineDescriptor, PipelineStore,
};

verus! {

/// Backend behavior resolved once at device initialization and consulted at
/// run time: whether the backend resets viewport state between passes. A
/// backend that does not needs a corrective pass after one with a custom
/// viewport.
#[derive(Clone, Copy, PartialEq, Eq, Structural, Debug)]
pub struct BackendCapabilities {
    pub resets_viewport_between_passes: bool,
}

/// The fatal ways one node invocation can end.
#[derive(Clone, Copy, PartialEq, Eq, Structural, Debug)]
pub enum NodeRunError {
    /// A draw item's pipeline could not be resolved from the store; mid-pass
    /// partial state is unrecoverable, so the whole invocation aborts.
    DrawItemResolutionFailed { item_index: usize },
    /// A queued item's pipeline requires a stencil attachment, but the view's
    /// target has no stencil surface to bind.
    UnsupportedAttachmentCombination { item_index: usize },
}

/// What one invocation reads: whether a phase registry exists this frame, the
/// phase registered for the view (if any), the camera's viewport, the state
/// of the view's target, the pipeline store, and the backend capabilities.
pub ghost struct NodeInput {
    pub registry_present: bool,
    pub phase: Option<Seq<DrawItem>>,
    pub viewport: Option<Viewport>,
    pub target: ViewTarget,
    pub pipelines: Seq<PipelineDescriptor>,
    pub resets_viewport_between_passes: bool,
}

/// What one invocation did: the passes it encoded in order, the result it
/// returned, and the target state it left behind.
pub ghost struct NodeOutcome {
    pub passes: Seq<PassModel>,
    pub result: Result<(), NodeRunError>,
    pub target: ViewTarget,
}

/// The items the node submits: the view's phase where one is registered,
/// nothing otherwise.
pub open spec fn spec_items(inp: NodeInput) -> Seq<DrawItem> {
    match inp.phase {
        Some(items) => items,
        None => Seq::<DrawItem>::empty(),
    }
}

/// The corrective pass is owed exactly when the backend retains viewport
/// state across passes and the camera set a custom viewport.
pub open spec fn quirk_pass_applies(inp: NodeInput) -> bool {
    !inp.resets_viewport_between_passes && inp.viewport is Some
}

/// The primary pass of one invocation: the view's attachments, the camera's
/// viewport, a diagnostics span opened and immediately closed around the pass
/// opening, then one draw per item up to the first unresolvable one.
pub open spec fn spec_primary_pass(inp: NodeInput) -> PassModel {
    PassModel {
        label: PassLabel::MainTransparentPass2d,
        color_attachment: color_attachment_of(inp.target),
        depth_stencil_attachment: if needs_stencil(inp.pipelines, spec_items(inp)) {
            Some(stencil_attachment_of(inp.target))
        } else {
            None
        },
        viewport: inp.viewport,
        events: seq![PassEvent::SpanOpen, PassEvent::SpanClose] + draw_events(
            spec_items(inp).take(resolved_prefix(inp.pipelines, spec_items(inp))),
        ),
    }
}

/// The corrective pass: minimal, loading the target the primary pass already
/// wrote, with no depth/stencil attachment, no custom viewport, no span, and
/// no draws.
pub open spec fn spec_quirk_pass() -> PassModel {
    PassModel {
        label: PassLabel::ResetViewportPass2d,
        color_attachment: AttachmentDescriptor {
            load_op: LoadOperation::Load,
            store_op: StoreOperation::Store,
        },
        depth_stencil_attachment: None,
        viewport: None,
        events: Seq::<PassEvent>::empty(),
    }
}

/// Everything one invocation does, as a function of what it read. An absent
/// registry is a no-op; an unsupported stencil combination aborts before any
/// pass; otherwise the clearing primary pass always runs, a resolution
/// failure aborts after it, and the corrective pass follows exactly when it
/// is owed.
pub open spec fn spec_run(inp: NodeInput) -> NodeOutcome {
    if !inp.registry_present {
        NodeOutcome { passes: Seq::<PassModel>::empty(), result: Ok(()), target: inp.target }
    } else {
        let items = spec_items(inp);
        let stencil_needed = needs_stencil(inp.pipelines, items);
        if stencil_needed && !inp.target.has_stencil {
            NodeOutcome {
                passes: Seq::<PassModel>::empty(),
                result: Err(
                    NodeRunError::UnsupportedAttachmentCombination {
                        item_index: first_stencil_index(inp.pipelines, items) as usize,
                    },
                ),
                target: inp.target,
            }
        } else {
            let target_left = target_after_attachments(inp.target, stencil_needed);
            let prefix = resolved_prefix(inp.pipelines, items);
            if prefix < items.len() {
                NodeOutcome {
                    passes: seq![spec_primary_pass(inp)],
                    result: Err(
                        NodeRunError::DrawItemResolutionFailed { item_index: prefix as usize },
                    ),
                    target: target_left,
                }
            } else if quirk_pass_applies(inp) {
                NodeOutcome {
                    passes: seq![spec_primary_pass(inp), spec_quirk_pass()],
                    result: Ok(()),
                    target: target_left,
                }
            } else {
                NodeOutcome {
                    passes: seq![spec_primary_pass(inp)],
                    result: Ok(()),
                    target: target_left,
                }
            }
        }
    }
}

/// The node's reading of its surroundings, as handed to [`spec_run`].
pub open spec fn node_input(
    registry: Option<&PhaseRegistry>,
    view_entity: u64,
    camera: &ExtractedCamera,
    target: ViewTarget,
    store: &PipelineStore,
    capabilities: &BackendCapabilities,
) -> NodeInput {
    NodeInput {
        registry_present: registry is Some,
        phase: match registry {
            Some(reg) => match registry_lookup(reg.entries@, view_entity) {
                Some(p) => Some(p.items@),
                None => None,
            },
            None => None,
        },
        viewport: camera.viewport,
        target: target,
        pipelines: store.pipelines@,
        resets_viewport_between_passes: capabilities.resets_viewport_between_passes,
    }
}

/// The transparent-pass view node. It holds no state of its own: every
/// invocation is a pure function of what it reads, per [`spec_run`].
#[derive(Default)]
pub struct MainTransparentPass2dNode {}

impl MainTransparentPass2dNode {
    /// Execute the node for one view. Encodes the passes of
    /// `spec_run(node_input(..))` into the command log, in order, and returns
    /// its result: success unless a queued item needs a stencil attachment
    /// the target cannot bind, or a draw item's pipeline fails to resolve.
    pub fn run(
        &self,
        registry: Option<&PhaseRegistry>,
        view_entity: u64,
        render_context: &mut RenderContext,
        camera: &ExtractedCamera,
        target: &mut ViewTarget,
        store: &PipelineStore,
        capabilities: &BackendCapabilities,
    ) -> (r: Result<(), NodeRunError>)
        requires
            store.wf(),
            registry matches Some(reg) ==> reg.wf(),
        ensures
            ({
                let out = spec_run(
                    node_input(registry, view_entity, camera, *old(target), store, capabilities),
                );
                &&& final(render_context)@ == old(render_context)@ + out.passes
                &&& r == out.result
                &&& *final(target) == out.target
            }),
    {
        let ghost inp = node_input(registry, view_entity, camera, *target, store, capabilities);
        let ghost ctx_entry = render_context@;

        let reg = match registry {
            None => {
                proof {
                    assert(ctx_entry + spec_run(inp).passes =~= ctx_entry);
                }
                return Ok(());
            },
            Some(r) => r,
        };

        let phase = reg.get(view_entity);
        proof {
            assert(items_of(phase) == spec_items(inp));
        }

        let attachments = match resolve_attachments(target, phase, store) {
            Ok(a) => a,
            Err(e) => {
                proof {
                    assert(ctx_entry + spec_run(inp).passes =~= ctx_entry);
                }
                return Err(e);
            },
        };

        let descriptor = RenderPassDescriptor {
            label: PassLabel::MainTransparentPass2d,
            color_attachment: attachments.color,
            depth_stencil_attachment: attachments.depth_stencil,
        };
        let mut pass = RenderPass::begin(descriptor);
        if let Some(viewport) = camera.viewport {
            pass.set_camera_viewport(viewport);
        }

        // The span closes before any draw is submitted: it measures only the
        // pass opening, not the draw cost. A window this narrow looks more
        // like a placeholder than a deliberate measurement choice; widening
        // it to cover the draws would change what frames report.
        let diagnostics = render_context.diagnostic_recorder();
        let span = diagnostics.pass_span(&mut pass);
        span.end(&mut pass);
        let ghost opening = seq![PassEvent::SpanOpen, PassEvent::SpanClose];
        proof {
            assert(pass@.events =~= opening);
        }

        let mut submit_error: Option<usize> = None;
        match phase {
            Some(p) => {
                match p.render(&mut pass, store) {
                    Ok(()) => {
                        proof {
                            lemma_resolved_prefix_is(
                                store.pipelines@,
                                spec_items(inp),
                                spec_items(inp).len() as int,
                            );
                            assert(spec_items(inp).take(spec_items(inp).len() as int) =~= spec_items(
                                inp,
                            ));
                        }
                    },
                    Err(ix) => {
                        submit_error = Some(ix);
                    },
                }
            },
            None => {
                proof {
                    lemma_resolved_prefix_is(store.pipelines@, spec_items(inp), 0);
                    assert(spec_items(inp).take(0) =~= Seq::<DrawItem>::empty());
                    assert(draw_events(spec_items(inp).take(0)) =~= Seq::<PassEvent>::empty());
                    assert(pass@.events =~= opening + draw_events(
                        spec_items(inp).take(resolved_prefix(store.pipelines@, spec_items(inp))),
                    ));
                }
            },
        }

        proof {
            let ghost prefix = resolved_prefix(inp.pipelines, spec_items(inp));
            let ghost draws = draw_events(spec_items(inp).take(prefix));
            assert(pass@.events == opening + draws);
            lemma_draw_events_facts(spec_items(inp).take(prefix));
            lemma_event_counts_concat(opening, draws);
            assert(opening.drop_first() =~= seq![PassEvent::SpanClose]);
            assert(seq![PassEvent::SpanClose].drop_first() =~= Seq::<PassEvent>::empty());
            assert(span_opens(Seq::<PassEvent>::empty()) == 0);
            assert(span_closes(Seq::<PassEvent>::empty()) == 0);
            assert(span_opens(seq![PassEvent::SpanClose]) == 0);
            assert(span_closes(seq![PassEvent::SpanClose]) == 1);
            assert(span_opens(opening) == 1);
            assert(span_closes(opening) == 1);
            assert(spans_balanced(pass@.events));
            assert(pass@ == spec_primary_pass(inp));
        }
        render_context.end_pass(pass);

        if let Some(ix) = submit_error {
            proof {
                assert(ctx_entry.push(spec_primary_pass(inp)) =~= ctx_entry + seq![
                    spec_primary_pass(inp),
                ]);
            }
            return Err(NodeRunError::DrawItemResolutionFailed { item_index: ix });
        }

        if !capabilities.resets_viewport_between_passes && camera.viewport.is_some() {
            let color = target.get_color_attachment();
            let quirk_descriptor = RenderPassDescriptor {
                label: PassLabel::ResetViewportPass2d,
                color_attachment: color,
                depth_stencil_attachment: None,
            };
            let quirk_pass = RenderPass::begin(quirk_descriptor);
            proof {
                assert(quirk_pass@.events =~= Seq::<PassEvent>::empty());
                assert(spans_balanced(quirk_pass@.events));
                assert(quirk_pass@ == spec_quirk_pass());
            }
            render_context.end_pass(quirk_pass);
            proof {
                assert(render_context@ =~= ctx_entry + seq![
                    spec_primary_pass(inp),
                    spec_quirk_pass(),
                ]);
            }
        } else {
            proof {
                assert(ctx_entry.push(spec_primary_pass(inp)) =~= ctx_entry + seq![
                    spec_primary_pass(inp),
                ]);
            }
        }
        Ok(())
    }
}

} // verus!
