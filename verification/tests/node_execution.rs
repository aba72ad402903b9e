use transparent_pass_2d::attachment::{LoadOperation, StoreOperation, ViewTarget, Viewport};
use transparent_pass_2d::attachment::ExtractedCamera;
use transparent_pass_2d::node::{BackendCapabilities, MainTransparentPass2dNode, NodeRunError};
use transparent_pass_2d::pass::{PassEvent, PassLabel, RenderContext};
use transparent_pass_2d::phase::{DrawItem, PhaseRegistry, PipelineDescriptor, PipelineStore, SortedPhase};

const VIEW: u64 = 7;
const BACKGROUND: u32 = 0x0033_6699;

fn fresh_target() -> ViewTarget {
    ViewTarget { written: false, stencil_written: false, has_stencil: true, clear_color: BACKGROUND }
}

fn store_with(pipelines: &[(u64, bool)]) -> PipelineStore {
    let mut store = PipelineStore::new();
    for &(id, requires_stencil) in pipelines {
        store.add_pipeline(PipelineDescriptor { id, requires_stencil });
    }
    store
}

fn phase_with(items: &[(u64, u64, u64)]) -> SortedPhase {
    let mut phase = SortedPhase::new();
    for &(entity, pipeline, sort_key) in items {
        phase.push(DrawItem { entity, pipeline, sort_key });
    }
    phase
}

fn registry_with(view: u64, items: &[(u64, u64, u64)]) -> PhaseRegistry {
    let mut registry = PhaseRegistry::new();
    registry.insert(view, phase_with(items));
    registry
}

fn resetting_backend() -> BackendCapabilities {
    BackendCapabilities { resets_viewport_between_passes: true }
}

fn quirky_backend() -> BackendCapabilities {
    BackendCapabilities { resets_viewport_between_passes: false }
}

fn full_frame_camera() -> ExtractedCamera {
    ExtractedCamera { viewport: None }
}

fn windowed_camera() -> ExtractedCamera {
    ExtractedCamera {
        viewport: Some(Viewport { x: 8, y: 8, width: 64, height: 48 }),
    }
}

#[test]
fn clear_always_without_phase_entry() {
    let node = MainTransparentPass2dNode::default();
    let registry = PhaseRegistry::new();
    let store = store_with(&[]);
    let mut context = RenderContext::new();
    let mut target = fresh_target();

    let result = node.run(
        Some(&registry),
        VIEW,
        &mut context,
        &full_frame_camera(),
        &mut target,
        &store,
        &resetting_backend(),
    );

    assert_eq!(result, Ok(()));
    assert_eq!(context.passes.len(), 1);
    let pass = &context.passes[0];
    assert_eq!(pass.label, PassLabel::MainTransparentPass2d);
    assert_eq!(pass.color_attachment.load_op, LoadOperation::Clear(BACKGROUND));
    assert_eq!(pass.color_attachment.store_op, StoreOperation::Store);
    assert_eq!(pass.depth_stencil_attachment, None);
    assert_eq!(pass.viewport, None);
    assert_eq!(pass.events, vec![PassEvent::SpanOpen, PassEvent::SpanClose]);
    assert!(target.written);
}

#[test]
fn draws_follow_stored_order() {
    let node = MainTransparentPass2dNode::default();
    let items = [(10, 1, 5), (11, 2, 6), (12, 1, 7)];
    let registry = registry_with(VIEW, &items);
    let store = store_with(&[(1, false), (2, false)]);
    let mut context = RenderContext::new();
    let mut target = fresh_target();

    let result = node.run(
        Some(&registry),
        VIEW,
        &mut context,
        &full_frame_camera(),
        &mut target,
        &store,
        &resetting_backend(),
    );

    assert_eq!(result, Ok(()));
    assert_eq!(context.passes.len(), 1);
    let expected = vec![
        PassEvent::SpanOpen,
        PassEvent::SpanClose,
        PassEvent::Draw(DrawItem { entity: 10, pipeline: 1, sort_key: 5 }),
        PassEvent::Draw(DrawItem { entity: 11, pipeline: 2, sort_key: 6 }),
        PassEvent::Draw(DrawItem { entity: 12, pipeline: 1, sort_key: 7 }),
    ];
    assert_eq!(context.passes[0].events, expected);
}

#[test]
fn span_closes_before_any_draw() {
    let node = MainTransparentPass2dNode::default();
    let registry = registry_with(VIEW, &[(10, 1, 5), (11, 1, 6)]);
    let store = store_with(&[(1, false)]);
    let mut context = RenderContext::new();
    let mut target = fresh_target();

    node.run(
        Some(&registry),
        VIEW,
        &mut context,
        &windowed_camera(),
        &mut target,
        &store,
        &resetting_backend(),
    )
    .unwrap();

    let events = &context.passes[0].events;
    let close_at = events.iter().position(|e| *e == PassEvent::SpanClose).unwrap();
    let open_at = events.iter().position(|e| *e == PassEvent::SpanOpen).unwrap();
    let first_draw = events
        .iter()
        .position(|e| matches!(e, PassEvent::Draw(_)))
        .unwrap();
    assert!(open_at < close_at);
    assert!(close_at < first_draw);
}

#[test]
fn quirk_pass_on_affected_backend_with_viewport() {
    let node = MainTransparentPass2dNode::default();
    let registry = PhaseRegistry::new();
    let store = store_with(&[]);
    let mut context = RenderContext::new();
    let mut target = fresh_target();

    let result = node.run(
        Some(&registry),
        VIEW,
        &mut context,
        &windowed_camera(),
        &mut target,
        &store,
        &quirky_backend(),
    );

    assert_eq!(result, Ok(()));
    assert_eq!(context.passes.len(), 2);
    let primary = &context.passes[0];
    assert_eq!(primary.viewport, windowed_camera().viewport);
    let corrective = &context.passes[1];
    assert_eq!(corrective.label, PassLabel::ResetViewportPass2d);
    assert_eq!(corrective.color_attachment.load_op, LoadOperation::Load);
    assert_eq!(corrective.depth_stencil_attachment, None);
    assert_eq!(corrective.viewport, None);
    assert!(corrective.events.is_empty());
}

#[test]
fn no_quirk_pass_on_unaffected_backend_with_viewport() {
    let node = MainTransparentPass2dNode::default();
    let registry = PhaseRegistry::new();
    let store = store_with(&[]);
    let mut context = RenderContext::new();
    let mut target = fresh_target();

    let result = node.run(
        Some(&registry),
        VIEW,
        &mut context,
        &windowed_camera(),
        &mut target,
        &store,
        &resetting_backend(),
    );

    assert_eq!(result, Ok(()));
    assert_eq!(context.passes.len(), 1);
}

#[test]
fn no_quirk_pass_on_affected_backend_without_viewport() {
    let node = MainTransparentPass2dNode::default();
    let registry = PhaseRegistry::new();
    let store = store_with(&[]);
    let mut context = RenderContext::new();
    let mut target = fresh_target();

    let result = node.run(
        Some(&registry),
        VIEW,
        &mut context,
        &full_frame_camera(),
        &mut target,
        &store,
        &quirky_backend(),
    );

    assert_eq!(result, Ok(()));
    assert_eq!(context.passes.len(), 1);
}

#[test]
fn missing_registry_is_a_no_op() {
    let node = MainTransparentPass2dNode::default();
    let store = store_with(&[]);
    let mut context = RenderContext::new();
    let mut target = fresh_target();

    let result = node.run(
        None,
        VIEW,
        &mut context,
        &windowed_camera(),
        &mut target,
        &store,
        &quirky_backend(),
    );

    assert_eq!(result, Ok(()));
    assert!(context.passes.is_empty());
    assert!(!target.written);
    assert_eq!(target, fresh_target());
}

#[test]
fn empty_frames_accumulate_nothing() {
    let node = MainTransparentPass2dNode::default();
    let registry = PhaseRegistry::new();
    let store = store_with(&[]);
    let mut context = RenderContext::new();
    let mut target = fresh_target();

    for _ in 0..2 {
        let result = node.run(
            Some(&registry),
            VIEW,
            &mut context,
            &full_frame_camera(),
            &mut target,
            &store,
            &resetting_backend(),
        );
        assert_eq!(result, Ok(()));
    }

    assert_eq!(context.passes.len(), 2);
    for pass in &context.passes {
        assert_eq!(pass.events, vec![PassEvent::SpanOpen, PassEvent::SpanClose]);
    }
    assert_eq!(context.passes[0].color_attachment.load_op, LoadOperation::Clear(BACKGROUND));
    assert_eq!(context.passes[1].color_attachment.load_op, LoadOperation::Load);
    let settled = target;
    let result = node.run(
        Some(&registry),
        VIEW,
        &mut context,
        &full_frame_camera(),
        &mut target,
        &store,
        &resetting_backend(),
    );
    assert_eq!(result, Ok(()));
    assert_eq!(target, settled);
}

#[test]
fn resolution_failure_aborts_after_leading_draws() {
    let node = MainTransparentPass2dNode::default();
    let items = [(10, 1, 5), (11, 99, 6), (12, 1, 7)];
    let registry = registry_with(VIEW, &items);
    let store = store_with(&[(1, false)]);
    let mut context = RenderContext::new();
    let mut target = fresh_target();

    let result = node.run(
        Some(&registry),
        VIEW,
        &mut context,
        &windowed_camera(),
        &mut target,
        &store,
        &quirky_backend(),
    );

    assert_eq!(result, Err(NodeRunError::DrawItemResolutionFailed { item_index: 1 }));
    assert_eq!(context.passes.len(), 1);
    let expected = vec![
        PassEvent::SpanOpen,
        PassEvent::SpanClose,
        PassEvent::Draw(DrawItem { entity: 10, pipeline: 1, sort_key: 5 }),
    ];
    assert_eq!(context.passes[0].events, expected);
}

#[test]
fn stencil_requirement_without_stencil_surface_is_reported() {
    let node = MainTransparentPass2dNode::default();
    let registry = registry_with(VIEW, &[(10, 1, 5), (11, 2, 6)]);
    let store = store_with(&[(1, false), (2, true)]);
    let mut context = RenderContext::new();
    let mut target = ViewTarget {
        written: false,
        stencil_written: false,
        has_stencil: false,
        clear_color: BACKGROUND,
    };

    let result = node.run(
        Some(&registry),
        VIEW,
        &mut context,
        &full_frame_camera(),
        &mut target,
        &store,
        &resetting_backend(),
    );

    assert_eq!(
        result,
        Err(NodeRunError::UnsupportedAttachmentCombination { item_index: 1 })
    );
    assert!(context.passes.is_empty());
    assert!(!target.written);
}

#[test]
fn stencil_attachment_only_when_an_item_requires_it() {
    let node = MainTransparentPass2dNode::default();
    let store = store_with(&[(1, false), (2, true)]);

    let mut context = RenderContext::new();
    let mut target = fresh_target();
    let plain = registry_with(VIEW, &[(10, 1, 5)]);
    node.run(
        Some(&plain),
        VIEW,
        &mut context,
        &full_frame_camera(),
        &mut target,
        &store,
        &resetting_backend(),
    )
    .unwrap();
    assert_eq!(context.passes[0].depth_stencil_attachment, None);
    assert!(!target.stencil_written);

    let mut stencil_context = RenderContext::new();
    let mut stencil_target = fresh_target();
    let stenciled = registry_with(VIEW, &[(10, 1, 5), (11, 2, 6)]);
    node.run(
        Some(&stenciled),
        VIEW,
        &mut stencil_context,
        &full_frame_camera(),
        &mut stencil_target,
        &store,
        &resetting_backend(),
    )
    .unwrap();
    let attachment = stencil_context.passes[0].depth_stencil_attachment.unwrap();
    assert_eq!(attachment.load_op, LoadOperation::Clear(0));
    assert_eq!(attachment.store_op, StoreOperation::Store);
    assert!(stencil_target.stencil_written);
}

#[test]
fn previously_written_target_loads_instead_of_clearing() {
    let node = MainTransparentPass2dNode::default();
    let registry = PhaseRegistry::new();
    let store = store_with(&[]);
    let mut context = RenderContext::new();
    let mut target = fresh_target();
    target.written = true;

    node.run(
        Some(&registry),
        VIEW,
        &mut context,
        &full_frame_camera(),
        &mut target,
        &store,
        &resetting_backend(),
    )
    .unwrap();

    assert_eq!(context.passes[0].color_attachment.load_op, LoadOperation::Load);
}

#[test]
fn view_without_entry_ignores_other_views_items() {
    let node = MainTransparentPass2dNode::default();
    let registry = registry_with(99, &[(10, 1, 5)]);
    let store = store_with(&[(1, false)]);
    let mut context = RenderContext::new();
    let mut target = fresh_target();

    let result = node.run(
        Some(&registry),
        VIEW,
        &mut context,
        &full_frame_camera(),
        &mut target,
        &store,
        &resetting_backend(),
    );

    assert_eq!(result, Ok(()));
    assert_eq!(context.passes.len(), 1);
    assert_eq!(context.passes[0].events, vec![PassEvent::SpanOpen, PassEvent::SpanClose]);
}
