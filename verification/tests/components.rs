use transparent_pass_2d::attachment::{AttachmentDescriptor, LoadOperation, StoreOperation, ViewTarget};
use transparent_pass_2d::pass::{DiagnosticsRecorder, PassEvent, PassLabel, RenderPass, RenderPassDescriptor};
use transparent_pass_2d::phase::{DrawItem, PhaseRegistry, PipelineDescriptor, PipelineStore, SortedPhase};

fn color_only_descriptor() -> RenderPassDescriptor {
    RenderPassDescriptor {
        label: PassLabel::MainTransparentPass2d,
        color_attachment: AttachmentDescriptor {
            load_op: LoadOperation::Clear(0),
            store_op: StoreOperation::Store,
        },
        depth_stencil_attachment: None,
    }
}

#[test]
fn registry_lookup_finds_the_views_phase() {
    let mut registry = PhaseRegistry::new();
    let mut first = SortedPhase::new();
    first.push(DrawItem { entity: 1, pipeline: 1, sort_key: 1 });
    let second = SortedPhase::new();
    registry.insert(3, first);
    registry.insert(4, second);

    let found = registry.get(3).unwrap();
    assert_eq!(found.items.len(), 1);
    assert_eq!(found.items[0], DrawItem { entity: 1, pipeline: 1, sort_key: 1 });
    assert!(registry.get(4).unwrap().items.is_empty());
    assert!(registry.get(5).is_none());
}

#[test]
fn pipeline_store_resolves_by_identity() {
    let mut store = PipelineStore::new();
    store.add_pipeline(PipelineDescriptor { id: 2, requires_stencil: true });
    store.add_pipeline(PipelineDescriptor { id: 9, requires_stencil: false });

    let found = store.get(2).unwrap();
    assert_eq!(found.id, 2);
    assert!(found.requires_stencil);
    assert!(!store.get(9).unwrap().requires_stencil);
    assert!(store.get(7).is_none());
}

#[test]
fn sorted_phase_keeps_insertion_order() {
    let mut phase = SortedPhase::new();
    phase.push(DrawItem { entity: 5, pipeline: 1, sort_key: 1 });
    phase.push(DrawItem { entity: 4, pipeline: 1, sort_key: 2 });
    phase.push(DrawItem { entity: 6, pipeline: 1, sort_key: 2 });

    let entities: Vec<u64> = phase.items.iter().map(|item| item.entity).collect();
    assert_eq!(entities, vec![5, 4, 6]);
}

#[test]
fn phase_render_draws_each_item_once() {
    let mut store = PipelineStore::new();
    store.add_pipeline(PipelineDescriptor { id: 1, requires_stencil: false });
    let mut phase = SortedPhase::new();
    phase.push(DrawItem { entity: 5, pipeline: 1, sort_key: 1 });
    phase.push(DrawItem { entity: 6, pipeline: 1, sort_key: 2 });
    let mut pass = RenderPass::begin(color_only_descriptor());

    let result = phase.render(&mut pass, &store);

    assert_eq!(result, Ok(()));
    let expected = vec![
        PassEvent::Draw(DrawItem { entity: 5, pipeline: 1, sort_key: 1 }),
        PassEvent::Draw(DrawItem { entity: 6, pipeline: 1, sort_key: 2 }),
    ];
    assert_eq!(pass.events, expected);
}

#[test]
fn phase_render_reports_the_first_unresolvable_item() {
    let mut store = PipelineStore::new();
    store.add_pipeline(PipelineDescriptor { id: 1, requires_stencil: false });
    let mut phase = SortedPhase::new();
    phase.push(DrawItem { entity: 5, pipeline: 1, sort_key: 1 });
    phase.push(DrawItem { entity: 6, pipeline: 8, sort_key: 2 });
    phase.push(DrawItem { entity: 7, pipeline: 8, sort_key: 3 });
    let mut pass = RenderPass::begin(color_only_descriptor());

    let result = phase.render(&mut pass, &store);

    assert_eq!(result, Err(1));
    assert_eq!(
        pass.events,
        vec![PassEvent::Draw(DrawItem { entity: 5, pipeline: 1, sort_key: 1 })]
    );
}

#[test]
fn diagnostics_span_brackets_the_pass() {
    let mut pass = RenderPass::begin(color_only_descriptor());
    let recorder = DiagnosticsRecorder {};
    let span = recorder.pass_span(&mut pass);
    span.end(&mut pass);

    assert_eq!(pass.events, vec![PassEvent::SpanOpen, PassEvent::SpanClose]);
}

#[test]
fn color_attachment_clears_once_then_loads() {
    let mut target = ViewTarget {
        written: false,
        stencil_written: false,
        has_stencil: true,
        clear_color: 0xABCD,
    };

    let first = target.get_color_attachment();
    assert_eq!(first.load_op, LoadOperation::Clear(0xABCD));
    assert_eq!(first.store_op, StoreOperation::Store);
    assert!(target.written);

    let second = target.get_color_attachment();
    assert_eq!(second.load_op, LoadOperation::Load);

    let stencil = target.get_stencil_attachment();
    assert_eq!(stencil.load_op, LoadOperation::Clear(0));
    assert!(target.stencil_written);
    let stencil_again = target.get_stencil_attachment();
    assert_eq!(stencil_again.load_op, LoadOperation::Load);
}
