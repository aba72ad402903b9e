//! Properties of the node's execution, stated and proved over its
//! mathematical model [`spec_run`]: the clearing pass always runs, draws keep
//! their stored order, diagnostics spans bracket correctly, the corrective
//! pass is gated exactly, an absent registry is a no-op, and empty frames
//! accumulate nothing.

use vstd::prelude::*;
use crate::node::{
    quirk_pass_applies, spec_items, spec_primary_pass, spec_quirk_pass, spec_run, NodeInput,
    NodeRunError,
};
use crate::pass::{
    draw_count, draw_events, draw_sequence, lemma_draw_events_facts, lemma_event_counts_concat,
    span_closes, span_opens, spans_balanced, PassEvent, PassModel,
};
use crate::phase::{
    lemma_resolved_prefix_bounds, lemma_resolved_prefix_is, needs_stencil, resolved_prefix,
    DrawItem,
};

verus! {

/// How many of the passes clear their color attachment.
pub open spec fn count_clearing(passes: Seq<PassModel>) -> int
    decreases passes.len(),
{
    if passes.len() == 0 {
        0
    } else {
        (if passes.first().color_attachment.load_op is Clear {
            1int
        } else {
            0int
        }) + count_clearing(passes.drop_first())
    }
}

/// How many draw calls the passes issue altogether.
pub open spec fn total_draws(passes: Seq<PassModel>) -> int
    decreases passes.len(),
{
    if passes.len() == 0 {
        0
    } else {
        draw_count(passes.first().events) + total_draws(passes.drop_first())
    }
}

/// Every item the passes draw, in encoding order.
pub open spec fn drawn_items(passes: Seq<PassModel>) -> Seq<DrawItem>
    decreases passes.len(),
{
    if passes.len() == 0 {
        Seq::<DrawItem>::empty()
    } else {
        draw_sequence(passes.first().events) + drawn_items(passes.drop_first())
    }
}

/// Within one event sequence, every opened span is closed again before any
/// later draw call.
pub open spec fn span_closed_before_draws(events: Seq<PassEvent>) -> bool {
    forall|i: int, j: int|
        0 <= i < j < events.len() && events[i] is SpanOpen && events[j] is Draw ==> exists|k: int|
            i < k < j && events[k] is SpanClose
}

/// Every pass balances its spans and closes each span before drawing.
pub open spec fn passes_well_bracketed(passes: Seq<PassModel>) -> bool {
    forall|p: int|
        0 <= p < passes.len() ==> spans_balanced((#[trigger] passes[p]).events)
            && span_closed_before_draws(passes[p].events)
}

/// The measures of a log holding one pass.
proof fn lemma_pass_measures_one(p: PassModel)
    ensures
        count_clearing(seq![p]) == (if p.color_attachment.load_op is Clear {
            1int
        } else {
            0int
        }),
        total_draws(seq![p]) == draw_count(p.events),
        drawn_items(seq![p]) == draw_sequence(p.events),
{
    reveal_with_fuel(count_clearing, 2);
    reveal_with_fuel(total_draws, 2);
    reveal_with_fuel(drawn_items, 2);
    assert(seq![p].drop_first() =~= Seq::<PassModel>::empty());
    assert(count_clearing(seq![p].drop_first()) == 0);
    assert(total_draws(seq![p].drop_first()) == 0);
    assert(drawn_items(seq![p].drop_first()) =~= Seq::<DrawItem>::empty());
    assert(draw_sequence(p.events) + Seq::<DrawItem>::empty() =~= draw_sequence(p.events));
}

/// The measures of a log holding two passes.
proof fn lemma_pass_measures_two(p: PassModel, q: PassModel)
    ensures
        count_clearing(seq![p, q]) == (if p.color_attachment.load_op is Clear {
            1int
        } else {
            0int
        }) + (if q.color_attachment.load_op is Clear {
            1int
        } else {
            0int
        }),
        total_draws(seq![p, q]) == draw_count(p.events) + draw_count(q.events),
        drawn_items(seq![p, q]) == draw_sequence(p.events) + draw_sequence(q.events),
{
    lemma_pass_measures_one(q);
    assert(seq![p, q].drop_first() =~= seq![q]);
    assert(draw_sequence(p.events) + drawn_items(seq![q]) =~= draw_sequence(p.events)
        + draw_sequence(q.events));
}

/// The counts of the span-open/span-close opening that brackets every primary
/// pass.
proof fn lemma_opening_counts()
    ensures
        span_opens(seq![PassEvent::SpanOpen, PassEvent::SpanClose]) == 1,
        span_closes(seq![PassEvent::SpanOpen, PassEvent::SpanClose]) == 1,
        draw_count(seq![PassEvent::SpanOpen, PassEvent::SpanClose]) == 0,
        draw_sequence(seq![PassEvent::SpanOpen, PassEvent::SpanClose]) == Seq::<
            DrawItem,
        >::empty(),
{
    reveal_with_fuel(span_opens, 4);
    reveal_with_fuel(span_closes, 4);
    reveal_with_fuel(draw_count, 4);
    reveal_with_fuel(draw_sequence, 4);
    let opening = seq![PassEvent::SpanOpen, PassEvent::SpanClose];
    assert(opening.drop_first() =~= seq![PassEvent::SpanClose]);
    assert(seq![PassEvent::SpanClose].drop_first() =~= Seq::<PassEvent>::empty());
    assert(span_opens(opening) == 1);
    assert(span_closes(opening) == 1);
    assert(draw_count(opening) == 0);
    assert(draw_sequence(opening) =~= Seq::<DrawItem>::empty());
}

/// Shape of the primary pass's events: balanced spans, the span closed before
/// every draw, and exactly the resolvable leading items drawn in order.
proof fn lemma_primary_pass_shape(inp: NodeInput)
    ensures
        spans_balanced(spec_primary_pass(inp).events),
        span_closed_before_draws(spec_primary_pass(inp).events),
        draw_count(spec_primary_pass(inp).events) == spec_items(inp).take(
            resolved_prefix(inp.pipelines, spec_items(inp)),
        ).len(),
        draw_sequence(spec_primary_pass(inp).events) == spec_items(inp).take(
            resolved_prefix(inp.pipelines, spec_items(inp)),
        ),
{
    let opening = seq![PassEvent::SpanOpen, PassEvent::SpanClose];
    let taken = spec_items(inp).take(resolved_prefix(inp.pipelines, spec_items(inp)));
    let events = spec_primary_pass(inp).events;
    lemma_resolved_prefix_bounds(inp.pipelines, spec_items(inp));
    lemma_opening_counts();
    lemma_draw_events_facts(taken);
    lemma_event_counts_concat(opening, draw_events(taken));
    assert(Seq::<DrawItem>::empty() + taken =~= taken);
    assert forall|i: int, j: int|
        0 <= i < j < events.len() && events[i] is SpanOpen && events[j] is Draw implies exists|
        k: int,
    | i < k < j && events[k] is SpanClose by {
        assert(events.len() == 2 + taken.len());
        if i >= 2 {
            assert(events[i] == draw_events(taken)[i - 2]);
            assert(events[i] == PassEvent::Draw(taken[i - 2]));
        }
        assert(events[1] == PassEvent::SpanClose);
        assert(i == 0);
        assert(1 < j);
        assert(events[1] is SpanClose);
    }
}

/// Shape of the corrective pass's events: none at all.
proof fn lemma_quirk_pass_shape()
    ensures
        spans_balanced(spec_quirk_pass().events),
        span_closed_before_draws(spec_quirk_pass().events),
        draw_count(spec_quirk_pass().events) == 0,
        draw_sequence(spec_quirk_pass().events) == Seq::<DrawItem>::empty(),
{
}

/// No-registry no-op: with no phase registry this frame, an invocation opens
/// zero passes, changes nothing about the target, and returns success.
pub proof fn lemma_no_registry_no_op(inp: NodeInput)
    requires
        !inp.registry_present,
    ensures
        spec_run(inp).passes == Seq::<PassModel>::empty(),
        spec_run(inp).result == Ok::<(), NodeRunError>(()),
        spec_run(inp).target == inp.target,
{
}

/// Clear-always: for a view with no phase entry, an invocation on a target
/// not yet written this frame succeeds and still issues exactly one pass with
/// a clearing color attachment, and zero draw calls.
pub proof fn lemma_clear_always(inp: NodeInput)
    requires
        inp.registry_present,
        inp.phase is None,
        !inp.target.written,
    ensures
        spec_run(inp).result == Ok::<(), NodeRunError>(()),
        count_clearing(spec_run(inp).passes) == 1,
        total_draws(spec_run(inp).passes) == 0,
{
    assert(!needs_stencil(inp.pipelines, spec_items(inp)));
    lemma_resolved_prefix_is(inp.pipelines, spec_items(inp), 0);
    assert(spec_items(inp).take(0).len() == 0);
    lemma_primary_pass_shape(inp);
    let primary = spec_primary_pass(inp);
    assert(primary.color_attachment.load_op is Clear);
    if quirk_pass_applies(inp) {
        lemma_quirk_pass_shape();
        lemma_pass_measures_two(primary, spec_quirk_pass());
    } else {
        lemma_pass_measures_one(primary);
    }
}

/// Order preservation: a successful invocation over a registered phase draws
/// exactly the phase's items, in their stored order, never reordered.
pub proof fn lemma_order_preservation(inp: NodeInput, items: Seq<DrawItem>)
    requires
        inp.registry_present,
        inp.phase == Some(items),
        spec_run(inp).result is Ok,
    ensures
        drawn_items(spec_run(inp).passes) == items,
        total_draws(spec_run(inp).passes) == items.len(),
{
    lemma_resolved_prefix_bounds(inp.pipelines, items);
    assert(resolved_prefix(inp.pipelines, items) == items.len());
    assert(items.take(items.len() as int) =~= items);
    lemma_primary_pass_shape(inp);
    let primary = spec_primary_pass(inp);
    if quirk_pass_applies(inp) {
        lemma_quirk_pass_shape();
        lemma_pass_measures_two(primary, spec_quirk_pass());
        assert(items + Seq::<DrawItem>::empty() =~= items);
    } else {
        lemma_pass_measures_one(primary);
    }
}

/// Span bracketing: in every pass of every invocation, the spans balance and
/// a span opened is closed before any draw call is issued.
pub proof fn lemma_span_bracketing(inp: NodeInput)
    ensures
        passes_well_bracketed(spec_run(inp).passes),
{
    lemma_primary_pass_shape(inp);
    lemma_quirk_pass_shape();
    let passes = spec_run(inp).passes;
    assert forall|p: int| 0 <= p < passes.len() implies spans_balanced(
        (#[trigger] passes[p]).events,
    ) && span_closed_before_draws(passes[p].events) by {
        assert(passes[p] == spec_primary_pass(inp) || passes[p] == spec_quirk_pass());
    }
}

/// Viewport quirk gating: on a successful invocation with a registry present,
/// the corrective pass appears if and only if the backend retains viewport
/// state across passes and the camera set a custom viewport — two passes
/// then, one pass otherwise.
pub proof fn lemma_viewport_quirk_gating(inp: NodeInput)
    requires
        inp.registry_present,
        spec_run(inp).result is Ok,
    ensures
        spec_run(inp).passes.len() == (if quirk_pass_applies(inp) {
            2int
        } else {
            1int
        }),
        (spec_run(inp).passes.len() == 2) <==> (!inp.resets_viewport_between_passes
            && inp.viewport is Some),
{
}

/// Idempotence across empty frames: with no items queued, an invocation
/// succeeds with no draws and well-bracketed spans, and invoking again on the
/// target it left behaves the same — the target is already stable and the
/// number of passes per invocation does not grow.
pub proof fn lemma_empty_frame_idempotence(inp: NodeInput)
    requires
        spec_items(inp).len() == 0,
    ensures
        ({
            let first_out = spec_run(inp);
            let second_out = spec_run(NodeInput { target: first_out.target, ..inp });
            &&& first_out.result == Ok::<(), NodeRunError>(())
            &&& second_out.result == Ok::<(), NodeRunError>(())
            &&& second_out.passes.len() == first_out.passes.len()
            &&& second_out.target == first_out.target
            &&& total_draws(first_out.passes) == 0
            &&& total_draws(second_out.passes) == 0
            &&& passes_well_bracketed(first_out.passes)
            &&& passes_well_bracketed(second_out.passes)
        }),
{
    let again = NodeInput { target: spec_run(inp).target, ..inp };
    assert(!needs_stencil(inp.pipelines, spec_items(inp)));
    assert(!needs_stencil(again.pipelines, spec_items(again)));
    lemma_resolved_prefix_is(inp.pipelines, spec_items(inp), 0);
    assert(spec_items(inp).take(0).len() == 0);
    lemma_span_bracketing(inp);
    lemma_span_bracketing(again);
    lemma_primary_pass_shape(inp);
    lemma_primary_pass_shape(again);
    lemma_quirk_pass_shape();
    if inp.registry_present {
        if quirk_pass_applies(inp) {
            lemma_pass_measures_two(spec_primary_pass(inp), spec_quirk_pass());
            lemma_pass_measures_two(spec_primary_pass(again), spec_quirk_pass());
        } else {
            lemma_pass_measures_one(spec_primary_pass(inp));
            lemma_pass_measures_one(spec_primary_pass(again));
        }
    }
}

} // verus!
