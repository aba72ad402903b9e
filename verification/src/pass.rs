//! Render passes as this node encodes them: a pass is opened from a
//! descriptor, receives diagnostics-span and draw events, and is recorded
//! into the frame's [`RenderContext`] command log when it ends.

use vstd::prelude::*;
use crate::attachment::{AttachmentDescriptor, Viewport};
use crate::phase::DrawItem;

verus! {

/// The label a pass is opened under.
#[derive(Clone, Copy, PartialEq, Eq, Structural, Debug)]
pub enum PassLabel {
    MainTransparentPass2d,
    ResetViewportPass2d,
}

/// One command encoded into an open pass: a diagnostics span boundary, or a
/// draw call for one item.
#[derive(Clone, Copy, PartialEq, Eq, Structural, Debug)]
pub enum PassEvent {
    SpanOpen,
    SpanClose,
    Draw(DrawItem),
}

/// What a tracked-pass opening accepts: a label, the color attachment, and an
/// optional depth/stencil attachment.
#[derive(Clone, Copy, Debug)]
pub struct RenderPassDescriptor {
    pub label: PassLabel,
    pub color_attachment: AttachmentDescriptor,
    pub depth_stencil_attachment: Option<AttachmentDescriptor>,
}

/// The mathematical model of one pass: its fixed attachment configuration and
/// the sequence of events encoded into it.
pub ghost struct PassModel {
    pub label: PassLabel,
    pub color_attachment: AttachmentDescriptor,
    pub depth_stencil_attachment: Option<AttachmentDescriptor>,
    pub viewport: Option<Viewport>,
    pub events: Seq<PassEvent>,
}

/// Two pass models share label, attachments and viewport, differing at most
/// in their events.
pub open spec fn same_pass_config(a: PassModel, b: PassModel) -> bool {
    &&& a.label == b.label
    &&& a.color_attachment == b.color_attachment
    &&& a.depth_stencil_attachment == b.depth_stencil_attachment
    &&& a.viewport == b.viewport
}

/// How many diagnostics spans an event sequence opens.
pub open spec fn span_opens(events: Seq<PassEvent>) -> int
    decreases events.len(),
{
    if events.len() == 0 {
        0
    } else {
        (if events.first() is SpanOpen {
            1int
        } else {
            0int
        }) + span_opens(events.drop_first())
    }
}

/// How many diagnostics spans an event sequence closes.
pub open spec fn span_closes(events: Seq<PassEvent>) -> int
    decreases events.len(),
{
    if events.len() == 0 {
        0
    } else {
        (if events.first() is SpanClose {
            1int
        } else {
            0int
        }) + span_closes(events.drop_first())
    }
}

/// Every span opened in the event sequence was also closed.
pub open spec fn spans_balanced(events: Seq<PassEvent>) -> bool {
    span_opens(events) == span_closes(events)
}

/// How many draw calls an event sequence issues.
pub open spec fn draw_count(events: Seq<PassEvent>) -> int
    decreases events.len(),
{
    if events.len() == 0 {
        0
    } else {
        (if events.first() is Draw {
            1int
        } else {
            0int
        }) + draw_count(events.drop_first())
    }
}

/// The items an event sequence draws, in issue order.
pub open spec fn draw_sequence(events: Seq<PassEvent>) -> Seq<DrawItem>
    decreases events.len(),
{
    if events.len() == 0 {
        Seq::<DrawItem>::empty()
    } else {
        match events.first() {
            PassEvent::Draw(item) => seq![item] + draw_sequence(events.drop_first()),
            _ => draw_sequence(events.drop_first()),
        }
    }
}

/// One draw event per item, in the items' order.
pub open spec fn draw_events(items: Seq<DrawItem>) -> Seq<PassEvent> {
    items.map_values(|item: DrawItem| PassEvent::Draw(item))
}

/// Span counts, draw counts and the drawn-item sequence distribute over
/// concatenation of event sequences.
pub proof fn lemma_event_counts_concat(a: Seq<PassEvent>, b: Seq<PassEvent>)
    ensures
        span_opens(a + b) == span_opens(a) + span_opens(b),
        span_closes(a + b) == span_closes(a) + span_closes(b),
        draw_count(a + b) == draw_count(a) + draw_count(b),
        draw_sequence(a + b) == draw_sequence(a) + draw_sequence(b),
    decreases a.len(),
{
    if a.len() == 0 {
        assert(a + b =~= b);
        assert(draw_sequence(a) + draw_sequence(b) =~= draw_sequence(b));
    } else {
        lemma_event_counts_concat(a.drop_first(), b);
        assert((a + b).first() == a.first());
        assert((a + b).drop_first() =~= a.drop_first() + b);
        match a.first() {
            PassEvent::Draw(item) => {
                assert(seq![item] + (draw_sequence(a.drop_first()) + draw_sequence(b)) =~= (
                seq![item] + draw_sequence(a.drop_first())) + draw_sequence(b));
            },
            _ => {},
        }
    }
}

/// A sequence of draw events opens and closes no spans, issues one draw per
/// item, and draws exactly the items in order.
pub proof fn lemma_draw_events_facts(items: Seq<DrawItem>)
    ensures
        span_opens(draw_events(items)) == 0,
        span_closes(draw_events(items)) == 0,
        draw_count(draw_events(items)) == items.len(),
        draw_sequence(draw_events(items)) == items,
    decreases items.len(),
{
    if items.len() == 0 {
        assert(draw_events(items) =~= Seq::<PassEvent>::empty());
        assert(draw_sequence(draw_events(items)) =~= items);
    } else {
        lemma_draw_events_facts(items.drop_first());
        assert(draw_events(items).first() == PassEvent::Draw(items.first()));
        assert(draw_events(items).drop_first() =~= draw_events(items.drop_first()));
        assert(seq![items.first()] + items.drop_first() =~= items);
    }
}

/// An open pass: a fixed attachment configuration plus the events encoded so
/// far. Ending the pass records it into the [`RenderContext`] command log.
#[derive(Clone, Debug)]
pub struct RenderPass {
    pub label: PassLabel,
    pub color_attachment: AttachmentDescriptor,
    pub depth_stencil_attachment: Option<AttachmentDescriptor>,
    pub viewport: Option<Viewport>,
    pub events: Vec<PassEvent>,
}

impl View for RenderPass {
    type V = PassModel;

    open spec fn view(&self) -> PassModel {
        PassModel {
            label: self.label,
            color_attachment: self.color_attachment,
            depth_stencil_attachment: self.depth_stencil_attachment,
            viewport: self.viewport,
            events: self.events@,
        }
    }
}

impl RenderPass {
    /// Open a pass with the descriptor's attachments, the full target as its
    /// draw area, and no events encoded yet.
    pub fn begin(descriptor: RenderPassDescriptor) -> (r: RenderPass)
        ensures
            r@.label == descriptor.label,
            r@.color_attachment == descriptor.color_attachment,
            r@.depth_stencil_attachment == descriptor.depth_stencil_attachment,
            r@.viewport is None,
            r@.events == Seq::<PassEvent>::empty(),
    {
        RenderPass {
            label: descriptor.label,
            color_attachment: descriptor.color_attachment,
            depth_stencil_attachment: descriptor.depth_stencil_attachment,
            viewport: None,
            events: Vec::new(),
        }
    }

    /// Restrict every subsequent draw of this pass to the camera's viewport
    /// rectangle.
    pub fn set_camera_viewport(&mut self, viewport: Viewport)
        ensures
            final(self)@.viewport == Some(viewport),
            final(self)@.label == old(self)@.label,
            final(self)@.color_attachment == old(self)@.color_attachment,
            final(self)@.depth_stencil_attachment == old(self)@.depth_stencil_attachment,
            final(self)@.events == old(self)@.events,
    {
        self.viewport = Some(viewport);
    }

    /// Encode one draw call for the item into the pass.
    pub fn draw(&mut self, item: DrawItem)
        ensures
            same_pass_config(final(self)@, old(self)@),
            final(self)@.events == old(self)@.events.push(PassEvent::Draw(item)),
    {
        self.events.push(PassEvent::Draw(item));
    }
}

/// A diagnostics span bound to an open pass; ending it closes the span. The
/// span must be closed before the pass it was opened in ends.
pub struct PassSpan {}

impl PassSpan {
    /// End GPU timestamp recording for this span on the pass it was opened in.
    pub fn end(self, pass: &mut RenderPass)
        ensures
            same_pass_config(final(pass)@, old(pass)@),
            final(pass)@.events == old(pass)@.events.push(PassEvent::SpanClose),
    {
        pass.events.push(PassEvent::SpanClose);
    }
}

/// Opens named timing spans bound to an active pass, independent of whether
/// draws occur; spans only write timestamp queries and never affect draw
/// correctness.
#[derive(Clone, Copy, Debug)]
pub struct DiagnosticsRecorder {}

impl DiagnosticsRecorder {
    /// Begin GPU timestamp recording bound to the currently open pass.
    pub fn pass_span(&self, pass: &mut RenderPass) -> (s: PassSpan)
        ensures
            same_pass_config(final(pass)@, old(pass)@),
            final(pass)@.events == old(pass)@.events.push(PassEvent::SpanOpen),
    {
        pass.events.push(PassEvent::SpanOpen);
        PassSpan {}
    }
}

/// The frame's command log: every pass this node ends is recorded here in
/// encoding order. Stands for the command-buffer recording surface of the
/// render backend.
#[derive(Debug)]
pub struct RenderContext {
    pub passes: Vec<RenderPass>,
}

impl View for RenderContext {
    type V = Seq<PassModel>;

    open spec fn view(&self) -> Seq<PassModel> {
        self.passes@.map_values(|p: RenderPass| p@)
    }
}

impl RenderContext {
    /// A fresh log with no passes encoded.
    pub fn new() -> (r: RenderContext)
        ensures
            r@ == Seq::<PassModel>::empty(),
    {
        let r = RenderContext { passes: Vec::new() };
        proof {
            assert(r@ =~= Seq::<PassModel>::empty());
        }
        r
    }

    /// The recorder for diagnostics spans of this frame.
    pub fn diagnostic_recorder(&self) -> DiagnosticsRecorder {
        DiagnosticsRecorder {}
    }

    /// End a pass and record it. Leaving a span open past the end of its pass
    /// is a programming error, so the pass's spans must be balanced here.
    pub fn end_pass(&mut self, pass: RenderPass)
        requires
            spans_balanced(pass@.events),
        ensures
            final(self)@ == old(self)@.push(pass@),
    {
        let ghost prior = self@;
        self.passes.push(pass);
        proof {
            assert(self@ =~= prior.push(pass@));
        }
    }
}

} // verus!
