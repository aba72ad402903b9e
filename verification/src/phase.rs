//! The sorted draw phase and the stores it is resolved from: draw items keyed
//! by a view identity, a per-frame registry of phases, and the read-only
//! pipeline store that draw items are resolved against.

use vstd::prelude::*;
use crate::pass::{draw_events, same_pass_config, PassEvent, RenderPass};

verus! {

/// One queued draw call: a reference (by identity) to a pipeline plus binding
/// state, and the sort key its position in the phase was established under.
#[derive(Clone, Copy, PartialEq, Eq, Structural, Debug)]
pub struct DrawItem {
    pub entity: u64,
    pub pipeline: u64,
    pub sort_key: u64,
}

/// A pipeline as the read-only store resolves it: its identity, and whether
/// drawing with it requires a stencil attachment to be bound.
#[derive(Clone, Copy, PartialEq, Eq, Structural, Debug)]
pub struct PipelineDescriptor {
    pub id: u64,
    pub requires_stencil: bool,
}

/// The read-only store draw items resolve their pipelines from by identity.
#[derive(Clone, Debug)]
pub struct PipelineStore {
    pub pipelines: Vec<PipelineDescriptor>,
}

/// A pipeline identity resolves in the store.
pub open spec fn resolves(pipelines: Seq<PipelineDescriptor>, id: u64) -> bool {
    exists|i: int| 0 <= i < pipelines.len() && pipelines[i].id == id
}

/// A pipeline identity resolves in the store to a pipeline that requires a
/// stencil attachment.
pub open spec fn pipeline_requires_stencil(pipelines: Seq<PipelineDescriptor>, id: u64) -> bool {
    exists|i: int| 0 <= i < pipelines.len() && pipelines[i].id == id && pipelines[i].requires_stencil
}

impl PipelineStore {
    /// Pipeline identities are unique, so resolution by identity is a function.
    pub open spec fn wf(self) -> bool {
        forall|a: int, b: int|
            0 <= a < self.pipelines@.len() && 0 <= b < self.pipelines@.len() && a != b
                ==> self.pipelines@[a].id != self.pipelines@[b].id
    }

    pub fn new() -> (r: PipelineStore)
        ensures
            r.wf(),
            r.pipelines@ == Seq::<PipelineDescriptor>::empty(),
    {
        PipelineStore { pipelines: Vec::new() }
    }

    /// Register a pipeline under a fresh identity.
    pub fn add_pipeline(&mut self, pipeline: PipelineDescriptor)
        requires
            old(self).wf(),
            !resolves(old(self).pipelines@, pipeline.id),
        ensures
            final(self).wf(),
            final(self).pipelines@ == old(self).pipelines@.push(pipeline),
    {
        self.pipelines.push(pipeline);
    }

    /// Resolve a pipeline by identity; absence is reported, not an error here.
    pub fn get(&self, id: u64) -> (r: Option<&PipelineDescriptor>)
        requires
            self.wf(),
        ensures
            match r {
                Some(p) => {
                    &&& resolves(self.pipelines@, id)
                    &&& p.id == id
                    &&& p.requires_stencil == pipeline_requires_stencil(self.pipelines@, id)
                },
                None => !resolves(self.pipelines@, id),
            },
    {
        let n = self.pipelines.len();
        let mut i: usize = 0;
        while i < n
            invariant
                n == self.pipelines@.len(),
                i <= n,
                self.wf(),
                forall|j: int| 0 <= j < i ==> self.pipelines@[j].id != id,
            decreases n - i,
        {
            if self.pipelines[i].id == id {
                let p = &self.pipelines[i];
                if p.requires_stencil {
                    assert(pipeline_requires_stencil(self.pipelines@, id));
                } else {
                    assert forall|k: int|
                        0 <= k < self.pipelines@.len() && self.pipelines@[k].id == id implies
                        !self.pipelines@[k].requires_stencil by {
                        assert(k == i);
                    }
                }
                return Some(p);
            }
            i += 1;
        }
        None
    }
}

/// The ordered collection of draw items queued for one view, sorted ascending
/// by sort key before this node runs; the order is a precondition here, never
/// recomputed.
#[derive(Clone, Debug)]
pub struct SortedPhase {
    pub items: Vec<DrawItem>,
}

impl SortedPhase {
    /// Items stand in ascending sort-key order.
    pub open spec fn wf(self) -> bool {
        forall|a: int, b: int|
            0 <= a <= b < self.items@.len() ==> self.items@[a].sort_key <= self.items@[b].sort_key
    }

    pub fn new() -> (r: SortedPhase)
        ensures
            r.wf(),
            r.items@ == Seq::<DrawItem>::empty(),
    {
        SortedPhase { items: Vec::new() }
    }

    /// Append an item whose key does not precede the last queued key, keeping
    /// the phase sorted.
    pub fn push(&mut self, item: DrawItem)
        requires
            old(self).wf(),
            old(self).items@.len() > 0 ==> old(self).items@.last().sort_key <= item.sort_key,
        ensures
            final(self).wf(),
            final(self).items@ == old(self).items@.push(item),
    {
        self.items.push(item);
    }

    /// Submit the phase into the active pass: one draw call per item, in
    /// exactly the stored order, each item's pipeline resolved from the store
    /// by identity. The first item that fails to resolve aborts the phase,
    /// with the draws encoded before it left in place; nothing is reordered
    /// or skipped.
    pub fn render(&self, pass: &mut RenderPass, store: &PipelineStore) -> (r: Result<(), usize>)
        requires
            store.wf(),
        ensures
            same_pass_config(final(pass)@, old(pass)@),
            match r {
                Ok(()) => {
                    &&& all_resolve(store.pipelines@, self.items@)
                    &&& final(pass)@.events == old(pass)@.events + draw_events(self.items@)
                },
                Err(ix) => {
                    &&& ix < self.items@.len()
                    &&& ix as int == resolved_prefix(store.pipelines@, self.items@)
                    &&& !resolves(store.pipelines@, self.items@[ix as int].pipeline)
                    &&& forall|j: int|
                        0 <= j < ix ==> resolves(store.pipelines@, self.items@[j].pipeline)
                    &&& final(pass)@.events == old(pass)@.events + draw_events(
                        self.items@.take(ix as int),
                    )
                },
            },
    {
        let ghost entry_events = pass@.events;
        let n = self.items.len();
        let mut i: usize = 0;
        proof {
            assert(draw_events(self.items@.take(0)) =~= Seq::<PassEvent>::empty());
            assert(entry_events + draw_events(self.items@.take(0)) =~= entry_events);
        }
        while i < n
            invariant
                n == self.items@.len(),
                i <= n,
                store.wf(),
                same_pass_config(pass@, old(pass)@),
                forall|j: int| 0 <= j < i ==> resolves(store.pipelines@, self.items@[j].pipeline),
                entry_events == old(pass)@.events,
                pass@.events == entry_events + draw_events(self.items@.take(i as int)),
            decreases n - i,
        {
            let item = self.items[i];
            match store.get(item.pipeline) {
                Some(_) => {
                    pass.draw(item);
                    proof {
                        assert(self.items@.take(i as int + 1) =~= self.items@.take(
                            i as int,
                        ).push(item));
                        assert(draw_events(self.items@.take(i as int + 1)) =~= draw_events(
                            self.items@.take(i as int),
                        ).push(PassEvent::Draw(item)));
                        assert(pass@.events =~= entry_events + draw_events(
                            self.items@.take(i as int + 1),
                        ));
                    }
                    i += 1;
                },
                None => {
                    proof {
                        lemma_resolved_prefix_is(store.pipelines@, self.items@, i as int);
                    }
                    return Err(i);
                },
            }
        }
        proof {
            assert(self.items@.take(n as int) =~= self.items@);
        }
        Ok(())
    }
}

/// Some queued item's pipeline resolves to one that requires stencil testing.
pub open spec fn needs_stencil(pipelines: Seq<PipelineDescriptor>, items: Seq<DrawItem>) -> bool {
    exists|i: int|
        0 <= i < items.len() && pipeline_requires_stencil(pipelines, items[i].pipeline)
}

/// Every queued item's pipeline resolves in the store.
pub open spec fn all_resolve(pipelines: Seq<PipelineDescriptor>, items: Seq<DrawItem>) -> bool {
    forall|i: int| 0 <= i < items.len() ==> resolves(pipelines, items[i].pipeline)
}

/// How many leading items resolve: the index of the first item whose pipeline
/// is missing from the store, or the item count when every one resolves.
pub open spec fn resolved_prefix(pipelines: Seq<PipelineDescriptor>, items: Seq<DrawItem>) -> int
    decreases items.len(),
{
    if items.len() == 0 {
        0
    } else if !resolves(pipelines, items.first().pipeline) {
        0
    } else {
        1 + resolved_prefix(pipelines, items.drop_first())
    }
}

/// The index of the first item whose pipeline requires stencil testing, or
/// the item count when none does.
pub open spec fn first_stencil_index(
    pipelines: Seq<PipelineDescriptor>,
    items: Seq<DrawItem>,
) -> int
    decreases items.len(),
{
    if items.len() == 0 {
        0
    } else if pipeline_requires_stencil(pipelines, items.first().pipeline) {
        0
    } else {
        1 + first_stencil_index(pipelines, items.drop_first())
    }
}

/// The resolved prefix lies between zero and the item count.
pub proof fn lemma_resolved_prefix_bounds(
    pipelines: Seq<PipelineDescriptor>,
    items: Seq<DrawItem>,
)
    ensures
        0 <= resolved_prefix(pipelines, items) <= items.len(),
    decreases items.len(),
{
    if items.len() > 0 && resolves(pipelines, items.first().pipeline) {
        lemma_resolved_prefix_bounds(pipelines, items.drop_first());
    }
}

/// The resolved prefix is the unique cut where everything before resolves and
/// the item at it, if any, does not.
pub proof fn lemma_resolved_prefix_is(
    pipelines: Seq<PipelineDescriptor>,
    items: Seq<DrawItem>,
    k: int,
)
    requires
        0 <= k <= items.len(),
        forall|j: int| 0 <= j < k ==> resolves(pipelines, items[j].pipeline),
        k < items.len() ==> !resolves(pipelines, items[k].pipeline),
    ensures
        resolved_prefix(pipelines, items) == k,
    decreases items.len(),
{
    if k > 0 {
        assert(resolves(pipelines, items[0].pipeline));
        assert forall|j: int| 0 <= j < k - 1 implies resolves(
            pipelines,
            (#[trigger] items.drop_first()[j]).pipeline,
        ) by {
            assert(items.drop_first()[j] == items[j + 1]);
        }
        if k - 1 < items.drop_first().len() {
            assert(items.drop_first()[k - 1] == items[k]);
        }
        lemma_resolved_prefix_is(pipelines, items.drop_first(), k - 1);
    }
}

/// The first stencil-requiring index is the unique cut where nothing before
/// requires stencil testing and the item at it, if any, does.
pub proof fn lemma_first_stencil_index_is(
    pipelines: Seq<PipelineDescriptor>,
    items: Seq<DrawItem>,
    k: int,
)
    requires
        0 <= k <= items.len(),
        forall|j: int| 0 <= j < k ==> !pipeline_requires_stencil(pipelines, items[j].pipeline),
        k < items.len() ==> pipeline_requires_stencil(pipelines, items[k].pipeline),
    ensures
        first_stencil_index(pipelines, items) == k,
    decreases items.len(),
{
    if k > 0 {
        assert(!pipeline_requires_stencil(pipelines, items[0].pipeline));
        assert forall|j: int| 0 <= j < k - 1 implies !pipeline_requires_stencil(
            pipelines,
            (#[trigger] items.drop_first()[j]).pipeline,
        ) by {
            assert(items.drop_first()[j] == items[j + 1]);
        }
        if k - 1 < items.drop_first().len() {
            assert(items.drop_first()[k - 1] == items[k]);
        }
        lemma_first_stencil_index_is(pipelines, items.drop_first(), k - 1);
    }
}

/// The first queued item whose pipeline resolves to a stencil-requiring one,
/// if any item does.
pub fn find_stencil_requirement(items: &Vec<DrawItem>, store: &PipelineStore) -> (r: Option<
    usize,
>)
    requires
        store.wf(),
    ensures
        match r {
            Some(ix) => {
                &&& needs_stencil(store.pipelines@, items@)
                &&& ix < items@.len()
                &&& ix as int == first_stencil_index(store.pipelines@, items@)
                &&& pipeline_requires_stencil(store.pipelines@, items@[ix as int].pipeline)
            },
            None => !needs_stencil(store.pipelines@, items@),
        },
{
    let n = items.len();
    let mut i: usize = 0;
    while i < n
        invariant
            n == items@.len(),
            i <= n,
            store.wf(),
            forall|j: int|
                0 <= j < i ==> !pipeline_requires_stencil(
                    store.pipelines@,
                    items@[j].pipeline,
                ),
        decreases n - i,
    {
        let stencil_needed = match store.get(items[i].pipeline) {
            Some(p) => p.requires_stencil,
            None => false,
        };
        if stencil_needed {
            proof {
                lemma_first_stencil_index_is(store.pipelines@, items@, i as int);
            }
            return Some(i);
        }
        proof {
            if pipeline_requires_stencil(store.pipelines@, items@[i as int].pipeline) {
                assert(resolves(store.pipelines@, items@[i as int].pipeline));
                assert(false);
            }
        }
        i += 1;
    }
    None
}

/// The draw items of an optional phase: none queued means an empty sequence.
pub open spec fn items_of(phase: Option<&SortedPhase>) -> Seq<DrawItem> {
    match phase {
        Some(p) => p.items@,
        None => Seq::<DrawItem>::empty(),
    }
}

/// The phase an entry sequence holds for a view: the first entry under that
/// view identity, if any.
pub open spec fn registry_lookup(entries: Seq<(u64, SortedPhase)>, view: u64) -> Option<
    SortedPhase,
>
    decreases entries.len(),
{
    if entries.len() == 0 {
        None
    } else if entries.first().0 == view {
        Some(entries.first().1)
    } else {
        registry_lookup(entries.drop_first(), view)
    }
}

/// The per-frame mapping from view identity to that view's sorted phase,
/// rebuilt once per frame by upstream collection. Absence of an entry for a
/// view is a valid nothing-to-draw state, not an error.
#[derive(Clone, Debug)]
pub struct PhaseRegistry {
    pub entries: Vec<(u64, SortedPhase)>,
}

impl PhaseRegistry {
    /// View identities are unique and every stored phase is sorted.
    pub open spec fn wf(self) -> bool {
        &&& forall|a: int, b: int|
            0 <= a < self.entries@.len() && 0 <= b < self.entries@.len() && a != b
                ==> #[trigger] self.entries@[a].0 != #[trigger] self.entries@[b].0
        &&& forall|a: int| 0 <= a < self.entries@.len() ==> (#[trigger] self.entries@[a].1).wf()
    }

    pub fn new() -> (r: PhaseRegistry)
        ensures
            r.wf(),
            r.entries@ == Seq::<(u64, SortedPhase)>::empty(),
    {
        PhaseRegistry { entries: Vec::new() }
    }

    /// Register a view's phase under a view identity not yet present.
    pub fn insert(&mut self, view: u64, phase: SortedPhase)
        requires
            old(self).wf(),
            phase.wf(),
            registry_lookup(old(self).entries@, view) is None,
        ensures
            final(self).wf(),
            final(self).entries@ == old(self).entries@.push((view, phase)),
    {
        proof {
            lemma_registry_lookup_none_keys(self.entries@, view);
        }
        self.entries.push((view, phase));
    }

    /// Look the view's phase up; absence is the valid nothing-to-draw state.
    pub fn get(&self, view: u64) -> (r: Option<&SortedPhase>)
        ensures
            match r {
                Some(p) => registry_lookup(self.entries@, view) == Some(*p),
                None => registry_lookup(self.entries@, view) is None,
            },
    {
        let n = self.entries.len();
        let mut i: usize = 0;
        proof {
            assert(self.entries@.skip(0) =~= self.entries@);
        }
        while i < n
            invariant
                n == self.entries@.len(),
                i <= n,
                registry_lookup(self.entries@, view) == registry_lookup(
                    self.entries@.skip(i as int),
                    view,
                ),
            decreases n - i,
        {
            let ghost rest = self.entries@.skip(i as int);
            assert(rest.len() > 0);
            assert(rest.first() == self.entries@[i as int]);
            if self.entries[i].0 == view {
                return Some(&self.entries[i].1);
            }
            assert(rest.drop_first() =~= self.entries@.skip(i as int + 1));
            i += 1;
        }
        assert(self.entries@.skip(n as int) =~= Seq::<(u64, SortedPhase)>::empty());
        None
    }
}

/// A lookup that finds nothing for a view means no entry carries that view's
/// identity.
proof fn lemma_registry_lookup_none_keys(entries: Seq<(u64, SortedPhase)>, view: u64)
    requires
        registry_lookup(entries, view) is None,
    ensures
        forall|a: int| 0 <= a < entries.len() ==> (#[trigger] entries[a]).0 != view,
    decreases entries.len(),
{
    if entries.len() > 0 {
        lemma_registry_lookup_none_keys(entries.drop_first(), view);
        assert forall|a: int| 0 <= a < entries.len() implies (#[trigger] entries[a]).0
            != view by {
            if a > 0 {
                assert(entries.drop_first()[a - 1] == entries[a]);
            }
        }
    }
}

} // verus!
