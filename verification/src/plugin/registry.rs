//! Plugin registries.
//!
//! Registries that hold available source plugins, processor plugins, and
//! pipeline strategies. Plugins are registered at startup and looked up at
//! runtime by kind or by applicability.

use vstd::prelude::*;

use crate::plugin::pipeline::PipelineStrategy;
use crate::plugin::processor::ProcessorPlugin;
use crate::plugin::source::SourcePlugin;
use crate::process::{ProcessOutput, ProcessOutputKind, SourceKind};

verus! {

// ---------------------------------------------------------------------------
// Source registry
// ---------------------------------------------------------------------------

/// Registry of available source plugins, keyed by `SourceKind`.
pub struct SourceRegistry<P> {
    /// The plugins, each with its kind, no two of one kind.
    pub sources: Vec<(SourceKind, P)>,
}

/// The kinds of source plugins.
pub open spec fn source_kinds<P>(ps: Seq<(SourceKind, P)>) -> Seq<SourceKind> {
    ps.map_values(|p: (SourceKind, P)| p.0)
}

impl<P> SourceRegistry<P> {
    /// No two plugins are of one kind.
    pub open spec fn wf(&self) -> bool {
        source_kinds(self.sources@).no_duplicates()
    }

    /// The plugin of a kind, by that kind.
    pub open spec fn view(&self) -> Map<SourceKind, P> {
        Map::new(
            |k: SourceKind| source_kinds(self.sources@).contains(k),
            |k: SourceKind| self.sources@[source_kinds(self.sources@).index_of(k)].1,
        )
    }

    /// Create an empty source registry.
    pub fn new() -> (r: SourceRegistry<P>)
        ensures
            r.wf(),
            r@ == Map::<SourceKind, P>::empty(),
            source_kinds(r.sources@) == Seq::<SourceKind>::empty(),
    {
        let r = SourceRegistry { sources: Vec::new() };
        assert(source_kinds(r.sources@) =~= Seq::empty());
        assert(r@ =~= Map::<SourceKind, P>::empty());
        r
    }

    /// Where the plugin of a kind is.
    fn position(&self, kind: SourceKind) -> (r: Option<usize>)
        ensures
            match r {
                Some(i) => i < self.sources@.len() && self.sources@[i as int].0 == kind,
                None => !source_kinds(self.sources@).contains(kind),
            },
    {
        let mut i: usize = 0;
        while i < self.sources.len()
            invariant
                i <= self.sources@.len(),
                forall|j: int| 0 <= j < i ==> (#[trigger] self.sources@[j]).0 != kind,
            decreases self.sources@.len() - i,
        {
            if self.sources[i].0 == kind {
                return Some(i);
            }
            i += 1;
        }
        assert forall|j: int| 0 <= j < source_kinds(self.sources@).len() implies source_kinds(
            self.sources@,
        )[j] != kind by {
            assert(self.sources@[j].0 != kind);
        }
        None
    }

    /// Keep a plugin under a kind, in place of another that is there.
    fn keep(&mut self, kind: SourceKind, plugin: P)
        requires
            old(self).wf(),
        ensures
            final(self).wf(),
            final(self)@ == old(self)@.insert(kind, plugin),
            source_kinds(final(self).sources@) == if old(self)@.dom().contains(kind) {
                source_kinds(old(self).sources@)
            } else {
                source_kinds(old(self).sources@).push(kind)
            },
    {
        let ghost ps = self.sources@;
        let ghost kinds = source_kinds(ps);
        match self.position(kind) {
            Some(i) => {
                assert(kinds[i as int] == kind);
                self.sources.set(i, (kind, plugin));
                let ghost now = self.sources@;
                proof {
                    assert(source_kinds(now) =~= kinds);
                    assert forall|k: SourceKind| kinds.contains(k) implies now[kinds.index_of(k)].1
                        == (if k == kind {
                        plugin
                    } else {
                        ps[kinds.index_of(k)].1
                    }) by {
                        assert(kinds[kinds.index_of(k)] == k);
                    }
                    assert(self@ =~= old(self)@.insert(kind, plugin));
                }
            },
            None => {
                self.sources.push((kind, plugin));
                let ghost now = self.sources@;
                proof {
                    assert(source_kinds(now) =~= kinds.push(kind));
                    assert(source_kinds(now).no_duplicates());
                    assert(source_kinds(now)[kinds.len() as int] == kind);
                    assert forall|k: SourceKind| source_kinds(now).contains(k) implies now[source_kinds(
                        now,
                    ).index_of(k)].1 == (if k == kind {
                        plugin
                    } else {
                        ps[kinds.index_of(k)].1
                    }) by {
                        let i = source_kinds(now).index_of(k);
                        assert(source_kinds(now)[i] == k);
                        if k != kind {
                            assert(kinds[i] == k);
                            assert(kinds.contains(k));
                            assert(kinds[kinds.index_of(k)] == k);
                        }
                    }
                    assert forall|k: SourceKind| source_kinds(now).contains(k) == (k == kind
                        || kinds.contains(k)) by {
                        if kinds.contains(k) {
                            let i = kinds.index_of(k);
                            assert(source_kinds(now)[i] == k);
                        }
                        if source_kinds(now).contains(k) && k != kind {
                            let i = source_kinds(now).index_of(k);
                            assert(kinds[i] == k);
                        }
                    }
                    assert(self@ =~= old(self)@.insert(kind, plugin));
                }
            },
        }
    }

    /// Return `true` if a plugin is registered for the given kind.
    pub fn has(&self, kind: &SourceKind) -> (r: bool)
        ensures
            r == self@.dom().contains(*kind),
    {
        match self.position(*kind) {
            Some(i) => {
                assert(source_kinds(self.sources@)[i as int] == *kind);
                true
            },
            None => false,
        }
    }

    /// List all registered source plugin kinds (for UI discovery).
    pub fn kinds(&self) -> (r: Vec<SourceKind>)
        ensures
            r@ == source_kinds(self.sources@),
    {
        let mut out: Vec<SourceKind> = Vec::new();
        let mut i: usize = 0;
        while i < self.sources.len()
            invariant
                i <= self.sources@.len(),
                out@ == source_kinds(self.sources@.take(i as int)),
            decreases self.sources@.len() - i,
        {
            out.push(self.sources[i].0);
            i += 1;
            assert(out@ =~= source_kinds(self.sources@.take(i as int)));
        }
        assert(self.sources@.take(i as int) =~= self.sources@);
        out
    }

    /// Return the number of registered source plugins.
    pub fn len(&self) -> (r: usize)
        ensures
            r == source_kinds(self.sources@).len(),
    {
        self.sources.len()
    }

    /// Return `true` if no plugins are registered.
    pub fn is_empty(&self) -> (r: bool)
        ensures
            r == (source_kinds(self.sources@).len() == 0),
    {
        self.sources.len() == 0
    }
}

impl<P> Default for SourceRegistry<P> {
    fn default() -> (r: SourceRegistry<P>)
        ensures
            r.wf(),
            r@ == Map::<SourceKind, P>::empty(),
    {
        SourceRegistry::new()
    }
}

impl<P: SourcePlugin> SourceRegistry<P> {
    /// Register a source plugin under the kind that it says it is of.
    ///
    /// If a plugin with the same `SourceKind` already exists, it is
    /// replaced (last-write-wins).
    pub fn register(&mut self, plugin: P)
        requires
            old(self).wf(),
        ensures
            final(self).wf(),
            exists|kind: SourceKind| #[trigger]
                call_ensures(P::kind, (&plugin,), kind) && final(self)@ == old(self)@.insert(
                    kind,
                    plugin,
                ) && source_kinds(final(self).sources@) == if old(self)@.dom().contains(kind) {
                    source_kinds(old(self).sources@)
                } else {
                    source_kinds(old(self).sources@).push(kind)
                },
    {
        let kind = plugin.kind();
        self.keep(kind, plugin);
    }
}

// ---------------------------------------------------------------------------
// Processor registry
// ---------------------------------------------------------------------------

/// Registry of available processor plugins, keyed by `ProcessOutputKind`.
pub struct ProcessorRegistry<P> {
    /// The plugins, each with its kind, no two of one kind.
    pub processors: Vec<(ProcessOutputKind, P)>,
}

/// The kinds of processor plugins.
pub open spec fn output_kinds<P>(ps: Seq<(ProcessOutputKind, P)>) -> Seq<ProcessOutputKind> {
    ps.map_values(|p: (ProcessOutputKind, P)| p.0)
}

impl<P> ProcessorRegistry<P> {
    /// No two plugins are of one kind.
    pub open spec fn wf(&self) -> bool {
        output_kinds(self.processors@).no_duplicates()
    }

    /// The plugin of a kind, by that kind.
    pub open spec fn view(&self) -> Map<ProcessOutputKind, P> {
        Map::new(
            |k: ProcessOutputKind| output_kinds(self.processors@).contains(k),
            |k: ProcessOutputKind| self.processors@[output_kinds(self.processors@).index_of(k)].1,
        )
    }

    /// Create an empty processor registry.
    pub fn new() -> (r: ProcessorRegistry<P>)
        ensures
            r.wf(),
            r@ == Map::<ProcessOutputKind, P>::empty(),
            output_kinds(r.processors@) == Seq::<ProcessOutputKind>::empty(),
    {
        let r = ProcessorRegistry { processors: Vec::new() };
        assert(output_kinds(r.processors@) =~= Seq::empty());
        assert(r@ =~= Map::<ProcessOutputKind, P>::empty());
        r
    }

    /// Where the plugin of a kind is.
    fn position(&self, kind: ProcessOutputKind) -> (r: Option<usize>)
        ensures
            match r {
                Some(i) => i < self.processors@.len() && self.processors@[i as int].0 == kind,
                None => !output_kinds(self.processors@).contains(kind),
            },
    {
        let mut i: usize = 0;
        while i < self.processors.len()
            invariant
                i <= self.processors@.len(),
                forall|j: int| 0 <= j < i ==> (#[trigger] self.processors@[j]).0 != kind,
            decreases self.processors@.len() - i,
        {
            if self.processors[i].0 == kind {
                return Some(i);
            }
            i += 1;
        }
        assert forall|j: int| 0 <= j < output_kinds(self.processors@).len() implies output_kinds(
            self.processors@,
        )[j] != kind by {
            assert(self.processors@[j].0 != kind);
        }
        None
    }

    /// Keep a plugin under a kind, in place of another that is there.
    fn keep(&mut self, kind: ProcessOutputKind, plugin: P)
        requires
            old(self).wf(),
        ensures
            final(self).wf(),
            final(self)@ == old(self)@.insert(kind, plugin),
            output_kinds(final(self).processors@) == if old(self)@.dom().contains(kind) {
                output_kinds(old(self).processors@)
            } else {
                output_kinds(old(self).processors@).push(kind)
            },
    {
        let ghost ps = self.processors@;
        let ghost kinds = output_kinds(ps);
        match self.position(kind) {
            Some(i) => {
                assert(kinds[i as int] == kind);
                self.processors.set(i, (kind, plugin));
                let ghost now = self.processors@;
                proof {
                    assert(output_kinds(now) =~= kinds);
                    assert forall|k: ProcessOutputKind| kinds.contains(k) implies now[kinds.index_of(k)].1
                        == (if k == kind {
                        plugin
                    } else {
                        ps[kinds.index_of(k)].1
                    }) by {
                        assert(kinds[kinds.index_of(k)] == k);
                    }
                    assert(self@ =~= old(self)@.insert(kind, plugin));
                }
            },
            None => {
                self.processors.push((kind, plugin));
                let ghost now = self.processors@;
                proof {
                    assert(output_kinds(now) =~= kinds.push(kind));
                    assert(output_kinds(now).no_duplicates());
                    assert(output_kinds(now)[kinds.len() as int] == kind);
                    assert forall|k: ProcessOutputKind| output_kinds(now).contains(k) implies now[output_kinds(
                        now,
                    ).index_of(k)].1 == (if k == kind {
                        plugin
                    } else {
                        ps[kinds.index_of(k)].1
                    }) by {
                        let i = output_kinds(now).index_of(k);
                        assert(output_kinds(now)[i] == k);
                        if k != kind {
                            assert(kinds[i] == k);
                            assert(kinds.contains(k));
                            assert(kinds[kinds.index_of(k)] == k);
                        }
                    }
                    assert forall|k: ProcessOutputKind| output_kinds(now).contains(k) == (k == kind
                        || kinds.contains(k)) by {
                        if kinds.contains(k) {
                            let i = kinds.index_of(k);
                            assert(output_kinds(now)[i] == k);
                        }
                        if output_kinds(now).contains(k) && k != kind {
                            let i = output_kinds(now).index_of(k);
                            assert(kinds[i] == k);
                        }
                    }
                    assert(self@ =~= old(self)@.insert(kind, plugin));
                }
            },
        }
    }

    /// Return `true` if a plugin is registered for the given kind.
    pub fn has(&self, kind: &ProcessOutputKind) -> (r: bool)
        ensures
            r == self@.dom().contains(*kind),
    {
        match self.position(*kind) {
            Some(i) => {
                assert(output_kinds(self.processors@)[i as int] == *kind);
                true
            },
            None => false,
        }
    }

    /// Return the set of all registered output kinds (for UI discovery).
    pub fn kinds(&self) -> (r: Vec<ProcessOutputKind>)
        ensures
            r@ == output_kinds(self.processors@),
    {
        let mut out: Vec<ProcessOutputKind> = Vec::new();
        let mut i: usize = 0;
        while i < self.processors.len()
            invariant
                i <= self.processors@.len(),
                out@ == output_kinds(self.processors@.take(i as int)),
            decreases self.processors@.len() - i,
        {
            out.push(self.processors[i].0);
            i += 1;
            assert(out@ =~= output_kinds(self.processors@.take(i as int)));
        }
        assert(self.processors@.take(i as int) =~= self.processors@);
        out
    }

    /// Return the number of registered processor plugins.
    pub fn len(&self) -> (r: usize)
        ensures
            r == output_kinds(self.processors@).len(),
    {
        self.processors.len()
    }

    /// Return `true` if no plugins are registered.
    pub fn is_empty(&self) -> (r: bool)
        ensures
            r == (output_kinds(self.processors@).len() == 0),
    {
        self.processors.len() == 0
    }

    /// Give out the processor to execute for the given kind; nothing where none is
    /// registered for it.
    pub fn execute(&self, kind: &ProcessOutputKind) -> (r: Option<&P>)
        requires
            self.wf(),
        ensures
            match r {
                Some(plugin) => self@.dom().contains(*kind) && *plugin == self@[*kind],
                None => !self@.dom().contains(*kind),
            },
    {
        match self.position(*kind) {
            Some(i) => {
                proof {
                    let kinds = output_kinds(self.processors@);
                    assert(kinds[i as int] == *kind);
                    assert(kinds[kinds.index_of(*kind)] == *kind);
                }
                Some(&self.processors[i].1)
            },
            None => None,
        }
    }
}

impl<P> Default for ProcessorRegistry<P> {
    fn default() -> (r: ProcessorRegistry<P>)
        ensures
            r.wf(),
            r@ == Map::<ProcessOutputKind, P>::empty(),
    {
        ProcessorRegistry::new()
    }
}

impl<P: ProcessorPlugin> ProcessorRegistry<P> {
    /// Register a processor plugin under the kind that it says it is of.
    ///
    /// If a plugin with the same `ProcessOutputKind` already exists, it is
    /// replaced (last-write-wins).
    pub fn register(&mut self, plugin: P)
        requires
            old(self).wf(),
        ensures
            final(self).wf(),
            exists|kind: ProcessOutputKind| #[trigger]
                call_ensures(P::kind, (&plugin,), kind) && final(self)@ == old(self)@.insert(
                    kind,
                    plugin,
                ) && output_kinds(final(self).processors@) == if old(self)@.dom().contains(kind) {
                    output_kinds(old(self).processors@)
                } else {
                    output_kinds(old(self).processors@).push(kind)
                },
    {
        let kind = plugin.kind();
        self.keep(kind, plugin);
    }
}

// ---------------------------------------------------------------------------
// Pipeline registry
// ---------------------------------------------------------------------------

/// Registry of pipeline strategies, ordered by priority.
///
/// Strategies are tried in registration order; the first one whose
/// `applicable_to` returns `true` handles the outputs.
pub struct PipelineRegistry<P> {
    /// The strategies, in registration order.
    pub strategies: Vec<P>,
}

impl<P: PipelineStrategy> PipelineRegistry<P> {
    /// Whether the first `n` strategies say that they are not applicable.
    pub open spec fn declined(&self, outputs: &[ProcessOutput], n: int) -> bool {
        forall|j: int|
            0 <= j < n ==> call_ensures(
                P::applicable_to,
                (#[trigger] &self.strategies@[j], outputs),
                false,
            )
    }

    /// Create an empty pipeline registry.
    pub fn new() -> (r: PipelineRegistry<P>)
        ensures
            r.strategies@ == Seq::<P>::empty(),
    {
        PipelineRegistry { strategies: Vec::new() }
    }

    /// Register a pipeline strategy. Earlier registrations have higher
    /// priority.
    pub fn register(&mut self, strategy: P)
        ensures
            final(self).strategies@ == old(self).strategies@.push(strategy),
    {
        self.strategies.push(strategy);
    }

    /// Find the first strategy that says it is applicable; nothing if no strategy
    /// claims the outputs.
    pub fn first_applicable(&self, outputs: &[ProcessOutput]) -> (r: Option<usize>)
        ensures
            match r {
                Some(i) => i < self.strategies@.len() && call_ensures(
                    P::applicable_to,
                    (&self.strategies@[i as int], outputs),
                    true,
                ) && self.declined(outputs, i as int),
                None => self.declined(outputs, self.strategies@.len() as int),
            },
    {
        let mut i: usize = 0;
        while i < self.strategies.len()
            invariant
                i <= self.strategies@.len(),
                self.declined(outputs, i as int),
            decreases self.strategies@.len() - i,
        {
            if self.strategies[i].applicable_to(outputs) {
                return Some(i);
            }
            i += 1;
        }
        None
    }

    /// Return the number of registered strategies.
    pub fn len(&self) -> (r: usize)
        ensures
            r == self.strategies@.len(),
    {
        self.strategies.len()
    }

    /// Return `true` if no strategies are registered.
    pub fn is_empty(&self) -> (r: bool)
        ensures
            r == (self.strategies@.len() == 0),
    {
        self.strategies.len() == 0
    }
}

impl<P: PipelineStrategy> Default for PipelineRegistry<P> {
    fn default() -> (r: PipelineRegistry<P>)
        ensures
            r.strategies@ == Seq::<P>::empty(),
    {
        PipelineRegistry::new()
    }
}

} // verus!
