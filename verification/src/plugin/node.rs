//! Node-based plugin contracts and dependency expansion.

use vstd::prelude::*;

use crate::json::{same_text, Json};
use crate::plugin::graph::{depends_on, expansion, is_path, keys, lemma_known, lemma_longer_path,
    lemma_path_has_room, lemma_visit_all_fails, needs, visit, visit_all, Graph, GraphFault};
use crate::process::{is_listed, legacy_id_of, lemma_listed, node_id_of, node_key_of, plugin_id_of,
    ProcessOutput, ProcessOutputKind};
use crate::text::{opt_view, views};

verus! {

/// What a plugin is for.
#[derive(Debug, Clone, Copy, PartialEq, Eq, Structural)]
pub enum PluginKind {
    /// It brings sources in.
    Input,
    /// It makes outputs.
    Output,
}

/// One output that a plugin can make.
#[derive(Debug)]
pub struct OutputNodeDescriptor {
    /// The key of the node: the plugin's identifier, a dot, and the node's.
    pub key: String,
    /// The plugin's identifier.
    pub plugin_id: String,
    /// The node's identifier within the plugin.
    pub node_id: String,
    /// What the node is called.
    pub display_name: String,
    /// The kind of output, as it was called before there were nodes.
    pub legacy_kind: String,
    /// The file extension of the artifact.
    pub artifact_ext: String,
    /// The keys of the nodes that this one depends on.
    pub depends_on: Vec<String>,
}

/// What a plugin is, and what it can make.
#[derive(Debug)]
pub struct PluginDescriptor {
    /// Its identifier.
    pub id: String,
    /// Its version.
    pub version: String,
    /// What it is called.
    pub display_name: String,
    /// What it is for.
    pub kind: PluginKind,
    /// The outputs that it can make.
    pub nodes: Vec<OutputNodeDescriptor>,
    /// The schema of its configuration.
    pub config_schema: Json,
    /// What else it can be asked to do.
    pub actions: Vec<String>,
}

/// What a plugin needs to know to run its nodes.
#[derive(Debug)]
pub struct NodeExecutionContext<'a> {
    /// The process that is run.
    pub process_id: &'a str,
    /// The sources of the process.
    pub source_ids: &'a [String],
    /// The job under which it runs.
    pub job_id: &'a str,
}

/// Why output nodes cannot be ordered.
#[derive(Debug)]
pub enum PluginGraphError {
    /// There is no such node.
    UnknownNode(String),
    /// The node depends on itself.
    CyclicDependency(String),
}

impl View for PluginGraphError {
    type V = GraphFault;

    open spec fn view(&self) -> GraphFault {
        match *self {
            PluginGraphError::UnknownNode(k) => GraphFault::UnknownNode(k@),
            PluginGraphError::CyclicDependency(k) => GraphFault::CyclicDependency(k@),
        }
    }
}

/// What a fault is reported as.
pub open spec fn fault_text(e: GraphFault) -> Seq<char> {
    match e {
        GraphFault::UnknownNode(k) => "unknown output node: "@ + k,
        GraphFault::CyclicDependency(k) => "cyclic output node dependency involving: "@ + k,
    }
}

impl PluginGraphError {
    /// What the error is reported as.
    pub fn message(&self) -> (r: String)
        ensures
            r@ == fault_text(self@),
    {
        match self {
            PluginGraphError::UnknownNode(k) => {
                let mut out = "unknown output node: ".to_owned();
                out.push_str(k.as_str());
                out
            },
            PluginGraphError::CyclicDependency(k) => {
                let mut out = "cyclic output node dependency involving: ".to_owned();
                out.push_str(k.as_str());
                out
            },
        }
    }
}

/// Describe an output node.
pub fn output_node(
    plugin_id: &str,
    node_id: &str,
    display_name: &str,
    legacy_kind: ProcessOutputKind,
    artifact_ext: &str,
    depends_on: Vec<String>,
) -> (r: OutputNodeDescriptor)
    ensures
        r.key@ == node_key_of(plugin_id@, node_id@),
        r.plugin_id@ == plugin_id@,
        r.node_id@ == node_id@,
        r.display_name@ == display_name@,
        r.legacy_kind@ == legacy_id_of(legacy_kind),
        r.artifact_ext@ == artifact_ext@,
        r.depends_on == depends_on,
{
    let mut key = plugin_id.to_owned();
    key.push_str(".");
    key.push_str(node_id);
    OutputNodeDescriptor {
        key,
        plugin_id: plugin_id.to_owned(),
        node_id: node_id.to_owned(),
        display_name: display_name.to_owned(),
        legacy_kind: legacy_kind.legacy_id().to_owned(),
        artifact_ext: artifact_ext.to_owned(),
        depends_on,
    }
}

// ---------------------------------------------------------------------------
// The registry
// ---------------------------------------------------------------------------

/// The plugins, and where each of their nodes is.
pub struct PluginRegistry {
    /// The plugins, in registration order.
    pub plugins: Vec<PluginDescriptor>,
    /// For each node its plugin and its place there, no two with one key.
    pub places: Vec<(usize, usize)>,
}

/// The node at a place.
pub open spec fn node_at(ps: Seq<PluginDescriptor>, place: (usize, usize)) -> OutputNodeDescriptor {
    ps[place.0 as int].nodes@[place.1 as int]
}

/// Whether there is a node at a place.
pub open spec fn is_place(ps: Seq<PluginDescriptor>, place: (usize, usize)) -> bool {
    place.0 < ps.len() && place.1 < ps[place.0 as int].nodes@.len()
}

/// The keys of the nodes at places.
pub open spec fn place_keys(ps: Seq<PluginDescriptor>, places: Seq<(usize, usize)>) -> Seq<
    Seq<char>,
> {
    places.map_values(|p: (usize, usize)| node_at(ps, p).key@)
}

/// Places by key, after the first `n` nodes of plugin `p` were registered: of two
/// nodes with one key the later one counts.
pub open spec fn with_nodes(
    m: Map<Seq<char>, (usize, usize)>,
    nodes: Seq<OutputNodeDescriptor>,
    p: usize,
    n: int,
) -> Map<Seq<char>, (usize, usize)>
    decreases n,
{
    if n <= 0 {
        m
    } else {
        with_nodes(m, nodes, p, n - 1).insert(nodes[n - 1].key@, (p, (n - 1) as usize))
    }
}

impl PluginRegistry {
    /// Every place is one, and no two nodes have one key.
    pub open spec fn wf(&self) -> bool {
        &&& forall|i: int|
            0 <= i < self.places@.len() ==> is_place(self.plugins@, #[trigger] self.places@[i])
        &&& place_keys(self.plugins@, self.places@).no_duplicates()
    }

    /// Where the node of each key is.
    pub open spec fn view(&self) -> Map<Seq<char>, (usize, usize)> {
        Map::new(
            |k: Seq<char>| place_keys(self.plugins@, self.places@).contains(k),
            |k: Seq<char>| self.places@[place_keys(self.plugins@, self.places@).index_of(k)],
        )
    }

    /// The nodes with what they depend on.
    pub open spec fn graph(&self) -> Graph {
        self.places@.map_values(
            |p: (usize, usize)|
                (node_at(self.plugins@, p).key@, views(node_at(self.plugins@, p).depends_on@)),
        )
    }

    /// A registry without plugins.
    pub fn new() -> (r: PluginRegistry)
        ensures
            r.wf(),
            r.plugins@.len() == 0,
            r@ == Map::<Seq<char>, (usize, usize)>::empty(),
    {
        let r = PluginRegistry { plugins: Vec::new(), places: Vec::new() };
        assert(place_keys(r.plugins@, r.places@) =~= Seq::empty());
        assert(r@ =~= Map::<Seq<char>, (usize, usize)>::empty());
        r
    }

    /// Where in the list of places the node of a key is.
    fn position(&self, key: &str) -> (r: Option<usize>)
        requires
            self.wf(),
        ensures
            match r {
                Some(i) => i < self.places@.len() && place_keys(self.plugins@, self.places@)[i as int]
                    == key@,
                None => !place_keys(self.plugins@, self.places@).contains(key@),
            },
    {
        let ghost ks = place_keys(self.plugins@, self.places@);
        let mut i: usize = 0;
        while i < self.places.len()
            invariant
                i <= self.places@.len(),
                self.wf(),
                ks == place_keys(self.plugins@, self.places@),
                forall|j: int| 0 <= j < i ==> ks[j] != key@,
            decreases self.places@.len() - i,
        {
            assert(is_place(self.plugins@, self.places@[i as int]));
            let (p, n) = self.places[i];
            if same_text(self.plugins[p].nodes[n].key.as_str(), key) {
                return Some(i);
            }
            i += 1;
        }
        None
    }

    /// Register a plugin with its nodes. Of two nodes with one key the later one
    /// counts.
    pub fn register_output(&mut self, descriptor: PluginDescriptor)
        requires
            old(self).wf(),
        ensures
            final(self).wf(),
            final(self).plugins@ == old(self).plugins@.push(descriptor),
            final(self)@ == with_nodes(
                old(self)@,
                descriptor.nodes@,
                old(self).plugins@.len() as usize,
                descriptor.nodes@.len() as int,
            ),
    {
        let ghost before = self.plugins@;
        let ghost start = self@;
        let ghost places = self.places@;
        let p: usize = self.plugins.len();
        let count: usize = descriptor.nodes.len();
        self.plugins.push(descriptor);
        proof {
            assert forall|i: int| 0 <= i < places.len() implies is_place(
                self.plugins@,
                #[trigger] places[i],
            ) by {
                assert(is_place(before, places[i]));
            }
            assert forall|i: int| 0 <= i < places.len() implies place_keys(self.plugins@, places)[i]
                == place_keys(before, places)[i] by {
                assert(is_place(before, places[i]));
            }
            assert(place_keys(self.plugins@, places) =~= place_keys(before, places));
            assert(self@ =~= start);
        }
        let mut n: usize = 0;
        while n < count
            invariant
                n <= count,
                p == before.len(),
                self.plugins@ == before.push(descriptor),
                count == descriptor.nodes@.len(),
                self.wf(),
                self@ == with_nodes(start, descriptor.nodes@, p, n as int),
            decreases count - n,
        {
            self.place(p, n);
            n += 1;
        }
    }

    /// Register the node at a place.
    fn place(&mut self, p: usize, n: usize)
        requires
            old(self).wf(),
            is_place(old(self).plugins@, (p, n)),
        ensures
            final(self).wf(),
            final(self).plugins@ == old(self).plugins@,
            final(self)@ == old(self)@.insert(node_at(old(self).plugins@, (p, n)).key@, (p, n)),
    {
        let ghost ps = self.plugins@;
        let ghost places = self.places@;
        let ghost ks = place_keys(ps, places);
        let ghost key = node_at(ps, (p, n)).key@;
        match self.position(self.plugins[p].nodes[n].key.as_str()) {
            Some(i) => {
                self.places.set(i, (p, n));
                let ghost now = self.places@;
                proof {
                    assert(place_keys(ps, now) =~= ks);
                    assert forall|k: Seq<char>| ks.contains(k) implies now[ks.index_of(k)] == (if k
                        == key {
                        (p, n)
                    } else {
                        places[ks.index_of(k)]
                    }) by {
                        assert(ks[ks.index_of(k)] == k);
                    }
                    assert(self@ =~= old(self)@.insert(key, (p, n)));
                }
            },
            None => {
                self.places.push((p, n));
                let ghost now = self.places@;
                let ghost nks = place_keys(ps, now);
                proof {
                    assert(nks =~= ks.push(key));
                    assert(nks.no_duplicates());
                    assert(nks[ks.len() as int] == key);
                    assert forall|k: Seq<char>| nks.contains(k) implies now[nks.index_of(k)] == (if k
                        == key {
                        (p, n)
                    } else {
                        places[ks.index_of(k)]
                    }) by {
                        let i = nks.index_of(k);
                        assert(nks[i] == k);
                        if k != key {
                            assert(ks[i] == k);
                            assert(ks.contains(k));
                            assert(ks[ks.index_of(k)] == k);
                        }
                    }
                    assert forall|k: Seq<char>| nks.contains(k) == (k == key || ks.contains(k)) by {
                        if ks.contains(k) {
                            assert(nks[ks.index_of(k)] == k);
                        }
                        if nks.contains(k) && k != key {
                            assert(ks[nks.index_of(k)] == k);
                        }
                    }
                    assert(self@ =~= old(self)@.insert(key, (p, n)));
                }
            },
        }
    }

    /// The descriptors of the plugins.
    pub fn descriptors(&self) -> (r: &Vec<PluginDescriptor>)
        ensures
            r@ == self.plugins@,
    {
        &self.plugins
    }

    /// Where the node with a key is.
    fn place_of(&self, key: &str) -> (r: Option<(usize, usize)>)
        requires
            self.wf(),
        ensures
            match r {
                Some(place) => self@.dom().contains(key@) && self@[key@] == place && is_place(
                    self.plugins@,
                    place,
                ) && node_at(self.plugins@, place).key@ == key@,
                None => !self@.dom().contains(key@),
            },
    {
        match self.position(key) {
            Some(i) => {
                proof {
                    let ks = place_keys(self.plugins@, self.places@);
                    assert(ks[ks.index_of(key@)] == key@);
                    assert(is_place(self.plugins@, self.places@[i as int]));
                }
                Some(self.places[i])
            },
            None => None,
        }
    }

    /// The node with a key.
    pub fn node(&self, key: &str) -> (r: Option<&OutputNodeDescriptor>)
        requires
            self.wf(),
        ensures
            match r {
                Some(n) => self@.dom().contains(key@) && *n == node_at(self.plugins@, self@[key@])
                    && n.key@ == key@,
                None => !self@.dom().contains(key@),
            },
    {
        match self.place_of(key) {
            Some((p, n)) => Some(&self.plugins[p].nodes[n]),
            None => None,
        }
    }

    /// The key of the node for a kind of output, under its old name or its key.
    pub fn key_for_legacy_kind(&self, kind: &str) -> (r: Option<String>)
        requires
            self.wf(),
        ensures
            opt_view(r) == match legacy_key(kind@) {
                Some(k) => if self@.dom().contains(k) {
                    Some(k)
                } else {
                    None
                },
                None => None,
            },
    {
        let key = if same_text(kind, "note_patch") {
            ProcessOutputKind::NotePatch.node_key()
        } else if same_text(kind, "reference_digest") {
            ProcessOutputKind::ReferenceDigest.node_key()
        } else if same_text(kind, "cheating_sheet") {
            ProcessOutputKind::CheatingSheet.node_key()
        } else if crate::text::contains(kind, ".") {
            kind.to_owned()
        } else {
            return None;
        };
        if self.place_of(key.as_str()).is_some() {
            Some(key)
        } else {
            None
        }
    }

    /// The order in which the requested nodes and what they depend on run.
    pub fn expand_requested_nodes(&self, requested: &[String]) -> (r: Result<
        Vec<String>,
        PluginGraphError,
    >)
        requires
            self.wf(),
        ensures
            match r {
                Ok(order) => expansion(self.graph(), views(requested@)) == Ok::<
                    Seq<Seq<char>>,
                    GraphFault,
                >(views(order@)),
                Err(e) => expansion(self.graph(), views(requested@)) == Err::<
                    Seq<Seq<char>>,
                    GraphFault,
                >(e@),
            },
    {
        let ghost g = self.graph();
        let ghost rv = views(requested@);
        let mut path: Vec<String> = Vec::new();
        let mut done: Vec<String> = Vec::new();
        let ghost e: Seq<Seq<char>> = Seq::empty();
        assert(views(path@) =~= e);
        assert(views(done@) =~= e);
        let mut k: usize = 0;
        while k < requested.len()
            invariant
                k <= requested@.len(),
                self.wf(),
                g == self.graph(),
                rv == views(requested@),
                e == Seq::<Seq<char>>::empty(),
                views(path@) == e,
                visit_all(g, rv, k as int, e, e) == Ok::<Seq<Seq<char>>, GraphFault>(views(done@)),
            decreases requested@.len() - k,
        {
            assert(rv[k as int] == requested@[k as int]@);
            match self.visit_node(requested[k].as_str(), &mut path, &mut done) {
                Ok(_) => {},
                Err(fault) => {
                    proof {
                        lemma_visit_all_fails(g, rv, k + 1, rv.len() as int, e, e);
                    }
                    return Err(fault);
                },
            }
            k += 1;
        }
        Ok(done)
    }

    /// Visit a node: what it depends on first, then the node itself.
    fn visit_node(&self, key: &str, path: &mut Vec<String>, done: &mut Vec<String>) -> (r: Result<
        (),
        PluginGraphError,
    >)
        requires
            self.wf(),
            is_path(self.graph(), views(old(path)@)),
            old(path)@.len() > 0 ==> needs(self.graph(), views(old(path)@).last(), key@),
        ensures
            match r {
                Ok(_) => views(final(path)@) == views(old(path)@) && visit(
                    self.graph(),
                    key@,
                    views(old(path)@),
                    views(old(done)@),
                ) == Ok::<Seq<Seq<char>>, GraphFault>(views(final(done)@)),
                Err(e) => visit(self.graph(), key@, views(old(path)@), views(old(done)@)) == Err::<
                    Seq<Seq<char>>,
                    GraphFault,
                >(e@),
            },
        decreases self.graph().len() - old(path)@.len(),
    {
        let ghost g = self.graph();
        let ghost pv = views(path@);
        let ghost dv = views(done@);
        if is_listed(done, key) {
            proof {
                lemma_listed(done@, key@);
            }
            return Ok(());
        }
        proof {
            lemma_listed(done@, key@);
            lemma_known(g, key@);
            assert(keys(g) =~= place_keys(self.plugins@, self.places@));
        }
        let (p, n) = match self.place_of(key) {
            Some(place) => place,
            None => {
                return Err(PluginGraphError::UnknownNode(key.to_owned()));
            },
        };
        let ghost ds = views(self.plugins@[p as int].nodes@[n as int].depends_on@);
        proof {
            let i = place_keys(self.plugins@, self.places@).index_of(key@);
            assert(place_keys(self.plugins@, self.places@)[i] == key@);
            lemma_depends_on(g, i);
        }
        assert(depends_on(g, key@) == Some(ds));
        if is_listed(path, key) {
            proof {
                lemma_listed(path@, key@);
            }
            return Err(PluginGraphError::CyclicDependency(key.to_owned()));
        }
        proof {
            lemma_listed(path@, key@);
            lemma_path_has_room(g, pv, key@);
            lemma_longer_path(g, pv, key@);
        }
        path.push(key.to_owned());
        let ghost longer = pv.push(key@);
        assert(views(path@) =~= longer);
        let deps: &Vec<String> = &self.plugins[p].nodes[n].depends_on;
        let mut k: usize = 0;
        while k < deps.len()
            invariant
                k <= deps@.len(),
                self.wf(),
                g == self.graph(),
                ds == views(deps@),
                depends_on(g, key@) == Some(ds),
                views(path@) == longer,
                longer == pv.push(key@),
                pv.len() == old(path)@.len(),
                pv == views(old(path)@),
                dv == views(old(done)@),
                is_path(g, longer),
                pv.len() < g.len(),
                !dv.contains(key@),
                !pv.contains(key@),
                visit_all(g, ds, k as int, longer, dv) == Ok::<Seq<Seq<char>>, GraphFault>(
                    views(done@),
                ),
            decreases deps@.len() - k,
        {
            assert(ds[k as int] == deps@[k as int]@);
            assert(ds.contains(ds[k as int]));
            assert(longer.last() == key@);
            assert(path@.len() == longer.len());
            match self.visit_node(deps[k].as_str(), path, done) {
                Ok(_) => {},
                Err(fault) => {
                    proof {
                        lemma_visit_all_fails(g, ds, k + 1, ds.len() as int, longer, dv);
                    }
                    return Err(fault);
                },
            }
            k += 1;
        }
        let ghost before = done@;
        assert(path@.len() == longer.len());
        let _ = path.pop();
        done.push(key.to_owned());
        proof {
            assert(views(done@) =~= views(before).push(key@));
            assert(views(path@) =~= longer.drop_last());
            assert(longer.drop_last() =~= pv);
        }
        Ok(())
    }
}

/// The key of the node for a kind of output, under its old name or its key.
pub open spec fn legacy_key(kind: Seq<char>) -> Option<Seq<char>> {
    if kind == "note_patch"@ {
        Some(kind_key(ProcessOutputKind::NotePatch))
    } else if kind == "reference_digest"@ {
        Some(kind_key(ProcessOutputKind::ReferenceDigest))
    } else if kind == "cheating_sheet"@ {
        Some(kind_key(ProcessOutputKind::CheatingSheet))
    } else if crate::text::contains_of(kind, "."@) {
        Some(kind)
    } else {
        None
    }
}

/// The key of the node for a kind of output.
pub open spec fn kind_key(kind: ProcessOutputKind) -> Seq<char> {
    node_key_of(plugin_id_of(kind), node_id_of(kind))
}

/// A node whose key no other has depends on what stands beside its key.
proof fn lemma_depends_on(g: Graph, i: int)
    requires
        0 <= i < g.len(),
        keys(g).no_duplicates(),
    ensures
        depends_on(g, g[i].0) == Some(g[i].1),
    decreases g.len(),
{
    assert(keys(g)[i] == g[i].0);
    if i > 0 {
        assert(keys(g)[0] == g[0].0);
        let rest = g.skip(1);
        assert(keys(rest) =~= keys(g).skip(1));
        assert(keys(rest).no_duplicates());
        lemma_depends_on(rest, i - 1);
    }
}

// ---------------------------------------------------------------------------
// Running outputs
// ---------------------------------------------------------------------------

/// The key of the node that makes an output.
pub open spec fn output_key(o: ProcessOutput) -> Seq<char> {
    node_key_of(o.plugin_id@, o.node_id@)
}

/// The key of the node that makes an output.
pub fn key_of_output(o: &ProcessOutput) -> (r: String)
    ensures
        r@ == output_key(*o),
{
    let mut key = o.plugin_id.clone();
    key.push_str(".");
    key.push_str(o.node_id.as_str());
    key
}

/// The plugin that makes an output, where there is one.
pub open spec fn owner_of(m: Map<Seq<char>, (usize, usize)>, o: ProcessOutput) -> Option<usize> {
    if m.dom().contains(output_key(o)) {
        Some(m[output_key(o)].0)
    } else {
        None
    }
}

/// The positions of the outputs with an owner, in order.
pub open spec fn owned_by(
    m: Map<Seq<char>, (usize, usize)>,
    outputs: Seq<ProcessOutput>,
    owner: Option<usize>,
) -> Seq<usize>
    decreases outputs.len(),
{
    if outputs.len() == 0 {
        Seq::empty()
    } else {
        let before = owned_by(m, outputs.drop_last(), owner);
        if owner_of(m, outputs.last()) == owner {
            before.push((outputs.len() - 1) as usize)
        } else {
            before
        }
    }
}

/// What each of the first `n` plugins makes, those that make nothing left out.
pub open spec fn groups(
    m: Map<Seq<char>, (usize, usize)>,
    outputs: Seq<ProcessOutput>,
    n: int,
) -> Seq<(usize, Seq<usize>)>
    decreases n,
{
    if n <= 0 {
        Seq::empty()
    } else {
        let before = groups(m, outputs, n - 1);
        let own = owned_by(m, outputs, Some((n - 1) as usize));
        if own.len() > 0 {
            before.push(((n - 1) as usize, own))
        } else {
            before
        }
    }
}

/// What plugins make.
pub open spec fn groups_view(gs: Seq<(usize, Vec<usize>)>) -> Seq<(usize, Seq<usize>)> {
    gs.map_values(|g: (usize, Vec<usize>)| (g.0, g.1@))
}

impl PluginRegistry {
    /// The plugin that makes an output, where there is one.
    fn owner(&self, o: &ProcessOutput) -> (r: Option<usize>)
        requires
            self.wf(),
        ensures
            r == owner_of(self@, *o),
    {
        match self.place_of(key_of_output(o).as_str()) {
            Some((p, _)) => Some(p),
            None => None,
        }
    }

    /// The positions of the outputs with an owner, in order; those that no plugin
    /// makes for none.
    pub fn outputs_of(&self, outputs: &[ProcessOutput], owner: Option<usize>) -> (r: Vec<usize>)
        requires
            self.wf(),
        ensures
            r@ == owned_by(self@, outputs@, owner),
    {
        let mut out: Vec<usize> = Vec::new();
        let mut i: usize = 0;
        assert(outputs@.take(0) =~= Seq::empty());
        while i < outputs.len()
            invariant
                i <= outputs@.len(),
                self.wf(),
                out@ == owned_by(self@, outputs@.take(i as int), owner),
            decreases outputs@.len() - i,
        {
            assert(outputs@.take(i + 1).drop_last() =~= outputs@.take(i as int));
            let found = self.owner(&outputs[i]);
            let same = match (found, owner) {
                (Some(a), Some(b)) => a == b,
                (None, None) => true,
                _ => false,
            };
            if same {
                out.push(i);
            }
            i += 1;
        }
        assert(outputs@.take(i as int) =~= outputs@);
        out
    }

    /// Which plugin makes which of the outputs, the plugins in registration order.
    pub fn execute_outputs(&self, outputs: &[ProcessOutput]) -> (r: Vec<(usize, Vec<usize>)>)
        requires
            self.wf(),
        ensures
            groups_view(r@) == groups(self@, outputs@, self.plugins@.len() as int),
    {
        let mut out: Vec<(usize, Vec<usize>)> = Vec::new();
        let mut p: usize = 0;
        assert(groups_view(out@) =~= Seq::empty());
        while p < self.plugins.len()
            invariant
                p <= self.plugins@.len(),
                self.wf(),
                groups_view(out@) == groups(self@, outputs@, p as int),
            decreases self.plugins@.len() - p,
        {
            let own = self.outputs_of(outputs, Some(p));
            if own.len() > 0 {
                let ghost before = out@;
                out.push((p, own));
                assert(groups_view(out@) =~= groups_view(before).push((p, own@)));
            }
            p += 1;
        }
        out
    }
}

/// The error of an output that no plugin makes.
pub fn unknown_node_error(o: &ProcessOutput) -> (r: String)
    ensures
        r@ == "No output plugin registered for node "@ + output_key(*o),
{
    let mut out = "No output plugin registered for node ".to_owned();
    out.push_str(key_of_output(o).as_str());
    out
}

/// Each output is among those of its owner, and of no other.
pub proof fn law_one_owner_each(
    m: Map<Seq<char>, (usize, usize)>,
    outputs: Seq<ProcessOutput>,
    owner: Option<usize>,
    i: usize,
)
    requires
        outputs.len() <= usize::MAX,
    ensures
        owned_by(m, outputs, owner).contains(i) <==> i < outputs.len() && owner_of(
            m,
            outputs[i as int],
        ) == owner,
    decreases outputs.len(),
{
    if outputs.len() > 0 {
        let rest = outputs.drop_last();
        law_one_owner_each(m, rest, owner, i);
        let before = owned_by(m, rest, owner);
        let all = owned_by(m, outputs, owner);
        let last = (outputs.len() - 1) as usize;
        if owner_of(m, outputs.last()) == owner {
            assert(all[before.len() as int] == last);
            if before.contains(i) {
                let k = choose|k: int| 0 <= k < before.len() && before[k] == i;
                assert(all[k] == i);
            }
            if all.contains(i) && i != last {
                let k = choose|k: int| 0 <= k < all.len() && all[k] == i;
                assert(before[k] == i);
            }
        }
        if i < rest.len() {
            assert(rest[i as int] == outputs[i as int]);
        }
    }
}

/// The older names of the outputs stand for the keys of their nodes; a key stands for
/// itself, and any other name for nothing.
pub proof fn law_older_names(kind: Seq<char>)
    ensures
        legacy_key("note_patch"@) == Some("builtin.note_patch.note"@),
        legacy_key("reference_digest"@) == Some("builtin.ref_cheat.ref"@),
        legacy_key("cheating_sheet"@) == Some("builtin.ref_cheat.cheat"@),
        kind != "note_patch"@ && kind != "reference_digest"@ && kind != "cheating_sheet"@
            ==> legacy_key(kind) == (if crate::text::contains_of(kind, "."@) {
            Some(kind)
        } else {
            None
        }),
{
    crate::process::law_kinds_have_their_own_keys(
        ProcessOutputKind::NotePatch,
        ProcessOutputKind::ReferenceDigest,
    );
    reveal_strlit("note_patch");
    reveal_strlit("reference_digest");
    reveal_strlit("cheating_sheet");
    assert("note_patch"@.len() == 10 && "reference_digest"@.len() == 16);
    assert("cheating_sheet"@.len() == 14);
}

/// Every plugin that owns an output is run once, with all outputs that it owns, and in
/// the order of the plugins; a plugin that owns none is not run.
pub proof fn law_owners_run_once(
    m: Map<Seq<char>, (usize, usize)>,
    outputs: Seq<ProcessOutput>,
    n: int,
)
    requires
        0 <= n < usize::MAX,
    ensures
        ({
            let own = owned_by(m, outputs, Some(n as usize));
            groups(m, outputs, n + 1) == if own.len() > 0 {
                groups(m, outputs, n).push((n as usize, own))
            } else {
                groups(m, outputs, n)
            }
        }),
        groups(m, outputs, 0).len() == 0,
{
}

/// A node that is registered again replaces the one of the same key, and every other
/// node stays.
pub proof fn law_last_registration_counts(
    m: Map<Seq<char>, (usize, usize)>,
    nodes: Seq<OutputNodeDescriptor>,
    p: usize,
    n: int,
    key: Seq<char>,
)
    requires
        0 < n <= nodes.len() <= usize::MAX,
    ensures
        with_nodes(m, nodes, p, n)[nodes[n - 1].key@] == (p, (n - 1) as usize),
        with_nodes(m, nodes, p, n).dom().contains(nodes[n - 1].key@),
        key != nodes[n - 1].key@ ==> with_nodes(m, nodes, p, n).dom().contains(key) == with_nodes(
            m,
            nodes,
            p,
            n - 1,
        ).dom().contains(key),
        key != nodes[n - 1].key@ && with_nodes(m, nodes, p, n - 1).dom().contains(key)
            ==> with_nodes(m, nodes, p, n)[key] == with_nodes(m, nodes, p, n - 1)[key],
        with_nodes(m, nodes, p, 0) == m,
{
}

/// A fault is reported with the node that it is about, and a node that is not there
/// otherwise than a circle of nodes.
pub proof fn law_faults_name_the_node(k: Seq<char>)
    ensures
        crate::text::ends_with_of(fault_text(GraphFault::UnknownNode(k)), k),
        crate::text::starts_with_of(fault_text(GraphFault::UnknownNode(k)), "unknown output node"@),
        crate::text::ends_with_of(fault_text(GraphFault::CyclicDependency(k)), k),
        crate::text::starts_with_of(
            fault_text(GraphFault::CyclicDependency(k)),
            "cyclic output node dependency"@,
        ),
{
    reveal_strlit("unknown output node: ");
    reveal_strlit("unknown output node");
    reveal_strlit("cyclic output node dependency involving: ");
    reveal_strlit("cyclic output node dependency");
    let a = fault_text(GraphFault::UnknownNode(k));
    let b = fault_text(GraphFault::CyclicDependency(k));
    assert(a.subrange(a.len() - k.len(), a.len() as int) =~= k);
    assert(b.subrange(b.len() - k.len(), b.len() as int) =~= k);
    assert(a.subrange(0, 19) =~= "unknown output node"@);
    assert(b.subrange(0, 29) =~= "cyclic output node dependency"@);
}

} // verus!
