//! The dependencies between output nodes, and the order in which nodes run.

use vstd::prelude::*;

verus! {

/// Nodes by their keys, each with the keys of the nodes that it depends on. The
/// keys differ.
pub type Graph = Seq<(Seq<char>, Seq<Seq<char>>)>;

/// Why nodes cannot be ordered.
pub enum GraphFault {
    /// There is no node with this key.
    UnknownNode(Seq<char>),
    /// This node depends on itself, by way of others or not.
    CyclicDependency(Seq<char>),
}

/// The keys of the nodes.
pub open spec fn keys(g: Graph) -> Seq<Seq<char>> {
    g.map_values(|n: (Seq<char>, Seq<Seq<char>>)| n.0)
}

/// What the node with a key depends on.
pub open spec fn depends_on(g: Graph, key: Seq<char>) -> Option<Seq<Seq<char>>>
    decreases g.len(),
{
    if g.len() == 0 {
        None
    } else if g[0].0 == key {
        Some(g[0].1)
    } else {
        depends_on(g.skip(1), key)
    }
}

/// There are dependencies for the keys of the nodes, and for no others.
pub proof fn lemma_known(g: Graph, key: Seq<char>)
    ensures
        depends_on(g, key) is Some <==> keys(g).contains(key),
    decreases g.len(),
{
    if g.len() > 0 {
        lemma_known(g.skip(1), key);
        assert(keys(g)[0] == g[0].0);
        assert(keys(g).skip(1) =~= keys(g.skip(1)));
        if keys(g.skip(1)).contains(key) {
            let i = choose|i: int| 0 <= i < keys(g.skip(1)).len() && keys(g.skip(1))[i] == key;
            assert(keys(g)[i + 1] == key);
        }
        if keys(g).contains(key) && g[0].0 != key {
            let i = choose|i: int| 0 <= i < keys(g).len() && keys(g)[i] == key;
            assert(keys(g.skip(1))[i - 1] == key);
        }
    }
}

// ---------------------------------------------------------------------------
// The order
// ---------------------------------------------------------------------------

/// The nodes that are done once a node is: those of `done`, then what the node
/// depends on, each once and behind its own dependencies, then the node itself.
/// `path` are the nodes that wait for this one.
pub open spec fn visit(g: Graph, key: Seq<char>, path: Seq<Seq<char>>, done: Seq<Seq<char>>) -> Result<
    Seq<Seq<char>>,
    GraphFault,
>
    decreases g.len() - path.len(), 0int,
{
    if done.contains(key) {
        Ok(done)
    } else {
        match depends_on(g, key) {
            None => Err(GraphFault::UnknownNode(key)),
            Some(ds) => if path.contains(key) || path.len() >= g.len() {
                Err(GraphFault::CyclicDependency(key))
            } else {
                match visit_all(g, ds, ds.len() as int, path.push(key), done) {
                    Err(e) => Err(e),
                    Ok(d) => Ok(d.push(key)),
                }
            },
        }
    }
}

/// The nodes that are done once the first `k` of the given nodes are.
pub open spec fn visit_all(
    g: Graph,
    ds: Seq<Seq<char>>,
    k: int,
    path: Seq<Seq<char>>,
    done: Seq<Seq<char>>,
) -> Result<Seq<Seq<char>>, GraphFault>
    decreases g.len() - path.len(), k,
{
    if k <= 0 {
        Ok(done)
    } else {
        match visit_all(g, ds, k - 1, path, done) {
            Err(e) => Err(e),
            Ok(d) => visit(g, ds[k - 1], path, d),
        }
    }
}

/// The order in which the requested nodes and what they depend on run.
pub open spec fn expansion(g: Graph, requested: Seq<Seq<char>>) -> Result<
    Seq<Seq<char>>,
    GraphFault,
> {
    visit_all(g, requested, requested.len() as int, Seq::empty(), Seq::empty())
}

/// A failure of the first nodes is one of all.
pub proof fn lemma_visit_all_fails(
    g: Graph,
    ds: Seq<Seq<char>>,
    k: int,
    n: int,
    path: Seq<Seq<char>>,
    done: Seq<Seq<char>>,
)
    requires
        k <= n,
        visit_all(g, ds, k, path, done) is Err,
    ensures
        visit_all(g, ds, n, path, done) == visit_all(g, ds, k, path, done),
    decreases n - k,
{
    if k < n {
        lemma_visit_all_fails(g, ds, k, n - 1, path, done);
    }
}

/// Nodes that wait for each other are nodes, each once: a node beside them leaves
/// room for one more.
pub proof fn lemma_path_has_room(g: Graph, path: Seq<Seq<char>>, key: Seq<char>)
    requires
        path.no_duplicates(),
        forall|i: int| 0 <= i < path.len() ==> keys(g).contains(#[trigger] path[i]),
        keys(g).contains(key),
        !path.contains(key),
    ensures
        path.len() < g.len(),
{
    let longer = path.push(key);
    assert(longer.no_duplicates()) by {
        assert forall|i: int, j: int| 0 <= i < longer.len() && 0 <= j < longer.len() && i != j implies longer[i]
            != longer[j] by {
            if i == path.len() {
                assert(path[j] == longer[j]);
            } else if j == path.len() {
                assert(path[i] == longer[i]);
            }
        }
    }
    longer.unique_seq_to_set();
    keys(g).lemma_cardinality_of_set();
    assert(longer.to_set().subset_of(keys(g).to_set())) by {
        assert forall|x: Seq<char>| longer.to_set().contains(x) implies keys(g).to_set().contains(
            x,
        ) by {
            let i = choose|i: int| 0 <= i < longer.len() && longer[i] == x;
            if i < path.len() {
                assert(path[i] == x);
            }
        }
    }
    vstd::set_lib::lemma_len_subset(longer.to_set(), keys(g).to_set());
}

// ---------------------------------------------------------------------------
// Laws
// ---------------------------------------------------------------------------

/// Nodes each once, all known, and each behind what it depends on.
pub open spec fn in_dependency_order(g: Graph, order: Seq<Seq<char>>) -> bool {
    &&& order.no_duplicates()
    &&& forall|i: int|
        0 <= i < order.len() ==> depends_on(g, #[trigger] order[i]) is Some && forall|j: int|
            0 <= j < depends_on(g, order[i])->0.len() ==> order.take(i).contains(
                #[trigger] depends_on(g, order[i])->0[j],
            )
}

/// Whether one list of nodes begins with another.
pub open spec fn extends(longer: Seq<Seq<char>>, shorter: Seq<Seq<char>>) -> bool {
    shorter.len() <= longer.len() && longer.take(shorter.len() as int) == shorter
}

/// Visiting keeps the order, adds behind what is done, and does the node.
proof fn lemma_visit(g: Graph, key: Seq<char>, path: Seq<Seq<char>>, done: Seq<Seq<char>>)
    requires
        in_dependency_order(g, done),
        forall|i: int| 0 <= i < path.len() ==> !done.contains(#[trigger] path[i]),
    ensures
        visit(g, key, path, done) matches Ok(d) ==> in_dependency_order(g, d) && extends(d, done)
            && d.contains(key) && forall|i: int|
            0 <= i < path.len() ==> !d.contains(#[trigger] path[i]),
    decreases g.len() - path.len(), 0int,
{
    if done.contains(key) {
        assert(done.take(done.len() as int) =~= done);
    } else if depends_on(g, key) is Some && !path.contains(key) && path.len() < g.len() {
        let ds = depends_on(g, key)->0;
        let longer = path.push(key);
        assert forall|i: int| 0 <= i < longer.len() implies !done.contains(#[trigger] longer[i]) by {
            if i < path.len() {
                assert(longer[i] == path[i]);
            }
        }
        lemma_visit_all(g, ds, ds.len() as int, longer, done);
        if let Ok(d) = visit_all(g, ds, ds.len() as int, longer, done) {
            let after = d.push(key);
            assert(!d.contains(key)) by {
                assert(longer[path.len() as int] == key);
            }
            assert(after.no_duplicates()) by {
                assert forall|i: int, j: int|
                    0 <= i < after.len() && 0 <= j < after.len() && i != j implies after[i]
                    != after[j] by {
                    if i == d.len() {
                        assert(d[j] == after[j]);
                    } else if j == d.len() {
                        assert(d[i] == after[i]);
                    }
                }
            }
            assert forall|i: int| 0 <= i < after.len() implies depends_on(g, #[trigger] after[i])
                is Some && forall|j: int|
                0 <= j < depends_on(g, after[i])->0.len() ==> after.take(i).contains(
                    #[trigger] depends_on(g, after[i])->0[j],
                ) by {
                if i < d.len() {
                    assert(after[i] == d[i]);
                    assert(after.take(i) =~= d.take(i));
                } else {
                    assert(after.take(i) =~= d);
                    assert forall|j: int| 0 <= j < ds.len() implies d.contains(#[trigger] ds[j]) by {}
                }
            }
            assert(after.take(done.len() as int) =~= d.take(done.len() as int));
            assert(after[d.len() as int] == key);
            assert forall|i: int| 0 <= i < path.len() implies !after.contains(
                #[trigger] path[i],
            ) by {
                assert(longer[i] == path[i]);
                if after.contains(path[i]) {
                    let k = choose|k: int| 0 <= k < after.len() && after[k] == path[i];
                    if k < d.len() {
                        assert(d[k] == path[i]);
                    } else {
                        assert(path.contains(key));
                    }
                }
            }
        }
    }
}

/// Visiting several nodes keeps the order, adds behind what is done, and does them
/// all.
proof fn lemma_visit_all(
    g: Graph,
    ds: Seq<Seq<char>>,
    k: int,
    path: Seq<Seq<char>>,
    done: Seq<Seq<char>>,
)
    requires
        k <= ds.len(),
        in_dependency_order(g, done),
        forall|i: int| 0 <= i < path.len() ==> !done.contains(#[trigger] path[i]),
    ensures
        visit_all(g, ds, k, path, done) matches Ok(d) ==> in_dependency_order(g, d) && extends(
            d,
            done,
        ) && (forall|j: int| 0 <= j < k ==> d.contains(#[trigger] ds[j])) && forall|i: int|
            0 <= i < path.len() ==> !d.contains(#[trigger] path[i]),
    decreases g.len() - path.len(), k,
{
    if k <= 0 {
        assert(done.take(done.len() as int) =~= done);
    } else {
        lemma_visit_all(g, ds, k - 1, path, done);
        if let Ok(d) = visit_all(g, ds, k - 1, path, done) {
            lemma_visit(g, ds[k - 1], path, d);
            if let Ok(after) = visit(g, ds[k - 1], path, d) {
                assert(after.take(done.len() as int) =~= after.take(d.len() as int).take(
                    done.len() as int,
                ));
                assert forall|j: int| 0 <= j < k implies after.contains(#[trigger] ds[j]) by {
                    if j < k - 1 {
                        let i = choose|i: int| 0 <= i < d.len() && d[i] == ds[j];
                        assert(after.take(d.len() as int)[i] == ds[j]);
                        assert(after[i] == ds[j]);
                    }
                }
            }
        }
    }
}

/// Every requested node runs, each node runs once, and each runs behind what it
/// depends on.
pub proof fn law_dependencies_come_first(g: Graph, requested: Seq<Seq<char>>)
    ensures
        expansion(g, requested) matches Ok(order) ==> in_dependency_order(g, order) && forall|j: int|
            0 <= j < requested.len() ==> order.contains(#[trigger] requested[j]),
{
    let e: Seq<Seq<char>> = Seq::empty();
    lemma_visit_all(g, requested, requested.len() as int, e, e);
}

/// Whether one node depends on another directly.
pub open spec fn needs(g: Graph, a: Seq<char>, b: Seq<char>) -> bool {
    depends_on(g, a) matches Some(ds) && ds.contains(b)
}

/// Whether each node of a list depends on the next one.
pub open spec fn is_chain(g: Graph, path: Seq<Seq<char>>) -> bool {
    forall|i: int| 0 <= i < path.len() - 1 ==> #[trigger] needs(g, path[i], path[i + 1])
}

/// Whether a node depends on itself, by way of others or not.
pub open spec fn is_cyclic(g: Graph, key: Seq<char>) -> bool {
    exists|cycle: Seq<Seq<char>>|
        cycle.len() > 0 && cycle[0] == key && #[trigger] is_chain(g, cycle) && needs(
            g,
            cycle.last(),
            key,
        )
}

/// What a fault means.
pub open spec fn is_justified(g: Graph, e: GraphFault) -> bool {
    match e {
        GraphFault::UnknownNode(key) => !keys(g).contains(key),
        GraphFault::CyclicDependency(key) => is_cyclic(g, key),
    }
}

/// What holds of the nodes that wait for each other: they are nodes, each once, and
/// each depends on the next.
pub open spec fn is_path(g: Graph, path: Seq<Seq<char>>) -> bool {
    &&& path.no_duplicates()
    &&& forall|i: int| 0 <= i < path.len() ==> keys(g).contains(#[trigger] path[i])
    &&& is_chain(g, path)
}

/// A failure to visit a node is justified.
proof fn lemma_visit_fault(g: Graph, key: Seq<char>, path: Seq<Seq<char>>, done: Seq<Seq<char>>)
    requires
        is_path(g, path),
        path.len() > 0 ==> needs(g, path.last(), key),
    ensures
        visit(g, key, path, done) matches Err(e) ==> is_justified(g, e),
    decreases g.len() - path.len(), 0int,
{
    lemma_known(g, key);
    if !done.contains(key) && depends_on(g, key) is Some {
        if path.contains(key) {
            let i = choose|i: int| 0 <= i < path.len() && path[i] == key;
            let cycle = path.skip(i);
            assert(is_chain(g, cycle)) by {
                assert forall|j: int| 0 <= j < cycle.len() - 1 implies #[trigger] needs(
                    g,
                    cycle[j],
                    cycle[j + 1],
                ) by {
                    assert(needs(g, path[i + j], path[i + j + 1]));
                }
            }
            assert(cycle[0] == key && cycle.last() == path.last());
            assert(is_cyclic(g, key));
        } else {
            lemma_path_has_room(g, path, key);
            let ds = depends_on(g, key)->0;
            let longer = path.push(key);
            lemma_longer_path(g, path, key);
            assert forall|j: int| 0 <= j < ds.len() implies needs(
                g,
                longer.last(),
                #[trigger] ds[j],
            ) by {
                assert(ds.contains(ds[j]));
            }
            lemma_visit_all_fault(g, ds, ds.len() as int, longer, done);
        }
    }
}

/// A path with one more node.
pub proof fn lemma_longer_path(g: Graph, path: Seq<Seq<char>>, key: Seq<char>)
    requires
        is_path(g, path),
        path.len() > 0 ==> needs(g, path.last(), key),
        keys(g).contains(key),
        !path.contains(key),
    ensures
        is_path(g, path.push(key)),
{
    let longer = path.push(key);
    assert forall|i: int, j: int| 0 <= i < longer.len() && 0 <= j < longer.len() && i != j implies longer[i]
        != longer[j] by {
        if i == path.len() {
            assert(path[j] == longer[j]);
        } else if j == path.len() {
            assert(path[i] == longer[i]);
        }
    }
    assert forall|i: int| 0 <= i < longer.len() implies keys(g).contains(#[trigger] longer[i]) by {
        if i < path.len() {
            assert(longer[i] == path[i]);
        }
    }
    assert forall|i: int| 0 <= i < longer.len() - 1 implies #[trigger] needs(
        g,
        longer[i],
        longer[i + 1],
    ) by {
        if i + 1 < path.len() {
            assert(needs(g, path[i], path[i + 1]));
        }
    }
}

/// A failure to visit several nodes is justified.
proof fn lemma_visit_all_fault(
    g: Graph,
    ds: Seq<Seq<char>>,
    k: int,
    path: Seq<Seq<char>>,
    done: Seq<Seq<char>>,
)
    requires
        k <= ds.len(),
        is_path(g, path),
        path.len() > 0 ==> forall|j: int|
            0 <= j < ds.len() ==> needs(g, path.last(), #[trigger] ds[j]),
    ensures
        visit_all(g, ds, k, path, done) matches Err(e) ==> is_justified(g, e),
    decreases g.len() - path.len(), k,
{
    if k > 0 {
        lemma_visit_all_fault(g, ds, k - 1, path, done);
        if let Ok(d) = visit_all(g, ds, k - 1, path, done) {
            if path.len() > 0 {
                assert(needs(g, path.last(), ds[k - 1]));
            }
            lemma_visit_fault(g, ds[k - 1], path, d);
        }
    }
}

/// The node that a fault is about.
pub open spec fn faulty_key(e: GraphFault) -> Seq<char> {
    match e {
        GraphFault::UnknownNode(key) => key,
        GraphFault::CyclicDependency(key) => key,
    }
}

/// Whether a node is one of those that are requested, or one of these depends on it,
/// by way of others or not.
pub open spec fn is_reached(g: Graph, requested: Seq<Seq<char>>, key: Seq<char>) -> bool {
    exists|chain: Seq<Seq<char>>|
        chain.len() > 0 && requested.contains(chain[0]) && #[trigger] is_chain(g, chain)
            && chain.last() == key
}

/// The node that cannot be visited is reached from those that are requested, as the
/// nodes that wait for it are.
proof fn lemma_visit_reached(
    g: Graph,
    requested: Seq<Seq<char>>,
    key: Seq<char>,
    path: Seq<Seq<char>>,
    done: Seq<Seq<char>>,
)
    requires
        is_chain(g, path.push(key)),
        requested.contains(path.push(key)[0]),
    ensures
        visit(g, key, path, done) matches Err(e) ==> is_reached(g, requested, faulty_key(e)),
    decreases g.len() - path.len(), 0int,
{
    let longer = path.push(key);
    assert(longer.last() == key);
    assert(is_reached(g, requested, key));
    if !done.contains(key) && depends_on(g, key) is Some && !path.contains(key) && path.len()
        < g.len() {
        let ds = depends_on(g, key)->0;
        lemma_visit_all_reached(g, requested, ds, ds.len() as int, longer, done);
    }
}

/// A node that cannot be visited is reached from those that are requested.
proof fn lemma_visit_all_reached(
    g: Graph,
    requested: Seq<Seq<char>>,
    ds: Seq<Seq<char>>,
    k: int,
    path: Seq<Seq<char>>,
    done: Seq<Seq<char>>,
)
    requires
        k <= ds.len(),
        is_chain(g, path),
        path.len() > 0 ==> requested.contains(path[0]) && depends_on(g, path.last()) == Some(ds),
        path.len() == 0 ==> ds == requested,
    ensures
        visit_all(g, ds, k, path, done) matches Err(e) ==> is_reached(
            g,
            requested,
            faulty_key(e),
        ),
    decreases g.len() - path.len(), k,
{
    if k > 0 {
        lemma_visit_all_reached(g, requested, ds, k - 1, path, done);
        if let Ok(d) = visit_all(g, ds, k - 1, path, done) {
            let key = ds[k - 1];
            let longer = path.push(key);
            assert forall|i: int| 0 <= i < longer.len() - 1 implies #[trigger] needs(
                g,
                longer[i],
                longer[i + 1],
            ) by {
                if i + 1 < path.len() {
                    assert(needs(g, path[i], path[i + 1]));
                } else {
                    assert(ds.contains(key));
                }
            }
            lemma_visit_reached(g, requested, key, path, d);
        }
    }
}

/// Ordering fails only for a reason: a node that is called unknown is not there,
/// one that is called cyclic depends on itself, and either is requested or one that
/// is requested depends on it.
pub proof fn law_faults_are_justified(g: Graph, requested: Seq<Seq<char>>)
    ensures
        expansion(g, requested) matches Err(e) ==> is_justified(g, e) && is_reached(
            g,
            requested,
            faulty_key(e),
        ),
{
    let e: Seq<Seq<char>> = Seq::empty();
    let n = requested.len() as int;
    lemma_visit_all_fault(g, requested, n, e, e);
    lemma_visit_all_reached(g, requested, requested, n, e, e);
}

/// Whether each node of `order` from `from` on is one of `wanted`, or another of
/// them depends on it.
pub open spec fn wanted_by(g: Graph, order: Seq<Seq<char>>, from: int, wanted: Seq<Seq<char>>) -> bool {
    forall|i: int|
        from <= i < order.len() ==> wanted.contains(#[trigger] order[i]) || exists|j: int|
            i < j < order.len() && needs(g, #[trigger] order[j], order[i])
}

/// Visiting adds nothing that is not needed.
proof fn lemma_visit_wanted(g: Graph, key: Seq<char>, path: Seq<Seq<char>>, done: Seq<Seq<char>>)
    requires
        in_dependency_order(g, done),
        forall|i: int| 0 <= i < path.len() ==> !done.contains(#[trigger] path[i]),
    ensures
        visit(g, key, path, done) matches Ok(d) ==> wanted_by(
            g,
            d,
            done.len() as int,
            seq![key],
        ),
    decreases g.len() - path.len(), 0int,
{
    lemma_visit(g, key, path, done);
    if !done.contains(key) && depends_on(g, key) is Some && !path.contains(key) && path.len()
        < g.len() {
        let ds = depends_on(g, key)->0;
        let longer = path.push(key);
        assert forall|i: int| 0 <= i < longer.len() implies !done.contains(#[trigger] longer[i]) by {
            if i < path.len() {
                assert(longer[i] == path[i]);
            }
        }
        lemma_visit_all_wanted(g, ds, ds.len() as int, longer, done);
        if let Ok(d) = visit_all(g, ds, ds.len() as int, longer, done) {
            let after = d.push(key);
            assert forall|i: int| done.len() <= i < after.len() implies seq![key].contains(
                #[trigger] after[i],
            ) || exists|j: int| i < j < after.len() && needs(g, #[trigger] after[j], after[i]) by {
                if i == d.len() {
                    assert(seq![key][0] == after[i]);
                } else {
                    assert(d[i] == after[i]);
                    if ds.take(ds.len() as int).contains(d[i]) {
                        assert(ds.take(ds.len() as int) =~= ds);
                        assert(needs(g, after[d.len() as int], after[i]));
                    } else {
                        let j = choose|j: int| i < j < d.len() && needs(g, #[trigger] d[j], d[i]);
                        assert(after[j] == d[j]);
                        assert(needs(g, after[j], after[i]));
                    }
                }
            }
        }
    }
}

/// Visiting several nodes adds nothing that is not needed.
proof fn lemma_visit_all_wanted(
    g: Graph,
    ds: Seq<Seq<char>>,
    k: int,
    path: Seq<Seq<char>>,
    done: Seq<Seq<char>>,
)
    requires
        0 <= k <= ds.len(),
        in_dependency_order(g, done),
        forall|i: int| 0 <= i < path.len() ==> !done.contains(#[trigger] path[i]),
    ensures
        visit_all(g, ds, k, path, done) matches Ok(d) ==> wanted_by(
            g,
            d,
            done.len() as int,
            ds.take(k),
        ),
    decreases g.len() - path.len(), k,
{
    if k > 0 {
        lemma_visit_all(g, ds, k - 1, path, done);
        lemma_visit_all_wanted(g, ds, k - 1, path, done);
        if let Ok(d) = visit_all(g, ds, k - 1, path, done) {
            lemma_visit(g, ds[k - 1], path, d);
            lemma_visit_wanted(g, ds[k - 1], path, d);
            if let Ok(after) = visit(g, ds[k - 1], path, d) {
                assert forall|i: int| done.len() <= i < after.len() implies ds.take(k).contains(
                    #[trigger] after[i],
                ) || exists|j: int|
                    i < j < after.len() && needs(g, #[trigger] after[j], after[i]) by {
                    if i < d.len() {
                        assert(after.take(d.len() as int)[i] == after[i]);
                        assert(d[i] == after[i]);
                        if ds.take(k - 1).contains(d[i]) {
                            let few = ds.take(k - 1);
                            let m = choose|m: int| 0 <= m < few.len() && few[m] == d[i];
                            assert(ds.take(k)[m] == after[i]);
                        } else {
                            let j = choose|j: int|
                                i < j < d.len() && needs(g, #[trigger] d[j], d[i]);
                            assert(after.take(d.len() as int)[j] == after[j]);
                            assert(needs(g, after[j], after[i]));
                        }
                    } else if seq![ds[k - 1]].contains(after[i]) {
                        assert(ds.take(k)[k - 1] == after[i]);
                    }
                }
            }
        }
    }
}

/// Nothing runs that is not needed: each node is requested, or one behind it
/// depends on it.
pub proof fn law_nothing_else_runs(g: Graph, requested: Seq<Seq<char>>)
    ensures
        expansion(g, requested) matches Ok(order) ==> wanted_by(g, order, 0, requested),
{
    let e: Seq<Seq<char>> = Seq::empty();
    lemma_visit_all_wanted(g, requested, requested.len() as int, e, e);
    assert(requested.take(requested.len() as int) =~= requested);
}

} // verus!
