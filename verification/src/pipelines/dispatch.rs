//! Node graph output dispatch.

use vstd::prelude::*;

use crate::plugin::graph::{expansion, law_dependencies_come_first, Graph,
    GraphFault};
use crate::plugin::node::{key_of_output, output_key, PluginGraphError, PluginRegistry};
use crate::process::{is_listed, lemma_listed, ProcessOutput};
use crate::text::views;

verus! {

/// The keys of outputs, each once, in the order in which they come first.
pub open spec fn distinct_keys(outputs: Seq<ProcessOutput>) -> Seq<Seq<char>>
    decreases outputs.len(),
{
    if outputs.len() == 0 {
        Seq::empty()
    } else {
        let before = distinct_keys(outputs.drop_last());
        if before.contains(output_key(outputs.last())) {
            before
        } else {
            before.push(output_key(outputs.last()))
        }
    }
}

/// The keys of outputs, each once, in the order in which they come first.
pub fn requested_keys(outputs: &[ProcessOutput]) -> (r: Vec<String>)
    ensures
        views(r@) == distinct_keys(outputs@),
{
    let mut out: Vec<String> = Vec::new();
    let mut i: usize = 0;
    assert(outputs@.take(0) =~= Seq::empty());
    assert(views(out@) =~= Seq::empty());
    while i < outputs.len()
        invariant
            i <= outputs@.len(),
            views(out@) == distinct_keys(outputs@.take(i as int)),
        decreases outputs@.len() - i,
    {
        assert(outputs@.take(i + 1).drop_last() =~= outputs@.take(i as int));
        let key = key_of_output(&outputs[i]);
        proof {
            lemma_listed(out@, key@);
        }
        if !is_listed(&out, key.as_str()) {
            let ghost before = out@;
            out.push(key);
            assert(views(out@) =~= views(before).push(key@));
        }
        i += 1;
    }
    assert(outputs@.take(i as int) =~= outputs@);
    out
}

/// The positions of the outputs with a key, in order.
pub open spec fn with_key(outputs: Seq<ProcessOutput>, key: Seq<char>) -> Seq<usize>
    decreases outputs.len(),
{
    if outputs.len() == 0 {
        Seq::empty()
    } else {
        let before = with_key(outputs.drop_last(), key);
        if output_key(outputs.last()) == key {
            before.push((outputs.len() - 1) as usize)
        } else {
            before
        }
    }
}

/// The positions of the outputs, in the order of their keys.
pub open spec fn arranged(outputs: Seq<ProcessOutput>, order: Seq<Seq<char>>) -> Seq<usize>
    decreases order.len(),
{
    if order.len() == 0 {
        Seq::empty()
    } else {
        arranged(outputs, order.drop_last()) + with_key(outputs, order.last())
    }
}

/// Append the positions of the outputs with a key.
fn push_with_key(out: &mut Vec<usize>, outputs: &[ProcessOutput], key: &str)
    ensures
        final(out)@ == old(out)@ + with_key(outputs@, key@),
{
    let ghost start = out@;
    let mut i: usize = 0;
    assert(outputs@.take(0) =~= Seq::empty());
    assert(start + Seq::<usize>::empty() =~= start);
    while i < outputs.len()
        invariant
            i <= outputs@.len(),
            out@ == start + with_key(outputs@.take(i as int), key@),
        decreases outputs@.len() - i,
    {
        assert(outputs@.take(i + 1).drop_last() =~= outputs@.take(i as int));
        let ghost before = with_key(outputs@.take(i as int), key@);
        if crate::json::same_text(key_of_output(&outputs[i]).as_str(), key) {
            out.push(i);
            assert(out@ =~= start + before.push(i));
        }
        i += 1;
    }
    assert(outputs@.take(i as int) =~= outputs@);
}

/// The positions of the outputs in the order in which they run: a node behind what
/// it depends on. `requested` are the keys of the outputs, each once, in any order.
pub fn run_process_outputs(
    registry: &PluginRegistry,
    outputs: &[ProcessOutput],
    requested: &[String],
) -> (r: Result<Vec<usize>, PluginGraphError>)
    requires
        registry.wf(),
    ensures
        match r {
            Ok(positions) => expansion(registry.graph(), views(requested@)) is Ok && positions@
                == arranged(outputs@, expansion(registry.graph(), views(requested@))->Ok_0),
            Err(e) => expansion(registry.graph(), views(requested@)) == Err::<
                Seq<Seq<char>>,
                GraphFault,
            >(e@),
        },
{
    let order = match registry.expand_requested_nodes(requested) {
        Ok(order) => order,
        Err(e) => {
            return Err(e);
        },
    };
    let ghost ov = views(order@);
    let mut out: Vec<usize> = Vec::new();
    let mut k: usize = 0;
    assert(ov.take(0) =~= Seq::empty());
    while k < order.len()
        invariant
            k <= order@.len(),
            ov == views(order@),
            out@ == arranged(outputs@, ov.take(k as int)),
        decreases order@.len() - k,
    {
        assert(ov.take(k + 1).drop_last() =~= ov.take(k as int));
        assert(ov.take(k + 1).last() == order@[k as int]@);
        push_with_key(&mut out, outputs, order[k].as_str());
        k += 1;
    }
    assert(ov.take(k as int) =~= ov);
    Ok(out)
}

/// The positions with a key are those of the outputs with that key.
proof fn lemma_with_key(outputs: Seq<ProcessOutput>, key: Seq<char>, i: usize)
    requires
        outputs.len() <= usize::MAX,
    ensures
        with_key(outputs, key).contains(i) <==> i < outputs.len() && output_key(outputs[i as int])
            == key,
    decreases outputs.len(),
{
    if outputs.len() > 0 {
        let rest = outputs.drop_last();
        lemma_with_key(rest, key, i);
        let before = with_key(rest, key);
        let all = with_key(outputs, key);
        let last = (outputs.len() - 1) as usize;
        if output_key(outputs.last()) == key {
            assert(all[before.len() as int] == last);
            if before.contains(i) {
                let k = choose|k: int| 0 <= k < before.len() && before[k] == i;
                assert(all[k] == i);
            }
            if all.contains(i) && i != last {
                let k = choose|k: int| 0 <= k < all.len() && all[k] == i;
                assert(before[k] == i);
            }
        }
        if i < rest.len() {
            assert(rest[i as int] == outputs[i as int]);
        }
    }
}

/// What is arranged are the outputs whose keys are in the order.
proof fn lemma_arranged(outputs: Seq<ProcessOutput>, order: Seq<Seq<char>>, i: usize)
    requires
        outputs.len() <= usize::MAX,
    ensures
        arranged(outputs, order).contains(i) <==> i < outputs.len() && order.contains(
            output_key(outputs[i as int]),
        ),
    decreases order.len(),
{
    if order.len() > 0 {
        let few = order.drop_last();
        lemma_arranged(outputs, few, i);
        lemma_with_key(outputs, order.last(), i);
        let a = arranged(outputs, few);
        let b = with_key(outputs, order.last());
        let all = a + b;
        if a.contains(i) {
            let k = choose|k: int| 0 <= k < a.len() && a[k] == i;
            assert(all[k] == i);
        }
        if b.contains(i) {
            let k = choose|k: int| 0 <= k < b.len() && b[k] == i;
            assert(all[a.len() + k] == i);
        }
        if all.contains(i) {
            let k = choose|k: int| 0 <= k < all.len() && all[k] == i;
            if k < a.len() {
                assert(a[k] == i);
            } else {
                assert(b[k - a.len()] == i);
            }
        }
        if i < outputs.len() {
            let key = output_key(outputs[i as int]);
            if few.contains(key) {
                let k = choose|k: int| 0 <= k < few.len() && few[k] == key;
                assert(order[k] == key);
            }
            if order.contains(key) && key != order.last() {
                let k = choose|k: int| 0 <= k < order.len() && order[k] == key;
                assert(few[k] == key);
            }
            assert(order[order.len() - 1] == order.last());
        }
    }
}

/// Every output whose key was requested runs.
pub proof fn law_every_output_runs(
    g: Graph,
    outputs: Seq<ProcessOutput>,
    requested: Seq<Seq<char>>,
    i: usize,
)
    requires
        outputs.len() <= usize::MAX,
        i < outputs.len(),
        requested.contains(output_key(outputs[i as int])),
        expansion(g, requested) is Ok,
    ensures
        arranged(outputs, expansion(g, requested)->Ok_0).contains(i),
{
    law_dependencies_come_first(g, requested);
    let order = expansion(g, requested)->Ok_0;
    let key = output_key(outputs[i as int]);
    let k = choose|k: int| 0 <= k < requested.len() && requested[k] == key;
    assert(order.contains(requested[k]));
    lemma_arranged(outputs, order, i);
}

/// The key of every output is among the distinct keys.
pub proof fn law_every_key_is_requested(outputs: Seq<ProcessOutput>, i: int)
    requires
        0 <= i < outputs.len(),
    ensures
        distinct_keys(outputs).contains(output_key(outputs[i])),
        distinct_keys(outputs).no_duplicates(),
    decreases outputs.len(),
{
    let rest = outputs.drop_last();
    let before = distinct_keys(rest);
    let all = distinct_keys(outputs);
    if rest.len() > 0 {
        law_every_key_is_requested(rest, if i < rest.len() {
            i
        } else {
            0
        });
    }
    let key = output_key(outputs[i]);
    if i < rest.len() {
        assert(rest[i] == outputs[i]);
        let k = choose|k: int| 0 <= k < before.len() && before[k] == key;
        assert(all[k] == key);
    } else if !before.contains(key) {
        assert(all[before.len() as int] == key);
    }
}

/// Outputs run in the order of their keys, and those of one key in the order in which
/// they were listed; an output whose key is not in the order does not run.
pub proof fn law_outputs_run_in_order(
    outputs: Seq<ProcessOutput>,
    order: Seq<Seq<char>>,
    key: Seq<char>,
    i: usize,
    a: int,
    b: int,
)
    requires
        outputs.len() <= usize::MAX,
    ensures
        arranged(outputs, order.push(key)) == arranged(outputs, order) + with_key(outputs, key),
        with_key(outputs, key).contains(i) <==> i < outputs.len() && output_key(outputs[i as int])
            == key,
        0 <= a < b < with_key(outputs, key).len() ==> with_key(outputs, key)[a] < with_key(
            outputs,
            key,
        )[b],
        arranged(outputs, order).contains(i) <==> i < outputs.len() && order.contains(
            output_key(outputs[i as int]),
        ),
{
    assert(order.push(key).drop_last() =~= order);
    lemma_with_key(outputs, key, i);
    lemma_arranged(outputs, order, i);
    lemma_positions_ascend(outputs, key);
}

/// The positions with a key ascend.
proof fn lemma_positions_ascend(outputs: Seq<ProcessOutput>, key: Seq<char>)
    requires
        outputs.len() <= usize::MAX,
    ensures
        forall|a: int| 0 <= a < with_key(outputs, key).len() ==> (#[trigger] with_key(outputs, key)[a])
            < outputs.len(),
        forall|a: int, b: int|
            0 <= a < b < with_key(outputs, key).len() ==> (#[trigger] with_key(outputs, key)[a]) < (
            #[trigger] with_key(outputs, key)[b]),
    decreases outputs.len(),
{
    if outputs.len() > 0 {
        let rest = outputs.drop_last();
        lemma_positions_ascend(rest, key);
        let before = with_key(rest, key);
        let all = with_key(outputs, key);
        assert forall|a: int| 0 <= a < all.len() implies (#[trigger] all[a]) < outputs.len() by {
            if a < before.len() {
                assert(all[a] == before[a]);
            }
        }
        assert forall|a: int, b: int| 0 <= a < b < all.len() implies (#[trigger] all[a]) < (
        #[trigger] all[b]) by {
            assert(all[a] == before[a]);
            if b < before.len() {
                assert(all[b] == before[b]);
            }
        }
    }
}

} // verus!
