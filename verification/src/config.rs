//! Telling the endpoint client about the configured chains.

use crate::balances::opt_json;
use crate::json::{json_text, Json, JsonView};
use vstd::prelude::*;

verus! {

/// Configured chains, each with what the endpoint client has to know of it.
pub open spec fn config_views(s: Seq<(u64, Option<Json>)>) -> Seq<(u64, Option<JsonView>)> {
    s.map_values(|c: (u64, Option<Json>)| (c.0, opt_json(c.1)))
}

/// Pushes: a chain, and the config that it is given.
pub open spec fn push_views(s: Seq<(i64, String)>) -> Seq<(i64, Seq<char>)> {
    s.map_values(|p: (i64, String)| (p.0, p.1@))
}

/// What is pushed: the config of every chain that has one, in their order.
pub open spec fn pushes_of(chains: Seq<(u64, Option<JsonView>)>) -> Seq<(i64, Seq<char>)>
    decreases chains.len(),
{
    if chains.len() == 0 {
        Seq::empty()
    } else {
        let rest = pushes_of(chains.drop_last());
        match chains.last().1 {
            Some(config) => rest.push((chains.last().0 as i64, json_text(config))),
            None => rest,
        }
    }
}

/// What is pushed to the endpoint client, in this order.
pub fn config_pushes(chains: &Vec<(u64, Option<Json>)>) -> (r: Vec<(i64, String)>)
    ensures
        push_views(r@) == pushes_of(config_views(chains@)),
{
    let n: usize = chains.len();
    let ghost views = config_views(chains@);
    let mut r: Vec<(i64, String)> = Vec::new();
    assert(push_views(r@) =~= Seq::<(i64, Seq<char>)>::empty());
    let mut i: usize = 0;
    while i < n
        invariant
            i <= n,
            n == chains@.len(),
            views == config_views(chains@),
            push_views(r@) == pushes_of(views.take(i as int)),
        decreases n - i,
    {
        let ghost before = r@;
        proof {
            assert(views.take(i + 1).drop_last() =~= views.take(i as int));
            assert(views.take(i + 1).last() == views[i as int]);
        }
        if let Some(config) = &chains[i].1 {
            let id: i64 = #[verifier::truncate] (chains[i].0 as i64);
            let text: String = config.render();
            r.push((id, text));
            assert(push_views(r@) =~= push_views(before).push((id, text@)));
        }
        i += 1;
    }
    assert(views.take(n as int) =~= views);
    r
}

/// Take the next push from the queue: its first, and nothing once it is empty.
pub fn next_push(queue: &mut Vec<(i64, String)>) -> (r: Option<(i64, String)>)
    ensures
        match r {
            Some(push) => old(queue)@.len() > 0 && push == old(queue)@[0] && final(queue)@
                == old(queue)@.skip(1),
            None => old(queue)@.len() == 0 && final(queue)@ == old(queue)@,
        },
{
    if queue.len() == 0 {
        None
    } else {
        let ghost before = queue@;
        let push: (i64, String) = queue.remove(0);
        assert(queue@ =~= before.skip(1));
        Some(push)
    }
}

/// The pushes that come of a queue when the next one is taken `n` times.
pub open spec fn drained(queue: Seq<(i64, Seq<char>)>, n: nat) -> Seq<(i64, Seq<char>)>
    decreases n,
{
    if n == 0 || queue.len() == 0 {
        Seq::empty()
    } else {
        seq![queue[0]] + drained(queue.skip(1), (n - 1) as nat)
    }
}

/// Taken one at a time, every push comes once and in its place, and none
/// besides.
pub proof fn law_every_config_is_pushed_once_in_order(queue: Seq<(i64, Seq<char>)>, n: nat)
    ensures
        drained(queue, n) == queue.take(if n < queue.len() { n as int } else { queue.len() as int }),
    decreases n,
{
    if n > 0 && queue.len() > 0 {
        law_every_config_is_pushed_once_in_order(queue.skip(1), (n - 1) as nat);
        assert(drained(queue, n) =~= queue.take(
            if n < queue.len() { n as int } else { queue.len() as int },
        ));
    } else {
        assert(drained(queue, n) =~= queue.take(0));
    }
}

/// A chain has its config pushed exactly where it has one.
pub proof fn law_exactly_configured_chains_are_pushed(
    chains: Seq<(u64, Option<JsonView>)>,
    push: (i64, Seq<char>),
)
    ensures
        pushes_of(chains).contains(push) <==> (exists|i: int|
            0 <= i < chains.len() && (#[trigger] chains[i]).1 is Some && push == (
                chains[i].0 as i64,
                json_text(chains[i].1->0),
            )),
    decreases chains.len(),
{
    let all = pushes_of(chains);
    if chains.len() > 0 {
        let before = chains.drop_last();
        let rest = pushes_of(before);
        law_exactly_configured_chains_are_pushed(before, push);
        if all.contains(push) {
            let k = choose|k: int| 0 <= k < all.len() && all[k] == push;
            if k < rest.len() {
                assert(rest[k] == push);
                let i = choose|i: int|
                    0 <= i < before.len() && (#[trigger] before[i]).1 is Some && push == (
                        before[i].0 as i64,
                        json_text(before[i].1->0),
                    );
                assert(chains[i] == before[i]);
            } else {
                assert(chains[chains.len() - 1] == chains.last());
            }
        }
        if exists|i: int|
            0 <= i < chains.len() && (#[trigger] chains[i]).1 is Some && push == (
                chains[i].0 as i64,
                json_text(chains[i].1->0),
            ) {
            let i = choose|i: int|
                0 <= i < chains.len() && (#[trigger] chains[i]).1 is Some && push == (
                    chains[i].0 as i64,
                    json_text(chains[i].1->0),
                );
            if i < before.len() {
                assert(before[i] == chains[i]);
                assert(rest.contains(push));
                let k = choose|k: int| 0 <= k < rest.len() && rest[k] == push;
                assert(all[k] == push);
            } else {
                assert(all[all.len() - 1] == push);
            }
        }
    }
}

} // verus!
