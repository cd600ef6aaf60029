//! Balances of one account over many chains: what is asked of each chain, and
//! how what comes back is put together.

use crate::address::{
    address_of, data_hex, data_text, hex_bytes, hex_decode, is_hex, parse_addr, Address,
};
use crate::amount::{amount_of, parse_u256_str, U256};
use crate::jobs::texts;
use crate::json::{json_text, json_views, parse_json, Json, JsonView, Num, NumView};
use crate::text::{decimal_text, trim_0x, without_0x};
use vstd::prelude::*;

verus! {

/// Results of tasks that may finish in any order, each in its task's place.
pub struct Gather<T> {
    slots: Vec<Option<T>>,
    left: usize,
}

/// How many places are still empty.
pub open spec fn empty_slots<T>(slots: Seq<Option<T>>) -> nat
    decreases slots.len(),
{
    if slots.len() == 0 {
        0
    } else {
        empty_slots(slots.drop_last()) + if slots.last() is None { 1nat } else { 0nat }
    }
}

proof fn lemma_empty_slots_update<T>(slots: Seq<Option<T>>, i: int, v: T)
    requires
        0 <= i < slots.len(),
        slots[i] is None,
    ensures
        empty_slots(slots.update(i, Some(v))) == empty_slots(slots) - 1,
        empty_slots(slots) >= 1,
    decreases slots.len(),
{
    let t = slots.update(i, Some(v));
    if i == slots.len() - 1 {
        assert(t.drop_last() =~= slots.drop_last());
    } else {
        assert(t.drop_last() =~= slots.drop_last().update(i, Some(v)));
        lemma_empty_slots_update(slots.drop_last(), i, v);
    }
}

proof fn lemma_empty_slots_zero<T>(slots: Seq<Option<T>>)
    ensures
        empty_slots(slots) == 0 <==> forall|i: int| 0 <= i < slots.len() ==> #[trigger] slots[i] is Some,
    decreases slots.len(),
{
    if slots.len() > 0 {
        lemma_empty_slots_zero(slots.drop_last());
        assert(slots.last() == slots[slots.len() - 1]);
        assert forall|i: int| 0 <= i < slots.len() - 1 implies #[trigger] slots[i] == slots.drop_last()[i] by {}
        if empty_slots(slots) == 0 {
            assert forall|i: int| 0 <= i < slots.len() implies #[trigger] slots[i] is Some by {
                if i < slots.len() - 1 {
                    assert(slots.drop_last()[i] is Some);
                }
            }
        }
        if forall|i: int| 0 <= i < slots.len() ==> #[trigger] slots[i] is Some {
            assert forall|i: int| 0 <= i < slots.drop_last().len() implies #[trigger] slots.drop_last()[i] is Some by {
                assert(slots[i] is Some);
            }
        }
    }
}

proof fn lemma_empty_slots_fresh<T>(slots: Seq<Option<T>>)
    requires
        forall|i: int| 0 <= i < slots.len() ==> #[trigger] slots[i] is None,
    ensures
        empty_slots(slots) == slots.len(),
    decreases slots.len(),
{
    if slots.len() > 0 {
        assert forall|i: int| 0 <= i < slots.drop_last().len() implies #[trigger] slots.drop_last()[i] is None by {
            assert(slots[i] is None);
        }
        lemma_empty_slots_fresh(slots.drop_last());
        assert(slots[slots.len() - 1] is None);
    }
}

/// Every place is filled.
pub open spec fn all_filled<T>(slots: Seq<Option<T>>) -> bool {
    forall|i: int| 0 <= i < slots.len() ==> #[trigger] slots[i] is Some
}

impl<T> View for Gather<T> {
    type V = Seq<Option<T>>;

    closed spec fn view(&self) -> Seq<Option<T>> {
        self.slots@
    }
}

impl<T> Gather<T> {
    /// The count of empty places is right.
    pub closed spec fn wf(self) -> bool {
        self.left == empty_slots(self.slots@)
    }

    /// A place for each of `n` tasks. With no task there is nothing to wait
    /// for: see [`Gather::take_if_empty`].
    pub fn new(n: usize) -> (r: Gather<T>)
        ensures
            r.wf(),
            r@.len() == n,
            forall|i: int| 0 <= i < n ==> #[trigger] r@[i] is None,
    {
        let mut slots: Vec<Option<T>> = Vec::new();
        let mut i: usize = 0;
        while i < n
            invariant
                i <= n,
                slots@.len() == i,
                forall|j: int| 0 <= j < i ==> #[trigger] slots@[j] is None,
            decreases n - i,
        {
            slots.push(None);
            i += 1;
        }
        proof {
            lemma_empty_slots_fresh(slots@);
        }
        Gather { slots, left: n }
    }

    /// The results of no task at all.
    pub fn take_if_empty(&self) -> (r: Option<Vec<T>>)
        ensures
            r is Some <==> self@.len() == 0,
            r is Some ==> r->0@ == Seq::<T>::empty(),
    {
        if self.slots.len() == 0 {
            Some(Vec::new())
        } else {
            None
        }
    }

    /// Whether the result of task `i` is still to come.
    pub fn expects(&self, i: usize) -> (r: bool)
        ensures
            r == (i < self@.len() && self@[i as int] is None),
    {
        i < self.slots.len() && self.slots[i].is_none()
    }

    /// Put the result of task `i` in its place. Once the last one is in, all
    /// are handed over, in the order of the tasks.
    pub fn fill(&mut self, i: usize, result: T) -> (r: Option<Vec<T>>)
        requires
            old(self).wf(),
            i < old(self)@.len(),
            old(self)@[i as int] is None,
        ensures
            ({
                let slots = old(self)@.update(i as int, Some(result));
                if all_filled(slots) {
                    &&& r is Some
                    &&& r->0@.len() == slots.len()
                    &&& forall|k: int|
                        0 <= k < slots.len() ==> slots[k] == Some(#[trigger] r->0@[k])
                    &&& final(self)@.len() == 0
                } else {
                    r is None && final(self)@ == slots
                }
            }),
            final(self).wf(),
    {
        let ghost before = self.slots@;
        proof {
            lemma_empty_slots_update(before, i as int, result);
        }
        self.slots.set(i, Some(result));
        self.left = self.left - 1;
        let ghost slots = self.slots@;
        proof {
            lemma_empty_slots_zero(slots);
        }
        if self.left != 0 {
            return None;
        }
        let mut taken: Vec<Option<T>> = Vec::new();
        std::mem::swap(&mut taken, &mut self.slots);
        let mut all: Vec<T> = Vec::new();
        while taken.len() > 0
            invariant
                all_filled(slots),
                taken@.len() + all@.len() == slots.len(),
                forall|k: int| 0 <= k < taken@.len() ==> #[trigger] taken@[k] == slots[k],
                forall|k: int|
                    0 <= k < all@.len() ==> Some(#[trigger] all@[k]) == slots[slots.len() - 1 - k],
            decreases taken@.len(),
        {
            let ghost n = taken@.len();
            let ghost kept = all@;
            let last: T = taken.pop().unwrap().unwrap();
            all.push(last);
            assert forall|k: int| 0 <= k < all@.len() implies Some(#[trigger] all@[k]) == slots[slots.len() - 1
                - k] by {
                if k < kept.len() {
                    assert(all@[k] == kept[k]);
                }
            }
        }
        let ghost flipped = all@;
        let mut ordered: Vec<T> = Vec::new();
        while all.len() > 0
            invariant
                flipped.len() == slots.len(),
                forall|k: int|
                    0 <= k < flipped.len() ==> Some(#[trigger] flipped[k]) == slots[slots.len() - 1 - k],
                all@.len() + ordered@.len() == flipped.len(),
                forall|k: int| 0 <= k < all@.len() ==> #[trigger] all@[k] == flipped[k],
                forall|k: int|
                    0 <= k < ordered@.len() ==> slots[k] == Some(#[trigger] ordered@[k]),
            decreases all@.len(),
        {
            let ghost n = all@.len();
            let ghost kept = ordered@;
            assert(all@[n - 1] == flipped[n - 1]);
            let last: T = all.pop().unwrap();
            ordered.push(last);
            assert forall|k: int| 0 <= k < ordered@.len() implies slots[k] == Some(#[trigger] ordered@[k]) by {
                if k < kept.len() {
                    assert(ordered@[k] == kept[k]);
                } else {
                    assert(Some(flipped[n - 1]) == slots[slots.len() - 1 - (n - 1)]);
                }
            }
        }
        Some(ordered)
    }
}

/// The places after results arrived, in this order.
pub open spec fn arrivals<T>(slots: Seq<Option<T>>, fills: Seq<(int, T)>) -> Seq<Option<T>>
    decreases fills.len(),
{
    if fills.len() == 0 {
        slots
    } else {
        arrivals(slots, fills.drop_last()).update(fills.last().0, Some(fills.last().1))
    }
}

/// Each result is for a task of its own.
pub open spec fn one_each<T>(fills: Seq<(int, T)>, n: nat) -> bool {
    &&& forall|i: int| 0 <= i < fills.len() ==> 0 <= (#[trigger] fills[i]).0 < n
    &&& forall|i: int, j: int|
        0 <= i < j < fills.len() ==> (#[trigger] fills[i]).0 != (#[trigger] fills[j]).0
}

proof fn lemma_arrived<T>(slots: Seq<Option<T>>, fills: Seq<(int, T)>)
    requires
        one_each(fills, slots.len()),
    ensures
        arrivals(slots, fills).len() == slots.len(),
        forall|i: int|
            0 <= i < fills.len() ==> arrivals(slots, fills)[(#[trigger] fills[i]).0] == Some(
                fills[i].1,
            ),
        forall|k: int|
            0 <= k < slots.len() && (forall|i: int| 0 <= i < fills.len() ==> (#[trigger] fills[i]).0 != k)
                ==> #[trigger] arrivals(slots, fills)[k] == slots[k],
    decreases fills.len(),
{
    if fills.len() > 0 {
        let before = fills.drop_last();
        assert forall|i: int| 0 <= i < before.len() implies #[trigger] before[i] == fills[i] by {}
        assert(one_each(before, slots.len()));
        lemma_arrived(slots, before);
        let last = fills[fills.len() - 1];
        let a = arrivals(slots, fills);
        assert forall|i: int| 0 <= i < fills.len() implies a[(#[trigger] fills[i]).0] == Some(fills[i].1) by {
            if i < before.len() {
                assert(before[i] == fills[i]);
                assert(fills[i].0 != last.0);
            }
        }
        assert forall|k: int|
            0 <= k < slots.len() && (forall|i: int| 0 <= i < fills.len() ==> (#[trigger] fills[i]).0 != k)
            implies #[trigger] a[k] == slots[k] by {
            assert forall|i: int| 0 <= i < before.len() implies (#[trigger] before[i]).0 != k by {
                assert(before[i] == fills[i]);
            }
            assert(last.0 != k);
        }
    }
}

/// What was gathered does not depend on the order in which results arrived:
/// the same results, each for its own task, fill the same places.
pub proof fn law_gather_ignores_arrival_order<T>(
    slots: Seq<Option<T>>,
    one: Seq<(int, T)>,
    other: Seq<(int, T)>,
)
    requires
        one_each(one, slots.len()),
        one_each(other, slots.len()),
        one.to_set() == other.to_set(),
    ensures
        arrivals(slots, one) == arrivals(slots, other),
{
    lemma_arrived(slots, one);
    lemma_arrived(slots, other);
    assert forall|k: int| 0 <= k < slots.len() implies arrivals(slots, one)[k] == arrivals(slots, other)[k] by {
        if exists|i: int| 0 <= i < one.len() && (#[trigger] one[i]).0 == k {
            let i = choose|i: int| 0 <= i < one.len() && (#[trigger] one[i]).0 == k;
            assert(one.to_set().contains(one[i]));
            assert(other.to_set().contains(one[i]));
            let j = choose|j: int| 0 <= j < other.len() && other[j] == one[i];
            assert(arrivals(slots, other)[other[j].0] == Some(other[j].1));
        } else {
            assert forall|j: int| 0 <= j < other.len() implies (#[trigger] other[j]).0 != k by {
                assert(other.to_set().contains(other[j]));
                assert(one.to_set().contains(other[j]));
                let i = choose|i: int| 0 <= i < one.len() && one[i] == other[j];
                assert(one[i].0 != k);
            }
        }
    }
    assert(arrivals(slots, one) =~= arrivals(slots, other));
}

/// The amounts of a sequence.
pub open spec fn amounts(s: Seq<U256>) -> Seq<nat> {
    s.map_values(|u: U256| u@)
}

/// A token and its balance.
pub open spec fn token_json(address: Seq<char>, balance: nat) -> JsonView {
    JsonView::object().with("address"@, JsonView::Str(address)).with(
        "balance"@,
        JsonView::Str(decimal_text(balance)),
    )
}

/// The balances on one chain.
pub open spec fn chain_json(
    chain_id: u64,
    native: nat,
    tokens: Seq<Seq<char>>,
    balances: Seq<nat>,
) -> JsonView {
    JsonView::object().with("chainId"@, JsonView::Num(NumView::Pos(chain_id))).with(
        "native"@,
        JsonView::Str(decimal_text(native)),
    ).with(
        "tokens"@,
        JsonView::Arr(Seq::new(tokens.len(), |i: int| token_json(tokens[i], balances[i]))),
    )
}

/// The balances on one chain.
pub fn chain_value(chain_id: u64, native: &U256, tokens: &Vec<String>, balances: &Vec<U256>) -> (r: Json)
    requires
        tokens@.len() == balances@.len(),
    ensures
        r@ == chain_json(chain_id, native@, texts(tokens@), amounts(balances@)),
{
    let n: usize = tokens.len();
    let mut items: Vec<Json> = Vec::new();
    let ghost all = Seq::new(
        n as nat,
        |i: int| token_json(texts(tokens@)[i], amounts(balances@)[i]),
    );
    let mut i: usize = 0;
    while i < n
        invariant
            i <= n,
            n == tokens@.len(),
            n == balances@.len(),
            all == Seq::new(n as nat, |i: int| token_json(texts(tokens@)[i], amounts(balances@)[i])),
            json_views(items@) == all.take(i as int),
        decreases n - i,
    {
        let ghost before = items@;
        items.push(
            Json::object().with("address", Json::text(tokens[i].as_str())).with(
                "balance",
                Json::Str(balances[i].to_decimal()),
            ),
        );
        assert(json_views(items@) =~= json_views(before).push(all[i as int]));
        assert(all.take(i + 1) =~= all.take(i as int).push(all[i as int]));
        i += 1;
    }
    assert(all.take(n as int) =~= Seq::new(
        texts(tokens@).len(),
        |i: int| token_json(texts(tokens@)[i], amounts(balances@)[i]),
    ));
    Json::object().with("chainId", Json::Num(Num::Pos(chain_id))).with(
        "native",
        Json::Str(native.to_decimal()),
    ).with("tokens", Json::array(items))
}

/// The amount that call `i` of a batch returned; zero where it failed or is
/// missing.
pub open spec fn batch_amount(rets: Seq<Option<U256>>, i: int) -> nat {
    if 0 <= i < rets.len() {
        read_amount(rets[i])
    } else {
        0
    }
}

fn batch_at(rets: &Vec<Option<U256>>, i: usize) -> (r: U256)
    ensures
        r@ == batch_amount(rets@, i as int),
{
    if i < rets.len() {
        match rets[i] {
            Some(u) => u,
            None => U256::zero(),
        }
    } else {
        U256::zero()
    }
}

/// The balances on one chain, read from a batch whose first call is for the
/// native balance and whose others are for the tokens, in their order. A batch
/// that failed leaves zeros.
pub open spec fn batch_json(
    chain_id: u64,
    tokens: Seq<Seq<char>>,
    rets: Option<Seq<Option<U256>>>,
) -> JsonView {
    match rets {
        None => chain_json(chain_id, 0, tokens, Seq::new(tokens.len(), |i: int| 0nat)),
        Some(rets) => chain_json(
            chain_id,
            batch_amount(rets, 0),
            tokens,
            Seq::new(tokens.len(), |i: int| batch_amount(rets, i + 1)),
        ),
    }
}

/// The balances on one chain, all zero.
pub fn empty_chain(chain_id: u64, tokens: &Vec<String>) -> (r: Json)
    ensures
        r@ == chain_json(chain_id, 0, texts(tokens@), Seq::new(tokens@.len(), |i: int| 0nat)),
{
    let n: usize = tokens.len();
    let mut zeros: Vec<U256> = Vec::new();
    let mut i: usize = 0;
    while i < n
        invariant
            i <= n,
            zeros@.len() == i,
            forall|k: int| 0 <= k < i ==> (#[trigger] zeros@[k])@ == 0,
        decreases n - i,
    {
        zeros.push(U256::zero());
        i += 1;
    }
    assert(amounts(zeros@) =~= Seq::new(tokens@.len(), |i: int| 0nat));
    chain_value(chain_id, &U256::zero(), tokens, &zeros)
}

/// The balances on one chain from what a batch of calls returned; `rets` are
/// the amounts read from it, or nothing where it failed.
pub fn decode_multicall_chain(chain_id: u64, tokens: &Vec<String>, rets: &Option<Vec<Option<U256>>>) -> (r:
    Json)
    ensures
        r@ == batch_json(
            chain_id,
            texts(tokens@),
            match rets {
                Some(v) => Some(v@),
                None => None,
            },
        ),
{
    let rets: &Vec<Option<U256>> = match rets {
        None => {
            let r = empty_chain(chain_id, tokens);
            assert(texts(tokens@).len() == tokens@.len());
            return r;
        },
        Some(v) => v,
    };
    let n: usize = tokens.len();
    let mut balances: Vec<U256> = Vec::new();
    let mut i: usize = 0;
    while i < n
        invariant
            i <= n,
            n == tokens@.len(),
            balances@.len() == i,
            forall|k: int| 0 <= k < i ==> (#[trigger] balances@[k])@ == batch_amount(rets@, k + 1),
        decreases n - i,
    {
        balances.push(batch_at(rets, i + 1));
        i += 1;
    }
    assert(amounts(balances@) =~= Seq::new(
        texts(tokens@).len(),
        |i: int| batch_amount(rets@, i + 1),
    ));
    chain_value(chain_id, &batch_at(rets, 0), tokens, &balances)
}

/// An amount that was read; zero where reading it failed.
pub open spec fn read_amount(u: Option<U256>) -> nat {
    match u {
        Some(u) => u@,
        None => 0,
    }
}

/// The last amount given for place `k`; zero where none was.
pub open spec fn slot_amount(parts: Seq<(usize, Option<U256>)>, k: int) -> nat
    decreases parts.len(),
{
    if parts.len() == 0 {
        0
    } else if parts.last().0 == k {
        read_amount(parts.last().1)
    } else {
        slot_amount(parts.drop_last(), k)
    }
}

fn slot_at(parts: &Vec<(usize, Option<U256>)>, k: usize) -> (r: U256)
    ensures
        r@ == slot_amount(parts@, k as int),
{
    let mut i: usize = parts.len();
    assert(parts@.take(i as int) =~= parts@);
    while i > 0
        invariant
            i <= parts@.len(),
            slot_amount(parts@, k as int) == slot_amount(parts@.take(i as int), k as int),
        decreases i,
    {
        let ghost here = parts@.take(i as int);
        i -= 1;
        proof {
            assert(here.last() == parts@[i as int]);
            assert(here.drop_last() =~= parts@.take(i as int));
        }
        if parts[i].0 == k {
            return match parts[i].1 {
                Some(u) => u,
                None => U256::zero(),
            };
        }
    }
    U256::zero()
}

/// The balances on one chain, read one by one: place zero is the native
/// balance, place `i + 1` that of token `i`.
pub open spec fn individual_json(
    chain_id: u64,
    tokens: Seq<Seq<char>>,
    parts: Seq<(usize, Option<U256>)>,
) -> JsonView {
    chain_json(
        chain_id,
        slot_amount(parts, 0),
        tokens,
        Seq::new(tokens.len(), |i: int| slot_amount(parts, i + 1)),
    )
}

/// The balances on one chain, read one by one.
pub fn individual_chain(chain_id: u64, tokens: &Vec<String>, parts: &Vec<(usize, Option<U256>)>) -> (r: Json)
    ensures
        r@ == individual_json(chain_id, texts(tokens@), parts@),
{
    let n: usize = tokens.len();
    let mut balances: Vec<U256> = Vec::new();
    let mut i: usize = 0;
    while i < n
        invariant
            i <= n,
            n == tokens@.len(),
            balances@.len() == i,
            forall|k: int| 0 <= k < i ==> (#[trigger] balances@[k])@ == slot_amount(parts@, k + 1),
        decreases n - i,
    {
        balances.push(slot_at(parts, i + 1));
        i += 1;
    }
    assert(amounts(balances@) =~= Seq::new(
        texts(tokens@).len(),
        |i: int| slot_amount(parts@, i + 1),
    ));
    chain_value(chain_id, &slot_at(parts, 0), tokens, &balances)
}

/// The `result` text of a reply that does not say `ok: false`.
pub open spec fn result_view(v: Option<JsonView>) -> Option<Seq<char>> {
    match v {
        Some(j) => if j.get_bool("ok"@) == Some(false) {
            None
        } else {
            j.get_str("result"@)
        },
        None => None,
    }
}

fn result_text(v: &Option<Json>) -> (r: Option<&String>)
    ensures
        match r {
            Some(s) => result_view(opt_json(*v)) == Some(s@),
            None => result_view(opt_json(*v)) is None,
        },
{
    match v {
        Some(j) => match j.get_bool("ok") {
            Some(false) => None,
            _ => j.get_str("result"),
        },
        None => None,
    }
}

/// A value or nothing.
pub open spec fn opt_json(v: Option<Json>) -> Option<JsonView> {
    match v {
        Some(j) => Some(j@),
        None => None,
    }
}

/// What a reply text holds; nothing where there is none or it is not JSON.
pub open spec fn replied(reply: Option<Seq<char>>) -> Option<JsonView> {
    match reply {
        Some(s) => match crate::json::json_parse(s) {
            Ok(j) => Some(j),
            Err(_) => None,
        },
        None => None,
    }
}

/// Read a reply text; nothing where there is none or it is not JSON.
pub fn read_reply(reply: &Option<String>) -> (r: Option<Json>)
    ensures
        opt_json(r) == replied(crate::jobs::opt_text(*reply)),
{
    match reply {
        Some(s) => match parse_json(s.as_str()) {
            Ok(j) => Some(j),
            Err(_) => None,
        },
        None => None,
    }
}

/// The bytes that a call returned; nothing where it failed.
pub open spec fn bytes_view(v: Option<JsonView>) -> Option<Seq<u8>> {
    match result_view(v) {
        Some(s) => if is_hex(without_0x(s)) {
            Some(hex_bytes(without_0x(s)))
        } else {
            None
        },
        None => None,
    }
}

/// The bytes that a call returned, from its parsed reply.
pub fn result_bytes(v: &Option<Json>) -> (r: Option<Vec<u8>>)
    ensures
        match r {
            Some(b) => bytes_view(opt_json(*v)) == Some(b@),
            None => bytes_view(opt_json(*v)) is None,
        },
{
    match result_text(v) {
        Some(s) => match hex_decode(trim_0x(s.as_str())) {
            Ok(b) => Some(b),
            Err(_) => None,
        },
        None => None,
    }
}

/// The bytes that a call returned, from its reply.
pub fn call_result_bytes(reply: &Option<String>) -> (r: Option<Vec<u8>>)
    ensures
        match r {
            Some(b) => bytes_view(replied(crate::jobs::opt_text(*reply))) == Some(b@),
            None => bytes_view(replied(crate::jobs::opt_text(*reply))) is None,
        },
{
    result_bytes(&read_reply(reply))
}

/// The native balance in a reply; zero where it failed.
pub open spec fn balance_view(v: Option<JsonView>) -> nat {
    match result_view(v) {
        Some(s) => amount_of(s),
        None => 0,
    }
}

/// The native balance in a parsed reply; zero where it failed.
pub fn balance_in(v: &Option<Json>) -> (r: U256)
    ensures
        r@ == balance_view(opt_json(*v)),
{
    match result_text(v) {
        Some(s) => parse_u256_str(s.as_str()),
        None => U256::zero(),
    }
}

/// The native balance in a reply; zero where it failed.
pub fn decode_balance_reply(reply: &Option<String>) -> (r: U256)
    ensures
        r@ == balance_view(replied(crate::jobs::opt_text(*reply))),
{
    balance_in(&read_reply(reply))
}

/// A read-only contract call.
pub open spec fn call_json(to: Seq<char>, data: Seq<u8>) -> JsonView {
    JsonView::object().with("to"@, JsonView::Str(to)).with("data"@, JsonView::Str(data_text(data)))
}

/// Ask a token for a balance; `data` is the calldata.
pub fn erc20_balance_call_json(token: &str, data: &[u8]) -> (r: String)
    ensures
        r@ == json_text(call_json(token@, data@)),
{
    Json::object().with("to", Json::text(token)).with("data", Json::Str(data_hex(data))).render()
}

/// Every text is an address.
pub open spec fn all_addresses(s: Seq<Seq<char>>) -> bool {
    forall|i: int| 0 <= i < s.len() ==> address_of(#[trigger] s[i]) is Ok
}

/// A batch can be asked for: the batching contract and all tokens are addresses.
pub open spec fn can_batch(multicall: Seq<char>, tokens: Seq<Seq<char>>) -> bool {
    address_of(multicall) is Ok && all_addresses(tokens)
}

/// The calls of a batch: the native balance, then each token's.
pub open spec fn batch_calls(
    multicall: Seq<char>,
    tokens: Seq<Seq<char>>,
    native_data: Seq<u8>,
    token_data: Seq<u8>,
) -> Seq<(Seq<u8>, Seq<u8>)> {
    seq![(address_of(multicall)->Ok_0, native_data)] + Seq::new(
        tokens.len(),
        |i: int| (address_of(tokens[i])->Ok_0, token_data),
    )
}

/// The targets and calldata of a batch, as bytes.
pub open spec fn call_views(s: Seq<(Address, Vec<u8>)>) -> Seq<(Seq<u8>, Seq<u8>)> {
    s.map_values(|c: (Address, Vec<u8>)| (c.0@, c.1@))
}

fn bytes_copy(b: &[u8]) -> (r: Vec<u8>)
    ensures
        r@ == b@,
{
    let mut v: Vec<u8> = Vec::new();
    v.extend_from_slice(b);
    assert(v@ =~= b@);
    v
}

/// The calls of a batch, where one can be asked for: the native balance, then
/// each token's.
pub fn multicall_calls(multicall: &str, tokens: &Vec<String>, native_data: &[u8], token_data: &[u8]) -> (r:
    Option<Vec<(Address, Vec<u8>)>>)
    ensures
        match r {
            Some(calls) => can_batch(multicall@, texts(tokens@)) && call_views(calls@) == batch_calls(
                multicall@,
                texts(tokens@),
                native_data@,
                token_data@,
            ),
            None => !can_batch(multicall@, texts(tokens@)),
        },
        r is Some ==> {
            &&& r->0@.len() == tokens@.len() + 1
            &&& address_of(multicall@) == Ok::<Seq<u8>, Seq<char>>(r->0@[0].0@)
            &&& r->0@[0].1@ == native_data@
            &&& forall|i: int|
                0 <= i < tokens@.len() ==> address_of((#[trigger] tokens@[i])@) == Ok::<
                    Seq<u8>,
                    Seq<char>,
                >(r->0@[i + 1].0@) && r->0@[i + 1].1@ == token_data@
        },
{
    let to: Address = match parse_addr(multicall) {
        Ok(a) => a,
        Err(_) => return None,
    };
    let mut calls: Vec<(Address, Vec<u8>)> = Vec::new();
    calls.push((to, bytes_copy(native_data)));
    let n: usize = tokens.len();
    let ghost all = batch_calls(multicall@, texts(tokens@), native_data@, token_data@);
    let mut i: usize = 0;
    assert(call_views(calls@) =~= all.take(1));
    while i < n
        invariant
            i <= n,
            n == tokens@.len(),
            all == batch_calls(multicall@, texts(tokens@), native_data@, token_data@),
            forall|k: int| 0 <= k < i ==> address_of(#[trigger] texts(tokens@)[k]) is Ok,
            call_views(calls@) == all.take(i + 1),
        decreases n - i,
    {
        let addr: Address = match parse_addr(tokens[i].as_str()) {
            Ok(a) => a,
            Err(_) => {
                assert(address_of(texts(tokens@)[i as int]) is Err);
                return None;
            },
        };
        let ghost before = calls@;
        calls.push((addr, bytes_copy(token_data)));
        proof {
            assert(texts(tokens@)[i as int] == tokens@[i as int]@);
            assert(all[i + 1] == (addr@, token_data@));
            assert(call_views(calls@) =~= call_views(before).push(all[i + 1]));
            assert(all.take(i + 2) =~= all.take(i + 1).push(all[i + 1]));
        }
        i += 1;
    }
    proof {
        assert(all.take(n + 1) =~= all);
        let views = call_views(calls@);
        assert(views[0] == (calls@[0].0@, calls@[0].1@));
        assert forall|k: int| 0 <= k < tokens@.len() implies address_of((#[trigger] tokens@[k])@) == Ok::<
            Seq<u8>,
            Seq<char>,
        >(calls@[k + 1].0@) && calls@[k + 1].1@ == token_data@ by {
            assert(address_of(texts(tokens@)[k]) is Ok);
            assert(views[k + 1] == (calls@[k + 1].0@, calls@[k + 1].1@));
        }
    }
    Some(calls)
}

/// Ask for a batch, where one can be asked for; `data` is the calldata of
/// [`multicall_calls`].
pub fn build_multicall_call_json(multicall: &str, tokens: &Vec<String>, data: &[u8]) -> (r: Option<String>)
    ensures
        match r {
            Some(s) => can_batch(multicall@, texts(tokens@)) && s@ == json_text(
                call_json(multicall@, data@),
            ),
            None => !can_batch(multicall@, texts(tokens@)),
        },
{
    let none: Vec<u8> = Vec::new();
    match multicall_calls(multicall, tokens, none.as_slice(), none.as_slice()) {
        None => None,
        Some(_) => Some(erc20_balance_call_json(multicall, data)),
    }
}

/// How the balances on one chain are asked for.
pub enum ChainFetch {
    /// One call that answers for all.
    Multicall(String),
    /// A call for the native balance, and one of these for each token.
    Individual(Vec<String>),
}

/// What a [`ChainFetch`] asks for.
pub enum FetchView {
    Multicall(Seq<char>),
    Individual(Seq<Seq<char>>),
}

impl View for ChainFetch {
    type V = FetchView;

    open spec fn view(&self) -> FetchView {
        match self {
            ChainFetch::Multicall(s) => FetchView::Multicall(s@),
            ChainFetch::Individual(v) => FetchView::Individual(texts(v@)),
        }
    }
}

/// One call where the chain has a batching contract and every address can be
/// read, single calls otherwise.
pub open spec fn fetch_view(
    multicall: Option<Seq<char>>,
    tokens: Seq<Seq<char>>,
    batch_data: Seq<u8>,
    token_data: Seq<u8>,
) -> FetchView {
    if multicall is Some && can_batch(multicall->0, tokens) {
        FetchView::Multicall(json_text(call_json(multicall->0, batch_data)))
    } else {
        FetchView::Individual(
            Seq::new(tokens.len(), |i: int| json_text(call_json(tokens[i], token_data))),
        )
    }
}

/// Decide how the balances on one chain are asked for. `batch_data` is the
/// calldata of [`multicall_calls`], `token_data` that of a token balance.
pub fn fetch_chain(
    multicall: &Option<String>,
    tokens: &Vec<String>,
    batch_data: &[u8],
    token_data: &[u8],
) -> (r: ChainFetch)
    ensures
        r@ == fetch_view(
            crate::jobs::opt_text(*multicall),
            texts(tokens@),
            batch_data@,
            token_data@,
        ),
{
    if let Some(mc) = multicall {
        if let Some(call) = build_multicall_call_json(mc.as_str(), tokens, batch_data) {
            return ChainFetch::Multicall(call);
        }
    }
    let n: usize = tokens.len();
    let mut calls: Vec<String> = Vec::new();
    let mut i: usize = 0;
    while i < n
        invariant
            i <= n,
            n == tokens@.len(),
            calls@.len() == i,
            forall|k: int|
                0 <= k < i ==> (#[trigger] calls@[k])@ == json_text(
                    call_json(texts(tokens@)[k], token_data@),
                ),
        decreases n - i,
    {
        calls.push(erc20_balance_call_json(tokens[i].as_str(), token_data));
        i += 1;
    }
    assert(texts(calls@) =~= Seq::new(
        texts(tokens@).len(),
        |i: int| json_text(call_json(texts(tokens@)[i], token_data@)),
    ));
    ChainFetch::Individual(calls)
}

/// The balances of an account over all its chains.
pub open spec fn aggregate_json(address: Seq<char>, chains: Seq<JsonView>) -> JsonView {
    JsonView::object().with("address"@, JsonView::Str(address)).with("chains"@, JsonView::Arr(chains))
}

/// The balances of an account over all its chains.
pub fn aggregate(address: &str, chains: Vec<Json>) -> (r: Json)
    ensures
        r@ == aggregate_json(address@, json_views(chains@)),
{
    Json::object().with("address", Json::text(address)).with("chains", Json::array(chains))
}

/// The two ways of asking agree: the amounts that a batch returned, read one by
/// one in their places, make the same balances.
pub proof fn law_both_ways_of_asking_agree(
    chain_id: u64,
    tokens: Seq<Seq<char>>,
    rets: Seq<Option<U256>>,
    parts: Seq<(usize, Option<U256>)>,
)
    requires
        parts.len() == tokens.len() + 1,
        rets.len() == tokens.len() + 1,
        forall|i: int| 0 <= i < parts.len() ==> (#[trigger] parts[i]).0 == i && parts[i].1 == rets[i],
    ensures
        individual_json(chain_id, tokens, parts) == batch_json(chain_id, tokens, Some(rets)),
{
    assert forall|k: int| 0 <= k < parts.len() implies slot_amount(parts, k) == batch_amount(rets, k) by {
        lemma_slot_in_order(parts, k);
    }
    assert(Seq::new(tokens.len(), |i: int| slot_amount(parts, i + 1)) =~= Seq::new(
        tokens.len(),
        |i: int| batch_amount(rets, i + 1),
    ));
}

/// A read that fails counts as zero: a chain whose batch failed shows what a
/// chain shows none of whose single reads came back, and a failed native read
/// is an amount of zero.
pub proof fn law_failed_reads_count_as_zero(chain_id: u64, tokens: Seq<Seq<char>>, reply: JsonView)
    ensures
        batch_json(chain_id, tokens, None) == individual_json(chain_id, tokens, Seq::empty()),
        balance_view(None) == 0,
        reply.get_bool("ok"@) == Some(false) ==> balance_view(Some(reply)) == 0,
        reply.get_bool("ok"@) == Some(false) ==> bytes_view(Some(reply)) is None,
{
    let none = Seq::<(usize, Option<U256>)>::empty();
    assert(slot_amount(none, 0) == 0);
    assert(Seq::new(tokens.len(), |i: int| 0nat) =~= Seq::new(
        tokens.len(),
        |i: int| slot_amount(none, i + 1),
    ));
}

proof fn lemma_slot_in_order(parts: Seq<(usize, Option<U256>)>, k: int)
    requires
        0 <= k < parts.len(),
        forall|i: int| 0 <= i < parts.len() ==> (#[trigger] parts[i]).0 == i,
    ensures
        slot_amount(parts, k) == read_amount(parts[k].1),
    decreases parts.len(),
{
    assert(parts.last() == parts[parts.len() - 1]);
    if k < parts.len() - 1 {
        let t = parts.drop_last();
        assert forall|i: int| 0 <= i < t.len() implies (#[trigger] t[i]).0 == i by {
            assert(t[i] == parts[i]);
        }
        lemma_slot_in_order(t, k);
    }
}

} // verus!
