//! What the module keeps on disk, as text: watched tokens, balances and labels.

use crate::backend::{Backend, StateView};
use crate::balances::{aggregate_json, chain_json, opt_json, read_reply, replied};
use crate::jobs::{opt_text, texts};
use crate::json::{
    is_plain, json_parse, json_pretty, lookup, member_views, same_json, Json, JsonView,
};
use crate::strmap::{keys_distinct, pairs_map, StrMap};
use std::collections::HashMap;
use vstd::prelude::*;

verus! {

broadcast use vstd::std_specs::hash::group_hash_axioms;

/// Watched tokens by chain.
pub open spec fn watched_view(m: Map<u64, Vec<String>>) -> Map<u64, Seq<Seq<char>>> {
    m.map_values(|v: Vec<String>| texts(v@))
}

/// Watched tokens by chain, or nothing.
pub open spec fn opt_watched(m: Option<HashMap<u64, Vec<String>>>) -> Option<
    Map<u64, Seq<Seq<char>>>,
> {
    match m {
        Some(m) => Some(watched_view(m@)),
        None => None,
    }
}

/// What `serde_json` makes of a text that is to hold lists of texts by number;
/// nothing where it does not.
pub uninterp spec fn watched_parse(text: Seq<char>) -> Option<Map<u64, Seq<Seq<char>>>>;

/// Calls `serde_json::from_str` for a map from `u64` to lists of `String`: what
/// comes back is named by [`watched_parse`].
#[verifier::external_body]
fn parse_watched(text: &str) -> (r: Option<HashMap<u64, Vec<String>>>)
    ensures
        opt_watched(r) == watched_parse(text@),
{
    serde_json::from_str(text).ok()
}

/// Calls `serde_json::to_string_pretty` on a map from `u64` to lists of
/// `String`: its text, read again, gives the same map. The order of the entries
/// in the text is left open.
#[verifier::external_body]
fn watched_text(m: &HashMap<u64, Vec<String>>) -> (r: String)
    ensures
        watched_parse(r@) == Some(watched_view(m@)),
{
    serde_json::to_string_pretty(m).unwrap_or_default()
}

/// Watched tokens as they were saved; none where nothing can be read.
pub open spec fn saved_watched(text: Option<Seq<char>>) -> Map<u64, Seq<Seq<char>>> {
    match text {
        Some(t) => match watched_parse(t) {
            Some(m) => m,
            None => Map::empty(),
        },
        None => Map::empty(),
    }
}

/// Read saved watched tokens; nothing was saved where there is no text.
pub fn load_watched(text: &Option<String>) -> (r: HashMap<u64, Vec<String>>)
    ensures
        watched_view(r@) == saved_watched(opt_text(*text)),
{
    if let Some(t) = text {
        if let Some(m) = parse_watched(t.as_str()) {
            return m;
        }
    }
    let none: HashMap<u64, Vec<String>> = HashMap::new();
    assert(watched_view(none@) =~= Map::<u64, Seq<Seq<char>>>::empty());
    none
}

/// The members of an object, by name.
pub open spec fn members_map(members: Seq<(Seq<char>, JsonView)>) -> Map<Seq<char>, JsonView> {
    Map::new(|k: Seq<char>| lookup(members, k) is Some, |k: Seq<char>| lookup(members, k)->0)
}

/// Balances as they were saved; none where they cannot be read.
pub open spec fn saved_balances(v: Option<JsonView>) -> Map<Seq<char>, JsonView> {
    match v {
        Some(JsonView::Obj(members)) => members_map(members),
        _ => Map::empty(),
    }
}

/// Balances by account.
pub open spec fn balances_view(m: Map<Seq<char>, Json>) -> Map<Seq<char>, JsonView> {
    m.map_values(|j: Json| j@)
}

/// Read saved balances from a parsed value.
pub fn balances_in(v: &Option<Json>) -> (r: StrMap<Json>)
    ensures
        balances_view(r@) == saved_balances(opt_json(*v)),
{
    let mut m: StrMap<Json> = StrMap::new();
    assert(balances_view(m@) =~= Map::<Seq<char>, JsonView>::empty());
    let members: &Vec<(String, Json)> = match v {
        Some(Json::Obj(members)) => members,
        _ => return m,
    };
    let ghost views = member_views(members@);
    assert(Json::Obj(*members)@->Obj_0 =~= views);
    let mut i: usize = members.len();
    assert(views.skip(views.len() as int).len() == 0);
    assert(members_map(views.skip(i as int)) =~= Map::<Seq<char>, JsonView>::empty());
    while i > 0
        invariant
            i <= members@.len(),
            views == member_views(members@),
            balances_view(m@) == members_map(views.skip(i as int)),
        decreases i,
    {
        let ghost before = m@;
        let ghost next = views.skip(i - 1);
        i -= 1;
        let member: &(String, Json) = &members[i];
        let key: String = member.0.clone();
        let value: Json = member.1.copied();
        m.insert(key, value);
        proof {
            assert(next[0] == (key@, value@));
            assert(next.skip(1) =~= views.skip(i + 1));
            assert(members_map(next) =~= members_map(views.skip(i + 1)).insert(key@, value@));
            assert(balances_view(m@) =~= balances_view(before).insert(key@, value@));
        }
    }
    assert(views.skip(0) =~= views);
    m
}

/// Read saved balances; nothing was saved where there is no text.
pub fn load_balances(text: &Option<String>) -> (r: StrMap<Json>)
    ensures
        balances_view(r@) == saved_balances(replied(opt_text(*text))),
{
    balances_in(&read_reply(text))
}

/// An object with these members, each once, in any order.
pub open spec fn holds(v: JsonView, m: Map<Seq<char>, JsonView>) -> bool {
    match v {
        JsonView::Obj(members) => {
            &&& forall|i: int, k: int|
                0 <= i < k < members.len() ==> (#[trigger] members[i]).0 != (#[trigger] members[k]).0
            &&& members_map(members) == m
        },
        _ => false,
    }
}

proof fn lemma_lookup_at(members: Seq<(Seq<char>, JsonView)>, i: int)
    requires
        0 <= i < members.len(),
        forall|a: int, b: int|
            0 <= a < b < members.len() ==> (#[trigger] members[a]).0 != (#[trigger] members[b]).0,
    ensures
        lookup(members, members[i].0) == Some(members[i].1),
    decreases members.len(),
{
    if i > 0 {
        let rest = members.skip(1);
        assert(rest[i - 1] == members[i]);
        assert(members[0].0 != members[i].0);
        assert forall|a: int, b: int| 0 <= a < b < rest.len() implies (#[trigger] rest[a]).0 != (
        #[trigger] rest[b]).0 by {
            assert(rest[a] == members[a + 1] && rest[b] == members[b + 1]);
        }
        lemma_lookup_at(rest, i - 1);
    }
}

proof fn lemma_lookup_some(members: Seq<(Seq<char>, JsonView)>, k: Seq<char>) -> (i: int)
    requires
        lookup(members, k) is Some,
    ensures
        0 <= i < members.len(),
        members[i] == (k, lookup(members, k)->0),
    decreases members.len(),
{
    if members[0].0 == k {
        0
    } else {
        let j = lemma_lookup_some(members.skip(1), k);
        assert(members.skip(1)[j] == members[j + 1]);
        j + 1
    }
}

/// Balances as one object.
fn balances_value(m: &StrMap<Json>) -> (r: Json)
    ensures
        holds(r@, balances_view(m@)),
{
    let keys: Vec<String> = m.keys();
    let n: usize = keys.len();
    let ghost names = texts(keys@);
    let mut all: Vec<(String, Json)> = Vec::new();
    let mut i: usize = 0;
    while i < n
        invariant
            i <= n,
            n == keys@.len(),
            names == texts(keys@),
            names.no_duplicates(),
            names.to_set() == m@.dom(),
            all@.len() == i,
            forall|k: int|
                #![trigger all@[k]]
                0 <= k < i ==> all@[k].0@ == names[k] && m@.contains_key(names[k]) && all@[k].1@
                    == m@[names[k]]@,
        decreases n - i,
    {
        let key: &String = &keys[i];
        assert(names[i as int] == key@);
        assert(names.to_set().contains(key@));
        match m.get(key.as_str()) {
            Some(v) => all.push((key.clone(), v.copied())),
            None => {},
        }
        i += 1;
    }
    proof {
        let members = member_views(all@);
        assert(Json::Obj(all)@->Obj_0 =~= members);
        assert forall|a: int, b: int| 0 <= a < b < members.len() implies (#[trigger] members[a]).0
            != (#[trigger] members[b]).0 by {
            assert(all@[a].0@ == names[a] && all@[b].0@ == names[b]);
        }
        let want = balances_view(m@);
        assert forall|k: Seq<char>| #[trigger] members_map(members).contains_key(k)
            == want.contains_key(k) by {
            if want.contains_key(k) {
                assert(names.to_set().contains(k));
                let j = choose|j: int| 0 <= j < names.len() && names[j] == k;
                assert(all@[j].0@ == k);
                assert(members[j].0 == k);
                lemma_lookup_at(members, j);
            }
            if lookup(members, k) is Some {
                let j = lemma_lookup_some(members, k);
                assert(all@[j].0@ == k);
            }
        }
        assert forall|k: Seq<char>| want.contains_key(k) implies #[trigger] members_map(members)[k]
            == want[k] by {
            assert(members_map(members).contains_key(k));
            let j = lemma_lookup_some(members, k);
            assert(all@[j].0@ == k);
            assert(members[j].1 == all@[j].1@);
        }
        assert(members_map(members) =~= want);
    }
    Json::Obj(all)
}

/// Two maps hold the same values by the same names, down to `depth`.
pub open spec fn same_balances(
    a: Map<Seq<char>, JsonView>,
    b: Map<Seq<char>, JsonView>,
    depth: nat,
) -> bool {
    &&& a.dom() == b.dom()
    &&& forall|k: Seq<char>| #[trigger] a.contains_key(k) ==> same_json(a[k], b[k], depth)
}

/// Every value is plain, down to `depth`.
pub open spec fn all_plain(m: Map<Seq<char>, JsonView>, depth: nat) -> bool {
    forall|k: Seq<char>| #[trigger] m.contains_key(k) ==> is_plain(m[k], depth)
}

/// The text that balances are saved as. Loaded again, plain values come back as
/// they were, up to the order of members.
pub fn balances_text(m: &StrMap<Json>) -> (r: String)
    ensures
        exists|v: JsonView| #[trigger] holds(v, balances_view(m@)) && r@ == json_pretty(v),
        all_plain(balances_view(m@), 99) ==> json_parse(r@) is Ok && same_balances(
            balances_view(m@),
            saved_balances(Some(json_parse(r@)->Ok_0)),
            99,
        ),
{
    let value: Json = balances_value(m);
    let text: String = value.render_pretty();
    proof {
        let want = balances_view(m@);
        assert(holds(value@, want));
        if all_plain(want, 99) {
            let members = value@->Obj_0;
            assert forall|i: int| 0 <= i < members.len() implies is_plain((#[trigger] members[i]).1, 99) by {
                lemma_lookup_at(members, i);
                let k = members[i].0;
                assert(members_map(members).contains_key(k));
                assert(want.contains_key(k));
                assert(want[k] == members[i].1);
            }
            assert(is_plain(value@, 100));
            let back = json_parse(text@)->Ok_0;
            assert(same_json(value@, back, 100));
            assert(back is Obj);
            let y = back->Obj_0;
            let loaded = saved_balances(Some(back));
            assert forall|k: Seq<char>| want.contains_key(k) == loaded.contains_key(k) by {
                assert(members_map(members).contains_key(k) == want.contains_key(k));
                assert(lookup(members, k) is Some == lookup(y, k) is Some);
            }
            assert(want.dom() =~= loaded.dom());
            assert forall|k: Seq<char>| #[trigger] want.contains_key(k) implies same_json(
                want[k],
                loaded[k],
                99,
            ) by {
                assert(members_map(members).contains_key(k));
                assert(lookup(members, k) is Some);
            }
        }
    }
    text
}

impl Backend {
    /// The text that the module's watched tokens are saved as; nothing where it
    /// has no state. Loaded again, they come back as they were.
    pub fn watched_text(&self) -> (r: Option<String>)
        ensures
            r is Some == self@ is Some,
            r is Some ==> saved_watched(opt_text(r)) == self@->0.watched,
    {
        match &self.state {
            Some(st) => Some(watched_text(&st.watched)),
            None => None,
        }
    }

    /// The text that the module's balances are saved as; nothing where it has
    /// no state. Loaded again, plain balances come back as they were, up to the
    /// order of members.
    pub fn balances_text(&self) -> (r: Option<String>)
        ensures
            r is Some == self@ is Some,
            r is Some ==> exists|v: JsonView| #[trigger] holds(v, self@->0.balances) && r->0@
                == json_pretty(v),
            r is Some && all_plain(self@->0.balances, 99) ==> json_parse(r->0@) is Ok
                && same_balances(
                self@->0.balances,
                saved_balances(Some(json_parse(r->0@)->Ok_0)),
                99,
            ),
    {
        match &self.state {
            Some(st) => {
                let text: String = balances_text(&st.balances);
                proof {
                    let v = choose|v: JsonView| #[trigger]
                        holds(v, st@.balances) && text@ == json_pretty(v);
                    assert(holds(v, self@->0.balances));
                }
                Some(text)
            },
            None => None,
        }
    }
}

/// Labels by address.
pub open spec fn labels_view(m: Map<Seq<char>, String>) -> Map<Seq<char>, Seq<char>> {
    m.map_values(|s: String| s@)
}

/// What `serde_json` makes of a text that is to hold texts by name; nothing where
/// it does not.
pub uninterp spec fn labels_parse(text: Seq<char>) -> Option<Map<Seq<char>, Seq<char>>>;

/// Calls `serde_json::from_str` for a map from `String` to `String`: what comes
/// back, as pairs in any order and no name twice, is named by [`labels_parse`].
#[verifier::external_body]
fn parse_labels(text: &str) -> (r: Option<Vec<(String, String)>>)
    ensures
        match r {
            Some(pairs) => keys_distinct(pairs@) && labels_parse(text@) == Some(
                labels_view(pairs_map(pairs@)),
            ),
            None => labels_parse(text@) is None,
        },
{
    serde_json::from_str::<HashMap<String, String>>(text).ok().map(|m| m.into_iter().collect())
}

/// Calls `serde_json::to_string_pretty` on a map from `String` to `String`: its
/// text, read again, gives the same map. The order of the entries in the text is
/// left open.
#[verifier::external_body]
fn label_map_text(pairs: &Vec<(String, String)>) -> (r: String)
    requires
        keys_distinct(pairs@),
    ensures
        labels_parse(r@) == Some(labels_view(pairs_map(pairs@))),
{
    let m: HashMap<&String, &String> = pairs.iter().map(|(k, v)| (k, v)).collect();
    serde_json::to_string_pretty(&m).unwrap_or_default()
}

/// Labels by address as they were saved; none where nothing can be read.
pub open spec fn saved_labels(text: Option<Seq<char>>) -> Map<Seq<char>, Seq<char>> {
    match text {
        Some(t) => match labels_parse(t) {
            Some(m) => m,
            None => Map::empty(),
        },
        None => Map::empty(),
    }
}

/// Read saved labels; nothing was saved where there is no text.
pub fn load_labels(text: &Option<String>) -> (r: StrMap<String>)
    ensures
        labels_view(r@) == saved_labels(opt_text(*text)),
{
    if let Some(t) = text {
        if let Some(pairs) = parse_labels(t.as_str()) {
            return StrMap::of_pairs(pairs);
        }
    }
    let none: StrMap<String> = StrMap::new();
    assert(labels_view(none@) =~= Map::<Seq<char>, Seq<char>>::empty());
    none
}

/// The text that these labels are saved as once an address has this one. Loaded
/// again, they come back as they were.
pub fn relabel(labels: StrMap<String>, address: &str, label: &str) -> (r: String)
    ensures
        saved_labels(Some(r@)) == labels_view(labels@).insert(address@, label@),
        labels_parse(r@) is Some,
{
    let ghost before = labels@;
    let mut labels: StrMap<String> = labels;
    let value: String = label.to_owned();
    labels.insert(address.to_owned(), value);
    assert(labels_view(labels@) =~= labels_view(before).insert(address@, value@));
    label_map_text(labels.pairs())
}

/// The text that the labels are saved as once an address has this label; `saved`
/// is what was saved before. Loaded again, it gives the labels before, with this
/// one for the address.
pub fn labels_text(saved: &Option<String>, address: &str, label: &str) -> (r: String)
    ensures
        labels_parse(r@) is Some,
        saved_labels(Some(r@)) == saved_labels(opt_text(*saved)).insert(address@, label@),
{
    relabel(load_labels(saved), address, label)
}

/// An address that was given a label has it when the labels are loaded again, and
/// every other address keeps its own.
pub proof fn law_label_is_kept(
    saved: Option<Seq<char>>,
    text: Seq<char>,
    address: Seq<char>,
    label: Seq<char>,
    other: Seq<char>,
)
    requires
        saved_labels(Some(text)) == saved_labels(saved).insert(address, label),
    ensures
        saved_labels(Some(text)).contains_key(address),
        saved_labels(Some(text))[address] == label,
        other != address ==> saved_labels(Some(text)).contains_key(other) == saved_labels(
            saved,
        ).contains_key(other),
        other != address ==> saved_labels(Some(text))[other] == saved_labels(saved)[other],
{
}

/// A watched list that was set is the one loaded after it was saved.
pub proof fn law_watched_tokens_survive_a_restart(
    st: StateView,
    chain_id: u64,
    tokens: Seq<Seq<char>>,
    text: Seq<char>,
)
    requires
        watched_parse(text) == Some(st.watching(chain_id, tokens).watched),
    ensures
        saved_watched(Some(text)).contains_key(chain_id),
        saved_watched(Some(text))[chain_id] == tokens,
{
}

proof fn lemma_plain_deeper(j: JsonView, a: nat, b: nat)
    requires
        is_plain(j, a),
        a <= b,
    ensures
        is_plain(j, b),
    decreases a,
{
    match j {
        JsonView::Arr(items) => {
            assert forall|i: int| 0 <= i < items.len() implies is_plain(
                #[trigger] items[i],
                (b - 1) as nat,
            ) by {
                lemma_plain_deeper(items[i], (a - 1) as nat, (b - 1) as nat);
            }
        },
        JsonView::Obj(m) => {
            assert forall|i: int| 0 <= i < m.len() implies is_plain((#[trigger] m[i]).1, (b - 1) as nat) by {
                lemma_plain_deeper(m[i].1, (a - 1) as nat, (b - 1) as nat);
            }
        },
        _ => {},
    }
}

/// The balances that a refresh reads, in one batch or one by one, are plain: they
/// are saved and loaded without loss.
pub proof fn law_chain_balances_are_plain(
    chain_id: u64,
    native: nat,
    tokens: Seq<Seq<char>>,
    balances: Seq<nat>,
)
    ensures
        is_plain(chain_json(chain_id, native, tokens, balances), 3),
{
    reveal_with_fuel(is_plain, 4);
    reveal_strlit("chainId");
    reveal_strlit("native");
    reveal_strlit("tokens");
    reveal_strlit("address");
    reveal_strlit("balance");
    let j = chain_json(chain_id, native, tokens, balances);
    let m = j->Obj_0;
    assert("chainId"@.len() == 7 && "native"@.len() == 6 && "tokens"@.len() == 6);
    assert("native"@[0] == 'n' && "tokens"@[0] == 't');
    assert("address"@[0] == 'a' && "balance"@[0] == 'b');
    let items = m[2].1->Arr_0;
    assert forall|i: int| 0 <= i < items.len() implies is_plain(#[trigger] items[i], 1) by {
        let t = items[i]->Obj_0;
        assert(t.len() == 2);
        assert(is_plain(t[0].1, 0) && is_plain(t[1].1, 0));
        assert(t[0].0 != t[1].0);
    }
    assert(is_plain(m[2].1, 2));
    assert(is_plain(m[0].1, 2) && is_plain(m[1].1, 2));
    assert(m.len() == 3);
    assert(m[0].0 != m[1].0 && m[0].0 != m[2].0 && m[1].0 != m[2].0);
}

proof fn lemma_aggregate_is_plain(address: Seq<char>, chains: Seq<JsonView>, depth: nat)
    requires
        forall|i: int| 0 <= i < chains.len() ==> is_plain(#[trigger] chains[i], depth),
    ensures
        is_plain(aggregate_json(address, chains), depth + 2),
{
    reveal_strlit("address");
    reveal_strlit("chains");
    let m = aggregate_json(address, chains)->Obj_0;
    assert(m.len() == 2);
    assert("address"@.len() == 7 && "chains"@.len() == 6);
    assert(m[0].0 != m[1].0);
    assert(is_plain(m[0].1, depth + 1));
    assert(is_plain(m[1].1, depth + 1));
}

/// A refresh keeps the balances plain: as long as those before it could be saved
/// and loaded without loss, so can those after it.
pub proof fn law_refreshed_balances_stay_plain(st: StateView, address: Seq<char>, chains: Seq<JsonView>)
    requires
        all_plain(st.balances, 99),
        forall|i: int| 0 <= i < chains.len() ==> is_plain(#[trigger] chains[i], 3),
    ensures
        all_plain(st.recorded(address, chains).balances, 99),
{
    lemma_aggregate_is_plain(address, chains, 3);
    lemma_plain_deeper(aggregate_json(address, chains), 5, 99);
    let after = st.recorded(address, chains).balances;
    assert forall|k: Seq<char>| #[trigger] after.contains_key(k) implies is_plain(after[k], 99) by {
        if k != address {
            assert(st.balances.contains_key(k));
        }
    }
}

} // verus!
