//! What holds of JSON values, and of how replies are read.

use crate::json::{
    checked_view, err_json, json_parse, json_text, lookup, ok_value_view, passthrough_text,
    reply_view, str_or_null, JsonView, NumView,
};
use crate::words::lemma_envelope_words;
use vstd::prelude::*;

verus! {

proof fn lemma_lookup_push(members: Seq<(Seq<char>, JsonView)>, m: (Seq<char>, JsonView), k: Seq<char>)
    ensures
        lookup(members.push(m), k) == (if lookup(members, k) is Some {
            lookup(members, k)
        } else if m.0 == k {
            Some(m.1)
        } else {
            None
        }),
    decreases members.len(),
{
    let all = members.push(m);
    if members.len() == 0 {
        assert(all[0] == m);
        assert(lookup(all.skip(1), k) is None);
        assert(lookup(members, k) is None);
    } else {
        assert(all[0] == members[0]);
        assert(all.skip(1) =~= members.skip(1).push(m));
        lemma_lookup_push(members.skip(1), m, k);
    }
}

/// An object with one more member has it under its name, unless it had another
/// there before; its other members stay.
pub broadcast proof fn law_a_member_is_found(
    o: JsonView,
    key: Seq<char>,
    value: JsonView,
    k: Seq<char>,
)
    requires
        o is Obj,
    ensures
        #[trigger] o.with(key, value).get(k) == (if o.get(k) is Some {
            o.get(k)
        } else if k == key {
            Some(value)
        } else {
            None
        }),
{
    lemma_lookup_push(o->Obj_0, (key, value), k);
}

/// An object without members has none under any name.
pub broadcast proof fn law_an_empty_object_has_no_members(k: Seq<char>)
    ensures
        #[trigger] JsonView::object().get(k) is None,
{
}

/// How many members a value has.
pub open spec fn member_count(v: JsonView) -> nat {
    match v {
        JsonView::Obj(members) => members.len(),
        _ => 0,
    }
}

/// An object with one more member has one more, and an empty one has none.
pub broadcast proof fn law_a_member_counts_once(o: JsonView, key: Seq<char>, value: JsonView)
    requires
        o is Obj,
    ensures
        #[trigger] member_count(o.with(key, value)) == member_count(o) + 1,
        member_count(JsonView::object()) == 0,
{
}

/// The member of an object under a name is the first one with that name; what is
/// no object has no members.
pub proof fn law_the_first_member_counts(j: JsonView, k: Seq<char>, v: JsonView)
    ensures
        j.get(k) == Some(v) <==> j is Obj && exists|i: int|
            0 <= i < j->Obj_0.len() && #[trigger] j->Obj_0[i] == (k, v) && forall|h: int|
                0 <= h < i ==> (#[trigger] j->Obj_0[h]).0 != k,
    decreases j,
{
    if j is Obj {
        lemma_first_member(j->Obj_0, k, v);
    }
}

proof fn lemma_first_member(m: Seq<(Seq<char>, JsonView)>, k: Seq<char>, v: JsonView)
    ensures
        lookup(m, k) == Some(v) <==> exists|i: int|
            0 <= i < m.len() && #[trigger] m[i] == (k, v) && forall|h: int|
                0 <= h < i ==> (#[trigger] m[h]).0 != k,
    decreases m.len(),
{
    if m.len() > 0 {
        let t = m.skip(1);
        lemma_first_member(t, k, v);
        if m[0].0 != k {
            if lookup(m, k) == Some(v) {
                let i = choose|i: int|
                    0 <= i < t.len() && #[trigger] t[i] == (k, v) && forall|h: int|
                        0 <= h < i ==> (#[trigger] t[h]).0 != k;
                assert(m[i + 1] == (k, v));
                assert forall|h: int| 0 <= h < i + 1 implies (#[trigger] m[h]).0 != k by {
                    if h > 0 {
                        assert(t[h - 1] == m[h]);
                    }
                }
            }
            if exists|i: int|
                0 <= i < m.len() && #[trigger] m[i] == (k, v) && forall|h: int|
                    0 <= h < i ==> (#[trigger] m[h]).0 != k {
                let i = choose|i: int|
                    0 <= i < m.len() && #[trigger] m[i] == (k, v) && forall|h: int|
                        0 <= h < i ==> (#[trigger] m[h]).0 != k;
                assert(t[i - 1] == (k, v));
                assert forall|h: int| 0 <= h < i - 1 implies (#[trigger] t[h]).0 != k by {
                    assert(t[h] == m[h + 1]);
                }
            }
        } else {
            if exists|i: int|
                0 <= i < m.len() && #[trigger] m[i] == (k, v) && forall|h: int|
                    0 <= h < i ==> (#[trigger] m[h]).0 != k {
                let i = choose|i: int|
                    0 <= i < m.len() && #[trigger] m[i] == (k, v) && forall|h: int|
                        0 <= h < i ==> (#[trigger] m[h]).0 != k;
                assert(i == 0) by {
                    if i > 0 {
                        assert(m[0].0 != k);
                    }
                }
            }
            if lookup(m, k) == Some(v) {
                assert(m[0] == (k, v));
            }
        }
    }
}

/// A member is read as a text, a truth value, a whole number, a number or a list
/// exactly where it is one.
pub proof fn law_members_are_read_by_kind(
    j: JsonView,
    k: Seq<char>,
    s: Seq<char>,
    b: bool,
    u: u64,
    n: NumView,
    a: Seq<JsonView>,
)
    ensures
        j.get_str(k) == Some(s) <==> j.get(k) == Some(JsonView::Str(s)),
        j.get_bool(k) == Some(b) <==> j.get(k) == Some(JsonView::Bool(b)),
        j.get_u64(k) == Some(u) <==> j.get(k) == Some(JsonView::Num(NumView::Pos(u))),
        j.get_num(k) == Some(n) <==> j.get(k) == Some(JsonView::Num(n)),
        j.get_arr(k) == Some(a) <==> j.get(k) == Some(JsonView::Arr(a)),
        str_or_null(None) == JsonView::Null,
        str_or_null(Some(s)) == JsonView::Str(s),
{
}

/// The error envelope says that it is none of success and why; read as a reply,
/// it is that error again.
pub proof fn law_an_error_is_read_as_that_error(e: Seq<char>)
    ensures
        err_json(e).get_bool("ok"@) == Some(false),
        err_json(e).get_str("error"@) == Some(e),
        member_count(err_json(e)) == 2,
        checked_view(Ok(err_json(e))) == Err::<JsonView, Seq<char>>(e),
{
    broadcast use {law_a_member_is_found, law_an_empty_object_has_no_members};

    lemma_envelope_words();
}

/// A dependency's reply is an error where it failed to come, is not JSON or says
/// `ok: false`, and then the error is that of the transport, of the parser, or
/// the one it names; any other reply is taken as it stands.
pub proof fn law_a_reply_is_taken_as_it_stands_or_is_an_error(
    reply: Result<Seq<char>, Seq<char>>,
    v: JsonView,
    e: Seq<char>,
)
    ensures
        reply == Err::<Seq<char>, Seq<char>>(e) ==> reply_view(reply) == Err::<JsonView, Seq<char>>(e),
        reply is Ok && json_parse(reply->Ok_0) == Err::<JsonView, Seq<char>>(e) ==> reply_view(reply)
            == Err::<JsonView, Seq<char>>(e),
        reply is Ok && json_parse(reply->Ok_0) == Ok::<JsonView, Seq<char>>(v) && v.get("ok"@)
            == Some(JsonView::Bool(false)) && v.get("error"@) == Some(JsonView::Str(e))
            ==> reply_view(reply) == Err::<JsonView, Seq<char>>(e),
        reply is Ok && json_parse(reply->Ok_0) == Ok::<JsonView, Seq<char>>(v) && v.get("ok"@)
            == Some(JsonView::Bool(false)) && !(v.get("error"@) matches Some(JsonView::Str(_)))
            ==> reply_view(reply) == Err::<JsonView, Seq<char>>("dependency error"@),
        reply is Ok && json_parse(reply->Ok_0) == Ok::<JsonView, Seq<char>>(v) && v.get("ok"@)
            != Some(JsonView::Bool(false)) ==> reply_view(reply) == Ok::<JsonView, Seq<char>>(v),
        reply is Ok ==> ok_value_view(reply->Ok_0) == reply_view(reply),
{
}

/// A reply that is passed through is the answer letter for letter; one that
/// failed to come is answered by an envelope that names the failure.
pub proof fn law_passing_through_changes_nothing(s: Seq<char>)
    ensures
        passthrough_text(Ok(s)) == s,
        exists|v: JsonView|
            passthrough_text(Err(s)) == #[trigger] json_text(v) && v.get_bool("ok"@) == Some(false)
                && v.get_str("error"@) == Some(s),
{
    law_an_error_is_read_as_that_error(s);
    assert(passthrough_text(Err(s)) == json_text(err_json(s)));
}

} // verus!
