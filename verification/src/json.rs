//! JSON values, and the replies of dependencies.

use serde_json::{Number, Value};
use vstd::prelude::*;

verus! {

/// A JSON number.
#[derive(Debug, Clone, PartialEq, Eq)]
pub enum Num {
    /// A whole number from zero up.
    Pos(u64),
    /// A whole number below zero.
    Neg(i64),
    /// Any other number, in its shortest decimal form.
    Float(String),
}

/// A JSON value. The members of an object stand in the order they were added.
#[derive(Debug, PartialEq, Eq)]
pub enum Json {
    Null,
    Bool(bool),
    Num(Num),
    Str(String),
    Arr(Vec<Json>),
    Obj(Vec<(String, Json)>),
}

/// What a [`Num`] stands for.
pub enum NumView {
    Pos(u64),
    Neg(i64),
    Float(Seq<char>),
}

/// What a [`Json`] stands for.
pub enum JsonView {
    Null,
    Bool(bool),
    Num(NumView),
    Str(Seq<char>),
    Arr(Seq<JsonView>),
    Obj(Seq<(Seq<char>, JsonView)>),
}

impl View for Num {
    type V = NumView;

    open spec fn view(&self) -> NumView {
        match self {
            Num::Pos(n) => NumView::Pos(*n),
            Num::Neg(n) => NumView::Neg(*n),
            Num::Float(s) => NumView::Float(s@),
        }
    }
}

/// What a JSON value stands for.
pub open spec fn json_view(j: Json) -> JsonView
    decreases j,
{
    match j {
        Json::Null => JsonView::Null,
        Json::Bool(b) => JsonView::Bool(b),
        Json::Num(n) => JsonView::Num(n@),
        Json::Str(s) => JsonView::Str(s@),
        Json::Arr(items) => JsonView::Arr(
            Seq::new(
                items@.len(),
                |i: int|
                    if 0 <= i < items@.len() {
                        json_view(items@[i])
                    } else {
                        JsonView::Null
                    },
            ),
        ),
        Json::Obj(members) => JsonView::Obj(
            Seq::new(
                members@.len(),
                |i: int|
                    if 0 <= i < members@.len() {
                        (members@[i].0@, json_view(members@[i].1))
                    } else {
                        (Seq::empty(), JsonView::Null)
                    },
            ),
        ),
    }
}

impl View for Json {
    type V = JsonView;

    open spec fn view(&self) -> JsonView {
        json_view(*self)
    }
}

/// The first member named `key`.
pub open spec fn lookup(members: Seq<(Seq<char>, JsonView)>, key: Seq<char>) -> Option<JsonView>
    decreases members.len(),
{
    if members.len() == 0 {
        None
    } else if members[0].0 == key {
        Some(members[0].1)
    } else {
        lookup(members.skip(1), key)
    }
}

impl JsonView {
    /// An object without members.
    pub open spec fn object() -> JsonView {
        JsonView::Obj(Seq::empty())
    }

    /// An object with one more member.
    pub open spec fn with(self, key: Seq<char>, value: JsonView) -> JsonView {
        match self {
            JsonView::Obj(members) => JsonView::Obj(members.push((key, value))),
            _ => self,
        }
    }

    /// The member named `key`, where this is an object that has one.
    pub open spec fn get(self, key: Seq<char>) -> Option<JsonView> {
        match self {
            JsonView::Obj(members) => lookup(members, key),
            _ => None,
        }
    }

    /// The text of the member named `key`, where it is one.
    pub open spec fn get_str(self, key: Seq<char>) -> Option<Seq<char>> {
        match self.get(key) {
            Some(JsonView::Str(s)) => Some(s),
            _ => None,
        }
    }

    /// The truth value of the member named `key`, where it is one.
    pub open spec fn get_bool(self, key: Seq<char>) -> Option<bool> {
        match self.get(key) {
            Some(JsonView::Bool(b)) => Some(b),
            _ => None,
        }
    }

    /// The member named `key` as a whole number from zero up, where it is one.
    pub open spec fn get_u64(self, key: Seq<char>) -> Option<u64> {
        match self.get(key) {
            Some(JsonView::Num(NumView::Pos(n))) => Some(n),
            _ => None,
        }
    }

    /// The number of the member named `key`, where it is one.
    pub open spec fn get_num(self, key: Seq<char>) -> Option<NumView> {
        match self.get(key) {
            Some(JsonView::Num(n)) => Some(n),
            _ => None,
        }
    }

    /// The items of the member named `key`, where it is an array.
    pub open spec fn get_arr(self, key: Seq<char>) -> Option<Seq<JsonView>> {
        match self.get(key) {
            Some(JsonView::Arr(items)) => Some(items),
            _ => None,
        }
    }
}

/// A text or nothing, as JSON.
pub open spec fn str_or_null(s: Option<Seq<char>>) -> JsonView {
    match s {
        Some(t) => JsonView::Str(t),
        None => JsonView::Null,
    }
}

/// The views of a sequence of values.
pub open spec fn json_views(s: Seq<Json>) -> Seq<JsonView> {
    s.map_values(|j: Json| j@)
}

/// Views of members.
pub open spec fn member_views(s: Seq<(String, Json)>) -> Seq<(Seq<char>, JsonView)> {
    s.map_values(|m: (String, Json)| (m.0@, m.1@))
}

proof fn lemma_view_arr(items: Vec<Json>)
    ensures
        Json::Arr(items)@ == JsonView::Arr(json_views(items@)),
{
    assert(Json::Arr(items)@->Arr_0 =~= json_views(items@));
}

proof fn lemma_view_obj(members: Vec<(String, Json)>)
    ensures
        Json::Obj(members)@ == JsonView::Obj(member_views(members@)),
{
    assert(Json::Obj(members)@->Obj_0 =~= member_views(members@));
}

impl Json {
    /// An object without members.
    pub fn object() -> (r: Json)
        ensures
            r@ == JsonView::object(),
    {
        let r = Json::Obj(Vec::new());
        assert(r@->Obj_0 =~= Seq::<(Seq<char>, JsonView)>::empty());
        r
    }

    /// An array.
    pub fn array(items: Vec<Json>) -> (r: Json)
        ensures
            r@ == JsonView::Arr(json_views(items@)),
    {
        proof {
            lemma_view_arr(items);
        }
        Json::Arr(items)
    }

    /// A text.
    pub fn text(s: &str) -> (r: Json)
        ensures
            r@ == JsonView::Str(s@),
    {
        Json::Str(s.to_owned())
    }

    /// A text or nothing.
    pub fn text_or_null(s: &Option<String>) -> (r: Json)
        ensures
            r@ == str_or_null(crate::jobs::opt_text(*s)),
    {
        match s {
            Some(t) => Json::Str(t.clone()),
            None => Json::Null,
        }
    }

    /// This object with one more member; any other value as it is.
    pub fn with(self, key: &str, value: Json) -> (r: Json)
        ensures
            r@ == self@.with(key@, value@),
    {
        match self {
            Json::Obj(members) => {
                let mut all: Vec<(String, Json)> = members;
                proof {
                    lemma_view_obj(all);
                }
                all.push((key.to_owned(), value));
                proof {
                    lemma_view_obj(all);
                    assert(member_views(all@) =~= member_views(members@).push((key@, value@)));
                }
                Json::Obj(all)
            },
            other => other,
        }
    }

    /// The member named `key`, where this is an object that has one.
    pub fn get(&self, key: &str) -> (r: Option<&Json>)
        ensures
            match r {
                Some(j) => self@.get(key@) == Some(j@),
                None => self@.get(key@) is None,
            },
    {
        match self {
            Json::Obj(members) => {
                let want: String = key.to_owned();
                let n: usize = members.len();
                let ghost views = member_views(members@);
                let mut i: usize = 0;
                proof {
                    lemma_view_obj(*members);
                    assert(views.skip(0) =~= views);
                }
                while i < n
                    invariant
                        i <= n,
                        n == members@.len(),
                        want@ == key@,
                        views == member_views(members@),
                        self@ == JsonView::Obj(views),
                        lookup(views, key@) == lookup(views.skip(i as int), key@),
                    decreases n - i,
                {
                    proof {
                        assert(views.skip(i as int)[0] == views[i as int]);
                        assert(views.skip(i as int).skip(1) =~= views.skip(i + 1));
                    }
                    if members[i].0 == want {
                        return Some(&members[i].1);
                    }
                    i += 1;
                }
                None
            },
            _ => None,
        }
    }

    /// The text of the member named `key`, where it is one.
    pub fn get_str(&self, key: &str) -> (r: Option<&String>)
        ensures
            match r {
                Some(s) => self@.get_str(key@) == Some(s@),
                None => self@.get_str(key@) is None,
            },
    {
        match self.get(key) {
            Some(Json::Str(s)) => Some(s),
            _ => None,
        }
    }

    /// The truth value of the member named `key`, where it is one.
    pub fn get_bool(&self, key: &str) -> (r: Option<bool>)
        ensures
            r == self@.get_bool(key@),
    {
        match self.get(key) {
            Some(Json::Bool(b)) => Some(*b),
            _ => None,
        }
    }

    /// The member named `key` as a whole number from zero up, where it is one.
    pub fn get_u64(&self, key: &str) -> (r: Option<u64>)
        ensures
            r == self@.get_u64(key@),
    {
        match self.get(key) {
            Some(Json::Num(Num::Pos(n))) => Some(*n),
            _ => None,
        }
    }

    /// The number of the member named `key`, where it is one.
    pub fn get_num(&self, key: &str) -> (r: Option<&Num>)
        ensures
            match r {
                Some(n) => self@.get_num(key@) == Some(n@),
                None => self@.get_num(key@) is None,
            },
    {
        match self.get(key) {
            Some(Json::Num(n)) => Some(n),
            _ => None,
        }
    }

    /// The items of the member named `key`, where it is an array.
    pub fn get_arr(&self, key: &str) -> (r: Option<&Vec<Json>>)
        ensures
            match r {
                Some(items) => self@.get_arr(key@) == Some(json_views(items@)),
                None => self@.get_arr(key@) is None,
            },
    {
        match self.get(key) {
            Some(Json::Arr(items)) => {
                proof {
                    lemma_view_arr(*items);
                }
                Some(items)
            },
            _ => None,
        }
    }

    /// A copy.
    pub fn copied(&self) -> (r: Json)
        ensures
            r@ == self@,
        decreases self,
    {
        match self {
            Json::Null => Json::Null,
            Json::Bool(b) => Json::Bool(*b),
            Json::Num(Num::Pos(n)) => Json::Num(Num::Pos(*n)),
            Json::Num(Num::Neg(n)) => Json::Num(Num::Neg(*n)),
            Json::Num(Num::Float(s)) => Json::Num(Num::Float(s.clone())),
            Json::Str(s) => Json::Str(s.clone()),
            Json::Arr(items) => {
                let n: usize = items.len();
                let mut all: Vec<Json> = Vec::new();
                let mut i: usize = 0;
                while i < n
                    invariant
                        i <= n,
                        n == items@.len(),
                        *self == Json::Arr(*items),
                        json_views(all@) == json_views(items@).take(i as int),
                    decreases n - i,
                {
                    let item: &Json = &items[i];
                    assert(decreases_to!(*self => self->Arr_0@[i as int]));
                    let ghost before = all@;
                    all.push(item.copied());
                    assert(json_views(all@) =~= json_views(before).push(item@));
                    assert(json_views(items@).take(i + 1) =~= json_views(items@).take(i as int).push(item@));
                    i += 1;
                }
                proof {
                    lemma_view_arr(*items);
                    lemma_view_arr(all);
                    assert(json_views(items@).take(n as int) =~= json_views(items@));
                }
                Json::Arr(all)
            },
            Json::Obj(members) => {
                let n: usize = members.len();
                let mut all: Vec<(String, Json)> = Vec::new();
                let mut i: usize = 0;
                while i < n
                    invariant
                        i <= n,
                        n == members@.len(),
                        *self == Json::Obj(*members),
                        member_views(all@) == member_views(members@).take(i as int),
                    decreases n - i,
                {
                    let member: &(String, Json) = &members[i];
                    assert(decreases_to!(*self => self->Obj_0@[i as int].1));
                    let ghost before = all@;
                    all.push((member.0.clone(), member.1.copied()));
                    assert(member_views(all@) =~= member_views(before).push((member.0@, member.1@)));
                    assert(member_views(members@).take(i + 1) =~= member_views(members@).take(i as int).push(
                        (member.0@, member.1@),
                    ));
                    i += 1;
                }
                proof {
                    lemma_view_obj(*members);
                    lemma_view_obj(all);
                    assert(member_views(members@).take(n as int) =~= member_views(members@));
                }
                Json::Obj(all)
            },
        }
    }
}

/// A parsed value of the `serde_json` crate.
#[verifier::external_type_specification]
#[verifier::external_body]
pub struct ExValue(serde_json::Value);

/// What `serde_json` makes of a text: the value it reads, or the message of the
/// error it reports.
pub uninterp spec fn json_parse(text: Seq<char>) -> Result<JsonView, Seq<char>>;

/// The compact text that `serde_json` writes for a value.
pub uninterp spec fn json_text(value: JsonView) -> Seq<char>;

/// The indented text that `serde_json` writes for a value.
pub uninterp spec fn json_pretty(value: JsonView) -> Seq<char>;

/// The shortest decimal form of the floating-point number nearest to a JSON
/// number, as `serde_json` writes it.
pub uninterp spec fn float_text(n: NumView) -> Seq<char>;

/// An object of texts, truth values and nulls, no member twice.
pub open spec fn is_flat(j: JsonView) -> bool {
    match j {
        JsonView::Obj(m) => {
            &&& forall|i: int| 0 <= i < m.len() ==> (#[trigger] m[i]).1 is Str || m[i].1 is Bool || m[i].1 is Null
            &&& forall|i: int, k: int| 0 <= i < k < m.len() ==> (#[trigger] m[i]).0 != (#[trigger] m[k]).0
        },
        _ => false,
    }
}

/// Nested no deeper than `depth`, with whole numbers only, and no member of an
/// object twice.
pub open spec fn is_plain(j: JsonView, depth: nat) -> bool
    decreases depth,
{
    match j {
        JsonView::Num(NumView::Float(_)) => false,
        JsonView::Num(NumView::Neg(n)) => n < 0,
        JsonView::Arr(items) => depth > 0 && forall|i: int|
            0 <= i < items.len() ==> is_plain(#[trigger] items[i], (depth - 1) as nat),
        JsonView::Obj(m) => {
            &&& depth > 0
            &&& forall|i: int| 0 <= i < m.len() ==> is_plain((#[trigger] m[i]).1, (depth - 1) as nat)
            &&& forall|i: int, k: int| 0 <= i < k < m.len() ==> (#[trigger] m[i]).0 != (#[trigger] m[k]).0
        },
        _ => true,
    }
}

/// The same value up to the order of members, down to `depth`.
pub open spec fn same_json(a: JsonView, b: JsonView, depth: nat) -> bool
    decreases depth,
{
    match (a, b) {
        (JsonView::Arr(x), JsonView::Arr(y)) => {
            &&& depth > 0
            &&& x.len() == y.len()
            &&& forall|i: int| 0 <= i < x.len() ==> same_json(#[trigger] x[i], y[i], (depth - 1) as nat)
        },
        (JsonView::Obj(x), JsonView::Obj(y)) => {
            &&& depth > 0
            &&& forall|k: Seq<char>| (#[trigger] lookup(x, k)) is Some == lookup(y, k) is Some
            &&& forall|k: Seq<char>|
                (#[trigger] lookup(x, k)) is Some ==> same_json(
                    lookup(x, k)->0,
                    lookup(y, k)->0,
                    (depth - 1) as nat,
                )
        },
        _ => a == b,
    }
}

/// Converts a value of `serde_json`, variant by variant: a number it can read
/// as `u64` or `i64` is a whole one, any other keeps its text. Nothing is
/// claimed of it here; what it is part of is claimed of [`parse_json`].
#[verifier::external_body]
fn from_value(v: Value) -> (r: Json) {
    match v {
        Value::Null => Json::Null,
        Value::Bool(b) => Json::Bool(b),
        Value::Number(n) => match (n.as_u64(), n.as_i64()) {
            (Some(u), _) => Json::Num(Num::Pos(u)),
            (None, Some(i)) => Json::Num(Num::Neg(i)),
            (None, None) => Json::Num(Num::Float(n.to_string())),
        },
        Value::String(s) => Json::Str(s),
        Value::Array(a) => Json::Arr(a.into_iter().map(from_value).collect()),
        Value::Object(m) => Json::Obj(m.into_iter().map(|(k, x)| (k, from_value(x))).collect()),
    }
}

/// Converts to a value of `serde_json`, variant by variant. Nothing is claimed
/// of it here; what it is part of is claimed of [`Json::render`],
/// [`Json::render_pretty`] and [`as_float`].
#[verifier::external_body]
fn to_value(j: &Json) -> (r: Value) {
    match j {
        Json::Null => Value::Null,
        Json::Bool(b) => Value::Bool(*b),
        Json::Num(Num::Pos(u)) => Value::from(*u),
        Json::Num(Num::Neg(i)) => Value::from(*i),
        Json::Num(Num::Float(t)) => Value::from(t.parse().ok().and_then(Number::from_f64).map(Value::Number)),
        Json::Str(s) => Value::String(s.clone()),
        Json::Arr(a) => Value::Array(a.iter().map(to_value).collect()),
        Json::Obj(m) => Value::Object(m.iter().map(|(k, x)| (k.clone(), to_value(x))).collect()),
    }
}

/// Calls `serde_json::from_str` for a `serde_json::Value`: what comes back, the
/// value or the message of the error, is named by [`json_parse`].
#[verifier::external_body]
pub(crate) fn parse_json(text: &str) -> (r: Result<Json, String>)
    ensures
        res_json(r) == json_parse(text@),
{
    match serde_json::from_str::<Value>(text) {
        Ok(v) => Ok(from_value(v)),
        Err(e) => Err(e.to_string()),
    }
}

/// Calls `to_string` of a `serde_json::Value`: the text is named by
/// [`json_text`]. Read again, the text of a flat object gives an object with
/// the same members.
#[verifier::external_body]
fn value_text(j: &Json) -> (r: String)
    ensures
        r@ == json_text(j@),
        is_flat(j@) ==> json_parse(r@) is Ok && forall|k: Seq<char>|
            #[trigger] (json_parse(r@)->Ok_0).get(k) == j@.get(k),
{
    to_value(j).to_string()
}

/// Calls `serde_json::to_string_pretty` on a `serde_json::Value`: the text is
/// named by [`json_pretty`]. Read again, the text of a value with whole numbers
/// only gives the same value up to the order of members, as long as it is not
/// nested deeper than `serde_json` reads.
#[verifier::external_body]
fn pretty_text(j: &Json) -> (r: String)
    ensures
        r@ == json_pretty(j@),
        is_plain(j@, 100) ==> json_parse(r@) is Ok && same_json(j@, json_parse(r@)->Ok_0, 100),
{
    serde_json::to_string_pretty(&to_value(j)).unwrap_or_default()
}

impl Json {
    /// The indented text of this value.
    pub fn render_pretty(&self) -> (r: String)
        ensures
            r@ == json_pretty(self@),
            is_plain(self@, 100) ==> json_parse(r@) is Ok && same_json(
                self@,
                json_parse(r@)->Ok_0,
                100,
            ),
    {
        pretty_text(self)
    }

    /// The compact text of this value.
    pub fn render(&self) -> (r: String)
        ensures
            r@ == json_text(self@),
            is_flat(self@) ==> json_parse(r@) is Ok && forall|k: Seq<char>|
                #[trigger] (json_parse(r@)->Ok_0).get(k) == self@.get(k),
    {
        value_text(self)
    }
}

/// Calls `serde_json::Number::as_f64`: the number it gives, in the text of
/// `serde_json::Number::from_f64`, is named by [`float_text`].
#[verifier::external_body]
pub(crate) fn as_float(n: &Num) -> (r: String)
    ensures
        r@ == float_text(n@),
{
    let v = to_value(&Json::Num(n.clone()));
    Value::from(v.as_f64()).to_string()
}

/// A reply, or the message of the transport that failed to bring one.
pub open spec fn res_text(r: Result<String, String>) -> Result<Seq<char>, Seq<char>> {
    match r {
        Ok(s) => Ok(s@),
        Err(e) => Err(e@),
    }
}

/// A value, or a message.
pub open spec fn res_json(r: Result<Json, String>) -> Result<JsonView, Seq<char>> {
    match r {
        Ok(j) => Ok(j@),
        Err(e) => Err(e@),
    }
}

/// The error envelope `{ ok: false, error }`.
pub open spec fn err_json(e: Seq<char>) -> JsonView {
    JsonView::object().with("ok"@, JsonView::Bool(false)).with("error"@, JsonView::Str(e))
}

/// The error envelope as text.
pub fn err(e: &str) -> (r: String)
    ensures
        r@ == json_text(err_json(e@)),
{
    Json::object().with("ok", Json::Bool(false)).with("error", Json::text(e)).render()
}

/// A reply that says `ok: false` is an error: its `error` text, or a stock one.
pub open spec fn checked_view(v: Result<JsonView, Seq<char>>) -> Result<JsonView, Seq<char>> {
    match v {
        Err(e) => Err(e),
        Ok(j) => if j.get_bool("ok"@) == Some(false) {
            match j.get_str("error"@) {
                Some(e) => Err(e),
                None => Err("dependency error"@),
            }
        } else {
            Ok(j)
        },
    }
}

/// Surfaces a reply that says `ok: false` as an error.
pub fn checked(v: Result<Json, String>) -> (r: Result<Json, String>)
    ensures
        res_json(r) == checked_view(res_json(v)),
{
    match v {
        Err(e) => Err(e),
        Ok(j) => {
            if j.get_bool("ok") == Some(false) {
                match j.get_str("error") {
                    Some(e) => Err(e.clone()),
                    None => Err("dependency error".to_owned()),
                }
            } else {
                Ok(j)
            }
        },
    }
}

/// What a dependency's reply text says.
pub open spec fn ok_value_view(s: Seq<char>) -> Result<JsonView, Seq<char>> {
    checked_view(json_parse(s))
}

/// Parse a dependency's `{ ok, ... }` reply, surfacing `ok: false` as an error.
pub fn ok_value(s: &str) -> (r: Result<Json, String>)
    ensures
        res_json(r) == ok_value_view(s@),
{
    checked(parse_json(s))
}

/// What a reply says, a transport failure being an error as it stands.
pub open spec fn reply_view(reply: Result<Seq<char>, Seq<char>>) -> Result<JsonView, Seq<char>> {
    match reply {
        Ok(s) => ok_value_view(s),
        Err(e) => Err(e),
    }
}

/// Parse a reply, passing a transport failure on.
pub fn reply_value(reply: &Result<String, String>) -> (r: Result<Json, String>)
    ensures
        res_json(r) == reply_view(res_text(*reply)),
{
    match reply {
        Ok(s) => ok_value(s.as_str()),
        Err(e) => Err(e.clone()),
    }
}

/// A dependency's own answer on success, the error envelope on a transport
/// failure.
pub open spec fn passthrough_text(reply: Result<Seq<char>, Seq<char>>) -> Seq<char> {
    match reply {
        Ok(s) => s,
        Err(e) => json_text(err_json(e)),
    }
}

/// Pass a reply straight through.
pub fn passthrough(reply: Result<String, String>) -> (r: String)
    ensures
        r@ == passthrough_text(res_text(reply)),
{
    match reply {
        Ok(s) => s,
        Err(e) => err(e.as_str()),
    }
}

} // verus!
