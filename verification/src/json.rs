//! JSON values: a tree of plain values, its mathematical model, and the way to and from text.
//!
//! The grammar of JSON, the printing of numbers and the order in which members are printed come
//! from `serde_json`; everything else that the proxy does with JSON is done on [`Json`].

use vstd::prelude::*;
use vstd::string::*;
use vstd::utf8::*;

use crate::text::same;

verus! {

/// A JSON value.
///
/// An object lists its members; where a name is repeated, the last member of that name counts.
pub enum Json {
    Null,
    Bool(bool),
    Int(i64),
    Number(serde_json::Number),
    Text(String),
    Array(Vec<Json>),
    Object(Vec<(String, Json)>),
}

/// The mathematical model of a JSON value.
#[verifier::ext_equal]
pub enum JsonV {
    Null,
    Bool(bool),
    Int(int),
    Real(serde_json::Number),
    Text(Seq<char>),
    Array(Seq<JsonV>),
    Object(Map<Seq<char>, JsonV>),
}

/// A JSON document as `serde_json` holds it.
#[verifier::external_type_specification]
#[verifier::external_body]
pub struct ExValue(serde_json::Value);

/// A JSON number as `serde_json` holds it.
#[verifier::external_type_specification]
#[verifier::external_body]
pub struct ExNumber(serde_json::Number);

/// What a document of `serde_json` holds.
pub uninterp spec fn value_json(v: serde_json::Value) -> JsonV;

/// The integer that a number of `serde_json` is, where it is one.
pub uninterp spec fn number_int(n: serde_json::Number) -> Option<int>;

/// The document that `serde_json` reads from these bytes, or what it says of bytes that hold none.
pub uninterp spec fn json_read(bytes: Seq<u8>) -> Result<JsonV, Seq<char>>;

/// The number with a fraction part that `serde_json` makes of a number.
pub uninterp spec fn float_json(v: JsonV) -> JsonV;

/// The compact text that `serde_json` prints for a value.
pub uninterp spec fn json_text(v: JsonV) -> Seq<char>;

/// The document that the bytes hold, where they hold one.
pub open spec fn parsed_json(bytes: Seq<u8>) -> Option<JsonV> {
    match json_read(bytes) {
        Ok(v) => Some(v),
        Err(_) => None,
    }
}

/// What is said of bytes that hold no document.
pub open spec fn parse_complaint(bytes: Seq<u8>) -> Seq<char> {
    match json_read(bytes) {
        Ok(_) => Seq::empty(),
        Err(m) => m,
    }
}

impl View for Json {
    type V = JsonV;

    open spec fn view(&self) -> JsonV {
        json_view(*self)
    }
}

/// The model of `j`.
pub open spec fn json_view(j: Json) -> JsonV
    decreases j,
{
    match j {
        Json::Null => JsonV::Null,
        Json::Bool(b) => JsonV::Bool(b),
        Json::Int(i) => JsonV::Int(i as int),
        Json::Number(n) => number_view(n),
        Json::Text(s) => JsonV::Text(s@),
        Json::Array(v) => JsonV::Array(
            Seq::new(
                v@.len(),
                |i: int|
                    if 0 <= i < v@.len() {
                        json_view(v@[i])
                    } else {
                        JsonV::Null
                    },
            ),
        ),
        Json::Object(v) => JsonV::Object(members_view(v@)),
    }
}

/// The model of a number.
pub open spec fn number_view(n: serde_json::Number) -> JsonV {
    match number_int(n) {
        Some(i) => JsonV::Int(i),
        None => JsonV::Real(n),
    }
}

/// The model of the members of an object.
pub open spec fn members_view(s: Seq<(String, Json)>) -> Map<Seq<char>, JsonV>
    decreases s,
{
    if s.len() == 0 {
        Map::empty()
    } else {
        members_view(s.drop_last()).insert(s.last().0@, json_view(s.last().1))
    }
}

/// The text holds no end of a line.
pub open spec fn one_line(s: Seq<char>) -> bool {
    forall|i: int| 0 <= i < s.len() ==> #[trigger] s[i] != '\n' && s[i] != '\r'
}

/// The model of an optional value.
pub open spec fn maybe(v: Option<Json>) -> Option<JsonV> {
    match v {
        Some(j) => Some(j@),
        None => None,
    }
}

/// The models of the values in `v`.
pub open spec fn items_view(v: Seq<Json>) -> Seq<JsonV> {
    Seq::new(v.len(), |i: int| v[i]@)
}

/// The top level of a document of `serde_json`.
enum Split<'a> {
    Null,
    Bool(bool),
    Number(&'a serde_json::Number),
    Text(&'a String),
    Array(&'a Vec<serde_json::Value>),
    Object(Vec<(&'a String, &'a serde_json::Value)>),
}

/// What members of a document hold, by name.
spec fn entries_map(s: Seq<(&String, &serde_json::Value)>) -> Map<Seq<char>, JsonV>
    decreases s.len(),
{
    if s.len() == 0 {
        Map::empty()
    } else {
        entries_map(s.drop_last()).insert(s.last().0@, value_json(*s.last().1))
    }
}

/// No two members have the same name.
spec fn distinct_names(s: Seq<(&String, &serde_json::Value)>) -> bool {
    forall|i: int, j: int| 0 <= i < j < s.len() ==> (#[trigger] s[i]).0@ != (#[trigger] s[j]).0@
}

/// The document that a top level stands for.
spec fn split_json(p: Split) -> JsonV {
    match p {
        Split::Null => JsonV::Null,
        Split::Bool(b) => JsonV::Bool(b),
        Split::Number(n) => number_view(*n),
        Split::Text(s) => JsonV::Text(s@),
        Split::Array(v) => JsonV::Array(Seq::new(v@.len(), |i: int| value_json(v@[i]))),
        Split::Object(e) => JsonV::Object(entries_map(e@)),
    }
}

/// Tells the variants of `serde_json::Value` apart and hands out what each holds. The members of
/// an object come from `serde_json::Map::iter`, which names each of them once.
#[verifier::external_body]
fn split_value(v: &serde_json::Value) -> (p: Split<'_>)
    ensures
        split_json(p) == value_json(*v),
        p matches Split::Object(e) ==> distinct_names(e@),
{
    match v {
        serde_json::Value::Null => Split::Null,
        serde_json::Value::Bool(b) => Split::Bool(*b),
        serde_json::Value::Number(n) => Split::Number(n),
        serde_json::Value::String(s) => Split::Text(s),
        serde_json::Value::Array(a) => Split::Array(a),
        serde_json::Value::Object(m) => Split::Object(m.iter().collect()),
    }
}

/// `Number::clone` gives the same number again.
pub assume_specification[ <serde_json::Number as Clone>::clone ](n: &serde_json::Number) -> (r:
    serde_json::Number)
    ensures
        r == *n,
;

proof fn lemma_entries_map(s: Seq<(&String, &serde_json::Value)>, i: int)
    requires
        distinct_names(s),
        0 <= i < s.len(),
    ensures
        entries_map(s).contains_key(s[i].0@),
        entries_map(s)[s[i].0@] == value_json(*s[i].1),
    decreases s.len(),
{
    if i < s.len() - 1 {
        assert(s.drop_last()[i] == s[i]);
        assert(distinct_names(s.drop_last())) by {
            assert forall|a: int, b: int| 0 <= a < b < s.drop_last().len() implies (
            #[trigger] s.drop_last()[a]).0@ != (#[trigger] s.drop_last()[b]).0@ by {
                assert(s[a].0@ != s[b].0@);
            }
        }
        lemma_entries_map(s.drop_last(), i);
    }
}

/// The library's value for a document of `serde_json`.
fn from_value(v: &serde_json::Value) -> (j: Json)
    ensures
        j@ == value_json(*v),
    decreases value_json(*v),
{
    match split_value(v) {
        Split::Null => Json::Null,
        Split::Bool(b) => Json::Bool(b),
        Split::Number(n) => Json::Number(n.clone()),
        Split::Text(s) => Json::Text(s.clone()),
        Split::Array(a) => {
            let mut out: Vec<Json> = Vec::new();
            let mut i: usize = 0;
            let ghost whole = value_json(*v);
            while i < a.len()
                invariant
                    i <= a@.len(),
                    whole == JsonV::Array(Seq::new(a@.len(), |k: int| value_json(a@[k]))),
                    whole == value_json(*v),
                    out@.len() == i,
                    forall|k: int| 0 <= k < i ==> json_view(#[trigger] out@[k]) == value_json(a@[k]),
                decreases a@.len() - i,
            {
                assert(whole->Array_0[i as int] == value_json(a@[i as int]));
                assert(decreases_to!(whole => whole->Array_0[i as int]));
                out.push(from_value(&a[i]));
                i += 1;
            }
            let r = Json::Array(out);
            assert(r@->Array_0 =~= whole->Array_0);
            r
        },
        Split::Object(e) => {
            let mut out: Vec<(String, Json)> = Vec::new();
            let mut i: usize = 0;
            let ghost whole = value_json(*v);
            assert(e@.take(0) =~= Seq::empty());
            while i < e.len()
                invariant
                    i <= e@.len(),
                    distinct_names(e@),
                    whole == JsonV::Object(entries_map(e@)),
                    whole == value_json(*v),
                    members_view(out@) == entries_map(e@.take(i as int)),
                decreases e@.len() - i,
            {
                let (name, item) = e[i];
                proof {
                    lemma_entries_map(e@, i as int);
                    assert(decreases_to!(whole => whole->Object_0[name@]));
                }
                let ghost before = out@;
                out.push((name.clone(), from_value(item)));
                assert(out@.drop_last() =~= before);
                assert(e@.take(i + 1).drop_last() =~= e@.take(i as int));
                i += 1;
            }
            assert(e@.take(i as int) =~= e@);
            Json::Object(out)
        },
    }
}

/// `Number::as_i64` gives the integer that the number is, where 64 bits with a sign can hold it.
pub assume_specification[ serde_json::Number::as_i64 ](n: &serde_json::Number) -> (r: Option<i64>)
    ensures
        r == (match number_int(*n) {
            Some(i) => if i64::MIN <= i <= i64::MAX {
                Some(i as i64)
            } else {
                None
            },
            None => None,
        }),
;

/// A document of `serde_json` in the making: its top level, with finished documents below it.
enum Join {
    Null,
    Bool(bool),
    Int(i64),
    Number(serde_json::Number),
    Text(String),
    Array(Vec<serde_json::Value>),
    Object(Vec<(String, serde_json::Value)>),
}

/// What members of a document in the making hold, by name.
spec fn pairs_map(s: Seq<(String, serde_json::Value)>) -> Map<Seq<char>, JsonV>
    decreases s.len(),
{
    if s.len() == 0 {
        Map::empty()
    } else {
        pairs_map(s.drop_last()).insert(s.last().0@, value_json(s.last().1))
    }
}

/// No two members in the making have the same name.
spec fn distinct_pairs(s: Seq<(String, serde_json::Value)>) -> bool {
    forall|i: int, j: int| 0 <= i < j < s.len() ==> (#[trigger] s[i]).0@ != (#[trigger] s[j]).0@
}

/// The document that a document in the making stands for.
spec fn join_json(p: Join) -> JsonV {
    match p {
        Join::Null => JsonV::Null,
        Join::Bool(b) => JsonV::Bool(b),
        Join::Int(i) => JsonV::Int(i as int),
        Join::Number(n) => number_view(n),
        Join::Text(s) => JsonV::Text(s@),
        Join::Array(v) => JsonV::Array(Seq::new(v@.len(), |i: int| value_json(v@[i]))),
        Join::Object(e) => JsonV::Object(pairs_map(e@)),
    }
}

/// Makes the `serde_json::Value` of each kind. An object is collected into a `serde_json::Map`,
/// which keeps every member, since no name is repeated.
#[verifier::external_body]
fn join_value(p: Join) -> (v: serde_json::Value)
    requires
        p matches Join::Object(e) ==> distinct_pairs(e@),
    ensures
        value_json(v) == join_json(p),
{
    match p {
        Join::Null => serde_json::Value::Null,
        Join::Bool(b) => serde_json::Value::Bool(b),
        Join::Int(i) => serde_json::Value::from(i),
        Join::Number(n) => serde_json::Value::Number(n),
        Join::Text(s) => serde_json::Value::String(s),
        Join::Array(a) => serde_json::Value::Array(a),
        Join::Object(e) => serde_json::Value::Object(e.into_iter().collect()),
    }
}

/// `serde_json::from_slice` reads one document from the bytes. What it reads, and the message
/// where there is none, depend on the bytes alone.
#[verifier::external_body]
fn parse_value(bytes: &[u8]) -> (r: Result<serde_json::Value, String>)
    ensures
        match r {
            Ok(v) => json_read(bytes@) == Ok::<JsonV, Seq<char>>(value_json(v)),
            Err(m) => json_read(bytes@) == Err::<JsonV, Seq<char>>(m@),
        },
{
    serde_json::from_slice(bytes).map_err(|e| e.to_string())
}

/// `serde_json::to_string` prints the document; the text depends on what it holds alone. It stands
/// on one line: ends of lines inside of strings are escaped, and none are put between members.
#[verifier::external_body]
fn print_value(v: &serde_json::Value) -> (s: String)
    ensures
        s@ == json_text(value_json(*v)),
        one_line(s@),
{
    serde_json::to_string(v).unwrap_or_default()
}

/// `Value::as_f64` gives every number, and no other value, as a floating point number, which
/// `Value::from` turns into a number again.
#[verifier::external_body]
fn float_value(v: &serde_json::Value) -> (r: Option<serde_json::Value>)
    ensures
        r is Some <==> value_json(*v) is Int || value_json(*v) is Real,
        r matches Some(f) ==> value_json(f) == float_json(value_json(*v)),
{
    v.as_f64().map(serde_json::Value::from)
}

/// Some member at or behind position `i` has that name.
spec fn named_from(s: Seq<(String, Json)>, name: Seq<char>, i: int) -> bool {
    exists|k: int| i <= k < s.len() && (#[trigger] s[k]).0@ == name
}

/// Whether a member at or behind position `i` has that name.
fn is_named_from(v: &Vec<(String, Json)>, name: &str, i: usize) -> (r: bool)
    ensures
        r == named_from(v@, name@, i as int),
{
    let mut k: usize = i;
    while k < v.len()
        invariant
            i <= k,
            forall|j: int| i <= j < k && j < v@.len() ==> (#[trigger] v@[j]).0@ != name@,
        decreases v@.len() - k,
    {
        if same(v[k].0.as_str(), name) {
            return true;
        }
        k += 1;
    }
    false
}

proof fn lemma_members_from(s: Seq<(String, Json)>, name: Seq<char>, n: int)
    requires
        0 <= n <= s.len(),
        !named_from(s, name, n),
    ensures
        members_view(s).contains_key(name) == members_view(s.take(n)).contains_key(name),
        members_view(s).contains_key(name) ==> members_view(s)[name] == members_view(
            s.take(n),
        )[name],
    decreases s.len(),
{
    if n == s.len() {
        assert(s.take(n) =~= s);
    } else {
        let t = s.drop_last();
        assert(t.take(n) =~= s.take(n));
        assert(s[s.len() - 1].0@ != name);
        assert(!named_from(t, name, n)) by {
            assert forall|k: int| n <= k < t.len() implies (#[trigger] t[k]).0@ != name by {
                assert(s[k].0@ != name);
            }
        }
        lemma_members_from(t, name, n);
    }
}

/// The document of `serde_json` for a value of the library.
fn to_value(j: &Json) -> (v: serde_json::Value)
    ensures
        value_json(v) == j@,
    decreases j,
{
    match j {
        Json::Null => join_value(Join::Null),
        Json::Bool(b) => join_value(Join::Bool(*b)),
        Json::Int(i) => join_value(Join::Int(*i)),
        Json::Number(n) => join_value(Join::Number(n.clone())),
        Json::Text(s) => join_value(Join::Text(s.clone())),
        Json::Array(a) => {
            let mut out: Vec<serde_json::Value> = Vec::new();
            let mut i: usize = 0;
            while i < a.len()
                invariant
                    i <= a@.len(),
                    *j == Json::Array(*a),
                    out@.len() == i,
                    forall|k: int| 0 <= k < i ==> value_json(#[trigger] out@[k]) == json_view(a@[k]),
                decreases a@.len() - i,
            {
                assert(decreases_to!(*j => j->Array_0));
                assert(decreases_to!(*a => a@));
                assert(decreases_to!(a@ => a@[i as int]));
                out.push(to_value(&a[i]));
                i += 1;
            }
            let p = Join::Array(out);
            assert(join_json(p)->Array_0 =~= j@->Array_0);
            join_value(p)
        },
        Json::Object(a) => {
            let mut out: Vec<(String, serde_json::Value)> = Vec::new();
            let mut i: usize = a.len();
            assert(a@.take(i as int) =~= a@);
            while i > 0
                invariant
                    i <= a@.len(),
                    *j == Json::Object(*a),
                    distinct_pairs(out@),
                    forall|k: int|
                        0 <= k < out@.len() ==> named_from(a@, (#[trigger] out@[k]).0@, i as int),
                    forall|name: Seq<char>| #[trigger]
                        pairs_map(out@).contains_key(name) <==> named_from(a@, name, i as int),
                    forall|name: Seq<char>| #[trigger]
                        pairs_map(out@).contains_key(name) ==> members_view(a@).contains_key(name)
                            && pairs_map(out@)[name] == members_view(a@)[name],
                decreases i,
            {
                i -= 1;
                assert(decreases_to!(*j => j->Object_0));
                assert(decreases_to!(*a => a@));
                assert(decreases_to!(a@ => a@[i as int]));
                assert(decreases_to!(a@[i as int] => a@[i as int].1));
                let ghost name = a@[i as int].0@;
                let ghost before = out@;
                let shadowed = is_named_from(a, a[i].0.as_str(), i + 1);
                assert(named_from(a@, name, i as int));
                if !shadowed {
                    out.push((a[i].0.clone(), to_value(&a[i].1)));
                    proof {
                        assert(out@.drop_last() =~= before);
                        lemma_members_from(a@, name, i + 1);
                        assert(a@.take(i + 1).drop_last() =~= a@.take(i as int));
                        assert(members_view(a@.take(i + 1)).contains_key(name));
                        assert(members_view(a@)[name] == a@[i as int].1@);
                        assert(pairs_map(out@) == pairs_map(before).insert(name, a@[i as int].1@));
                    }
                }
                assert forall|k: int| 0 <= k < out@.len() implies named_from(
                    a@,
                    (#[trigger] out@[k]).0@,
                    i as int,
                ) by {
                    if k < before.len() {
                        assert(named_from(a@, before[k].0@, i + 1));
                    }
                }
                assert forall|other: Seq<char>| #[trigger]
                    pairs_map(out@).contains_key(other) <==> named_from(a@, other, i as int) by {
                    assert(pairs_map(before).contains_key(other) <==> named_from(a@, other, i + 1));
                    if named_from(a@, other, i as int) && other != name {
                        assert(named_from(a@, other, i + 1));
                    }
                    if named_from(a@, other, i + 1) {
                        assert(named_from(a@, other, i as int));
                    }
                }
                assert forall|other: Seq<char>| #[trigger]
                    pairs_map(out@).contains_key(other) implies members_view(a@).contains_key(other)
                    && pairs_map(out@)[other] == members_view(a@)[other] by {
                    if shadowed || other != name {
                        assert(pairs_map(before).contains_key(other));
                    }
                }
            }
            proof {
                assert forall|name: Seq<char>| members_view(a@).contains_key(
                    name,
                ) implies named_from(a@, name, 0) by {
                    if !named_from(a@, name, 0) {
                        lemma_members_from(a@, name, 0);
                        assert(a@.take(0) =~= Seq::empty());
                    }
                }
                assert(pairs_map(out@) =~= members_view(a@));
            }
            join_value(Join::Object(out))
        },
    }
}

impl JsonV {
    /// The object without members.
    pub open spec fn object() -> JsonV {
        JsonV::Object(Map::empty())
    }

    /// This object with one member set.
    pub open spec fn with(self, key: Seq<char>, value: JsonV) -> JsonV {
        match self {
            JsonV::Object(m) => JsonV::Object(m.insert(key, value)),
            _ => self,
        }
    }

    /// This object with one member set where there is a value for it.
    pub open spec fn with_some(self, key: Seq<char>, value: Option<JsonV>) -> JsonV {
        match value {
            Some(v) => self.with(key, v),
            None => self,
        }
    }

    /// The member of that name.
    pub open spec fn get(self, key: Seq<char>) -> Option<JsonV> {
        match self {
            JsonV::Object(m) => if m.contains_key(key) {
                Some(m[key])
            } else {
                None
            },
            _ => None,
        }
    }

    /// The text, where this is one.
    pub open spec fn as_text(self) -> Option<Seq<char>> {
        match self {
            JsonV::Text(s) => Some(s),
            _ => None,
        }
    }

    /// The items, where this is an array.
    pub open spec fn as_array(self) -> Option<Seq<JsonV>> {
        match self {
            JsonV::Array(s) => Some(s),
            _ => None,
        }
    }

    /// The truth value, where this is one.
    pub open spec fn as_bool(self) -> Option<bool> {
        match self {
            JsonV::Bool(b) => Some(b),
            _ => None,
        }
    }

    /// The integer, where this is one that 64 bits with a sign can hold.
    pub open spec fn as_i64(self) -> Option<i64> {
        match self {
            JsonV::Int(i) => if i64::MIN <= i <= i64::MAX {
                Some(i as i64)
            } else {
                None
            },
            _ => None,
        }
    }

    /// The text of the member of that name, where it is one.
    pub open spec fn text_at(self, key: Seq<char>) -> Option<Seq<char>> {
        match self.get(key) {
            Some(v) => v.as_text(),
            None => None,
        }
    }
}

impl Json {
    /// The object without members.
    pub fn object() -> (r: Json)
        ensures
            r@ == JsonV::object(),
    {
        let v: Vec<(String, Json)> = Vec::new();
        assert(members_view(v@) == Map::<Seq<char>, JsonV>::empty());
        Json::Object(v)
    }

    /// A text value.
    pub fn text(s: &str) -> (r: Json)
        ensures
            r@ == JsonV::Text(s@),
    {
        Json::Text(s.to_owned())
    }

    /// An array of these values.
    pub fn array(v: Vec<Json>) -> (r: Json)
        ensures
            r@ == JsonV::Array(items_view(v@)),
    {
        let r = Json::Array(v);
        assert(r@->Array_0 =~= items_view(v@));
        r
    }

    /// The array without items.
    pub fn empty_array() -> (r: Json)
        ensures
            r@ == JsonV::Array(Seq::empty()),
    {
        let v: Vec<Json> = Vec::new();
        assert(items_view(v@) =~= Seq::<JsonV>::empty());
        Json::array(v)
    }

    /// An array of one value.
    pub fn singleton(j: Json) -> (r: Json)
        ensures
            r@ == JsonV::Array(seq![j@]),
    {
        let mut v: Vec<Json> = Vec::new();
        v.push(j);
        assert(items_view(v@) =~= seq![j@]);
        Json::array(v)
    }

    /// This object with one member set; a value that is no object stays as it is.
    pub fn with(self, key: &str, value: Json) -> (r: Json)
        ensures
            r@ == self@.with(key@, value@),
    {
        match self {
            Json::Object(v) => {
                let ghost before = v@;
                let mut v = v;
                v.push((key.to_owned(), value));
                assert(v@.drop_last() =~= before);
                assert(members_view(v@) == members_view(before).insert(key@, value@));
                Json::Object(v)
            },
            other => other,
        }
    }

    /// The member of that name.
    pub fn get(&self, key: &str) -> (r: Option<&Json>)
        ensures
            match r {
                Some(v) => self@.get(key@) == Some(v@),
                None => self@.get(key@) is None,
            },
    {
        match self {
            Json::Object(v) => {
                let mut n: usize = v.len();
                assert(v@.take(n as int) =~= v@);
                while n > 0
                    invariant
                        n <= v@.len(),
                        self@ == JsonV::Object(members_view(v@)),
                        members_view(v@).contains_key(key@) == members_view(
                            v@.take(n as int),
                        ).contains_key(key@),
                        members_view(v@).contains_key(key@) ==> members_view(v@)[key@]
                            == members_view(v@.take(n as int))[key@],
                    decreases n,
                {
                    assert(v@.take(n as int).drop_last() =~= v@.take(n - 1));
                    if same(v[n - 1].0.as_str(), key) {
                        return Some(&v[n - 1].1);
                    }
                    n -= 1;
                }
                None
            },
            _ => None,
        }
    }

    /// The text, where this is one.
    pub fn as_str(&self) -> (r: Option<&str>)
        ensures
            match r {
                Some(s) => self@.as_text() == Some(s@),
                None => self@.as_text() is None,
            },
    {
        match self {
            Json::Text(s) => Some(s.as_str()),
            _ => None,
        }
    }

    /// The text of the member of that name, where it is one.
    pub fn text_at(&self, key: &str) -> (r: Option<&str>)
        ensures
            match r {
                Some(s) => self@.text_at(key@) == Some(s@),
                None => self@.text_at(key@) is None,
            },
    {
        match self.get(key) {
            Some(v) => v.as_str(),
            None => None,
        }
    }

    /// The items, where this is an array.
    pub fn as_array(&self) -> (r: Option<&Vec<Json>>)
        ensures
            match r {
                Some(v) => self@.as_array() == Some(items_view(v@)),
                None => self@.as_array() is None,
            },
    {
        match self {
            Json::Array(v) => {
                assert(self@->Array_0 =~= items_view(v@));
                Some(v)
            },
            _ => None,
        }
    }

    /// The truth value, where this is one.
    pub fn as_bool(&self) -> (r: Option<bool>)
        ensures
            r == self@.as_bool(),
    {
        match self {
            Json::Bool(b) => Some(*b),
            _ => None,
        }
    }

    /// The integer, where this is one that 64 bits with a sign can hold.
    pub fn as_i64(&self) -> (r: Option<i64>)
        ensures
            r == self@.as_i64(),
    {
        match self {
            Json::Int(i) => Some(*i),
            Json::Number(n) => n.as_i64(),
            _ => None,
        }
    }

    /// The number as a floating point number, where this is a number.
    pub fn as_float(&self) -> (r: Option<Json>)
        ensures
            r is Some <==> self@ is Int || self@ is Real,
            r matches Some(f) ==> f@ == float_json(self@),
    {
        match float_value(&to_value(self)) {
            Some(v) => Some(from_value(&v)),
            None => None,
        }
    }

    /// The compact text of this value.
    pub fn print(&self) -> (s: String)
        ensures
            s@ == json_text(self@),
            one_line(s@),
    {
        print_value(&to_value(self))
    }

    /// Reads one value from the bytes.
    pub fn parse(bytes: &[u8]) -> (r: Result<Json, String>)
        ensures
            match r {
                Ok(j) => parsed_json(bytes@) == Some(j@),
                Err(m) => parsed_json(bytes@) is None && m@ == parse_complaint(bytes@),
            },
    {
        match parse_value(bytes) {
            Ok(v) => Ok(from_value(&v)),
            Err(m) => Err(m),
        }
    }
}

/// The same value again.
fn copied(j: &Json) -> (r: Json)
    ensures
        r@ == j@,
    decreases j,
{
    match j {
        Json::Null => Json::Null,
        Json::Bool(b) => Json::Bool(*b),
        Json::Int(i) => Json::Int(*i),
        Json::Number(n) => Json::Number(n.clone()),
        Json::Text(s) => Json::Text(s.clone()),
        Json::Array(a) => {
            let mut out: Vec<Json> = Vec::new();
            let mut i: usize = 0;
            while i < a.len()
                invariant
                    i <= a@.len(),
                    *j == Json::Array(*a),
                    out@.len() == i,
                    forall|k: int| 0 <= k < i ==> json_view(#[trigger] out@[k]) == json_view(a@[k]),
                decreases a@.len() - i,
            {
                assert(decreases_to!(*j => j->Array_0));
                assert(decreases_to!(*a => a@));
                assert(decreases_to!(a@ => a@[i as int]));
                out.push(copied(&a[i]));
                i += 1;
            }
            let r = Json::Array(out);
            assert(r@->Array_0 =~= j@->Array_0);
            r
        },
        Json::Object(a) => {
            let mut out: Vec<(String, Json)> = Vec::new();
            let mut i: usize = 0;
            assert(a@.take(0) =~= Seq::empty());
            while i < a.len()
                invariant
                    i <= a@.len(),
                    *j == Json::Object(*a),
                    members_view(out@) == members_view(a@.take(i as int)),
                decreases a@.len() - i,
            {
                assert(decreases_to!(*j => j->Object_0));
                assert(decreases_to!(*a => a@));
                assert(decreases_to!(a@ => a@[i as int]));
                assert(decreases_to!(a@[i as int] => a@[i as int].1));
                let ghost before = out@;
                out.push((a[i].0.clone(), copied(&a[i].1)));
                assert(out@.drop_last() =~= before);
                assert(a@.take(i + 1).drop_last() =~= a@.take(i as int));
                i += 1;
            }
            assert(a@.take(i as int) =~= a@);
            Json::Object(out)
        },
    }
}

impl Clone for Json {
    fn clone(&self) -> (r: Json)
        ensures
            r@ == self@,
    {
        copied(self)
    }
}

} // verus!
