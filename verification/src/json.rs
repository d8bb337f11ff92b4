//! JSON values: the shape that every protocol message is read from and written to.
//!
//! A value is modelled by a `JsonView`. An object is a sequence of fields; every
//! function of this module keeps its keys in ascending order, each at most once.
use crate::text::{before, chars, precedes, same};
use vstd::prelude::*;

verus! {

/// A number: an integer where 64 bits hold it, otherwise the decimal text of a float.
#[derive(Debug, PartialEq, Eq)]
pub enum Number {
    PosInt(u64),
    NegInt(i64),
    Float(String),
}

#[derive(Debug, PartialEq, Eq)]
pub enum Json {
    Null,
    Bool(bool),
    Number(Number),
    Text(String),
    Array(Vec<Json>),
    Object(Vec<(String, Json)>),
}

pub enum NumberView {
    PosInt(u64),
    NegInt(i64),
    Float(Seq<char>),
}

pub enum JsonView {
    Null,
    Bool(bool),
    Number(NumberView),
    Text(Seq<char>),
    Array(Seq<JsonView>),
    Object(Seq<(Seq<char>, JsonView)>),
}

/// The fields of an object.
pub type Fields = Seq<(Seq<char>, JsonView)>;

impl View for Number {
    type V = NumberView;

    open spec fn view(&self) -> NumberView {
        match self {
            Number::PosInt(n) => NumberView::PosInt(*n),
            Number::NegInt(n) => NumberView::NegInt(*n),
            Number::Float(s) => NumberView::Float(s@),
        }
    }
}

pub open spec fn json_view(v: Json) -> JsonView
    decreases v,
{
    match v {
        Json::Null => JsonView::Null,
        Json::Bool(b) => JsonView::Bool(b),
        Json::Number(n) => JsonView::Number(n@),
        Json::Text(s) => JsonView::Text(s@),
        Json::Array(items) => JsonView::Array(
            Seq::new(
                items@.len(),
                |i: int|
                    if 0 <= i < items@.len() {
                        json_view(items@[i])
                    } else {
                        JsonView::Null
                    },
            ),
        ),
        Json::Object(fields) => JsonView::Object(
            Seq::new(
                fields@.len(),
                |i: int|
                    if 0 <= i < fields@.len() {
                        (fields@[i].0@, json_view(fields@[i].1))
                    } else {
                        (Seq::empty(), JsonView::Null)
                    },
            ),
        ),
    }
}

impl View for Json {
    type V = JsonView;

    open spec fn view(&self) -> JsonView {
        json_view(*self)
    }
}

impl DeepView for Json {
    type V = JsonView;

    open spec fn deep_view(&self) -> JsonView {
        json_view(*self)
    }
}

/// An array is viewed as the sequence of its items' views.
pub broadcast proof fn array_view(items: Vec<Json>)
    ensures
        #[trigger] json_view(Json::Array(items)) == JsonView::Array(items.deep_view()),
{
    assert(json_view(Json::Array(items))->Array_0 =~= items.deep_view());
}

/// An object is viewed as the sequence of its fields' views.
pub broadcast proof fn object_view(fields: Vec<(String, Json)>)
    ensures
        #[trigger] json_view(Json::Object(fields)) == JsonView::Object(fields.deep_view()),
{
    assert(json_view(Json::Object(fields))->Object_0 =~= fields.deep_view());
}

pub broadcast group group_json_views {
    array_view,
    object_view,
}

// ---------------------------------------------------------------------------------------
// Fields
// ---------------------------------------------------------------------------------------
/// The value of the first field with that key.
pub open spec fn lookup(fields: Fields, key: Seq<char>) -> Option<JsonView>
    decreases fields.len(),
{
    if fields.len() == 0 {
        None
    } else if fields[0].0 == key {
        Some(fields[0].1)
    } else {
        lookup(fields.skip(1), key)
    }
}

/// The fields with the value of the first field of that key replaced.
pub open spec fn replace(fields: Fields, key: Seq<char>, value: JsonView) -> Fields
    decreases fields.len(),
{
    if fields.len() == 0 {
        fields
    } else if fields[0].0 == key {
        fields.update(0, (key, value))
    } else {
        seq![fields[0]] + replace(fields.skip(1), key, value)
    }
}

/// The fields with a new one in front of the first key that follows it.
pub open spec fn place(fields: Fields, key: Seq<char>, value: JsonView) -> Fields
    decreases fields.len(),
{
    if fields.len() == 0 || before(key, fields[0].0) {
        seq![(key, value)] + fields
    } else {
        seq![fields[0]] + place(fields.skip(1), key, value)
    }
}

pub open spec fn insert(fields: Fields, key: Seq<char>, value: JsonView) -> Fields {
    if lookup(fields, key) is Some {
        replace(fields, key, value)
    } else {
        place(fields, key, value)
    }
}

proof fn lookup_at(fields: Fields, key: Seq<char>, i: int)
    requires
        0 <= i < fields.len(),
        fields[i].0 == key,
        forall|j: int| 0 <= j < i ==> (#[trigger] fields[j]).0 != key,
    ensures
        lookup(fields, key) == Some(fields[i].1),
        forall|value: JsonView| #[trigger]
            replace(fields, key, value) == fields.update(i, (key, value)),
    decreases i,
{
    if i > 0 {
        let rest = fields.skip(1);
        assert forall|j: int| 0 <= j < i - 1 implies (#[trigger] rest[j]).0 != key by {
            assert(rest[j] == fields[j + 1]);
        }
        lookup_at(rest, key, i - 1);
        assert forall|value: JsonView| #[trigger]
            replace(fields, key, value) == fields.update(i, (key, value)) by {
            assert(replace(rest, key, value) == rest.update(i - 1, (key, value)));
            assert(seq![fields[0]] + rest.update(i - 1, (key, value)) =~= fields.update(
                i,
                (key, value),
            ));
        }
    }
}

proof fn lookup_absent(fields: Fields, key: Seq<char>)
    requires
        forall|j: int| 0 <= j < fields.len() ==> (#[trigger] fields[j]).0 != key,
    ensures
        lookup(fields, key) is None,
    decreases fields.len(),
{
    if fields.len() > 0 {
        let rest = fields.skip(1);
        assert forall|j: int| 0 <= j < rest.len() implies (#[trigger] rest[j]).0 != key by {
            assert(rest[j] == fields[j + 1]);
        }
        lookup_absent(rest, key);
    }
}

/// The first field with a key that occurs.
pub proof fn first_field(fields: Fields, key: Seq<char>) -> (k: int)
    requires
        lookup(fields, key) is Some,
    ensures
        0 <= k < fields.len(),
        fields[k].0 == key,
        lookup(fields, key) == Some(fields[k].1),
        forall|value: JsonView| #[trigger]
            replace(fields, key, value) == fields.update(k, (key, value)),
    decreases fields.len(),
{
    if fields[0].0 == key {
        lookup_at(fields, key, 0);
        0
    } else {
        let k = first_field(fields.skip(1), key) + 1;
        assert forall|value: JsonView| #[trigger]
            replace(fields, key, value) == fields.update(k, (key, value)) by {
            let rest = fields.skip(1);
            assert(replace(rest, key, value) == rest.update(k - 1, (key, value)));
            assert(seq![fields[0]] + rest.update(k - 1, (key, value)) =~= fields.update(
                k,
                (key, value),
            ));
        }
        k
    }
}

/// Whether a key occurs depends on the keys alone.
pub proof fn same_keys(a: Fields, b: Fields, key: Seq<char>)
    requires
        a.len() == b.len(),
        forall|i: int| 0 <= i < a.len() ==> (#[trigger] a[i]).0 == b[i].0,
    ensures
        (lookup(a, key) is None) == (lookup(b, key) is None),
    decreases a.len(),
{
    if a.len() > 0 {
        assert(a[0].0 == b[0].0);
        assert forall|i: int| 0 <= i < a.skip(1).len() implies (#[trigger] a.skip(1)[i]).0
            == b.skip(1)[i].0 by {
            assert(a[i + 1].0 == b[i + 1].0);
        }
        same_keys(a.skip(1), b.skip(1), key);
    }
}

/// Assigning a field what it holds changes nothing.
pub proof fn insert_same(fields: Fields, key: Seq<char>)
    requires
        lookup(fields, key) is Some,
    ensures
        insert(fields, key, lookup(fields, key)->0) == fields,
    decreases fields.len(),
{
    if fields[0].0 == key {
        assert(fields.update(0, (key, fields[0].1)) =~= fields);
    } else {
        insert_same(fields.skip(1), key);
        assert(seq![fields[0]] + fields.skip(1) =~= fields);
    }
}

proof fn place_at(fields: Fields, key: Seq<char>, value: JsonView, i: int)
    requires
        0 <= i <= fields.len(),
        forall|j: int| 0 <= j < i ==> !before(key, (#[trigger] fields[j]).0),
        i < fields.len() ==> before(key, fields[i].0),
    ensures
        place(fields, key, value) == fields.insert(i, (key, value)),
    decreases i,
{
    if i == 0 {
        assert(seq![(key, value)] + fields =~= fields.insert(0, (key, value)));
    } else {
        let rest = fields.skip(1);
        assert forall|j: int| 0 <= j < i - 1 implies !before(key, (#[trigger] rest[j]).0) by {
            assert(rest[j] == fields[j + 1]);
        }
        if i < fields.len() {
            assert(rest[i - 1] == fields[i]);
        }
        place_at(rest, key, value, i - 1);
        assert(!before(key, fields[0].0));
        assert(seq![fields[0]] + rest.insert(i - 1, (key, value)) =~= fields.insert(
            i,
            (key, value),
        ));
    }
}

// ---------------------------------------------------------------------------------------
// The model of a value
// ---------------------------------------------------------------------------------------
/// A token of a path, with `~1` read as `/` and `~0` as `~`.
pub open spec fn unescape(s: Seq<char>) -> Seq<char>
    decreases s.len(),
{
    if s.len() == 0 {
        s
    } else if s.len() >= 2 && s[0] == '~' && s[1] == '1' {
        seq!['/'] + unescape(s.skip(2))
    } else if s.len() >= 2 && s[0] == '~' && s[1] == '0' {
        seq!['~'] + unescape(s.skip(2))
    } else {
        seq![s[0]] + unescape(s.skip(1))
    }
}

/// The position of the first slash, or the length where there is none.
pub open spec fn next_slash(s: Seq<char>) -> nat
    decreases s.len(),
{
    if s.len() == 0 || s[0] == '/' {
        0
    } else {
        1 + next_slash(s.skip(1))
    }
}

pub proof fn next_slash_bound(s: Seq<char>)
    ensures
        next_slash(s) <= s.len(),
        next_slash(s) < s.len() ==> s[next_slash(s) as int] == '/',
        forall|i: int| 0 <= i < next_slash(s) ==> s[i] != '/',
    decreases s.len(),
{
    if s.len() > 0 && s[0] != '/' {
        let t = s.skip(1);
        next_slash_bound(t);
        assert forall|i: int| 0 <= i < next_slash(s) implies s[i] != '/' by {
            if i > 0 {
                assert(t[i - 1] == s[i]);
            }
        }
    }
}

/// An array index: decimal digits without a leading zero.
pub open spec fn index_token(s: Seq<char>) -> Option<u64> {
    if s.len() > 1 && s[0] == '0' {
        None
    } else {
        crate::text::parsed_number(s)
    }
}

impl JsonView {
    pub open spec fn text(s: Seq<char>) -> JsonView {
        JsonView::Text(s)
    }

    pub open spec fn uint(n: u64) -> JsonView {
        JsonView::Number(NumberView::PosInt(n))
    }

    /// The object without fields.
    pub open spec fn empty() -> JsonView {
        JsonView::Object(Seq::empty())
    }

    pub open spec fn get(self, key: Seq<char>) -> Option<JsonView> {
        match self {
            JsonView::Object(fields) => lookup(fields, key),
            _ => None,
        }
    }

    /// The value of a field, or null where there is none.
    pub open spec fn field(self, key: Seq<char>) -> JsonView {
        match self.get(key) {
            Some(v) => v,
            None => JsonView::Null,
        }
    }

    pub open spec fn has(self, key: Seq<char>) -> bool {
        self.get(key) is Some
    }

    /// Whether a field of the value can be assigned: null counts as an empty object.
    pub open spec fn assignable(self) -> bool {
        self is Null || self is Object
    }

    /// The value with a field assigned.
    pub open spec fn set(self, key: Seq<char>, value: JsonView) -> JsonView {
        match self {
            JsonView::Null => JsonView::Object(seq![(key, value)]),
            JsonView::Object(fields) => JsonView::Object(insert(fields, key, value)),
            _ => self,
        }
    }

    pub open spec fn as_str(self) -> Option<Seq<char>> {
        match self {
            JsonView::Text(s) => Some(s),
            _ => None,
        }
    }

    pub open spec fn as_u64(self) -> Option<u64> {
        match self {
            JsonView::Number(NumberView::PosInt(n)) => Some(n),
            _ => None,
        }
    }

    /// The integer, where a signed one of 64 bits holds it.
    pub open spec fn as_i64(self) -> Option<i64> {
        match self {
            JsonView::Number(NumberView::PosInt(n)) => if n <= i64::MAX {
                Some(n as i64)
            } else {
                None
            },
            JsonView::Number(NumberView::NegInt(n)) => Some(n),
            _ => None,
        }
    }

    pub open spec fn sint(n: int) -> JsonView {
        if n < 0 {
            JsonView::Number(NumberView::NegInt(n as i64))
        } else {
            JsonView::Number(NumberView::PosInt(n as u64))
        }
    }

    pub open spec fn as_array(self) -> Option<Seq<JsonView>> {
        match self {
            JsonView::Array(items) => Some(items),
            _ => None,
        }
    }

    pub open spec fn as_object(self) -> Option<Fields> {
        match self {
            JsonView::Object(fields) => Some(fields),
            _ => None,
        }
    }

    pub open spec fn get_str(self, key: Seq<char>) -> Option<Seq<char>> {
        match self.get(key) {
            Some(v) => v.as_str(),
            None => None,
        }
    }

    /// The text of a field, or the empty text where there is none.
    pub open spec fn str_or_empty(self, key: Seq<char>) -> Seq<char> {
        match self.get_str(key) {
            Some(s) => s,
            None => Seq::empty(),
        }
    }

    pub open spec fn get_u64(self, key: Seq<char>) -> Option<u64> {
        match self.get(key) {
            Some(v) => v.as_u64(),
            None => None,
        }
    }

    pub open spec fn get_array(self, key: Seq<char>) -> Option<Seq<JsonView>> {
        match self.get(key) {
            Some(v) => v.as_array(),
            None => None,
        }
    }

    pub open spec fn get_object(self, key: Seq<char>) -> Option<Fields> {
        match self.get(key) {
            Some(v) => v.as_object(),
            None => None,
        }
    }

    /// The field, unless it is null.
    pub open spec fn present(self, key: Seq<char>) -> Option<JsonView> {
        match self.get(key) {
            Some(v) => if v is Null {
                None
            } else {
                Some(v)
            },
            None => None,
        }
    }

    /// What one token of a path addresses: a field of an object or an item of an array.
    pub open spec fn step(self, token: Seq<char>) -> Option<JsonView> {
        match self {
            JsonView::Object(fields) => lookup(fields, token),
            JsonView::Array(items) => match index_token(token) {
                Some(i) => if i < items.len() {
                    Some(items[i as int])
                } else {
                    None
                },
                None => None,
            },
            _ => None,
        }
    }

    /// What a path addresses. A path is empty, or a slash and a token, again and again.
    pub open spec fn pointer(self, path: Seq<char>) -> Option<JsonView>
        decreases path.len(),
    {
        if path.len() == 0 {
            Some(self)
        } else if path[0] != '/' {
            None
        } else {
            let rest = path.skip(1);
            let n = next_slash(rest);
            proof {
                next_slash_bound(rest);
            }
            match self.step(unescape(rest.take(n as int))) {
                Some(next) => next.pointer(rest.skip(n as int)),
                None => None,
            }
        }
    }

    /// The value with what a path addresses replaced, where it addresses something.
    pub open spec fn put(self, path: Seq<char>, value: JsonView) -> Option<JsonView>
        decreases path.len(),
    {
        if path.len() == 0 {
            Some(value)
        } else if path[0] != '/' {
            None
        } else {
            let rest = path.skip(1);
            let n = next_slash(rest);
            proof {
                next_slash_bound(rest);
            }
            let token = unescape(rest.take(n as int));
            match self.step(token) {
                Some(next) => match next.put(rest.skip(n as int), value) {
                    Some(changed) => Some(self.with_step(token, changed)),
                    None => None,
                },
                None => None,
            }
        }
    }

    /// The value with what one token addresses replaced.
    pub open spec fn with_step(self, token: Seq<char>, value: JsonView) -> JsonView {
        match self {
            JsonView::Object(fields) => JsonView::Object(insert(fields, token, value)),
            JsonView::Array(items) => JsonView::Array(
                items.update(index_token(token)->0 as int, value),
            ),
            _ => self,
        }
    }

    /// Whether the value holds no float, each integer in its own variant, and the keys of
    /// every object in ascending order.
    pub open spec fn plain(self) -> bool
        decreases self,
    {
        match self {
            JsonView::Number(NumberView::NegInt(n)) => n < 0,
            JsonView::Number(NumberView::Float(_)) => false,
            JsonView::Array(items) => forall|i: int|
                0 <= i < items.len() ==> (#[trigger] items[i]).plain(),
            JsonView::Object(fields) => ascending(fields) && forall|i: int|
                0 <= i < fields.len() ==> (#[trigger] fields[i]).1.plain(),
            _ => true,
        }
    }

    /// Whether arrays and objects are nested no deeper than `n`.
    pub open spec fn within(self, n: nat) -> bool
        decreases self,
    {
        match self {
            JsonView::Array(items) => n > 0 && forall|i: int|
                0 <= i < items.len() ==> (#[trigger] items[i]).within((n - 1) as nat),
            JsonView::Object(fields) => n > 0 && forall|i: int|
                0 <= i < fields.len() ==> (#[trigger] fields[i]).1.within((n - 1) as nat),
            _ => true,
        }
    }
}

// ---------------------------------------------------------------------------------------
// Reading
// ---------------------------------------------------------------------------------------
/// The position of the first field with that key.
fn position(fields: &Vec<(String, Json)>, key: &str) -> (r: Option<usize>)
    ensures
        match r {
            Some(i) => {
                &&& i < fields@.len()
                &&& fields@[i as int].0@ == key@
                &&& lookup(fields.deep_view(), key@) == Some(fields@[i as int].1@)
                &&& forall|value: JsonView| #[trigger]
                    replace(fields.deep_view(), key@, value) == fields.deep_view().update(
                        i as int,
                        (key@, value),
                    )
            },
            None => lookup(fields.deep_view(), key@) is None,
        },
{
    let mut i: usize = 0;
    while i < fields.len()
        invariant
            i <= fields@.len(),
            forall|j: int| 0 <= j < i ==> (#[trigger] fields.deep_view()[j]).0 != key@,
        decreases fields@.len() - i,
    {
        if same(fields[i].0.as_str(), key) {
            proof {
                lookup_at(fields.deep_view(), key@, i as int);
            }
            return Some(i);
        }
        i += 1;
    }
    proof {
        lookup_absent(fields.deep_view(), key@);
    }
    None
}

impl Json {
    /// The object without fields.
    pub fn empty() -> (r: Json)
        ensures
            r@ == JsonView::empty(),
    {
        broadcast use group_json_views;

        let r = Json::Object(Vec::new());
        assert(r@->Object_0 =~= Seq::empty());
        r
    }

    pub fn text(s: &str) -> (r: Json)
        ensures
            r@ == JsonView::text(s@),
    {
        Json::Text(s.to_owned())
    }

    pub fn uint(n: u64) -> (r: Json)
        ensures
            r@ == JsonView::uint(n),
    {
        Json::Number(Number::PosInt(n))
    }

    pub fn array(items: Vec<Json>) -> (r: Json)
        ensures
            r@ == JsonView::Array(items.deep_view()),
    {
        broadcast use group_json_views;

        Json::Array(items)
    }

    pub fn is_null(&self) -> (r: bool)
        ensures
            r == (self@ is Null),
    {
        match self {
            Json::Null => true,
            _ => false,
        }
    }

    pub fn is_object(&self) -> (r: bool)
        ensures
            r == (self@ is Object),
    {
        match self {
            Json::Object(_) => true,
            _ => false,
        }
    }

    pub fn is_assignable(&self) -> (r: bool)
        ensures
            r == self@.assignable(),
    {
        match self {
            Json::Null => true,
            Json::Object(_) => true,
            _ => false,
        }
    }

    pub fn get(&self, key: &str) -> (r: Option<&Json>)
        ensures
            r.deep_view() == self@.get(key@),
            r is Some ==> self is Object,
    {
        broadcast use group_json_views;

        match self {
            Json::Object(fields) => match position(fields, key) {
                Some(i) => Some(&fields[i].1),
                None => None,
            },
            _ => None,
        }
    }

    /// The field, unless it is null.
    pub fn present(&self, key: &str) -> (r: Option<&Json>)
        ensures
            r.deep_view() == self@.present(key@),
    {
        match self.get(key) {
            Some(v) => if v.is_null() {
                None
            } else {
                Some(v)
            },
            None => None,
        }
    }

    pub fn has(&self, key: &str) -> (r: bool)
        ensures
            r == self@.has(key@),
    {
        self.get(key).is_some()
    }

    pub fn as_str(&self) -> (r: Option<&str>)
        ensures
            r.deep_view() == self@.as_str(),
    {
        match self {
            Json::Text(s) => Some(s.as_str()),
            _ => None,
        }
    }

    pub fn as_u64(&self) -> (r: Option<u64>)
        ensures
            r == self@.as_u64(),
    {
        match self {
            Json::Number(Number::PosInt(n)) => Some(*n),
            _ => None,
        }
    }

    /// The integer, where a signed one of 64 bits holds it.
    pub fn as_i64(&self) -> (r: Option<i64>)
        ensures
            r == self@.as_i64(),
    {
        match self {
            Json::Number(Number::PosInt(n)) => if *n <= 0x7fff_ffff_ffff_ffff {
                Some(*n as i64)
            } else {
                None
            },
            Json::Number(Number::NegInt(n)) => Some(*n),
            _ => None,
        }
    }

    pub fn sint(n: i64) -> (r: Json)
        ensures
            r@ == JsonView::sint(n as int),
    {
        if n < 0 {
            Json::Number(Number::NegInt(n))
        } else {
            Json::Number(Number::PosInt(n as u64))
        }
    }

    pub fn as_array(&self) -> (r: Option<&Vec<Json>>)
        ensures
            r.deep_view() == self@.as_array(),
            r is Some ==> *self == Json::Array(*r->0),
    {
        broadcast use group_json_views;

        match self {
            Json::Array(items) => Some(items),
            _ => None,
        }
    }

    pub fn as_object(&self) -> (r: Option<&Vec<(String, Json)>>)
        ensures
            r.deep_view() == self@.as_object(),
            r is Some ==> *self == Json::Object(*r->0),
    {
        broadcast use group_json_views;

        match self {
            Json::Object(fields) => Some(fields),
            _ => None,
        }
    }

    pub fn get_str(&self, key: &str) -> (r: Option<&str>)
        ensures
            r.deep_view() == self@.get_str(key@),
    {
        match self.get(key) {
            Some(v) => v.as_str(),
            None => None,
        }
    }

    /// The text of a field, or the empty text where there is none.
    pub fn str_or_empty(&self, key: &str) -> (r: &str)
        ensures
            r@ == self@.str_or_empty(key@),
    {
        match self.get_str(key) {
            Some(s) => s,
            None => {
                proof {
                    reveal_strlit("");
                }
                assert(""@ =~= Seq::empty());
                ""
            },
        }
    }

    pub fn get_u64(&self, key: &str) -> (r: Option<u64>)
        ensures
            r == self@.get_u64(key@),
    {
        match self.get(key) {
            Some(v) => v.as_u64(),
            None => None,
        }
    }

    pub fn get_array(&self, key: &str) -> (r: Option<&Vec<Json>>)
        ensures
            r.deep_view() == self@.get_array(key@),
    {
        match self.get(key) {
            Some(v) => v.as_array(),
            None => None,
        }
    }

    pub fn get_object(&self, key: &str) -> (r: Option<&Vec<(String, Json)>>)
        ensures
            r.deep_view() == self@.get_object(key@),
    {
        match self.get(key) {
            Some(v) => v.as_object(),
            None => None,
        }
    }
}

impl Clone for Number {
    fn clone(&self) -> (r: Number)
        ensures
            r@ == self@,
    {
        match self {
            Number::PosInt(n) => Number::PosInt(*n),
            Number::NegInt(n) => Number::NegInt(*n),
            Number::Float(s) => Number::Float(s.clone()),
        }
    }
}

pub proof fn item_is_smaller(v: Json, i: int)
    requires
        v is Array,
        0 <= i < v->Array_0@.len(),
    ensures
        decreases_to!(v => v->Array_0@[i]),
{
    assert(decreases_to!(v => v->Array_0));
    assert(decreases_to!(v->Array_0 => v->Array_0@));
    assert(decreases_to!(v->Array_0@ => v->Array_0@[i]));
}

pub proof fn field_is_smaller(v: Json, i: int)
    requires
        v is Object,
        0 <= i < v->Object_0@.len(),
    ensures
        decreases_to!(v => v->Object_0@[i].1),
{
    assert(decreases_to!(v => v->Object_0));
    assert(decreases_to!(v->Object_0 => v->Object_0@));
    assert(decreases_to!(v->Object_0@ => v->Object_0@[i]));
    assert(decreases_to!(v->Object_0@[i] => v->Object_0@[i].1));
}

/// A number without the sign of a zero: zeros compare as one.
pub open spec fn levelled_number(number: NumberView) -> NumberView {
    match number {
        NumberView::Float(text) => if text == "-0.0"@ {
            NumberView::Float("0.0"@)
        } else {
            number
        },
        _ => number,
    }
}

/// A value with all its numbers levelled.
pub open spec fn levelled(value: JsonView) -> JsonView
    decreases value,
{
    match value {
        JsonView::Number(number) => JsonView::Number(levelled_number(number)),
        JsonView::Array(items) => JsonView::Array(levelled_items(items)),
        JsonView::Object(fields) => JsonView::Object(levelled_fields(fields)),
        _ => value,
    }
}

pub open spec fn levelled_items(items: Seq<JsonView>) -> Seq<JsonView>
    decreases items,
{
    Seq::new(
        items.len(),
        |i: int|
            if 0 <= i < items.len() {
                levelled(items[i])
            } else {
                JsonView::Null
            },
    )
}

pub open spec fn levelled_fields(fields: Fields) -> Fields
    decreases fields,
{
    Seq::new(
        fields.len(),
        |i: int|
            if 0 <= i < fields.len() {
                (fields[i].0, levelled(fields[i].1))
            } else {
                (Seq::empty(), JsonView::Null)
            },
    )
}

/// Whether two values compare equal.
pub open spec fn alike(a: JsonView, b: JsonView) -> bool {
    levelled(a) == levelled(b)
}

impl Number {
    /// Whether two numbers compare equal. Floats are told apart by how they are written, but
    /// for the sign of a zero.
    pub fn same(&self, other: &Number) -> (r: bool)
        ensures
            r == (levelled_number(self@) == levelled_number(other@)),
    {
        match (self, other) {
            (Number::PosInt(a), Number::PosInt(b)) => *a == *b,
            (Number::NegInt(a), Number::NegInt(b)) => *a == *b,
            (Number::Float(a), Number::Float(b)) => same(level(a), level(b)),
            _ => false,
        }
    }
}

/// The text of a float without the sign of a zero.
fn level(text: &str) -> (r: &str)
    ensures
        NumberView::Float(r@) == levelled_number(NumberView::Float(text@)),
{
    if same(text, "-0.0") {
        "0.0"
    } else {
        text
    }
}

impl Json {
    /// Whether two values compare equal.
    pub fn same(&self, other: &Json) -> (r: bool)
        ensures
            r == alike(self@, other@),
        decreases self,
    {
        broadcast use group_json_views;

        match (self, other) {
            (Json::Null, Json::Null) => true,
            (Json::Bool(a), Json::Bool(b)) => *a == *b,
            (Json::Number(a), Json::Number(b)) => a.same(b),
            (Json::Text(a), Json::Text(b)) => same(a.as_str(), b.as_str()),
            (Json::Array(a), Json::Array(b)) => {
                let ghost left = levelled_items(a.deep_view());
                let ghost right = levelled_items(b.deep_view());
                assert(levelled(self@) == JsonView::Array(left));
                assert(levelled(other@) == JsonView::Array(right));
                if a.len() != b.len() {
                    assert(left.len() != right.len());
                    return false;
                }
                let mut i: usize = 0;
                while i < a.len()
                    invariant
                        i <= a@.len(),
                        a@.len() == b@.len(),
                        *self == Json::Array(*a),
                        *other == Json::Array(*b),
                        left == levelled_items(a.deep_view()),
                        right == levelled_items(b.deep_view()),
                        levelled(self@) == JsonView::Array(left),
                        levelled(other@) == JsonView::Array(right),
                        forall|j: int| 0 <= j < i ==> (#[trigger] left[j]) == right[j],
                    decreases a@.len() - i,
                {
                    proof {
                        item_is_smaller(*self, i as int);
                        assert(a.deep_view()[i as int] == a@[i as int]@);
                        assert(b.deep_view()[i as int] == b@[i as int]@);
                    }
                    if !a[i].same(&b[i]) {
                        assert(left[i as int] != right[i as int]);
                        return false;
                    }
                    assert(left[i as int] == right[i as int]);
                    i += 1;
                }
                assert(left =~= right);
                true
            },
            (Json::Object(a), Json::Object(b)) => {
                let ghost left = levelled_fields(a.deep_view());
                let ghost right = levelled_fields(b.deep_view());
                assert(levelled(self@) == JsonView::Object(left));
                assert(levelled(other@) == JsonView::Object(right));
                if a.len() != b.len() {
                    assert(left.len() != right.len());
                    return false;
                }
                let mut i: usize = 0;
                while i < a.len()
                    invariant
                        i <= a@.len(),
                        a@.len() == b@.len(),
                        *self == Json::Object(*a),
                        *other == Json::Object(*b),
                        left == levelled_fields(a.deep_view()),
                        right == levelled_fields(b.deep_view()),
                        levelled(self@) == JsonView::Object(left),
                        levelled(other@) == JsonView::Object(right),
                        forall|j: int| 0 <= j < i ==> (#[trigger] left[j]) == right[j],
                    decreases a@.len() - i,
                {
                    proof {
                        field_is_smaller(*self, i as int);
                        assert(a.deep_view()[i as int] == (a@[i as int].0@, a@[i as int].1@));
                        assert(b.deep_view()[i as int] == (b@[i as int].0@, b@[i as int].1@));
                    }
                    if !same(a[i].0.as_str(), b[i].0.as_str()) || !a[i].1.same(&b[i].1) {
                        assert(left[i as int] != right[i as int]);
                        return false;
                    }
                    assert(left[i as int] == right[i as int]);
                    i += 1;
                }
                assert(left =~= right);
                true
            },
            _ => false,
        }
    }
}

impl Clone for Json {
    fn clone(&self) -> (r: Json)
        ensures
            r@ == self@,
        decreases self,
    {
        broadcast use group_json_views;

        match self {
            Json::Null => Json::Null,
            Json::Bool(b) => Json::Bool(*b),
            Json::Number(n) => Json::Number(n.clone()),
            Json::Text(s) => Json::Text(s.clone()),
            Json::Array(items) => {
                let mut out: Vec<Json> = Vec::new();
                let mut i: usize = 0;
                while i < items.len()
                    invariant
                        i <= items@.len(),
                        *self == Json::Array(*items),
                        out@.len() == i,
                        forall|j: int| 0 <= j < i ==> json_view(#[trigger] out@[j]) == json_view(items@[j]),
                    decreases items@.len() - i,
                {
                    proof {
                        item_is_smaller(*self, i as int);
                    }
                    let item = items[i].clone();
                    out.push(item);
                    i += 1;
                }
                assert(out.deep_view() =~= items.deep_view());
                Json::Array(out)
            },
            Json::Object(fields) => {
                let mut out: Vec<(String, Json)> = Vec::new();
                let mut i: usize = 0;
                while i < fields.len()
                    invariant
                        i <= fields@.len(),
                        *self == Json::Object(*fields),
                        out@.len() == i,
                        forall|j: int|
                            0 <= j < i ==> (#[trigger] out@[j]).0@ == fields@[j].0@ && out@[j].1@
                                == fields@[j].1@,
                    decreases fields@.len() - i,
                {
                    proof {
                        field_is_smaller(*self, i as int);
                    }
                    let value = fields[i].1.clone();
                    out.push((fields[i].0.clone(), value));
                    i += 1;
                }
                assert(out.deep_view() =~= fields.deep_view());
                Json::Object(out)
            },
        }
    }
}

// ---------------------------------------------------------------------------------------
// Writing
// ---------------------------------------------------------------------------------------
/// Assigns a field.
fn assign(fields: &mut Vec<(String, Json)>, key: &str, value: Json)
    ensures
        final(fields).deep_view() == insert(old(fields).deep_view(), key@, value@),
{
    match position(fields, key) {
        Some(i) => {
            fields[i].1 = value;
            assert(fields.deep_view() =~= insert(old(fields).deep_view(), key@, value@));
        },
        None => {
            let mut i: usize = 0;
            while i < fields.len() && !precedes(key, fields[i].0.as_str())
                invariant
                    i <= fields@.len(),
                    *fields == *old(fields),
                    forall|j: int|
                        0 <= j < i ==> !before(key@, (#[trigger] fields.deep_view()[j]).0),
                decreases fields@.len() - i,
            {
                i += 1;
            }
            proof {
                place_at(fields.deep_view(), key@, value@, i as int);
            }
            let ghost placed = fields.deep_view().insert(i as int, (key@, value@));
            fields.insert(i, (key.to_owned(), value));
            assert(fields.deep_view() =~= placed);
        },
    }
}

impl Json {
    /// Assigns a field; null becomes an object with that field.
    pub fn set(&mut self, key: &str, value: Json)
        requires
            old(self)@.assignable(),
        ensures
            final(self)@ == old(self)@.set(key@, value@),
    {
        broadcast use group_json_views;

        match self {
            Json::Object(fields) => {
                assign(fields, key, value);
            },
            _ => {
                let mut fields: Vec<(String, Json)> = Vec::new();
                fields.push((key.to_owned(), value));
                assert(fields.deep_view() =~= seq![(key@, value@)]);
                *self = Json::Object(fields);
            },
        }
    }

    /// The value with a field assigned.
    pub fn with(self, key: &str, value: Json) -> (r: Json)
        requires
            self@.assignable(),
        ensures
            r@ == self@.set(key@, value@),
    {
        let mut out = self;
        out.set(key, value);
        out
    }

    pub fn with_text(self, key: &str, value: &str) -> (r: Json)
        requires
            self@.assignable(),
        ensures
            r@ == self@.set(key@, JsonView::text(value@)),
    {
        self.with(key, Json::text(value))
    }

    pub fn get_mut(&mut self, key: &str) -> (r: Option<&mut Json>)
        ensures
            match r {
                Some(v) => {
                    &&& old(self)@.get(key@) == Some((*v)@)
                    &&& final(self)@ == old(self)@.set(key@, (*final(v))@)
                },
                None => {
                    &&& old(self)@.get(key@) is None
                    &&& final(self)@ == old(self)@
                },
            },
    {
        broadcast use group_json_views;

        match self {
            Json::Object(fields) => match position(fields, key) {
                Some(i) => {
                    proof {
                        let v = *fields;
                        assert forall|w: Vec<(String, Json)>|
                            {
                                &&& w@.len() == v@.len()
                                &&& w@[i as int].0 == v@[i as int].0
                                &&& forall|j: int|
                                    0 <= j < v@.len() && j != i ==> #[trigger] w@[j] == v@[j]
                            } implies #[trigger] json_view(Json::Object(w)) == JsonView::Object(
                            replace(v.deep_view(), key@, json_view(w@[i as int].1)),
                        ) by {
                            assert(w.deep_view() =~= v.deep_view().update(
                                i as int,
                                (key@, json_view(w@[i as int].1)),
                            ));
                        }
                    }
                    Some(&mut fields[i].1)
                },
                None => None,
            },
            _ => None,
        }
    }
}


impl Json {
    pub fn item_mut(&mut self, index: usize) -> (r: Option<&mut Json>)
        ensures
            match r {
                Some(v) => {
                    &&& old(self)@ matches JsonView::Array(items) && index < items.len()
                        && items[index as int] == (*v)@ && final(self)@ == JsonView::Array(
                        items.update(index as int, (*final(v))@),
                    )
                },
                None => {
                    &&& old(self)@ matches JsonView::Array(items) ==> index >= items.len()
                    &&& final(self)@ == old(self)@
                },
            },
    {
        broadcast use group_json_views;

        match self {
            Json::Array(items) => {
                if index < items.len() {
                    proof {
                        let v = *items;
                        assert forall|w: Vec<Json>|
                            {
                                &&& w@.len() == v@.len()
                                &&& forall|j: int|
                                    0 <= j < v@.len() && j != index ==> #[trigger] w@[j] == v@[j]
                            } implies #[trigger] json_view(Json::Array(w)) == JsonView::Array(
                            v.deep_view().update(index as int, json_view(w@[index as int])),
                        ) by {
                            assert(w.deep_view() =~= v.deep_view().update(
                                index as int,
                                json_view(w@[index as int]),
                            ));
                        }
                    }
                    Some(&mut items[index])
                } else {
                    None
                }
            },
            _ => None,
        }
    }
}

// ---------------------------------------------------------------------------------------
// Paths
// ---------------------------------------------------------------------------------------
/// Reads the token between two positions of a path.
fn token(path: &Vec<char>, from: usize, to: usize) -> (r: String)
    requires
        from <= to <= path@.len(),
    ensures
        r@ == unescape(path@.subrange(from as int, to as int)),
    decreases to - from,
{
    let ghost s = path@.subrange(from as int, to as int);
    if from == to {
        let r = String::new();
        assert(r@ =~= unescape(s));
        return r;
    }
    let mut out = String::new();
    let mut next: usize = from + 1;
    if to - from >= 2 && path[from] == '~' && path[from + 1] == '1' {
        out.push('/');
        next = from + 2;
    } else if to - from >= 2 && path[from] == '~' && path[from + 1] == '0' {
        out.push('~');
        next = from + 2;
    } else {
        out.push(path[from]);
    }
    let rest = token(path, next, to);
    proof {
        assert(s.skip(next - from) =~= path@.subrange(next as int, to as int));
        assert(s[0] == path@[from as int]);
        if to - from >= 2 {
            assert(s[1] == path@[from + 1]);
        }
    }
    out.append(rest.as_str());
    assert(out@ =~= unescape(s));
    out
}

/// The position of the next slash, or the length of the path where there is none.
fn slash(path: &Vec<char>, from: usize) -> (r: usize)
    requires
        from <= path@.len(),
    ensures
        r == from + next_slash(path@.skip(from as int)),
        from <= r <= path@.len(),
    decreases path@.len() - from,
{
    if from == path.len() {
        return from;
    }
    assert(path@.skip(from as int)[0] == path@[from as int]);
    if path[from] == '/' {
        return from;
    }
    assert(path@.skip(from as int).skip(1) =~= path@.skip(from + 1));
    slash(path, from + 1)
}

/// The array index that a token writes, where it is one below the length.
fn array_index(token: &str, len: usize) -> (r: Option<usize>)
    ensures
        match r {
            Some(i) => i < len && index_token(token@) == Some(i as u64),
            None => index_token(token@) matches Some(i) ==> i >= len,
        },
{
    let cs = chars(token);
    if cs.len() > 1 && cs[0] == '0' {
        return None;
    }
    match crate::text::parse_number(token) {
        Some(i) => if i < len as u64 {
            Some(i as usize)
        } else {
            None
        },
        None => None,
    }
}

fn resolve<'a>(value: &'a Json, path: &Vec<char>, from: usize) -> (r: Option<&'a Json>)
    requires
        from <= path@.len(),
    ensures
        r.deep_view() == value@.pointer(path@.skip(from as int)),
    decreases path@.len() - from,
{
    broadcast use group_json_views;

    let ghost s = path@.skip(from as int);
    if from == path.len() {
        return Some(value);
    }
    assert(s[0] == path@[from as int]);
    if path[from] != '/' {
        return None;
    }
    let end = slash(path, from + 1);
    let name = token(path, from + 1, end);
    proof {
        assert(s.skip(1) =~= path@.skip(from + 1));
        assert(s.skip(1).take(end - from - 1) =~= path@.subrange(from + 1, end as int));
        assert(s.skip(1).skip(end - from - 1) =~= path@.skip(end as int));
    }
    let next = match value {
        Json::Object(_) => value.get(name.as_str()),
        Json::Array(items) => match array_index(name.as_str(), items.len()) {
            Some(i) => Some(&items[i]),
            None => None,
        },
        _ => None,
    };
    assert(next.deep_view() == value@.step(name@));
    match next {
        Some(v) => resolve(v, path, end),
        None => None,
    }
}

fn replace_at(value: &mut Json, path: &Vec<char>, from: usize, with: Json) -> (r: bool)
    requires
        from <= path@.len(),
    ensures
        r == (old(value)@.put(path@.skip(from as int), with@) is Some),
        final(value)@ == (match old(value)@.put(path@.skip(from as int), with@) {
            Some(v) => v,
            None => old(value)@,
        }),
    decreases path@.len() - from,
{
    broadcast use group_json_views;

    let ghost s = path@.skip(from as int);
    if from == path.len() {
        *value = with;
        return true;
    }
    assert(s[0] == path@[from as int]);
    if path[from] != '/' {
        return false;
    }
    let end = slash(path, from + 1);
    let name = token(path, from + 1, end);
    proof {
        assert(s.skip(1) =~= path@.skip(from + 1));
        assert(s.skip(1).take(end - from - 1) =~= path@.subrange(from + 1, end as int));
        assert(s.skip(1).skip(end - from - 1) =~= path@.skip(end as int));
    }
    proof {
        match value@ {
            JsonView::Object(fields) => {
                if lookup(fields, name@) is Some {
                    insert_same(fields, name@);
                }
            },
            JsonView::Array(items) => {
                assert forall|i: int| 0 <= i < items.len() implies #[trigger] items.update(
                    i,
                    items[i],
                ) == items by {
                    assert(items.update(i, items[i]) =~= items);
                }
            },
            _ => {},
        }
    }
    if value.is_object() {
        match value.get_mut(name.as_str()) {
            Some(v) => replace_at(v, path, end, with),
            None => false,
        }
    } else {
        let len = match value.as_array() {
            Some(items) => items.len(),
            None => 0,
        };
        match array_index(name.as_str(), len) {
            Some(i) => match value.item_mut(i) {
                Some(v) => replace_at(v, path, end, with),
                None => false,
            },
            None => false,
        }
    }
}

impl Json {
    /// What a path addresses.
    pub fn pointer(&self, path: &str) -> (r: Option<&Json>)
        ensures
            r.deep_view() == self@.pointer(path@),
    {
        let cs = chars(path);
        assert(cs@.skip(0) =~= path@);
        resolve(self, &cs, 0)
    }

    /// Replaces what a path addresses and says whether it addresses something.
    pub fn put(&mut self, path: &str, value: Json) -> (r: bool)
        ensures
            r == (old(self)@.put(path@, value@) is Some),
            final(self)@ == (match old(self)@.put(path@, value@) {
                Some(v) => v,
                None => old(self)@,
            }),
    {
        let cs = chars(path);
        assert(cs@.skip(0) =~= path@);
        replace_at(self, &cs, 0, value)
    }
}

// ---------------------------------------------------------------------------------------
// What holds of fields
// ---------------------------------------------------------------------------------------
/// Whether the keys ascend; each then occurs once.
pub open spec fn ascending(fields: Fields) -> bool {
    forall|i: int, j: int|
        0 <= i < j < fields.len() ==> before((#[trigger] fields[i]).0, (#[trigger] fields[j]).0)
}

proof fn before_total(a: Seq<char>, b: Seq<char>)
    ensures
        a == b ==> !before(a, b),
        a != b ==> before(a, b) || before(b, a),
        !(before(a, b) && before(b, a)),
    decreases a.len(),
{
    if a.len() > 0 && b.len() > 0 && a[0] == b[0] {
        before_total(a.skip(1), b.skip(1));
        if a.skip(1) == b.skip(1) {
            assert(a =~= seq![a[0]] + a.skip(1));
            assert(b =~= seq![b[0]] + b.skip(1));
        }
    } else if a.len() == 0 && b.len() == 0 {
        assert(a =~= b);
    }
}

proof fn before_transitive(a: Seq<char>, b: Seq<char>, c: Seq<char>)
    requires
        before(a, b),
        before(b, c),
    ensures
        before(a, c),
    decreases a.len(),
{
    if a.len() > 0 && a[0] == b[0] && b[0] == c[0] {
        before_transitive(a.skip(1), b.skip(1), c.skip(1));
    }
}

/// An assigned field holds what was assigned, and every other field what it held.
pub proof fn insert_lookup(fields: Fields, key: Seq<char>, value: JsonView, other: Seq<char>)
    ensures
        lookup(insert(fields, key, value), key) == Some(value),
        other != key ==> lookup(insert(fields, key, value), other) == lookup(fields, other),
    decreases fields.len(),
{
    let result = insert(fields, key, value);
    if fields.len() == 0 {
        assert(result =~= seq![(key, value)]);
        assert(result.skip(1) =~= Seq::empty());
        assert(lookup(result.skip(1), other) is None);
    } else if lookup(fields, key) is Some && fields[0].0 == key {
        assert(result.skip(1) =~= fields.skip(1));
    } else if lookup(fields, key) is None && before(key, fields[0].0) {
        assert(result.skip(1) =~= fields);
    } else {
        let rest = fields.skip(1);
        assert(lookup(fields, key) == lookup(rest, key));
        insert_lookup(rest, key, value, other);
        assert(result =~= seq![fields[0]] + insert(rest, key, value));
        assert(result.skip(1) =~= insert(rest, key, value));
    }
}

/// Of two assignments of one field the second stays.
pub proof fn insert_twice(fields: Fields, key: Seq<char>, first: JsonView, second: JsonView)
    ensures
        insert(insert(fields, key, first), key, second) == insert(fields, key, second),
    decreases fields.len(),
{
    let once = insert(fields, key, first);
    insert_lookup(fields, key, first, key);
    if fields.len() == 0 {
        assert(once =~= seq![(key, first)]);
        assert(insert(once, key, second) =~= seq![(key, second)]);
    } else if lookup(fields, key) is Some && fields[0].0 == key {
        assert(insert(once, key, second) =~= fields.update(0, (key, second)));
    } else if lookup(fields, key) is None && before(key, fields[0].0) {
        assert(once[0] == (key, first));
        assert(once.update(0, (key, second)) =~= seq![(key, second)] + fields);
    } else {
        let rest = fields.skip(1);
        assert(lookup(fields, key) == lookup(rest, key));
        insert_twice(rest, key, first, second);
        insert_lookup(rest, key, first, key);
        assert(once =~= seq![fields[0]] + insert(rest, key, first));
        assert(once.skip(1) =~= insert(rest, key, first));
        assert(once[0] == fields[0]);
    }
}

proof fn insert_keys(fields: Fields, key: Seq<char>, value: JsonView, i: int)
    requires
        0 <= i < insert(fields, key, value).len(),
    ensures
        insert(fields, key, value)[i].0 == key || exists|j: int|
            0 <= j < fields.len() && insert(fields, key, value)[i].0 == (#[trigger] fields[j]).0,
    decreases fields.len(),
{
    let result = insert(fields, key, value);
    if fields.len() == 0 {
    } else if lookup(fields, key) is Some && fields[0].0 == key {
        if i > 0 {
            assert(result[i] == fields[i]);
        }
    } else if lookup(fields, key) is None && before(key, fields[0].0) {
        if i > 0 {
            assert(result[i] == fields[i - 1]);
        }
    } else {
        let rest = fields.skip(1);
        assert(lookup(fields, key) == lookup(rest, key));
        if i == 0 {
            assert(result[0] == fields[0]);
        } else {
            assert(result[i] == insert(rest, key, value)[i - 1]);
            insert_keys(rest, key, value, i - 1);
            if result[i].0 != key {
                let j = choose|j: int|
                    0 <= j < rest.len() && insert(rest, key, value)[i - 1].0 == (
                    #[trigger] rest[j]).0;
                assert(rest[j] == fields[j + 1]);
            }
        }
    }
}

/// Assigning a field keeps the keys in ascending order.
pub proof fn insert_keeps_order(fields: Fields, key: Seq<char>, value: JsonView)
    requires
        ascending(fields),
    ensures
        ascending(insert(fields, key, value)),
    decreases fields.len(),
{
    let result = insert(fields, key, value);
    if fields.len() == 0 {
        assert(result =~= seq![(key, value)]);
    } else if lookup(fields, key) is Some && fields[0].0 == key {
        assert forall|i: int, j: int| 0 <= i < j < result.len() implies before(
            (#[trigger] result[i]).0,
            (#[trigger] result[j]).0,
        ) by {
            assert(before(fields[i].0, fields[j].0));
        }
    } else if lookup(fields, key) is None && before(key, fields[0].0) {
        assert forall|i: int, j: int| 0 <= i < j < result.len() implies before(
            (#[trigger] result[i]).0,
            (#[trigger] result[j]).0,
        ) by {
            assert(result[j] == fields[j - 1]);
            if i > 0 {
                assert(result[i] == fields[i - 1]);
            } else if j > 1 {
                assert(before(fields[0].0, fields[j - 1].0));
                before_transitive(key, fields[0].0, fields[j - 1].0);
            }
        }
    } else {
        let rest = fields.skip(1);
        let inner = insert(rest, key, value);
        assert(lookup(fields, key) == lookup(rest, key));
        assert(ascending(rest)) by {
            assert forall|i: int, j: int| 0 <= i < j < rest.len() implies before(
                (#[trigger] rest[i]).0,
                (#[trigger] rest[j]).0,
            ) by {
                assert(before(fields[i + 1].0, fields[j + 1].0));
            }
        }
        insert_keeps_order(rest, key, value);
        assert(result =~= seq![fields[0]] + inner);
        // The key follows the first one: it is another, and it does not precede it.
        assert(before(fields[0].0, key)) by {
            before_total(key, fields[0].0);
            if lookup(fields, key) is Some {
                lookup_place(rest, key);
                let j = choose|j: int| 0 <= j < rest.len() && (#[trigger] rest[j]).0 == key;
                assert(before(fields[0].0, fields[j + 1].0));
            }
        }
        assert forall|i: int, j: int| 0 <= i < j < result.len() implies before(
            (#[trigger] result[i]).0,
            (#[trigger] result[j]).0,
        ) by {
            assert(result[j] == inner[j - 1]);
            if i > 0 {
                assert(result[i] == inner[i - 1]);
            } else {
                insert_keys(rest, key, value, j - 1);
                if inner[j - 1].0 != key {
                    let k = choose|k: int|
                        0 <= k < rest.len() && inner[j - 1].0 == (#[trigger] rest[k]).0;
                    assert(before(fields[0].0, fields[k + 1].0));
                }
            }
        }
    }
}

proof fn lookup_place(fields: Fields, key: Seq<char>)
    requires
        lookup(fields, key) is Some,
    ensures
        exists|j: int| 0 <= j < fields.len() && (#[trigger] fields[j]).0 == key,
    decreases fields.len(),
{
    if fields[0].0 != key {
        lookup_place(fields.skip(1), key);
        let j = choose|j: int|
            0 <= j < fields.skip(1).len() && (#[trigger] fields.skip(1)[j]).0 == key;
        assert(fields[j + 1].0 == key);
    }
}

/// Assigning a field makes an object that holds it, beside the fields it held before.
pub broadcast proof fn set_get(
    value: JsonView,
    key: Seq<char>,
    assigned: JsonView,
    other: Seq<char>,
)
    requires
        value.assignable(),
    ensures
        #[trigger] value.set(key, assigned).get(other) == (if other == key {
            Some(assigned)
        } else {
            value.get(other)
        }),
{
    match value {
        JsonView::Object(fields) => {
            insert_lookup(fields, key, assigned, other);
        },
        _ => {
            let result = seq![(key, assigned)];
            assert(result.skip(1) =~= Seq::empty());
            assert(lookup(result.skip(1), other) is None);
        },
    }
}

/// A path that was written reads back what was written.
pub proof fn put_then_pointer(value: JsonView, path: Seq<char>, new: JsonView)
    requires
        value.put(path, new) is Some,
    ensures
        value.put(path, new)->0.pointer(path) == Some(new),
    decreases path.len(),
{
    if path.len() > 0 {
        let rest = path.skip(1);
        let n = next_slash(rest);
        next_slash_bound(rest);
        let token = unescape(rest.take(n as int));
        let next = value.step(token)->0;
        put_then_pointer(next, rest.skip(n as int), new);
        let changed = next.put(rest.skip(n as int), new)->0;
        match value {
            JsonView::Object(fields) => {
                insert_lookup(fields, token, changed, token);
            },
            _ => {},
        }
        assert(value.with_step(token, changed).step(token) == Some(changed));
    }
}

// ---------------------------------------------------------------------------------------
// JSON text
// ---------------------------------------------------------------------------------------
#[verifier::external_type_specification]
#[verifier::external_body]
pub struct ExValue(serde_json::Value);

/// What a value of `serde_json` holds.
pub uninterp spec fn held(value: serde_json::Value) -> JsonView;

/// What `serde_json::from_str` reads from a text: a value, or the message of its error.
pub uninterp spec fn json_text(text: Seq<char>) -> Result<JsonView, Seq<char>>;

/// The `serde_json` value for a JSON value.
pub uninterp spec fn native(value: JsonView) -> serde_json::Value;

/// What `serde_json::Value::to_string` writes.
pub uninterp spec fn value_text(value: serde_json::Value) -> Seq<char>;

/// Calls `serde_json::from_str`; an error is handed on as its message.
#[verifier::external_body]
fn read_value(text: &str) -> (r: Result<serde_json::Value, String>)
    ensures
        json_text(text@) == (match r {
            Ok(value) => Ok(held(value)),
            Err(message) => Err(message@),
        }),
{
    serde_json::from_str(text).map_err(|e: serde_json::Error| e.to_string())
}

/// Takes a `serde_json::Value` apart, one variant each. A number is read with
/// `as_u64` and `as_i64`, and written as text where it is neither.
#[verifier::external_body]
fn from_value(value: serde_json::Value) -> (r: Json)
    ensures
        r@ == held(value),
{
    match value {
        serde_json::Value::Null => Json::Null,
        serde_json::Value::Bool(b) => Json::Bool(b),
        serde_json::Value::Number(n) => Json::Number(match (n.as_u64(), n.as_i64()) {
            (Some(u), _) => Number::PosInt(u),
            (None, Some(i)) => Number::NegInt(i),
            (None, None) => Number::Float(n.to_string()),
        }),
        serde_json::Value::String(s) => Json::Text(s),
        serde_json::Value::Array(items) => Json::Array(items.into_iter().map(from_value).collect()),
        serde_json::Value::Object(fields) => Json::Object(fields.into_iter().map(|(k, v)| (k, from_value(v))).collect()),
    }
}

/// Builds a `serde_json::Value`, one variant each; an object's map keeps the keys in
/// ascending order. The text of a float is read with `serde_json::from_str`; a text that
/// is no number becomes null.
#[verifier::external_body]
fn to_value(json: &Json) -> (r: serde_json::Value)
    ensures
        r == native(json@),
        json@.plain() ==> held(r) == json@,
{
    match json {
        Json::Null => serde_json::Value::Null,
        Json::Bool(b) => serde_json::Value::Bool(*b),
        Json::Number(Number::PosInt(n)) => serde_json::Value::from(*n),
        Json::Number(Number::NegInt(n)) => serde_json::Value::from(*n),
        Json::Number(Number::Float(t)) => serde_json::from_str(t).unwrap_or(serde_json::Value::Null),
        Json::Text(s) => serde_json::Value::from(s.as_str()),
        Json::Array(items) => serde_json::Value::Array(items.iter().map(to_value).collect()),
        Json::Object(fields) => serde_json::Value::Object(fields.iter().map(|(k, v)| (k.clone(), to_value(v))).collect()),
    }
}

/// Calls `serde_json::Value::to_string`. The text of a value nested no deeper than
/// `serde_json` reads is read back as that value.
#[verifier::external_body]
fn write_value(value: &serde_json::Value) -> (r: String)
    ensures
        r@ == value_text(*value),
        held(*value).within(max_depth()) ==> json_text(r@) is Ok && json_text(r@)->Ok_0 == held(*value),
{
    value.to_string()
}

/// What a value is written as.
pub open spec fn printed(value: JsonView) -> Seq<char> {
    value_text(native(value))
}

/// The deepest nesting that is read back from text.
pub open spec fn max_depth() -> nat {
    127
}

impl Json {
    /// Reads JSON text. The error is the reader's message.
    pub fn parse(text: &str) -> (r: Result<Json, String>)
        ensures
            json_text(text@) == (match r {
                Ok(value) => Ok(value@),
                Err(message) => Err(message@),
            }),
    {
        match read_value(text) {
            Ok(value) => Ok(from_value(value)),
            Err(message) => Err(message),
        }
    }

    /// Writes JSON text. A plain value is read back from it.
    pub fn print(&self) -> (r: String)
        ensures
            r@ == printed(self@),
            self@.plain() && self@.within(max_depth()) ==> json_text(r@) == Ok::<
                JsonView,
                Seq<char>,
            >(self@),
    {
        write_value(&to_value(self))
    }
}

proof fn slash_is_next(token: Seq<char>, rest: Seq<char>)
    requires
        !token.contains('/'),
        rest.len() == 0 || rest[0] == '/',
    ensures
        next_slash(token + rest) == token.len(),
    decreases token.len(),
{
    let all = token + rest;
    if token.len() > 0 {
        assert(token.contains(token[0]));
        let after = token.skip(1);
        assert(!after.contains('/')) by {
            if after.contains('/') {
                let i = choose|i: int| 0 <= i < after.len() && after[i] == '/';
                assert(token[i + 1] == '/');
            }
        }
        slash_is_next(after, rest);
        assert(all.skip(1) =~= after + rest);
    }
}

proof fn plain_tokens_stay(token: Seq<char>)
    requires
        !token.contains('~'),
    ensures
        unescape(token) == token,
    decreases token.len(),
{
    if token.len() > 0 {
        assert(token.contains(token[0]));
        let after = token.skip(1);
        assert(!after.contains('~')) by {
            if after.contains('~') {
                let i = choose|i: int| 0 <= i < after.len() && after[i] == '~';
                assert(token[i + 1] == '~');
            }
        }
        plain_tokens_stay(after);
        assert(seq![token[0]] + after =~= token);
    }
}

/// A path leads step by step: into the field that its first token names, and from there on by
/// what is left of it. The empty path leads nowhere else.
pub proof fn paths_lead_step_by_step(
    value: JsonView,
    token: Seq<char>,
    rest: Seq<char>,
)
    requires
        value is Object,
        !token.contains('/'),
        !token.contains('~'),
        rest.len() == 0 || rest[0] == '/',
    ensures
        value.pointer(Seq::empty()) == Some(value),
        value.pointer(seq!['/'] + token + rest) == (match value.get(token) {
            Some(field) => field.pointer(rest),
            None => None,
        }),
{
    let path = seq!['/'] + token + rest;
    let behind = token + rest;
    assert(path.skip(1) =~= behind);
    slash_is_next(token, rest);
    plain_tokens_stay(token);
    assert(behind.take(token.len() as int) =~= token);
    assert(behind.skip(token.len() as int) =~= rest);
}

} // verus!
