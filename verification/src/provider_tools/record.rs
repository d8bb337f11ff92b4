//! Records of two fields, read from JSON: an object with these fields and no other, or an
//! array with them in order. What cannot be read is refused with the words of `serde_json`.
use crate::error::{all_ok, all_ok_step};
use crate::json::{
    group_json_views, lookup, printed, Fields, Json, JsonView, Number, NumberView,
};
use crate::text::{decimal, join, join3, join4, number, quote, quoted, same};
use vstd::prelude::*;

verus! {

// ---------------------------------------------------------------------------------------
// What is said of a value
// ---------------------------------------------------------------------------------------
/// What a value is called.
pub open spec fn noun(value: JsonView) -> Seq<char> {
    match value {
        JsonView::Null => "null"@,
        JsonView::Bool(true) => "boolean `true`"@,
        JsonView::Bool(false) => "boolean `false`"@,
        JsonView::Number(NumberView::Float(_)) => "floating point `"@ + printed(value) + "`"@,
        JsonView::Number(_) => "integer `"@ + printed(value) + "`"@,
        JsonView::Text(text) => "string "@ + quoted(text),
        JsonView::Array(_) => "sequence"@,
        JsonView::Object(_) => "map"@,
    }
}

fn name_value(value: &Json) -> (r: String)
    ensures
        r@ == noun(value@),
{
    match value {
        Json::Null => "null".to_owned(),
        Json::Bool(true) => "boolean `true`".to_owned(),
        Json::Bool(false) => "boolean `false`".to_owned(),
        Json::Number(Number::Float(_)) => join3("floating point `", &value.print(), "`"),
        Json::Number(_) => join3("integer `", &value.print(), "`"),
        Json::Text(text) => join("string ", &quote(text)),
        Json::Array(_) => "sequence".to_owned(),
        Json::Object(_) => "map".to_owned(),
    }
}

/// The value is of another type.
pub open spec fn mistyped(value: JsonView, expected: Seq<char>) -> Seq<char> {
    "invalid type: "@ + noun(value) + ", expected "@ + expected
}

fn refuse_type(value: &Json, expected: &str) -> (r: String)
    ensures
        r@ == mistyped(value@, expected@),
{
    join4("invalid type: ", &name_value(value), ", expected ", expected)
}

/// The value is of the type, and out of its range.
pub open spec fn out_of_range(value: JsonView, expected: Seq<char>) -> Seq<char> {
    "invalid value: "@ + noun(value) + ", expected "@ + expected
}

pub open spec fn missing_field(field: Seq<char>) -> Seq<char> {
    "missing field `"@ + field + "`"@
}

pub open spec fn unknown_field(
    field: Seq<char>,
    first: Seq<char>,
    second: Seq<char>,
) -> Seq<char> {
    "unknown field `"@ + field + "`, expected `"@ + (first + "` or `"@ + second + "`"@)
}

/// An array ended before both fields were read.
pub open spec fn too_short(count: nat, name: Seq<char>) -> Seq<char> {
    "invalid length "@ + decimal(count) + ", expected struct "@ + (name + " with 2 elements"@)
}

/// An array goes on behind the fields.
pub open spec fn too_long(count: nat) -> Seq<char> {
    "invalid length "@ + decimal(count) + ", expected fewer elements in array"@
}

// ---------------------------------------------------------------------------------------
// Values
// ---------------------------------------------------------------------------------------
/// A result whose error is a message, as a result of views.
pub open spec fn told<T: DeepView>(r: Result<T, String>) -> Result<T::V, Seq<char>> {
    match r {
        Ok(value) => Ok(value.deep_view()),
        Err(message) => Err(message@),
    }
}

/// What can be read from JSON.
pub trait Readable: DeepView + Sized {
    /// What a value is read as, or what is wrong with it.
    spec fn of(value: JsonView) -> Result<Self::V, Seq<char>>;

    fn read(value: &Json) -> (r: Result<Self, String>)
        ensures
            told(r) == Self::of(value@),
    ;
}

impl Readable for Json {
    open spec fn of(value: JsonView) -> Result<JsonView, Seq<char>> {
        Ok(value)
    }

    fn read(value: &Json) -> (r: Result<Json, String>) {
        Ok(value.clone())
    }
}

impl Readable for String {
    open spec fn of(value: JsonView) -> Result<Seq<char>, Seq<char>> {
        match value {
            JsonView::Text(text) => Ok(text),
            _ => Err(mistyped(value, "a string"@)),
        }
    }

    fn read(value: &Json) -> (r: Result<String, String>) {
        match value {
            Json::Text(text) => Ok(text.clone()),
            _ => Err(refuse_type(value, "a string")),
        }
    }
}

impl Readable for usize {
    open spec fn of(value: JsonView) -> Result<usize, Seq<char>> {
        match value {
            JsonView::Number(NumberView::PosInt(n)) if n <= usize::MAX => Ok(n as usize),
            JsonView::Number(NumberView::PosInt(_)) => Err(out_of_range(value, "usize"@)),
            JsonView::Number(NumberView::NegInt(_)) => Err(out_of_range(value, "usize"@)),
            _ => Err(mistyped(value, "usize"@)),
        }
    }

    fn read(value: &Json) -> (r: Result<usize, String>) {
        match value {
            Json::Number(Number::PosInt(n)) if *n <= usize::MAX as u64 => Ok(*n as usize),
            Json::Number(Number::PosInt(_)) | Json::Number(Number::NegInt(_)) => Err(
                join4("invalid value: ", &name_value(value), ", expected ", "usize"),
            ),
            _ => Err(refuse_type(value, "usize")),
        }
    }
}

/// What the items of an array are read as.
pub open spec fn all_of<T: Readable>(items: Seq<JsonView>) -> Seq<Result<T::V, Seq<char>>> {
    items.map_values(|item: JsonView| T::of(item))
}

impl<T: Readable> Readable for Vec<T> {
    open spec fn of(value: JsonView) -> Result<Seq<T::V>, Seq<char>> {
        match value {
            JsonView::Array(items) => all_ok(all_of::<T>(items)),
            _ => Err(mistyped(value, "a sequence"@)),
        }
    }

    fn read(value: &Json) -> (r: Result<Vec<T>, String>) {
        broadcast use group_json_views;

        let items = match value {
            Json::Array(items) => items,
            _ => {
                return Err(refuse_type(value, "a sequence"));
            },
        };
        let ghost all = all_of::<T>(items.deep_view());
        let mut out: Vec<T> = Vec::new();
        let mut i: usize = 0;
        assert(all.take(0) =~= Seq::empty());
        assert(out.deep_view() =~= Seq::empty());
        while i < items.len()
            invariant
                i <= items@.len(),
                all == all_of::<T>(items.deep_view()),
                value@ == JsonView::Array(items.deep_view()),
                all_ok(all.take(i as int)) == Ok::<Seq<T::V>, Seq<char>>(out.deep_view()),
            decreases items@.len() - i,
        {
            let ghost before = out.deep_view();
            assert(items.deep_view()[i as int] == items@[i as int]@);
            proof {
                all_ok_step(all, i as int);
            }
            let item = T::read(&items[i])?;
            out.push(item);
            assert(out.deep_view() =~= before.push(item.deep_view()));
            i += 1;
        }
        assert(all.take(all.len() as int) =~= all);
        Ok(out)
    }
}

// ---------------------------------------------------------------------------------------
// Records
// ---------------------------------------------------------------------------------------
pub open spec fn fault<T>(r: Result<T, Seq<char>>) -> Option<Seq<char>> {
    match r {
        Ok(_) => None,
        Err(message) => Some(message),
    }
}

/// What is wrong with a field, if anything is.
pub open spec fn field_fault<A: Readable, B: Readable>(
    field: (Seq<char>, JsonView),
    first: Seq<char>,
    second: Seq<char>,
) -> Option<Seq<char>> {
    if field.0 == first {
        fault(A::of(field.1))
    } else if field.0 == second {
        fault(B::of(field.1))
    } else {
        Some(unknown_field(field.0, first, second))
    }
}

/// What is wrong with the first field that cannot be read.
pub open spec fn first_fault<A: Readable, B: Readable>(
    fields: Fields,
    first: Seq<char>,
    second: Seq<char>,
) -> Option<Seq<char>>
    decreases fields.len(),
{
    if fields.len() == 0 {
        None
    } else {
        match field_fault::<A, B>(fields[0], first, second) {
            Some(message) => Some(message),
            None => first_fault::<A, B>(fields.skip(1), first, second),
        }
    }
}

/// The two fields of a record, or what is wrong with it. Fields are read as they come; that
/// one is missing shows at the end.
pub open spec fn record_of<A: Readable, B: Readable>(
    value: JsonView,
    name: Seq<char>,
    first: Seq<char>,
    second: Seq<char>,
) -> Result<(A::V, B::V), Seq<char>> {
    match value {
        JsonView::Object(fields) => match first_fault::<A, B>(fields, first, second) {
            Some(message) => Err(message),
            None => match (lookup(fields, first), lookup(fields, second)) {
                (None, _) => Err(missing_field(first)),
                (_, None) => Err(missing_field(second)),
                (Some(a), Some(b)) => Ok((A::of(a)->Ok_0, B::of(b)->Ok_0)),
            },
        },
        JsonView::Array(items) => if items.len() == 0 {
            Err(too_short(0, name))
        } else {
            match A::of(items[0]) {
                Err(message) => Err(message),
                Ok(a) => if items.len() == 1 {
                    Err(too_short(1, name))
                } else {
                    match B::of(items[1]) {
                        Err(message) => Err(message),
                        Ok(b) => if items.len() > 2 {
                            Err(too_long(items.len()))
                        } else {
                            Ok((a, b))
                        },
                    }
                },
            }
        },
        _ => Err(mistyped(value, "struct "@ + name)),
    }
}

fn read_fields<A: Readable, B: Readable>(
    fields: &Vec<(String, Json)>,
    first: &str,
    second: &str,
) -> (r: Result<(A, B), String>)
    requires
        first@ != second@,
    ensures
        told(r) == record_of::<A, B>(
            JsonView::Object(fields.deep_view()),
            Seq::empty(),
            first@,
            second@,
        ),
{
    let ghost all = fields.deep_view();
    let mut a: Option<A> = None;
    let mut b: Option<B> = None;
    let mut i: usize = 0;
    assert(all.skip(0) =~= all);
    while i < fields.len()
        invariant
            i <= fields@.len(),
            all == fields.deep_view(),
            first@ != second@,
            first_fault::<A, B>(all, first@, second@) == first_fault::<A, B>(
                all.skip(i as int),
                first@,
                second@,
            ),
            match a {
                None => lookup(all, first@) == lookup(all.skip(i as int), first@),
                Some(found) => lookup(all, first@) is Some && A::of(lookup(all, first@)->0)
                    == Ok::<A::V, Seq<char>>(found.deep_view()),
            },
            match b {
                None => lookup(all, second@) == lookup(all.skip(i as int), second@),
                Some(found) => lookup(all, second@) is Some && B::of(lookup(all, second@)->0)
                    == Ok::<B::V, Seq<char>>(found.deep_view()),
            },
        decreases fields@.len() - i,
    {
        let key = &fields[i].0;
        let value = &fields[i].1;
        assert(all[i as int] == (key@, value@));
        assert(all.skip(i as int)[0] == all[i as int]);
        assert(all.skip(i as int).skip(1) =~= all.skip(i + 1));
        if same(key, first) {
            let found = A::read(value)?;
            if a.is_none() {
                a = Some(found);
            }
        } else if same(key, second) {
            let found = B::read(value)?;
            if b.is_none() {
                b = Some(found);
            }
        } else {
            let names = join4(first, "` or `", second, "`");
            return Err(join4("unknown field `", key, "`, expected `", &names));
        }
        i += 1;
    }
    assert(all.skip(all.len() as int) =~= Seq::empty());
    match (a, b) {
        (None, _) => Err(join3("missing field `", first, "`")),
        (_, None) => Err(join3("missing field `", second, "`")),
        (Some(a), Some(b)) => Ok((a, b)),
    }
}

/// Reads a record.
pub fn read_record<A: Readable, B: Readable>(
    value: &Json,
    name: &str,
    first: &str,
    second: &str,
) -> (r: Result<(A, B), String>)
    requires
        first@ != second@,
    ensures
        told(r) == record_of::<A, B>(value@, name@, first@, second@),
{
    broadcast use group_json_views;

    match value {
        Json::Object(fields) => read_fields::<A, B>(fields, first, second),
        Json::Array(items) => {
            if items.len() == 0 {
                let expected = join(name, " with 2 elements");
                return Err(join4("invalid length ", &number(0), ", expected struct ", &expected));
            }
            assert(items.deep_view()[0] == items@[0]@);
            let a = A::read(&items[0])?;
            if items.len() == 1 {
                let expected = join(name, " with 2 elements");
                return Err(join4("invalid length ", &number(1), ", expected struct ", &expected));
            }
            assert(items.deep_view()[1] == items@[1]@);
            let b = B::read(&items[1])?;
            if items.len() > 2 {
                return Err(
                    join3(
                        "invalid length ",
                        &number(items.len() as u64),
                        ", expected fewer elements in array",
                    ),
                );
            }
            Ok((a, b))
        },
        _ => Err(refuse_type(value, &join("struct ", name))),
    }
}

/// A record that was written with both fields in order is read as they are.
pub proof fn written_record_is_read<A: Readable, B: Readable>(
    name: Seq<char>,
    first: Seq<char>,
    a: JsonView,
    second: Seq<char>,
    b: JsonView,
)
    requires
        first != second,
        A::of(a) is Ok,
        B::of(b) is Ok,
    ensures
        record_of::<A, B>(
            JsonView::Object(seq![(first, a), (second, b)]),
            name,
            first,
            second,
        ) == Ok::<(A::V, B::V), Seq<char>>((A::of(a)->Ok_0, B::of(b)->Ok_0)),
{
    let fields = seq![(first, a), (second, b)];
    assert(fields.skip(1) =~= seq![(second, b)]);
    assert(fields.skip(1).skip(1) =~= Seq::empty());
    reveal_with_fuel(first_fault, 3);
    assert(lookup(fields.skip(1), second) == Some(b));
    assert(lookup(fields, second) == lookup(fields.skip(1), second));
}

} // verus!
