//! Assembly of JSON values from fragments.
use crate::json::{insert, insert_lookup, insert_twice, set_get, Fields, Json, JsonView};
use crate::text::same;
use vstd::prelude::*;

verus! {

/// A value with a text appended to one of its text fields; a field that holds no text counts
/// as empty.
pub open spec fn appended(value: JsonView, key: Seq<char>, text: Seq<char>) -> JsonView {
    value.set(key, JsonView::text(value.str_or_empty(key) + text))
}

/// Appends a text to a text field.
pub fn append(value: &mut Json, key: &str, text: &str)
    requires
        old(value)@.assignable(),
    ensures
        final(value)@ == appended(old(value)@, key@, text@),
        final(value)@ is Object,
{
    let mut joined = value.str_or_empty(key).to_owned();
    joined.append(text);
    value.set(key, Json::Text(joined));
}

/// How a text is cut into fragments makes no difference to what is assembled.
pub proof fn fragments_append_as_one(
    value: JsonView,
    key: Seq<char>,
    first: Seq<char>,
    second: Seq<char>,
)
    requires
        value.assignable(),
    ensures
        appended(appended(value, key, first), key, second) == appended(value, key, first + second),
{
    let start = value.str_or_empty(key);
    let fields = match value {
        JsonView::Object(fields) => fields,
        _ => Seq::empty(),
    };
    let once = JsonView::text(start + first);
    insert_lookup(fields, key, once, key);
    insert_twice(fields, key, once, JsonView::text(start + first + second));
    assert(start + first + second =~= start + (first + second));
    if value is Null {
        assert(insert(fields, key, once) =~= seq![(key, once)]);
        let whole = JsonView::text(start + (first + second));
        assert(insert(fields, key, whole) =~= seq![(key, whole)]);
    }
    assert(appended(value, key, first) == JsonView::Object(insert(fields, key, once)));
}

/// A value with the fields of another copied into it, but for null fields and two keys.
pub open spec fn copied(
    target: JsonView,
    fields: Fields,
    skip: Seq<char>,
    skip_too: Seq<char>,
) -> JsonView
    decreases fields.len(),
{
    if fields.len() == 0 {
        target
    } else {
        let before = copied(target, fields.drop_last(), skip, skip_too);
        let (key, value) = fields.last();
        if key == skip || key == skip_too || value is Null {
            before
        } else {
            before.set(key, value)
        }
    }
}

/// The fields of a value; none where it is no object.
pub open spec fn fields_of(value: JsonView) -> Fields {
    match value {
        JsonView::Object(fields) => fields,
        _ => Seq::empty(),
    }
}

/// Copies the fields of a value, but for null fields and two keys.
pub fn copy_fields(target: &mut Json, source: &Json, skip: &str, skip_too: &str)
    requires
        old(target)@ is Object,
    ensures
        final(target)@ == copied(old(target)@, fields_of(source@), skip@, skip_too@),
        final(target)@ is Object,
{
    let fields = match source.as_object() {
        Some(fields) => fields,
        None => return ,
    };
    let ghost all = fields.deep_view();
    let ghost start = target@;
    let mut i: usize = 0;
    assert(all.take(0) =~= Seq::empty());
    while i < fields.len()
        invariant
            i <= fields@.len(),
            all == fields.deep_view(),
            target@ == copied(start, all.take(i as int), skip@, skip_too@),
            target@ is Object,
        decreases fields@.len() - i,
    {
        proof {
            assert(all.take(i + 1).drop_last() =~= all.take(i as int));
            assert(all.take(i + 1).last() == (fields@[i as int].0@, fields@[i as int].1@));
        }
        let key = fields[i].0.as_str();
        if !same(key, skip) && !same(key, skip_too) && !fields[i].1.is_null() {
            target.set(key, fields[i].1.clone());
        }
        i += 1;
    }
    assert(all.take(all.len() as int) =~= all);
}

/// A value with every field of another assigned to it.
pub open spec fn overlaid(target: JsonView, fields: Fields) -> JsonView
    decreases fields.len(),
{
    if fields.len() == 0 {
        target
    } else {
        overlaid(target, fields.drop_last()).set(fields.last().0, fields.last().1)
    }
}

/// Assigns every field.
pub fn overlay(target: &mut Json, fields: &Vec<(String, Json)>)
    requires
        fields@.len() > 0 ==> old(target)@.assignable(),
    ensures
        final(target)@ == overlaid(old(target)@, fields.deep_view()),
        old(target)@ is Object || fields@.len() > 0 ==> final(target)@ is Object,
{
    let ghost all = fields.deep_view();
    let ghost start = target@;
    let mut i: usize = 0;
    assert(all.take(0) =~= Seq::empty());
    while i < fields.len()
        invariant
            i <= fields@.len(),
            all == fields.deep_view(),
            fields@.len() > 0 ==> target@.assignable(),
            target@ == overlaid(start, all.take(i as int)),
            i > 0 || start is Object ==> target@ is Object,
        decreases fields@.len() - i,
    {
        proof {
            assert(all.take(i + 1).drop_last() =~= all.take(i as int));
            assert(all.take(i + 1).last() == (fields@[i as int].0@, fields@[i as int].1@));
        }
        target.set(fields[i].0.as_str(), fields[i].1.clone());
        i += 1;
    }
    assert(all.take(all.len() as int) =~= all);
}

/// A list with values appended.
pub fn append_values(values: &mut Vec<Json>, more: &Vec<Json>)
    ensures
        final(values).deep_view() == old(values).deep_view() + more.deep_view(),
{
    crate::codec::replay::extend(values, more);
}

/// Whether a key stands once among fields, at a place.
pub open spec fn stands_once(fields: Fields, key: Seq<char>, k: int) -> bool {
    &&& 0 <= k < fields.len()
    &&& fields[k].0 == key
    &&& forall|i: int| 0 <= i < fields.len() && i != k ==> (#[trigger] fields[i]).0 != key
}

/// Whether a key does not stand among fields.
pub open spec fn stands_nowhere(fields: Fields, key: Seq<char>) -> bool {
    forall|i: int| 0 <= i < fields.len() ==> (#[trigger] fields[i]).0 != key
}

/// A field that is assigned takes the place of an earlier one; any other stays.
pub proof fn assigned_fields_stand(target: JsonView, fields: Fields, key: Seq<char>, k: int)
    requires
        target.assignable(),
    ensures
        overlaid(target, fields).assignable(),
        stands_once(fields, key, k) ==> overlaid(target, fields).get(key) == Some(fields[k].1),
        stands_nowhere(fields, key) ==> overlaid(target, fields).get(key) == target.get(key),
    decreases fields.len(),
{
    broadcast use set_get;

    if fields.len() > 0 {
        let front = fields.drop_last();
        assigned_fields_stand(target, front, key, k);
        assert(fields[fields.len() - 1] == fields.last());
        if stands_nowhere(fields, key) || (stands_once(fields, key, k) && k == fields.len() - 1) {
            assert forall|i: int| 0 <= i < front.len() implies (#[trigger] front[i]).0 != key by {
                assert(front[i] == fields[i]);
            }
        } else if stands_once(fields, key, k) {
            assert(front[k] == fields[k]);
            assert forall|i: int| 0 <= i < front.len() && i != k implies (#[trigger] front[i]).0
                != key by {
                assert(front[i] == fields[i]);
            }
            assert(fields[fields.len() - 1].0 != key);
        }
    }
}

/// A field that is copied takes the place of an earlier one, unless it is null or of a key
/// that is left out; any other stays.
pub proof fn copied_fields_stand(
    target: JsonView,
    fields: Fields,
    skip: Seq<char>,
    skip_too: Seq<char>,
    key: Seq<char>,
    k: int,
)
    requires
        target is Object,
    ensures
        copied(target, fields, skip, skip_too) is Object,
        stands_once(fields, key, k) && !(fields[k].1 is Null) && key != skip && key != skip_too
            ==> copied(target, fields, skip, skip_too).get(key) == Some(fields[k].1),
        stands_nowhere(fields, key) || key == skip || key == skip_too ==> copied(
            target,
            fields,
            skip,
            skip_too,
        ).get(key) == target.get(key),
    decreases fields.len(),
{
    broadcast use set_get;

    if fields.len() > 0 {
        let front = fields.drop_last();
        copied_fields_stand(target, front, skip, skip_too, key, k);
        assert(fields[fields.len() - 1] == fields.last());
        if stands_nowhere(fields, key) {
            assert forall|i: int| 0 <= i < front.len() implies (#[trigger] front[i]).0 != key by {
                assert(front[i] == fields[i]);
            }
        } else if stands_once(fields, key, k) && k < fields.len() - 1 {
            assert(front[k] == fields[k]);
            assert forall|i: int| 0 <= i < front.len() && i != k implies (#[trigger] front[i]).0
                != key by {
                assert(front[i] == fields[i]);
            }
            assert(fields[fields.len() - 1].0 != key);
        }
    }
}

} // verus!
