//! Options that a caller adds to an encoded request.
//!
//! An option may extend what was encoded, also inside nested objects, but never replaces
//! anything: arrays and scalar values have no unambiguous way to be added to.
use crate::error::{seen, Error, ErrorView};
use crate::json::{insert_lookup, lookup, set_get, Fields, Json, JsonView};
use crate::model::Protocol;
use crate::streaming::fields::{stands_nowhere, stands_once};
use crate::text::{join, join3, same};
use vstd::prelude::*;

verus! {

pub open spec fn override_error(path: Seq<char>) -> ErrorView {
    ErrorView::Invalid("extra option overrides controlled field "@ + path)
}

/// An encoded value extended by an option, or the path at which the option would replace
/// something.
pub open spec fn merged(encoded: JsonView, extra: JsonView, path: Seq<char>) -> Result<
    JsonView,
    ErrorView,
>
    decreases extra,
{
    match (encoded, extra) {
        (JsonView::Object(_), JsonView::Object(fields)) => merged_fields(encoded, fields, path),
        _ => Err(override_error(path)),
    }
}

pub open spec fn merged_fields(encoded: JsonView, fields: Fields, path: Seq<char>) -> Result<
    JsonView,
    ErrorView,
>
    decreases fields,
{
    if fields.len() == 0 {
        Ok(encoded)
    } else {
        match merged_fields(encoded, fields.drop_last(), path) {
            Err(e) => Err(e),
            Ok(target) => {
                let key = fields.last().0;
                match target.get(key) {
                    None => Ok(target.set(key, fields.last().1)),
                    Some(existing) => match merged(
                        existing,
                        fields.last().1,
                        path + "."@ + key,
                    ) {
                        Err(e) => Err(e),
                        Ok(value) => Ok(target.set(key, value)),
                    },
                }
            },
        }
    }
}

proof fn merged_fields_error(encoded: JsonView, fields: Fields, path: Seq<char>, n: int)
    requires
        0 <= n <= fields.len(),
        merged_fields(encoded, fields.take(n), path) is Err,
    ensures
        merged_fields(encoded, fields, path) == merged_fields(encoded, fields.take(n), path),
    decreases fields.len() - n,
{
    if n < fields.len() {
        assert(fields.take(n + 1).drop_last() =~= fields.take(n));
        merged_fields_error(encoded, fields, path, n + 1);
    } else {
        assert(fields.take(n) =~= fields);
    }
}

/// Extends an encoded value by an option. The path names the value in errors.
pub fn merge_extra(encoded: &mut Json, extra: &Json, path: &str) -> (r: Result<(), Error>)
    ensures
        match merged(old(encoded)@, extra@, path@) {
            Ok(value) => r is Ok && final(encoded)@ == value,
            Err(e) => r is Err && r->Err_0@ == e,
        },
    decreases extra,
{
    let fields = match extra {
        Json::Object(fields) => fields,
        _ => {
            return Err(Error::Invalid(join("extra option overrides controlled field ", path)));
        },
    };
    if !encoded.is_object() {
        return Err(Error::Invalid(join("extra option overrides controlled field ", path)));
    }
    let ghost all = fields.deep_view();
    let ghost start = encoded@;
    proof {
        crate::json::object_view(*fields);
        assert(all.take(0) =~= Seq::empty());
    }
    let mut i: usize = 0;
    while i < fields.len()
        invariant
            i <= fields@.len(),
            *extra == Json::Object(*fields),
            all == fields.deep_view(),
            start == old(encoded)@,
            merged(start, extra@, path@) == merged_fields(start, all, path@),
            merged_fields(start, all.take(i as int), path@) == Ok::<JsonView, ErrorView>(encoded@),
            encoded@ is Object,
        decreases fields@.len() - i,
    {
        let key = fields[i].0.as_str();
        let ghost before = encoded@;
        proof {
            crate::json::field_is_smaller(*extra, i as int);
            assert(all.take(i + 1).drop_last() =~= all.take(i as int));
            assert(all.take(i + 1).last() == (fields@[i as int].0@, fields@[i as int].1@));
            if merged_fields(start, all.take(i + 1), path@) is Err {
                merged_fields_error(start, all, path@, i + 1);
            }
        }
        if encoded.has(key) {
            let inner = join3(path, ".", key);
            match encoded.get_mut(key) {
                Some(existing) => {
                    merge_extra(existing, &fields[i].1, inner.as_str())?;
                },
                None => {},
            }
        } else {
            encoded.set(key, fields[i].1.clone());
        }
        i += 1;
    }
    assert(all.take(all.len() as int) =~= all);
    Ok(())
}

/// Whether a field belongs to the codec alone.
pub open spec fn controlled(key: Seq<char>) -> bool {
    key == "input"@ || key == "messages"@ || key == "tools"@ || key == "tool_choice"@ || key
        == "system"@
}

fn is_controlled(key: &str) -> (r: bool)
    ensures
        r == controlled(key@),
{
    same(key, "input") || same(key, "messages") || same(key, "tools") || same(key, "tool_choice")
        || same(key, "system")
}

/// A request extended by one option.
pub open spec fn with_extra(body: JsonView, field: (Seq<char>, JsonView)) -> Result<
    JsonView,
    ErrorView,
> {
    if controlled(field.0) {
        Err(override_error(field.0))
    } else {
        match body.get(field.0) {
            None => Ok(body.set(field.0, field.1)),
            Some(existing) => match merged(existing, field.1, field.0) {
                Err(e) => Err(e),
                Ok(value) => Ok(body.set(field.0, value)),
            },
        }
    }
}

pub open spec fn with_extra_step() -> spec_fn(JsonView, (Seq<char>, JsonView)) -> Result<
    JsonView,
    ErrorView,
> {
    |body: JsonView, field: (Seq<char>, JsonView)| with_extra(body, field)
}

/// A request extended by the options that are kept for its protocol.
pub open spec fn with_extras(body: JsonView, extensions: JsonView, protocol: Protocol) -> Result<
    JsonView,
    ErrorView,
> {
    match extensions.get_object(protocol.name()) {
        None => Ok(body),
        Some(fields) => crate::error::fold_ok(fields, body, with_extra_step()),
    }
}

/// Extends a request by the options that are kept for its protocol.
pub fn add_extras(body: Json, extensions: &Json, protocol: Protocol) -> (r: Result<Json, Error>)
    requires
        body@ is Object,
    ensures
        seen(r) == with_extras(body@, extensions@, protocol),
        r is Ok ==> r->Ok_0@ is Object,
{
    let fields = match extensions.get_object(protocol.key()) {
        Some(fields) => fields,
        None => return Ok(body),
    };
    let ghost all = fields.deep_view();
    let ghost start = body@;
    let ghost step = with_extra_step();
    let mut out = body;
    let mut i: usize = 0;
    assert(all.take(0) =~= Seq::empty());
    while i < fields.len()
        invariant
            i <= fields@.len(),
            all == fields.deep_view(),
            start == body@,
            step == with_extra_step(),
            extensions@.get_object(protocol.name()) == Some(all),
            crate::error::fold_ok(all.take(i as int), start, step) == Ok::<JsonView, ErrorView>(
                out@,
            ),
            out@ is Object,
        decreases fields@.len() - i,
    {
        let key = fields[i].0.as_str();
        proof {
            crate::error::fold_ok_step(all, start, step, i as int);
            assert(all[i as int] == (fields@[i as int].0@, fields@[i as int].1@));
            assert(step(out@, all[i as int]) == with_extra(out@, all[i as int]));
        }
        if is_controlled(key) {
            return Err(Error::Invalid(join("extra option overrides controlled field ", key)));
        }
        if out.has(key) {
            match out.get_mut(key) {
                Some(existing) => {
                    merge_extra(existing, &fields[i].1, key)?;
                },
                None => {},
            }
        } else {
            out.set(key, fields[i].1.clone());
        }
        i += 1;
    }
    assert(all.take(all.len() as int) =~= all);
    Ok(out)
}

// ---------------------------------------------------------------------------------------
// What holds of options
// ---------------------------------------------------------------------------------------
/// Whether everything that one value holds is still there in another: the same scalar or
/// array, and in an object each field, extended at most.
pub open spec fn kept(value: JsonView, extended: JsonView) -> bool
    decreases value,
{
    match value {
        JsonView::Object(fields) => extended is Object && forall|i: int|
            0 <= i < fields.len() && lookup(fields, (#[trigger] fields[i]).0) == Some(fields[i].1)
                ==> extended.has(fields[i].0) && kept(fields[i].1, extended.field(fields[i].0)),
        _ => extended == value,
    }
}

proof fn kept_itself(value: JsonView)
    ensures
        kept(value, value),
    decreases value,
{
    match value {
        JsonView::Object(fields) => {
            assert forall|i: int|
                0 <= i < fields.len() && lookup(fields, (#[trigger] fields[i]).0) == Some(
                    fields[i].1,
                ) implies value.has(fields[i].0) && kept(
                fields[i].1,
                value.field(fields[i].0),
            ) by {
                kept_itself(fields[i].1);
            }
        },
        _ => {},
    }
}

proof fn kept_transitive(a: JsonView, b: JsonView, c: JsonView)
    requires
        kept(a, b),
        kept(b, c),
    ensures
        kept(a, c),
    decreases a,
{
    match a {
        JsonView::Object(fields) => {
            let inner = b->Object_0;
            assert forall|i: int|
                0 <= i < fields.len() && lookup(fields, (#[trigger] fields[i]).0) == Some(
                    fields[i].1,
                ) implies c.has(fields[i].0) && kept(fields[i].1, c.field(fields[i].0)) by {
                let key = fields[i].0;
                lookup_index(inner, key);
                let j = choose|j: int|
                    0 <= j < inner.len() && (#[trigger] inner[j]).0 == key && lookup(inner, key)
                        == Some(inner[j].1);
                assert(lookup(inner, inner[j].0) == Some(inner[j].1));
                kept_transitive(fields[i].1, b.field(key), c.field(key));
            }
        },
        _ => {},
    }
}

pub(crate) proof fn lookup_index(fields: Fields, key: Seq<char>)
    requires
        lookup(fields, key) is Some,
    ensures
        exists|j: int|
            0 <= j < fields.len() && (#[trigger] fields[j]).0 == key && lookup(fields, key)
                == Some(fields[j].1),
    decreases fields.len(),
{
    if fields[0].0 == key {
        assert(fields[0].0 == key && lookup(fields, key) == Some(fields[0].1));
    } else {
        lookup_index(fields.skip(1), key);
        let j = choose|j: int|
            0 <= j < fields.skip(1).len() && (#[trigger] fields.skip(1)[j]).0 == key && lookup(
                fields.skip(1),
                key,
            ) == Some(fields.skip(1)[j].1);
        assert(fields[j + 1] == fields.skip(1)[j]);
    }
}

proof fn kept_by_set(target: JsonView, key: Seq<char>, value: JsonView)
    requires
        target is Object,
        target.get(key) matches Some(existing) ==> kept(existing, value),
    ensures
        kept(target, target.set(key, value)),
{
    let fields = target->Object_0;
    let result = target.set(key, value);
    assert forall|i: int|
        0 <= i < fields.len() && lookup(fields, (#[trigger] fields[i]).0) == Some(
            fields[i].1,
        ) implies result.has(fields[i].0) && kept(
        fields[i].1,
        result.field(fields[i].0),
    ) by {
        insert_lookup(fields, key, value, fields[i].0);
        kept_itself(fields[i].1);
    }
}

/// Extending a value by an option replaces nothing that was encoded.
pub proof fn merge_replaces_nothing(encoded: JsonView, extra: JsonView, path: Seq<char>)
    ensures
        merged(encoded, extra, path) matches Ok(value) ==> kept(encoded, value),
    decreases extra,
{
    match (encoded, extra) {
        (JsonView::Object(_), JsonView::Object(fields)) => {
            merge_fields_replaces_nothing(encoded, fields, path);
        },
        _ => {},
    }
}

proof fn merge_fields_replaces_nothing(encoded: JsonView, fields: Fields, path: Seq<char>)
    requires
        encoded is Object,
    ensures
        merged_fields(encoded, fields, path) matches Ok(value) ==> kept(encoded, value)
            && value is Object,
    decreases fields,
{
    if fields.len() == 0 {
        kept_itself(encoded);
    } else {
        merge_fields_replaces_nothing(encoded, fields.drop_last(), path);
        match merged_fields(encoded, fields.drop_last(), path) {
            Ok(target) => {
                let key = fields.last().0;
                let extra = fields.last().1;
                match target.get(key) {
                    None => {
                        kept_by_set(target, key, extra);
                        kept_transitive(encoded, target, target.set(key, extra));
                    },
                    Some(existing) => {
                        merge_replaces_nothing(existing, extra, path + "."@ + key);
                        match merged(existing, extra, path + "."@ + key) {
                            Ok(value) => {
                                kept_by_set(target, key, value);
                                kept_transitive(encoded, target, target.set(key, value));
                            },
                            Err(_) => {},
                        }
                    },
                }
            },
            Err(_) => {},
        }
    }
}

/// Options of a request replace nothing that was encoded, and none of the fields that belong
/// to the codec.
pub proof fn extras_replace_nothing(body: JsonView, extensions: JsonView, protocol: Protocol)
    requires
        body is Object,
    ensures
        with_extras(body, extensions, protocol) matches Ok(value) ==> kept(body, value) && forall|
            key: Seq<char>,
        | controlled(key) ==> #[trigger] value.get(key) == body.get(key),
{
    match extensions.get_object(protocol.name()) {
        None => {
            kept_itself(body);
        },
        Some(fields) => {
            extras_replace_nothing_up_to(body, fields);
        },
    }
}

proof fn extras_replace_nothing_up_to(body: JsonView, fields: Fields)
    requires
        body is Object,
    ensures
        crate::error::fold_ok(fields, body, with_extra_step()) matches Ok(value) ==> kept(
            body,
            value,
        ) && value is Object && forall|key: Seq<char>|
            controlled(key) ==> #[trigger] value.get(key) == body.get(key),
    decreases fields.len(),
{
    if fields.len() == 0 {
        kept_itself(body);
    } else {
        extras_replace_nothing_up_to(body, fields.drop_last());
        match crate::error::fold_ok(fields.drop_last(), body, with_extra_step()) {
            Ok(target) => {
                let key = fields.last().0;
                assert(with_extra_step()(target, fields.last()) == with_extra(
                    target,
                    fields.last(),
                ));
                match with_extra(target, fields.last()) {
                    Ok(value) => {
                        let inserted = match target.get(key) {
                            None => fields.last().1,
                            Some(existing) => merged(existing, fields.last().1, key)->Ok_0,
                        };
                        if target.get(key) is Some {
                            merge_replaces_nothing(target.get(key)->0, fields.last().1, key);
                        }
                        kept_by_set(target, key, inserted);
                        kept_transitive(body, target, value);
                        assert forall|other: Seq<char>| controlled(other) implies
                            #[trigger] value.get(other) == body.get(other) by {
                            assert(target.get(other) == body.get(other));
                            insert_lookup(target->Object_0, key, inserted, other);
                        }
                    },
                    Err(_) => {},
                }
            },
            Err(_) => {},
        }
    }
}

/// An option that the request does not hold yet stands in it, with the value that it was
/// given. An option for a field that belongs to the codec is refused.
pub proof fn options_are_sent(
    body: JsonView,
    extensions: JsonView,
    protocol: Protocol,
    fields: Fields,
    k: int,
)
    requires
        body is Object,
        extensions.get_object(protocol.name()) == Some(fields),
        stands_once(fields, fields[k].0, k),
    ensures
        with_extras(body, extensions, protocol) matches Ok(value) ==> {
            &&& !controlled(fields[k].0)
            &&& !body.has(fields[k].0) ==> value.get(fields[k].0) == Some(fields[k].1)
            &&& body.has(fields[k].0) ==> body.field(fields[k].0) is Object && fields[k].1 is Object
        },
{
    options_are_sent_up_to(body, fields, fields[k].0, k);
}

/// Without options nothing changes.
pub proof fn no_options_change_nothing(body: JsonView, extensions: JsonView, protocol: Protocol)
    requires
        extensions.get_object(protocol.name()) is None,
    ensures
        with_extras(body, extensions, protocol) == Ok::<JsonView, ErrorView>(body),
{
}

proof fn options_are_sent_up_to(body: JsonView, fields: Fields, key: Seq<char>, k: int)
    requires
        body is Object,
    ensures
        crate::error::fold_ok(fields, body, with_extra_step()) matches Ok(value) ==> {
            &&& value is Object
            &&& stands_nowhere(fields, key) ==> value.get(key) == body.get(key)
            &&& stands_once(fields, key, k) ==> {
                &&& !controlled(key)
                &&& !body.has(key) ==> value.get(key) == Some(fields[k].1)
                &&& body.has(key) ==> body.field(key) is Object && fields[k].1 is Object
            }
        },
    decreases fields.len(),
{
    broadcast use set_get;

    if fields.len() > 0 {
        let front = fields.drop_last();
        options_are_sent_up_to(body, front, key, k);
        extras_replace_nothing_up_to(body, front);
        assert(fields[fields.len() - 1] == fields.last());
        if let Ok(value) = crate::error::fold_ok(fields, body, with_extra_step()) {
            let target = crate::error::fold_ok(front, body, with_extra_step())->Ok_0;
            assert(with_extra_step()(target, fields.last()) == with_extra(target, fields.last()));
            if stands_nowhere(fields, key) || (stands_once(fields, key, k) && k == fields.len()
                - 1) {
                assert forall|i: int| 0 <= i < front.len() implies (#[trigger] front[i]).0
                    != key by {
                    assert(front[i] == fields[i]);
                }
                assert(stands_nowhere(front, key));
            } else if stands_once(fields, key, k) {
                assert(front[k] == fields[k]);
                assert forall|i: int| 0 <= i < front.len() && i != k implies (
                #[trigger] front[i]).0 != key by {
                    assert(front[i] == fields[i]);
                }
                assert(stands_once(front, key, k));
                assert(fields[fields.len() - 1].0 != key);
            }
        }
    }
}

/// An option that extends an encoded object is in it afterwards, where the object did not hold
/// it before.
pub proof fn extending_fields_stand(
    encoded: JsonView,
    fields: Fields,
    path: Seq<char>,
    key: Seq<char>,
    k: int,
)
    requires
        encoded is Object,
    ensures
        merged(encoded, JsonView::Object(fields), path) matches Ok(value) ==> {
            &&& value is Object
            &&& stands_nowhere(fields, key) ==> value.get(key) == encoded.get(key)
            &&& stands_once(fields, key, k) && !encoded.has(key) ==> value.get(key) == Some(
                fields[k].1,
            )
        },
    decreases fields.len(),
{
    broadcast use set_get;

    if fields.len() > 0 {
        let front = fields.drop_last();
        extending_fields_stand(encoded, front, path, key, k);
        assert(fields[fields.len() - 1] == fields.last());
        if stands_nowhere(fields, key) || (stands_once(fields, key, k) && k == fields.len() - 1) {
            assert forall|i: int| 0 <= i < front.len() implies (#[trigger] front[i]).0 != key by {
                assert(front[i] == fields[i]);
            }
            assert(stands_nowhere(front, key));
        } else if stands_once(fields, key, k) {
            assert(front[k] == fields[k]);
            assert forall|i: int| 0 <= i < front.len() && i != k implies (#[trigger] front[i]).0
                != key by {
                assert(front[i] == fields[i]);
            }
            assert(stands_once(front, key, k));
            assert(fields[fields.len() - 1].0 != key);
        }
    }
}

/// Options that the request does not hold, each named once and none for a field that belongs
/// to the codec, are taken.
pub proof fn new_options_are_taken(
    body: JsonView,
    extensions: JsonView,
    protocol: Protocol,
    fields: Fields,
)
    requires
        body is Object,
        extensions.get_object(protocol.name()) == Some(fields),
        forall|i: int|
            0 <= i < fields.len() ==> !controlled((#[trigger] fields[i]).0) && !body.has(
                fields[i].0,
            ) && stands_once(fields, fields[i].0, i),
    ensures
        with_extras(body, extensions, protocol) is Ok,
{
    new_options_are_taken_up_to(body, fields);
}

proof fn new_options_are_taken_up_to(body: JsonView, fields: Fields)
    requires
        body is Object,
        forall|i: int|
            0 <= i < fields.len() ==> !controlled((#[trigger] fields[i]).0) && !body.has(
                fields[i].0,
            ) && stands_once(fields, fields[i].0, i),
    ensures
        crate::error::fold_ok(fields, body, with_extra_step()) is Ok,
    decreases fields.len(),
{
    if fields.len() > 0 {
        let front = fields.drop_last();
        let last = fields.len() - 1;
        let key = fields[last].0;
        assert(stands_once(fields, key, last));
        assert forall|i: int| 0 <= i < front.len() implies !controlled((#[trigger] front[i]).0)
            && !body.has(front[i].0) && stands_once(front, front[i].0, i) by {
            assert(front[i] == fields[i]);
            assert(stands_once(fields, fields[i].0, i));
            assert forall|j: int| 0 <= j < front.len() && j != i implies (#[trigger] front[j]).0
                != front[i].0 by {
                assert(front[j] == fields[j]);
            }
        }
        new_options_are_taken_up_to(body, front);
        assert forall|i: int| 0 <= i < front.len() implies (#[trigger] front[i]).0 != key by {
            assert(front[i] == fields[i]);
        }
        assert(stands_nowhere(front, key));
        options_are_sent_up_to(body, front, key, 0);
        let target = crate::error::fold_ok(front, body, with_extra_step())->Ok_0;
        assert(with_extra_step()(target, fields.last()) == with_extra(target, fields.last()));
    }
}

} // verus!
