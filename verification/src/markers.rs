//! Texts and markers in native data. A marker is an object with a key of its own; it stands
//! for a payload that is kept elsewhere.
use crate::json::{
    field_is_smaller, first_field, group_json_views, index_token, item_is_smaller, lookup,
    next_slash, next_slash_bound, unescape, Fields, Json, JsonView,
};
use crate::text::same;
use vstd::prelude::*;

verus! {

/// Whether a value holds a text.
pub open spec fn holds_text(value: JsonView, text: Seq<char>) -> bool
    decreases value,
{
    match value {
        JsonView::Text(found) => found == text,
        JsonView::Object(fields) => exists|i: int|
            0 <= i < fields.len() && holds_text((#[trigger] fields[i]).1, text),
        JsonView::Array(items) => exists|i: int|
            0 <= i < items.len() && holds_text(#[trigger] items[i], text),
        _ => false,
    }
}

/// Whether native data holds no marker.
pub open spec fn unmarked(value: JsonView, key: Seq<char>) -> bool
    decreases value,
{
    match value {
        JsonView::Object(fields) => lookup(fields, key) is None && forall|i: int|
            0 <= i < fields.len() ==> unmarked((#[trigger] fields[i]).1, key),
        JsonView::Array(items) => forall|i: int|
            0 <= i < items.len() ==> unmarked(#[trigger] items[i], key),
        _ => true,
    }
}

/// Whether no marker holds a text.
pub open spec fn clear_of(value: JsonView, key: Seq<char>, text: Seq<char>) -> bool
    decreases value,
{
    match value {
        JsonView::Object(fields) => if lookup(fields, key) is Some {
            !holds_text(value, text)
        } else {
            forall|i: int| 0 <= i < fields.len() ==> clear_of((#[trigger] fields[i]).1, key, text)
        },
        JsonView::Array(items) => forall|i: int|
            0 <= i < items.len() ==> clear_of(#[trigger] items[i], key, text),
        _ => true,
    }
}

/// Where there is no marker, none holds a text.
pub proof fn unmarked_is_clear(value: JsonView, key: Seq<char>, text: Seq<char>)
    requires
        unmarked(value, key),
    ensures
        clear_of(value, key, text),
    decreases value,
{
    match value {
        JsonView::Object(fields) => {
            assert forall|i: int| 0 <= i < fields.len() implies clear_of(
                (#[trigger] fields[i]).1,
                key,
                text,
            ) by {
                unmarked_is_clear(fields[i].1, key, text);
            }
        },
        JsonView::Array(items) => {
            assert forall|i: int| 0 <= i < items.len() implies clear_of(
                #[trigger] items[i],
                key,
                text,
            ) by {
                unmarked_is_clear(items[i], key, text);
            }
        },
        _ => {},
    }
}

proof fn text_in_item(items: Seq<JsonView>, text: Seq<char>, i: int)
    requires
        0 <= i < items.len(),
        holds_text(items[i], text),
    ensures
        holds_text(JsonView::Array(items), text),
{
    let value = JsonView::Array(items);
    assert(holds_text(value->Array_0[i], text));
}

proof fn text_in_field(fields: Fields, text: Seq<char>, i: int)
    requires
        0 <= i < fields.len(),
        holds_text(fields[i].1, text),
    ensures
        holds_text(JsonView::Object(fields), text),
{
    let value = JsonView::Object(fields);
    assert(holds_text(value->Object_0[i].1, text));
}

/// A text that a path addresses is held.
pub proof fn addressed_text_is_held(value: JsonView, path: Seq<char>, text: Seq<char>)
    requires
        value.pointer(path) == Some(JsonView::Text(text)),
    ensures
        holds_text(value, text),
    decreases path.len(),
{
    if path.len() > 0 {
        let rest = path.skip(1);
        let n = next_slash(rest);
        next_slash_bound(rest);
        let token = unescape(rest.take(n as int));
        let next = value.step(token)->0;
        addressed_text_is_held(next, rest.skip(n as int), text);
        match value {
            JsonView::Object(fields) => {
                let k = first_field(fields, token);
                text_in_field(fields, text, k);
            },
            JsonView::Array(items) => {
                text_in_item(items, text, index_token(token)->0 as int);
            },
            _ => {},
        }
    }
}

/// Whether a value holds a text.
pub fn contains(value: &Json, text: &str) -> (r: bool)
    ensures
        r == holds_text(value@, text@),
    decreases value,
{
    broadcast use group_json_views;

    match value {
        Json::Text(found) => same(found, text),
        Json::Array(items) => {
            let mut i: usize = 0;
            while i < items.len()
                invariant
                    i <= items@.len(),
                    *value == Json::Array(*items),
                    value@ == JsonView::Array(items.deep_view()),
                    forall|j: int|
                        0 <= j < i ==> !holds_text(#[trigger] items.deep_view()[j], text@),
                decreases items@.len() - i,
            {
                proof {
                    item_is_smaller(*value, i as int);
                }
                assert(items.deep_view()[i as int] == items@[i as int]@);
                if contains(&items[i], text) {
                    proof {
                        text_in_item(items.deep_view(), text@, i as int);
                    }
                    return true;
                }
                i += 1;
            }
            false
        },
        Json::Object(fields) => {
            let mut i: usize = 0;
            while i < fields.len()
                invariant
                    i <= fields@.len(),
                    *value == Json::Object(*fields),
                    value@ == JsonView::Object(fields.deep_view()),
                    forall|j: int|
                        0 <= j < i ==> !holds_text((#[trigger] fields.deep_view()[j]).1, text@),
                decreases fields@.len() - i,
            {
                proof {
                    field_is_smaller(*value, i as int);
                }
                assert(fields.deep_view()[i as int].1 == fields@[i as int].1@);
                if contains(&fields[i].1, text) {
                    proof {
                        text_in_field(fields.deep_view(), text@, i as int);
                    }
                    return true;
                }
                i += 1;
            }
            false
        },
        _ => false,
    }
}

} // verus!
