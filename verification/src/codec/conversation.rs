//! What one extension is asked, one question after another.
use crate::extension::{answered, Asked, ProtocolExtension};
use crate::model::Protocol;
use vstd::prelude::*;

verus! {

/// Whether one extension was asked these questions, one after another. `states` are the
/// extension before the first of them and after each.
pub open spec fn conversed<E: ProtocolExtension + ?Sized>(
    xs: Seq<&mut E>,
    states: Seq<&E>,
    protocol: Protocol,
    log: Seq<Asked>,
) -> bool {
    &&& xs.len() == log.len()
    &&& states.len() == log.len() + 1
    &&& forall|i: int|
        0 <= i < log.len() ==> &*(#[trigger] xs[i]) == states[i] && answered(
            xs[i],
            protocol,
            log[i],
        )
}

/// Before the first question.
pub(crate) proof fn conversation_begins<E: ProtocolExtension + ?Sized>(
    extension: &E,
    protocol: Protocol,
)
    ensures
        exists|xs: Seq<&mut E>, states: Seq<&E>|
            {
                &&& #[trigger] conversed(xs, states, protocol, Seq::<Asked>::empty())
                &&& states[0] == extension
                &&& states.last() == extension
                &&& forall|i: int| 0 <= i < xs.len() ==> &*final(#[trigger] xs[i]) == states[i + 1]
            },
{
    let xs = Seq::<&mut E>::empty();
    let states = seq![extension];
    assert(conversed(xs, states, protocol, Seq::<Asked>::empty()));
}

/// One question more.
pub(crate) proof fn conversation_goes_on<E: ProtocolExtension + ?Sized>(
    first: &E,
    from: &E,
    to: &E,
    protocol: Protocol,
    log: Seq<Asked>,
    asked: Asked,
)
    requires
        exists|xs: Seq<&mut E>, states: Seq<&E>|
            {
                &&& #[trigger] conversed(xs, states, protocol, log)
                &&& states[0] == first
                &&& states.last() == from
                &&& forall|i: int| 0 <= i < xs.len() ==> &*final(#[trigger] xs[i]) == states[i + 1]
            },
        exists|x: &mut E|
            #[trigger] answered(x, protocol, asked) && &*x == from && &*final(x) == to,
    ensures
        exists|xs: Seq<&mut E>, states: Seq<&E>|
            {
                &&& #[trigger] conversed(xs, states, protocol, log.push(asked))
                &&& states[0] == first
                &&& states.last() == to
                &&& forall|i: int| 0 <= i < xs.len() ==> &*final(#[trigger] xs[i]) == states[i + 1]
            },
{
    let (xs, states) = choose|xs: Seq<&mut E>, states: Seq<&E>|
        {
            &&& #[trigger] conversed(xs, states, protocol, log)
            &&& states[0] == first
            &&& states.last() == from
            &&& forall|i: int| 0 <= i < xs.len() ==> &*final(#[trigger] xs[i]) == states[i + 1]
        };
    let x = choose|x: &mut E|
        #[trigger] answered(x, protocol, asked) && &*x == from && &*final(x) == to;
    let ys = xs.push(x);
    let more = states.push(to);
    assert(conversed(ys, more, protocol, log.push(asked))) by {
        assert forall|i: int| 0 <= i < ys.len() implies &*(#[trigger] ys[i]) == more[i]
            && answered(ys[i], protocol, log.push(asked)[i]) by {
            if i < log.len() {
                assert(ys[i] == xs[i]);
            }
        }
    }
    assert forall|i: int| 0 <= i < ys.len() implies &*final(#[trigger] ys[i]) == more[i + 1] by {
        if i < log.len() {
            assert(ys[i] == xs[i]);
        }
    }
}

/// Two conversations of which the second begins where the first ended are one.
pub(crate) proof fn conversations_join<E: ProtocolExtension + ?Sized>(
    first: &E,
    middle: &E,
    last: &E,
    protocol: Protocol,
    log: Seq<Asked>,
    more: Seq<Asked>,
)
    requires
        exists|xs: Seq<&mut E>, states: Seq<&E>|
            {
                &&& #[trigger] conversed(xs, states, protocol, log)
                &&& states[0] == first
                &&& states.last() == middle
                &&& forall|i: int| 0 <= i < xs.len() ==> &*final(#[trigger] xs[i]) == states[i + 1]
            },
        exists|xs: Seq<&mut E>, states: Seq<&E>|
            {
                &&& #[trigger] conversed(xs, states, protocol, more)
                &&& states[0] == middle
                &&& states.last() == last
                &&& forall|i: int| 0 <= i < xs.len() ==> &*final(#[trigger] xs[i]) == states[i + 1]
            },
    ensures
        exists|xs: Seq<&mut E>, states: Seq<&E>|
            {
                &&& #[trigger] conversed(xs, states, protocol, log + more)
                &&& states[0] == first
                &&& states.last() == last
                &&& forall|i: int| 0 <= i < xs.len() ==> &*final(#[trigger] xs[i]) == states[i + 1]
            },
{
    let (xs, states) = choose|xs: Seq<&mut E>, states: Seq<&E>|
        {
            &&& #[trigger] conversed(xs, states, protocol, log)
            &&& states[0] == first
            &&& states.last() == middle
            &&& forall|i: int| 0 <= i < xs.len() ==> &*final(#[trigger] xs[i]) == states[i + 1]
        };
    let (ys, later) = choose|xs: Seq<&mut E>, states: Seq<&E>|
        {
            &&& #[trigger] conversed(xs, states, protocol, more)
            &&& states[0] == middle
            &&& states.last() == last
            &&& forall|i: int| 0 <= i < xs.len() ==> &*final(#[trigger] xs[i]) == states[i + 1]
        };
    let zs = xs + ys;
    let all = states + later.drop_first();
    assert(conversed(zs, all, protocol, log + more)) by {
        assert forall|i: int| 0 <= i < zs.len() implies &*(#[trigger] zs[i]) == all[i] && answered(
            zs[i],
            protocol,
            (log + more)[i],
        ) by {
            if i < log.len() {
                assert(zs[i] == xs[i]);
            } else {
                assert(zs[i] == ys[i - log.len()]);
            }
        }
    }
    assert(all.last() == last) by {
        if more.len() == 0 {
            assert(later.last() == later[0]);
        }
    }
    assert forall|i: int| 0 <= i < zs.len() implies &*final(#[trigger] zs[i]) == all[i + 1] by {
        if i < log.len() {
            assert(zs[i] == xs[i]);
        } else {
            assert(zs[i] == ys[i - log.len()]);
        }
    }
}

} // verus!
