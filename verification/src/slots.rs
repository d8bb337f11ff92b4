//! Values at numbered places, kept in ascending order of their numbers.
use vstd::prelude::*;

verus! {

/// The value at a place.
pub open spec fn slot_get<V>(slots: Seq<(u64, V)>, key: u64) -> Option<V>
    decreases slots.len(),
{
    if slots.len() == 0 {
        None
    } else if slots[0].0 == key {
        Some(slots[0].1)
    } else {
        slot_get(slots.skip(1), key)
    }
}

/// The slots with a value at a place: in the stead of what was there, or else in front of
/// the first higher number.
pub open spec fn slot_put<V>(slots: Seq<(u64, V)>, key: u64, value: V) -> Seq<(u64, V)>
    decreases slots.len(),
{
    if slots.len() == 0 || key < slots[0].0 {
        seq![(key, value)] + slots
    } else if slots[0].0 == key {
        slots.update(0, (key, value))
    } else {
        seq![slots[0]] + slot_put(slots.skip(1), key, value)
    }
}

/// The slots without a place.
pub open spec fn slot_remove<V>(slots: Seq<(u64, V)>, key: u64) -> Seq<(u64, V)>
    decreases slots.len(),
{
    if slots.len() == 0 {
        slots
    } else if slots[0].0 == key {
        slots.skip(1)
    } else {
        seq![slots[0]] + slot_remove(slots.skip(1), key)
    }
}

pub open spec fn slot_values<V>(slots: Seq<(u64, V)>) -> Seq<V> {
    slots.map_values(|s: (u64, V)| s.1)
}

/// Whether the numbers ascend; each then occurs once.
pub open spec fn slots_ascend<V>(slots: Seq<(u64, V)>) -> bool {
    forall|i: int, j: int|
        0 <= i < j < slots.len() ==> (#[trigger] slots[i]).0 < (#[trigger] slots[j]).0
}

/// A place holds what was put there, and every other place what it held.
pub proof fn slot_put_get<V>(slots: Seq<(u64, V)>, key: u64, value: V, other: u64)
    ensures
        slot_get(slot_put(slots, key, value), key) == Some(value),
        other != key ==> slot_get(slot_put(slots, key, value), other) == slot_get(slots, other),
    decreases slots.len(),
{
    let after = slot_put(slots, key, value);
    if slots.len() == 0 || key < slots[0].0 {
        assert(after.skip(1) =~= slots);
    } else if slots[0].0 == key {
        assert(after.skip(1) =~= slots.skip(1));
    } else {
        slot_put_get(slots.skip(1), key, value, other);
        assert(after.skip(1) =~= slot_put(slots.skip(1), key, value));
    }
}

/// The numbers still ascend once a value was put; what is new is the one place.
pub proof fn slot_put_ascends<V>(slots: Seq<(u64, V)>, key: u64, value: V)
    requires
        slots_ascend(slots),
    ensures
        slots_ascend(slot_put(slots, key, value)),
        forall|i: int|
            0 <= i < slot_put(slots, key, value).len() ==> ((#[trigger] slot_put(
                slots,
                key,
                value,
            )[i]).0 == key || exists|j: int|
                0 <= j < slots.len() && slots[j] == slot_put(slots, key, value)[i]),
        slot_put(slots, key, value).len() > 0,
    decreases slots.len(),
{
    let after = slot_put(slots, key, value);
    if slots.len() == 0 || key < slots[0].0 {
        assert forall|i: int| 0 <= i < after.len() implies ((#[trigger] after[i]).0 == key
            || exists|j: int| 0 <= j < slots.len() && slots[j] == after[i]) by {
            if i > 0 {
                assert(slots[i - 1] == after[i]);
            }
        }
    } else if slots[0].0 == key {
        assert forall|i: int| 0 <= i < after.len() implies ((#[trigger] after[i]).0 == key
            || exists|j: int| 0 <= j < slots.len() && slots[j] == after[i]) by {
            if i > 0 {
                assert(slots[i] == after[i]);
            }
        }
    } else {
        let rest = slots.skip(1);
        let put = slot_put(rest, key, value);
        assert forall|a: int, b: int| 0 <= a < b < rest.len() implies (#[trigger] rest[a]).0 < (
        #[trigger] rest[b]).0 by {
            assert(slots[a + 1].0 < slots[b + 1].0);
        }
        slot_put_ascends(rest, key, value);
        assert forall|i: int| 0 <= i < after.len() implies ((#[trigger] after[i]).0 == key
            || exists|j: int| 0 <= j < slots.len() && slots[j] == after[i]) by {
            if i == 0 {
                assert(slots[0] == after[0]);
            } else {
                assert(after[i] == put[i - 1]);
                if put[i - 1].0 != key {
                    let j = choose|j: int| 0 <= j < rest.len() && rest[j] == put[i - 1];
                    assert(slots[j + 1] == after[i]);
                }
            }
        }
        assert forall|a: int, b: int| 0 <= a < b < after.len() implies (#[trigger] after[a]).0 < (
        #[trigger] after[b]).0 by {
            assert(after[b] == put[b - 1]);
            if a == 0 {
                if put[b - 1].0 != key {
                    let j = choose|j: int| 0 <= j < rest.len() && rest[j] == put[b - 1];
                    assert(slots[0].0 < slots[j + 1].0);
                }
            } else {
                assert(after[a] == put[a - 1]);
                assert(put[a - 1].0 < put[b - 1].0);
            }
        }
    }
}

/// A place that was removed holds nothing, and every other place what it held.
pub proof fn slot_remove_get<V>(slots: Seq<(u64, V)>, key: u64, other: u64)
    requires
        slots_ascend(slots),
    ensures
        slots_ascend(slot_remove(slots, key)),
        slot_get(slot_remove(slots, key), key) is None,
        other != key ==> slot_get(slot_remove(slots, key), other) == slot_get(slots, other),
        forall|i: int|
            0 <= i < slot_remove(slots, key).len() ==> exists|j: int|
                0 <= j < slots.len() && slots[j] == #[trigger] slot_remove(slots, key)[i],
    decreases slots.len(),
{
    let after = slot_remove(slots, key);
    if slots.len() > 0 {
        let rest = slots.skip(1);
        assert forall|i: int, j: int| 0 <= i < j < rest.len() implies (#[trigger] rest[i]).0 < (
        #[trigger] rest[j]).0 by {
            assert(slots[i + 1].0 < slots[j + 1].0);
        }
        if slots[0].0 == key {
            not_below(rest, key);
            assert forall|i: int| 0 <= i < after.len() implies exists|j: int|
                0 <= j < slots.len() && slots[j] == #[trigger] after[i] by {
                assert(slots[i + 1] == after[i]);
            }
        } else {
            let shorter = slot_remove(rest, key);
            slot_remove_get(rest, key, other);
            assert(after.skip(1) =~= shorter);
            assert forall|i: int| 0 <= i < after.len() implies exists|j: int|
                0 <= j < slots.len() && slots[j] == #[trigger] after[i] by {
                if i == 0 {
                    assert(slots[0] == after[0]);
                } else {
                    assert(after[i] == shorter[i - 1]);
                    let j = choose|j: int| 0 <= j < rest.len() && rest[j] == shorter[i - 1];
                    assert(slots[j + 1] == after[i]);
                }
            }
            assert forall|i: int, j: int| 0 <= i < j < after.len() implies (#[trigger] after[i]).0
                < (#[trigger] after[j]).0 by {
                assert(after[j] == shorter[j - 1]);
                if i == 0 {
                    let k = choose|k: int| 0 <= k < rest.len() && rest[k] == shorter[j - 1];
                    assert(slots[0].0 < slots[k + 1].0);
                } else {
                    assert(after[i] == shorter[i - 1]);
                }
            }
        }
    }
}

proof fn not_below<V>(slots: Seq<(u64, V)>, key: u64)
    requires
        forall|i: int| 0 <= i < slots.len() ==> key < (#[trigger] slots[i]).0,
    ensures
        slot_get(slots, key) is None,
    decreases slots.len(),
{
    if slots.len() > 0 {
        let rest = slots.skip(1);
        assert forall|i: int| 0 <= i < rest.len() implies key < (#[trigger] rest[i]).0 by {
            assert(rest[i] == slots[i + 1]);
        }
        not_below(rest, key);
    }
}

proof fn found_at<V>(slots: Seq<(u64, V)>, key: u64, i: int)
    requires
        0 <= i < slots.len(),
        slots[i].0 == key,
        forall|j: int| 0 <= j < i ==> (#[trigger] slots[j]).0 < key,
    ensures
        slot_get(slots, key) == Some(slots[i].1),
        forall|value: V| #[trigger] slot_put(slots, key, value) == slots.update(i, (key, value)),
        slot_remove(slots, key) == slots.remove(i),
    decreases i,
{
    if i == 0 {
        assert(slots.skip(1) =~= slots.remove(0));
    } else {
        let rest = slots.skip(1);
        assert forall|j: int| 0 <= j < i - 1 implies (#[trigger] rest[j]).0 < key by {
            assert(rest[j] == slots[j + 1]);
        }
        assert(slots[0].0 < key);
        found_at(rest, key, i - 1);
        assert forall|value: V| #[trigger]
            slot_put(slots, key, value) == slots.update(i, (key, value)) by {
            assert(slot_put(rest, key, value) == rest.update(i - 1, (key, value)));
            assert(seq![slots[0]] + rest.update(i - 1, (key, value)) =~= slots.update(
                i,
                (key, value),
            ));
        }
        assert(seq![slots[0]] + rest.remove(i - 1) =~= slots.remove(i));
    }
}

proof fn absent_at<V>(slots: Seq<(u64, V)>, key: u64, i: int)
    requires
        0 <= i <= slots.len(),
        slots_ascend(slots),
        forall|j: int| 0 <= j < i ==> (#[trigger] slots[j]).0 < key,
        i < slots.len() ==> key < slots[i].0,
    ensures
        slot_get(slots, key) is None,
        forall|value: V| #[trigger] slot_put(slots, key, value) == slots.insert(i, (key, value)),
        slot_remove(slots, key) == slots,
    decreases slots.len(),
{
    if slots.len() == 0 {
        assert forall|value: V| #[trigger]
            slot_put(slots, key, value) == slots.insert(i, (key, value)) by {
            assert(seq![(key, value)] + slots =~= slots.insert(i, (key, value)));
        }
    } else {
        let rest = slots.skip(1);
        assert(slots_ascend(rest)) by {
            assert forall|a: int, b: int| 0 <= a < b < rest.len() implies (
            #[trigger] rest[a]).0 < (#[trigger] rest[b]).0 by {
                assert(slots[a + 1].0 < slots[b + 1].0);
            }
        }
        if i == 0 {
            assert forall|j: int| 0 <= j < 0 implies (#[trigger] rest[j]).0 < key by {}
            if rest.len() > 0 {
                assert(slots[0].0 < slots[1].0);
                assert(rest[0] == slots[1]);
            }
            absent_at(rest, key, 0);
            assert forall|value: V| #[trigger]
                slot_put(slots, key, value) == slots.insert(i, (key, value)) by {
                assert(seq![(key, value)] + slots =~= slots.insert(0, (key, value)));
            }
            assert(seq![slots[0]] + rest =~= slots);
        } else {
            assert forall|j: int| 0 <= j < i - 1 implies (#[trigger] rest[j]).0 < key by {
                assert(rest[j] == slots[j + 1]);
            }
            if i < slots.len() {
                assert(rest[i - 1] == slots[i]);
            }
            assert(slots[0].0 < key);
            absent_at(rest, key, i - 1);
            assert forall|value: V| #[trigger]
                slot_put(slots, key, value) == slots.insert(i, (key, value)) by {
                assert(slot_put(rest, key, value) == rest.insert(i - 1, (key, value)));
                assert(seq![slots[0]] + rest.insert(i - 1, (key, value)) =~= slots.insert(
                    i,
                    (key, value),
                ));
            }
            assert(seq![slots[0]] + rest =~= slots);
        }
    }
}

/// Values at numbered places.
pub struct Slots<T> {
    items: Vec<(u64, T)>,
}

impl<T: DeepView> DeepView for Slots<T> {
    type V = Seq<(u64, T::V)>;

    closed spec fn deep_view(&self) -> Seq<(u64, T::V)> {
        self.items.deep_view()
    }
}

impl<T: DeepView> Slots<T> {
    pub fn new() -> (r: Slots<T>)
        ensures
            r.deep_view() == Seq::<(u64, T::V)>::empty(),
    {
        let r = Slots { items: Vec::new() };
        assert(r.deep_view() =~= Seq::<(u64, T::V)>::empty());
        r
    }

    pub fn len(&self) -> (r: usize)
        ensures
            r == self.deep_view().len(),
    {
        self.items.len()
    }

    /// The first position whose number is not below the key.
    fn seek(&self, key: u64) -> (r: usize)
        ensures
            r <= self.items@.len(),
            forall|j: int| 0 <= j < r ==> (#[trigger] self.deep_view()[j]).0 < key,
            r < self.items@.len() ==> self.deep_view()[r as int].0 >= key,
            r < self.items@.len() ==> self.deep_view()[r as int].0 == self.items@[r as int].0,
    {
        let mut i: usize = 0;
        while i < self.items.len() && self.items[i].0 < key
            invariant
                i <= self.items@.len(),
                forall|j: int| 0 <= j < i ==> (#[trigger] self.deep_view()[j]).0 < key,
            decreases self.items@.len() - i,
        {
            i += 1;
        }
        i
    }

    pub fn get(&self, key: u64) -> (r: Option<&T>)
        requires
            slots_ascend(self.deep_view()),
        ensures
            r.deep_view() == slot_get(self.deep_view(), key),
    {
        let i = self.seek(key);
        if i < self.items.len() && self.items[i].0 == key {
            proof {
                found_at(self.deep_view(), key, i as int);
            }
            Some(&self.items[i].1)
        } else {
            proof {
                absent_at(self.deep_view(), key, i as int);
            }
            None
        }
    }

    pub fn put(&mut self, key: u64, value: T)
        requires
            slots_ascend(old(self).deep_view()),
        ensures
            final(self).deep_view() == slot_put(old(self).deep_view(), key, value.deep_view()),
            slots_ascend(final(self).deep_view()),
    {
        let ghost before = self.deep_view();
        let i = self.seek(key);
        if i < self.items.len() && self.items[i].0 == key {
            proof {
                found_at(before, key, i as int);
            }
            self.items[i].1 = value;
            assert(self.deep_view() =~= before.update(i as int, (key, value.deep_view())));
            assert(slots_ascend(self.deep_view())) by {
                assert forall|a: int, b: int| 0 <= a < b < before.len() implies (
                #[trigger] self.deep_view()[a]).0 < (#[trigger] self.deep_view()[b]).0 by {
                    assert(before[a].0 < before[b].0);
                }
            }
        } else {
            proof {
                absent_at(before, key, i as int);
            }
            self.items.insert(i, (key, value));
            assert(self.deep_view() =~= before.insert(i as int, (key, value.deep_view())));
            assert(slots_ascend(self.deep_view())) by {
                let after = self.deep_view();
                assert forall|a: int, b: int| 0 <= a < b < after.len() implies (
                #[trigger] after[a]).0 < (#[trigger] after[b]).0 by {
                    let x = if a < i {
                        a
                    } else {
                        a - 1
                    };
                    let y = if b < i {
                        b
                    } else {
                        b - 1
                    };
                    if a != i && b != i {
                        assert(before[x].0 < before[y].0);
                    } else if a == i {
                        if y > i {
                            assert(before[i as int].0 < before[y].0);
                        }
                    }
                }
            }
        }
    }

    pub fn remove(&mut self, key: u64) -> (r: Option<T>)
        requires
            slots_ascend(old(self).deep_view()),
        ensures
            r.deep_view() == slot_get(old(self).deep_view(), key),
            final(self).deep_view() == slot_remove(old(self).deep_view(), key),
            slots_ascend(final(self).deep_view()),
    {
        let ghost before = self.deep_view();
        let i = self.seek(key);
        if i < self.items.len() && self.items[i].0 == key {
            proof {
                found_at(before, key, i as int);
            }
            let (_, value) = self.items.remove(i);
            assert(self.deep_view() =~= before.remove(i as int));
            assert(slots_ascend(self.deep_view())) by {
                let after = self.deep_view();
                assert forall|a: int, b: int| 0 <= a < b < after.len() implies (
                #[trigger] after[a]).0 < (#[trigger] after[b]).0 by {
                    let x = if a < i {
                        a
                    } else {
                        a + 1
                    };
                    let y = if b < i {
                        b
                    } else {
                        b + 1
                    };
                    assert(before[x].0 < before[y].0);
                }
            }
            Some(value)
        } else {
            proof {
                absent_at(before, key, i as int);
            }
            None
        }
    }

    /// The place and value at a position.
    pub fn at(&self, i: usize) -> (r: (u64, &T))
        requires
            i < self.deep_view().len(),
        ensures
            r.0 == self.deep_view()[i as int].0,
            r.1.deep_view() == self.deep_view()[i as int].1,
    {
        (self.items[i].0, &self.items[i].1)
    }
}

} // verus!
