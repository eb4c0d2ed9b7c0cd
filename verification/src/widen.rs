//! Broadcasting of known values to wider types.

use crate::data_type::DataType;
use crate::known_data::{KnownData, Value};
use vstd::prelude::*;

verus! {

impl Value {
    /// The value, repeated as often as the array layers of `to` ask for: a
    /// scalar or an array of length 1 fills an array layer with copies, an
    /// array of the right length is widened item by item.
    pub open spec fn widened(self, to: DataType) -> Value
        decreases to,
    {
        match to {
            DataType::Array(len, base) => match self {
                Value::Array(items) => if items.len() == 1 && len != 1 {
                    Value::Array(Seq::new(len as nat, |i: int| items[0].widened(*base)))
                } else {
                    Value::Array(Seq::new(items.len(), |i: int| items[i].widened(*base)))
                },
                _ => Value::Array(Seq::new(len as nat, |i: int| self.widened(*base))),
            },
            _ => self,
        }
    }
}

impl KnownData {
    /// Broadcasts the value to the type `to`.
    pub fn widen(&self, to: &DataType) -> (r: KnownData)
        ensures
            r@ == self@.widened(*to),
        decreases *to,
    {
        match to {
            DataType::Array(len, base) => {
                let mut copies: Vec<KnownData> = Vec::new();
                match self {
                    KnownData::Array(items) => {
                        proof {
                            crate::known_data::lemma_array_view(*self);
                        }
                        if items.len() == 1 && *len != 1 {
                            let item = (&items[0]).widen(base);
                            let mut i: usize = 0;
                            while i < *len
                                invariant
                                    i <= *len,
                                    copies@.len() == i,
                                    forall|j: int| 0 <= j < i ==> (#[trigger] copies@[j])@ == item@,
                                decreases *len - i,
                            {
                                copies.push(item.clone());
                                i += 1;
                            }
                            let r = KnownData::Array(copies);
                            assert(r@->Array_0 =~= self@.widened(*to)->Array_0);
                            r
                        } else {
                            let mut i: usize = 0;
                            while i < items.len()
                                invariant
                                    *to is Array,
                                    to->Array_1 == *base,
                                    i <= items.len(),
                                    copies@.len() == i,
                                    forall|j: int|
                                        0 <= j < i ==> (#[trigger] copies@[j])@ == items@[j]@.widened(
                                            **base,
                                        ),
                                decreases items.len() - i,
                            {
                                copies.push((&items[i]).widen(base));
                                i += 1;
                            }
                            let r = KnownData::Array(copies);
                            assert(r@->Array_0 =~= self@.widened(*to)->Array_0);
                            r
                        }
                    },
                    _ => {
                        let item = self.widen(base);
                        let mut i: usize = 0;
                        while i < *len
                            invariant
                                i <= *len,
                                copies@.len() == i,
                                forall|j: int| 0 <= j < i ==> (#[trigger] copies@[j])@ == item@,
                            decreases *len - i,
                        {
                            copies.push(item.clone());
                            i += 1;
                        }
                        let r = KnownData::Array(copies);
                        assert(r@->Array_0 =~= self@.widened(*to)->Array_0);
                        r
                    },
                }
            },
            _ => self.clone(),
        }
    }
}

} // verus!

verus! {

impl Value {
    /// The value with the item that `indexes` select replaced by `item`, or
    /// `None` where they select nothing.
    pub open spec fn with_item(self, indexes: Seq<i64>, item: Value) -> Option<Value>
        decreases indexes.len(),
    {
        if indexes.len() == 0 {
            Some(item)
        } else {
            match self {
                Value::Array(items) => if 0 <= indexes[0] < items.len() {
                    match items[indexes[0] as int].with_item(
                        indexes.subrange(1, indexes.len() as int),
                        item,
                    ) {
                        Some(inner) => Some(Value::Array(items.update(indexes[0] as int, inner))),
                        None => None,
                    }
                } else {
                    None
                },
                _ => None,
            }
        }
    }
}

impl KnownData {
    /// Replaces the item that `indexes` select by `item`. Where they select
    /// nothing, the value stays as it is, and the result is `false`.
    pub fn set_item(&mut self, indexes: &Vec<i64>, item: KnownData) -> (done: bool)
        ensures
            match old(self)@.with_item(indexes@, item@) {
                Some(value) => done && final(self)@ == value,
                None => !done && final(self)@ == old(self)@,
            },
    {
        assert(indexes@.subrange(0, indexes@.len() as int) =~= indexes@);
        self.set_item_from(indexes, 0, item)
    }

    fn set_item_from(&mut self, indexes: &Vec<i64>, first: usize, item: KnownData) -> (done: bool)
        requires
            first <= indexes@.len(),
        ensures
            match old(self)@.with_item(
                indexes@.subrange(first as int, indexes@.len() as int),
                item@,
            ) {
                Some(value) => done && final(self)@ == value,
                None => !done && final(self)@ == old(self)@,
            },
        decreases indexes@.len() - first,
    {
        let ghost rest = indexes@.subrange(first as int, indexes@.len() as int);
        if first == indexes.len() {
            *self = item;
            true
        } else {
            assert(rest.subrange(1, rest.len() as int) =~= indexes@.subrange(
                first + 1,
                indexes@.len() as int,
            ));
            let wanted: i64 = indexes[first];
            match self {
                KnownData::Array(items) => {
                    if wanted >= 0 && (wanted as u64) < (items.len() as u64) {
                        let ghost before = items@;
                        let done = items[wanted as usize].set_item_from(indexes, first + 1, item);
                        proof {
                            assert(items@.len() == before.len());
                            assert forall|k: int| 0 <= k < before.len() && k != wanted implies items@[k]
                                == before[k] by {}
                            if done {
                                assert(crate::known_data::items_view(items@)
                                    =~= crate::known_data::items_view(before).update(
                                    wanted as int,
                                    items@[wanted as int]@,
                                ));
                            } else {
                                assert(crate::known_data::items_view(items@)
                                    =~= crate::known_data::items_view(before));
                            }
                        }
                        done
                    } else {
                        false
                    }
                },
                _ => false,
            }
        }
    }
}

} // verus!
