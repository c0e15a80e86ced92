//! Documents: ordered maps from field names to values, with unique keys.
//!
//! A document here holds the library's own values, among them a floating
//! point number as its bit pattern, so that every value can be compared and
//! reasoned about. It takes a field as the document store's own map does: a
//! known name keeps its place and gets the new value, a new name goes to the
//! end. The caller turns a finished document into the store's form, field by
//! field.

use vstd::prelude::*;
use crate::text::str_eq;
use crate::value::{TypedValue, Value};

verus! {

/// The mathematical content of a document: its fields in order.
pub type Fields = Seq<(Seq<char>, Value)>;

/// Whether some field of `fields` has the name `key`.
pub open spec fn has_key(fields: Fields, key: Seq<char>) -> bool {
    exists|i: int| 0 <= i < fields.len() && (#[trigger] fields[i]).0 == key
}

/// Whether no two fields share a name.
pub open spec fn keys_distinct(fields: Fields) -> bool {
    forall|i: int, j: int|
        0 <= i < j < fields.len() ==> (#[trigger] fields[i]).0 != (#[trigger] fields[j]).0
}

/// The position of a field named `key`, where there is one.
pub open spec fn position(fields: Fields, key: Seq<char>) -> int {
    choose|i: int| 0 <= i < fields.len() && (#[trigger] fields[i]).0 == key
}

/// The fields after `key` is set to `value`: a field of that name keeps its
/// place and takes the new value, the last write winning; a new name goes to
/// the end.
pub open spec fn put(fields: Fields, key: Seq<char>, value: Value) -> Fields {
    if has_key(fields, key) {
        fields.update(position(fields, key), (key, value))
    } else {
        fields.push((key, value))
    }
}

/// The value of the field named `key`, where there is one.
pub open spec fn lookup(fields: Fields, key: Seq<char>) -> Option<Value> {
    if has_key(fields, key) {
        Some(fields[position(fields, key)].1)
    } else {
        None
    }
}

/// Where no two fields share a name, a name stands at one position only: a
/// field of that name is the one that `position` and `lookup` find.
pub proof fn lemma_position_unique(fields: Fields, key: Seq<char>, at: int)
    requires
        keys_distinct(fields),
        0 <= at < fields.len(),
        fields[at].0 == key,
    ensures
        has_key(fields, key),
        position(fields, key) == at,
        lookup(fields, key) == Some(fields[at].1),
{
    let p = position(fields, key);
    if p < at {
        assert(fields[p].0 != fields[at].0);
    } else if at < p {
        assert(fields[at].0 != fields[p].0);
    }
}

/// Setting a field keeps the names distinct, and the field then has the
/// value that was set.
pub proof fn lemma_put_keeps_distinct(fields: Fields, key: Seq<char>, value: Value)
    requires
        keys_distinct(fields),
    ensures
        keys_distinct(put(fields, key, value)),
        has_key(put(fields, key, value), key),
        lookup(put(fields, key, value), key) == Some(value),
{
    let after = put(fields, key, value);
    if has_key(fields, key) {
        lemma_position_unique(after, key, position(fields, key));
    } else {
        assert forall|i: int, j: int| 0 <= i < j < after.len() implies (#[trigger] after[i]).0 != (
        #[trigger] after[j]).0 by {
            if j == fields.len() {
                assert(fields[i].0 != key);
            } else {
                assert(fields[i].0 != fields[j].0);
            }
        }
        lemma_position_unique(after, key, fields.len() as int);
    }
}

/// Setting a field leaves the fields of every other name as they were.
pub proof fn lemma_put_keeps_others(
    fields: Fields,
    key: Seq<char>,
    value: Value,
    other: Seq<char>,
)
    requires
        keys_distinct(fields),
        other != key,
    ensures
        has_key(put(fields, key, value), other) == has_key(fields, other),
        lookup(put(fields, key, value), other) == lookup(fields, other),
{
    let after = put(fields, key, value);
    lemma_put_keeps_distinct(fields, key, value);
    if has_key(fields, other) {
        let q = position(fields, other);
        assert(after[q] == fields[q]);
        lemma_position_unique(after, other, q);
    } else if has_key(after, other) {
        let q = position(after, other);
        if q < fields.len() {
            assert(fields[q].0 == other || after[q].0 == key);
        }
    }
}

/// An ordered map from field names to values, one per source row.
#[derive(Debug, PartialEq, Eq)]
pub struct Document {
    entries: Vec<(String, TypedValue)>,
}

impl View for Document {
    type V = Fields;

    closed spec fn view(&self) -> Fields {
        self.entries@.map_values(|e: (String, TypedValue)| (e.0@, e.1@))
    }
}

impl Document {
    /// A document is well formed when no two of its fields share a name.
    pub open spec fn wf(&self) -> bool {
        keys_distinct(self@)
    }

    /// Makes a document without fields.
    pub fn new() -> (doc: Document)
        ensures
            doc.wf(),
            doc@ == Fields::empty(),
    {
        let doc = Document { entries: Vec::new() };
        assert(doc@ =~= Fields::empty());
        doc
    }

    /// The number of fields.
    pub fn len(&self) -> (n: usize)
        ensures
            n == self@.len(),
    {
        self.entries.len()
    }

    /// The value of the field named `key`, if the document has one.
    pub fn get(&self, key: &str) -> (found: Option<&TypedValue>)
        requires
            self.wf(),
        ensures
            match found {
                Some(value) => lookup(self@, key@) == Some(value@),
                None => lookup(self@, key@) is None,
            },
    {
        let mut i: usize = 0;
        while i < self.entries.len()
            invariant
                i <= self.entries.len(),
                keys_distinct(self@),
                forall|k: int| 0 <= k < i ==> (#[trigger] self@[k]).0 != key@,
            decreases self.entries.len() - i,
        {
            if str_eq(self.entries[i].0.as_str(), key) {
                proof {
                    lemma_position_unique(self@, key@, i as int);
                }
                return Some(&self.entries[i].1);
            }
            i = i + 1;
        }
        None
    }

    /// Gives up the document for its fields, in order.
    pub fn into_entries(self) -> (entries: Vec<(String, TypedValue)>)
        ensures
            entries@.map_values(|e: (String, TypedValue)| (e.0@, e.1@)) == self@,
    {
        self.entries
    }

    /// Sets the field `key` to `value`. A field of that name keeps its place
    /// and takes the new value; a new name is added at the end.
    pub fn insert(&mut self, key: String, value: TypedValue)
        requires
            old(self).wf(),
        ensures
            final(self).wf(),
            final(self)@ == put(old(self)@, key@, value@),
    {
        let ghost before = self@;
        let mut i: usize = 0;
        while i < self.entries.len()
            invariant
                i <= self.entries.len(),
                self@ == before,
                before == old(self)@,
                keys_distinct(before),
                forall|k: int| 0 <= k < i ==> (#[trigger] before[k]).0 != key@,
            decreases self.entries.len() - i,
        {
            if str_eq(self.entries[i].0.as_str(), key.as_str()) {
                proof {
                    lemma_position_unique(before, key@, i as int);
                    lemma_put_keeps_distinct(before, key@, value@);
                }
                self.entries.set(i, (key, value));
                assert(self@ =~= put(before, key@, value@));
                return ;
            }
            i = i + 1;
        }
        proof {
            assert(!has_key(before, key@));
            lemma_put_keeps_distinct(before, key@, value@);
        }
        self.entries.push((key, value));
        assert(self@ =~= put(before, key@, value@));
    }
}

} // verus!
