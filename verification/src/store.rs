//! A keyed map from derived identity to record.
//!
//! The store supports create-if-absent, read, and in-place update, and holds
//! no business semantics beyond keyed storage. Its mathematical value (the
//! view `store@`) is the map from each populated key to the record stored
//! under it; every method's contract is stated over that map.

use vstd::prelude::*;

use crate::errors::ErrorCode;
use crate::keys::RecordKey;
use crate::records::{Record, RecordData};

verus! {

/// No key occurs twice among the entries.
spec fn keys_unique(s: Seq<(RecordKey, Record)>) -> bool {
    forall|i: int, j: int|
        0 <= i < s.len() && 0 <= j < s.len() && i != j ==> (#[trigger] s[i]).0 != (
        #[trigger] s[j]).0
}

/// The map an entry sequence denotes: each key maps to the record value
/// stored under it, a later entry shadowing an earlier one with the same key.
spec fn map_of(s: Seq<(RecordKey, Record)>) -> Map<RecordKey, RecordData>
    decreases s.len(),
{
    if s.len() == 0 {
        Map::empty()
    } else {
        map_of(s.drop_last()).insert(s.last().0, s.last().1@)
    }
}

/// A key held by no entry is absent from the denoted map.
proof fn lemma_map_of_absent(s: Seq<(RecordKey, Record)>, key: RecordKey)
    requires
        forall|i: int| 0 <= i < s.len() ==> (#[trigger] s[i]).0 != key,
    ensures
        !map_of(s).contains_key(key),
    decreases s.len(),
{
    if s.len() > 0 {
        lemma_map_of_absent(s.drop_last(), key);
    }
}

/// Under unique keys, the entry at each position gives the denoted map's
/// value at that entry's key.
proof fn lemma_map_of_present(s: Seq<(RecordKey, Record)>, i: int)
    requires
        keys_unique(s),
        0 <= i < s.len(),
    ensures
        map_of(s).contains_key(s[i].0),
        map_of(s)[s[i].0] == s[i].1@,
    decreases s.len(),
{
    if i < s.len() - 1 {
        assert(s.drop_last()[i] == s[i]);
        lemma_map_of_present(s.drop_last(), i);
        assert(s[s.len() - 1].0 != s[i].0);
    }
}

/// A key absent from the denoted map is held by no entry.
proof fn lemma_absent_all_differ(s: Seq<(RecordKey, Record)>, key: RecordKey)
    requires
        keys_unique(s),
        !map_of(s).contains_key(key),
    ensures
        forall|i: int| 0 <= i < s.len() ==> (#[trigger] s[i]).0 != key,
{
    assert forall|i: int| 0 <= i < s.len() implies (#[trigger] s[i]).0 != key by {
        if s[i].0 == key {
            lemma_map_of_present(s, i);
        }
    }
}

/// Appending an entry with a fresh key inserts it into the denoted map and
/// keeps the keys unique.
proof fn lemma_map_of_push(s: Seq<(RecordKey, Record)>, key: RecordKey, record: Record)
    requires
        keys_unique(s),
        !map_of(s).contains_key(key),
    ensures
        keys_unique(s.push((key, record))),
        map_of(s.push((key, record))) == map_of(s).insert(key, record@),
    decreases s.len(),
{
    lemma_absent_all_differ(s, key);
    let t = s.push((key, record));
    assert(t.drop_last() =~= s);
    assert forall|i: int, j: int|
        0 <= i < t.len() && 0 <= j < t.len() && i != j implies (#[trigger] t[i]).0 != (
    #[trigger] t[j]).0 by {
        if i < s.len() && j < s.len() {
            assert(t[i] == s[i] && t[j] == s[j]);
        } else if i < s.len() {
            assert(t[i] == s[i] && t[j] == (key, record));
        } else {
            assert(t[i] == (key, record) && t[j] == s[j]);
        }
    }
}

/// Removing the entry at a position removes that entry's key from the
/// denoted map and keeps the keys unique.
proof fn lemma_map_of_remove(s: Seq<(RecordKey, Record)>, i: int)
    requires
        keys_unique(s),
        0 <= i < s.len(),
    ensures
        keys_unique(s.remove(i)),
        map_of(s.remove(i)) == map_of(s).remove(s[i].0),
    decreases s.len(),
{
    let t = s.remove(i);
    assert forall|p: int, q: int|
        0 <= p < t.len() && 0 <= q < t.len() && p != q implies (#[trigger] t[p]).0 != (
    #[trigger] t[q]).0 by {
        let p0: int = if p < i {
            p
        } else {
            p + 1
        };
        let q0: int = if q < i {
            q
        } else {
            q + 1
        };
        assert(t[p] == s[p0] && t[q] == s[q0]);
    }
    if i == s.len() - 1 {
        assert(t =~= s.drop_last());
        assert forall|j: int| 0 <= j < s.drop_last().len() implies (#[trigger] s.drop_last()[j]).0
            != s[i].0 by {
            assert(s.drop_last()[j] == s[j]);
        }
        lemma_map_of_absent(s.drop_last(), s[i].0);
        assert(map_of(s).remove(s[i].0) =~= map_of(s.drop_last()));
    } else {
        let dl = s.drop_last();
        lemma_map_of_remove(dl, i);
        assert(t.last() == s.last());
        assert(t.drop_last() =~= dl.remove(i));
        assert(dl[i] == s[i]);
        assert(s.last().0 != s[i].0);
        assert(map_of(dl).remove(s[i].0).insert(s.last().0, s.last().1@) =~= map_of(dl).insert(
            s.last().0,
            s.last().1@,
        ).remove(s[i].0));
    }
}

/// A keyed record store: a map from derived identity to record.
pub struct RecordStore {
    entries: Vec<(RecordKey, Record)>,
}

impl View for RecordStore {
    type V = Map<RecordKey, RecordData>;

    closed spec fn view(&self) -> Map<RecordKey, RecordData> {
        map_of(self.entries@)
    }
}

impl RecordStore {
    /// The store's internal well-formedness: no key is populated twice.
    /// Constructors establish it and every method preserves it.
    pub closed spec fn inv(self) -> bool {
        keys_unique(self.entries@)
    }

    /// An empty store: no key is populated.
    pub fn new() -> (store: Self)
        ensures
            store.inv(),
            store@ == Map::<RecordKey, RecordData>::empty(),
    {
        RecordStore { entries: Vec::new() }
    }

    /// The position holding `key`, if any.
    fn position_of(&self, key: RecordKey) -> (r: Option<usize>)
        requires
            self.inv(),
        ensures
            match r {
                Some(i) => {
                    &&& i < self.entries@.len()
                    &&& self.entries@[i as int].0 == key
                    &&& self@.contains_key(key)
                    &&& self@[key] == self.entries@[i as int].1@
                },
                None => !self@.contains_key(key),
            },
    {
        let mut i: usize = 0;
        while i < self.entries.len()
            invariant
                self.inv(),
                i <= self.entries@.len(),
                forall|j: int| 0 <= j < i ==> (#[trigger] self.entries@[j]).0 != key,
            decreases self.entries@.len() - i,
        {
            if self.entries[i].0 == key {
                proof {
                    lemma_map_of_present(self.entries@, i as int);
                }
                return Some(i);
            }
            i = i + 1;
        }
        proof {
            lemma_map_of_absent(self.entries@, key);
        }
        None
    }

    /// Whether `key` is populated.
    pub fn contains(&self, key: RecordKey) -> (r: bool)
        requires
            self.inv(),
        ensures
            r == self@.contains_key(key),
    {
        match self.position_of(key) {
            Some(_) => true,
            None => false,
        }
    }

    /// Reads the record stored under `key`.
    pub fn read(&self, key: RecordKey) -> (r: Option<&Record>)
        requires
            self.inv(),
        ensures
            match r {
                Some(record) => self@.contains_key(key) && record@ == self@[key],
                None => !self@.contains_key(key),
            },
    {
        match self.position_of(key) {
            Some(i) => Some(&self.entries[i].1),
            None => None,
        }
    }

    /// Removes and returns the record stored under `key`.
    pub(crate) fn take(&mut self, key: RecordKey) -> (r: Option<Record>)
        requires
            old(self).inv(),
        ensures
            final(self).inv(),
            match r {
                Some(record) => {
                    &&& old(self)@.contains_key(key)
                    &&& record@ == old(self)@[key]
                    &&& final(self)@ == old(self)@.remove(key)
                },
                None => !old(self)@.contains_key(key) && *final(self) == *old(self),
            },
    {
        match self.position_of(key) {
            Some(i) => {
                proof {
                    lemma_map_of_remove(self.entries@, i as int);
                }
                let pair = self.entries.remove(i);
                Some(pair.1)
            },
            None => None,
        }
    }

    /// Stores `record` under the unpopulated `key`.
    pub(crate) fn put(&mut self, key: RecordKey, record: Record)
        requires
            old(self).inv(),
            !old(self)@.contains_key(key),
        ensures
            final(self).inv(),
            final(self)@ == old(self)@.insert(key, record@),
    {
        proof {
            lemma_map_of_push(self.entries@, key, record);
        }
        self.entries.push((key, record));
    }

    /// Stores `record` under `key`, failing with `AlreadyExists` if the key
    /// is already populated.
    pub fn create_if_absent(&mut self, key: RecordKey, record: Record) -> (r: Result<
        (),
        ErrorCode,
    >)
        requires
            old(self).inv(),
        ensures
            final(self).inv(),
            old(self)@.contains_key(key) ==> r == Err::<(), ErrorCode>(ErrorCode::AlreadyExists)
                && *final(self) == *old(self),
            !old(self)@.contains_key(key) ==> r == Ok::<(), ErrorCode>(()) && final(self)@ == old(
                self,
            )@.insert(key, record@),
    {
        if self.contains(key) {
            Err(ErrorCode::AlreadyExists)
        } else {
            self.put(key, record);
            Ok(())
        }
    }

    /// Replaces the record stored under `key`, failing with `NotFound` if the
    /// key is unpopulated; the replacement is all-or-nothing.
    pub fn update(&mut self, key: RecordKey, record: Record) -> (r: Result<(), ErrorCode>)
        requires
            old(self).inv(),
        ensures
            final(self).inv(),
            old(self)@.contains_key(key) ==> r == Ok::<(), ErrorCode>(()) && final(self)@ == old(
                self,
            )@.insert(key, record@),
            !old(self)@.contains_key(key) ==> r == Err::<(), ErrorCode>(ErrorCode::NotFound)
                && *final(self) == *old(self),
    {
        match self.take(key) {
            Some(_replaced) => {
                self.put(key, record);
                proof {
                    assert(old(self)@.remove(key).insert(key, record@) =~= old(self)@.insert(
                        key,
                        record@,
                    ));
                }
                Ok(())
            },
            None => Err(ErrorCode::NotFound),
        }
    }
}

} // verus!
