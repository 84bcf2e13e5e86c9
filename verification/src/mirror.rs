//! The record mirror: the in-memory copy of one durable table, kept in step
//! with the rows of that table by every mutation.

use vstd::prelude::*;
use crate::crypto::{CryptoError, in_cipher_domain};
use crate::outcome::Outcome;
use crate::records::RatchetKeyed;
use crate::string_map::StringMap;
use crate::table::{ReadWriteTable, DurableOp, DurableOpView, apply, payload, sealed, opened, agrees};

verus! {

/// The rows as pairs of a key and a value.
pub open spec fn rows_view(rows: Seq<(String, Vec<u8>)>) -> Seq<(Seq<char>, Seq<u8>)> {
    Seq::new(rows.len(), |i: int| (rows[i].0@, rows[i].1@))
}

/// The table that a sequence of rows fills: a later row replaces an earlier
/// one with the same key.
pub open spec fn table_of(rows: Seq<(Seq<char>, Seq<u8>)>) -> Map<Seq<char>, Seq<u8>>
    decreases rows.len(),
{
    if rows.len() == 0 {
        Map::empty()
    } else {
        table_of(rows.drop_last()).insert(rows.last().0, rows.last().1)
    }
}

/// Whether the row at a place is the first that does not open, and fails
/// with the given error.
pub open spec fn stops_at<T: RatchetKeyed>(
    key: Seq<u8>,
    rows: Seq<(Seq<char>, Seq<u8>)>,
    at: int,
    error: CryptoError,
) -> bool {
    &&& 0 <= at < rows.len()
    &&& opened::<T>(key, rows[at].1) == Err::<T::V, CryptoError>(error)
    &&& forall|j: int| 0 <= j < at ==> #[trigger] opened::<T>(key, rows[j].1) is Ok
}

/// The keys of a sequence of rows, each once, in the order in which they
/// first come.
pub open spec fn key_order(rows: Seq<(Seq<char>, Seq<u8>)>) -> Seq<Seq<char>>
    decreases rows.len(),
{
    if rows.len() == 0 {
        Seq::empty()
    } else if table_of(rows.drop_last()).contains_key(rows.last().0) {
        key_order(rows.drop_last())
    } else {
        key_order(rows.drop_last()).push(rows.last().0)
    }
}

/// The in-memory copy of one durable table.
///
/// Beside the records it tracks, as ghost state, the rows that the table
/// holds once the write of every mutation so far has been carried out. A
/// caller that must leave the mirror as it is when a durable write fails
/// asks for the write with one of the `plan_` functions, carries it out, and
/// makes the mutation only then.
pub struct Mirror<T: RatchetKeyed> {
    table: ReadWriteTable<T>,
    records: StringMap<T>,
    rows: Ghost<Map<Seq<char>, Seq<u8>>>,
}

impl<T: RatchetKeyed> View for Mirror<T> {
    type V = Map<Seq<char>, T::V>;

    closed spec fn view(&self) -> Map<Seq<char>, T::V> {
        Map::new(|k: Seq<char>| self.records@.contains_key(k), |k: Seq<char>| self.records@[k]@)
    }
}

impl<T: RatchetKeyed> Mirror<T> {
    /// The rows of the durable table.
    pub closed spec fn durable(&self) -> Map<Seq<char>, Seq<u8>> {
        self.rows@
    }

    /// The key that masks the rows.
    pub closed spec fn masking_key(&self) -> Seq<u8> {
        self.table.masking_key()
    }

    /// The name of the durable table.
    pub closed spec fn table_name(&self) -> Seq<char> {
        self.table.name()
    }

    /// The keys in the order in which they first came.
    pub closed spec fn order(&self) -> Seq<Seq<char>> {
        self.records.order()
    }

    /// The mirror and the durable table hold the same keys, and under each
    /// key the row holds the record that the mirror shows.
    pub open spec fn consistent(&self) -> bool {
        &&& self@.dom() =~= self.durable().dom()
        &&& forall|k: Seq<char>| #[trigger]
            self@.contains_key(k) ==> agrees::<T>(self.masking_key(), self@[k], self.durable()[k])
    }

    /// The mirror is consistent with the durable table and lists each of its
    /// keys once.
    pub closed spec fn wf(&self) -> bool {
        &&& self.records.wf()
        &&& self.consistent()
    }

    /// Whether two mirrors show the same records over the same rows.
    pub open spec fn same_as(&self, other: &Self) -> bool {
        &&& self@ == other@
        &&& self.durable() == other.durable()
        &&& self.order() == other.order()
        &&& self.masking_key() == other.masking_key()
        &&& self.table_name() == other.table_name()
    }

    /// A well-formed mirror is consistent, finite, and its order lists each
    /// key once.
    pub proof fn lemma_wf(&self)
        requires
            self.wf(),
        ensures
            self.consistent(),
            self@.dom().finite(),
            self@.len() == self.order().len(),
            self.order().no_duplicates(),
            forall|k: Seq<char>| self@.contains_key(k) <==> self.order().contains(k),
    {
        self.records.lemma_lists();
        assert(self@.dom() =~= self.records@.dom());
    }

    /// An empty mirror of an empty table.
    pub fn new(table: ReadWriteTable<T>) -> (mirror: Self)
        ensures
            mirror.wf(),
            mirror.consistent(),
            mirror@ == Map::<Seq<char>, T::V>::empty(),
            mirror.durable() == Map::<Seq<char>, Seq<u8>>::empty(),
            mirror.order() == Seq::<Seq<char>>::empty(),
            mirror.masking_key() == table.masking_key(),
            mirror.table_name() == table.name(),
    {
        let mirror = Mirror { table, records: StringMap::new(), rows: Ghost(Map::empty()) };
        assert(mirror@ =~= Map::<Seq<char>, T::V>::empty());
        mirror
    }

    /// Files a record under a key, with the row value that holds it.
    fn file(&mut self, key: String, record: T, value: Ghost<Seq<u8>>)
        requires
            old(self).wf(),
            agrees::<T>(old(self).masking_key(), record@, value@),
        ensures
            final(self).wf(),
            final(self)@ == old(self)@.insert(key@, record@),
            final(self).durable() == old(self).durable().insert(key@, value@),
            final(self).masking_key() == old(self).masking_key(),
            final(self).table_name() == old(self).table_name(),
            final(self).order() == if old(self)@.contains_key(key@) {
                old(self).order()
            } else {
                old(self).order().push(key@)
            },
    {
        let ghost before = *self;
        let ghost k = key@;
        let _ = self.records.insert(key, record);
        self.rows = Ghost(self.rows@.insert(k, value@));
        proof {
            assert(self@ =~= before@.insert(k, record@));
            assert forall|j: Seq<char>| #[trigger] self@.contains_key(j) implies agrees::<T>(
                self.masking_key(),
                self@[j],
                self.durable()[j],
            ) by {
                if j != k {
                    assert(before@.contains_key(j));
                }
            }
        }
    }

    /// Builds the mirror of a table from its rows, as read at startup. Every
    /// row must open to a record; the first that does not stops the import.
    pub fn import(table: ReadWriteTable<T>, rows: &Vec<(String, Vec<u8>)>) -> (mirror: Result<
        Self,
        CryptoError,
    >)
        ensures
            mirror is Ok <==> forall|i: int|
                0 <= i < rows@.len() ==> #[trigger] opened::<T>(
                    table.masking_key(),
                    rows@[i].1@,
                ) is Ok,
            mirror matches Ok(m) ==> {
                &&& m.wf()
                &&& m.consistent()
                &&& m.masking_key() == table.masking_key()
                &&& m.table_name() == table.name()
                &&& m.durable() == table_of(rows_view(rows@))
                &&& m.order() == key_order(rows_view(rows@))
                &&& forall|k: Seq<char>| #[trigger]
                    m@.contains_key(k) ==> opened::<T>(m.masking_key(), m.durable()[k]) == Ok::<
                        T::V,
                        CryptoError,
                    >(m@[k])
            },
            mirror matches Err(e) ==> exists|i: int| #[trigger]
                stops_at::<T>(table.masking_key(), rows_view(rows@), i, e),
    {
        let ghost key = table.masking_key();
        let ghost name = table.name();
        let mut mirror = Mirror::new(table);
        let mut i: usize = 0;
        assert(rows_view(rows@).take(0) =~= Seq::empty());
        while i < rows.len()
            invariant
                i <= rows@.len(),
                mirror.wf(),
                key == table.masking_key(),
                name == table.name(),
                mirror.masking_key() == key,
                mirror.table_name() == name,
                mirror.durable() == table_of(rows_view(rows@).take(i as int)),
                mirror.order() == key_order(rows_view(rows@).take(i as int)),
                forall|j: int| 0 <= j < i ==> #[trigger] opened::<T>(key, rows@[j].1@) is Ok,
                forall|k: Seq<char>| #[trigger]
                    mirror@.contains_key(k) ==> opened::<T>(key, mirror.durable()[k]) == Ok::<
                        T::V,
                        CryptoError,
                    >(mirror@[k]),
            decreases rows@.len() - i,
        {
            let record = match mirror.table.read(&rows[i].1) {
                Ok(record) => record,
                Err(e) => {
                    assert(stops_at::<T>(key, rows_view(rows@), i as int, e));
                    return Err(e);
                },
            };
            assert(opened::<T>(key, rows@[i as int].1@) is Ok);
            let ghost before = mirror;
            proof {
                let upto = rows_view(rows@).take(i + 1);
                assert(upto.drop_last() =~= rows_view(rows@).take(i as int));
                assert(upto.last() == (rows@[i as int].0@, rows@[i as int].1@));
                mirror.lemma_wf();
                assert(mirror@.contains_key(upto.last().0) == mirror.durable().contains_key(
                    upto.last().0,
                ));
            }
            mirror.file(rows[i].0.clone(), record, Ghost(rows@[i as int].1@));
            proof {
                assert forall|k: Seq<char>| #[trigger] mirror@.contains_key(k) implies opened::<T>(
                    key,
                    mirror.durable()[k],
                ) == Ok::<T::V, CryptoError>(mirror@[k]) by {
                    if k != rows@[i as int].0@ {
                        assert(before@.contains_key(k));
                    }
                }
            }
            i += 1;
        }
        proof {
            assert(rows_view(rows@).take(i as int) =~= rows_view(rows@));
            mirror.lemma_wf();
        }
        Ok(mirror)
    }

    /// The number of records.
    pub fn len(&self) -> (n: usize)
        requires
            self.wf(),
        ensures
            n == self@.len(),
            n == self.order().len(),
    {
        proof {
            self.lemma_wf();
        }
        self.records.len()
    }

    /// Whether the mirror holds a record under the key.
    pub fn contains(&self, key: &String) -> (found: bool)
        requires
            self.wf(),
        ensures
            found == self@.contains_key(key@),
    {
        self.records.contains_key(key)
    }

    /// The record under the key, if there is one.
    pub fn get(&self, key: &String) -> (record: Option<&T>)
        requires
            self.wf(),
        ensures
            record is Some <==> self@.contains_key(key@),
            record matches Some(r) ==> r@ == self@[key@],
    {
        self.records.get(key)
    }

    /// The key at a place in the order.
    pub fn key_at(&self, i: usize) -> (key: &String)
        requires
            self.wf(),
            i < self.order().len(),
        ensures
            key@ == self.order()[i as int],
            self@.contains_key(key@),
    {
        self.records.key_at(i)
    }

    /// The record at a place in the order.
    pub fn record_at(&self, i: usize) -> (record: &T)
        requires
            self.wf(),
            i < self.order().len(),
        ensures
            self@.contains_key(self.order()[i as int]),
            record@ == self@[self.order()[i as int]],
    {
        self.records.value_at(i)
    }

    /// Every key of the mirror, in order.
    pub fn get_all(&self) -> (keys: Vec<String>)
        requires
            self.wf(),
        ensures
            keys@.len() == self.order().len(),
            forall|i: int| 0 <= i < keys@.len() ==> (#[trigger] keys@[i])@ == self.order()[i],
    {
        let mut keys: Vec<String> = Vec::new();
        let n = self.records.len();
        let mut i: usize = 0;
        while i < n
            invariant
                self.wf(),
                n == self.order().len(),
                i <= n,
                keys@.len() == i,
                forall|j: int| 0 <= j < i ==> (#[trigger] keys@[j])@ == self.order()[j],
            decreases n - i,
        {
            keys.push(self.records.key_at(i).clone());
            i += 1;
        }
        keys
    }

    /// The write that adding the record would ask for, or why it would be
    /// turned down. The mirror stays as it is.
    pub fn plan_add(&self, record: &T) -> (op: Result<DurableOp, Outcome>)
        requires
            self.wf(),
        ensures
            op is Ok <==> !self@.contains_key(T::key_of(record@)) && in_cipher_domain(
                payload::<T>(record@).len(),
            ),
            op matches Ok(w) ==> w@ == (DurableOpView::Upsert {
                table: self.table_name(),
                key: T::key_of(record@),
                value: sealed::<T>(self.masking_key(), record@),
            }),
            op matches Ok(w) ==> sealed::<T>(self.masking_key(), record@).len() == payload::<T>(
                record@,
            ).len(),
            op matches Err(e) ==> e == if self@.contains_key(T::key_of(record@)) {
                Outcome::Conflict
            } else {
                Outcome::Failed
            },
    {
        let key = record.into_key().to_owned();
        if self.records.contains_key(&key) {
            return Err(Outcome::Conflict);
        }
        match self.table.write(record) {
            Ok(op) => Ok(op),
            Err(_) => Err(Outcome::Failed),
        }
    }

    /// The write that editing the record would ask for, or why it would be
    /// turned down. The mirror stays as it is.
    pub fn plan_edit(&self, record: &T) -> (op: Result<DurableOp, Outcome>)
        requires
            self.wf(),
        ensures
            op is Ok <==> self@.contains_key(T::key_of(record@)) && in_cipher_domain(
                payload::<T>(record@).len(),
            ),
            op matches Ok(w) ==> w@ == (DurableOpView::Upsert {
                table: self.table_name(),
                key: T::key_of(record@),
                value: sealed::<T>(self.masking_key(), record@),
            }),
            op matches Ok(w) ==> sealed::<T>(self.masking_key(), record@).len() == payload::<T>(
                record@,
            ).len(),
            op matches Err(e) ==> e == if self@.contains_key(T::key_of(record@)) {
                Outcome::Failed
            } else {
                Outcome::Gone
            },
    {
        let key = record.into_key().to_owned();
        if !self.records.contains_key(&key) {
            return Err(Outcome::Gone);
        }
        match self.table.write(record) {
            Ok(op) => Ok(op),
            Err(_) => Err(Outcome::Failed),
        }
    }

    /// The write that removing the key would ask for, or that the key is
    /// gone. The mirror stays as it is.
    pub fn plan_remove(&self, key: &String) -> (op: Result<DurableOp, Outcome>)
        requires
            self.wf(),
        ensures
            op is Ok <==> self@.contains_key(key@),
            op matches Ok(w) ==> w@ == (DurableOpView::Remove {
                table: self.table_name(),
                key: key@,
            }),
            op matches Err(e) ==> e == Outcome::Gone,
    {
        if self.records.contains_key(key) {
            Ok(self.table.rm_key(key))
        } else {
            Err(Outcome::Gone)
        }
    }

    /// Stores a record under its key, in the mirror and as a durable write.
    fn put(&mut self, record: T) -> (op: Result<DurableOp, CryptoError>)
        requires
            old(self).wf(),
        ensures
            final(self).wf(),
            final(self).masking_key() == old(self).masking_key(),
            final(self).table_name() == old(self).table_name(),
            op is Ok <==> in_cipher_domain(payload::<T>(record@).len()),
            op matches Ok(w) ==> {
                &&& w@ == (DurableOpView::Upsert {
                    table: old(self).table_name(),
                    key: T::key_of(record@),
                    value: sealed::<T>(old(self).masking_key(), record@),
                })
                &&& sealed::<T>(old(self).masking_key(), record@).len() == payload::<T>(
                    record@,
                ).len()
                &&& final(self)@ == old(self)@.insert(T::key_of(record@), record@)
                &&& final(self).durable() == apply(old(self).durable(), w@)
                &&& final(self).order() == if old(self)@.contains_key(T::key_of(record@)) {
                    old(self).order()
                } else {
                    old(self).order().push(T::key_of(record@))
                }
            },
            op matches Err(e) ==> e == CryptoError::OutOfDomain && *final(self) == *old(self),
    {
        match self.table.write(&record) {
            Ok(op) => {
                let key = record.into_key().to_owned();
                let ghost value = sealed::<T>(self.masking_key(), record@);
                self.file(key, record, Ghost(value));
                Ok(op)
            },
            Err(e) => Err(e),
        }
    }

    /// Adds a record. Where the mirror holds one under the same key already,
    /// nothing is written and the outcome is a conflict.
    pub fn add(&mut self, record: T) -> (op: Result<DurableOp, Outcome>)
        requires
            old(self).wf(),
        ensures
            final(self).wf(),
            final(self).consistent(),
            final(self).masking_key() == old(self).masking_key(),
            final(self).table_name() == old(self).table_name(),
            op is Ok <==> !old(self)@.contains_key(T::key_of(record@)) && in_cipher_domain(
                payload::<T>(record@).len(),
            ),
            op matches Ok(w) ==> {
                &&& w@ == (DurableOpView::Upsert {
                    table: old(self).table_name(),
                    key: T::key_of(record@),
                    value: sealed::<T>(old(self).masking_key(), record@),
                })
                &&& sealed::<T>(old(self).masking_key(), record@).len() == payload::<T>(
                    record@,
                ).len()
                &&& final(self)@ == old(self)@.insert(T::key_of(record@), record@)
                &&& final(self).durable() == apply(old(self).durable(), w@)
                &&& final(self).order() == old(self).order().push(T::key_of(record@))
            },
            op matches Err(e) ==> {
                &&& final(self)@ == old(self)@
                &&& final(self).durable() == old(self).durable()
                &&& final(self).order() == old(self).order()
                &&& e == if old(self)@.contains_key(T::key_of(record@)) {
                    Outcome::Conflict
                } else {
                    Outcome::Failed
                }
            },
    {
        proof {
            self.lemma_wf();
        }
        let key = record.into_key().to_owned();
        if self.records.contains_key(&key) {
            return Err(Outcome::Conflict);
        }
        match self.put(record) {
            Ok(op) => {
                proof {
                    self.lemma_wf();
                }
                Ok(op)
            },
            Err(_) => Err(Outcome::Failed),
        }
    }

    /// Replaces the record under its key. Where the mirror holds none under
    /// that key, nothing is written and the outcome is that it is gone.
    pub fn edit(&mut self, record: T) -> (op: Result<DurableOp, Outcome>)
        requires
            old(self).wf(),
        ensures
            final(self).wf(),
            final(self).consistent(),
            final(self).masking_key() == old(self).masking_key(),
            final(self).table_name() == old(self).table_name(),
            op is Ok <==> old(self)@.contains_key(T::key_of(record@)) && in_cipher_domain(
                payload::<T>(record@).len(),
            ),
            op matches Ok(w) ==> {
                &&& w@ == (DurableOpView::Upsert {
                    table: old(self).table_name(),
                    key: T::key_of(record@),
                    value: sealed::<T>(old(self).masking_key(), record@),
                })
                &&& sealed::<T>(old(self).masking_key(), record@).len() == payload::<T>(
                    record@,
                ).len()
                &&& final(self)@ == old(self)@.insert(T::key_of(record@), record@)
                &&& final(self).durable() == apply(old(self).durable(), w@)
                &&& final(self).order() == old(self).order()
            },
            op matches Err(e) ==> {
                &&& final(self)@ == old(self)@
                &&& final(self).durable() == old(self).durable()
                &&& final(self).order() == old(self).order()
                &&& e == if old(self)@.contains_key(T::key_of(record@)) {
                    Outcome::Failed
                } else {
                    Outcome::Gone
                }
            },
    {
        proof {
            self.lemma_wf();
        }
        let key = record.into_key().to_owned();
        if !self.records.contains_key(&key) {
            return Err(Outcome::Gone);
        }
        match self.put(record) {
            Ok(op) => {
                proof {
                    self.lemma_wf();
                }
                Ok(op)
            },
            Err(_) => Err(Outcome::Failed),
        }
    }

    /// Removes the record under the key. Where the mirror holds none under
    /// that key, nothing is written and the outcome is that it is gone.
    pub fn remove(&mut self, key: &String) -> (op: Result<DurableOp, Outcome>)
        requires
            old(self).wf(),
        ensures
            final(self).wf(),
            final(self).consistent(),
            final(self).masking_key() == old(self).masking_key(),
            final(self).table_name() == old(self).table_name(),
            op is Ok <==> old(self)@.contains_key(key@),
            op matches Ok(w) ==> {
                &&& w@ == (DurableOpView::Remove { table: old(self).table_name(), key: key@ })
                &&& final(self)@ == old(self)@.remove(key@)
                &&& final(self).durable() == apply(old(self).durable(), w@)
                &&& final(self).order() == old(self).order().remove(
                    old(self).order().index_of(key@),
                )
            },
            op matches Err(e) ==> {
                &&& e == Outcome::Gone
                &&& final(self)@ == old(self)@
                &&& final(self).durable() == old(self).durable()
                &&& final(self).order() == old(self).order()
            },
    {
        proof {
            self.lemma_wf();
        }
        let ghost before = *self;
        match self.records.remove(key) {
            Some(_) => {
                self.rows = Ghost(self.rows@.remove(key@));
                proof {
                    assert(self@ =~= before@.remove(key@));
                    assert forall|j: Seq<char>| #[trigger] self@.contains_key(j) implies agrees::<
                        T,
                    >(self.masking_key(), self@[j], self.durable()[j]) by {
                        assert(before@.contains_key(j));
                    }
                }
                Ok(self.table.rm_key(key))
            },
            None => {
                assert(self@ =~= before@);
                Err(Outcome::Gone)
            },
        }
    }
}

} // verus!
