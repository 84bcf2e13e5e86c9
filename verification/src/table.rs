//! The durable table store as the library sees it: what is written to a
//! table, and how a record is sealed into a row and opened again.

use core::marker::PhantomData;
use vstd::prelude::*;
use vstd::utf8::*;
use crate::crypto::{
    MaskingKey, CryptoError, encrypt, decrypt, utf8_text, ff1_encrypt, ff1_decrypt,
    in_cipher_domain, KEY_WIDTH,
};
use crate::records::RatchetKeyed;

verus! {

/// One write to a durable table, to be carried out in a transaction of its
/// own.
#[derive(Debug)]
pub enum DurableOp {
    /// Store the value under the key, replacing what was there.
    Upsert { table: String, key: String, value: Vec<u8> },
    /// Delete the row under the key.
    Remove { table: String, key: String },
}

/// The content of a durable write.
pub enum DurableOpView {
    Upsert { table: Seq<char>, key: Seq<char>, value: Seq<u8> },
    Remove { table: Seq<char>, key: Seq<char> },
}

impl View for DurableOp {
    type V = DurableOpView;

    open spec fn view(&self) -> DurableOpView {
        match self {
            DurableOp::Upsert { table, key, value } => DurableOpView::Upsert {
                table: table@,
                key: key@,
                value: value@,
            },
            DurableOp::Remove { table, key } => DurableOpView::Remove { table: table@, key: key@ },
        }
    }
}

/// The rows of a table after a write has been carried out on it.
pub open spec fn apply(rows: Map<Seq<char>, Seq<u8>>, op: DurableOpView) -> Map<
    Seq<char>,
    Seq<u8>,
> {
    match op {
        DurableOpView::Upsert { table, key, value } => rows.insert(key, value),
        DurableOpView::Remove { table, key } => rows.remove(key),
    }
}

/// The bytes that a record is encrypted from: its JSON text in UTF-8.
pub open spec fn payload<T: RatchetKeyed>(record: T::V) -> Seq<u8> {
    encode_utf8(T::json_of(record))
}

/// The row value that a record is stored as under a key.
pub open spec fn sealed<T: RatchetKeyed>(key: Seq<u8>, record: T::V) -> Seq<u8> {
    ff1_encrypt(key, payload::<T>(record))
}

/// The record that a row value opens to under a key, or why it does not.
pub open spec fn opened<T: RatchetKeyed>(key: Seq<u8>, value: Seq<u8>) -> Result<
    T::V,
    CryptoError,
> {
    if !in_cipher_domain(value.len()) {
        Err(CryptoError::OutOfDomain)
    } else if !valid_utf8(ff1_decrypt(key, value)) {
        Err(CryptoError::NotText)
    } else {
        match T::parse(decode_utf8(ff1_decrypt(key, value))) {
            Some(record) => Ok(record),
            None => Err(CryptoError::NotARecord),
        }
    }
}

/// Whether a row value holds a record: the cipher takes it, and it decrypts
/// to the record's payload or opens to the record.
pub open spec fn agrees<T: RatchetKeyed>(key: Seq<u8>, record: T::V, value: Seq<u8>) -> bool {
    &&& in_cipher_domain(value.len())
    &&& ff1_decrypt(key, value) == payload::<T>(record) || opened::<T>(key, value) == Ok::<
        T::V,
        CryptoError,
    >(record)
}

/// A durable table of one record kind, with the key that masks its rows.
pub struct ReadWriteTable<T: RatchetKeyed> {
    name: String,
    key: MaskingKey,
    kind: PhantomData<T>,
}

impl<T: RatchetKeyed> ReadWriteTable<T> {
    /// The name of the table.
    pub closed spec fn name(&self) -> Seq<char> {
        self.name@
    }

    /// The key that masks the rows of the table.
    pub closed spec fn masking_key(&self) -> Seq<u8> {
        self.key@
    }

    /// A table of the given name whose rows are masked by the key.
    pub fn new(name: &str, key: &MaskingKey) -> (table: Self)
        ensures
            table.name() == name@,
            table.masking_key() == key@,
    {
        ReadWriteTable { name: name.to_owned(), key: key.duplicate(), kind: PhantomData }
    }

    /// The write that stores the record: its JSON text, encrypted, under the
    /// record's key. A record whose text the cipher does not take is refused.
    pub fn write(&self, item: &T) -> (op: Result<DurableOp, CryptoError>)
        ensures
            op is Ok <==> in_cipher_domain(payload::<T>(item@).len()),
            op matches Ok(w) ==> w@ == (DurableOpView::Upsert {
                table: self.name(),
                key: T::key_of(item@),
                value: sealed::<T>(self.masking_key(), item@),
            }) && agrees::<T>(self.masking_key(), item@, sealed::<T>(self.masking_key(), item@)),
            op matches Ok(w) ==> sealed::<T>(self.masking_key(), item@).len() == payload::<T>(
                item@,
            ).len(),
            op matches Err(e) ==> e == CryptoError::OutOfDomain,
    {
        let text = item.to_json();
        let bytes = text.as_str().as_bytes_vec();
        match encrypt(&self.key, &bytes) {
            Ok(value) => Ok(
                DurableOp::Upsert {
                    table: self.name.clone(),
                    key: item.into_key().to_owned(),
                    value,
                },
            ),
            Err(e) => Err(e),
        }
    }

    /// The write that deletes the row of the record.
    pub fn rm(&self, item: &T) -> (op: DurableOp)
        ensures
            op@ == (DurableOpView::Remove { table: self.name(), key: T::key_of(item@) }),
    {
        DurableOp::Remove { table: self.name.clone(), key: item.into_key().to_owned() }
    }

    /// The write that deletes the row under the key.
    pub fn rm_key(&self, key: &String) -> (op: DurableOp)
        ensures
            op@ == (DurableOpView::Remove { table: self.name(), key: key@ }),
    {
        DurableOp::Remove { table: self.name.clone(), key: key.clone() }
    }

    /// The record that a row value holds: decrypted, read as UTF-8 text and
    /// parsed as JSON.
    pub fn read(&self, value: &Vec<u8>) -> (record: Result<T, CryptoError>)
        ensures
            record is Ok <==> opened::<T>(self.masking_key(), value@) is Ok,
            record matches Ok(r) ==> opened::<T>(self.masking_key(), value@) == Ok::<
                T::V,
                CryptoError,
            >(r@) && agrees::<T>(self.masking_key(), r@, value@),
            record matches Err(e) ==> opened::<T>(self.masking_key(), value@) == Err::<
                T::V,
                CryptoError,
            >(e),
    {
        let bytes = match decrypt(&self.key, value) {
            Ok(bytes) => bytes,
            Err(e) => { return Err(e); },
        };
        let text = match utf8_text(bytes) {
            Some(text) => text,
            None => { return Err(CryptoError::NotText); },
        };
        match T::from_json(text.as_str()) {
            Some(record) => Ok(record),
            None => Err(CryptoError::NotARecord),
        }
    }

    /// The name of the table.
    pub fn unwrap(&self) -> (name: String)
        ensures
            name@ == self.name(),
    {
        self.name.clone()
    }
}

} // verus!
