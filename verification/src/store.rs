//! The persistent key/value store the components share, wrapped around the
//! sled embedded database.
//!
//! The store is modelled as a map from text keys to text values; every
//! write is a single-key overwrite.  The model is faithful because UTF-8
//! maps distinct texts to distinct byte keys, and these methods are the
//! store's only writers.  What sled itself does is taken on trust, stated
//! in the contracts of the thin methods below.

use vstd::prelude::*;

verus! {

/// Why a store operation failed.
#[derive(Debug)]
pub enum StoreError {
    /// The storage engine reported an error.
    Backend,
    /// A stored value was not text.
    Corrupt,
}

/// Durable keyed storage.  Holds a sled database; opaque to verification,
/// which sees only the map [`store_view`].
#[verifier::external_body]
pub struct Store {
    db: sled::Db,
}

/// What the store holds: text values keyed by text keys.
pub uninterp spec fn store_view(s: Store) -> Map<Seq<char>, Seq<char>>;

impl Store {
    /// Relies on `sled::open`: opens (creating if absent) the database at
    /// the given path.  Nothing is promised of the contents found there.
    #[verifier::external_body]
    pub fn open(path: &String) -> (r: Result<Store, StoreError>) {
        match sled::open(path.as_str()) {
            Ok(db) => Ok(Store { db }),
            Err(_) => Err(StoreError::Backend),
        }
    }

    /// Relies on `sled::Tree::insert`: sets the key to the value,
    /// overwriting any previous value at that key and touching no other key.
    #[verifier::external_body]
    pub fn put(&mut self, key: &String, value: &String) -> (r: Result<(), StoreError>)
        ensures
            r is Ok ==> store_view(*final(self)) == store_view(*old(self)).insert(key@, value@),
    {
        match self.db.insert(key.as_bytes(), value.as_bytes()) {
            Ok(_) => Ok(()),
            Err(_) => Err(StoreError::Backend),
        }
    }

    /// Relies on `sled::Tree::get`: returns the value stored at the key,
    /// or nothing when the key is absent.
    #[verifier::external_body]
    pub fn get(&self, key: &String) -> (r: Result<Option<String>, StoreError>)
        ensures
            match r {
                Ok(Some(v)) => store_view(*self).contains_key(key@) && v@ == store_view(*self)[key@],
                Ok(None) => !store_view(*self).contains_key(key@),
                Err(_) => true,
            },
    {
        match self.db.get(key.as_bytes()) {
            Ok(Some(ivec)) => match String::from_utf8(ivec.to_vec()) {
                Ok(s) => Ok(Some(s)),
                Err(_) => Err(StoreError::Corrupt),
            },
            Ok(None) => Ok(None),
            Err(_) => Err(StoreError::Backend),
        }
    }
}

} // verus!
