//! The storage boundary: the contract a key-value backend implements,
//! and the LMDB-backed adapter.

use vstd::prelude::*;
use lmdb::Transaction;
use lmdb::Error as LmdbError;
use crate::address::Address;
use crate::bitmask::Bitmask;
use crate::block::Block;
use crate::header::Header;
use crate::node::Node;

verus! {

#[verifier::external_type_specification]
#[verifier::external_body]
pub struct ExEnvironment(lmdb::Environment);

#[verifier::external_type_specification]
#[verifier::external_body]
pub struct ExDatabase(lmdb::Database);

#[verifier::external_type_specification]
#[verifier::external_body]
pub struct ExLmdbError(LmdbError);

/// The contract a durable key-value backend offers a tree's consumers:
/// the single well-known header record, fetched and parsed once per
/// tree.  Reads are expected to come from snapshot-isolated read
/// transactions; a storage-layer failure is propagated through the
/// backend's own error type, never swallowed.
pub trait IO {
    /// The backend's failure type, passed through unmodified.
    type StoreError;

    /// Fetches and parses the single well-known header record.
    fn header(&self) -> Result<Header, Self::StoreError>;
}

/// Relies on lmdb's Environment::new, EnvironmentBuilder::set_flags and
/// EnvironmentBuilder::open: opens the store file as a single-file
/// environment (no subdirectory), or reports the backend's error.
#[verifier::external_body]
fn open_environment(path: &str) -> (r: Result<lmdb::Environment, LmdbError>) {
    lmdb::Environment::new().set_flags(lmdb::EnvironmentFlags::NO_SUB_DIR).open(
        std::path::Path::new(path),
    )
}

/// Relies on lmdb's Environment::open_db: opens the environment's
/// default (unnamed) database.
#[verifier::external_body]
fn open_default_database(environment: &lmdb::Environment) -> (r: Result<
    lmdb::Database,
    LmdbError,
>) {
    environment.open_db(None)
}

/// Relies on lmdb's Environment::begin_ro_txn and Transaction::get: in
/// one read-only snapshot transaction, copies out the value stored under
/// `key`.  A missing key, like any storage fault, comes back as the
/// backend's own error.
#[verifier::external_body]
fn read_value(environment: &lmdb::Environment, database: lmdb::Database, key: &str) -> (r:
    Result<Vec<u8>, LmdbError>) {
    let transaction = environment.begin_ro_txn()?;
    let data = transaction.get(database, &key)?;
    Ok(data.to_vec())
}

/// An LMDB-backed store: one environment holding one tree, its records
/// in the default database, keyed by the canonical forms of node
/// addresses.
pub struct LMDB {
    environment: lmdb::Environment,
    database: lmdb::Database,
}

impl LMDB {
    /// Opens the store in the file at the given path.  Any failure of
    /// the backend is passed through unmodified.
    pub fn new(path: &str) -> (r: Result<LMDB, LmdbError>) {
        let environment = match open_environment(path) {
            Ok(environment) => environment,
            Err(e) => {
                return Err(e);
            },
        };
        let database = match open_default_database(&environment) {
            Ok(database) => database,
            Err(e) => {
                return Err(e);
            },
        };
        Ok(LMDB { environment, database })
    }

    /// Fetches the raw bytes of the single well-known header record,
    /// keyed `"!header"`.  Parsing the record's serialized form belongs
    /// to the caller at the serialization boundary; a missing record,
    /// like any storage fault, is passed through unmodified.
    pub fn header_bytes(&self) -> (r: Result<Vec<u8>, LmdbError>) {
        read_value(&self.environment, self.database, "!header")
    }

    /// Resolves the block associated with a node path, looking the
    /// address up by its canonical text form and materializing a fresh
    /// block for that node's children.  Decoding a persisted block
    /// payload belongs to the out-of-scope compaction scheme, so the
    /// materialized block starts empty, with room for the eight
    /// octants.  A missing record, like any storage fault, is passed
    /// through unmodified.
    pub fn block(&self, address: &Address) -> (r: Result<Block, LmdbError>)
        ensures
            r matches Ok(b) ==> b.wf() && b.spec_end_index() == 0 && b.spec_capacity() == 8
                && !b.spec_is_dirty() && b.spec_is_compact(),
    {
        let key = address.to_text();
        match read_value(&self.environment, self.database, key.as_str()) {
            Ok(_data) => Ok(
                Block::new(Node::root(Bitmask::new(0), Bitmask::new(0)), 0, 8),
            ),
            Err(e) => Err(e),
        }
    }
}

} // verus!
