use vstd::prelude::*;
use sov_universal_wallet::schema::{RollupRoots, Schema as NativeSchema};

verus! {

#[verifier::external_type_specification]
#[verifier::external_body]
pub struct ExNativeSchema(NativeSchema);

/// Why a schema operation failed, with the engine's own message.
#[derive(Debug, Clone, PartialEq, Eq)]
pub enum SchemaFailure {
    /// The descriptor could not be read.
    Descriptor(String),
    /// Encoding, display, lookup or hashing rejected its input.
    Gateway(String),
}

/// Well-known types that a rollup's schema gives a fixed place.
#[derive(Debug, Clone, Copy, PartialEq, Eq, Structural)]
pub enum KnownTypeId {
    /// The transaction.
    Transaction,
    /// The unsigned transaction.
    UnsignedTransaction,
    /// The runtime call.
    RuntimeCall,
}

/// What the schema engine makes of a descriptor text: `None` when it reads
/// it, else the text of its error.
pub uninterp spec fn descriptor_error_of(json: Seq<char>) -> Option<Seq<char>>;

/// Where the schema read from `descriptor` places the well-known root type
/// numbered `root`, or the text of the engine's error.
pub uninterp spec fn known_index_of(descriptor: Seq<char>, root: nat) -> Result<usize, Seq<char>>;

/// The metadata hash of the schema read from `descriptor`, or the text of
/// the engine's error.
pub uninterp spec fn metadata_hash_of(descriptor: Seq<char>) -> Result<Seq<u8>, Seq<char>>;

/// The chain hash of the schema read from `descriptor`, or the text of the
/// engine's error.
pub uninterp spec fn chain_hash_of(descriptor: Seq<char>) -> Result<Seq<u8>, Seq<char>>;

/// A byte result as views.
pub open spec fn bytes_result(r: Result<Vec<u8>, String>) -> Result<Seq<u8>, Seq<char>> {
    match r {
        Ok(b) => Ok(b@),
        Err(m) => Err(m@),
    }
}

/// Relies on `Schema::from_json` of the schema engine, which deserialises a
/// descriptor with `serde_json::from_str`: the outcome depends on the text
/// alone; its error is kept as text.
#[verifier::external_body]
fn native_from_json(json: &str) -> (r: Result<NativeSchema, String>)
    ensures
        r is Ok <==> descriptor_error_of(json@) is None,
        r is Err ==> descriptor_error_of(json@) == Some(r->Err_0@),
{
    NativeSchema::from_json(json).map_err(|e| e.to_string())
}

/// Relies on `Schema::rollup_expected_index` of the schema engine, which
/// looks up where a well-known root type stands in the schema.
#[verifier::external_body]
fn native_known_type_index(schema: &Schema, id: KnownTypeId) -> (r: Result<usize, String>)
    ensures
        match r {
            Ok(i) => known_index_of(schema.json@, id.root()) == Ok::<usize, Seq<char>>(i),
            Err(m) => known_index_of(schema.json@, id.root()) == Err::<usize, Seq<char>>(m@),
        },
{
    let root = match id {
        KnownTypeId::Transaction => RollupRoots::Transaction,
        KnownTypeId::UnsignedTransaction => RollupRoots::UnsignedTransaction,
        KnownTypeId::RuntimeCall => RollupRoots::RuntimeCall,
    };
    schema.inner.rollup_expected_index(root).map_err(|e| e.to_string())
}

/// Relies on `Schema::metadata_hash` of the schema engine: a 32-byte digest
/// of the schema.
#[verifier::external_body]
fn native_metadata_hash(schema: &Schema) -> (r: Result<Vec<u8>, String>)
    ensures
        bytes_result(r) == metadata_hash_of(schema.json@),
        r is Ok ==> r->Ok_0@.len() == 32,
{
    schema.inner.metadata_hash().map(|h| h.to_vec()).map_err(|e| e.to_string())
}

/// Relies on `Schema::chain_hash` of the schema engine: a 32-byte digest of
/// the schema.
#[verifier::external_body]
fn native_chain_hash(schema: &Schema) -> (r: Result<Vec<u8>, String>)
    ensures
        bytes_result(r) == chain_hash_of(schema.json@),
        r is Ok ==> r->Ok_0@.len() == 32,
{
    schema.inner.chain_hash().map(|h| h.to_vec()).map_err(|e| e.to_string())
}

impl KnownTypeId {
    /// The root's number among the rollup's well-known types.
    pub open spec fn root(&self) -> nat {
        match self {
            KnownTypeId::Transaction => 0,
            KnownTypeId::UnsignedTransaction => 1,
            KnownTypeId::RuntimeCall => 2,
        }
    }
}

/// A schema read from its JSON descriptor, kept together with that
/// descriptor. The engine's schema is read from that text and nothing else.
pub struct Schema {
    json: String,
    inner: NativeSchema,
}

impl Schema {
    /// The descriptor text this schema was read from.
    pub closed spec fn descriptor_text(&self) -> Seq<char> {
        self.json@
    }

    /// Reads a schema from its JSON descriptor: it succeeds exactly when the
    /// engine reads the descriptor, and otherwise fails as a descriptor
    /// failure carrying the engine's message.
    pub fn from_json(json: &str) -> (r: Result<Schema, SchemaFailure>)
        ensures
            r is Ok <==> descriptor_error_of(json@) is None,
            match r {
                Ok(s) => s.descriptor_text() == json@,
                Err(SchemaFailure::Descriptor(m)) => descriptor_error_of(json@) == Some(m@),
                Err(_) => false,
            },
    {
        match native_from_json(json) {
            Ok(inner) => Ok(Schema { json: json.to_owned(), inner }),
            Err(msg) => Err(SchemaFailure::Descriptor(msg)),
        }
    }

    /// The JSON descriptor this schema was read from.
    pub fn descriptor(&self) -> (r: String)
        ensures
            r@ == self.descriptor_text(),
    {
        self.json.clone()
    }

    /// Where a well-known type stands in the schema; an engine error comes
    /// back as a gateway failure with its message.
    pub fn known_type_index(&self, known_type_id: KnownTypeId) -> (r: Result<usize, SchemaFailure>)
        ensures
            match r {
                Ok(i) => known_index_of(self.descriptor_text(), known_type_id.root()) == Ok::<
                    usize,
                    Seq<char>,
                >(i),
                Err(SchemaFailure::Gateway(m)) => known_index_of(
                    self.descriptor_text(),
                    known_type_id.root(),
                ) == Err::<usize, Seq<char>>(m@),
                Err(_) => false,
            },
    {
        match native_known_type_index(self, known_type_id) {
            Ok(i) => Ok(i),
            Err(msg) => Err(SchemaFailure::Gateway(msg)),
        }
    }

    /// The schema's 32-byte metadata hash.
    pub fn metadata_hash(&mut self) -> (r: Result<Vec<u8>, SchemaFailure>)
        ensures
            final(self).descriptor_text() == old(self).descriptor_text(),
            r is Ok ==> r->Ok_0@.len() == 32,
            match r {
                Ok(h) => metadata_hash_of(old(self).descriptor_text()) == Ok::<Seq<u8>, Seq<char>>(
                    h@,
                ),
                Err(SchemaFailure::Gateway(m)) => metadata_hash_of(old(self).descriptor_text())
                    == Err::<Seq<u8>, Seq<char>>(m@),
                Err(_) => false,
            },
    {
        match native_metadata_hash(self) {
            Ok(h) => Ok(h),
            Err(msg) => Err(SchemaFailure::Gateway(msg)),
        }
    }

    /// The schema's 32-byte chain hash.
    pub fn chain_hash(&mut self) -> (r: Result<Vec<u8>, SchemaFailure>)
        ensures
            final(self).descriptor_text() == old(self).descriptor_text(),
            r is Ok ==> r->Ok_0@.len() == 32,
            match r {
                Ok(h) => chain_hash_of(old(self).descriptor_text()) == Ok::<Seq<u8>, Seq<char>>(h@),
                Err(SchemaFailure::Gateway(m)) => chain_hash_of(old(self).descriptor_text()) == Err::<
                    Seq<u8>,
                    Seq<char>,
                >(m@),
                Err(_) => false,
            },
    {
        match native_chain_hash(self) {
            Ok(h) => Ok(h),
            Err(msg) => Err(SchemaFailure::Gateway(msg)),
        }
    }
}

} // verus!
