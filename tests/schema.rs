use fuzz_input::schema::{KnownTypeId, Schema, SchemaFailure};
use sov_universal_wallet::schema::Schema as NativeSchema;

fn pair_descriptor() -> String {
    let native = NativeSchema::of_single_type::<(u32, u8)>().unwrap();
    serde_json::to_string(&native).unwrap()
}

#[test]
fn malformed_descriptor_is_a_descriptor_failure() {
    assert!(matches!(Schema::from_json("{not json"), Err(SchemaFailure::Descriptor(_))));
}

#[test]
fn descriptor_is_kept_as_given() {
    let json = pair_descriptor();
    let schema = Schema::from_json(&json).unwrap();
    assert_eq!(schema.descriptor(), json);
}

#[test]
fn missing_root_is_a_gateway_failure() {
    let schema = Schema::from_json(&pair_descriptor()).unwrap();
    assert!(matches!(
        schema.known_type_index(KnownTypeId::RuntimeCall),
        Err(SchemaFailure::Gateway(_))
    ));
}

#[test]
fn hashes_are_thirty_two_bytes() {
    let mut schema = Schema::from_json(&pair_descriptor()).unwrap();
    let a = schema.metadata_hash().unwrap();
    let b = schema.chain_hash().unwrap();
    assert_eq!(a.len(), 32);
    assert_eq!(b.len(), 32);
    assert_eq!(schema.metadata_hash().unwrap(), a);
}
