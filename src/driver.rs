use vstd::prelude::*;
use crate::entropy::GenError;
use crate::compare::{ComparisonOutcome, compare_input, input_outcome};
use crate::input::FuzzInput;
use crate::schema::SchemaFailure;

verus! {

/// Where a fuzz case failed, so that harness defects and codec regressions
/// can be told apart.
#[derive(Debug, Clone, PartialEq, Eq)]
pub enum DriverError {
    /// The generator ran out of entropy.
    Generation(GenError),
    /// The generated value could not be written as text.
    LocalSerialization(String),
    /// The schema engine rejected the text or the bytes it made of it.
    Gateway(String),
}

/// The message carried by a schema failure.
pub open spec fn failure_message(f: SchemaFailure) -> Seq<char> {
    match f {
        SchemaFailure::Descriptor(m) => m@,
        SchemaFailure::Gateway(m) => m@,
    }
}

/// Files a schema failure under the gateway stage, keeping its message.
pub fn gateway_error(f: SchemaFailure) -> (r: DriverError)
    ensures
        r is Gateway && r->Gateway_0@ == failure_message(f),
{
    match f {
        SchemaFailure::Descriptor(m) => DriverError::Gateway(m),
        SchemaFailure::Gateway(m) => DriverError::Gateway(m),
    }
}

/// Files one fuzz case under the first stage that failed: generation, then
/// local serialisation, then the gateway (which hands back the value it
/// read, or its message). When no stage failed, the generated value and the
/// value read back are compared under the known-lossy policy.
pub fn file_case(
    generated: Result<FuzzInput, GenError>,
    serialization: Result<(), String>,
    read_back: Result<FuzzInput, String>,
) -> (r: Result<ComparisonOutcome, DriverError>)
    ensures
        match (generated, serialization, read_back) {
            (Err(e), _, _) => r == Err::<ComparisonOutcome, DriverError>(DriverError::Generation(e)),
            (Ok(_), Err(m), _) => match r {
                Err(DriverError::LocalSerialization(n)) => n@ == m@,
                _ => false,
            },
            (Ok(_), Ok(_), Err(m)) => match r {
                Err(DriverError::Gateway(n)) => n@ == m@,
                _ => false,
            },
            (Ok(a), Ok(_), Ok(b)) => r == Ok::<ComparisonOutcome, DriverError>(input_outcome(a, b)),
        },
{
    let a = match generated {
        Ok(a) => a,
        Err(e) => {
            return Err(DriverError::Generation(e));
        },
    };
    match serialization {
        Ok(()) => {},
        Err(m) => {
            return Err(DriverError::LocalSerialization(m));
        },
    }
    match read_back {
        Ok(b) => Ok(compare_input(&a, &b)),
        Err(m) => Err(DriverError::Gateway(m)),
    }
}

} // verus!
