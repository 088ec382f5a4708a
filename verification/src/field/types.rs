use vstd::prelude::*;

verus! {

/// The portable column types a field can have. Each backend renders these
/// into its own dialect's type name.
#[derive(Debug, Clone, PartialEq, Eq, Structural)]
pub enum FieldType {
    Serial,
    BigSerial,
    Integer,
    BigInt,
    SmallInt,
    Text,
    VarChar(usize),
    Boolean,
    Timestamp,
    TimestampTz,
    Date,
    Time,
    Uuid,
    Json,
    JsonB,
    Binary,
    Real,
    DoublePrecision,
    Decimal { precision: u8, scale: u8 },
}

} // verus!
