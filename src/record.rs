//! CSV records, as the csv crate writes them.
use vstd::prelude::*;

verus! {

/// The bytes of one CSV record holding `fields`, terminator included, as the
/// csv crate's default writer produces them.
pub uninterp spec fn csv_record(fields: Seq<Seq<u8>>) -> Seq<u8>;

/// Relies on csv::Writer (`from_writer`, `write_record`, `into_inner`) over an
/// in-memory buffer: a fresh writer holding one record yields exactly that
/// record's bytes, which depend on the fields alone. Writing into a `Vec`
/// cannot fail, and the field count of a writer's first record is never
/// refused, so neither call returns an error here.
#[verifier::external_body]
pub(crate) fn encode_record(fields: &Vec<Vec<u8>>) -> (r: Vec<u8>)
    ensures
        r@ == csv_record(fields.deep_view()),
{
    let mut writer = csv::Writer::from_writer(Vec::new());
    writer.write_record(fields).expect("writing into memory does not fail");
    writer.into_inner().expect("flushing into memory does not fail")
}

} // verus!
