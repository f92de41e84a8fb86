use vstd::prelude::*;

verus! {

/// `uuid::Uuid::new_v4()` in its hyphenated text form. It is random: nothing
/// is stated of the value.
#[verifier::external_body]
pub(crate) fn new_uuid_string() -> String {
    uuid::Uuid::new_v4().to_string()
}

} // verus!
