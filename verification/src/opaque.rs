use vstd::prelude::*;

verus! {

// The engine passes several metadata fields through untouched.  They are
// JSON trees owned by the calling layer; the engine never reads into them,
// so their type stays opaque here.

#[verifier::external_type_specification]
#[verifier::external_body]
pub struct ExJsonValue(serde_json::Value);

} // verus!
