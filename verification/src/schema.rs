//! Schemas for the inputs of tools.

use crate::json::{member_seq, push_member, Json, JsonValue};
use vstd::prelude::*;

verus! {

/// The schema of any object.
pub open spec fn object_schema() -> JsonValue {
    JsonValue::Object(seq![("type"@, JsonValue::String("object"@))])
}

/// The schema for the input of a tool: that of any object, whatever the
/// type of the input.
pub fn type_schema() -> (r: Json)
    ensures
        r@ == object_schema(),
{
    let mut members: Vec<(String, Json)> = Vec::new();
    assert(member_seq(members@) =~= Seq::empty());
    push_member(&mut members, "type", Json::text("object"));
    assert(member_seq(members@) =~= object_schema()->Object_0);
    Json::object(members)
}

} // verus!
