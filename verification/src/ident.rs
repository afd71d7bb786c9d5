//! Identifiers of completions.

use uuid::Uuid;
use vstd::prelude::*;
use vstd::string::*;

verus! {

/// `uuid::Uuid`, which is carried through as it comes.
#[verifier::external_type_specification]
#[verifier::external_body]
pub struct ExUuid(Uuid);

/// `Uuid::new_v4`: a random UUID. Nothing is claimed of it.
#[verifier::external_body]
pub(crate) fn uuid_new_v4() -> Uuid {
    Uuid::new_v4()
}

/// `Display` of `Uuid`: the hyphenated form, which has 36 characters
/// whatever the UUID.
#[verifier::external_body]
pub(crate) fn uuid_to_string(uuid: &Uuid) -> (text: String)
    ensures
        text@.len() == 36,
{
    uuid.to_string()
}

/// The identifier of the completion with the unique part `unique`.
pub open spec fn completion_id_of(unique: Seq<char>) -> Seq<char> {
    "cmpl-"@ + unique
}

/// The identifier of the completion with the unique part `unique`.
pub fn completion_id(unique: &str) -> (r: String)
    ensures
        r@ == completion_id_of(unique@),
{
    let mut id = String::new();
    id.append("cmpl-");
    id.append(unique);
    assert(id@ =~= completion_id_of(unique@));
    id
}

/// A fresh identifier for a completion: that of a random UUID.
pub fn new_completion_id() -> (r: String)
    ensures
        exists|unique: Seq<char>| unique.len() == 36 && r@ == completion_id_of(unique),
{
    let uuid = uuid_new_v4();
    let unique = uuid_to_string(&uuid);
    completion_id(unique.as_str())
}

} // verus!
