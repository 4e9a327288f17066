//! Wire protocol of cloud sync: the bodies exchanged with the server and
//! the mapping between outbox names (snake_case) and wire names
//! (camelCase).
use vstd::prelude::*;

use crate::curriculum::Topic;
use crate::text::str_eq;

verus! {

/// Device-code login start response.
#[derive(Debug, Clone)]
pub struct DeviceCodeResponse {
    pub device_code: String,
    pub user_code: String,
    pub verification_url: String,
    pub expires_in: u64,
    pub interval: u64,
}

/// Device poll success body.
#[derive(Debug, Clone)]
pub struct TokenSet {
    pub access_token: String,
    pub refresh_token: Option<String>,
    pub device_id: String,
    pub user_email: Option<String>,
}

/// Error body used by device poll (and accepted elsewhere).
#[derive(Debug, Clone)]
pub struct ErrorBody {
    pub error: String,
}

/// Push success body.
#[derive(Debug, Clone)]
pub struct PushResponse {
    pub revision: i64,
}

/// The server's canonical curriculum, returned on a push conflict or when
/// binding a device to a pair that already has one.
#[derive(Debug, Clone)]
pub struct CurriculumPayload {
    pub revision: i64,
    /// Canonical curriculum version; bumped every time the canon is
    /// replaced. 0 for older payloads.
    pub version: i32,
    pub topics: Vec<Topic>,
}

/// Push conflict body: `{ "canonical": CurriculumPayload }`.
#[derive(Debug, Clone)]
pub struct ConflictBody {
    pub canonical: CurriculumPayload,
}

/// The account described by the server.
#[derive(Debug, Clone)]
pub struct MeResponse {
    pub email: String,
    pub subscription_status: String,
}

/// A language pair known to the server.
#[derive(Debug, Clone, PartialEq)]
pub struct PairInfoResponse {
    pub pair_id: String,
    pub native_lang: String,
    pub target_lang: String,
    pub revision: i64,
    pub age: Option<i64>,
    pub self_assessed_cefr: Option<String>,
    pub batch_size: i64,
    pub topic_count: i64,
}

/// The wire name of an outbox operation: "tombstone_reset" becomes
/// "tombstoneReset", every other name passes unchanged.
pub open spec fn op_to_wire_spec(op: Seq<char>) -> Seq<char> {
    if op == "tombstone_reset"@ {
        "tombstoneReset"@
    } else {
        op
    }
}

/// Outbox operation names (snake_case) to wire names (camelCase).
pub fn op_to_wire(op: &str) -> (r: &str)
    ensures
        r@ == op_to_wire_spec(op@),
{
    if str_eq(op, "tombstone_reset") {
        "tombstoneReset"
    } else {
        op
    }
}

/// The wire name of an outbox entity: "learning_item" becomes
/// "learningItem", every other name passes unchanged.
pub open spec fn entity_to_wire_spec(entity: Seq<char>) -> Seq<char> {
    if entity == "learning_item"@ {
        "learningItem"@
    } else {
        entity
    }
}

/// Outbox entity names (snake_case) to wire names (camelCase).
pub fn entity_to_wire(entity: &str) -> (r: &str)
    ensures
        r@ == entity_to_wire_spec(entity@),
{
    if str_eq(entity, "learning_item") {
        "learningItem"
    } else {
        entity
    }
}

/// Whether a wire operation means "upsert".
pub fn op_is_upsert(op: &str) -> (r: bool)
    ensures
        r == (op@ == "upsert"@),
{
    str_eq(op, "upsert")
}

/// Whether a wire operation means "delete".
pub fn op_is_delete(op: &str) -> (r: bool)
    ensures
        r == (op@ == "delete"@),
{
    str_eq(op, "delete")
}

/// Whether a wire operation means "tombstone reset" (accepts both naming
/// styles).
pub fn op_is_tombstone_reset(op: &str) -> (r: bool)
    ensures
        r == (op@ == "tombstoneReset"@ || op@ == "tombstone_reset"@),
{
    str_eq(op, "tombstoneReset") || str_eq(op, "tombstone_reset")
}

/// Whether a wire entity names learning items (accepts both styles).
pub fn entity_is_learning_item(entity: &str) -> (r: bool)
    ensures
        r == (entity@ == "learningItem"@ || entity@ == "learning_item"@),
{
    str_eq(entity, "learningItem") || str_eq(entity, "learning_item")
}

/// Whether a wire entity names vocabulary lemmas.
pub fn entity_is_lemma(entity: &str) -> (r: bool)
    ensures
        r == (entity@ == "lemma"@),
{
    str_eq(entity, "lemma")
}

/// Whether a wire entity names vocabulary forms.
pub fn entity_is_form(entity: &str) -> (r: bool)
    ensures
        r == (entity@ == "form"@),
{
    str_eq(entity, "form")
}

/// Mapping an operation to its wire name is accepted by the matching wire
/// predicate: a "tombstone_reset" outbox entry is recognized as a tombstone
/// reset after mapping, and every other name is left as it was.
pub proof fn lemma_op_to_wire_recognized(op: Seq<char>)
    ensures
        op == "tombstone_reset"@ ==> op_to_wire_spec(op) == "tombstoneReset"@,
        op != "tombstone_reset"@ ==> op_to_wire_spec(op) == op,
        op_to_wire_spec(op_to_wire_spec(op)) == op_to_wire_spec(op),
{
    if op == "tombstone_reset"@ {
        assert("tombstoneReset"@ != "tombstone_reset"@) by {
            reveal_strlit("tombstoneReset");
            reveal_strlit("tombstone_reset");
            assert("tombstoneReset"@.len() == 14);
            assert("tombstone_reset"@.len() == 15);
        }
    }
}

} // verus!
