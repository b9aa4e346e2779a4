//! Writing interchange documents as JSON trees.

use crate::decimal::{digits_of, format_u64};
use crate::interchange::{
    CompleteInterchangeData, CompleteRecord, Document, Interchange, InterchangeData,
    InterchangeFormat, InterchangeMetadata, MinimalInterchangeData, Records, SignedAttestation,
    SignedBlock,
};
use crate::interchange_reader::{lemma_array_tree, lemma_object_tree, tree_items, tree_members};
use crate::json::{Json, JsonTree};
use crate::root_text::format_root;
use crate::serde_utils::{encode_prefixed, prefixed_hex};
use crate::types::{Epoch, Hash256, PublicKey, Slot};
use vstd::prelude::*;
use vstd::string::StringExecFns;

verus! {

/// The tree for an integer: its decimal text as a string.
pub open spec fn integer_tree(v: u64) -> JsonTree {
    JsonTree::String(digits_of(v as nat))
}

/// The tree for an integer that may be absent: null where it is.
pub open spec fn optional_integer_tree(v: Option<u64>) -> JsonTree {
    match v {
        Some(v) => integer_tree(v),
        None => JsonTree::Null,
    }
}

/// The tree for a root: `0x` and its 64 hexadecimal digits as a string.
pub open spec fn root_tree(root: Hash256) -> JsonTree {
    JsonTree::String(prefixed_hex(root@))
}

/// The tree for a root that may be absent: null where it is.
pub open spec fn optional_root_tree(root: Option<Hash256>) -> JsonTree {
    match root {
        Some(r) => root_tree(r),
        None => JsonTree::Null,
    }
}

/// The tree for a public key: `0x` and its 96 hexadecimal digits as a string.
pub open spec fn key_tree(key: PublicKey) -> JsonTree {
    JsonTree::String(prefixed_hex(key@))
}

/// The tree for a format: its name in lower case as a string.
pub open spec fn format_tree(format: InterchangeFormat) -> JsonTree {
    match format {
        InterchangeFormat::Minimal => JsonTree::String("minimal"@),
        InterchangeFormat::Complete => JsonTree::String("complete"@),
    }
}

/// The tree for the metadata.
pub open spec fn metadata_tree(metadata: InterchangeMetadata) -> JsonTree {
    JsonTree::Object(
        seq![
            ("interchange_format"@, format_tree(metadata.interchange_format)),
            ("interchange_format_version"@, integer_tree(metadata.interchange_format_version)),
            ("genesis_validators_root"@, root_tree(metadata.genesis_validators_root)),
        ],
    )
}

/// The number inside an optional slot.
pub open spec fn slot_number(slot: Option<Slot>) -> Option<u64> {
    match slot {
        Some(s) => Some(s.0),
        None => None,
    }
}

/// The number inside an optional epoch.
pub open spec fn epoch_number(epoch: Option<Epoch>) -> Option<u64> {
    match epoch {
        Some(e) => Some(e.0),
        None => None,
    }
}

/// The tree for a minimal record.
pub open spec fn minimal_record_tree(record: MinimalInterchangeData) -> JsonTree {
    JsonTree::Object(
        seq![
            ("pubkey"@, key_tree(record.pubkey)),
            (
                "last_signed_block_slot"@,
                optional_integer_tree(slot_number(record.last_signed_block_slot)),
            ),
            (
                "last_signed_attestation_source_epoch"@,
                optional_integer_tree(epoch_number(record.last_signed_attestation_source_epoch)),
            ),
            (
                "last_signed_attestation_target_epoch"@,
                optional_integer_tree(epoch_number(record.last_signed_attestation_target_epoch)),
            ),
        ],
    )
}

/// The tree for a signed block.
pub open spec fn block_tree(block: SignedBlock) -> JsonTree {
    JsonTree::Object(
        seq![
            ("slot"@, integer_tree(block.slot.0)),
            ("signing_root"@, optional_root_tree(block.signing_root)),
        ],
    )
}

/// The tree for a signed attestation.
pub open spec fn attestation_tree(attestation: SignedAttestation) -> JsonTree {
    JsonTree::Object(
        seq![
            ("source_epoch"@, integer_tree(attestation.source_epoch.0)),
            ("target_epoch"@, integer_tree(attestation.target_epoch.0)),
            ("signing_root"@, optional_root_tree(attestation.signing_root)),
        ],
    )
}

/// The tree for a complete record.
pub open spec fn complete_record_tree(record: CompleteRecord) -> JsonTree {
    JsonTree::Object(
        seq![
            ("pubkey"@, key_tree(record.pubkey)),
            (
                "signed_blocks"@,
                JsonTree::Array(
                    Seq::new(record.signed_blocks.len(), |i: int| block_tree(record.signed_blocks[i])),
                ),
            ),
            (
                "signed_attestations"@,
                JsonTree::Array(
                    Seq::new(
                        record.signed_attestations.len(),
                        |i: int| attestation_tree(record.signed_attestations[i]),
                    ),
                ),
            ),
        ],
    )
}

/// The tree for the records of a document: the list of their trees.
pub open spec fn records_tree(records: Records) -> JsonTree {
    match records {
        Records::Minimal(m) => JsonTree::Array(Seq::new(m.len(), |i: int| minimal_record_tree(m[i]))),
        Records::Complete(c) => JsonTree::Array(
            Seq::new(c.len(), |i: int| complete_record_tree(c[i])),
        ),
    }
}

/// The tree for a document: its metadata and its records.
pub open spec fn document_tree(document: Document) -> JsonTree {
    JsonTree::Object(
        seq![("metadata"@, metadata_tree(document.metadata)), ("data"@, records_tree(document.data))],
    )
}

/// A pair of a name and a JSON value.
fn named(name: &str, value: Json) -> (pair: (String, Json))
    ensures
        pair.0@ == name@,
        pair.1 == value,
{
    (String::from_str(name), value)
}

fn integer_json(v: u64) -> (json: Json)
    ensures
        json@ == integer_tree(v),
{
    Json::String(format_u64(v))
}

fn optional_integer_json(v: Option<u64>) -> (json: Json)
    ensures
        json@ == optional_integer_tree(v),
{
    match v {
        Some(v) => integer_json(v),
        None => Json::Null,
    }
}

fn root_json(root: &Hash256) -> (json: Json)
    ensures
        json@ == root_tree(*root),
{
    Json::String(format_root(root))
}

fn optional_root_json(root: &Option<Hash256>) -> (json: Json)
    ensures
        json@ == optional_root_tree(*root),
{
    match root {
        Some(r) => root_json(r),
        None => Json::Null,
    }
}

fn key_json(key: &PublicKey) -> (json: Json)
    ensures
        json@ == key_tree(*key),
{
    Json::String(encode_prefixed(key.0.as_slice()))
}

fn format_json(format: InterchangeFormat) -> (json: Json)
    ensures
        json@ == format_tree(format),
{
    match format {
        InterchangeFormat::Minimal => Json::String(String::from_str("minimal")),
        InterchangeFormat::Complete => Json::String(String::from_str("complete")),
    }
}

fn metadata_json(metadata: &InterchangeMetadata) -> (json: Json)
    ensures
        json@ == metadata_tree(*metadata),
{
    let mut members: Vec<(String, Json)> = Vec::new();
    members.push(named("interchange_format", format_json(metadata.interchange_format)));
    members.push(
        named("interchange_format_version", integer_json(metadata.interchange_format_version)),
    );
    members.push(named("genesis_validators_root", root_json(&metadata.genesis_validators_root)));
    proof {
        lemma_object_tree(members);
        assert(tree_members(members@) =~= metadata_tree(*metadata)->Object_0);
    }
    Json::Object(members)
}

fn minimal_record_json(record: &MinimalInterchangeData) -> (json: Json)
    ensures
        json@ == minimal_record_tree(*record),
{
    let slot = match record.last_signed_block_slot {
        Some(s) => Some(s.0),
        None => None,
    };
    let source = match record.last_signed_attestation_source_epoch {
        Some(e) => Some(e.0),
        None => None,
    };
    let target = match record.last_signed_attestation_target_epoch {
        Some(e) => Some(e.0),
        None => None,
    };
    let mut members: Vec<(String, Json)> = Vec::new();
    members.push(named("pubkey", key_json(&record.pubkey)));
    members.push(named("last_signed_block_slot", optional_integer_json(slot)));
    members.push(named("last_signed_attestation_source_epoch", optional_integer_json(source)));
    members.push(named("last_signed_attestation_target_epoch", optional_integer_json(target)));
    proof {
        lemma_object_tree(members);
        assert(tree_members(members@) =~= minimal_record_tree(*record)->Object_0);
    }
    Json::Object(members)
}

fn block_json(block: &SignedBlock) -> (json: Json)
    ensures
        json@ == block_tree(*block),
{
    let mut members: Vec<(String, Json)> = Vec::new();
    members.push(named("slot", integer_json(block.slot.0)));
    members.push(named("signing_root", optional_root_json(&block.signing_root)));
    proof {
        lemma_object_tree(members);
        assert(tree_members(members@) =~= block_tree(*block)->Object_0);
    }
    Json::Object(members)
}

fn attestation_json(attestation: &SignedAttestation) -> (json: Json)
    ensures
        json@ == attestation_tree(*attestation),
{
    let mut members: Vec<(String, Json)> = Vec::new();
    members.push(named("source_epoch", integer_json(attestation.source_epoch.0)));
    members.push(named("target_epoch", integer_json(attestation.target_epoch.0)));
    members.push(named("signing_root", optional_root_json(&attestation.signing_root)));
    proof {
        lemma_object_tree(members);
        assert(tree_members(members@) =~= attestation_tree(*attestation)->Object_0);
    }
    Json::Object(members)
}

fn complete_record_json(record: &CompleteInterchangeData) -> (json: Json)
    ensures
        json@ == complete_record_tree(record@),
{
    let mut blocks: Vec<Json> = Vec::new();
    let mut i: usize = 0;
    while i < record.signed_blocks.len()
        invariant
            i <= record.signed_blocks.len(),
            blocks@.len() == i,
            forall|j: int| 0 <= j < i ==> blocks@[j]@ == block_tree(record.signed_blocks@[j]),
        decreases record.signed_blocks.len() - i,
    {
        blocks.push(block_json(&record.signed_blocks[i]));
        i = i + 1;
    }
    let mut attestations: Vec<Json> = Vec::new();
    let mut k: usize = 0;
    while k < record.signed_attestations.len()
        invariant
            k <= record.signed_attestations.len(),
            attestations@.len() == k,
            forall|j: int|
                0 <= j < k ==> attestations@[j]@ == attestation_tree(record.signed_attestations@[j]),
        decreases record.signed_attestations.len() - k,
    {
        attestations.push(attestation_json(&record.signed_attestations[k]));
        k = k + 1;
    }
    proof {
        lemma_array_tree(blocks);
        lemma_array_tree(attestations);
        assert(tree_items(blocks@) =~= Seq::new(
            record@.signed_blocks.len(),
            |i: int| block_tree(record@.signed_blocks[i]),
        ));
        assert(tree_items(attestations@) =~= Seq::new(
            record@.signed_attestations.len(),
            |i: int| attestation_tree(record@.signed_attestations[i]),
        ));
    }
    let mut members: Vec<(String, Json)> = Vec::new();
    members.push(named("pubkey", key_json(&record.pubkey)));
    members.push(named("signed_blocks", Json::Array(blocks)));
    members.push(named("signed_attestations", Json::Array(attestations)));
    proof {
        lemma_object_tree(members);
        assert(tree_members(members@) =~= complete_record_tree(record@)->Object_0);
    }
    Json::Object(members)
}

impl Interchange {
    /// The document as a JSON tree. Integers are written as strings.
    pub fn to_json(&self) -> (json: Json)
        ensures
            json@ == document_tree(self@),
    {
        let mut items: Vec<Json> = Vec::new();
        match &self.data {
            InterchangeData::Minimal(records) => {
                let mut i: usize = 0;
                while i < records.len()
                    invariant
                        i <= records.len(),
                        items@.len() == i,
                        forall|j: int| 0 <= j < i ==> items@[j]@ == minimal_record_tree(records@[j]),
                    decreases records.len() - i,
                {
                    items.push(minimal_record_json(&records[i]));
                    i = i + 1;
                }
                proof {
                    assert(tree_items(items@) =~= Seq::new(
                        records@.len(),
                        |i: int| minimal_record_tree(records@[i]),
                    ));
                }
            },
            InterchangeData::Complete(records) => {
                let mut i: usize = 0;
                while i < records.len()
                    invariant
                        i <= records.len(),
                        items@.len() == i,
                        forall|j: int|
                            0 <= j < i ==> items@[j]@ == complete_record_tree(records@[j]@),
                    decreases records.len() - i,
                {
                    items.push(complete_record_json(&records[i]));
                    i = i + 1;
                }
                proof {
                    assert(tree_items(items@) =~= Seq::new(
                        records@.len(),
                        |i: int| complete_record_tree(crate::interchange::views(records@)[i]),
                    ));
                }
            },
        }
        proof {
            lemma_array_tree(items);
        }
        let mut members: Vec<(String, Json)> = Vec::new();
        members.push(named("metadata", metadata_json(&self.metadata)));
        members.push(named("data", Json::Array(items)));
        proof {
            lemma_object_tree(members);
            assert(tree_members(members@) =~= document_tree(self@)->Object_0);
        }
        Json::Object(members)
    }
}

} // verus!
