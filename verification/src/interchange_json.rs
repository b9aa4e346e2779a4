//! Interchange documents as JSON: which trees are documents, and which
//! document a tree is.

use crate::decimal::parsed_u64;
use crate::hex_text::{bytes_of, is_hex};
use crate::interchange::{
    CompleteRecord, Document, InterchangeFormat, InterchangeMetadata, MinimalInterchangeData,
    Records, SignedAttestation, SignedBlock,
};
use crate::json::JsonTree;
use crate::root_text::{is_canonical_root_text, root_bytes};
use crate::types::{key_from, root_from, Epoch, Hash256, PublicKey, Slot};
use vstd::prelude::*;

verus! {

/// The position of the first member with the given name, looking from
/// position `from` on.
pub open spec fn member_at(members: Seq<(Seq<char>, JsonTree)>, name: Seq<char>, from: int) -> Option<
    int,
>
    decreases members.len() - from,
{
    if from < 0 || from >= members.len() {
        None
    } else if members[from].0 == name {
        Some(from)
    } else {
        member_at(members, name, from + 1)
    }
}

/// The first member with the given name.
pub open spec fn member(members: Seq<(Seq<char>, JsonTree)>, name: Seq<char>) -> Option<JsonTree> {
    match member_at(members, name, 0) {
        Some(i) => Some(members[i].1),
        None => None,
    }
}

/// Every member has one of the names allowed.
pub open spec fn names_among(members: Seq<(Seq<char>, JsonTree)>, allowed: Seq<Seq<char>>) -> bool {
    forall|i: int| 0 <= i < members.len() ==> allowed.contains((#[trigger] members[i]).0)
}

/// The integer that a tree holds: a number, or a string that is a decimal
/// numeral.
pub open spec fn integer_of(tree: JsonTree) -> Option<u64> {
    match tree {
        JsonTree::Number(n) => n,
        JsonTree::String(s) => parsed_u64(s),
        _ => None,
    }
}

/// A member that must hold an integer.
pub open spec fn required_integer(members: Seq<(Seq<char>, JsonTree)>, name: Seq<char>) -> Option<
    u64,
> {
    match member(members, name) {
        Some(tree) => integer_of(tree),
        None => None,
    }
}

/// A member that holds an integer, is null or is left out. The outer
/// `None` says that it holds something else.
pub open spec fn optional_integer(members: Seq<(Seq<char>, JsonTree)>, name: Seq<char>) -> Option<
    Option<u64>,
> {
    match member(members, name) {
        None => Some(None),
        Some(JsonTree::Null) => Some(None),
        Some(tree) => match integer_of(tree) {
            Some(v) => Some(Some(v)),
            None => None,
        },
    }
}

/// The root that a tree holds: a string of `0x` and 64 lower-case
/// hexadecimal digits.
pub open spec fn root_of(tree: JsonTree) -> Option<Hash256> {
    match tree {
        JsonTree::String(s) => if is_canonical_root_text(s) {
            Some(root_from(root_bytes(s)))
        } else {
            None
        },
        _ => None,
    }
}

/// A member that holds a root, is null or is left out. The outer `None`
/// says that it holds something else.
pub open spec fn optional_root(members: Seq<(Seq<char>, JsonTree)>, name: Seq<char>) -> Option<
    Option<Hash256>,
> {
    match member(members, name) {
        None => Some(None),
        Some(JsonTree::Null) => Some(None),
        Some(tree) => match root_of(tree) {
            Some(root) => Some(Some(root)),
            None => None,
        },
    }
}

/// The text is `0x` followed by 96 hexadecimal digits of either case.
pub open spec fn is_key_text(text: Seq<char>) -> bool {
    &&& text.len() == 98
    &&& text[0] == '0'
    &&& text[1] == 'x'
    &&& is_hex(text.skip(2))
}

/// The public key that a tree holds: a string of `0x` and 96 hexadecimal
/// digits.
pub open spec fn key_of(tree: JsonTree) -> Option<PublicKey> {
    match tree {
        JsonTree::String(s) => if is_key_text(s) {
            Some(key_from(bytes_of(s.skip(2))))
        } else {
            None
        },
        _ => None,
    }
}

/// The format that a tree names: the string `minimal` or `complete`.
pub open spec fn format_of(tree: JsonTree) -> Option<InterchangeFormat> {
    match tree {
        JsonTree::String(s) => if s == "minimal"@ {
            Some(InterchangeFormat::Minimal)
        } else if s == "complete"@ {
            Some(InterchangeFormat::Complete)
        } else {
            None
        },
        _ => None,
    }
}

/// The names that the metadata may hold, and must.
pub open spec fn metadata_names() -> Seq<Seq<char>> {
    seq!["interchange_format"@, "interchange_format_version"@, "genesis_validators_root"@]
}

/// The names that a minimal record may hold.
pub open spec fn minimal_names() -> Seq<Seq<char>> {
    seq![
        "pubkey"@,
        "last_signed_block_slot"@,
        "last_signed_attestation_source_epoch"@,
        "last_signed_attestation_target_epoch"@,
    ]
}

/// The names that a complete record may hold, and must.
pub open spec fn complete_names() -> Seq<Seq<char>> {
    seq!["pubkey"@, "signed_blocks"@, "signed_attestations"@]
}

/// The names that a signed block may hold.
pub open spec fn block_names() -> Seq<Seq<char>> {
    seq!["slot"@, "signing_root"@]
}

/// The names that a signed attestation may hold.
pub open spec fn attestation_names() -> Seq<Seq<char>> {
    seq!["source_epoch"@, "target_epoch"@, "signing_root"@]
}

/// The metadata that a tree holds: an object with the format, the version
/// and the genesis validators root, and nothing else.
pub open spec fn metadata_of(tree: JsonTree) -> Option<InterchangeMetadata> {
    match tree {
        JsonTree::Object(m) => {
            let format = match member(m, "interchange_format"@) {
                Some(t) => format_of(t),
                None => None,
            };
            let version = required_integer(m, "interchange_format_version"@);
            let root = match member(m, "genesis_validators_root"@) {
                Some(t) => root_of(t),
                None => None,
            };
            if names_among(m, metadata_names()) && format is Some && version is Some
                && root is Some {
                Some(
                    InterchangeMetadata {
                        interchange_format: format.unwrap(),
                        interchange_format_version: version.unwrap(),
                        genesis_validators_root: root.unwrap(),
                    },
                )
            } else {
                None
            }
        },
        _ => None,
    }
}

/// The minimal record that a tree holds: an object with the public key
/// and, each optional, the three maxima, and nothing else.
pub open spec fn minimal_record_of(tree: JsonTree) -> Option<MinimalInterchangeData> {
    match tree {
        JsonTree::Object(m) => {
            let pubkey = match member(m, "pubkey"@) {
                Some(t) => key_of(t),
                None => None,
            };
            let slot = optional_integer(m, "last_signed_block_slot"@);
            let source = optional_integer(m, "last_signed_attestation_source_epoch"@);
            let target = optional_integer(m, "last_signed_attestation_target_epoch"@);
            if names_among(m, minimal_names()) && pubkey is Some && slot is Some && source is Some
                && target is Some {
                Some(
                    MinimalInterchangeData {
                        pubkey: pubkey.unwrap(),
                        last_signed_block_slot: match slot.unwrap() {
                            Some(v) => Some(Slot(v)),
                            None => None,
                        },
                        last_signed_attestation_source_epoch: match source.unwrap() {
                            Some(v) => Some(Epoch(v)),
                            None => None,
                        },
                        last_signed_attestation_target_epoch: match target.unwrap() {
                            Some(v) => Some(Epoch(v)),
                            None => None,
                        },
                    },
                )
            } else {
                None
            }
        },
        _ => None,
    }
}

/// The signed block that a tree holds: an object with the slot and,
/// optional, the signing root, and nothing else.
pub open spec fn block_of(tree: JsonTree) -> Option<SignedBlock> {
    match tree {
        JsonTree::Object(m) => {
            let slot = required_integer(m, "slot"@);
            let root = optional_root(m, "signing_root"@);
            if names_among(m, block_names()) && slot is Some && root is Some {
                Some(SignedBlock { slot: Slot(slot.unwrap()), signing_root: root.unwrap() })
            } else {
                None
            }
        },
        _ => None,
    }
}

/// The signed attestation that a tree holds: an object with the source
/// and target epochs and, optional, the signing root, and nothing else.
pub open spec fn attestation_of(tree: JsonTree) -> Option<SignedAttestation> {
    match tree {
        JsonTree::Object(m) => {
            let source = required_integer(m, "source_epoch"@);
            let target = required_integer(m, "target_epoch"@);
            let root = optional_root(m, "signing_root"@);
            if names_among(m, attestation_names()) && source is Some && target is Some
                && root is Some {
                Some(
                    SignedAttestation {
                        source_epoch: Epoch(source.unwrap()),
                        target_epoch: Epoch(target.unwrap()),
                        signing_root: root.unwrap(),
                    },
                )
            } else {
                None
            }
        },
        _ => None,
    }
}

/// The signed blocks that the first `n` trees hold, where each holds one.
pub open spec fn blocks_of(items: Seq<JsonTree>, n: nat) -> Option<Seq<SignedBlock>>
    decreases n,
{
    if n == 0 {
        Some(Seq::empty())
    } else {
        match (blocks_of(items, (n - 1) as nat), block_of(items[n - 1])) {
            (Some(head), Some(last)) => Some(head.push(last)),
            _ => None,
        }
    }
}

/// The signed attestations that the first `n` trees hold, where each
/// holds one.
pub open spec fn attestations_of(items: Seq<JsonTree>, n: nat) -> Option<Seq<SignedAttestation>>
    decreases n,
{
    if n == 0 {
        Some(Seq::empty())
    } else {
        match (attestations_of(items, (n - 1) as nat), attestation_of(items[n - 1])) {
            (Some(head), Some(last)) => Some(head.push(last)),
            _ => None,
        }
    }
}

/// The complete record that a tree holds: an object with the public key,
/// the list of signed blocks and the list of signed attestations, and
/// nothing else.
pub open spec fn complete_record_of(tree: JsonTree) -> Option<CompleteRecord> {
    match tree {
        JsonTree::Object(m) => {
            let pubkey = match member(m, "pubkey"@) {
                Some(t) => key_of(t),
                None => None,
            };
            let blocks = match member(m, "signed_blocks"@) {
                Some(JsonTree::Array(items)) => blocks_of(items, items.len()),
                _ => None,
            };
            let attestations = match member(m, "signed_attestations"@) {
                Some(JsonTree::Array(items)) => attestations_of(items, items.len()),
                _ => None,
            };
            if names_among(m, complete_names()) && pubkey is Some && blocks is Some
                && attestations is Some {
                Some(
                    CompleteRecord {
                        pubkey: pubkey.unwrap(),
                        signed_blocks: blocks.unwrap(),
                        signed_attestations: attestations.unwrap(),
                    },
                )
            } else {
                None
            }
        },
        _ => None,
    }
}

/// The minimal records that the first `n` trees hold, where each holds one.
pub open spec fn minimal_records_of(items: Seq<JsonTree>, n: nat) -> Option<
    Seq<MinimalInterchangeData>,
>
    decreases n,
{
    if n == 0 {
        Some(Seq::empty())
    } else {
        match (minimal_records_of(items, (n - 1) as nat), minimal_record_of(items[n - 1])) {
            (Some(head), Some(last)) => Some(head.push(last)),
            _ => None,
        }
    }
}

/// The complete records that the first `n` trees hold, where each holds one.
pub open spec fn complete_records_of(items: Seq<JsonTree>, n: nat) -> Option<Seq<CompleteRecord>>
    decreases n,
{
    if n == 0 {
        Some(Seq::empty())
    } else {
        match (complete_records_of(items, (n - 1) as nat), complete_record_of(items[n - 1])) {
            (Some(head), Some(last)) => Some(head.push(last)),
            _ => None,
        }
    }
}

/// The records that a tree holds in the given format: a list of records
/// of that format.
pub open spec fn records_of(tree: JsonTree, format: InterchangeFormat) -> Option<Records> {
    match tree {
        JsonTree::Array(items) => match format {
            InterchangeFormat::Minimal => match minimal_records_of(items, items.len()) {
                Some(records) => Some(Records::Minimal(records)),
                None => None,
            },
            InterchangeFormat::Complete => match complete_records_of(items, items.len()) {
                Some(records) => Some(Records::Complete(records)),
                None => None,
            },
        },
        _ => None,
    }
}

/// The names that a document may hold, and must.
pub open spec fn document_names() -> Seq<Seq<char>> {
    seq!["metadata"@, "data"@]
}

/// The document that a tree holds: an object with the metadata and the
/// records in the format that the metadata names, and nothing else.
pub open spec fn document_of(tree: JsonTree) -> Option<Document> {
    match tree {
        JsonTree::Object(m) => {
            let metadata = match member(m, "metadata"@) {
                Some(t) => metadata_of(t),
                None => None,
            };
            if names_among(m, document_names()) && metadata is Some {
                match member(m, "data"@) {
                    Some(t) => match records_of(t, metadata.unwrap().interchange_format) {
                        Some(data) => Some(Document { metadata: metadata.unwrap(), data }),
                        None => None,
                    },
                    None => None,
                }
            } else {
                None
            }
        },
        _ => None,
    }
}

} // verus!
