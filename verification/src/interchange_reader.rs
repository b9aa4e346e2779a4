//! Reading interchange documents from JSON.

use crate::decimal::parse_u64;
use crate::eth2::types::spells;
use crate::interchange::{
    views, CompleteInterchangeData, Interchange, InterchangeData, InterchangeFormat,
    InterchangeMetadata, MinimalInterchangeData, SignedAttestation, SignedBlock,
};
use crate::interchange_json::{
    attestation_names, attestation_of, attestations_of, block_names, block_of, blocks_of,
    complete_names, complete_record_of, complete_records_of, document_names, document_of,
    format_of, integer_of, key_of, member, member_at, metadata_names, metadata_of, minimal_names,
    minimal_record_of, minimal_records_of, optional_integer, optional_root, required_integer,
    root_of,
};
use crate::json::{parse, parsed_json, Json, JsonError, JsonTree};
use crate::root_text::parse_canonical_root;
use crate::serde_utils::decode_prefixed;
use crate::text::chars_of;
use crate::types::{key_of_bytes, lemma_root_from, Epoch, Hash256, PublicKey, Slot};
use vstd::prelude::*;

verus! {

/// The members of an object as the tree of the object holds them.
pub open spec fn tree_members(members: Seq<(String, Json)>) -> Seq<(Seq<char>, JsonTree)> {
    Seq::new(members.len(), |i: int| (members[i].0@, members[i].1@))
}

/// The items of an array as the tree of the array holds them.
pub open spec fn tree_items(items: Seq<Json>) -> Seq<JsonTree> {
    Seq::new(items.len(), |i: int| items[i]@)
}

/// The tree of an object holds the trees of its members.
pub proof fn lemma_object_tree(members: Vec<(String, Json)>)
    ensures
        Json::Object(members)@ == JsonTree::Object(tree_members(members@)),
{
    reveal_with_fuel(<Json as View>::view, 2);
    let tree = Json::Object(members)@;
    assert(tree is Object);
    let found = tree->Object_0;
    assert(found.len() == members@.len());
    assert forall|i: int| 0 <= i < found.len() implies found[i] == tree_members(members@)[i] by {}
    assert(found =~= tree_members(members@));
}

/// The tree of an array holds the trees of its items.
pub proof fn lemma_array_tree(items: Vec<Json>)
    ensures
        Json::Array(items)@ == JsonTree::Array(tree_items(items@)),
{
    reveal_with_fuel(<Json as View>::view, 2);
    let tree = Json::Array(items)@;
    assert(tree is Array);
    let found = tree->Array_0;
    assert(found.len() == items@.len());
    assert forall|i: int| 0 <= i < found.len() implies found[i] == tree_items(items@)[i] by {}
    assert(found =~= tree_items(items@));
}

/// A list of three names holds just those names.
proof fn lemma_three_names(a: Seq<char>, b: Seq<char>, c: Seq<char>, name: Seq<char>)
    ensures
        seq![a, b, c].contains(name) == (name == a || name == b || name == c),
{
    let s = seq![a, b, c];
    assert(s[0] == a && s[1] == b && s[2] == c);
}

/// A list of two names holds just those names.
proof fn lemma_two_names(a: Seq<char>, b: Seq<char>, name: Seq<char>)
    ensures
        seq![a, b].contains(name) == (name == a || name == b),
{
    let s = seq![a, b];
    assert(s[0] == a && s[1] == b);
}

/// A list of four names holds just those names.
proof fn lemma_four_names(a: Seq<char>, b: Seq<char>, c: Seq<char>, d: Seq<char>, name: Seq<char>)
    ensures
        seq![a, b, c, d].contains(name) == (name == a || name == b || name == c || name == d),
{
    let s = seq![a, b, c, d];
    assert(s[0] == a && s[1] == b && s[2] == c && s[3] == d);
}

/// The first member with the given name.
fn lookup<'a>(members: &'a Vec<(String, Json)>, name: &str) -> (found: Option<&'a Json>)
    ensures
        match found {
            Some(j) => member(tree_members(members@), name@) == Some(j@),
            None => member(tree_members(members@), name@) is None,
        },
{
    let ghost tm = tree_members(members@);
    let mut i: usize = 0;
    while i < members.len()
        invariant
            i <= members.len(),
            tm == tree_members(members@),
            member_at(tm, name@, 0) == member_at(tm, name@, i as int),
        decreases members.len() - i,
    {
        let chars = chars_of(members[i].0.as_str());
        if spells(&chars, name) {
            return Some(&members[i].1);
        }
        i = i + 1;
    }
    None
}

/// Whether every member has one of up to four names.
fn only_names(members: &Vec<(String, Json)>, a: &str, b: &str, c: &str, d: &str) -> (ok: bool)
    ensures
        ok == forall|i: int|
            0 <= i < members@.len() ==> {
                let name = (#[trigger] tree_members(members@)[i]).0;
                name == a@ || name == b@ || name == c@ || name == d@
            },
{
    let ghost tm = tree_members(members@);
    let mut i: usize = 0;
    while i < members.len()
        invariant
            i <= members.len(),
            tm == tree_members(members@),
            forall|j: int|
                0 <= j < i ==> {
                    let name = (#[trigger] tm[j]).0;
                    name == a@ || name == b@ || name == c@ || name == d@
                },
        decreases members.len() - i,
    {
        let chars = chars_of(members[i].0.as_str());
        if !(spells(&chars, a) || spells(&chars, b) || spells(&chars, c) || spells(&chars, d)) {
            assert(tm[i as int].0 == members@[i as int].0@);
            return false;
        }
        i = i + 1;
    }
    true
}

fn read_integer(json: &Json) -> (value: Option<u64>)
    ensures
        value == integer_of(json@),
{
    match json {
        Json::Number(n) => *n,
        Json::String(s) => parse_u64(s.as_str()),
        _ => None,
    }
}

fn read_required_integer(members: &Vec<(String, Json)>, name: &str) -> (value: Option<u64>)
    ensures
        value == required_integer(tree_members(members@), name@),
{
    match lookup(members, name) {
        Some(json) => read_integer(json),
        None => None,
    }
}

fn read_optional_integer(members: &Vec<(String, Json)>, name: &str) -> (value: Option<Option<u64>>)
    ensures
        value == optional_integer(tree_members(members@), name@),
{
    match lookup(members, name) {
        None => Some(None),
        Some(Json::Null) => Some(None),
        Some(json) => match read_integer(json) {
            Some(v) => Some(Some(v)),
            None => None,
        },
    }
}

fn read_root(json: &Json) -> (root: Option<Hash256>)
    ensures
        root == root_of(json@),
{
    match json {
        Json::String(s) => match parse_canonical_root(s.as_str()) {
            Some(r) => {
                proof {
                    lemma_root_from(r);
                }
                Some(r)
            },
            None => None,
        },
        _ => None,
    }
}

fn read_optional_root(members: &Vec<(String, Json)>, name: &str) -> (root: Option<Option<Hash256>>)
    ensures
        root == optional_root(tree_members(members@), name@),
{
    match lookup(members, name) {
        None => Some(None),
        Some(Json::Null) => Some(None),
        Some(json) => match read_root(json) {
            Some(r) => Some(Some(r)),
            None => None,
        },
    }
}

fn read_key(json: &Json) -> (key: Option<PublicKey>)
    ensures
        key == key_of(json@),
{
    match json {
        Json::String(s) => {
            let chars = chars_of(s.as_str());
            if chars.len() != 98 || chars[0] != '0' || chars[1] != 'x' {
                return None;
            }
            match decode_prefixed(s.as_str()) {
                Ok(bytes) => Some(key_of_bytes(&bytes)),
                Err(_) => None,
            }
        },
        _ => None,
    }
}

fn read_format(json: &Json) -> (format: Option<InterchangeFormat>)
    ensures
        format == format_of(json@),
{
    match json {
        Json::String(s) => {
            let chars = chars_of(s.as_str());
            if spells(&chars, "minimal") {
                Some(InterchangeFormat::Minimal)
            } else if spells(&chars, "complete") {
                Some(InterchangeFormat::Complete)
            } else {
                None
            }
        },
        _ => None,
    }
}

fn read_metadata(json: &Json) -> (metadata: Option<InterchangeMetadata>)
    ensures
        metadata == metadata_of(json@),
{
    match json {
        Json::Object(members) => {
            let ghost tm = tree_members(members@);
            proof {
                lemma_object_tree(*members);
                assert forall|i: int| 0 <= i < tm.len() implies metadata_names().contains(
                    (#[trigger] tm[i]).0,
                ) == (tm[i].0 == "interchange_format"@ || tm[i].0
                    == "interchange_format_version"@ || tm[i].0 == "genesis_validators_root"@
                    || tm[i].0 == "genesis_validators_root"@) by {
                    lemma_three_names(
                        "interchange_format"@,
                        "interchange_format_version"@,
                        "genesis_validators_root"@,
                        tm[i].0,
                    );
                }
            }
            if !only_names(
                members,
                "interchange_format",
                "interchange_format_version",
                "genesis_validators_root",
                "genesis_validators_root",
            ) {
                return None;
            }
            let format = match lookup(members, "interchange_format") {
                Some(j) => read_format(j),
                None => None,
            };
            let version = read_required_integer(members, "interchange_format_version");
            let root = match lookup(members, "genesis_validators_root") {
                Some(j) => read_root(j),
                None => None,
            };
            match (format, version, root) {
                (Some(interchange_format), Some(interchange_format_version), Some(root)) => Some(
                    InterchangeMetadata {
                        interchange_format,
                        interchange_format_version,
                        genesis_validators_root: root,
                    },
                ),
                _ => None,
            }
        },
        _ => None,
    }
}

fn read_minimal_record(json: &Json) -> (record: Option<MinimalInterchangeData>)
    ensures
        record == minimal_record_of(json@),
{
    match json {
        Json::Object(members) => {
            let ghost tm = tree_members(members@);
            proof {
                lemma_object_tree(*members);
                assert forall|i: int| 0 <= i < tm.len() implies minimal_names().contains(
                    (#[trigger] tm[i]).0,
                ) == (tm[i].0 == "pubkey"@ || tm[i].0 == "last_signed_block_slot"@ || tm[i].0
                    == "last_signed_attestation_source_epoch"@ || tm[i].0
                    == "last_signed_attestation_target_epoch"@) by {
                    lemma_four_names(
                        "pubkey"@,
                        "last_signed_block_slot"@,
                        "last_signed_attestation_source_epoch"@,
                        "last_signed_attestation_target_epoch"@,
                        tm[i].0,
                    );
                }
            }
            if !only_names(
                members,
                "pubkey",
                "last_signed_block_slot",
                "last_signed_attestation_source_epoch",
                "last_signed_attestation_target_epoch",
            ) {
                return None;
            }
            let pubkey = match lookup(members, "pubkey") {
                Some(j) => read_key(j),
                None => None,
            };
            let slot = read_optional_integer(members, "last_signed_block_slot");
            let source = read_optional_integer(members, "last_signed_attestation_source_epoch");
            let target = read_optional_integer(members, "last_signed_attestation_target_epoch");
            match (pubkey, slot, source, target) {
                (Some(pubkey), Some(slot), Some(source), Some(target)) => Some(
                    MinimalInterchangeData {
                        pubkey,
                        last_signed_block_slot: match slot {
                            Some(v) => Some(Slot(v)),
                            None => None,
                        },
                        last_signed_attestation_source_epoch: match source {
                            Some(v) => Some(Epoch(v)),
                            None => None,
                        },
                        last_signed_attestation_target_epoch: match target {
                            Some(v) => Some(Epoch(v)),
                            None => None,
                        },
                    },
                ),
                _ => None,
            }
        },
        _ => None,
    }
}

fn read_block(json: &Json) -> (block: Option<SignedBlock>)
    ensures
        block == block_of(json@),
{
    match json {
        Json::Object(members) => {
            let ghost tm = tree_members(members@);
            proof {
                lemma_object_tree(*members);
                assert forall|i: int| 0 <= i < tm.len() implies block_names().contains(
                    (#[trigger] tm[i]).0,
                ) == (tm[i].0 == "slot"@ || tm[i].0 == "signing_root"@ || tm[i].0
                    == "signing_root"@ || tm[i].0 == "signing_root"@) by {
                    lemma_two_names("slot"@, "signing_root"@, tm[i].0);
                }
            }
            if !only_names(members, "slot", "signing_root", "signing_root", "signing_root") {
                return None;
            }
            let slot = read_required_integer(members, "slot");
            let root = read_optional_root(members, "signing_root");
            match (slot, root) {
                (Some(slot), Some(signing_root)) => Some(
                    SignedBlock { slot: Slot(slot), signing_root },
                ),
                _ => None,
            }
        },
        _ => None,
    }
}

fn read_attestation(json: &Json) -> (attestation: Option<SignedAttestation>)
    ensures
        attestation == attestation_of(json@),
{
    match json {
        Json::Object(members) => {
            let ghost tm = tree_members(members@);
            proof {
                lemma_object_tree(*members);
                assert forall|i: int| 0 <= i < tm.len() implies attestation_names().contains(
                    (#[trigger] tm[i]).0,
                ) == (tm[i].0 == "source_epoch"@ || tm[i].0 == "target_epoch"@ || tm[i].0
                    == "signing_root"@ || tm[i].0 == "signing_root"@) by {
                    lemma_three_names("source_epoch"@, "target_epoch"@, "signing_root"@, tm[i].0);
                }
            }
            if !only_names(members, "source_epoch", "target_epoch", "signing_root", "signing_root") {
                return None;
            }
            let source = read_required_integer(members, "source_epoch");
            let target = read_required_integer(members, "target_epoch");
            let root = read_optional_root(members, "signing_root");
            match (source, target, root) {
                (Some(source), Some(target), Some(signing_root)) => Some(
                    SignedAttestation {
                        source_epoch: Epoch(source),
                        target_epoch: Epoch(target),
                        signing_root,
                    },
                ),
                _ => None,
            }
        },
        _ => None,
    }
}

/// Once an item holds no block, no longer prefix of the list is a list of
/// blocks.
proof fn lemma_blocks_stay_failed(items: Seq<JsonTree>, k: nat, n: nat)
    requires
        k <= n,
        blocks_of(items, k) is None,
    ensures
        blocks_of(items, n) is None,
    decreases n,
{
    if k < n {
        lemma_blocks_stay_failed(items, k, (n - 1) as nat);
    }
}

proof fn lemma_attestations_stay_failed(items: Seq<JsonTree>, k: nat, n: nat)
    requires
        k <= n,
        attestations_of(items, k) is None,
    ensures
        attestations_of(items, n) is None,
    decreases n,
{
    if k < n {
        lemma_attestations_stay_failed(items, k, (n - 1) as nat);
    }
}

proof fn lemma_minimal_records_stay_failed(items: Seq<JsonTree>, k: nat, n: nat)
    requires
        k <= n,
        minimal_records_of(items, k) is None,
    ensures
        minimal_records_of(items, n) is None,
    decreases n,
{
    if k < n {
        lemma_minimal_records_stay_failed(items, k, (n - 1) as nat);
    }
}

proof fn lemma_complete_records_stay_failed(items: Seq<JsonTree>, k: nat, n: nat)
    requires
        k <= n,
        complete_records_of(items, k) is None,
    ensures
        complete_records_of(items, n) is None,
    decreases n,
{
    if k < n {
        lemma_complete_records_stay_failed(items, k, (n - 1) as nat);
    }
}

fn read_blocks(items: &Vec<Json>) -> (blocks: Option<Vec<SignedBlock>>)
    ensures
        match blocks {
            Some(b) => blocks_of(tree_items(items@), items@.len()) == Some(b@),
            None => blocks_of(tree_items(items@), items@.len()) is None,
        },
{
    let ghost ti = tree_items(items@);
    let mut blocks: Vec<SignedBlock> = Vec::new();
    let mut i: usize = 0;
    while i < items.len()
        invariant
            i <= items.len(),
            ti == tree_items(items@),
            blocks_of(ti, i as nat) == Some(blocks@),
        decreases items.len() - i,
    {
        match read_block(&items[i]) {
            Some(block) => blocks.push(block),
            None => {
                proof {
                    assert(ti[i as int] == items@[i as int]@);
                    lemma_blocks_stay_failed(ti, (i + 1) as nat, items@.len());
                }
                return None;
            },
        }
        assert(ti[i as int] == items@[i as int]@);
        i = i + 1;
    }
    Some(blocks)
}

fn read_attestations(items: &Vec<Json>) -> (attestations: Option<Vec<SignedAttestation>>)
    ensures
        match attestations {
            Some(a) => attestations_of(tree_items(items@), items@.len()) == Some(a@),
            None => attestations_of(tree_items(items@), items@.len()) is None,
        },
{
    let ghost ti = tree_items(items@);
    let mut attestations: Vec<SignedAttestation> = Vec::new();
    let mut i: usize = 0;
    while i < items.len()
        invariant
            i <= items.len(),
            ti == tree_items(items@),
            attestations_of(ti, i as nat) == Some(attestations@),
        decreases items.len() - i,
    {
        match read_attestation(&items[i]) {
            Some(attestation) => attestations.push(attestation),
            None => {
                proof {
                    assert(ti[i as int] == items@[i as int]@);
                    lemma_attestations_stay_failed(ti, (i + 1) as nat, items@.len());
                }
                return None;
            },
        }
        assert(ti[i as int] == items@[i as int]@);
        i = i + 1;
    }
    Some(attestations)
}

fn read_complete_record(json: &Json) -> (record: Option<CompleteInterchangeData>)
    ensures
        match record {
            Some(r) => complete_record_of(json@) == Some(r@),
            None => complete_record_of(json@) is None,
        },
{
    match json {
        Json::Object(members) => {
            let ghost tm = tree_members(members@);
            proof {
                lemma_object_tree(*members);
                assert forall|i: int| 0 <= i < tm.len() implies complete_names().contains(
                    (#[trigger] tm[i]).0,
                ) == (tm[i].0 == "pubkey"@ || tm[i].0 == "signed_blocks"@ || tm[i].0
                    == "signed_attestations"@ || tm[i].0 == "signed_attestations"@) by {
                    lemma_three_names("pubkey"@, "signed_blocks"@, "signed_attestations"@, tm[i].0);
                }
            }
            if !only_names(
                members,
                "pubkey",
                "signed_blocks",
                "signed_attestations",
                "signed_attestations",
            ) {
                return None;
            }
            let pubkey = match lookup(members, "pubkey") {
                Some(j) => read_key(j),
                None => None,
            };
            let blocks = match lookup(members, "signed_blocks") {
                Some(Json::Array(items)) => {
                    proof {
                        lemma_array_tree(*items);
                    }
                    read_blocks(items)
                },
                _ => None,
            };
            let attestations = match lookup(members, "signed_attestations") {
                Some(Json::Array(items)) => {
                    proof {
                        lemma_array_tree(*items);
                    }
                    read_attestations(items)
                },
                _ => None,
            };
            match (pubkey, blocks, attestations) {
                (Some(pubkey), Some(signed_blocks), Some(signed_attestations)) => Some(
                    CompleteInterchangeData { pubkey, signed_blocks, signed_attestations },
                ),
                _ => None,
            }
        },
        _ => None,
    }
}

fn read_minimal_records(items: &Vec<Json>) -> (records: Option<Vec<MinimalInterchangeData>>)
    ensures
        match records {
            Some(r) => minimal_records_of(tree_items(items@), items@.len()) == Some(r@),
            None => minimal_records_of(tree_items(items@), items@.len()) is None,
        },
{
    let ghost ti = tree_items(items@);
    let mut records: Vec<MinimalInterchangeData> = Vec::new();
    let mut i: usize = 0;
    while i < items.len()
        invariant
            i <= items.len(),
            ti == tree_items(items@),
            minimal_records_of(ti, i as nat) == Some(records@),
        decreases items.len() - i,
    {
        match read_minimal_record(&items[i]) {
            Some(record) => records.push(record),
            None => {
                proof {
                    assert(ti[i as int] == items@[i as int]@);
                    lemma_minimal_records_stay_failed(ti, (i + 1) as nat, items@.len());
                }
                return None;
            },
        }
        assert(ti[i as int] == items@[i as int]@);
        i = i + 1;
    }
    Some(records)
}

fn read_complete_records(items: &Vec<Json>) -> (records: Option<Vec<CompleteInterchangeData>>)
    ensures
        match records {
            Some(r) => complete_records_of(tree_items(items@), items@.len()) == Some(views(r@)),
            None => complete_records_of(tree_items(items@), items@.len()) is None,
        },
{
    let ghost ti = tree_items(items@);
    let mut records: Vec<CompleteInterchangeData> = Vec::new();
    let mut i: usize = 0;
    while i < items.len()
        invariant
            i <= items.len(),
            ti == tree_items(items@),
            complete_records_of(ti, i as nat) == Some(views(records@)),
        decreases items.len() - i,
    {
        let ghost before = views(records@);
        match read_complete_record(&items[i]) {
            Some(record) => {
                records.push(record);
                assert(views(records@) =~= before.push(record@));
            },
            None => {
                proof {
                    assert(ti[i as int] == items@[i as int]@);
                    lemma_complete_records_stay_failed(ti, (i + 1) as nat, items@.len());
                }
                return None;
            },
        }
        assert(ti[i as int] == items@[i as int]@);
        i = i + 1;
    }
    Some(records)
}

impl Interchange {
    /// Reads a document from a JSON tree.
    pub fn from_json(json: &Json) -> (document: Result<Interchange, JsonError>)
        ensures
            match document_of(json@) {
                Some(d) => document is Ok && document.unwrap()@ == d,
                None => document == Err::<Interchange, JsonError>(JsonError::Shape),
            },
    {
        let members = match json {
            Json::Object(members) => members,
            _ => { return Err(JsonError::Shape); },
        };
        let ghost tm = tree_members(members@);
        proof {
            lemma_object_tree(*members);
            assert forall|i: int| 0 <= i < tm.len() implies document_names().contains(
                (#[trigger] tm[i]).0,
            ) == (tm[i].0 == "metadata"@ || tm[i].0 == "data"@ || tm[i].0 == "data"@ || tm[i].0
                == "data"@) by {
                lemma_two_names("metadata"@, "data"@, tm[i].0);
            }
        }
        if !only_names(members, "metadata", "data", "data", "data") {
            return Err(JsonError::Shape);
        }
        let metadata = match lookup(members, "metadata") {
            Some(j) => match read_metadata(j) {
                Some(metadata) => metadata,
                None => { return Err(JsonError::Shape); },
            },
            None => { return Err(JsonError::Shape); },
        };
        let items = match lookup(members, "data") {
            Some(Json::Array(items)) => items,
            _ => { return Err(JsonError::Shape); },
        };
        proof {
            lemma_array_tree(*items);
        }
        let data = match metadata.interchange_format {
            InterchangeFormat::Minimal => match read_minimal_records(items) {
                Some(records) => InterchangeData::Minimal(records),
                None => { return Err(JsonError::Shape); },
            },
            InterchangeFormat::Complete => match read_complete_records(items) {
                Some(records) => InterchangeData::Complete(records),
                None => { return Err(JsonError::Shape); },
            },
        };
        Ok(Interchange { metadata, data })
    }

    /// Reads a document from JSON text.
    pub fn from_json_str(json: &str) -> (document: Result<Interchange, JsonError>)
        ensures
            match parsed_json(json@) {
                None => document == Err::<Interchange, JsonError>(JsonError::Syntax),
                Some(tree) => match document_of(tree) {
                    Some(d) => document is Ok && document.unwrap()@ == d,
                    None => document == Err::<Interchange, JsonError>(JsonError::Shape),
                },
            },
    {
        match parse(json) {
            Ok(tree) => Interchange::from_json(&tree),
            Err(e) => Err(e),
        }
    }
}

} // verus!
