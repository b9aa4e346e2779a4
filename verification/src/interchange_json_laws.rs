//! What is written is read back: the tree of a document holds that
//! document.

use crate::decimal::lemma_digits_denote;
use crate::hex_text::lemma_decode_encoded;
use crate::interchange::{
    CompleteRecord, Document, InterchangeFormat, InterchangeMetadata, MinimalInterchangeData,
    Records, SignedAttestation, SignedBlock,
};
use crate::interchange_json::{
    attestation_names, attestation_of, attestations_of, block_names, block_of, blocks_of,
    complete_names, complete_record_of, complete_records_of, document_names, document_of,
    format_of, integer_of, is_key_text, key_of, member_at, metadata_names, metadata_of,
    minimal_names, minimal_record_of, minimal_records_of, root_of,
};
use crate::interchange_writer::{
    attestation_tree, block_tree, complete_record_tree, document_tree, format_tree, integer_tree,
    key_tree, metadata_tree, minimal_record_tree, root_tree,
};
use crate::json::JsonTree;
use crate::root_text::law_root_text_round_trip;
use crate::serde_utils::prefixed_hex;
use crate::types::{lemma_key_from, lemma_root_from, Hash256, PublicKey};
use vstd::prelude::*;

verus! {

/// The tree of an integer holds the integer.
pub proof fn lemma_integer_round_trip(v: u64)
    ensures
        integer_of(integer_tree(v)) == Some(v),
        integer_tree(v) != JsonTree::Null,
{
    lemma_digits_denote(v as nat);
}

/// The tree of a root holds the root.
pub proof fn lemma_root_round_trip(root: Hash256)
    ensures
        root_of(root_tree(root)) == Some(root),
        root_tree(root) != JsonTree::Null,
{
    law_root_text_round_trip(root);
    lemma_root_from(root);
}

/// The tree of a public key holds the key.
pub proof fn lemma_key_round_trip(key: PublicKey)
    ensures
        key_of(key_tree(key)) == Some(key),
{
    let text = prefixed_hex(key@);
    lemma_decode_encoded(key@);
    assert(text.skip(2) =~= crate::hex_text::hex_of(key@));
    assert(is_key_text(text));
    lemma_key_from(key);
}

/// The tree of a format holds the format.
pub proof fn lemma_format_round_trip(format: InterchangeFormat)
    ensures
        format_of(format_tree(format)) == Some(format),
{
    reveal_strlit("minimal");
    reveal_strlit("complete");
    assert("minimal"@.len() != "complete"@.len());
}

/// The tree of the metadata holds the metadata.
pub proof fn lemma_metadata_round_trip(metadata: InterchangeMetadata)
    ensures
        metadata_of(metadata_tree(metadata)) == Some(metadata),
{
    reveal_strlit("interchange_format");
    reveal_strlit("interchange_format_version");
    reveal_strlit("genesis_validators_root");
    reveal_with_fuel(member_at, 4);
    let m = metadata_tree(metadata)->Object_0;
    let names = metadata_names();
    assert("interchange_format"@.len() == 18);
    assert("interchange_format_version"@.len() == 26);
    assert("genesis_validators_root"@.len() == 23);
    assert(names[0] == m[0].0 && names[1] == m[1].0 && names[2] == m[2].0);
    lemma_format_round_trip(metadata.interchange_format);
    lemma_integer_round_trip(metadata.interchange_format_version);
    lemma_root_round_trip(metadata.genesis_validators_root);
}

/// The tree of a minimal record holds the record.
pub proof fn lemma_minimal_record_round_trip(record: MinimalInterchangeData)
    ensures
        minimal_record_of(minimal_record_tree(record)) == Some(record),
{
    reveal_strlit("pubkey");
    reveal_strlit("last_signed_block_slot");
    reveal_strlit("last_signed_attestation_source_epoch");
    reveal_strlit("last_signed_attestation_target_epoch");
    reveal_with_fuel(member_at, 5);
    let m = minimal_record_tree(record)->Object_0;
    let names = minimal_names();
    assert("pubkey"@.len() == 6);
    assert("last_signed_block_slot"@.len() == 22);
    assert("last_signed_attestation_source_epoch"@.len() == 36);
    assert("last_signed_attestation_source_epoch"@[24] == 's');
    assert("last_signed_attestation_target_epoch"@[24] == 't');
    assert(names[0] == m[0].0 && names[1] == m[1].0 && names[2] == m[2].0 && names[3] == m[3].0);
    lemma_key_round_trip(record.pubkey);
    if let Some(s) = record.last_signed_block_slot {
        lemma_integer_round_trip(s.0);
    }
    if let Some(e) = record.last_signed_attestation_source_epoch {
        lemma_integer_round_trip(e.0);
    }
    if let Some(e) = record.last_signed_attestation_target_epoch {
        lemma_integer_round_trip(e.0);
    }
    let found = minimal_record_of(minimal_record_tree(record));
    assert(found is Some);
    assert(found.unwrap().pubkey == record.pubkey);
    assert(found.unwrap().last_signed_block_slot == record.last_signed_block_slot);
    assert(found.unwrap().last_signed_attestation_source_epoch
        == record.last_signed_attestation_source_epoch);
    assert(found.unwrap().last_signed_attestation_target_epoch
        == record.last_signed_attestation_target_epoch);
}

/// The tree of a signed block holds the block.
pub proof fn lemma_block_round_trip(block: SignedBlock)
    ensures
        block_of(block_tree(block)) == Some(block),
{
    reveal_strlit("slot");
    reveal_strlit("signing_root");
    reveal_with_fuel(member_at, 3);
    let m = block_tree(block)->Object_0;
    let names = block_names();
    assert("slot"@.len() == 4);
    assert("signing_root"@.len() == 12);
    assert(names[0] == m[0].0 && names[1] == m[1].0);
    lemma_integer_round_trip(block.slot.0);
    if let Some(r) = block.signing_root {
        lemma_root_round_trip(r);
    }
}

/// The tree of a signed attestation holds the attestation.
pub proof fn lemma_attestation_round_trip(attestation: SignedAttestation)
    ensures
        attestation_of(attestation_tree(attestation)) == Some(attestation),
{
    reveal_strlit("source_epoch");
    reveal_strlit("target_epoch");
    reveal_strlit("signing_root");
    reveal_with_fuel(member_at, 4);
    let m = attestation_tree(attestation)->Object_0;
    let names = attestation_names();
    assert("source_epoch"@[0] == 's' && "source_epoch"@[1] == 'o');
    assert("target_epoch"@[0] == 't');
    assert("signing_root"@[0] == 's' && "signing_root"@[1] == 'i');
    assert(names[0] == m[0].0 && names[1] == m[1].0 && names[2] == m[2].0);
    lemma_integer_round_trip(attestation.source_epoch.0);
    lemma_integer_round_trip(attestation.target_epoch.0);
    if let Some(r) = attestation.signing_root {
        lemma_root_round_trip(r);
    }
}

/// The trees of signed blocks hold the blocks.
pub proof fn lemma_blocks_round_trip(blocks: Seq<SignedBlock>, n: nat)
    requires
        n <= blocks.len(),
    ensures
        blocks_of(Seq::new(blocks.len(), |i: int| block_tree(blocks[i])), n) == Some(
            blocks.take(n as int),
        ),
    decreases n,
{
    let items = Seq::new(blocks.len(), |i: int| block_tree(blocks[i]));
    if n > 0 {
        lemma_blocks_round_trip(blocks, (n - 1) as nat);
        lemma_block_round_trip(blocks[n - 1]);
        assert(items[n - 1] == block_tree(blocks[n - 1]));
        assert(blocks.take(n - 1).push(blocks[n - 1]) =~= blocks.take(n as int));
    } else {
        assert(blocks.take(0) =~= Seq::<SignedBlock>::empty());
    }
}

/// The trees of signed attestations hold the attestations.
pub proof fn lemma_attestations_round_trip(attestations: Seq<SignedAttestation>, n: nat)
    requires
        n <= attestations.len(),
    ensures
        attestations_of(
            Seq::new(attestations.len(), |i: int| attestation_tree(attestations[i])),
            n,
        ) == Some(attestations.take(n as int)),
    decreases n,
{
    let items = Seq::new(attestations.len(), |i: int| attestation_tree(attestations[i]));
    if n > 0 {
        lemma_attestations_round_trip(attestations, (n - 1) as nat);
        lemma_attestation_round_trip(attestations[n - 1]);
        assert(items[n - 1] == attestation_tree(attestations[n - 1]));
        assert(attestations.take(n - 1).push(attestations[n - 1]) =~= attestations.take(n as int));
    } else {
        assert(attestations.take(0) =~= Seq::<SignedAttestation>::empty());
    }
}

/// The tree of a complete record holds the record.
pub proof fn lemma_complete_record_round_trip(record: CompleteRecord)
    ensures
        complete_record_of(complete_record_tree(record)) == Some(record),
{
    reveal_strlit("pubkey");
    reveal_strlit("signed_blocks");
    reveal_strlit("signed_attestations");
    reveal_with_fuel(member_at, 4);
    let m = complete_record_tree(record)->Object_0;
    let names = complete_names();
    assert("pubkey"@.len() == 6);
    assert("signed_blocks"@.len() == 13);
    assert("signed_attestations"@.len() == 19);
    assert(names[0] == m[0].0 && names[1] == m[1].0 && names[2] == m[2].0);
    lemma_key_round_trip(record.pubkey);
    lemma_blocks_round_trip(record.signed_blocks, record.signed_blocks.len());
    lemma_attestations_round_trip(record.signed_attestations, record.signed_attestations.len());
    assert(record.signed_blocks.take(record.signed_blocks.len() as int) =~= record.signed_blocks);
    assert(record.signed_attestations.take(record.signed_attestations.len() as int)
        =~= record.signed_attestations);
}

/// The trees of minimal records hold the records.
pub proof fn lemma_minimal_records_round_trip(records: Seq<MinimalInterchangeData>, n: nat)
    requires
        n <= records.len(),
    ensures
        minimal_records_of(Seq::new(records.len(), |i: int| minimal_record_tree(records[i])), n)
            == Some(records.take(n as int)),
    decreases n,
{
    let items = Seq::new(records.len(), |i: int| minimal_record_tree(records[i]));
    if n > 0 {
        lemma_minimal_records_round_trip(records, (n - 1) as nat);
        lemma_minimal_record_round_trip(records[n - 1]);
        assert(items[n - 1] == minimal_record_tree(records[n - 1]));
        assert(records.take(n - 1).push(records[n - 1]) =~= records.take(n as int));
    } else {
        assert(records.take(0) =~= Seq::<MinimalInterchangeData>::empty());
    }
}

/// The trees of complete records hold the records.
pub proof fn lemma_complete_records_round_trip(records: Seq<CompleteRecord>, n: nat)
    requires
        n <= records.len(),
    ensures
        complete_records_of(Seq::new(records.len(), |i: int| complete_record_tree(records[i])), n)
            == Some(records.take(n as int)),
    decreases n,
{
    let items = Seq::new(records.len(), |i: int| complete_record_tree(records[i]));
    if n > 0 {
        lemma_complete_records_round_trip(records, (n - 1) as nat);
        lemma_complete_record_round_trip(records[n - 1]);
        assert(items[n - 1] == complete_record_tree(records[n - 1]));
        assert(records.take(n - 1).push(records[n - 1]) =~= records.take(n as int));
    } else {
        assert(records.take(0) =~= Seq::<CompleteRecord>::empty());
    }
}

/// What is written is read back: the tree written for a document whose
/// stated format is the format of its records holds that document.
pub proof fn law_json_round_trip(document: Document)
    requires
        document.metadata.interchange_format == document.data.format(),
    ensures
        document_of(document_tree(document)) == Some(document),
{
    reveal_strlit("metadata");
    reveal_strlit("data");
    reveal_with_fuel(member_at, 3);
    let m = document_tree(document)->Object_0;
    let names = document_names();
    assert("metadata"@.len() == 8);
    assert("data"@.len() == 4);
    assert(names[0] == m[0].0 && names[1] == m[1].0);
    lemma_metadata_round_trip(document.metadata);
    match document.data {
        Records::Minimal(r) => {
            lemma_minimal_records_round_trip(r, r.len());
            assert(r.take(r.len() as int) =~= r);
        },
        Records::Complete(r) => {
            lemma_complete_records_round_trip(r, r.len());
            assert(r.take(r.len() as int) =~= r);
        },
    }
}

} // verus!
