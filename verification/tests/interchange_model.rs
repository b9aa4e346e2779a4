use slashing_protection::interchange::{
    same_attestations, same_blocks, same_multiset, CompleteInterchangeData, Interchange,
    InterchangeData, InterchangeFormat, InterchangeMetadata, MinimalInterchangeData,
    SignedAttestation, SignedBlock,
};
use slashing_protection::json::{parse, JsonError};
use slashing_protection::test_utils::pubkey;
use slashing_protection::types::{Epoch, Hash256, Slot};
use slashing_protection::SUPPORTED_INTERCHANGE_FORMAT_VERSION;

fn metadata(format: InterchangeFormat) -> InterchangeMetadata {
    InterchangeMetadata {
        interchange_format: format,
        interchange_format_version: SUPPORTED_INTERCHANGE_FORMAT_VERSION,
        genesis_validators_root: Hash256::from_low_u64_be(66),
    }
}

fn minimal(i: usize, slot: Option<u64>) -> MinimalInterchangeData {
    MinimalInterchangeData {
        pubkey: pubkey(i),
        last_signed_block_slot: slot.map(Slot::new),
        last_signed_attestation_source_epoch: None,
        last_signed_attestation_target_epoch: None,
    }
}

fn complete(i: usize, slots: &[u64]) -> CompleteInterchangeData {
    CompleteInterchangeData {
        pubkey: pubkey(i),
        signed_blocks: slots
            .iter()
            .map(|s| SignedBlock { slot: Slot::new(*s), signing_root: None })
            .collect(),
        signed_attestations: vec![SignedAttestation {
            source_epoch: Epoch::new(1),
            target_epoch: Epoch::new(2),
            signing_root: Some(Hash256::from_low_u64_be(9)),
        }],
    }
}

fn minimal_doc(data: Vec<MinimalInterchangeData>) -> Interchange {
    Interchange { metadata: metadata(InterchangeFormat::Minimal), data: InterchangeData::Minimal(data) }
}

fn complete_doc(data: Vec<CompleteInterchangeData>) -> Interchange {
    Interchange {
        metadata: metadata(InterchangeFormat::Complete),
        data: InterchangeData::Complete(data),
    }
}

#[test]
fn supported_version_is_five() {
    assert_eq!(SUPPORTED_INTERCHANGE_FORMAT_VERSION, 5);
}

#[test]
fn len_counts_records() {
    assert_eq!(minimal_doc(vec![]).len(), 0);
    assert_eq!(minimal_doc(vec![minimal(0, None), minimal(1, Some(3))]).len(), 2);
    assert_eq!(complete_doc(vec![complete(0, &[1, 2, 3])]).len(), 1);
}

#[test]
fn equiv_ignores_order() {
    let a = minimal_doc(vec![minimal(0, Some(1)), minimal(1, Some(2)), minimal(2, None)]);
    let b = minimal_doc(vec![minimal(2, None), minimal(0, Some(1)), minimal(1, Some(2))]);
    assert!(a.equiv(&b));
    assert!(b.equiv(&a));
    assert!(a.equiv(&a));
    let c = complete_doc(vec![complete(0, &[1]), complete(1, &[2, 3])]);
    let d = complete_doc(vec![complete(1, &[2, 3]), complete(0, &[1])]);
    assert!(c.equiv(&d));
}

#[test]
fn equiv_counts_repeats() {
    let once = minimal_doc(vec![minimal(0, Some(1))]);
    let twice = minimal_doc(vec![minimal(0, Some(1)), minimal(0, Some(1))]);
    assert!(!once.equiv(&twice));
    assert!(!twice.equiv(&once));
    let a = minimal_doc(vec![minimal(0, Some(1)), minimal(0, Some(1)), minimal(1, None)]);
    let b = minimal_doc(vec![minimal(0, Some(1)), minimal(1, None), minimal(1, None)]);
    assert!(!a.equiv(&b));
    assert!(twice.equiv(&twice));
}

#[test]
fn equiv_tells_records_apart() {
    let a = minimal_doc(vec![minimal(0, Some(1))]);
    assert!(!a.equiv(&minimal_doc(vec![minimal(0, Some(2))])));
    assert!(!a.equiv(&minimal_doc(vec![minimal(1, Some(1))])));
    assert!(!a.equiv(&minimal_doc(vec![minimal(0, None)])));
    assert!(!a.equiv(&minimal_doc(vec![])));
    // Inside a complete record the order of the entries counts.
    let c = complete_doc(vec![complete(0, &[1, 2])]);
    assert!(!c.equiv(&complete_doc(vec![complete(0, &[2, 1])])));
    assert!(!c.equiv(&complete_doc(vec![complete(0, &[1])])));
}

#[test]
fn equiv_needs_same_form_and_metadata() {
    let empty_minimal = minimal_doc(vec![]);
    let empty_complete = complete_doc(vec![]);
    assert!(!empty_minimal.equiv(&empty_complete));
    let mut other_root = minimal_doc(vec![]);
    other_root.metadata.genesis_validators_root = Hash256::from_low_u64_be(67);
    assert!(!empty_minimal.equiv(&other_root));
    let mut other_version = minimal_doc(vec![]);
    other_version.metadata.interchange_format_version = 4;
    assert!(!empty_minimal.equiv(&other_version));
    let mut other_format = minimal_doc(vec![]);
    other_format.metadata.interchange_format = InterchangeFormat::Complete;
    assert!(!empty_minimal.equiv(&other_format));
}

#[test]
fn lists_compare_in_order() {
    let b1 = SignedBlock { slot: Slot::new(1), signing_root: None };
    let b2 = SignedBlock { slot: Slot::new(1), signing_root: Some(Hash256::zero()) };
    assert!(same_blocks(&vec![b1, b2], &vec![b1, b2]));
    assert!(!same_blocks(&vec![b1, b2], &vec![b2, b1]));
    assert!(!same_blocks(&vec![b1], &vec![b1, b1]));
    let a1 = SignedAttestation {
        source_epoch: Epoch::new(0),
        target_epoch: Epoch::new(1),
        signing_root: None,
    };
    let a2 = SignedAttestation { target_epoch: Epoch::new(2), ..a1 };
    assert!(same_attestations(&vec![a1, a2], &vec![a1, a2]));
    assert!(!same_attestations(&vec![a1, a2], &vec![a1, a1]));
    assert!(same_multiset(&vec![minimal(0, None), minimal(1, None)], &vec![
        minimal(1, None),
        minimal(0, None)
    ]));
}

fn key_text(i: usize) -> String {
    let bytes = pubkey(i).as_bytes();
    let mut text = String::from("0x");
    for b in bytes.iter() {
        text.push_str(&format!("{:02x}", b));
    }
    text
}

fn root_text(n: u64) -> String {
    format!("0x{:064x}", n)
}

fn minimal_text(records: &str) -> String {
    format!(
        "{{\"metadata\":{{\"interchange_format\":\"minimal\",\"interchange_format_version\":\"5\",\"genesis_validators_root\":\"{}\"}},\"data\":[{}]}}",
        root_text(66),
        records
    )
}

#[test]
fn reads_minimal_document() {
    let text = minimal_text(&format!(
        "{{\"pubkey\":\"{}\",\"last_signed_block_slot\":\"10\",\"last_signed_attestation_source_epoch\":1,\"last_signed_attestation_target_epoch\":null}}",
        key_text(3)
    ));
    let doc = Interchange::from_json_str(&text).unwrap();
    assert_eq!(doc.metadata, metadata(InterchangeFormat::Minimal));
    match &doc.data {
        InterchangeData::Minimal(records) => {
            assert_eq!(records.len(), 1);
            assert_eq!(records[0], MinimalInterchangeData {
                pubkey: pubkey(3),
                last_signed_block_slot: Some(Slot::new(10)),
                last_signed_attestation_source_epoch: Some(Epoch::new(1)),
                last_signed_attestation_target_epoch: None,
            });
        }
        InterchangeData::Complete(_) => panic!("a minimal document was read as complete"),
    }
}

#[test]
fn reads_complete_document() {
    let text = format!(
        "{{\"data\":[{{\"signed_attestations\":[{{\"source_epoch\":\"3\",\"target_epoch\":\"4\"}}],\"signed_blocks\":[{{\"slot\":\"81952\",\"signing_root\":\"{}\"}},{{\"slot\":2}}],\"pubkey\":\"{}\"}}],\"metadata\":{{\"genesis_validators_root\":\"{}\",\"interchange_format_version\":5,\"interchange_format\":\"complete\"}}}}",
        root_text(7),
        key_text(1),
        root_text(66)
    );
    let doc = Interchange::from_json_str(&text).unwrap();
    assert_eq!(doc.metadata, metadata(InterchangeFormat::Complete));
    let expected = complete_doc(vec![CompleteInterchangeData {
        pubkey: pubkey(1),
        signed_blocks: vec![
            SignedBlock { slot: Slot::new(81952), signing_root: Some(Hash256::from_low_u64_be(7)) },
            SignedBlock { slot: Slot::new(2), signing_root: None },
        ],
        signed_attestations: vec![SignedAttestation {
            source_epoch: Epoch::new(3),
            target_epoch: Epoch::new(4),
            signing_root: None,
        }],
    }]);
    assert!(doc.equiv(&expected));
}

#[test]
fn refuses_what_is_no_document() {
    let record = format!("{{\"pubkey\":\"{}\"}}", key_text(0));
    assert!(Interchange::from_json_str(&minimal_text(&record)).is_ok());
    assert_eq!(Interchange::from_json_str("{").unwrap_err(), JsonError::Syntax);
    assert_eq!(Interchange::from_json_str("").unwrap_err(), JsonError::Syntax);
    assert_eq!(Interchange::from_json_str("[]").unwrap_err(), JsonError::Shape);
    assert_eq!(Interchange::from_json_str("{}").unwrap_err(), JsonError::Shape);
    let shape = |records: &str| Interchange::from_json_str(&minimal_text(records)).unwrap_err();
    // An unknown field.
    assert_eq!(
        shape(&format!("{{\"pubkey\":\"{}\",\"extra\":1}}", key_text(0))),
        JsonError::Shape
    );
    // No public key, a short one, one without prefix.
    assert_eq!(shape("{\"last_signed_block_slot\":\"1\"}"), JsonError::Shape);
    assert_eq!(shape("{\"pubkey\":\"0x00\"}"), JsonError::Shape);
    assert_eq!(shape(&format!("{{\"pubkey\":\"{}\"}}", &key_text(0)[2..])), JsonError::Shape);
    // Numerals with a sign, a leading zero, a fraction, too large.
    for bad in ["\"+1\"", "\"01\"", "1.5", "-1", "\"18446744073709551616\"", "true", "\"\""] {
        assert_eq!(
            shape(&format!("{{\"pubkey\":\"{}\",\"last_signed_block_slot\":{}}}", key_text(0), bad)),
            JsonError::Shape
        );
    }
    // Complete records under a minimal heading.
    assert_eq!(
        shape(&format!(
            "{{\"pubkey\":\"{}\",\"signed_blocks\":[],\"signed_attestations\":[]}}",
            key_text(0)
        )),
        JsonError::Shape
    );
}

#[test]
fn refuses_bad_metadata() {
    let with = |metadata: &str| {
        Interchange::from_json_str(&format!("{{\"metadata\":{},\"data\":[]}}", metadata))
    };
    let good = format!(
        "{{\"interchange_format\":\"minimal\",\"interchange_format_version\":\"5\",\"genesis_validators_root\":\"{}\"}}",
        root_text(1)
    );
    assert!(with(&good).is_ok());
    // Another version is read; whether it is supported is for the import to say.
    assert_eq!(
        with(&good.replace("\"5\"", "\"4\"")).unwrap().metadata.interchange_format_version,
        4
    );
    assert_eq!(with(&good.replace("minimal", "Minimal")).unwrap_err(), JsonError::Shape);
    assert_eq!(with(&good.replace("minimal", "partial")).unwrap_err(), JsonError::Shape);
    assert_eq!(with(&good.replace("0x", "0X")).unwrap_err(), JsonError::Shape);
    assert_eq!(with(&good.replace("0x0", "0xA")).unwrap_err(), JsonError::Shape);
    assert_eq!(with(&good.replace("0x0", "0x")).unwrap_err(), JsonError::Shape);
    assert_eq!(
        with("{\"interchange_format\":\"minimal\",\"interchange_format_version\":\"5\"}")
            .unwrap_err(),
        JsonError::Shape
    );
    assert_eq!(
        Interchange::from_json_str(&format!("{{\"metadata\":{}}}", good)).unwrap_err(),
        JsonError::Shape
    );
    assert_eq!(
        Interchange::from_json_str(&format!("{{\"metadata\":{},\"data\":{{}}}}", good))
            .unwrap_err(),
        JsonError::Shape
    );
    assert_eq!(
        Interchange::from_json_str(&format!("{{\"metadata\":{},\"data\":[],\"more\":0}}", good))
            .unwrap_err(),
        JsonError::Shape
    );
}

#[test]
fn what_is_written_is_read_back() {
    let docs = vec![
        minimal_doc(vec![]),
        minimal_doc(vec![minimal(0, Some(0)), minimal(1, None), minimal(2, Some(u64::MAX))]),
        complete_doc(vec![]),
        complete_doc(vec![complete(0, &[]), complete(1, &[5, 6, 7])]),
    ];
    for doc in docs {
        let tree = doc.to_json();
        let back = Interchange::from_json(&tree).unwrap();
        assert!(doc.equiv(&back));
        assert_eq!(doc.len(), back.len());
    }
}

#[test]
fn json_text_is_parsed() {
    assert!(parse("{\"a\":[1,2,{\"b\":null}]}").is_ok());
    assert!(parse("[true,false,\"x\",1.5,-3]").is_ok());
    assert_eq!(parse("{\"a\":").err(), Some(JsonError::Syntax));
    assert_eq!(parse("nul").err(), Some(JsonError::Syntax));
}
