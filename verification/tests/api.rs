use slashing_protection::account_manager::{
    attempt_step, keystore_source, password_step, AttemptStep, Decryption, KeystoreSource,
    PasswordStep, CMD, DIR_FLAG, KEYSTORE_FLAG,
};
use slashing_protection::behaviour::{
    truncate_listen_addrs, DecodeError, EventQueue, PubsubKind, PubsubMessage,
    MAX_IDENTIFY_ADDRESSES,
};
use slashing_protection::eth2::paths::{
    beacon_blocks_root, beacon_genesis, beacon_headers, beacon_states_committees,
    beacon_states_finality_checkpoints, beacon_states_fork, beacon_states_root,
    beacon_states_validator_id, beacon_states_validators, is_absent,
};
use slashing_protection::eth2::types::{
    BlockId, FinalityCheckpointsData, GenericResponse, RootData, StateId,
};
use slashing_protection::eth2::validator_status::{ValidatorStatus, EPOCHS_BEFORE_FINALITY};
use slashing_protection::http_api::block_id::BlockId as ApiBlockId;
use slashing_protection::http_api::reject::{
    beacon_chain_error, contains, custom_not_found, handle_rejection, CustomNotFound, Rejection,
};
use slashing_protection::http_api::state_id::{epoch_start_slot, StateId as ApiStateId};
use slashing_protection::http_api::validators::{all_validators, one_validator, ValidatorId};
use slashing_protection::http_api::{ChainSnapshot, RootLookup};
use slashing_protection::test_utils::pubkey;
use slashing_protection::types::{Checkpoint, Epoch, Hash256, Slot, Validator};
use std::str::FromStr;

fn root(n: u64) -> Hash256 {
    Hash256::from_low_u64_be(n)
}

fn root_text(n: u64) -> String {
    format!("0x{:064x}", n)
}

const FAR: u64 = u64::MAX;

fn validator(i: usize, eligibility: u64, activation: u64, exit: u64, withdrawable: u64) -> Validator {
    Validator {
        pubkey: pubkey(i),
        withdrawal_credentials: Hash256::zero(),
        effective_balance: 32,
        slashed: false,
        activation_eligibility_epoch: Epoch::new(eligibility),
        activation_epoch: Epoch::new(activation),
        exit_epoch: Epoch::new(exit),
        withdrawable_epoch: Epoch::new(withdrawable),
    }
}

#[test]
fn block_ids_are_read() {
    assert!(matches!(BlockId::parse("head"), Ok(BlockId::Head)));
    assert!(matches!(BlockId::parse("genesis"), Ok(BlockId::Genesis)));
    assert!(matches!(BlockId::parse("finalized"), Ok(BlockId::Finalized)));
    assert!(matches!(BlockId::parse("justified"), Ok(BlockId::Justified)));
    assert!(matches!(BlockId::parse("12"), Ok(BlockId::Slot(s)) if s == Slot::new(12)));
    assert!(matches!(BlockId::parse("+012"), Ok(BlockId::Slot(s)) if s == Slot::new(12)));
    assert!(matches!(BlockId::parse(&root_text(9)), Ok(BlockId::Root(r)) if r == root(9)));
    assert!(matches!(BlockId::from_str("head"), Ok(BlockId::Head)));
    assert_eq!(BlockId::parse("Head").unwrap_err(), "Head cannot be parsed as a parameter");
    assert_eq!(BlockId::parse("").unwrap_err(), " cannot be parsed as a parameter");
    assert_eq!(BlockId::parse("-1").unwrap_err(), "-1 cannot be parsed as a parameter");
    assert_eq!(BlockId::parse("0x12").unwrap_err(), "0x12 cannot be parsed as a root");
    assert_eq!(
        BlockId::parse("18446744073709551616").unwrap_err(),
        "18446744073709551616 cannot be parsed as a parameter"
    );
}

#[test]
fn state_ids_are_read() {
    assert!(matches!(StateId::parse("head"), Ok(StateId::Head)));
    assert!(matches!(StateId::parse("genesis"), Ok(StateId::Genesis)));
    assert!(matches!(StateId::parse("finalized"), Ok(StateId::Finalized)));
    assert!(matches!(StateId::parse("justified"), Ok(StateId::Justified)));
    assert!(matches!(StateId::parse("0"), Ok(StateId::Slot(s)) if s == Slot::new(0)));
    assert!(matches!(StateId::parse(&root_text(1)), Ok(StateId::Root(r)) if r == root(1)));
    assert!(matches!(StateId::from_str("7"), Ok(StateId::Slot(s)) if s == Slot::new(7)));
    assert_eq!(StateId::parse("seven").unwrap_err(), "seven cannot be parsed as a slot");
    assert_eq!(StateId::parse("0xzz").unwrap_err(), "0xzz cannot be parsed as a root");
}

#[test]
fn ids_are_written_as_they_are_read() {
    assert_eq!(StateId::Head.to_string(), "head");
    assert_eq!(StateId::Genesis.to_string(), "genesis");
    assert_eq!(StateId::Finalized.to_string(), "finalized");
    assert_eq!(StateId::Justified.to_string(), "justified");
    assert_eq!(StateId::Slot(Slot::new(40)).to_string(), "40");
    assert_eq!(StateId::Root(root(0xab)).to_string(), root_text(0xab));
    assert_eq!(BlockId::Slot(Slot::new(0)).to_string(), "0");
    assert_eq!(BlockId::Root(root(1)).to_string(), root_text(1));
    for text in ["head", "genesis", "finalized", "justified", "0", "77", &root_text(5)] {
        assert_eq!(BlockId::parse(text).unwrap().to_string(), text);
        assert_eq!(StateId::parse(text).unwrap().to_string(), text);
    }
}

#[test]
fn envelopes_wrap() {
    let response = GenericResponse::from(7u64);
    assert_eq!(response.data, 7);
    let data = RootData::from(root(3));
    assert_eq!(data.root, root(3));
    let nested = GenericResponse::from(data);
    assert_eq!(nested.data.root, root(3));
    let c = Checkpoint { epoch: Epoch::new(1), root: root(1) };
    let f = FinalityCheckpointsData { previous_justified: c, current_justified: c, finalized: c };
    assert_eq!(f.finalized, c);
}

#[test]
fn validator_status_by_rule() {
    let at = |v: Option<&Validator>, epoch: u64, finalized: u64| {
        ValidatorStatus::from_validator(v, Epoch::new(epoch), Epoch::new(finalized), Epoch::new(FAR))
    };
    assert_eq!(EPOCHS_BEFORE_FINALITY, 3);
    assert_eq!(at(None, 0, 0), ValidatorStatus::Unknown);
    let fresh = validator(0, FAR, FAR, FAR, FAR);
    assert_eq!(at(Some(&fresh), 10, 0), ValidatorStatus::WaitingForEligibility);
    let eligible = validator(0, 12, FAR, FAR, FAR);
    assert_eq!(
        at(Some(&eligible), 10, 11),
        ValidatorStatus::WaitingForFinality(Epoch::new(15))
    );
    assert_eq!(at(Some(&eligible), 10, 12), ValidatorStatus::WaitingInQueue);
    let nearly_far = validator(0, FAR - 1, FAR, FAR, FAR);
    assert_eq!(
        at(Some(&nearly_far), 10, 0),
        ValidatorStatus::WaitingForFinality(Epoch::new(FAR))
    );
    let standby = validator(0, 5, 20, FAR, FAR);
    assert_eq!(at(Some(&standby), 10, 0), ValidatorStatus::StandbyForActive(Epoch::new(20)));
    assert_eq!(at(Some(&standby), 20, 0), ValidatorStatus::Active);
    let leaving = validator(0, 5, 8, 30, 40);
    assert_eq!(at(Some(&leaving), 10, 0), ValidatorStatus::ActiveAwaitingExit(Epoch::new(30)));
    assert_eq!(at(Some(&leaving), 29, 0), ValidatorStatus::ActiveAwaitingExit(Epoch::new(30)));
    assert_eq!(at(Some(&leaving), 30, 0), ValidatorStatus::Exited(Epoch::new(40)));
    assert_eq!(at(Some(&leaving), 39, 0), ValidatorStatus::Exited(Epoch::new(40)));
    assert_eq!(at(Some(&leaving), 40, 0), ValidatorStatus::Withdrawable);
    assert!(leaving.is_active_at(Epoch::new(8)));
    assert!(!leaving.is_active_at(Epoch::new(7)));
    assert!(leaving.is_exited_at(Epoch::new(30)));
    assert!(!leaving.is_withdrawable_at(Epoch::new(39)));
}

#[test]
fn validators_of_a_state() {
    let validators = vec![
        validator(0, 1, 2, FAR, FAR),
        validator(1, FAR, FAR, FAR, FAR),
        validator(2, 1, 2, 3, 4),
    ];
    let balances = vec![10u64, 20];
    let epoch = Epoch::new(5);
    let far = Epoch::new(FAR);
    let all = all_validators(&validators, &balances, epoch, Epoch::new(0), far);
    assert_eq!(all.len(), 2);
    assert_eq!(all[0].index, 0);
    assert_eq!(all[0].balance, 10);
    assert_eq!(all[0].status, ValidatorStatus::Active);
    assert_eq!(all[0].validator, validators[0]);
    assert_eq!(all[1].index, 1);
    assert_eq!(all[1].balance, 20);
    assert_eq!(all[1].status, ValidatorStatus::WaitingForEligibility);
    let one = |id: ValidatorId| one_validator(&validators, &balances, &id, epoch, Epoch::new(0), far);
    assert_eq!(one(ValidatorId::Index(1)).unwrap().balance, 20);
    assert_eq!(one(ValidatorId::PublicKey(pubkey(0))).unwrap().index, 0);
    assert_eq!(one(ValidatorId::PublicKey(pubkey(1))).unwrap().validator, validators[1]);
    // A validator without a balance, one that is not there, an index out of range.
    assert!(one(ValidatorId::PublicKey(pubkey(2))).is_none());
    assert!(one(ValidatorId::Index(2)).is_none());
    assert!(one(ValidatorId::PublicKey(pubkey(3))).is_none());
    assert!(one(ValidatorId::Index(3)).is_none());
    assert!(one(ValidatorId::Index(u64::MAX)).is_none());
}

fn chain() -> ChainSnapshot {
    ChainSnapshot {
        head_block_root: root(1),
        head_state_root: root(2),
        genesis_block_root: root(3),
        genesis_state_root: root(4),
        finalized_checkpoint: Checkpoint { epoch: Epoch::new(5), root: root(5) },
        current_justified_checkpoint: Checkpoint { epoch: Epoch::new(6), root: root(6) },
        slots_per_epoch: 32,
    }
}

fn known(lookup: RootLookup) -> Hash256 {
    match lookup {
        RootLookup::Known(r) => r,
        RootLookup::AtSlot(s) => panic!("asked for slot {:?}", s),
    }
}

fn at_slot(lookup: RootLookup) -> Slot {
    match lookup {
        RootLookup::AtSlot(s) => s,
        RootLookup::Known(r) => panic!("answered {:?}", r),
    }
}

#[test]
fn block_roots_are_looked_up() {
    let c = chain();
    assert_eq!(known(ApiBlockId::parse("head").unwrap().root(&c)), root(1));
    assert_eq!(known(ApiBlockId::parse("genesis").unwrap().root(&c)), root(3));
    assert_eq!(known(ApiBlockId::parse("finalized").unwrap().root(&c)), root(5));
    assert_eq!(known(ApiBlockId::parse("justified").unwrap().root(&c)), root(6));
    assert_eq!(known(ApiBlockId::from_root(root(9)).root(&c)), root(9));
    assert_eq!(at_slot(ApiBlockId::from_slot(Slot::new(77)).root(&c)), Slot::new(77));
    assert!(matches!(ApiBlockId::from_slot(Slot::new(1)).0, BlockId::Slot(s) if s == Slot::new(1)));
    assert!(matches!(ApiBlockId::from_root(root(1)).0, BlockId::Root(r) if r == root(1)));
    assert!(ApiBlockId::from_str("nope").is_err());
    assert_eq!(ApiBlockId::root_at_slot(Slot::new(77), Some(root(8))).unwrap(), root(8));
    assert_eq!(
        ApiBlockId::root_at_slot(Slot::new(77), None).unwrap_err().0,
        "beacon block at slot 77"
    );
}

#[test]
fn state_roots_are_looked_up() {
    let c = chain();
    assert_eq!(known(ApiStateId::parse("head").unwrap().root(&c)), root(2));
    assert_eq!(known(ApiStateId::parse("genesis").unwrap().root(&c)), root(4));
    assert_eq!(at_slot(ApiStateId::parse("finalized").unwrap().root(&c)), Slot::new(160));
    assert_eq!(at_slot(ApiStateId::parse("justified").unwrap().root(&c)), Slot::new(192));
    assert_eq!(at_slot(ApiStateId::parse("12").unwrap().root(&c)), Slot::new(12));
    assert_eq!(known(ApiStateId::parse(&root_text(11)).unwrap().root(&c)), root(11));
    assert_eq!(ApiStateId::parse("12").unwrap().state_slot(), Some(Slot::new(12)));
    assert_eq!(ApiStateId::parse("head").unwrap().state_slot(), None);
    assert_eq!(ApiStateId::parse(&root_text(11)).unwrap().state_slot(), None);
    assert!(ApiStateId::from_str("0x").is_err());
    assert_eq!(epoch_start_slot(Epoch::new(3), 8), Slot::new(24));
    assert_eq!(epoch_start_slot(Epoch::new(u64::MAX), 2), Slot::new(u64::MAX));
    assert_eq!(epoch_start_slot(Epoch::new(u64::MAX), 0), Slot::new(0));
    assert_eq!(ApiStateId::root_at_slot(Slot::new(5), Some(root(8))).unwrap(), root(8));
    assert_eq!(
        ApiStateId::root_at_slot(Slot::new(5), None).unwrap_err().0,
        "beacon state at slot 5"
    );
}

#[test]
fn rejections_are_told() {
    let reply = handle_rejection(&Rejection::NotFound);
    assert_eq!((reply.code, reply.message.as_str()), (404, "NOT_FOUND"));
    let reply = handle_rejection(&Rejection::MethodNotAllowed);
    assert_eq!((reply.code, reply.message.as_str()), (405, "METHOD_NOT_ALLOWED"));
    let reply = handle_rejection(&Rejection::Unhandled);
    assert_eq!((reply.code, reply.message.as_str()), (500, "UNHANDLED_REJECTION"));
    let reply = handle_rejection(&Rejection::BodyDeserializeError(None));
    assert_eq!((reply.code, reply.message.as_str()), (400, "BAD_REQUEST"));
    let reply =
        handle_rejection(&Rejection::BodyDeserializeError(Some("missing field".to_string())));
    assert_eq!((reply.code, reply.message.as_str()), (400, "BAD_REQUEST"));
    let reply =
        handle_rejection(&Rejection::BodyDeserializeError(Some("bad denomination".to_string())));
    assert_eq!((reply.code, reply.message.as_str()), (400, "FIELD_ERROR: denom"));
    let reply = handle_rejection(&beacon_chain_error("DBInconsistent".to_string()));
    assert_eq!((reply.code, reply.message.as_str()), (500, "UNHANDLED_ERROR: DBInconsistent"));
    let reply = handle_rejection(&custom_not_found("beacon block at slot 3".to_string()));
    assert_eq!((reply.code, reply.message.as_str()), (404, "NOT_FOUND: beacon block at slot 3"));
    assert_eq!(CustomNotFound("x".to_string()).0, "x");
}

#[test]
fn text_is_searched() {
    assert!(contains("denom", "denom"));
    assert!(contains("a denom b", "denom"));
    assert!(contains("dedenom", "denom"));
    assert!(contains("anything", ""));
    assert!(contains("", ""));
    assert!(!contains("deno", "denom"));
    assert!(!contains("", "denom"));
    assert!(!contains("den om", "denom"));
    assert!(!contains("mdeno", "denom"));
}

#[test]
fn gossip_messages_are_tagged() {
    assert_eq!(PubsubKind::Block.tag(), 0);
    assert_eq!(PubsubKind::Attestation.tag(), 1);
    assert_eq!(PubsubKind::from_tag(0), Ok(PubsubKind::Block));
    assert_eq!(PubsubKind::from_tag(1), Ok(PubsubKind::Attestation));
    assert_eq!(PubsubKind::from_tag(2), Err(DecodeError::Invalid));
    assert_eq!(PubsubKind::from_tag(u32::MAX), Err(DecodeError::Invalid));
    let block: PubsubMessage<u8, u16> = PubsubMessage::Block(1);
    let attestation: PubsubMessage<u8, u16> = PubsubMessage::Attestation(2);
    assert_eq!(block.kind(), PubsubKind::Block);
    assert_eq!(attestation.kind(), PubsubKind::Attestation);
    assert_eq!(PubsubKind::from_tag(block.kind().tag()), Ok(PubsubKind::Block));
}

#[test]
fn events_leave_in_the_order_they_came() {
    let mut queue: EventQueue<u32> = EventQueue::new();
    assert_eq!(queue.len(), 0);
    assert_eq!(queue.poll(), None);
    queue.push(3);
    queue.push(1);
    queue.push(2);
    assert_eq!(queue.len(), 3);
    assert_eq!(queue.poll(), Some(3));
    queue.push(9);
    assert_eq!(queue.poll(), Some(1));
    assert_eq!(queue.poll(), Some(2));
    assert_eq!(queue.poll(), Some(9));
    assert_eq!(queue.poll(), None);
}

#[test]
fn addresses_are_cut_at_twenty() {
    assert_eq!(MAX_IDENTIFY_ADDRESSES, 20);
    let mut few: Vec<u32> = (0..20).collect();
    assert!(!truncate_listen_addrs(&mut few));
    assert_eq!(few.len(), 20);
    let mut many: Vec<u32> = (0..21).collect();
    assert!(truncate_listen_addrs(&mut many));
    assert_eq!(many, (0..20).collect::<Vec<u32>>());
    let mut none: Vec<u32> = vec![];
    assert!(!truncate_listen_addrs(&mut none));
}

#[test]
fn requests_are_laid_out() {
    let path = |segments: &[&str]| segments.iter().map(|s| s.to_string()).collect::<Vec<String>>();
    let pair = |a: &str, b: &str| (a.to_string(), b.to_string());
    let r = beacon_genesis();
    assert_eq!(r.path, path(&["eth", "v1", "beacon", "genesis"]));
    assert!(r.query.is_empty());
    let head = StateId::Head;
    assert_eq!(beacon_states_root(&head).path, path(&["eth", "v1", "beacon", "states", "head", "root"]));
    assert_eq!(
        beacon_states_fork(&StateId::Slot(Slot::new(3))).path,
        path(&["eth", "v1", "beacon", "states", "3", "fork"])
    );
    assert_eq!(
        beacon_states_finality_checkpoints(&StateId::Genesis).path,
        path(&["eth", "v1", "beacon", "states", "genesis", "finality_checkpoints"])
    );
    assert_eq!(
        beacon_states_validators(&StateId::Root(root(1))).path,
        path(&["eth", "v1", "beacon", "states", &root_text(1), "validators"])
    );
    let r = beacon_states_committees(&head, Epoch::new(4), Some(Slot::new(130)), Some(2));
    assert_eq!(r.path, path(&["eth", "v1", "beacon", "states", "head", "committees", "4"]));
    assert_eq!(r.query, vec![pair("slot", "130"), pair("index", "2")]);
    let r = beacon_states_committees(&head, Epoch::new(4), None, Some(0));
    assert_eq!(r.query, vec![pair("index", "0")]);
    let r = beacon_states_committees(&head, Epoch::new(4), None, None);
    assert!(r.query.is_empty());
    let r = beacon_states_validator_id(&head, &ValidatorId::Index(12));
    assert_eq!(r.path, path(&["eth", "v1", "beacon", "states", "head", "validators", "12"]));
    let r = beacon_states_validator_id(&head, &ValidatorId::PublicKey(pubkey(0)));
    assert_eq!(r.path[6], format!("0x{}", "00".repeat(48)));
    let r = beacon_headers(Some(Slot::new(1)), Some(2));
    assert_eq!(r.path, path(&["eth", "v1", "beacon", "headers"]));
    assert_eq!(r.query, vec![pair("slot", "1"), pair("parent_root", "2")]);
    assert!(beacon_headers(None, None).query.is_empty());
    assert_eq!(
        beacon_blocks_root(&BlockId::Finalized).path,
        path(&["eth", "v1", "beacon", "blocks", "finalized", "root"])
    );
    assert!(is_absent(Some(404)));
    assert!(!is_absent(Some(500)));
    assert!(!is_absent(Some(200)));
    assert!(!is_absent(None));
}

#[test]
fn keystore_import_decisions() {
    assert_eq!((CMD, KEYSTORE_FLAG, DIR_FLAG), ("import", "keystore", "directory"));
    assert!(matches!(
        keystore_source(Some("a.json".to_string()), None),
        Ok(KeystoreSource::Single(p)) if p == "a.json"
    ));
    assert!(matches!(
        keystore_source(None, Some("keys".to_string())),
        Ok(KeystoreSource::Directory(p)) if p == "keys"
    ));
    assert_eq!(keystore_source(None, None).unwrap_err(), "Must supply either --keystore or --directory");
    assert_eq!(
        keystore_source(Some("a".to_string()), Some("b".to_string())).unwrap_err(),
        "Must supply either --keystore or --directory"
    );
    assert_eq!(password_step(""), PasswordStep::ContinueWithout);
    assert_eq!(password_step(" "), PasswordStep::Try);
    assert_eq!(password_step("hunter2"), PasswordStep::Try);
    assert_eq!(attempt_step(Decryption::Correct), AttemptStep::Keep);
    assert_eq!(attempt_step(Decryption::InvalidPassword), AttemptStep::AskAgain);
    assert_eq!(attempt_step(Decryption::OtherError), AttemptStep::GiveUp);
}
