//! The requests that a client sends to the beacon node: their paths and
//! query parameters.

use crate::decimal::{digits_of, format_u64};
use crate::eth2::types::{BlockId, StateId};
use crate::http_api::validators::ValidatorId;
use crate::serde_utils::{encode_prefixed, prefixed_hex};
use crate::types::{Epoch, Slot};
use vstd::prelude::*;
use vstd::string::StringExecFns;

verus! {

/// The status with which the node says that something does not exist.
pub const NOT_FOUND: u16 = 404;

/// A request: the segments of its path and its query parameters.
#[derive(Clone, Debug)]
pub struct Request {
    pub path: Vec<String>,
    pub query: Vec<(String, String)>,
}

/// The texts of a list of strings.
pub open spec fn texts(strings: Seq<String>) -> Seq<Seq<char>> {
    Seq::new(strings.len(), |i: int| strings[i]@)
}

/// The texts of a list of pairs of strings.
pub open spec fn pair_texts(pairs: Seq<(String, String)>) -> Seq<(Seq<char>, Seq<char>)> {
    Seq::new(pairs.len(), |i: int| (pairs[i].0@, pairs[i].1@))
}

/// The segments under which every route lies.
pub open spec fn base() -> Seq<Seq<char>> {
    seq!["eth"@, "v1"@]
}

/// The text written for a validator: `0x` and the hexadecimal digits of
/// its key, or its index.
pub open spec fn validator_text(id: ValidatorId) -> Seq<char> {
    match id {
        ValidatorId::PublicKey(key) => prefixed_hex(key@),
        ValidatorId::Index(index) => digits_of(index as nat),
    }
}

/// The query of a request with an optional slot and an optional second
/// parameter, in this order.
pub open spec fn slot_and(slot: Option<Slot>, name: Seq<char>, value: Option<u64>) -> Seq<
    (Seq<char>, Seq<char>),
> {
    let first = match slot {
        Some(s) => seq![("slot"@, digits_of(s.0 as nat))],
        None => Seq::empty(),
    };
    match value {
        Some(v) => first.push((name, digits_of(v as nat))),
        None => first,
    }
}

fn push_segment(path: &mut Vec<String>, segment: String)
    ensures
        texts(final(path)@) == texts(old(path)@).push(segment@),
{
    path.push(segment);
    assert(texts(path@) =~= texts(old(path)@).push(segment@));
}

fn start(first: &str, second: &str) -> (path: Vec<String>)
    ensures
        texts(path@) == base() + seq![first@, second@],
{
    let mut path: Vec<String> = Vec::new();
    push_segment(&mut path, String::from_str("eth"));
    push_segment(&mut path, String::from_str("v1"));
    push_segment(&mut path, String::from_str(first));
    push_segment(&mut path, String::from_str(second));
    assert(texts(path@) =~= base() + seq![first@, second@]);
    path
}

fn no_query() -> (query: Vec<(String, String)>)
    ensures
        pair_texts(query@) == Seq::<(Seq<char>, Seq<char>)>::empty(),
{
    let query: Vec<(String, String)> = Vec::new();
    assert(pair_texts(query@) =~= Seq::<(Seq<char>, Seq<char>)>::empty());
    query
}

fn slot_query(slot: Option<Slot>, name: &str, value: Option<u64>) -> (query: Vec<(String, String)>)
    ensures
        pair_texts(query@) == slot_and(slot, name@, value),
{
    let mut query: Vec<(String, String)> = Vec::new();
    if let Some(s) = slot {
        query.push((String::from_str("slot"), format_u64(s.0)));
    }
    if let Some(v) = value {
        query.push((String::from_str(name), format_u64(v)));
    }
    assert(pair_texts(query@) =~= slot_and(slot, name@, value));
    query
}

fn validator_string(id: &ValidatorId) -> (text: String)
    ensures
        text@ == validator_text(*id),
{
    match id {
        ValidatorId::PublicKey(key) => encode_prefixed(key.0.as_slice()),
        ValidatorId::Index(index) => format_u64(*index),
    }
}

/// `GET beacon/genesis`
pub fn beacon_genesis() -> (request: Request)
    ensures
        texts(request.path@) == base() + seq!["beacon"@, "genesis"@],
        pair_texts(request.query@).len() == 0,
{
    Request { path: start("beacon", "genesis"), query: no_query() }
}

/// `GET beacon/states/{state_id}/{leaf}`
fn state_request(state_id: &StateId, leaf: &str) -> (request: Request)
    ensures
        texts(request.path@) == base() + seq!["beacon"@, "states"@, state_id.text(), leaf@],
        pair_texts(request.query@).len() == 0,
{
    let mut path = start("beacon", "states");
    push_segment(&mut path, state_id.to_string());
    push_segment(&mut path, String::from_str(leaf));
    assert(texts(path@) =~= base() + seq!["beacon"@, "states"@, state_id.text(), leaf@]);
    Request { path, query: no_query() }
}

/// `GET beacon/states/{state_id}/root`
pub fn beacon_states_root(state_id: &StateId) -> (request: Request)
    ensures
        texts(request.path@) == base() + seq!["beacon"@, "states"@, state_id.text(), "root"@],
        pair_texts(request.query@).len() == 0,
{
    state_request(state_id, "root")
}

/// `GET beacon/states/{state_id}/fork`
pub fn beacon_states_fork(state_id: &StateId) -> (request: Request)
    ensures
        texts(request.path@) == base() + seq!["beacon"@, "states"@, state_id.text(), "fork"@],
        pair_texts(request.query@).len() == 0,
{
    state_request(state_id, "fork")
}

/// `GET beacon/states/{state_id}/finality_checkpoints`
pub fn beacon_states_finality_checkpoints(state_id: &StateId) -> (request: Request)
    ensures
        texts(request.path@) == base() + seq![
            "beacon"@,
            "states"@,
            state_id.text(),
            "finality_checkpoints"@,
        ],
        pair_texts(request.query@).len() == 0,
{
    state_request(state_id, "finality_checkpoints")
}

/// `GET beacon/states/{state_id}/validators`
pub fn beacon_states_validators(state_id: &StateId) -> (request: Request)
    ensures
        texts(request.path@) == base() + seq![
            "beacon"@,
            "states"@,
            state_id.text(),
            "validators"@,
        ],
        pair_texts(request.query@).len() == 0,
{
    state_request(state_id, "validators")
}

/// `GET beacon/states/{state_id}/committees/{epoch}?slot,index`
pub fn beacon_states_committees(
    state_id: &StateId,
    epoch: Epoch,
    slot: Option<Slot>,
    index: Option<u64>,
) -> (request: Request)
    ensures
        texts(request.path@) == base() + seq![
            "beacon"@,
            "states"@,
            state_id.text(),
            "committees"@,
            digits_of(epoch.0 as nat),
        ],
        pair_texts(request.query@) == slot_and(slot, "index"@, index),
{
    let mut path = start("beacon", "states");
    push_segment(&mut path, state_id.to_string());
    push_segment(&mut path, String::from_str("committees"));
    push_segment(&mut path, format_u64(epoch.0));
    assert(texts(path@) =~= base() + seq![
        "beacon"@,
        "states"@,
        state_id.text(),
        "committees"@,
        digits_of(epoch.0 as nat),
    ]);
    Request { path, query: slot_query(slot, "index", index) }
}

/// `GET beacon/states/{state_id}/validators/{validator_id}`
pub fn beacon_states_validator_id(state_id: &StateId, validator_id: &ValidatorId) -> (request:
    Request)
    ensures
        texts(request.path@) == base() + seq![
            "beacon"@,
            "states"@,
            state_id.text(),
            "validators"@,
            validator_text(*validator_id),
        ],
        pair_texts(request.query@).len() == 0,
{
    let mut path = start("beacon", "states");
    push_segment(&mut path, state_id.to_string());
    push_segment(&mut path, String::from_str("validators"));
    push_segment(&mut path, validator_string(validator_id));
    assert(texts(path@) =~= base() + seq![
        "beacon"@,
        "states"@,
        state_id.text(),
        "validators"@,
        validator_text(*validator_id),
    ]);
    Request { path, query: no_query() }
}

/// `GET beacon/headers?slot,parent_root`
pub fn beacon_headers(slot: Option<Slot>, parent_root: Option<u64>) -> (request: Request)
    ensures
        texts(request.path@) == base() + seq!["beacon"@, "headers"@],
        pair_texts(request.query@) == slot_and(slot, "parent_root"@, parent_root),
{
    Request { path: start("beacon", "headers"), query: slot_query(slot, "parent_root", parent_root) }
}

/// `GET beacon/blocks/{block_id}/root`
pub fn beacon_blocks_root(block_id: &BlockId) -> (request: Request)
    ensures
        texts(request.path@) == base() + seq!["beacon"@, "blocks"@, block_id.text(), "root"@],
        pair_texts(request.query@).len() == 0,
{
    let mut path = start("beacon", "blocks");
    push_segment(&mut path, block_id.to_string());
    push_segment(&mut path, String::from_str("root"));
    assert(texts(path@) =~= base() + seq!["beacon"@, "blocks"@, block_id.text(), "root"@]);
    Request { path, query: no_query() }
}

/// What a response that failed with this status means for a request that
/// may find nothing: `true` where it means that there is nothing.
pub fn is_absent(status: Option<u16>) -> (absent: bool)
    ensures
        absent == (status == Some(NOT_FOUND)),
{
    match status {
        Some(code) => code == NOT_FOUND,
        None => false,
    }
}

} // verus!
