//! What the network behaviour decides by itself: how gossip messages are
//! tagged, in what order events leave, and how many addresses of a peer
//! are kept.

use vstd::prelude::*;

verus! {

/// No more addresses than this are kept of a peer that identified itself.
pub const MAX_IDENTIFY_ADDRESSES: usize = 20;

/// A tag that names no kind of message.
#[derive(Clone, Copy, Debug, PartialEq, Eq, Structural)]
pub enum DecodeError {
    Invalid,
}

/// Messages that are passed to and from the pubsub behaviour: a block or
/// an attestation.
#[derive(Clone, Copy, Debug, PartialEq, Eq)]
pub enum PubsubMessage<B, A> {
    /// Gossipsub message providing notification of a new block.
    Block(B),
    /// Gossipsub message providing notification of a new attestation.
    Attestation(A),
}

/// The kinds of gossip message.
#[derive(Clone, Copy, Debug, PartialEq, Eq, Structural)]
pub enum PubsubKind {
    Block,
    Attestation,
}

impl PubsubKind {
    /// The number that goes before a message of this kind.
    pub open spec fn tag_of(self) -> u32 {
        match self {
            PubsubKind::Block => 0,
            PubsubKind::Attestation => 1,
        }
    }

    /// The kind that a number stands for, if any.
    pub open spec fn of_tag(id: u32) -> Result<PubsubKind, DecodeError> {
        if id == 0 {
            Ok(PubsubKind::Block)
        } else if id == 1 {
            Ok(PubsubKind::Attestation)
        } else {
            Err(DecodeError::Invalid)
        }
    }

    pub fn tag(&self) -> (id: u32)
        ensures
            id == self.tag_of(),
            PubsubKind::of_tag(id) == Ok::<PubsubKind, DecodeError>(*self),
    {
        match self {
            PubsubKind::Block => 0,
            PubsubKind::Attestation => 1,
        }
    }

    pub fn from_tag(id: u32) -> (kind: Result<PubsubKind, DecodeError>)
        ensures
            kind == PubsubKind::of_tag(id),
    {
        if id == 0 {
            Ok(PubsubKind::Block)
        } else if id == 1 {
            Ok(PubsubKind::Attestation)
        } else {
            Err(DecodeError::Invalid)
        }
    }
}

impl<B, A> PubsubMessage<B, A> {
    /// The kind of the message.
    pub fn kind(&self) -> (kind: PubsubKind)
        ensures
            kind == (match self {
                PubsubMessage::Block(_) => PubsubKind::Block,
                PubsubMessage::Attestation(_) => PubsubKind::Attestation,
            }),
    {
        match self {
            PubsubMessage::Block(_) => PubsubKind::Block,
            PubsubMessage::Attestation(_) => PubsubKind::Attestation,
        }
    }
}

/// The events of the behaviour that wait to be polled. The one that came
/// first leaves first.
pub struct EventQueue<E> {
    events: Vec<E>,
}

impl<E> View for EventQueue<E> {
    type V = Seq<E>;

    closed spec fn view(&self) -> Seq<E> {
        self.events@
    }
}

impl<E> EventQueue<E> {
    pub fn new() -> (queue: Self)
        ensures
            queue@ == Seq::<E>::empty(),
    {
        EventQueue { events: Vec::new() }
    }

    /// Puts an event behind those that wait.
    pub fn push(&mut self, event: E)
        ensures
            final(self)@ == old(self)@.push(event),
    {
        self.events.push(event);
    }

    /// Takes the event that has waited longest, if any waits.
    pub fn poll(&mut self) -> (event: Option<E>)
        ensures
            match event {
                Some(e) => old(self)@.len() > 0 && e == old(self)@[0] && final(self)@ == old(
                    self,
                )@.drop_first(),
                None => old(self)@.len() == 0 && final(self)@ == old(self)@,
            },
    {
        if self.events.len() > 0 {
            let event = self.events.remove(0);
            assert(self.events@ =~= old(self)@.drop_first());
            Some(event)
        } else {
            None
        }
    }

    /// How many events wait.
    pub fn len(&self) -> (n: usize)
        ensures
            n == self@.len(),
    {
        self.events.len()
    }
}

/// Keeps the first addresses of a peer, up to the limit, and says whether
/// any were dropped.
pub fn truncate_listen_addrs<T>(addrs: &mut Vec<T>) -> (truncated: bool)
    ensures
        truncated == (old(addrs)@.len() > MAX_IDENTIFY_ADDRESSES),
        truncated ==> final(addrs)@ == old(addrs)@.take(MAX_IDENTIFY_ADDRESSES as int),
        !truncated ==> final(addrs)@ == old(addrs)@,
{
    if addrs.len() > MAX_IDENTIFY_ADDRESSES {
        addrs.truncate(MAX_IDENTIFY_ADDRESSES);
        assert(addrs@ =~= old(addrs)@.take(MAX_IDENTIFY_ADDRESSES as int));
        true
    } else {
        false
    }
}

} // verus!
