//! Transport framing for live collaboration.
//!
//! Every binary frame that travels through the relay starts with one byte
//! naming its kind, so that a snapshot, a mutation, a presence count and the
//! host's farewell can never be confused with one another.
use vstd::prelude::*;
use crate::concept_model::RelationKind;
use crate::concepts::Concept;
use crate::ids::{random_id, Id};
use crate::information_model::{InformationClass, Multiplicity};
use crate::model::ModelProject;
use crate::network::{inbound_meaning, EventView};

verus! {

/// Explicit transport frame kinds.
#[derive(Debug, Clone, Copy, PartialEq, Eq, Structural)]
pub enum FrameType {
    Snapshot,
    Mutation,
    Presence,
    HostLeft,
}

/// The byte that stands for a frame kind on the wire.
pub open spec fn frame_byte(t: FrameType) -> u8 {
    match t {
        FrameType::Snapshot => 0x01u8,
        FrameType::Mutation => 0x02u8,
        FrameType::Presence => 0x03u8,
        FrameType::HostLeft => 0x04u8,
    }
}

/// The frame kind that a byte names, if any.
pub open spec fn frame_of_byte(b: u8) -> Option<FrameType> {
    if b == 0x01 {
        Some(FrameType::Snapshot)
    } else if b == 0x02 {
        Some(FrameType::Mutation)
    } else if b == 0x03 {
        Some(FrameType::Presence)
    } else if b == 0x04 {
        Some(FrameType::HostLeft)
    } else {
        None
    }
}

impl FrameType {
    /// Decodes a frame kind from its wire byte.
    pub fn from_u8(b: u8) -> (res: Option<FrameType>)
        ensures
            res == frame_of_byte(b),
    {
        match b {
            0x01 => Some(FrameType::Snapshot),
            0x02 => Some(FrameType::Mutation),
            0x03 => Some(FrameType::Presence),
            0x04 => Some(FrameType::HostLeft),
            _ => None,
        }
    }

    /// The wire byte of this frame kind.
    pub fn as_u8(&self) -> (b: u8)
        ensures
            b == frame_byte(*self),
    {
        match self {
            FrameType::Snapshot => 0x01,
            FrameType::Mutation => 0x02,
            FrameType::Presence => 0x03,
            FrameType::HostLeft => 0x04,
        }
    }
}

/// Decoding the byte of a frame kind gives the kind back, and only the four
/// kind bytes decode to a kind at all.
pub proof fn frame_byte_roundtrip(t: FrameType, b: u8)
    ensures
        frame_of_byte(frame_byte(t)) == Some(t),
        frame_of_byte(b) matches Some(k) ==> frame_byte(k) == b,
{
}

/// A payload with its kind byte in front.
pub open spec fn framed(t: FrameType, data: Seq<u8>) -> Seq<u8> {
    seq![frame_byte(t)] + data
}

/// Puts the kind byte in front of a payload.
pub fn frame_payload(t: FrameType, data: &[u8]) -> (res: Vec<u8>)
    ensures
        res@ == framed(t, data@),
{
    let mut out: Vec<u8> = Vec::new();
    out.push(t.as_u8());
    let mut rest = vstd::slice::slice_to_vec(data);
    out.append(&mut rest);
    assert(out@ =~= framed(t, data@));
    out
}

/// The frame by which the host announces that it left: the kind byte alone.
pub fn host_left_frame() -> (res: Vec<u8>)
    ensures
        res@ == seq![frame_byte(FrameType::HostLeft)],
{
    let mut out: Vec<u8> = Vec::new();
    out.push(FrameType::HostLeft.as_u8());
    out
}

/// A snapshot or mutation framed for sending is received as the very
/// payload that was sent, and the host's farewell as the end of the
/// session.
pub proof fn framing_is_undone_on_receipt(data: Seq<u8>)
    ensures
        inbound_meaning(framed(FrameType::Snapshot, data)) == EventView::Message(data),
        inbound_meaning(framed(FrameType::Mutation, data)) == EventView::Message(data),
        inbound_meaning(seq![frame_byte(FrameType::HostLeft)]) == EventView::HostEnded,
{
    assert(framed(FrameType::Snapshot, data).skip(1) =~= data);
    assert(framed(FrameType::Mutation, data).skip(1) =~= data);
}

/// A relation between two concept nodes, as it travels between editors.
#[derive(Debug, Clone, PartialEq, Eq)]
pub struct Relation {
    pub id: Id,
    pub from: Id,
    pub to: Id,
    pub kind: RelationKind,
    pub label: Option<String>,
    pub directed: Option<bool>,
}

/// An association is directed unless said otherwise; other kinds carry no
/// direction.
fn direction_for(kind: RelationKind) -> (res: Option<bool>)
    ensures
        res == crate::class_graph::default_direction(kind),
{
    match kind {
        RelationKind::Association => Some(true),
        _ => None,
    }
}

impl Relation {
    /// A relation with a fresh identifier and no label.
    pub fn new(from: Id, to: Id, kind: RelationKind) -> (res: Relation)
        ensures
            res.from == from,
            res.to == to,
            res.kind == kind,
            res.label is None,
            res.directed == crate::class_graph::default_direction(kind),
    {
        Relation { id: random_id(), from, to, kind, label: None, directed: direction_for(kind) }
    }

    /// A relation with a fresh identifier and a label.
    pub fn with_label(from: Id, to: Id, kind: RelationKind, label: Option<String>) -> (res: Relation)
        ensures
            res.from == from,
            res.to == to,
            res.kind == kind,
            res.label == label,
            res.directed == crate::class_graph::default_direction(kind),
    {
        Relation { id: random_id(), from, to, kind, label, directed: direction_for(kind) }
    }

    /// A relation with a given identifier.
    pub fn with_id(id: Id, from: Id, to: Id, kind: RelationKind, label: Option<String>) -> (res: Relation)
        ensures
            res == (Relation { id, from, to, kind, label, directed: crate::class_graph::default_direction(kind) }),
    {
        Relation { id, from, to, kind, label, directed: direction_for(kind) }
    }

    /// A relation with every field given.
    pub fn with_all(
        id: Id,
        from: Id,
        to: Id,
        kind: RelationKind,
        label: Option<String>,
        directed: Option<bool>,
    ) -> (res: Relation)
        ensures
            res == (Relation { id, from, to, kind, label, directed }),
    {
        Relation { id, from, to, kind, label, directed }
    }
}

/// One change to a model project during a live session.
#[derive(Debug, Clone, PartialEq, Eq)]
pub enum ModelMutation {
    ConceptAdded(Concept),
    ConceptUpdated(Concept),
    ConceptDeleted(Id),
    ConceptDiagramNodeAdded(Id),
    ConceptDiagramNodeRemoved(Id),
    InformationClassAdded(InformationClass),
    InformationClassUpdated(InformationClass),
    InformationClassDeleted(Id),
    ClassDiagramNodeAdded(Id),
    ClassDiagramNodeRemoved(Id),
    RelationAdded(Relation),
    RelationUpdated(Relation),
    RelationDeleted { from: Id, to: Id },
    ClassRelationAdded {
        from_class: Id,
        to_class: Id,
        kind: RelationKind,
        label: Option<String>,
        source_multiplicity: Option<Multiplicity>,
        target_multiplicity: Option<Multiplicity>,
        directed: Option<bool>,
    },
    ClassRelationDeleted { from_class: Id, to_class: Id },
    NodeMoved { id: Id, x: i64, y: i64 },
}

/// What travels, encrypted, between the editors of a session.
#[derive(Debug, Clone, PartialEq, Eq)]
pub enum CollabPayload {
    /// The whole project, when a guest joins or to resynchronise.
    Snapshot(ModelProject),
    /// One change while editing.
    Mutation(ModelMutation),
}

/// A security envelope: a sequence number and a timestamp around a payload,
/// against replayed messages.
#[derive(Debug, Clone, PartialEq, Eq)]
pub struct CollabEnvelope {
    pub seq: u64,
    pub timestamp: u64,
    pub payload: CollabPayload,
}

impl CollabEnvelope {
    /// An envelope around a payload.
    pub fn new(seq: u64, timestamp: u64, payload: CollabPayload) -> (res: CollabEnvelope)
        ensures
            res.seq == seq,
            res.timestamp == timestamp,
            res.payload == payload,
    {
        CollabEnvelope { seq, timestamp, payload }
    }

    /// Whether the envelope comes after the last one seen.
    pub fn is_newer_than(&self, last_seq: u64) -> (res: bool)
        ensures
            res == (self.seq > last_seq),
    {
        self.seq > last_seq
    }
}

/// The receiving side of replay protection: remembers the highest sequence
/// number accepted and accepts only higher ones.
pub struct ReplayGuard {
    last_seen: u64,
}

impl ReplayGuard {
    /// The highest sequence number accepted so far (zero before any).
    pub closed spec fn last(&self) -> u64 {
        self.last_seen
    }

    /// A guard that has seen nothing.
    pub fn new() -> (res: ReplayGuard)
        ensures
            res.last() == 0,
    {
        ReplayGuard { last_seen: 0 }
    }

    /// The highest sequence number accepted so far.
    pub fn last_seen(&self) -> (res: u64)
        ensures
            res == self.last(),
    {
        self.last_seen
    }

    /// Accepts a sequence number when it is newer than every one accepted
    /// before, and remembers it.
    pub fn accept(&mut self, seq: u64) -> (res: bool)
        ensures
            res == (seq > old(self).last()),
            final(self).last() == (if res { seq } else { old(self).last() }),
    {
        if seq > self.last_seen {
            self.last_seen = seq;
            true
        } else {
            false
        }
    }

    /// Forgets everything seen, as when a session ends.
    pub fn reset(&mut self)
        ensures
            final(self).last() == 0,
    {
        self.last_seen = 0;
    }
}

/// The sending side of replay protection: numbers outgoing envelopes
/// 1, 2, 3, ...
pub struct SequenceCounter {
    sent: u64,
}

impl SequenceCounter {
    /// How many numbers were handed out.
    pub closed spec fn count(&self) -> u64 {
        self.sent
    }

    /// A counter that has handed out nothing.
    pub fn new() -> (res: SequenceCounter)
        ensures
            res.count() == 0,
    {
        SequenceCounter { sent: 0 }
    }

    /// The number for the next envelope, or none once every `u64` is used.
    pub fn next_seq(&mut self) -> (res: Option<u64>)
        ensures
            old(self).count() < u64::MAX ==> (res == Some((old(self).count() + 1) as u64)
                && final(self).count() == old(self).count() + 1),
            old(self).count() == u64::MAX ==> (res is None && final(self).count() == old(self).count()),
    {
        if self.sent < u64::MAX {
            self.sent = self.sent + 1;
            Some(self.sent)
        } else {
            None
        }
    }
}

} // verus!
