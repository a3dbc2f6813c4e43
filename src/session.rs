//! One channel session: the negotiation state machine, admission of SCSI
//! requests, generation of completions and teardown.
//!
//! The session performs no I/O. `receive` takes the bytes of one packet and
//! returns what to do: send bytes back, start a disk operation, or drop the
//! packet. `complete` takes the outcome of a disk operation and returns the
//! completion to send. `teardown` hands back what is still in flight so the
//! caller can cancel it.
//!
//! Policy on guest misbehaviour: malformed packets, SCSI requests before
//! negotiation, duplicate transaction ids, renegotiation while requests are
//! in flight and packet kinds the guest must not send are all dropped without
//! a reply; a reply carrying a duplicate id would be indistinguishable from
//! the answer to the request still in flight. Failures of an admitted
//! request (unknown logical unit, bad command, bad memory descriptor, disk
//! error) are answered with an error completion.
use vstd::prelude::*;

use crate::codec::{
    encode, decode, spec_decode, spec_encode, CompletionPacket, DecodeError, Packet, PacketModel,
};
use crate::registry::{DiskInfo, ScsiController};
use crate::resolver::{ByteRange, GuestMemory};
use crate::scsi::{dispatch, disk_result, spec_disk_result, spec_dispatch, Dispatch, DispatchModel, DiskOutcome, ScsiResult};
use crate::table::{
    in_flight, spec_drain, spec_insert, spec_retire, Entry, RequestSummary, TableModel,
    TransactionTable,
};

verus! {

/// Lowest protocol version this engine speaks.
pub const MIN_VERSION: u16 = 1;

/// Highest protocol version this engine speaks.
pub const MAX_VERSION: u16 = 2;

/// Where a session stands in its lifecycle. Negotiation itself completes
/// within the handling of one negotiation request, so no packet ever finds
/// a session midway.
#[derive(Clone, Copy, Debug, PartialEq, Eq, Structural)]
pub enum SessionState {
    /// No version agreed yet; only a negotiation request is accepted.
    Unestablished,
    /// A version was agreed; SCSI requests are served.
    Operational,
    /// Torn down; nothing is accepted.
    Closed,
}

/// Why a packet was dropped.
#[derive(Clone, Copy, Debug, PartialEq, Eq, Structural)]
pub enum ProtocolError {
    /// The bytes are not a packet.
    Malformed(DecodeError),
    /// A SCSI request arrived before a version was agreed.
    NotNegotiated,
    /// The guest offers no version this engine speaks.
    UnsupportedVersion,
    /// A negotiation request arrived while requests are in flight.
    RenegotiationBusy,
    /// The transaction id is already in flight.
    DuplicateTransaction,
    /// The guest sent a kind of packet that only the host sends.
    UnexpectedPacket,
    /// The session was torn down.
    SessionClosed,
}

/// What the caller must do after a packet was received.
#[derive(Debug)]
pub enum Action {
    /// Send these bytes to the guest.
    Send(Vec<u8>),
    /// Start this disk operation and report its outcome to `complete`.
    StartIo { transaction_id: u64, request: RequestSummary, range: ByteRange },
    /// Drop the packet.
    Drop(ProtocolError),
}

/// Mathematical value of an action.
pub ghost enum ActionModel {
    Send(Seq<u8>),
    StartIo { transaction_id: u64, request: RequestSummary },
    Drop(ProtocolError),
}

impl View for Action {
    type V = ActionModel;

    open spec fn view(&self) -> ActionModel {
        match self {
            Action::Send(b) => ActionModel::Send(b@),
            Action::StartIo { transaction_id, request, .. } => ActionModel::StartIo {
                transaction_id: *transaction_id,
                request: *request,
            },
            Action::Drop(e) => ActionModel::Drop(*e),
        }
    }
}

/// Mathematical value of a session.
pub ghost struct SessionModel {
    pub state: SessionState,
    pub version: Option<u16>,
    pub table: TableModel,
    pub disks: Seq<Option<DiskInfo>>,
    pub memory: GuestMemory,
}

/// A read-only view of a session for diagnostics.
#[derive(Debug)]
pub struct SessionSnapshot {
    pub negotiated_version: Option<u16>,
    pub operational: bool,
    pub in_flight: usize,
    pub attached_luns: Vec<u8>,
}

/// The version chosen for a guest whose highest version is `offered`.
pub open spec fn select_version(offered: u16) -> Option<u16> {
    if offered < MIN_VERSION {
        None
    } else if offered > MAX_VERSION {
        Some(MAX_VERSION)
    } else {
        Some(offered)
    }
}

/// The completion packet for transaction `id` with result `r`.
pub open spec fn completion_of(id: u64, r: ScsiResult) -> CompletionPacket {
    CompletionPacket {
        transaction_id: id,
        scsi_status: r.scsi_status,
        srb_status: r.srb_status,
        sense_key: r.sense_key,
        asc: r.asc,
        residual: r.residual,
    }
}

/// The session after receiving the bytes `b` at time `now`, and what the
/// caller must do.
pub open spec fn spec_receive(s: SessionModel, b: Seq<u8>, now: u64) -> (SessionModel, ActionModel) {
    if s.state == SessionState::Closed {
        (s, ActionModel::Drop(ProtocolError::SessionClosed))
    } else {
        match spec_decode(b) {
            Err(e) => (s, ActionModel::Drop(ProtocolError::Malformed(e))),
            Ok(PacketModel::NegotiationRequest { transaction_id, version }) => {
                if s.state == SessionState::Operational && s.table.entries.len() > 0 {
                    (s, ActionModel::Drop(ProtocolError::RenegotiationBusy))
                } else {
                    match select_version(version) {
                        None => (s, ActionModel::Drop(ProtocolError::UnsupportedVersion)),
                        Some(v) => (
                            SessionModel { state: SessionState::Operational, version: Some(v), ..s },
                            ActionModel::Send(
                                spec_encode(
                                    PacketModel::NegotiationResponse { transaction_id, version: v },
                                ),
                            ),
                        ),
                    }
                }
            },
            Ok(PacketModel::ScsiRequest { transaction_id, request }) => {
                if s.state != SessionState::Operational {
                    (s, ActionModel::Drop(ProtocolError::NotNegotiated))
                } else if in_flight(s.table.entries, transaction_id) {
                    (s, ActionModel::Drop(ProtocolError::DuplicateTransaction))
                } else {
                    match spec_dispatch(request, s.disks[request.lun as int], s.memory) {
                        DispatchModel::Complete(r) => (
                            s,
                            ActionModel::Send(
                                spec_encode(PacketModel::Completion(completion_of(transaction_id, r))),
                            ),
                        ),
                        DispatchModel::DiskIo(request) => (
                            SessionModel {
                                table: spec_insert(s.table, transaction_id, request, now).0,
                                ..s
                            },
                            ActionModel::StartIo { transaction_id, request },
                        ),
                    }
                }
            },
            Ok(_) => (s, ActionModel::Drop(ProtocolError::UnexpectedPacket)),
        }
    }
}

/// The session after the disk operation of transaction `id` ended with `o`,
/// and the completion to send, if the transaction was still in flight.
pub open spec fn spec_complete(s: SessionModel, id: u64, o: DiskOutcome) -> (SessionModel, Option<Seq<u8>>) {
    match spec_retire(s.table, id) {
        (t, Some(e)) => (
            SessionModel { table: t, ..s },
            Some(
                spec_encode(
                    PacketModel::Completion(completion_of(id, spec_disk_result(e.request, o))),
                ),
            ),
        ),
        (_, None) => (s, None),
    }
}

/// One channel session over a controller and the guest's memory.
pub struct Session {
    state: SessionState,
    version: Option<u16>,
    table: TransactionTable,
    controller: ScsiController,
    memory: GuestMemory,
}

impl View for Session {
    type V = SessionModel;

    closed spec fn view(&self) -> SessionModel {
        SessionModel {
            state: self.state,
            version: self.version,
            table: self.table@,
            disks: self.controller@,
            memory: self.memory,
        }
    }
}

/// The invariant of a session's model.
pub open spec fn session_wf(s: SessionModel) -> bool {
    &&& crate::table::ids_unique(s.table.entries)
    &&& s.disks.len() == crate::registry::LUN_COUNT
    &&& s.table.closed == (s.state == SessionState::Closed)
}

impl Session {
    /// The session's invariant.
    pub open spec fn wf(&self) -> bool {
        session_wf(self@)
    }

    /// A session on a freshly attached channel.
    pub fn new(controller: ScsiController, memory: GuestMemory) -> (r: Self)
        requires
            controller.wf(),
        ensures
            r.wf(),
            r@ == (SessionModel {
                state: SessionState::Unestablished,
                version: None,
                table: TableModel { entries: Seq::empty(), closed: false },
                disks: controller@,
                memory,
            }),
    {
        Session {
            state: SessionState::Unestablished,
            version: None,
            table: TransactionTable::new(),
            controller,
            memory,
        }
    }

    /// Handles the bytes of one packet from the guest, received at time `now`.
    pub fn receive(&mut self, b: &Vec<u8>, now: u64) -> (r: Action)
        requires
            old(self).wf(),
        ensures
            final(self).wf(),
            (final(self)@, r@) == spec_receive(old(self)@, b@, now),
            match r {
                Action::StartIo { range, .. } => range.len > 0,
                _ => true,
            },
    {
        if self.state == SessionState::Closed {
            return Action::Drop(ProtocolError::SessionClosed);
        }
        match decode(b) {
            Err(e) => Action::Drop(ProtocolError::Malformed(e)),
            Ok(Packet::NegotiationRequest { transaction_id, version }) => {
                if self.state == SessionState::Operational && self.table.len() > 0 {
                    return Action::Drop(ProtocolError::RenegotiationBusy);
                }
                if version < MIN_VERSION {
                    return Action::Drop(ProtocolError::UnsupportedVersion);
                }
                let v = if version > MAX_VERSION {
                    MAX_VERSION
                } else {
                    version
                };
                self.state = SessionState::Operational;
                self.version = Some(v);
                Action::Send(encode(&Packet::NegotiationResponse { transaction_id, version: v }))
            },
            Ok(Packet::ScsiRequest { transaction_id, request }) => {
                if self.state != SessionState::Operational {
                    return Action::Drop(ProtocolError::NotNegotiated);
                }
                if self.table.contains(transaction_id) {
                    return Action::Drop(ProtocolError::DuplicateTransaction);
                }
                let disk = self.controller.lookup(request.lun);
                match dispatch(&request, disk, self.memory) {
                    Dispatch::Complete(res) => Action::Send(
                        encode(&Packet::Completion(completion(transaction_id, res))),
                    ),
                    Dispatch::DiskIo { request, range } => {
                        let inserted = self.table.insert(transaction_id, request, now);
                        assert(inserted is Ok);
                        Action::StartIo { transaction_id, request, range }
                    },
                }
            },
            Ok(_) => Action::Drop(ProtocolError::UnexpectedPacket),
        }
    }

    /// Reports that the disk operation of transaction `id` ended with `o`.
    /// Retires the transaction and returns its encoded completion; returns
    /// `None` where `id` is not in flight (never admitted, already
    /// completed, or cancelled by teardown).
    pub fn complete(&mut self, id: u64, o: DiskOutcome) -> (r: Option<Vec<u8>>)
        requires
            old(self).wf(),
        ensures
            final(self).wf(),
            final(self)@ == spec_complete(old(self)@, id, o).0,
            match r {
                Some(v) => spec_complete(old(self)@, id, o).1 == Some(v@),
                None => spec_complete(old(self)@, id, o).1 is None,
            },
    {
        match self.table.retire(id) {
            Some(e) => {
                let res = disk_result(e.request, o);
                Some(encode(&Packet::Completion(completion(id, res))))
            },
            None => None,
        }
    }

    /// Tears the session down: every transaction still in flight is handed
    /// back for cancellation and will never be completed.
    pub fn teardown(&mut self) -> (r: Vec<Entry>)
        requires
            old(self).wf(),
        ensures
            final(self).wf(),
            r@ == old(self)@.table.entries,
            final(self)@ == (SessionModel {
                state: SessionState::Closed,
                table: spec_drain(old(self)@.table),
                ..old(self)@
            }),
    {
        self.state = SessionState::Closed;
        self.table.drain()
    }

    /// A snapshot of the session for diagnostics.
    pub fn inspect(&self) -> (r: SessionSnapshot)
        requires
            self.wf(),
        ensures
            r.negotiated_version == self@.version,
            r.operational == (self@.state == SessionState::Operational),
            r.in_flight == self@.table.entries.len(),
            forall|lun: u8| r.attached_luns@.contains(lun) <==> self@.disks[lun as int] is Some,
    {
        SessionSnapshot {
            negotiated_version: self.version,
            operational: self.state == SessionState::Operational,
            in_flight: self.table.len(),
            attached_luns: self.controller.attached_luns(),
        }
    }
}

/// A SCSI request received while no version is agreed is dropped, and the
/// session, its transaction table included, stays exactly as it was.
pub proof fn lemma_negotiation_gating(s: SessionModel, b: Seq<u8>, now: u64)
    requires
        s.state != SessionState::Operational,
        spec_decode(b) is Ok,
        spec_decode(b)->Ok_0 is ScsiRequest,
    ensures
        spec_receive(s, b, now).0 == s,
        spec_receive(s, b, now).1 is Drop,
{
}

/// The session after teardown.
pub open spec fn spec_teardown(s: SessionModel) -> SessionModel {
    SessionModel { state: SessionState::Closed, table: spec_drain(s.table), ..s }
}

/// A request that was handed to the disk is answered exactly once: the
/// first report of its outcome yields a completion that decodes to a
/// completion carrying its transaction id, even after another transaction
/// was completed first; a second report yields nothing; and after teardown
/// nothing is ever yielded for it.
pub proof fn lemma_one_completion(
    s: SessionModel,
    b: Seq<u8>,
    now: u64,
    o1: DiskOutcome,
    o2: DiskOutcome,
    other: u64,
)
    requires
        session_wf(s),
        spec_receive(s, b, now).1 is StartIo,
    ensures
        ({
            let id = spec_receive(s, b, now).1->StartIo_transaction_id;
            let s1 = spec_receive(s, b, now).0;
            let first = spec_complete(s1, id, o1);
            &&& first.1 is Some
            &&& spec_decode(first.1.unwrap()) is Ok
            &&& spec_decode(first.1.unwrap())->Ok_0 is Completion
            &&& spec_decode(first.1.unwrap())->Ok_0->Completion_0.transaction_id == id
            &&& spec_complete(first.0, id, o2).1 is None
            &&& other != id ==> spec_complete(spec_complete(s1, other, o2).0, id, o1) == (
                spec_complete(spec_complete(s1, other, o2).0, id, o1).0,
                first.1,
            )
            &&& spec_complete(spec_teardown(s1), id, o1).1 is None
        }),
{
    let id = spec_receive(s, b, now).1->StartIo_transaction_id;
    let req = spec_receive(s, b, now).1->StartIo_request;
    let s1 = spec_receive(s, b, now).0;
    let p = PacketModel::Completion(
        completion_of(id, spec_disk_result(req, o1)),
    );
    crate::codec::lemma_round_trip(p);
    if other != id {
        crate::table::lemma_correlation(s.table, id, req, now, other);
    } else {
        crate::table::lemma_correlation(s.table, id, req, now, if id == 0 { 1 } else { 0 });
    }
}

fn completion(id: u64, r: ScsiResult) -> (c: CompletionPacket)
    ensures
        c == completion_of(id, r),
{
    CompletionPacket {
        transaction_id: id,
        scsi_status: r.scsi_status,
        srb_status: r.srb_status,
        sense_key: r.sense_key,
        asc: r.asc,
        residual: r.residual,
    }
}

} // verus!
