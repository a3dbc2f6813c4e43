//! Wire format of the packets exchanged with the guest.
//!
//! Every packet starts with a 16-byte header: a little-endian `u32` kind
//! tag, a little-endian `u32` payload length and a little-endian `u64`
//! transaction id. The payload follows and must fill the buffer exactly.
use vstd::bytes::*;
use vstd::prelude::*;
use vstd::slice::*;

use crate::resolver::{DescriptorModel, MemoryDescriptor};

verus! {

/// Length of the fixed packet header.
pub const HEADER_LEN: usize = 16;

/// Kind tag of a negotiation request.
pub const TAG_NEGOTIATE: u32 = 1;

/// Kind tag of a negotiation response.
pub const TAG_NEGOTIATE_RESPONSE: u32 = 2;

/// Kind tag of a SCSI request.
pub const TAG_SCSI_REQUEST: u32 = 3;

/// Kind tag of a completion.
pub const TAG_COMPLETION: u32 = 4;

/// Size of the command block carried by every SCSI request.
pub const CDB_SIZE: usize = 16;

/// Payload length of a SCSI request without a memory descriptor: LUN,
/// command block length, command block and descriptor flag.
pub const SCSI_FIXED_LEN: usize = 19;

/// Payload length of a SCSI request with a descriptor, before its pages:
/// the fixed part, then offset, length and page count.
pub const SCSI_DESCRIPTOR_LEN: usize = 31;

/// Payload length of a completion.
pub const COMPLETION_PAYLOAD_LEN: usize = 8;

/// Payload length of a negotiation request or response.
pub const NEGOTIATE_PAYLOAD_LEN: usize = 2;

/// A SCSI command addressed to one logical unit.
#[derive(Clone, Debug)]
pub struct ScsiRequest {
    pub lun: u8,
    /// Number of meaningful bytes at the start of `cdb`.
    pub cdb_len: u8,
    /// The command block, always `CDB_SIZE` bytes.
    pub cdb: Vec<u8>,
    /// Guest buffer for the data phase, if the command has one.
    pub descriptor: Option<MemoryDescriptor>,
}

/// Mathematical value of a SCSI request.
pub ghost struct ScsiRequestModel {
    pub lun: u8,
    pub cdb_len: u8,
    pub cdb: Seq<u8>,
    pub descriptor: Option<DescriptorModel>,
}

impl View for ScsiRequest {
    type V = ScsiRequestModel;

    open spec fn view(&self) -> ScsiRequestModel {
        ScsiRequestModel {
            lun: self.lun,
            cdb_len: self.cdb_len,
            cdb: self.cdb@,
            descriptor: match self.descriptor {
                Some(d) => Some(d@),
                None => None,
            },
        }
    }
}

/// The answer to one SCSI request.
#[derive(Clone, Copy, Debug, PartialEq, Eq, Structural)]
pub struct CompletionPacket {
    pub transaction_id: u64,
    /// SCSI status byte (good, check condition, ...).
    pub scsi_status: u8,
    /// Status of the request block as a whole (success, invalid LUN, ...).
    pub srb_status: u8,
    /// Sense key, meaningful under check condition.
    pub sense_key: u8,
    /// Additional sense code, meaningful under check condition.
    pub asc: u8,
    /// Bytes of the data phase that were not transferred.
    pub residual: u32,
}

/// A decoded packet.
#[derive(Clone, Debug)]
pub enum Packet {
    NegotiationRequest { transaction_id: u64, version: u16 },
    NegotiationResponse { transaction_id: u64, version: u16 },
    ScsiRequest { transaction_id: u64, request: ScsiRequest },
    Completion(CompletionPacket),
}

/// Mathematical value of a packet.
pub ghost enum PacketModel {
    NegotiationRequest { transaction_id: u64, version: u16 },
    NegotiationResponse { transaction_id: u64, version: u16 },
    ScsiRequest { transaction_id: u64, request: ScsiRequestModel },
    Completion(CompletionPacket),
}

impl View for Packet {
    type V = PacketModel;

    open spec fn view(&self) -> PacketModel {
        match self {
            Packet::NegotiationRequest { transaction_id, version } => {
                PacketModel::NegotiationRequest { transaction_id: *transaction_id, version: *version }
            },
            Packet::NegotiationResponse { transaction_id, version } => {
                PacketModel::NegotiationResponse {
                    transaction_id: *transaction_id,
                    version: *version,
                }
            },
            Packet::ScsiRequest { transaction_id, request } => {
                PacketModel::ScsiRequest { transaction_id: *transaction_id, request: request@ }
            },
            Packet::Completion(c) => PacketModel::Completion(*c),
        }
    }
}

/// Why a buffer is not a packet.
#[derive(Clone, Copy, Debug, PartialEq, Eq, Structural)]
pub enum DecodeError {
    /// Shorter than the fixed header.
    Truncated,
    /// The declared payload length differs from the bytes after the header.
    LengthMismatch,
    /// The kind tag names no known packet.
    UnknownTag,
    /// The payload does not have the shape its kind requires.
    BadPayload,
}

/// The little-endian `u16` at byte `i` of `s`.
pub open spec fn le16_at(s: Seq<u8>, i: int) -> u16 {
    spec_u16_from_le_bytes(s.subrange(i, i + 2))
}

/// The little-endian `u32` at byte `i` of `s`.
pub open spec fn le32_at(s: Seq<u8>, i: int) -> u32 {
    spec_u32_from_le_bytes(s.subrange(i, i + 4))
}

/// The little-endian `u64` at byte `i` of `s`.
pub open spec fn le64_at(s: Seq<u8>, i: int) -> u64 {
    spec_u64_from_le_bytes(s.subrange(i, i + 8))
}

fn read_u16(b: &Vec<u8>, i: usize) -> (r: u16)
    requires
        i + 2 <= b@.len(),
    ensures
        r == le16_at(b@, i as int),
{
    let _len = b.len();
    u16_from_le_bytes(slice_subrange(b.as_slice(), i, i + 2))
}

fn read_u32(b: &Vec<u8>, i: usize) -> (r: u32)
    requires
        i + 4 <= b@.len(),
    ensures
        r == le32_at(b@, i as int),
{
    let _len = b.len();
    u32_from_le_bytes(slice_subrange(b.as_slice(), i, i + 4))
}

fn read_u64(b: &Vec<u8>, i: usize) -> (r: u64)
    requires
        i + 8 <= b@.len(),
    ensures
        r == le64_at(b@, i as int),
{
    let _len = b.len();
    u64_from_le_bytes(slice_subrange(b.as_slice(), i, i + 8))
}

/// Page numbers of a descriptor that lists `n` pages from byte `start` on.
pub open spec fn gpns_at(s: Seq<u8>, start: int, n: nat) -> Seq<u64> {
    Seq::new(n, |k: int| le64_at(s, start + 8 * k))
}

/// The SCSI request that a packet of kind `TAG_SCSI_REQUEST` carries.
pub open spec fn spec_decode_scsi(s: Seq<u8>) -> Result<ScsiRequestModel, DecodeError> {
    let h = HEADER_LEN as int;
    if s.len() < h + SCSI_FIXED_LEN {
        Err(DecodeError::BadPayload)
    } else if s[h + 1] > CDB_SIZE {
        Err(DecodeError::BadPayload)
    } else {
        let flag = s[h + 2 + CDB_SIZE];
        let base = ScsiRequestModel {
            lun: s[h],
            cdb_len: s[h + 1],
            cdb: s.subrange(h + 2, h + 2 + CDB_SIZE),
            descriptor: None,
        };
        if flag == 0 {
            if s.len() == h + SCSI_FIXED_LEN {
                Ok(base)
            } else {
                Err(DecodeError::BadPayload)
            }
        } else if flag == 1 {
            if s.len() < h + SCSI_DESCRIPTOR_LEN {
                Err(DecodeError::BadPayload)
            } else {
                let n = le32_at(s, h + SCSI_FIXED_LEN + 8);
                if s.len() != h + SCSI_DESCRIPTOR_LEN + 8 * n {
                    Err(DecodeError::BadPayload)
                } else {
                    Ok(
                        ScsiRequestModel {
                            descriptor: Some(
                                DescriptorModel {
                                    offset: le32_at(s, h + SCSI_FIXED_LEN),
                                    len: le32_at(s, h + SCSI_FIXED_LEN + 4),
                                    gpns: gpns_at(s, h + SCSI_DESCRIPTOR_LEN, n as nat),
                                },
                            ),
                            ..base
                        },
                    )
                }
            }
        } else {
            Err(DecodeError::BadPayload)
        }
    }
}

/// The packet that the bytes `s` encode, or why they encode none.
pub open spec fn spec_decode(s: Seq<u8>) -> Result<PacketModel, DecodeError> {
    let h = HEADER_LEN as int;
    if s.len() < h {
        Err(DecodeError::Truncated)
    } else if le32_at(s, 4) != s.len() - h {
        Err(DecodeError::LengthMismatch)
    } else {
        let tag = le32_at(s, 0);
        let id = le64_at(s, 8);
        if tag == TAG_NEGOTIATE || tag == TAG_NEGOTIATE_RESPONSE {
            if s.len() != h + NEGOTIATE_PAYLOAD_LEN {
                Err(DecodeError::BadPayload)
            } else if tag == TAG_NEGOTIATE {
                Ok(PacketModel::NegotiationRequest { transaction_id: id, version: le16_at(s, h) })
            } else {
                Ok(PacketModel::NegotiationResponse { transaction_id: id, version: le16_at(s, h) })
            }
        } else if tag == TAG_SCSI_REQUEST {
            match spec_decode_scsi(s) {
                Ok(request) => Ok(PacketModel::ScsiRequest { transaction_id: id, request }),
                Err(e) => Err(e),
            }
        } else if tag == TAG_COMPLETION {
            if s.len() != h + COMPLETION_PAYLOAD_LEN {
                Err(DecodeError::BadPayload)
            } else {
                Ok(
                    PacketModel::Completion(
                        CompletionPacket {
                            transaction_id: id,
                            scsi_status: s[h],
                            srb_status: s[h + 1],
                            sense_key: s[h + 2],
                            asc: s[h + 3],
                            residual: le32_at(s, h + 4),
                        },
                    ),
                )
            }
        } else {
            Err(DecodeError::UnknownTag)
        }
    }
}

fn decode_scsi(b: &Vec<u8>) -> (r: Result<ScsiRequest, DecodeError>)
    requires
        b@.len() >= HEADER_LEN,
    ensures
        match r {
            Ok(req) => spec_decode_scsi(b@) == Ok::<ScsiRequestModel, DecodeError>(req@),
            Err(e) => spec_decode_scsi(b@) == Err::<ScsiRequestModel, DecodeError>(e),
        },
{
    let h = HEADER_LEN;
    if b.len() < h + SCSI_FIXED_LEN {
        return Err(DecodeError::BadPayload);
    }
    let cdb_len = b[h + 1];
    if cdb_len as usize > CDB_SIZE {
        return Err(DecodeError::BadPayload);
    }
    let cdb = slice_to_vec(slice_subrange(b.as_slice(), h + 2, h + 2 + CDB_SIZE));
    let flag = b[h + 2 + CDB_SIZE];
    if flag == 0 {
        if b.len() != h + SCSI_FIXED_LEN {
            return Err(DecodeError::BadPayload);
        }
        return Ok(ScsiRequest { lun: b[h], cdb_len, cdb, descriptor: None });
    }
    if flag != 1 || b.len() < h + SCSI_DESCRIPTOR_LEN {
        return Err(DecodeError::BadPayload);
    }
    let offset = read_u32(b, h + SCSI_FIXED_LEN);
    let len = read_u32(b, h + SCSI_FIXED_LEN + 4);
    let n = read_u32(b, h + SCSI_FIXED_LEN + 8);
    if b.len() as u64 != (h + SCSI_DESCRIPTOR_LEN) as u64 + 8 * (n as u64) {
        return Err(DecodeError::BadPayload);
    }
    let start = h + SCSI_DESCRIPTOR_LEN;
    let mut gpns: Vec<u64> = Vec::new();
    let blen = b.len();
    let mut k: u32 = 0;
    while k < n
        invariant
            k <= n,
            blen == b@.len(),
            start == HEADER_LEN + SCSI_DESCRIPTOR_LEN,
            b@.len() == start + 8 * n,
            gpns@ =~= gpns_at(b@, start as int, k as nat),
        decreases n - k,
    {
        let g = read_u64(b, start + 8 * (k as usize));
        gpns.push(g);
        k = k + 1;
    }
    let d = MemoryDescriptor { offset, len, gpns };
    let req = ScsiRequest { lun: b[h], cdb_len, cdb, descriptor: Some(d) };
    Ok(req)
}

/// Decodes one packet from untrusted bytes. Every input gives either the
/// packet that it encodes or the reason it encodes none.
pub fn decode(b: &Vec<u8>) -> (r: Result<Packet, DecodeError>)
    ensures
        match r {
            Ok(p) => spec_decode(b@) == Ok::<PacketModel, DecodeError>(p@),
            Err(e) => spec_decode(b@) == Err::<PacketModel, DecodeError>(e),
        },
{
    let h = HEADER_LEN;
    if b.len() < h {
        return Err(DecodeError::Truncated);
    }
    let tag = read_u32(b, 0);
    let payload_len = read_u32(b, 4);
    let transaction_id = read_u64(b, 8);
    if payload_len as u64 != (b.len() - h) as u64 {
        return Err(DecodeError::LengthMismatch);
    }
    if tag == TAG_NEGOTIATE || tag == TAG_NEGOTIATE_RESPONSE {
        if b.len() != h + NEGOTIATE_PAYLOAD_LEN {
            return Err(DecodeError::BadPayload);
        }
        let version = read_u16(b, h);
        if tag == TAG_NEGOTIATE {
            Ok(Packet::NegotiationRequest { transaction_id, version })
        } else {
            Ok(Packet::NegotiationResponse { transaction_id, version })
        }
    } else if tag == TAG_SCSI_REQUEST {
        match decode_scsi(b) {
            Ok(request) => Ok(Packet::ScsiRequest { transaction_id, request }),
            Err(e) => Err(e),
        }
    } else if tag == TAG_COMPLETION {
        if b.len() != h + COMPLETION_PAYLOAD_LEN {
            return Err(DecodeError::BadPayload);
        }
        Ok(
            Packet::Completion(
                CompletionPacket {
                    transaction_id,
                    scsi_status: b[h],
                    srb_status: b[h + 1],
                    sense_key: b[h + 2],
                    asc: b[h + 3],
                    residual: read_u32(b, h + 4),
                },
            ),
        )
    } else {
        Err(DecodeError::UnknownTag)
    }
}


/// Largest number of pages a descriptor can list and still have its packet's
/// payload length fit the header's `u32` field.
pub const MAX_DESCRIPTOR_PAGES: usize = 536870907;

/// A packet whose encoding is well defined: a full command block whose
/// declared length fits it, and a page list short enough for the length field.
pub open spec fn well_formed(p: PacketModel) -> bool {
    match p {
        PacketModel::ScsiRequest { request, .. } => {
            &&& request.cdb.len() == CDB_SIZE
            &&& request.cdb_len <= CDB_SIZE
            &&& match request.descriptor {
                Some(d) => d.gpns.len() <= MAX_DESCRIPTOR_PAGES,
                None => true,
            }
        },
        _ => true,
    }
}

/// The header for a packet of kind `tag` with `payload_len` payload bytes.
pub open spec fn spec_header(tag: u32, payload_len: u32, id: u64) -> Seq<u8> {
    spec_u32_to_le_bytes(tag) + spec_u32_to_le_bytes(payload_len) + spec_u64_to_le_bytes(id)
}

/// The page numbers of a descriptor, each as eight little-endian bytes.
pub open spec fn spec_gpn_bytes(g: Seq<u64>) -> Seq<u8>
    decreases g.len(),
{
    if g.len() == 0 {
        Seq::empty()
    } else {
        spec_gpn_bytes(g.drop_last()) + spec_u64_to_le_bytes(g.last())
    }
}

/// The payload of a SCSI request.
pub open spec fn spec_scsi_payload(r: ScsiRequestModel) -> Seq<u8> {
    seq![r.lun, r.cdb_len] + r.cdb + match r.descriptor {
        None => seq![0u8],
        Some(d) => seq![1u8] + spec_u32_to_le_bytes(d.offset) + spec_u32_to_le_bytes(d.len)
            + spec_u32_to_le_bytes(d.gpns.len() as u32) + spec_gpn_bytes(d.gpns),
    }
}

/// The bytes that encode the packet `p`.
pub open spec fn spec_encode(p: PacketModel) -> Seq<u8> {
    match p {
        PacketModel::NegotiationRequest { transaction_id, version } => spec_header(
            TAG_NEGOTIATE,
            NEGOTIATE_PAYLOAD_LEN as u32,
            transaction_id,
        ) + spec_u16_to_le_bytes(version),
        PacketModel::NegotiationResponse { transaction_id, version } => spec_header(
            TAG_NEGOTIATE_RESPONSE,
            NEGOTIATE_PAYLOAD_LEN as u32,
            transaction_id,
        ) + spec_u16_to_le_bytes(version),
        PacketModel::ScsiRequest { transaction_id, request } => {
            let payload = spec_scsi_payload(request);
            spec_header(TAG_SCSI_REQUEST, payload.len() as u32, transaction_id) + payload
        },
        PacketModel::Completion(c) => spec_header(
            TAG_COMPLETION,
            COMPLETION_PAYLOAD_LEN as u32,
            c.transaction_id,
        ) + seq![c.scsi_status, c.srb_status, c.sense_key, c.asc] + spec_u32_to_le_bytes(
            c.residual,
        ),
    }
}

proof fn lemma_read16(s: Seq<u8>, i: int, x: u16)
    requires
        0 <= i,
        i + 2 <= s.len(),
        s.subrange(i, i + 2) == spec_u16_to_le_bytes(x),
    ensures
        le16_at(s, i) == x,
{
    lemma_auto_spec_u16_to_from_le_bytes();
    assert(spec_u16_to_le_bytes(x).len() == 2);
}

proof fn lemma_read32(s: Seq<u8>, i: int, x: u32)
    requires
        0 <= i,
        i + 4 <= s.len(),
        s.subrange(i, i + 4) == spec_u32_to_le_bytes(x),
    ensures
        le32_at(s, i) == x,
{
    lemma_auto_spec_u32_to_from_le_bytes();
    assert(spec_u32_to_le_bytes(x).len() == 4);
}

proof fn lemma_read64(s: Seq<u8>, i: int, x: u64)
    requires
        0 <= i,
        i + 8 <= s.len(),
        s.subrange(i, i + 8) == spec_u64_to_le_bytes(x),
    ensures
        le64_at(s, i) == x,
{
    lemma_auto_spec_u64_to_from_le_bytes();
}

proof fn lemma_header(s: Seq<u8>, tag: u32, payload_len: u32, id: u64)
    requires
        s.len() >= HEADER_LEN,
        s.subrange(0, HEADER_LEN as int) == spec_header(tag, payload_len, id),
    ensures
        le32_at(s, 0) == tag,
        le32_at(s, 4) == payload_len,
        le64_at(s, 8) == id,
{
    lemma_auto_spec_u32_to_from_le_bytes();
    lemma_auto_spec_u64_to_from_le_bytes();
    let h = spec_header(tag, payload_len, id);
    assert(s.subrange(0, 4) =~= h.subrange(0, 4));
    assert(s.subrange(4, 8) =~= h.subrange(4, 8));
    assert(s.subrange(8, 16) =~= h.subrange(8, 16));
    assert(h.subrange(0, 4) =~= spec_u32_to_le_bytes(tag));
    assert(h.subrange(4, 8) =~= spec_u32_to_le_bytes(payload_len));
    assert(h.subrange(8, 16) =~= spec_u64_to_le_bytes(id));
    lemma_read32(s, 0, tag);
    lemma_read32(s, 4, payload_len);
    lemma_read64(s, 8, id);
}

proof fn lemma_gpn_bytes(g: Seq<u64>)
    ensures
        spec_gpn_bytes(g).len() == 8 * g.len(),
        forall|k: int|
            0 <= k < g.len() ==> #[trigger] spec_gpn_bytes(g).subrange(8 * k, 8 * k + 8)
                == spec_u64_to_le_bytes(g[k]),
    decreases g.len(),
{
    lemma_auto_spec_u64_to_from_le_bytes();
    if g.len() > 0 {
        let init = g.drop_last();
        lemma_gpn_bytes(init);
        let b = spec_gpn_bytes(g);
        let bi = spec_gpn_bytes(init);
        assert forall|k: int| 0 <= k < g.len() implies #[trigger] spec_gpn_bytes(g).subrange(
            8 * k,
            8 * k + 8,
        ) == spec_u64_to_le_bytes(g[k]) by {
            if k < init.len() {
                assert(bi.subrange(8 * k, 8 * k + 8) == spec_u64_to_le_bytes(init[k]));
                assert(b.subrange(8 * k, 8 * k + 8) =~= bi.subrange(8 * k, 8 * k + 8));
            } else {
                assert(b.subrange(8 * k, 8 * k + 8) =~= spec_u64_to_le_bytes(g.last()));
            }
        }
    }
}


proof fn lemma_scsi_round_trip(id: u64, r: ScsiRequestModel)
    requires
        well_formed(PacketModel::ScsiRequest { transaction_id: id, request: r }),
    ensures
        spec_decode(spec_encode(PacketModel::ScsiRequest { transaction_id: id, request: r }))
            == Ok::<PacketModel, DecodeError>(
            PacketModel::ScsiRequest { transaction_id: id, request: r },
        ),
{
    lemma_auto_spec_u32_to_from_le_bytes();
    lemma_auto_spec_u64_to_from_le_bytes();
    let p = PacketModel::ScsiRequest { transaction_id: id, request: r };
    let payload = spec_scsi_payload(r);
    let s = spec_encode(p);
    let hd = spec_header(TAG_SCSI_REQUEST, payload.len() as u32, id);
    assert(spec_u32_to_le_bytes(0).len() == 4);
    assert(hd.len() == 16);
    match r.descriptor {
        None => {
            assert(payload.len() == 19);
        },
        Some(d) => {
            let n = d.gpns.len();
            lemma_gpn_bytes(d.gpns);
            assert(spec_u32_to_le_bytes(d.offset).len() == 4);
            assert(spec_u32_to_le_bytes(d.len).len() == 4);
            assert(spec_u32_to_le_bytes(n as u32).len() == 4);
            assert(payload.len() == 31 + 8 * n);
        },
    }
    assert(s.subrange(0, 16) =~= hd);
    lemma_header(s, TAG_SCSI_REQUEST, payload.len() as u32, id);
    assert(s.subrange(18, 34) =~= r.cdb);
    match r.descriptor {
        None => {
            assert(spec_decode_scsi(s) == Ok::<ScsiRequestModel, DecodeError>(r));
        },
        Some(d) => {
            let n = d.gpns.len();
            let off = spec_u32_to_le_bytes(d.offset);
            let ln = spec_u32_to_le_bytes(d.len);
            let cnt = spec_u32_to_le_bytes(n as u32);
            let g = spec_gpn_bytes(d.gpns);
            assert(s.subrange(35, 39) =~= off);
            assert(s.subrange(39, 43) =~= ln);
            assert(s.subrange(43, 47) =~= cnt);
            lemma_read32(s, 35, d.offset);
            lemma_read32(s, 39, d.len);
            lemma_read32(s, 43, n as u32);
            assert forall|k: int| 0 <= k < n implies #[trigger] gpns_at(s, 47, n)[k]
                == d.gpns[k] by {
                assert(g.subrange(8 * k, 8 * k + 8) == spec_u64_to_le_bytes(d.gpns[k]));
                assert(s.subrange(47 + 8 * k, 47 + 8 * k + 8) =~= g.subrange(8 * k, 8 * k + 8));
                lemma_read64(s, 47 + 8 * k, d.gpns[k]);
            }
            assert(gpns_at(s, 47, n) =~= d.gpns);
            assert(spec_decode_scsi(s) == Ok::<ScsiRequestModel, DecodeError>(r));
        },
    }
}

/// Decoding the encoding of a well-formed packet gives that packet back.
pub proof fn lemma_round_trip(p: PacketModel)
    requires
        well_formed(p),
    ensures
        spec_decode(spec_encode(p)) == Ok::<PacketModel, DecodeError>(p),
{
    lemma_auto_spec_u16_to_from_le_bytes();
    lemma_auto_spec_u32_to_from_le_bytes();
    lemma_auto_spec_u64_to_from_le_bytes();
    let s = spec_encode(p);
    match p {
        PacketModel::NegotiationRequest { transaction_id, version } => {
            let hd = spec_header(TAG_NEGOTIATE, 2, transaction_id);
            assert(spec_u32_to_le_bytes(2).len() == 4);
            assert(spec_u16_to_le_bytes(version).len() == 2);
            assert(s.subrange(0, 16) =~= hd);
            lemma_header(s, TAG_NEGOTIATE, 2, transaction_id);
            assert(s.subrange(16, 18) =~= spec_u16_to_le_bytes(version));
            lemma_read16(s, 16, version);
        },
        PacketModel::NegotiationResponse { transaction_id, version } => {
            let hd = spec_header(TAG_NEGOTIATE_RESPONSE, 2, transaction_id);
            assert(spec_u32_to_le_bytes(2).len() == 4);
            assert(spec_u16_to_le_bytes(version).len() == 2);
            assert(s.subrange(0, 16) =~= hd);
            lemma_header(s, TAG_NEGOTIATE_RESPONSE, 2, transaction_id);
            assert(s.subrange(16, 18) =~= spec_u16_to_le_bytes(version));
            lemma_read16(s, 16, version);
        },
        PacketModel::ScsiRequest { transaction_id, request } => {
            lemma_scsi_round_trip(transaction_id, request);
        },
        PacketModel::Completion(c) => {
            let hd = spec_header(TAG_COMPLETION, 8, c.transaction_id);
            assert(spec_u32_to_le_bytes(8).len() == 4);
            assert(spec_u32_to_le_bytes(c.residual).len() == 4);
            assert(s.subrange(0, 16) =~= hd);
            lemma_header(s, TAG_COMPLETION, 8, c.transaction_id);
            assert(s.subrange(20, 24) =~= spec_u32_to_le_bytes(c.residual));
            lemma_read32(s, 20, c.residual);
        },
    }
}


fn append_u32(out: &mut Vec<u8>, x: u32)
    ensures
        final(out)@ == old(out)@ + spec_u32_to_le_bytes(x),
{
    let mut b = u32_to_le_bytes(x);
    out.append(&mut b);
}

fn header(tag: u32, payload_len: u32, id: u64) -> (r: Vec<u8>)
    ensures
        r@ == spec_header(tag, payload_len, id),
{
    let mut out = u32_to_le_bytes(tag);
    append_u32(&mut out, payload_len);
    let mut b = u64_to_le_bytes(id);
    out.append(&mut b);
    out
}

fn encode_scsi_payload(r: &ScsiRequest) -> (out: Vec<u8>)
    requires
        r.cdb@.len() == CDB_SIZE,
        match r.descriptor {
            Some(d) => d.gpns@.len() <= MAX_DESCRIPTOR_PAGES,
            None => true,
        },
    ensures
        out@ == spec_scsi_payload(r@),
        out@.len() <= u32::MAX,
{
    let mut out: Vec<u8> = Vec::new();
    out.push(r.lun);
    out.push(r.cdb_len);
    let mut cdb = slice_to_vec(r.cdb.as_slice());
    out.append(&mut cdb);
    match &r.descriptor {
        None => {
            out.push(0u8);
            assert(out@ =~= spec_scsi_payload(r@));
        },
        Some(d) => {
            out.push(1u8);
            append_u32(&mut out, d.offset);
            append_u32(&mut out, d.len);
            append_u32(&mut out, d.gpns.len() as u32);
            let ghost prefix = out@;
            let mut k: usize = 0;
            while k < d.gpns.len()
                invariant
                    k <= d.gpns@.len(),
                    out@ == prefix + spec_gpn_bytes(d.gpns@.subrange(0, k as int)),
                decreases d.gpns@.len() - k,
            {
                let mut b = u64_to_le_bytes(d.gpns[k]);
                out.append(&mut b);
                proof {
                    let next = d.gpns@.subrange(0, k + 1);
                    assert(next.drop_last() =~= d.gpns@.subrange(0, k as int));
                }
                k = k + 1;
                assert(out@ =~= prefix + spec_gpn_bytes(d.gpns@.subrange(0, k as int)));
            }
            assert(d.gpns@.subrange(0, k as int) =~= d.gpns@);
            assert(out@ =~= spec_scsi_payload(r@));
            proof {
                lemma_gpn_bytes(d.gpns@);
                lemma_auto_spec_u32_to_from_le_bytes();
                assert(spec_u32_to_le_bytes(d.len).len() == 4);
            }
        },
    }
    out
}

/// Encodes a well-formed packet into bytes that `decode` maps back to it.
pub fn encode(p: &Packet) -> (r: Vec<u8>)
    requires
        well_formed(p@),
    ensures
        r@ == spec_encode(p@),
{
    match p {
        Packet::NegotiationRequest { transaction_id, version } => {
            let mut out = header(TAG_NEGOTIATE, NEGOTIATE_PAYLOAD_LEN as u32, *transaction_id);
            let mut b = u16_to_le_bytes(*version);
            out.append(&mut b);
            out
        },
        Packet::NegotiationResponse { transaction_id, version } => {
            let mut out = header(
                TAG_NEGOTIATE_RESPONSE,
                NEGOTIATE_PAYLOAD_LEN as u32,
                *transaction_id,
            );
            let mut b = u16_to_le_bytes(*version);
            out.append(&mut b);
            out
        },
        Packet::ScsiRequest { transaction_id, request } => {
            let mut payload = encode_scsi_payload(request);
            let mut out = header(TAG_SCSI_REQUEST, payload.len() as u32, *transaction_id);
            out.append(&mut payload);
            out
        },
        Packet::Completion(c) => {
            let mut out = header(TAG_COMPLETION, COMPLETION_PAYLOAD_LEN as u32, c.transaction_id);
            out.push(c.scsi_status);
            out.push(c.srb_status);
            out.push(c.sense_key);
            out.push(c.asc);
            append_u32(&mut out, c.residual);
            assert(out@ =~= spec_encode(p@));
            out
        },
    }
}

} // verus!
