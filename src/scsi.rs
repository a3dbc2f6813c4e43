//! Interpretation of SCSI command blocks and mapping of disk outcomes
//! to SCSI status.
use vstd::prelude::*;

use crate::codec::{ScsiRequest, ScsiRequestModel, CDB_SIZE};
use crate::registry::DiskInfo;
use crate::resolver::{resolve, resolve_result, Access, ByteRange, GuestMemory};
use crate::table::RequestSummary;

verus! {

/// SCSI status: the command completed.
pub const SCSI_GOOD: u8 = 0x00;

/// SCSI status: sense data describes an error.
pub const SCSI_CHECK_CONDITION: u8 = 0x02;

/// Request block status: success.
pub const SRB_SUCCESS: u8 = 0x01;

/// Request block status: the command failed.
pub const SRB_ERROR: u8 = 0x04;

/// Request block status: no logical unit at the address.
pub const SRB_INVALID_LUN: u8 = 0x20;

/// Sense key: no sense data.
pub const SENSE_NONE: u8 = 0x00;

/// Sense key: unrecoverable media error.
pub const SENSE_MEDIUM_ERROR: u8 = 0x03;

/// Sense key: the device failed.
pub const SENSE_HARDWARE_ERROR: u8 = 0x04;

/// Sense key: the command or its parameters are invalid.
pub const SENSE_ILLEGAL_REQUEST: u8 = 0x05;

/// Sense key: the medium is write protected.
pub const SENSE_DATA_PROTECT: u8 = 0x07;

/// Additional sense code: unrecovered read error.
pub const ASC_UNRECOVERED_READ_ERROR: u8 = 0x11;

/// Additional sense code: invalid command operation code.
pub const ASC_INVALID_COMMAND_OPCODE: u8 = 0x20;

/// Additional sense code: logical block address out of range.
pub const ASC_LBA_OUT_OF_RANGE: u8 = 0x21;

/// Additional sense code: invalid field in the command block.
pub const ASC_INVALID_FIELD_IN_CDB: u8 = 0x24;

/// Additional sense code: invalid field in the data buffer description.
pub const ASC_INVALID_FIELD_IN_PARAMETER_LIST: u8 = 0x26;

/// Additional sense code: write protected.
pub const ASC_WRITE_PROTECTED: u8 = 0x27;

/// Additional sense code: internal target failure.
pub const ASC_INTERNAL_TARGET_FAILURE: u8 = 0x44;

/// Operation code of TEST UNIT READY.
pub const OP_TEST_UNIT_READY: u8 = 0x00;

/// Operation code of READ(10).
pub const OP_READ10: u8 = 0x28;

/// Operation code of WRITE(10).
pub const OP_WRITE10: u8 = 0x2a;

/// Operation code of READ(16).
pub const OP_READ16: u8 = 0x88;

/// Operation code of WRITE(16).
pub const OP_WRITE16: u8 = 0x8a;

/// Outcome of a SCSI command as reported to the guest.
#[derive(Clone, Copy, Debug, PartialEq, Eq, Structural)]
pub struct ScsiResult {
    pub scsi_status: u8,
    pub srb_status: u8,
    pub sense_key: u8,
    pub asc: u8,
    /// Bytes of the data phase that were not transferred.
    pub residual: u32,
}

/// How a backing disk operation ended.
#[derive(Clone, Copy, Debug, PartialEq, Eq, Structural)]
pub enum DiskOutcome {
    /// The operation completed, moving `transferred` bytes.
    Done { transferred: u64 },
    /// The medium could not be read or written.
    MediumError,
    /// The disk refused a write.
    WriteProtected,
    /// The disk failed for another reason.
    DeviceError,
}

/// A successful result.
pub open spec fn good(residual: u32) -> ScsiResult {
    ScsiResult {
        scsi_status: SCSI_GOOD,
        srb_status: SRB_SUCCESS,
        sense_key: SENSE_NONE,
        asc: 0,
        residual,
    }
}

/// A check-condition result with the given sense.
pub open spec fn check_condition(sense_key: u8, asc: u8, residual: u32) -> ScsiResult {
    ScsiResult { scsi_status: SCSI_CHECK_CONDITION, srb_status: SRB_ERROR, sense_key, asc, residual }
}

/// The result for a request addressed to a missing logical unit.
pub open spec fn invalid_lun(residual: u32) -> ScsiResult {
    ScsiResult {
        scsi_status: SCSI_GOOD,
        srb_status: SRB_INVALID_LUN,
        sense_key: SENSE_NONE,
        asc: 0,
        residual,
    }
}

/// Bytes of guest memory that a request supplies for its data phase.
pub open spec fn data_len(r: ScsiRequestModel) -> u32 {
    match r.descriptor {
        Some(d) => d.len,
        None => 0,
    }
}

/// The big-endian 16-bit field at byte `i` of a command block.
pub open spec fn be16_at(s: Seq<u8>, i: int) -> int {
    s[i] * 0x100 + s[i + 1]
}

/// The big-endian 32-bit field at byte `i` of a command block.
pub open spec fn be32_at(s: Seq<u8>, i: int) -> int {
    s[i] * 0x1000000 + s[i + 1] * 0x10000 + s[i + 2] * 0x100 + s[i + 3]
}

/// The big-endian 64-bit field at byte `i` of a command block.
pub open spec fn be64_at(s: Seq<u8>, i: int) -> int {
    be32_at(s, i) * 0x100000000 + be32_at(s, i + 4)
}

/// A command that moves data between guest memory and the disk.
pub open spec fn is_transfer(op: u8) -> bool {
    op == OP_READ10 || op == OP_WRITE10 || op == OP_READ16 || op == OP_WRITE16
}

/// A command that writes to the disk.
pub open spec fn is_write(op: u8) -> bool {
    op == OP_WRITE10 || op == OP_WRITE16
}

/// A transfer command in its ten-byte form.
pub open spec fn is_short_form(op: u8) -> bool {
    op == OP_READ10 || op == OP_WRITE10
}

/// First logical block of a transfer command.
pub open spec fn transfer_lba(cdb: Seq<u8>, op: u8) -> int {
    if is_short_form(op) {
        be32_at(cdb, 2)
    } else {
        be64_at(cdb, 2)
    }
}

/// Number of logical blocks of a transfer command.
pub open spec fn transfer_blocks(cdb: Seq<u8>, op: u8) -> int {
    if is_short_form(op) {
        be16_at(cdb, 7)
    } else {
        be32_at(cdb, 10)
    }
}

/// Length a command block must declare to hold the fields of `op`.
pub open spec fn required_cdb_len(op: u8) -> int {
    if is_short_form(op) {
        10
    } else {
        16
    }
}

/// What dispatching a request decides.
pub ghost enum DispatchModel {
    /// Answer at once with this result.
    Complete(ScsiResult),
    /// Issue this transfer to the disk.
    DiskIo(RequestSummary),
}

/// A dispatch decision: a result to report now, or a disk operation over a
/// validated range of guest memory.
#[derive(Debug)]
pub enum Dispatch {
    Complete(ScsiResult),
    DiskIo { request: RequestSummary, range: ByteRange },
}

impl View for Dispatch {
    type V = DispatchModel;

    open spec fn view(&self) -> DispatchModel {
        match self {
            Dispatch::Complete(r) => DispatchModel::Complete(*r),
            Dispatch::DiskIo { request, .. } => DispatchModel::DiskIo(*request),
        }
    }
}

/// What dispatching request `r` to `disk` (absent where no disk is attached
/// at its address) over guest memory `mem` decides.
pub open spec fn spec_dispatch(r: ScsiRequestModel, disk: Option<DiskInfo>, mem: GuestMemory) -> DispatchModel {
    let len = data_len(r);
    match disk {
        None => DispatchModel::Complete(invalid_lun(len)),
        Some(disk) => {
            if r.cdb_len == 0 {
                DispatchModel::Complete(check_condition(SENSE_ILLEGAL_REQUEST, ASC_INVALID_COMMAND_OPCODE, len))
            } else if r.cdb[0] == OP_TEST_UNIT_READY {
                DispatchModel::Complete(good(len))
            } else if !is_transfer(r.cdb[0]) {
                DispatchModel::Complete(check_condition(SENSE_ILLEGAL_REQUEST, ASC_INVALID_COMMAND_OPCODE, len))
            } else if r.cdb_len < required_cdb_len(r.cdb[0]) {
                DispatchModel::Complete(check_condition(SENSE_ILLEGAL_REQUEST, ASC_INVALID_FIELD_IN_CDB, len))
            } else {
                let op = r.cdb[0];
                let lba = transfer_lba(r.cdb, op);
                let blocks = transfer_blocks(r.cdb, op);
                if is_write(op) && disk.read_only {
                    DispatchModel::Complete(check_condition(SENSE_DATA_PROTECT, ASC_WRITE_PROTECTED, len))
                } else if lba + blocks > disk.sector_count {
                    DispatchModel::Complete(check_condition(SENSE_ILLEGAL_REQUEST, ASC_LBA_OUT_OF_RANGE, len))
                } else if blocks * disk.sector_size != len {
                    DispatchModel::Complete(
                        check_condition(SENSE_ILLEGAL_REQUEST, ASC_INVALID_FIELD_IN_PARAMETER_LIST, len),
                    )
                } else if len == 0 {
                    DispatchModel::Complete(good(0))
                } else if resolve_result(r.descriptor.unwrap(), mem) is Err {
                    DispatchModel::Complete(
                        check_condition(SENSE_ILLEGAL_REQUEST, ASC_INVALID_FIELD_IN_PARAMETER_LIST, len),
                    )
                } else {
                    DispatchModel::DiskIo(
                        RequestSummary {
                            lun: r.lun,
                            opcode: op,
                            lba: lba as u64,
                            blocks: blocks as u32,
                            data_len: len,
                        },
                    )
                }
            }
        },
    }
}

/// The result reported for a disk operation of `req` that ended with `o`.
pub open spec fn spec_disk_result(req: RequestSummary, o: DiskOutcome) -> ScsiResult {
    match o {
        DiskOutcome::Done { transferred } => good(
            if transferred >= req.data_len {
                0
            } else {
                (req.data_len - transferred) as u32
            },
        ),
        DiskOutcome::MediumError => check_condition(
            SENSE_MEDIUM_ERROR,
            ASC_UNRECOVERED_READ_ERROR,
            req.data_len,
        ),
        DiskOutcome::WriteProtected => check_condition(
            SENSE_DATA_PROTECT,
            ASC_WRITE_PROTECTED,
            req.data_len,
        ),
        DiskOutcome::DeviceError => check_condition(
            SENSE_HARDWARE_ERROR,
            ASC_INTERNAL_TARGET_FAILURE,
            req.data_len,
        ),
    }
}

/// Maps how a disk operation ended to the result the guest sees.
pub fn disk_result(req: RequestSummary, o: DiskOutcome) -> (r: ScsiResult)
    ensures
        r == spec_disk_result(req, o),
{
    match o {
        DiskOutcome::Done { transferred } => {
            let residual = if transferred >= req.data_len as u64 {
                0
            } else {
                req.data_len - transferred as u32
            };
            ScsiResult {
                scsi_status: SCSI_GOOD,
                srb_status: SRB_SUCCESS,
                sense_key: SENSE_NONE,
                asc: 0,
                residual,
            }
        },
        DiskOutcome::MediumError => result_check(
            SENSE_MEDIUM_ERROR,
            ASC_UNRECOVERED_READ_ERROR,
            req.data_len,
        ),
        DiskOutcome::WriteProtected => result_check(SENSE_DATA_PROTECT, ASC_WRITE_PROTECTED, req.data_len),
        DiskOutcome::DeviceError => result_check(
            SENSE_HARDWARE_ERROR,
            ASC_INTERNAL_TARGET_FAILURE,
            req.data_len,
        ),
    }
}

fn result_check(sense_key: u8, asc: u8, residual: u32) -> (r: ScsiResult)
    ensures
        r == check_condition(sense_key, asc, residual),
{
    ScsiResult { scsi_status: SCSI_CHECK_CONDITION, srb_status: SRB_ERROR, sense_key, asc, residual }
}

fn result_good(residual: u32) -> (r: ScsiResult)
    ensures
        r == good(residual),
{
    ScsiResult { scsi_status: SCSI_GOOD, srb_status: SRB_SUCCESS, sense_key: SENSE_NONE, asc: 0, residual }
}

fn read_be32(cdb: &Vec<u8>, i: usize) -> (r: u64)
    requires
        i + 4 <= cdb@.len(),
    ensures
        r == be32_at(cdb@, i as int),
{
    let _len = cdb.len();
    (cdb[i] as u64) * 0x1000000 + (cdb[i + 1] as u64) * 0x10000 + (cdb[i + 2] as u64) * 0x100
        + (cdb[i + 3] as u64)
}

/// Decides what to do with request `req` addressed to `disk` (absent where
/// no disk is attached at its address) over guest memory `mem`. Guest memory
/// is only handed on for a transfer whose descriptor resolved in full.
pub fn dispatch(req: &ScsiRequest, disk: Option<DiskInfo>, mem: GuestMemory) -> (r: Dispatch)
    requires
        req.cdb@.len() == CDB_SIZE,
    ensures
        r@ == spec_dispatch(req@, disk, mem),
        match r {
            Dispatch::DiskIo { request, range } => {
                let d = req@.descriptor.unwrap();
                &&& req@.descriptor is Some
                &&& range.offset == d.offset
                &&& range.len == d.len
                &&& range.gpns@ == d.gpns
                &&& range.access == if is_write(request.opcode) {
                    Access::Read
                } else {
                    Access::Write
                }
            },
            Dispatch::Complete(_) => true,
        },
{
    let len: u32 = match &req.descriptor {
        Some(d) => d.len,
        None => 0,
    };
    let disk = match disk {
        None => {
            return Dispatch::Complete(
                ScsiResult {
                    scsi_status: SCSI_GOOD,
                    srb_status: SRB_INVALID_LUN,
                    sense_key: SENSE_NONE,
                    asc: 0,
                    residual: len,
                },
            );
        },
        Some(disk) => disk,
    };
    if req.cdb_len == 0 {
        return Dispatch::Complete(result_check(SENSE_ILLEGAL_REQUEST, ASC_INVALID_COMMAND_OPCODE, len));
    }
    let op = req.cdb[0];
    if op == OP_TEST_UNIT_READY {
        return Dispatch::Complete(result_good(len));
    }
    let short = op == OP_READ10 || op == OP_WRITE10;
    if !(short || op == OP_READ16 || op == OP_WRITE16) {
        return Dispatch::Complete(result_check(SENSE_ILLEGAL_REQUEST, ASC_INVALID_COMMAND_OPCODE, len));
    }
    if (short && req.cdb_len < 10) || (!short && req.cdb_len < 16) {
        return Dispatch::Complete(result_check(SENSE_ILLEGAL_REQUEST, ASC_INVALID_FIELD_IN_CDB, len));
    }
    let (lba, blocks): (u64, u64) = if short {
        (read_be32(&req.cdb, 2), (req.cdb[7] as u64) * 0x100 + (req.cdb[8] as u64))
    } else {
        (read_be32(&req.cdb, 2) * 0x100000000 + read_be32(&req.cdb, 6), read_be32(&req.cdb, 10))
    };
    let write = op == OP_WRITE10 || op == OP_WRITE16;
    if write && disk.read_only {
        return Dispatch::Complete(result_check(SENSE_DATA_PROTECT, ASC_WRITE_PROTECTED, len));
    }
    if lba > disk.sector_count || blocks > disk.sector_count - lba {
        return Dispatch::Complete(result_check(SENSE_ILLEGAL_REQUEST, ASC_LBA_OUT_OF_RANGE, len));
    }
    assert(blocks * disk.sector_size <= 0xffff_ffff * 0xffff_ffff) by (nonlinear_arith)
        requires
            blocks <= 0xffff_ffff,
            disk.sector_size <= 0xffff_ffff,
    ;
    if blocks * (disk.sector_size as u64) != len as u64 {
        return Dispatch::Complete(
            result_check(SENSE_ILLEGAL_REQUEST, ASC_INVALID_FIELD_IN_PARAMETER_LIST, len),
        );
    }
    if len == 0 {
        return Dispatch::Complete(result_good(0));
    }
    let access = if write {
        Access::Read
    } else {
        Access::Write
    };
    match &req.descriptor {
        Some(d) => match resolve(d, mem, access) {
            Ok(range) => {
                let request = RequestSummary {
                    lun: req.lun,
                    opcode: op,
                    lba,
                    blocks: blocks as u32,
                    data_len: len,
                };
                Dispatch::DiskIo { request, range }
            },
            Err(_) => Dispatch::Complete(
                result_check(SENSE_ILLEGAL_REQUEST, ASC_INVALID_FIELD_IN_PARAMETER_LIST, len),
            ),
        },
        None => Dispatch::Complete(result_good(0)),
    }
}

} // verus!
