use storvsp_engine::registry::{AttachError, DiskInfo, ScsiController};
use storvsp_engine::resolver::{Access, GuestMemory, MemoryDescriptor};
use storvsp_engine::codec::ScsiRequest;
use storvsp_engine::scsi::{dispatch, disk_result, Dispatch, DiskOutcome, ScsiResult};
use storvsp_engine::table::{InsertError, RequestSummary, TransactionTable};

fn summary(data_len: u32) -> RequestSummary {
    RequestSummary { lun: 0, opcode: 0x28, lba: 0, blocks: data_len / 512, data_len }
}

fn disk(sectors: u64) -> DiskInfo {
    DiskInfo { sector_count: sectors, sector_size: 512, read_only: false }
}

fn rw10(op: u8, lba: u32, blocks: u16) -> Vec<u8> {
    let mut cdb = vec![0u8; 16];
    cdb[0] = op;
    cdb[2..6].copy_from_slice(&lba.to_be_bytes());
    cdb[7..9].copy_from_slice(&blocks.to_be_bytes());
    cdb
}

fn request(cdb: Vec<u8>, cdb_len: u8, descriptor: Option<MemoryDescriptor>) -> ScsiRequest {
    ScsiRequest { lun: 0, cdb_len, cdb, descriptor }
}

fn complete_now(d: Dispatch) -> ScsiResult {
    match d {
        Dispatch::Complete(r) => r,
        Dispatch::DiskIo { .. } => panic!("expected an immediate result"),
    }
}

#[test]
fn table_refuses_duplicate_and_retires_once() {
    let mut t = TransactionTable::new();
    assert_eq!(t.insert(7, summary(512), 100), Ok(()));
    assert_eq!(t.insert(7, summary(1024), 101), Err(InsertError::DuplicateTransaction));
    assert_eq!(t.len(), 1);
    let e = t.retire(7).expect("in flight");
    assert_eq!(e.transaction_id, 7);
    assert_eq!(e.request, summary(512));
    assert_eq!(e.submitted, 100);
    assert!(t.retire(7).is_none());
    assert_eq!(t.len(), 0);
}

#[test]
fn table_drain_returns_all_and_closes() {
    let mut t = TransactionTable::new();
    t.insert(1, summary(512), 0).unwrap();
    t.insert(2, summary(512), 0).unwrap();
    let drained = t.drain();
    let ids: Vec<u64> = drained.iter().map(|e| e.transaction_id).collect();
    assert_eq!(ids, vec![1, 2]);
    assert_eq!(t.len(), 0);
    assert!(t.is_closed());
    assert_eq!(t.insert(3, summary(512), 0), Err(InsertError::Closed));
    assert!(!t.contains(1));
}

#[test]
fn registry_attach_and_lookup() {
    let mut c = ScsiController::new();
    assert_eq!(c.attach(4, disk(10)), Ok(()));
    assert_eq!(c.attach(4, disk(20)), Err(AttachError::Occupied));
    assert_eq!(c.lookup(4), Some(disk(10)));
    assert_eq!(c.lookup(5), None);
    c.attach(1, disk(5)).unwrap();
    assert_eq!(c.attached_luns(), vec![1, 4]);
}

#[test]
fn dispatch_unknown_lun() {
    let r = complete_now(dispatch(&request(rw10(0x28, 0, 1), 10, None), None, GuestMemory { page_count: 4 }));
    assert_eq!(r.srb_status, 0x20);
    assert_eq!(r.scsi_status, 0);
}

#[test]
fn dispatch_unknown_opcode() {
    let mut cdb = vec![0u8; 16];
    cdb[0] = 0x12;
    let r = complete_now(dispatch(&request(cdb, 6, None), Some(disk(100)), GuestMemory { page_count: 4 }));
    assert_eq!((r.scsi_status, r.srb_status, r.sense_key, r.asc), (2, 4, 5, 0x20));
}

#[test]
fn dispatch_test_unit_ready_is_good() {
    let r = complete_now(dispatch(&request(vec![0u8; 16], 6, None), Some(disk(100)), GuestMemory { page_count: 4 }));
    assert_eq!((r.scsi_status, r.srb_status, r.residual), (0, 1, 0));
}

#[test]
fn dispatch_short_command_block() {
    let r = complete_now(dispatch(&request(rw10(0x28, 0, 1), 6, None), Some(disk(100)), GuestMemory { page_count: 4 }));
    assert_eq!((r.sense_key, r.asc), (5, 0x24));
}

#[test]
fn dispatch_lba_out_of_range() {
    let d = MemoryDescriptor { offset: 0, len: 1024, gpns: vec![0] };
    let r = complete_now(dispatch(&request(rw10(0x28, 99, 2), 10, Some(d)), Some(disk(100)), GuestMemory { page_count: 4 }));
    assert_eq!((r.sense_key, r.asc, r.residual), (5, 0x21, 1024));
}

#[test]
fn dispatch_write_protected() {
    let d = MemoryDescriptor { offset: 0, len: 512, gpns: vec![0] };
    let ro = DiskInfo { sector_count: 100, sector_size: 512, read_only: true };
    let r = complete_now(dispatch(&request(rw10(0x2a, 0, 1), 10, Some(d)), Some(ro), GuestMemory { page_count: 4 }));
    assert_eq!((r.sense_key, r.asc), (7, 0x27));
}

#[test]
fn dispatch_length_mismatch() {
    let d = MemoryDescriptor { offset: 0, len: 1000, gpns: vec![0] };
    let r = complete_now(dispatch(&request(rw10(0x28, 0, 2), 10, Some(d)), Some(disk(100)), GuestMemory { page_count: 4 }));
    assert_eq!((r.scsi_status, r.sense_key, r.asc), (2, 5, 0x26));
    let r = complete_now(dispatch(&request(rw10(0x28, 0, 2), 10, None), Some(disk(100)), GuestMemory { page_count: 4 }));
    assert_eq!((r.scsi_status, r.sense_key, r.asc), (2, 5, 0x26));
}

#[test]
fn dispatch_read16_goes_to_disk() {
    let mut cdb = vec![0u8; 16];
    cdb[0] = 0x88;
    cdb[2..10].copy_from_slice(&(1u64 << 33).to_be_bytes());
    cdb[10..14].copy_from_slice(&8u32.to_be_bytes());
    let d = MemoryDescriptor { offset: 0, len: 4096, gpns: vec![2] };
    match dispatch(&request(cdb, 16, Some(d)), Some(disk(1u64 << 34)), GuestMemory { page_count: 4 }) {
        Dispatch::DiskIo { request, range } => {
            assert_eq!(request.lba, 1u64 << 33);
            assert_eq!(request.blocks, 8);
            assert_eq!(request.data_len, 4096);
            assert_eq!(range.access, Access::Write);
            assert_eq!(range.gpns, vec![2]);
        }
        other => panic!("unexpected {:?}", other),
    }
}

#[test]
fn disk_result_mapping() {
    let s = summary(4096);
    assert_eq!(disk_result(s, DiskOutcome::Done { transferred: 4096 }).residual, 0);
    assert_eq!(disk_result(s, DiskOutcome::Done { transferred: 1000 }).residual, 3096);
    assert_eq!(disk_result(s, DiskOutcome::Done { transferred: 9999 }).residual, 0);
    let m = disk_result(s, DiskOutcome::MediumError);
    assert_eq!((m.scsi_status, m.srb_status, m.sense_key, m.asc, m.residual), (2, 4, 3, 0x11, 4096));
    let w = disk_result(s, DiskOutcome::WriteProtected);
    assert_eq!((w.sense_key, w.asc), (7, 0x27));
    let h = disk_result(s, DiskOutcome::DeviceError);
    assert_eq!((h.sense_key, h.asc), (4, 0x44));
}
