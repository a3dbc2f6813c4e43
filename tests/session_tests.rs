use storvsp_engine::codec::{decode, encode, CompletionPacket, Packet, ScsiRequest};
use storvsp_engine::registry::{DiskInfo, ScsiController};
use storvsp_engine::resolver::{GuestMemory, MemoryDescriptor};
use storvsp_engine::scsi::DiskOutcome;
use storvsp_engine::session::{Action, ProtocolError, Session};

fn session() -> Session {
    let mut c = ScsiController::new();
    c.attach(0, DiskInfo { sector_count: 1 << 20, sector_size: 512, read_only: false }).unwrap();
    Session::new(c, GuestMemory { page_count: 16 })
}

fn negotiate(s: &mut Session, version: u16) -> Action {
    s.receive(&encode(&Packet::NegotiationRequest { transaction_id: 0, version }), 0)
}

fn read_request(id: u64, gpns: Vec<u64>) -> Vec<u8> {
    let blocks = (gpns.len() * 8) as u16;
    let mut cdb = vec![0u8; 16];
    cdb[0] = 0x28;
    cdb[7..9].copy_from_slice(&blocks.to_be_bytes());
    let len = (gpns.len() * 4096) as u32;
    let request = ScsiRequest {
        lun: 0,
        cdb_len: 10,
        cdb,
        descriptor: Some(MemoryDescriptor { offset: 0, len, gpns }),
    };
    encode(&Packet::ScsiRequest { transaction_id: id, request })
}

fn sent_completion(a: Action) -> CompletionPacket {
    match a {
        Action::Send(bytes) => completion_of_bytes(bytes),
        other => panic!("expected bytes to send, got {:?}", other),
    }
}

fn completion_of_bytes(bytes: Vec<u8>) -> CompletionPacket {
    match decode(&bytes) {
        Ok(Packet::Completion(c)) => c,
        other => panic!("expected a completion, got {:?}", other),
    }
}

fn started_io(a: Action) -> u64 {
    match a {
        Action::StartIo { transaction_id, .. } => transaction_id,
        other => panic!("expected a disk operation, got {:?}", other),
    }
}

#[test]
fn negotiation_selects_version_and_becomes_operational() {
    let mut s = session();
    match negotiate(&mut s, 1) {
        Action::Send(bytes) => match decode(&bytes) {
            Ok(Packet::NegotiationResponse { version, .. }) => assert_eq!(version, 1),
            other => panic!("unexpected {:?}", other),
        },
        other => panic!("unexpected {:?}", other),
    }
    let snap = s.inspect();
    assert!(snap.operational);
    assert_eq!(snap.negotiated_version, Some(1));
    assert_eq!(snap.attached_luns, vec![0]);
}

#[test]
fn negotiation_caps_at_highest_shared_version() {
    let mut s = session();
    match negotiate(&mut s, 9) {
        Action::Send(bytes) => match decode(&bytes) {
            Ok(Packet::NegotiationResponse { version, .. }) => assert_eq!(version, 2),
            other => panic!("unexpected {:?}", other),
        },
        other => panic!("unexpected {:?}", other),
    }
}

#[test]
fn negotiation_without_shared_version_is_dropped() {
    let mut s = session();
    assert!(matches!(negotiate(&mut s, 0), Action::Drop(ProtocolError::UnsupportedVersion)));
    assert!(!s.inspect().operational);
}

#[test]
fn read_of_valid_range_completes_successfully() {
    let mut s = session();
    negotiate(&mut s, 1);
    let id = started_io(s.receive(&read_request(7, vec![1, 2, 3]), 10));
    assert_eq!(id, 7);
    assert_eq!(s.inspect().in_flight, 1);
    let c = completion_of_bytes(s.complete(7, DiskOutcome::Done { transferred: 3 * 4096 }).unwrap());
    assert_eq!(c.transaction_id, 7);
    assert_eq!(c.scsi_status, 0);
    assert_eq!(c.srb_status, 1);
    assert_eq!(c.residual, 0);
    assert_eq!(s.inspect().in_flight, 0);
}

#[test]
fn page_beyond_guest_memory_gives_check_condition() {
    let mut s = session();
    negotiate(&mut s, 1);
    let c = sent_completion(s.receive(&read_request(7, vec![1, 2, 99]), 0));
    assert_eq!(c.transaction_id, 7);
    assert_eq!(c.scsi_status, 2);
    assert_eq!(s.inspect().in_flight, 0);
}

#[test]
fn completions_may_arrive_out_of_order() {
    let mut s = session();
    negotiate(&mut s, 1);
    assert_eq!(started_io(s.receive(&read_request(1, vec![1]), 0)), 1);
    assert_eq!(started_io(s.receive(&read_request(2, vec![2]), 1)), 2);
    let second = completion_of_bytes(s.complete(2, DiskOutcome::Done { transferred: 4096 }).unwrap());
    let first = completion_of_bytes(s.complete(1, DiskOutcome::Done { transferred: 4096 }).unwrap());
    assert_eq!(second.transaction_id, 2);
    assert_eq!(first.transaction_id, 1);
}

#[test]
fn duplicate_transaction_is_dropped() {
    let mut s = session();
    negotiate(&mut s, 1);
    started_io(s.receive(&read_request(7, vec![1]), 0));
    assert!(matches!(
        s.receive(&read_request(7, vec![2]), 1),
        Action::Drop(ProtocolError::DuplicateTransaction)
    ));
    let c = completion_of_bytes(s.complete(7, DiskOutcome::Done { transferred: 4096 }).unwrap());
    assert_eq!(c.transaction_id, 7);
    assert_eq!(c.residual, 0);
    assert!(s.complete(7, DiskOutcome::Done { transferred: 4096 }).is_none());
}

#[test]
fn teardown_cancels_in_flight_without_completion() {
    let mut s = session();
    negotiate(&mut s, 1);
    started_io(s.receive(&read_request(9, vec![1]), 0));
    let drained = s.teardown();
    assert_eq!(drained.len(), 1);
    assert_eq!(drained[0].transaction_id, 9);
    assert!(s.complete(9, DiskOutcome::Done { transferred: 4096 }).is_none());
    assert!(matches!(s.receive(&read_request(10, vec![1]), 0), Action::Drop(ProtocolError::SessionClosed)));
}

#[test]
fn scsi_request_before_negotiation_is_dropped() {
    let mut s = session();
    assert!(matches!(s.receive(&read_request(7, vec![1]), 0), Action::Drop(ProtocolError::NotNegotiated)));
    assert_eq!(s.inspect().in_flight, 0);
    assert!(s.complete(7, DiskOutcome::Done { transferred: 0 }).is_none());
}

#[test]
fn renegotiation_refused_while_busy() {
    let mut s = session();
    negotiate(&mut s, 2);
    started_io(s.receive(&read_request(1, vec![1]), 0));
    assert!(matches!(negotiate(&mut s, 1), Action::Drop(ProtocolError::RenegotiationBusy)));
    s.complete(1, DiskOutcome::MediumError).unwrap();
    assert!(matches!(negotiate(&mut s, 1), Action::Send(_)));
    assert_eq!(s.inspect().negotiated_version, Some(1));
}

#[test]
fn malformed_and_unexpected_packets_are_dropped() {
    let mut s = session();
    negotiate(&mut s, 1);
    assert!(matches!(s.receive(&vec![1, 2, 3], 0), Action::Drop(ProtocolError::Malformed(_))));
    let c = CompletionPacket { transaction_id: 1, scsi_status: 0, srb_status: 1, sense_key: 0, asc: 0, residual: 0 };
    assert!(matches!(s.receive(&encode(&Packet::Completion(c)), 0), Action::Drop(ProtocolError::UnexpectedPacket)));
}

#[test]
fn short_transfer_reports_residual() {
    let mut s = session();
    negotiate(&mut s, 1);
    started_io(s.receive(&read_request(4, vec![1, 2]), 0));
    let c = completion_of_bytes(s.complete(4, DiskOutcome::Done { transferred: 4096 }).unwrap());
    assert_eq!(c.residual, 4096);
}

#[test]
fn session_survives_adversarial_bytes() {
    let mut s = session();
    negotiate(&mut s, 1);
    let mut state: u64 = 0x2545_f491_4f6c_dd1d;
    for round in 0..3000u32 {
        let len = 16 + (round % 64) as usize;
        let mut bytes = Vec::with_capacity(len);
        for _ in 0..len {
            state ^= state << 13;
            state ^= state >> 7;
            state ^= state << 17;
            bytes.push(state as u8);
        }
        bytes[0..4].copy_from_slice(&(1 + round % 4).to_le_bytes());
        bytes[4..8].copy_from_slice(&((len - 16) as u32).to_le_bytes());
        if let Action::StartIo { transaction_id, .. } = s.receive(&bytes, round as u64) {
            assert!(s.complete(transaction_id, DiskOutcome::DeviceError).is_some());
        }
    }
    assert_eq!(s.inspect().in_flight, 0);
}
