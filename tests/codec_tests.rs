use storvsp_engine::codec::{decode, encode, CompletionPacket, DecodeError, Packet, ScsiRequest};
use storvsp_engine::resolver::MemoryDescriptor;

fn sample_completion() -> CompletionPacket {
    CompletionPacket {
        transaction_id: 7,
        scsi_status: 2,
        srb_status: 4,
        sense_key: 5,
        asc: 0x24,
        residual: 0x0102_0304,
    }
}

#[test]
fn completion_encoding_is_exact() {
    let bytes = encode(&Packet::Completion(sample_completion()));
    let expected: Vec<u8> = vec![
        4, 0, 0, 0, 8, 0, 0, 0, 7, 0, 0, 0, 0, 0, 0, 0, 2, 4, 5, 0x24, 4, 3, 2, 1,
    ];
    assert_eq!(bytes, expected);
}

#[test]
fn completion_round_trip() {
    let c = sample_completion();
    match decode(&encode(&Packet::Completion(c))) {
        Ok(Packet::Completion(d)) => assert_eq!(d, c),
        other => panic!("unexpected {:?}", other),
    }
}

#[test]
fn negotiation_round_trip() {
    let bytes = encode(&Packet::NegotiationRequest { transaction_id: 3, version: 0x0201 });
    assert_eq!(bytes, vec![1, 0, 0, 0, 2, 0, 0, 0, 3, 0, 0, 0, 0, 0, 0, 0, 1, 2]);
    match decode(&bytes) {
        Ok(Packet::NegotiationRequest { transaction_id, version }) => {
            assert_eq!(transaction_id, 3);
            assert_eq!(version, 0x0201);
        }
        other => panic!("unexpected {:?}", other),
    }
}

#[test]
fn scsi_request_round_trip() {
    let mut cdb = vec![0u8; 16];
    cdb[0] = 0x28;
    cdb[8] = 8;
    let request = ScsiRequest {
        lun: 3,
        cdb_len: 10,
        cdb: cdb.clone(),
        descriptor: Some(MemoryDescriptor { offset: 12, len: 4096, gpns: vec![5, 0x1122_3344_5566_7788] }),
    };
    let bytes = encode(&Packet::ScsiRequest { transaction_id: 99, request });
    assert_eq!(bytes.len(), 16 + 31 + 16);
    match decode(&bytes) {
        Ok(Packet::ScsiRequest { transaction_id, request }) => {
            assert_eq!(transaction_id, 99);
            assert_eq!(request.lun, 3);
            assert_eq!(request.cdb_len, 10);
            assert_eq!(request.cdb, cdb);
            let d = request.descriptor.expect("descriptor");
            assert_eq!(d.offset, 12);
            assert_eq!(d.len, 4096);
            assert_eq!(d.gpns, vec![5, 0x1122_3344_5566_7788]);
        }
        other => panic!("unexpected {:?}", other),
    }
}

#[test]
fn short_buffer_is_truncated() {
    assert!(matches!(decode(&vec![]), Err(DecodeError::Truncated)));
    assert!(matches!(decode(&vec![4, 0, 0, 0, 8]), Err(DecodeError::Truncated)));
}

#[test]
fn declared_length_must_match() {
    let mut bytes = encode(&Packet::Completion(sample_completion()));
    bytes.push(0);
    assert!(matches!(decode(&bytes), Err(DecodeError::LengthMismatch)));
    let mut bytes = encode(&Packet::Completion(sample_completion()));
    bytes.pop();
    assert!(matches!(decode(&bytes), Err(DecodeError::LengthMismatch)));
}

#[test]
fn unknown_tag_is_refused() {
    let mut bytes = encode(&Packet::Completion(sample_completion()));
    bytes[0] = 9;
    assert!(matches!(decode(&bytes), Err(DecodeError::UnknownTag)));
}

#[test]
fn bad_payload_shapes_are_refused() {
    // completion with a two-byte payload
    let bytes: Vec<u8> = vec![4, 0, 0, 0, 2, 0, 0, 0, 1, 0, 0, 0, 0, 0, 0, 0, 0, 0];
    assert!(matches!(decode(&bytes), Err(DecodeError::BadPayload)));
    // SCSI request whose command block length exceeds the block
    let request = ScsiRequest { lun: 0, cdb_len: 16, cdb: vec![0u8; 16], descriptor: None };
    let mut bytes = encode(&Packet::ScsiRequest { transaction_id: 1, request });
    bytes[17] = 17;
    assert!(matches!(decode(&bytes), Err(DecodeError::BadPayload)));
    // descriptor flag neither 0 nor 1
    bytes[17] = 6;
    bytes[34] = 2;
    assert!(matches!(decode(&bytes), Err(DecodeError::BadPayload)));
    // page count that disagrees with the bytes present
    let request = ScsiRequest {
        lun: 0,
        cdb_len: 6,
        cdb: vec![0u8; 16],
        descriptor: Some(MemoryDescriptor { offset: 0, len: 1, gpns: vec![1] }),
    };
    let mut bytes = encode(&Packet::ScsiRequest { transaction_id: 1, request });
    bytes[43] = 2;
    assert!(matches!(decode(&bytes), Err(DecodeError::BadPayload)));
}

#[test]
fn adversarial_bytes_never_panic() {
    let mut state: u64 = 0x9e37_79b9_7f4a_7c15;
    for round in 0..2000u32 {
        let len = (round % 80) as usize;
        let mut bytes = Vec::with_capacity(len);
        for _ in 0..len {
            state = state.wrapping_mul(6364136223846793005).wrapping_add(1442695040888963407);
            bytes.push((state >> 56) as u8);
        }
        if len >= 8 {
            // make the length field consistent now and then
            if round % 3 == 0 {
                let payload = (len.saturating_sub(16)) as u32;
                bytes[4..8].copy_from_slice(&payload.to_le_bytes());
                bytes[0] = (round % 5) as u8;
                bytes[1] = 0;
                bytes[2] = 0;
                bytes[3] = 0;
            }
        }
        let _ = decode(&bytes);
    }
}
