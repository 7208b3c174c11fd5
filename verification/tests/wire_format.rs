use super_quinn::error::SuperQuinnError;
use super_quinn::message::{RawMessage, RawMsgsWithAddr, SendMessageError, WireMessageWithAddr};

fn msgs_of(batch: &RawMsgsWithAddr<u32>) -> Vec<(u16, Vec<u8>)> {
    batch.0.iter().map(|m| (m.msg_type(), m.msg_data().to_vec())).collect()
}

#[test]
fn frame_layout_is_length_type_payload_little_endian() {
    let batch = RawMsgsWithAddr(vec![RawMessage::new(0x0102, vec![9, 8, 7])], 1u32);
    let wire = WireMessageWithAddr::from_raw_msgs(batch);
    assert_eq!(wire.1, 1u32);
    assert_eq!(wire.data(), vec![3, 0, 0x02, 0x01, 9, 8, 7]);
}

#[test]
fn frames_are_concatenated_in_order() {
    let batch = RawMsgsWithAddr(
        vec![RawMessage::new(1, vec![0xaa]), RawMessage::new(2, vec![])],
        7u32,
    );
    let wire = WireMessageWithAddr::from_raw_msgs(batch);
    assert_eq!(wire.0, vec![1, 0, 1, 0, 0xaa, 0, 0, 2, 0]);
}

#[test]
fn empty_batch_encodes_to_nothing() {
    let wire = WireMessageWithAddr::from_raw_msgs(RawMsgsWithAddr::<u32>(vec![], 3));
    assert!(wire.0.is_empty());
    assert_eq!(wire.1, 3);
}

#[test]
fn decode_single_frame() {
    let wire = WireMessageWithAddr(vec![3, 0, 7, 0, 1, 2, 3], 42u32);
    let batch = match wire.to_raw_msgs() {
        Ok(b) => b,
        Err(_) => panic!("valid frame rejected"),
    };
    assert_eq!(batch.1, 42);
    assert_eq!(batch.len(), 1);
    assert_eq!(msgs_of(&batch), vec![(7, vec![1, 2, 3])]);
}

#[test]
fn decode_ignores_fewer_than_four_trailing_bytes() {
    let wire = WireMessageWithAddr(vec![1, 0, 5, 0, 0xff, 0xee, 0xdd, 0xcc], 0u32);
    let batch = match wire.to_raw_msgs() {
        Ok(b) => b,
        Err(_) => panic!("valid frame rejected"),
    };
    assert_eq!(msgs_of(&batch), vec![(5, vec![0xff])]);

    let short = WireMessageWithAddr(vec![1, 2, 3], 0u32);
    match short.to_raw_msgs() {
        Ok(b) => assert_eq!(b.len(), 0),
        Err(_) => panic!("short input rejected"),
    }
}

#[test]
fn decode_empty_input_gives_empty_batch() {
    match WireMessageWithAddr(Vec::new(), 0u32).to_raw_msgs() {
        Ok(b) => assert_eq!(b.len(), 0),
        Err(_) => panic!("empty input rejected"),
    }
}

#[test]
fn decode_rejects_frame_longer_than_input() {
    let wire = WireMessageWithAddr(vec![4, 0, 7, 0, 1, 2, 3], 0u32);
    assert!(matches!(wire.to_raw_msgs(), Err(SuperQuinnError::InvalidMessage)));
}

#[test]
fn decode_rejects_when_a_later_frame_is_truncated() {
    let wire = WireMessageWithAddr(vec![1, 0, 1, 0, 9, 5, 0, 2, 0, 1], 0u32);
    assert!(matches!(wire.to_raw_msgs(), Err(SuperQuinnError::InvalidMessage)));
}

#[test]
fn encode_then_decode_gives_back_the_batch() {
    let original = vec![
        (0u16, vec![]),
        (65535u16, vec![1, 2, 3, 4, 5]),
        (300u16, (0..=255u8).collect::<Vec<u8>>()),
    ];
    let batch = RawMsgsWithAddr(
        original.iter().map(|(t, d)| RawMessage::new(*t, d.clone())).collect(),
        99u32,
    );
    let wire = WireMessageWithAddr::from_raw_msgs(batch);
    let back = match wire.to_raw_msgs() {
        Ok(b) => b,
        Err(_) => panic!("encoded batch rejected"),
    };
    assert_eq!(back.1, 99);
    assert_eq!(msgs_of(&back), original);
}

#[test]
fn decode_then_encode_gives_back_the_input_without_trailing_bytes() {
    let input = vec![2, 0, 3, 0, 10, 11, 0, 0, 4, 0, 7, 7];
    let batch = match WireMessageWithAddr(input.clone(), 5u32).to_raw_msgs() {
        Ok(b) => b,
        Err(_) => panic!("valid input rejected"),
    };
    let again = WireMessageWithAddr::from_raw_msgs(batch);
    assert_eq!(again.0, input[..10].to_vec());
    assert_eq!(again.1, 5);
}

#[test]
fn oversized_payload_length_is_truncated_to_sixteen_bits() {
    let payload = vec![0u8; 70_000];
    let wire = WireMessageWithAddr::from_raw_msgs(RawMsgsWithAddr(
        vec![RawMessage::new(1, payload)],
        0u32,
    ));
    assert_eq!(wire.0.len(), 70_004);
    // 70_000 mod 65_536 = 4_464 = 0x1170
    assert_eq!(&wire.0[..4], &[0x70, 0x11, 1, 0]);
}

#[test]
fn raw_message_accessors() {
    let m = RawMessage::new(12, vec![4, 5]);
    assert_eq!(m.msg_type(), 12);
    assert_eq!(m.msg_data(), &[4, 5]);
}

#[test]
fn send_error_texts() {
    assert_eq!(SendMessageError::SendMsgError.to_string(), "send msg error");
    assert_eq!(SendMessageError::SendVecMsgError(0).to_string(), "send msgs error : 0");
    assert_eq!(SendMessageError::SendVecMsgError(1234).to_string(), "send msgs error : 1234");
}

#[test]
fn encoding_two_batches_equals_encoding_their_concatenation() {
    let a = vec![(1u16, vec![1u8, 2]), (2u16, vec![])];
    let b = vec![(3u16, vec![9u8; 5])];
    let enc = |msgs: &Vec<(u16, Vec<u8>)>| {
        WireMessageWithAddr::from_raw_msgs(RawMsgsWithAddr(
            msgs.iter().map(|(t, d)| RawMessage::new(*t, d.clone())).collect(),
            0u32,
        ))
        .data()
    };
    let mut joined = a.clone();
    joined.extend(b.clone());
    let mut expected = enc(&a);
    expected.extend(enc(&b));
    assert_eq!(enc(&joined), expected);
}
