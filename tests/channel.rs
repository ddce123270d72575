use std::collections::BTreeMap;

use netz::channel::{ChannelError, IoSerdeFramed, ReadStep};
use netz::codec::MessagePack;

fn seq_message(n: i32) -> Vec<u8> {
    let mut m: BTreeMap<String, i32> = BTreeMap::new();
    m.insert("seq".to_string(), n);
    rmp_serde::to_vec(&m).unwrap()
}

fn channel() -> IoSerdeFramed<(), MessagePack> {
    IoSerdeFramed::new((), MessagePack::new())
}

#[test]
fn end_to_end_seq_one() {
    let payload = seq_message(1);
    assert_eq!(payload, vec![0x81, 0xa3, b's', b'e', b'q', 0x01]);
    let mut writer = channel();
    let wire = writer.start_send(true, &payload).unwrap();
    assert_eq!(wire, vec![0, 0, 0, 6, 0x81, 0xa3, b's', b'e', b'q', 0x01]);

    let mut reader = channel();
    reader.feed(&wire);
    let step = reader.poll_next();
    let item = match step {
        ReadStep::Item(v) => v,
        other => panic!("unexpected {:?}", other),
    };
    let decoded: BTreeMap<String, i32> = rmp_serde::from_slice(&item).unwrap();
    assert_eq!(decoded.get("seq"), Some(&1));
    assert_eq!(decoded.len(), 1);
    assert_eq!(reader.buffered_len(), 0);
    assert_eq!(reader.poll_next(), ReadStep::Pending);
    assert_eq!(reader.poll_end(), ReadStep::End);
}

#[test]
fn partial_frame_is_pending_and_kept() {
    let payload = seq_message(7);
    let wire = channel().start_send(true, &payload).unwrap();
    for k in 0..wire.len() {
        let mut reader = channel();
        reader.feed(&wire[..k]);
        assert_eq!(reader.poll_next(), ReadStep::Pending);
        assert_eq!(reader.buffered_len(), k);
        reader.feed(&wire[k..]);
        assert_eq!(reader.poll_next(), ReadStep::Item(payload.clone()));
        assert_eq!(reader.buffered_len(), 0);
    }
}

#[test]
fn oversized_frame_stops_the_reader() {
    let mut reader = IoSerdeFramed::with_max_frame_length((), MessagePack::new(), 4);
    let wire = channel().start_send(true, &seq_message(1)).unwrap();
    reader.feed(&wire);
    assert_eq!(reader.poll_next(), ReadStep::Failed(ChannelError::OversizedFrame));
    let small = channel().start_send(true, &[0x01]).unwrap();
    reader.feed(&small);
    assert_eq!(reader.poll_next(), ReadStep::Failed(ChannelError::OversizedFrame));
    assert_eq!(reader.poll_end(), ReadStep::Failed(ChannelError::OversizedFrame));
}

#[test]
fn frame_at_the_maximum_is_accepted() {
    let mut ch = IoSerdeFramed::with_max_frame_length((), MessagePack::new(), 6);
    let payload = seq_message(1);
    let wire = ch.start_send(true, &payload).unwrap();
    ch.feed(&wire);
    assert_eq!(ch.poll_next(), ReadStep::Item(payload));
    let mut tight = IoSerdeFramed::with_max_frame_length((), MessagePack::new(), 5);
    assert_eq!(tight.start_send(true, &seq_message(1)), Err(ChannelError::OversizedFrame));
}

#[test]
fn two_channels_keep_their_own_order() {
    let mut a = channel();
    let mut b = channel();
    let mut wire_a = Vec::new();
    let mut wire_b = Vec::new();
    for i in 0..3 {
        wire_a.extend(a.start_send(true, &seq_message(i)).unwrap());
        wire_b.extend(b.start_send(true, &seq_message(100 + i)).unwrap());
    }
    wire_b.extend(b.start_send(true, &seq_message(200)).unwrap());
    let mut ra = channel();
    let mut rb = channel();
    let mut got_a = Vec::new();
    let mut got_b = Vec::new();
    for (ca, cb) in wire_a.chunks(5).zip(wire_b.chunks(3)) {
        ra.feed(ca);
        rb.feed(cb);
        while let ReadStep::Item(v) = ra.poll_next() {
            got_a.push(v);
        }
        while let ReadStep::Item(v) = rb.poll_next() {
            got_b.push(v);
        }
    }
    for cb in wire_b.chunks(3).skip(wire_a.chunks(5).count()) {
        rb.feed(cb);
        while let ReadStep::Item(v) = rb.poll_next() {
            got_b.push(v);
        }
    }
    assert_eq!(got_a, vec![seq_message(0), seq_message(1), seq_message(2)]);
    assert_eq!(
        got_b,
        vec![seq_message(100), seq_message(101), seq_message(102), seq_message(200)]
    );
}

#[test]
fn not_ready_fails_fast_then_same_item_succeeds() {
    let mut ch = channel();
    let payload = seq_message(3);
    assert_eq!(ch.start_send(false, &payload), Err(ChannelError::NotReady));
    let wire = ch.start_send(true, &payload).unwrap();
    let mut reader = channel();
    reader.feed(&wire);
    assert_eq!(reader.poll_next(), ReadStep::Item(payload));
    assert_eq!(reader.poll_next(), ReadStep::Pending);
}

#[test]
fn truncated_stream_is_an_error() {
    let wire = channel().start_send(true, &seq_message(1)).unwrap();
    let mut reader = channel();
    reader.feed(&wire[..wire.len() - 1]);
    assert_eq!(reader.poll_next(), ReadStep::Pending);
    assert_eq!(reader.poll_end(), ReadStep::Failed(ChannelError::TruncatedStream));
}

#[test]
fn clean_end_between_frames() {
    let reader = channel();
    assert_eq!(reader.poll_end(), ReadStep::End);
}

#[test]
fn malformed_payload_fails_the_reader() {
    let mut reader = channel();
    reader.feed(&[0, 0, 0, 1, 0xc1]);
    assert_eq!(reader.poll_next(), ReadStep::Failed(ChannelError::Decode));
    reader.feed(&[0, 0, 0, 1, 0x01]);
    assert_eq!(reader.poll_next(), ReadStep::Failed(ChannelError::Decode));
}

#[test]
fn frame_with_cut_short_value_is_pending() {
    let mut reader = channel();
    reader.feed(&[0, 0, 0, 1, 0x92]);
    assert_eq!(reader.poll_next(), ReadStep::Pending);
    assert_eq!(reader.buffered_len(), 0);
    reader.feed(&[0, 0, 0, 1, 0x07]);
    assert_eq!(reader.poll_next(), ReadStep::Item(vec![0x07]));
}

#[test]
fn frame_payload_yields_its_first_value() {
    let mut reader = channel();
    reader.feed(&[0, 0, 0, 2, 0x05, 0x06]);
    assert_eq!(reader.poll_next(), ReadStep::Item(vec![0x05]));
    assert_eq!(reader.buffered_len(), 0);
}

#[test]
fn empty_frame_is_pending() {
    let mut reader = channel();
    reader.feed(&[0, 0, 0, 0]);
    assert_eq!(reader.poll_next(), ReadStep::Pending);
    assert_eq!(reader.buffered_len(), 0);
}

#[test]
fn unencodable_item_is_refused() {
    let mut ch = channel();
    assert_eq!(ch.start_send(true, &[0xc1]), Err(ChannelError::Encode));
    assert_eq!(ch.start_send(true, &[]), Err(ChannelError::Encode));
}

#[test]
fn close_is_idempotent_and_stops_writes() {
    let mut ch = channel();
    assert!(ch.close());
    assert!(!ch.close());
    assert_eq!(ch.start_send(true, &seq_message(1)), Err(ChannelError::Closed));
}

#[test]
fn channel_keeps_its_stream() {
    let ch = IoSerdeFramed::new(42u8, MessagePack::default());
    assert_eq!(*ch.get_ref(), 42);
    assert_eq!(ch.into_inner(), 42);
}
