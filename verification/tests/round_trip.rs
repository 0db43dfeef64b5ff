#![allow(deprecated)]

use rpc_framing::{Codec, CodecState};
use tokio_core::io::EasyBuf;

#[test]
fn serialize() {
    const MSG: (u64, (char, char, char)) = (4, ('a', 'b', 'c'));
    let mut buf = EasyBuf::new();
    let mut vec = Vec::new();

    // Serialize twice to check for idempotence.
    for _ in 0..2 {
        let mut codec = Codec::new(2_000_000);
        let payload = bincode::serialize(&MSG.1).unwrap();
        codec.encode((MSG.0, payload), &mut vec).unwrap();
        buf.get_mut().append(&mut vec);
        let actual = codec.decode(&mut buf);

        match actual {
            Ok(Some((id, ref payload)))
                if id == MSG.0
                    && bincode::deserialize::<(char, char, char)>(payload).unwrap() == MSG.1 => {}
            bad => panic!("Expected {:?}, but got {:?}", Some(MSG), bad),
        }

        assert!(
            buf.get_mut().is_empty(),
            "Expected empty buf but got {:?}",
            *buf.get_mut()
        );
    }
}

#[test]
fn encode_writes_identifier_then_length_then_payload() {
    let mut codec = Codec::new(100);
    let mut out = Vec::new();
    codec
        .encode((0x0102_0304_0506_0708, vec![0xaa, 0xbb, 0xcc]), &mut out)
        .unwrap();
    assert_eq!(
        out,
        vec![1, 2, 3, 4, 5, 6, 7, 8, 0, 0, 0, 0, 0, 0, 0, 3, 0xaa, 0xbb, 0xcc]
    );
}

#[test]
fn encode_appends_behind_what_the_buffer_holds() {
    let mut codec = Codec::new(100);
    let mut out = vec![9, 9];
    codec.encode((1, vec![5]), &mut out).unwrap();
    assert_eq!(
        out,
        vec![9, 9, 0, 0, 0, 0, 0, 0, 0, 1, 0, 0, 0, 0, 0, 0, 0, 1, 5]
    );
    codec.encode((2, vec![]), &mut out).unwrap();
    assert_eq!(out.len(), 19 + 16);
    assert_eq!(&out[19..], &[0, 0, 0, 0, 0, 0, 0, 2, 0, 0, 0, 0, 0, 0, 0, 0]);
}

#[test]
fn encode_leaves_the_decoder_phase_alone() {
    let mut codec = Codec::new(100);
    let mut buf = EasyBuf::from(vec![0, 0, 0, 0, 0, 0, 0, 6, 0]);
    assert_eq!(codec.decode(&mut buf), Ok(None));
    assert_eq!(codec.state(), CodecState::Len { id: 6 });
    let mut out = Vec::new();
    codec.encode((1, vec![1, 2]), &mut out).unwrap();
    assert_eq!(codec.state(), CodecState::Len { id: 6 });
    assert_eq!(codec.max_payload_size(), 100);
}

#[test]
fn frame_is_sixteen_bytes_longer_than_its_payload() {
    let mut codec = Codec::new(1_000);
    for len in [0usize, 1, 7, 8, 255, 256, 1_000] {
        let mut out = Vec::new();
        codec.encode((3, vec![0x5a; len]), &mut out).unwrap();
        assert_eq!(out.len(), 16 + len);
    }
}

#[test]
fn decode_reads_a_big_endian_header() {
    let mut codec = Codec::new(100);
    let mut buf = EasyBuf::from(vec![0, 0, 0, 0, 0, 0, 1, 2, 0, 0, 0, 0, 0, 0, 0, 2, 5, 6]);
    assert_eq!(codec.decode(&mut buf), Ok(Some((258, vec![5, 6]))));
    assert_eq!(buf.len(), 0);
    assert_eq!(codec.state(), CodecState::Id);
}

#[test]
fn round_trip_of_extreme_identifiers() {
    for id in [0u64, 1, 255, 256, 0x0123_4567_89ab_cdef, u64::MAX - 1, u64::MAX] {
        let mut codec = Codec::new(16);
        let mut out = Vec::new();
        codec.encode((id, vec![1, 2, 3]), &mut out).unwrap();
        let mut buf = EasyBuf::from(out);
        assert_eq!(codec.decode(&mut buf), Ok(Some((id, vec![1, 2, 3]))));
        assert_eq!(buf.len(), 0);
    }
}

#[test]
fn round_trip_of_an_empty_payload() {
    let mut codec = Codec::new(0);
    let mut out = Vec::new();
    codec.encode((77, vec![]), &mut out).unwrap();
    assert_eq!(out.len(), 16);
    let mut buf = EasyBuf::from(out);
    assert_eq!(codec.decode(&mut buf), Ok(Some((77, vec![]))));
    assert_eq!(buf.len(), 0);
    assert_eq!(codec.decode(&mut buf), Ok(None));
}

#[test]
fn round_trip_through_a_serializer() {
    let message = (String::from("ping"), 17u32, vec![true, false]);
    let mut codec = Codec::new(4_096);
    let mut out = Vec::new();
    let payload = bincode::serialize(&message).unwrap();
    assert_eq!(payload.len() as u64, bincode::serialized_size(&message).unwrap());
    codec.encode((9, payload), &mut out).unwrap();
    let mut buf = EasyBuf::from(out);
    let (id, payload) = codec.decode(&mut buf).unwrap().unwrap();
    assert_eq!(id, 9);
    let back: (String, u32, Vec<bool>) = bincode::deserialize(&payload).unwrap();
    assert_eq!(back, message);
    assert_eq!(buf.len(), 0);
}

#[test]
fn decode_yields_one_frame_per_call() {
    let mut codec = Codec::new(100);
    let mut out = Vec::new();
    codec.encode((1, vec![10, 11]), &mut out).unwrap();
    codec.encode((2, vec![20]), &mut out).unwrap();
    out.extend_from_slice(&[0, 0, 0]);
    let mut buf = EasyBuf::from(out);
    assert_eq!(codec.decode(&mut buf), Ok(Some((1, vec![10, 11]))));
    assert_eq!(buf.len(), 17 + 3);
    assert_eq!(codec.decode(&mut buf), Ok(Some((2, vec![20]))));
    assert_eq!(buf.as_slice(), &[0, 0, 0]);
    assert_eq!(codec.decode(&mut buf), Ok(None));
    assert_eq!(buf.as_slice(), &[0, 0, 0]);
    assert_eq!(codec.state(), CodecState::Id);
}

#[test]
fn undecodable_payload_leaves_the_framing_intact() {
    let mut codec = Codec::new(100);
    let mut out = Vec::new();
    // Three bytes are no `(char, char, char)`, and 0xff alone is no `char`.
    codec.encode((5, vec![0xff, 0xff, 0xff]), &mut out).unwrap();
    codec
        .encode((6, bincode::serialize(&('x', 'y', 'z')).unwrap()), &mut out)
        .unwrap();
    let mut buf = EasyBuf::from(out);

    let (id, payload) = codec.decode(&mut buf).unwrap().unwrap();
    assert_eq!(id, 5);
    assert_eq!(payload, vec![0xff, 0xff, 0xff]);
    assert!(bincode::deserialize::<(char, char, char)>(&payload).is_err());
    assert_eq!(codec.state(), CodecState::Id);

    let (id, payload) = codec.decode(&mut buf).unwrap().unwrap();
    assert_eq!(id, 6);
    assert_eq!(
        bincode::deserialize::<(char, char, char)>(&payload).unwrap(),
        ('x', 'y', 'z')
    );
    assert_eq!(codec.state(), CodecState::Id);
    assert_eq!(buf.len(), 0);
}

#[test]
fn encoding_a_decoded_frame_gives_its_bytes_back() {
    let bytes = vec![
        0xde, 0xad, 0xbe, 0xef, 0, 1, 2, 3, 0, 0, 0, 0, 0, 0, 0, 4, 9, 8, 7, 6, 0x55, 0x66,
    ];
    let mut codec = Codec::new(4);
    let mut buf = EasyBuf::from(bytes.clone());
    let (id, payload) = codec.decode(&mut buf).unwrap().unwrap();
    assert_eq!(id, 0xdead_beef_0001_0203);
    assert_eq!(payload, vec![9, 8, 7, 6]);

    let mut out = Vec::new();
    codec.encode((id, payload), &mut out).unwrap();
    out.extend_from_slice(buf.as_slice());
    assert_eq!(out, bytes);
}
