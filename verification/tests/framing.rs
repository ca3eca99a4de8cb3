use bytes::{Bytes, BytesMut};
use remoc::framing::{FrameError, LengthPrefix, HEADER_LENGTH};
use tokio_util::codec::{Decoder, Encoder, LengthDelimitedCodec};

fn outside(max: usize) -> LengthDelimitedCodec {
    LengthDelimitedCodec::builder()
        .little_endian()
        .length_field_length(4)
        .max_frame_length(max)
        .new_codec()
}

#[test]
fn header_is_four_bytes_lowest_first() {
    assert_eq!(HEADER_LENGTH, 4);
    let framing = LengthPrefix::new(1000);
    assert_eq!(framing.max_frame_length(), 1000);
    let mut dst = vec![0xaa];
    assert_eq!(framing.encode(b"hello", &mut dst), Ok(()));
    assert_eq!(dst, vec![0xaa, 5, 0, 0, 0, b'h', b'e', b'l', b'l', b'o']);
    let payload = vec![7u8; 0x1_02_03];
    let big = LengthPrefix::new(0x1_02_03);
    let mut dst = Vec::new();
    assert_eq!(big.encode(&payload, &mut dst), Ok(()));
    assert_eq!(&dst[..4], &[0x03, 0x02, 0x01, 0x00]);
    assert_eq!(dst.len(), 4 + 0x1_02_03);
    let mut empty = Vec::new();
    assert_eq!(framing.encode(b"", &mut empty), Ok(()));
    assert_eq!(empty, vec![0, 0, 0, 0]);
}

#[test]
fn too_long_payload_is_refused_and_nothing_written() {
    let framing = LengthPrefix::new(4);
    let mut dst = vec![1, 2];
    assert_eq!(framing.encode(b"12345", &mut dst), Err(FrameError::TooLong));
    assert_eq!(dst, vec![1, 2]);
    assert_eq!(framing.encode(b"1234", &mut dst), Ok(()));
    let mut with = outside(4);
    assert!(with.encode(Bytes::from_static(b"12345"), &mut BytesMut::new()).is_err());
}

#[test]
fn decode_reads_one_frame_and_says_how_much_it_took() {
    let framing = LengthPrefix::new(16);
    assert_eq!(framing.decode(&[]), Ok(None));
    assert_eq!(framing.decode(&[3, 0, 0]), Ok(None));
    assert_eq!(framing.decode(&[3, 0, 0, 0, b'a', b'b']), Ok(None));
    assert_eq!(
        framing.decode(&[3, 0, 0, 0, b'a', b'b', b'c']),
        Ok(Some((vec![b'a', b'b', b'c'], 7)))
    );
    assert_eq!(
        framing.decode(&[1, 0, 0, 0, b'x', 2, 0, 0, 0, b'y', b'z']),
        Ok(Some((vec![b'x'], 5)))
    );
    assert_eq!(framing.decode(&[0, 0, 0, 0, 9]), Ok(Some((vec![], 4))));
    assert_eq!(framing.decode(&[17, 0, 0, 0]), Err(FrameError::TooLong));
    assert_eq!(framing.decode(&[0, 1, 0, 0]), Err(FrameError::TooLong));
    assert_eq!(framing.decode(&[16, 0, 0, 0]), Ok(None));
}

#[test]
fn frames_agree_with_the_length_delimited_codec() {
    let payloads: Vec<Vec<u8>> = vec![
        vec![],
        vec![0],
        b"Hi from server".to_vec(),
        (0..=255u8).collect(),
        vec![0xff; 300],
    ];
    let framing = LengthPrefix::new(300);
    let mut ours = Vec::new();
    let mut theirs = BytesMut::new();
    let mut with = outside(300);
    for payload in &payloads {
        assert_eq!(framing.encode(payload, &mut ours), Ok(()));
        with.encode(Bytes::from(payload.clone()), &mut theirs).unwrap();
    }
    assert_eq!(&ours[..], &theirs[..]);
    // read back what the codec wrote, and let the codec read what we wrote
    let mut at = 0;
    let mut src = BytesMut::from(&ours[..]);
    for payload in &payloads {
        let (found, taken) = framing.decode(&theirs[at..]).unwrap().unwrap();
        assert_eq!(&found, payload);
        at += taken;
        let frame = with.decode(&mut src).unwrap().unwrap();
        assert_eq!(&frame[..], &payload[..]);
    }
    assert_eq!(at, theirs.len());
    assert_eq!(framing.decode(&theirs[at..]), Ok(None));
    assert!(with.decode(&mut src).unwrap().is_none());
}

#[test]
fn limit_agrees_with_the_length_delimited_codec() {
    let framing = LengthPrefix::new(5);
    let mut with = outside(5);
    let at_limit = [5u8, 0, 0, 0, 1, 2, 3, 4, 5];
    let over = [6u8, 0, 0, 0, 1, 2, 3, 4, 5, 6];
    assert_eq!(framing.decode(&at_limit), Ok(Some((vec![1, 2, 3, 4, 5], 9))));
    assert!(with.decode(&mut BytesMut::from(&at_limit[..])).unwrap().is_some());
    assert_eq!(framing.decode(&over), Err(FrameError::TooLong));
    assert!(with.decode(&mut BytesMut::from(&over[..])).is_err());
    let part = [5u8, 0, 0, 0, 1, 2];
    assert_eq!(framing.decode(&part), Ok(None));
    assert!(with.decode(&mut BytesMut::from(&part[..])).unwrap().is_none());
}

#[test]
fn builder_sets_up_the_codec_for_the_same_frames() {
    let framing = LengthPrefix::new(7);
    let mut codec = framing.builder().new_codec();
    assert_eq!(codec.max_frame_length(), 7);
    let mut ours = Vec::new();
    let mut theirs = BytesMut::new();
    assert_eq!(framing.encode(b"abcdefg", &mut ours), Ok(()));
    codec.encode(Bytes::from_static(b"abcdefg"), &mut theirs).unwrap();
    assert_eq!(&ours[..], &theirs[..]);
    assert_eq!(&theirs[..4], &[7, 0, 0, 0]);
    assert!(codec.encode(Bytes::from_static(b"abcdefgh"), &mut theirs).is_err());
    let frame = codec.decode(&mut BytesMut::from(&ours[..])).unwrap().unwrap();
    assert_eq!(&frame[..], b"abcdefg");
}
