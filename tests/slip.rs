use picoha_protocols::slip::{BasicBuffer, Decoder, Encoder, SlipError, SlipErrorCode, END, ESC, ESC_END, ESC_ESC};

#[test]
fn encode_stuffs_reserved_bytes() {
    let mut enc = Encoder::<64>::new();
    assert_eq!(enc.feed(&[0x01, 0xC0, 0x02, 0xDB, 0x03]), Ok(5));
    assert_eq!(enc.finish(), Ok(()));
    assert_eq!(enc.slice(), &[0x01, ESC, ESC_END, 0x02, ESC, ESC_ESC, 0x03, END]);
    enc.reset();
    assert!(enc.slice().is_empty());
}

#[test]
fn decode_of_encode_gives_bytes_back() {
    let inputs: Vec<Vec<u8>> = vec![
        vec![],
        vec![0xC0],
        vec![0xDB],
        vec![0xC0, 0xDB, 0xDC, 0xDD, 0x00, 0xFF],
        (0..=255u8).filter(|b| b % 5 == 0).collect(),
    ];
    for input in inputs {
        let mut enc = Encoder::<128>::new();
        assert_eq!(enc.feed(&input), Ok(input.len()));
        enc.finish().unwrap();
        let wire = enc.slice().to_vec();
        let mut dec = Decoder::<64>::new();
        assert_eq!(dec.feed(&wire), Ok((wire.len(), true)));
        assert_eq!(dec.slice(), &input[..]);
    }
}

#[test]
fn decoder_stops_at_terminator() {
    let mut dec = Decoder::<64>::new();
    assert_eq!(dec.feed(&[1, 2, END, 3, 4]), Ok((3, true)));
    assert_eq!(dec.slice(), &[1, 2]);
    dec.reset();
    assert_eq!(dec.feed(&[3, 4]), Ok((2, false)));
    assert_eq!(dec.slice(), &[3, 4]);
}

#[test]
fn escape_split_across_feeds() {
    let mut dec = Decoder::<64>::new();
    assert_eq!(dec.feed(&[7, ESC]), Ok((2, false)));
    assert_eq!(dec.feed(&[ESC_END, END]), Ok((2, true)));
    assert_eq!(dec.slice(), &[7, END]);
}

#[test]
fn bad_escape_is_rejected_with_position() {
    for b in 0..=255u8 {
        if b == ESC_END || b == ESC_ESC {
            continue;
        }
        let mut dec = Decoder::<64>::new();
        assert_eq!(dec.feed(&[0x11, ESC, b]), Err(SlipError { pos: 3, code: SlipErrorCode::BadEsc }));
    }
}

#[test]
fn decoder_buffer_full() {
    let mut dec = Decoder::<2>::new();
    assert_eq!(dec.feed(&[1, 2, 3]), Err(SlipError { pos: 3, code: SlipErrorCode::BufferFull }));
    assert_eq!(dec.slice(), &[1, 2]);
}

#[test]
fn encoder_buffer_full() {
    let mut enc = Encoder::<3>::new();
    assert_eq!(enc.feed(&[1, 2, END]), Err(SlipError { pos: 3, code: SlipErrorCode::BufferFull }));
    assert_eq!(enc.slice(), &[1, 2, ESC]);
    assert_eq!(enc.finish(), Err(SlipErrorCode::BufferFull));

    let mut enc = Encoder::<2>::new();
    assert_eq!(enc.feed(&[1, 2]), Ok(2));
    assert_eq!(enc.finish(), Err(SlipErrorCode::BufferFull));
}

#[test]
fn basic_buffer_put() {
    let mut b = BasicBuffer::<1>::new();
    assert_eq!(b.put(9), Ok(()));
    assert_eq!(b.put(10), Err(SlipErrorCode::BufferFull));
    assert_eq!(b.slice(), &[9]);
    b.reset();
    assert!(b.slice().is_empty());
}

#[test]
fn slip_error_from_code() {
    let e: SlipError = SlipErrorCode::BadEsc.into();
    assert_eq!(e, SlipError { pos: 0, code: SlipErrorCode::BadEsc });
}
