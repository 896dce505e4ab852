use bytes::BytesMut;
use chunked_bytes::decode::{
    at_end_of_input, DecodeError, DecoderState, TextDecoder, Utf16Decoder, Utf8Decoder,
};
use chunked_bytes::encode::{EncodeError, TextEncoder, Utf16Encoder, Utf8Encoder};
use chunked_bytes::read::{ReadStep, ReaderState};
use chunked_bytes::utf16::{
    decode_utf16_unit, encode_utf16_char, BigEndian, ByteOrder, Decoded, LittleEndian,
};
use chunked_bytes::write::{Started, WriterState};
use chunked_bytes::ChunkedBytes;
use strchunk::StrChunk;

#[test]
fn utf8_decoder_takes_the_valid_prefix() {
    let mut decoder = Utf8Decoder::new();
    let mut src = BytesMut::from(&b"\xd0\x97\xd0\xb4\xd1\x80\xd0\xb0\xd0"[..]);
    let text = decoder.decode(&mut src).expect("the input is valid so far");
    assert_eq!(text.as_str(), "\u{417}\u{434}\u{440}\u{430}");
    assert_eq!(&src[..], b"\xd0");
    src.extend_from_slice(b"\xb2!");
    let more = decoder.decode(&mut src).expect("the sequence is complete now");
    assert_eq!(more.as_str(), "\u{432}!");
    assert!(src.is_empty());
    let nothing = decoder.decode(&mut src).expect("no input is valid input");
    assert!(nothing.is_empty());
}

#[test]
fn utf8_decoder_reports_an_invalid_sequence() {
    let mut decoder = Utf8Decoder::new();
    let mut src = BytesMut::from(&b"ab\xffcd"[..]);
    match decoder.decode(&mut src) {
        Err(DecodeError::Encoding(info)) => {
            assert_eq!(info.skip_len(), Some(1));
            assert_eq!(info.into_decoded().as_str(), "ab");
        }
        other => panic!("expected an encoding error, got {:?}", other),
    }
    assert_eq!(&src[..], b"\xffcd");
}

#[test]
fn utf8_decoder_at_end_of_input() {
    let mut decoder = Utf8Decoder::new();
    let mut complete = BytesMut::from(&b"done"[..]);
    assert_eq!(decoder.decode_eof(&mut complete).expect("complete").as_str(), "done");
    let mut cut = BytesMut::from(&b"cut\xe2\x82"[..]);
    match decoder.decode_eof(&mut cut) {
        Err(DecodeError::Encoding(info)) => {
            assert_eq!(info.skip_len(), None);
            assert_eq!(info.into_decoded().as_str(), "cut");
        }
        other => panic!("expected an incomplete input, got {:?}", other),
    }
    assert_eq!(&cut[..], b"\xe2\x82");
}

#[test]
fn end_of_input_passes_errors_on() {
    let error = DecodeError::with_recovery(StrChunk::from_static("a"), 2);
    let failed = at_end_of_input(Err(error), true);
    match failed {
        Err(DecodeError::Encoding(info)) => assert_eq!(info.skip_len(), Some(2)),
        other => panic!("expected the error, got {:?}", other),
    }
    let text = at_end_of_input(Ok(StrChunk::from_static("text")), true);
    assert_eq!(text.expect("complete").as_str(), "text");
    match at_end_of_input(Ok(StrChunk::from_static("text")), false) {
        Err(DecodeError::Encoding(info)) => {
            assert_eq!(info.skip_len(), None);
            assert_eq!(info.into_decoded().as_str(), "text");
        }
        other => panic!("expected an incomplete input, got {:?}", other),
    }
}

#[test]
fn decode_error_sources() {
    let io = std::io::Error::new(std::io::ErrorKind::UnexpectedEof, "gone");
    let err = DecodeError::from(io);
    assert_eq!(err.source().map(|e| e.kind()), Some(std::io::ErrorKind::UnexpectedEof));
    let incomplete = DecodeError::incomplete_input(StrChunk::new());
    assert!(incomplete.source().is_none());
}

#[test]
fn encode_error_sources() {
    let io = std::io::Error::new(std::io::ErrorKind::BrokenPipe, "closed");
    let err = EncodeError::from(io);
    assert_eq!(err.source().map(|e| e.kind()), Some(std::io::ErrorKind::BrokenPipe));
    let odd = EncodeError::Unrepresentable('\u{1F5A4}');
    assert!(odd.source().is_none());
    assert!(matches!(odd, EncodeError::Unrepresentable('\u{1F5A4}')));
}

#[test]
fn utf8_encoder_hands_the_text_over_without_copying() {
    let mut encoder = Utf8Encoder {};
    let mut output = ChunkedBytes::with_chunk_size_hint(8);
    output.put_slice(b"> ");
    let mut input = StrChunk::from(String::from("a text that is longer than a chunk"));
    let ptr = input.as_str().as_ptr();
    assert!(encoder.encode(&mut input, &mut output).is_ok());
    assert!(input.is_empty());
    assert!(encoder.encode(&mut input, &mut output).is_ok());
    assert!(encoder.encode_eof(&mut output).is_ok());
    let mut chunks = output.into_chunks();
    assert_eq!(chunks.len(), 2);
    assert_eq!(chunks.next().as_deref(), Some(&b"> "[..]));
    let text = chunks.next().expect("the text is the second chunk");
    assert_eq!(text.as_ptr(), ptr);
    assert_eq!(&text[..], b"a text that is longer than a chunk");
}

#[test]
fn utf16_encoder_writes_code_units_in_byte_order() {
    let mut big = Utf16Encoder::<BigEndian>::new();
    let mut output = ChunkedBytes::with_chunk_size_hint(64);
    let mut input = StrChunk::from_static("a\u{20AC}\u{1F5A4}z");
    while !input.is_empty() {
        assert!(big.encode(&mut input, &mut output).is_ok());
    }
    assert_eq!(
        &output.to_bytes()[..],
        &[0x00, 0x61, 0x20, 0xAC, 0xD8, 0x3D, 0xDD, 0xA4, 0x00, 0x7A][..]
    );

    let mut little = Utf16Encoder::<LittleEndian>::new();
    let mut input = StrChunk::from_static("a\u{20AC}\u{1F5A4}z");
    while !input.is_empty() {
        assert!(little.encode(&mut input, &mut output).is_ok());
    }
    assert!(little.encode(&mut input, &mut output).is_ok());
    assert!(little.encode_eof(&mut output).is_ok());
    assert_eq!(
        &output.to_bytes()[..],
        &[0x61, 0x00, 0xAC, 0x20, 0x3D, 0xD8, 0xA4, 0xDD, 0x7A, 0x00][..]
    );
}

#[test]
fn utf16_encoder_stops_where_the_room_ends() {
    let text: String = "\u{1F310}x".repeat(500);
    let mut encoder = Utf16Encoder::<BigEndian>::new();
    let mut output = ChunkedBytes::with_chunk_size_hint(8);
    let mut input = StrChunk::from(text.clone());
    assert!(encoder.encode(&mut input, &mut output).is_ok());
    assert!(!input.is_empty());
    assert!(input.len() < text.len());
    assert!(text.ends_with(input.as_str()));
    let encoded = text.len() - input.len();
    let units: usize = text[..encoded].chars().map(|c| c.len_utf16()).sum();
    assert_eq!(output.remaining(), 2 * units);
    let mut rounds = 1;
    while !input.is_empty() {
        let before = input.len();
        assert!(encoder.encode(&mut input, &mut output).is_ok());
        assert!(input.len() < before);
        rounds += 1;
    }
    assert!(rounds > 1);
    let mut expected: Vec<u8> = Vec::new();
    for unit in text.encode_utf16() {
        expected.extend_from_slice(&unit.to_be_bytes());
    }
    assert_eq!(&output.to_bytes()[..], &expected[..]);
}

#[test]
fn utf16_code_units_of_characters() {

    assert_eq!(encode_utf16_char('\0'), (0, None));
    assert_eq!(encode_utf16_char('A'), (0x41, None));
    assert_eq!(encode_utf16_char('\u{D7FF}'), (0xD7FF, None));
    assert_eq!(encode_utf16_char('\u{E000}'), (0xE000, None));
    assert_eq!(encode_utf16_char('\u{FFFF}'), (0xFFFF, None));
    assert_eq!(encode_utf16_char('\u{10000}'), (0xD800, Some(0xDC00)));
    assert_eq!(encode_utf16_char('\u{1F5A4}'), (0xD83D, Some(0xDDA4)));
    assert_eq!(encode_utf16_char('\u{10FFFF}'), (0xDBFF, Some(0xDFFF)));

    assert_eq!(decode_utf16_unit(None, 0x41), Decoded::Char('A'));
    assert_eq!(decode_utf16_unit(None, 0xFFFF), Decoded::Char('\u{FFFF}'));
    assert_eq!(decode_utf16_unit(None, 0xD83D), Decoded::Pending(0xD83D));
    assert_eq!(decode_utf16_unit(Some(0xD83D), 0xDDA4), Decoded::Char('\u{1F5A4}'));
    assert_eq!(decode_utf16_unit(Some(0xDBFF), 0xDFFF), Decoded::Char('\u{10FFFF}'));
    assert_eq!(decode_utf16_unit(Some(0xD800), 0xDC00), Decoded::Char('\u{10000}'));
    assert_eq!(decode_utf16_unit(None, 0xDC00), Decoded::Invalid(2));
    assert_eq!(decode_utf16_unit(None, 0xDFFF), Decoded::Invalid(2));
    assert_eq!(decode_utf16_unit(Some(0xD83D), 0x41), Decoded::Invalid(0));
    assert_eq!(decode_utf16_unit(Some(0xD83D), 0xD83D), Decoded::Invalid(0));
    for c in ['\0', 'x', '\u{7FF}', '\u{800}', '\u{FFFD}', '\u{10000}', '\u{2F800}', '\u{10FFFF}'] {
        let decoded = match encode_utf16_char(c) {
            (unit, None) => decode_utf16_unit(None, unit),
            (lead, Some(trail)) => {
                assert_eq!(decode_utf16_unit(None, lead), Decoded::Pending(lead));
                decode_utf16_unit(Some(lead), trail)
            }
        };
        assert_eq!(decoded, Decoded::Char(c));
    }
}

#[test]
fn byte_orders_of_code_units() {

    assert_eq!(BigEndian::write_u16(0x1234), [0x12, 0x34]);
    assert_eq!(LittleEndian::write_u16(0x1234), [0x34, 0x12]);
    assert_eq!(BigEndian::read_u16(0x12, 0x34), 0x1234);
    assert_eq!(LittleEndian::read_u16(0x12, 0x34), 0x3412);
    assert_eq!(BigEndian::read_u16(0xFF, 0x00), 0xFF00);
    assert_eq!(LittleEndian::write_u16(0x00FF), [0xFF, 0x00]);
}

#[test]
fn writer_and_reader_decisions() {

    let mut reader = ReaderState::new();
    assert_eq!(reader.next_step(), ReadStep::Read);
    assert_eq!(reader.after_read(5), ReadStep::Decode);
    assert!(!reader.eof);
    assert!(ReaderState::yields(false));
    assert!(!ReaderState::yields(true));
    assert_eq!(reader.after_read(0), ReadStep::Finish);
    assert!(reader.eof);
    assert_eq!(reader.next_step(), ReadStep::Finish);

    let mut writer = WriterState::new(ChunkedBytes::with_chunk_size_hint(4));
    assert!(writer.at_end_of_text());
    assert!(!writer.buf_filled());
    assert!(matches!(writer.start(StrChunk::from_static("one")), Started::Ready));
    assert!(!writer.at_end_of_text());
    match writer.start(StrChunk::from_static("two")) {
        Started::NotReady(back) => assert_eq!(back.as_str(), "two"),
        Started::Ready => panic!("the writer is busy"),
    }
    assert_eq!(writer.remaining_str.as_str(), "one");
    writer.encoded_buf.put_slice(b"one");
    writer.remaining_str = StrChunk::new();
    assert!(!writer.buf_filled());
    assert!(!writer.try_end());
    writer.encoded_buf.put_slice(b"!");
    assert!(writer.buf_filled());
    writer.encoded_buf.advance(4);
    assert!(writer.try_end());
    writer.eof_encoded = true;
    assert!(!writer.at_end_of_text());
}

#[test]
fn utf16_decoder_reads_code_units_in_byte_order() {
    let mut big = Utf16Decoder::<BigEndian>::new();
    let mut src = BytesMut::from(&[0x00, 0x61, 0x20, 0xAC, 0xD8, 0x3D, 0xDD, 0xA4, 0x00, 0x7A][..]);
    let text = big.decode(&mut src).expect("the input is valid");
    assert_eq!(text.as_str(), "a\u{20AC}\u{1F5A4}z");
    assert!(src.is_empty());

    let mut little = Utf16Decoder::<LittleEndian>::new();
    let mut src = BytesMut::from(&[0x61, 0x00, 0xAC, 0x20, 0x3D, 0xD8, 0xA4, 0xDD, 0x7A, 0x00][..]);
    let text = little.decode(&mut src).expect("the input is valid");
    assert_eq!(text.as_str(), "a\u{20AC}\u{1F5A4}z");
    assert!(src.is_empty());
    assert!(little.decode(&mut src).expect("no input is valid input").is_empty());
}

#[test]
fn utf16_decoder_keeps_what_is_cut() {
    let mut decoder = Utf16Decoder::<BigEndian>::new();
    let mut src = BytesMut::from(&[0x00, 0x41, 0xD8, 0x3D, 0xDD][..]);
    let text = decoder.decode(&mut src).expect("valid so far");
    assert_eq!(text.as_str(), "A");
    assert_eq!(&src[..], &[0xDD][..]);
    src.extend_from_slice(&[0xA4, 0x00]);
    let text = decoder.decode(&mut src).expect("the pair is complete");
    assert_eq!(text.as_str(), "\u{1F5A4}");
    assert_eq!(&src[..], &[0x00][..]);
    match decoder.decode_eof(&mut src) {
        Err(DecodeError::Encoding(info)) => {
            assert_eq!(info.skip_len(), None);
            assert!(info.into_decoded().is_empty());
        }
        other => panic!("expected an incomplete input, got {:?}", other),
    }
    src.extend_from_slice(&[0x42]);
    assert_eq!(decoder.decode_eof(&mut src).expect("complete").as_str(), "B");
}

#[test]
fn utf16_decoder_reports_units_out_of_place() {
    let mut decoder = Utf16Decoder::<BigEndian>::new();
    let mut src = BytesMut::from(&[0x00, 0x41, 0xDC, 0x00, 0x00, 0x42][..]);
    match decoder.decode(&mut src) {
        Err(DecodeError::Encoding(info)) => {
            assert_eq!(info.skip_len(), Some(2));
            assert_eq!(info.into_decoded().as_str(), "A");
        }
        other => panic!("expected an encoding error, got {:?}", other),
    }
    assert_eq!(&src[..], &[0xDC, 0x00, 0x00, 0x42][..]);
    let _ = src.split_to(2);
    assert_eq!(decoder.decode(&mut src).expect("valid").as_str(), "B");

    let mut src = BytesMut::from(&[0x00, 0x43, 0xD8, 0x00, 0x00, 0x44][..]);
    match decoder.decode(&mut src) {
        Err(DecodeError::Encoding(info)) => {
            assert_eq!(info.skip_len(), Some(0));
            assert_eq!(info.into_decoded().as_str(), "C");
        }
        other => panic!("expected an encoding error, got {:?}", other),
    }
    assert_eq!(&src[..], &[0x00, 0x44][..]);
    assert_eq!(decoder.decode(&mut src).expect("valid").as_str(), "D");
}

#[test]
fn decoder_state_steps() {
    let mut state = DecoderState::new();
    assert!(state.decode_step(0x48).is_ok());
    assert!(state.decode_step(0xD83D).is_ok());
    assert!(state.decode_step(0xDDA4).is_ok());
    assert_eq!(state.take_decoded().as_str(), "H\u{1F5A4}");
    assert!(state.take_decoded().is_empty());
    assert!(state.decode_step(0x69).is_ok());
    match state.decode_step(0xDFFF) {
        Err(DecodeError::Encoding(info)) => {
            assert_eq!(info.skip_len(), Some(2));
            assert_eq!(info.into_decoded().as_str(), "i");
        }
        other => panic!("expected an encoding error, got {:?}", other),
    }
    assert!(state.take_decoded().is_empty());
}

#[test]
fn utf16_round_trip_through_the_buffer() {
    let text = "UTF-16 \u{2014} \u{3053}\u{3093}\u{306B}\u{3061}\u{306F} \u{1F310}\u{10FFFF}";
    let mut encoder = Utf16Encoder::<LittleEndian>::new();
    let mut output = ChunkedBytes::with_chunk_size_hint(5);
    let mut input = StrChunk::from(String::from(text));
    while !input.is_empty() {
        assert!(encoder.encode(&mut input, &mut output).is_ok());
    }
    let mut decoder = Utf16Decoder::<LittleEndian>::new();
    let mut decoded = String::new();
    let mut src = BytesMut::new();
    while output.has_remaining() {
        let front = output.chunk();
        let n = front.len().min(3);
        src.extend_from_slice(&front[..n]);
        output.advance(n);
        decoded.push_str(decoder.decode(&mut src).expect("valid").as_str());
    }
    assert!(src.is_empty());
    assert_eq!(decoded, text);
}

#[test]
fn error_messages() {
    assert_eq!(
        DecodeError::with_recovery(StrChunk::new(), 1).message(),
        "invalid encoding sequence in input"
    );
    assert_eq!(
        DecodeError::incomplete_input(StrChunk::new()).message(),
        "incomplete encoding sequence in input"
    );
    let io = std::io::Error::new(std::io::ErrorKind::Other, "the disk is gone");
    assert_eq!(DecodeError::from(io).message(), "the disk is gone");
    let io = std::io::Error::new(std::io::ErrorKind::Other, "the pipe is closed");
    assert_eq!(EncodeError::from(io).message(), "the pipe is closed");
    assert_eq!(
        EncodeError::Unrepresentable('A').message(),
        "Unicode character U+0041 cannot be represented in this encoding"
    );
    assert_eq!(
        EncodeError::Unrepresentable('\0').message(),
        "Unicode character U+0000 cannot be represented in this encoding"
    );
    assert_eq!(
        EncodeError::Unrepresentable('\u{20AC}').message(),
        "Unicode character U+20AC cannot be represented in this encoding"
    );
    assert_eq!(
        EncodeError::Unrepresentable('\u{1F5A4}').message(),
        "Unicode character U+1F5A4 cannot be represented in this encoding"
    );
    assert_eq!(
        EncodeError::Unrepresentable('\u{10FFFF}').message(),
        "Unicode character U+10FFFF cannot be represented in this encoding"
    );
    assert_eq!(
        EncodeError::Unrepresentable('\u{FFFF}').message(),
        format!("Unicode character U+{:04X} cannot be represented in this encoding", 0xFFFF)
    );
}

#[test]
fn utf8_decoder_takes_no_more_than_what_is_valid() {
    let mut overlong = BytesMut::from(&b"x\xe0\x80\x80y"[..]);
    match Utf8Decoder::decode_utf8(&mut overlong) {
        Err(DecodeError::Encoding(info)) => {
            assert_eq!(info.skip_len(), Some(1));
            assert_eq!(info.into_decoded().as_str(), "x");
        }
        other => panic!("expected an encoding error, got {:?}", other),
    }
    assert_eq!(&overlong[..], b"\xe0\x80\x80y");

    let mut surrogate = BytesMut::from(&b"\xed\xa0\x80"[..]);
    match Utf8Decoder::decode_utf8(&mut surrogate) {
        Err(DecodeError::Encoding(info)) => {
            assert_eq!(info.skip_len(), Some(1));
            assert!(info.into_decoded().is_empty());
        }
        other => panic!("expected an encoding error, got {:?}", other),
    }
    assert_eq!(surrogate.len(), 3);

    let mut whole = BytesMut::from("a\u{e9}\u{20ac}\u{1f600}".as_bytes());
    let text = Utf8Decoder::decode_utf8(&mut whole).expect("the input is valid");
    assert_eq!(text.as_str(), "a\u{e9}\u{20ac}\u{1f600}");
    assert!(whole.is_empty());
}
