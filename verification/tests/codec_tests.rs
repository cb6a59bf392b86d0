use pc_audio_mixer::codec::{decode, DecodeError};

#[test]
fn decodes_compact_line() {
    let d = decode(b"{\"pot1\":123,\"pot2\":456,\"pot3\":789}").unwrap();
    assert_eq!(d.pot1, 123);
    assert_eq!(d.pot2, 456);
    assert_eq!(d.pot3, 789);
}

#[test]
fn decodes_zeros() {
    let d = decode(b"{\"pot1\":0,\"pot2\":0,\"pot3\":0}").unwrap();
    assert_eq!((d.pot1, d.pot2, d.pot3), (0, 0, 0));
}

#[test]
fn decodes_full_scale_values() {
    let d = decode(b"{\"pot1\":4095,\"pot2\":4095,\"pot3\":4095}").unwrap();
    assert_eq!((d.pot1, d.pot2, d.pot3), (4095, 4095, 4095));
}

#[test]
fn decodes_largest_field_value() {
    let d = decode(b"{\"pot1\":65535,\"pot2\":0,\"pot3\":1}").unwrap();
    assert_eq!((d.pot1, d.pot2, d.pot3), (65535, 0, 1));
}

#[test]
fn decodes_with_blanks_between_tokens() {
    let d = decode(b" { \"pot1\" : 1 , \"pot2\" : 2 , \"pot3\" : 3 } ").unwrap();
    assert_eq!((d.pot1, d.pot2, d.pot3), (1, 2, 3));
}

#[test]
fn decodes_with_trailing_carriage_return() {
    let d = decode(b"{\"pot1\":7,\"pot2\":8,\"pot3\":9}\r").unwrap();
    assert_eq!((d.pot1, d.pot2, d.pot3), (7, 8, 9));
}

#[test]
fn rejects_value_beyond_field_range() {
    assert_eq!(
        decode(b"{\"pot1\":65536,\"pot2\":0,\"pot3\":0}"),
        Err(DecodeError::ValueOutOfRange)
    );
}

#[test]
fn rejects_missing_field() {
    assert_eq!(decode(b"{\"pot1\":1,\"pot2\":2}"), Err(DecodeError::Malformed));
}

#[test]
fn rejects_non_numeric_value() {
    assert_eq!(
        decode(b"{\"pot1\":a,\"pot2\":2,\"pot3\":3}"),
        Err(DecodeError::Malformed)
    );
}

#[test]
fn rejects_trailing_garbage() {
    assert_eq!(
        decode(b"{\"pot1\":1,\"pot2\":2,\"pot3\":3}x"),
        Err(DecodeError::Malformed)
    );
}

#[test]
fn rejects_leading_zero() {
    assert_eq!(
        decode(b"{\"pot1\":01,\"pot2\":2,\"pot3\":3}"),
        Err(DecodeError::Malformed)
    );
}

#[test]
fn rejects_negative_value() {
    assert_eq!(
        decode(b"{\"pot1\":-1,\"pot2\":2,\"pot3\":3}"),
        Err(DecodeError::Malformed)
    );
}

#[test]
fn rejects_empty_line() {
    assert_eq!(decode(b""), Err(DecodeError::Malformed));
}

#[test]
fn rejects_fields_out_of_order() {
    assert_eq!(
        decode(b"{\"pot2\":2,\"pot1\":1,\"pot3\":3}"),
        Err(DecodeError::Malformed)
    );
}

#[test]
fn rejects_unterminated_object() {
    assert_eq!(
        decode(b"{\"pot1\":1,\"pot2\":2,\"pot3\":3"),
        Err(DecodeError::Malformed)
    );
}
