use expense_server::codec::{decode_mydata, decode_new_expense, enc_mydata_vec};
use expense_server::types::MyData;

#[test]
fn mydata_decodes_required_and_optional_fields() {
    let d = decode_mydata(&b"{\"foo\": 42, \"bar\": \"hi\"}".to_vec()).expect("well-formed");
    assert_eq!(d.foo, 42);
    assert_eq!(d.bar, Some(b"hi".to_vec()));
    let d2 = decode_mydata(&b"{\"foo\":0}".to_vec()).expect("bar may be absent");
    assert_eq!(d2.foo, 0);
    assert_eq!(d2.bar, None);
    let d3 = decode_mydata(&b"  { \"bar\" : null , \"foo\" : 7 }  ".to_vec()).expect("null bar");
    assert_eq!(d3.foo, 7);
    assert_eq!(d3.bar, None);
}

#[test]
fn mydata_ignores_unknown_scalar_fields() {
    let d = decode_mydata(&b"{\"foo\":1,\"extra\":true,\"other\":null}".to_vec())
        .expect("unknown scalar members are ignored");
    assert_eq!(d.foo, 1);
}

#[test]
fn mydata_missing_required_field_fails() {
    assert!(decode_mydata(&b"{\"bar\":\"hi\"}".to_vec()).is_err());
    assert!(decode_mydata(&b"{}".to_vec()).is_err());
}

#[test]
fn mydata_rejects_wrong_shapes() {
    assert!(decode_mydata(&b"{\"foo\":\"3\"}".to_vec()).is_err());
    assert!(decode_mydata(&b"{\"foo\":-3}".to_vec()).is_err());
    assert!(decode_mydata(&b"{\"foo\":3.5}".to_vec()).is_err());
    assert!(decode_mydata(&b"{\"foo\":3,\"bar\":7}".to_vec()).is_err());
    assert!(decode_mydata(&b"{\"foo\":99999999999999999999999999}".to_vec()).is_err());
}

#[test]
fn decoder_rejects_malformed_json() {
    assert!(decode_mydata(&b"".to_vec()).is_err());
    assert!(decode_mydata(&b"{\"foo\":3".to_vec()).is_err());
    assert!(decode_mydata(&b"{\"foo\":3} trailing".to_vec()).is_err());
    assert!(decode_mydata(&b"{foo:3}".to_vec()).is_err());
    assert!(decode_mydata(&b"{\"foo\":03}".to_vec()).is_err());
    assert!(decode_mydata(&b"[1,2]".to_vec()).is_err());
}

#[test]
fn string_escapes_decode_and_reencode() {
    let d = decode_mydata(&b"{\"foo\":1,\"bar\":\"a\\\"b\\\\c\\nd\"}".to_vec()).expect("escapes");
    assert_eq!(d.bar, Some(b"a\"b\\c\nd".to_vec()));
    let out = enc_mydata_vec(&d);
    assert_eq!(out, b"{\"foo\":1,\"bar\":\"a\\\"b\\\\c\\nd\"}".to_vec());
    let v: serde_json::Value = serde_json::from_slice(&out).expect("the encoding is JSON");
    assert_eq!(v["bar"], serde_json::Value::from("a\"b\\c\nd"));
}

#[test]
fn mydata_encoding_matches_serde() {
    let d = MyData { foo: 42, bar: Some(b"hi".to_vec()) };
    let out = enc_mydata_vec(&d);
    let v: serde_json::Value = serde_json::from_slice(&out).expect("the encoding is JSON");
    assert_eq!(v["foo"], serde_json::Value::from(42));
    assert_eq!(v["bar"], serde_json::Value::from("hi"));
    let none = MyData { foo: 0, bar: None };
    assert_eq!(enc_mydata_vec(&none), b"{\"foo\":0,\"bar\":null}".to_vec());
}

#[test]
fn string_values_must_be_well_formed_utf8() {
    let mut bad = b"{\"foo\":1,\"bar\":\"".to_vec();
    bad.push(0xff);
    bad.extend_from_slice(b"\"}");
    assert!(decode_mydata(&bad).is_err());
    assert!(serde_json::from_slice::<serde_json::Value>(&bad).is_err());
    let mut overlong = b"{\"foo\":1,\"bar\":\"".to_vec();
    overlong.extend_from_slice(&[0xc0, 0x80]);
    overlong.extend_from_slice(b"\"}");
    assert!(decode_mydata(&overlong).is_err());
    let mut truncated = b"{\"foo\":1,\"bar\":\"".to_vec();
    truncated.push(0xe2);
    truncated.extend_from_slice(b"\"}");
    assert!(decode_mydata(&truncated).is_err());
    let good = "{\"foo\":1,\"bar\":\"caf\u{e9} \u{2713}\"}".as_bytes().to_vec();
    let d = decode_mydata(&good).expect("well-formed UTF-8 passes");
    assert_eq!(d.bar, Some("caf\u{e9} \u{2713}".as_bytes().to_vec()));
}

#[test]
fn hex_escapes_decode_like_serde() {
    let d = decode_mydata(&b"{\"foo\":1,\"bar\":\"caf\\u00e9\"}".to_vec()).expect("hex escape");
    assert_eq!(d.bar, Some("caf\u{e9}".as_bytes().to_vec()));
    let pair = decode_mydata(&b"{\"foo\":1,\"bar\":\"\\ud83d\\ude00\"}".to_vec())
        .expect("surrogate pair");
    assert_eq!(pair.bar, Some("\u{1f600}".as_bytes().to_vec()));
    let v: serde_json::Value =
        serde_json::from_slice(b"{\"foo\":1,\"bar\":\"\\ud83d\\ude00\"}").expect("serde agrees");
    assert_eq!(v["bar"].as_str().map(|s| s.as_bytes().to_vec()), pair.bar);
    assert!(decode_mydata(&b"{\"foo\":1,\"bar\":\"\\ud83d\"}".to_vec()).is_err());
    assert!(decode_mydata(&b"{\"foo\":1,\"bar\":\"\\ude00\"}".to_vec()).is_err());
    assert!(decode_mydata(&b"{\"foo\":1,\"bar\":\"\\u12g4\"}".to_vec()).is_err());
    let nul = decode_mydata(&b"{\"foo\":1,\"bar\":\"\\u0001\"}".to_vec()).expect("control escape");
    assert_eq!(nul.bar, Some(vec![1u8]));
    assert_eq!(enc_mydata_vec(&nul), b"{\"foo\":1,\"bar\":\"\\u0001\"}".to_vec());
}

#[test]
fn exponent_numbers_are_valid_amounts() {
    let n = decode_new_expense(&b"{\"name\":\"Bulk\",\"amount\":1e3}".to_vec()).expect("exponent");
    assert_eq!(n.amount, b"1e3".to_vec());
    let n2 = decode_new_expense(&b"{\"name\":\"Bulk\",\"amount\":2.5E-1}".to_vec()).expect("signed");
    assert_eq!(n2.amount, b"2.5E-1".to_vec());
    assert!(decode_new_expense(&b"{\"name\":\"Bulk\",\"amount\":1e}".to_vec()).is_err());
    assert!(decode_new_expense(&b"{\"name\":\"Bulk\",\"amount\":1e+}".to_vec()).is_err());
    assert!(decode_mydata(&b"{\"foo\":1e3}".to_vec()).is_err());
}

#[test]
fn new_expense_keeps_the_amount_token_exactly() {
    let n = decode_new_expense(&b"{\"name\":\"Coffee\",\"amount\":3.50}".to_vec()).expect("ok");
    assert_eq!(n.name, b"Coffee".to_vec());
    assert_eq!(n.amount, b"3.50".to_vec());
    let neg = decode_new_expense(&b"{\"name\":\"Refund\",\"amount\":-12.75}".to_vec()).expect("ok");
    assert_eq!(neg.amount, b"-12.75".to_vec());
}

#[test]
fn new_expense_rejects_missing_or_mistyped_fields() {
    assert!(decode_new_expense(&b"{\"name\":\"Coffee\"}".to_vec()).is_err());
    assert!(decode_new_expense(&b"{\"amount\":3.5}".to_vec()).is_err());
    assert!(decode_new_expense(&b"{\"name\":7,\"amount\":3.5}".to_vec()).is_err());
    assert!(decode_new_expense(&b"{\"name\":\"Coffee\",\"amount\":\"3.5\"}".to_vec()).is_err());
    assert!(decode_new_expense(&b"{\"name\":\"Coffee\",\"amount\":3.}".to_vec()).is_err());
}
