use std::collections::BTreeMap;

use mas_core::filters::{b64decode, b64encode, choose_decoding, tlvdecode, FilterError};
use minijinja::{Environment, Error, ErrorKind, Value};

fn refused(e: FilterError) -> Error {
    Error::new(ErrorKind::InvalidOperation, e.message())
}

fn b64decode_filter(value: &str) -> Result<Value, Error> {
    Ok(Value::from_bytes(b64decode(value).map_err(refused)?))
}

fn b64encode_filter(bytes: &[u8]) -> String {
    b64encode(bytes)
}

fn tlvdecode_filter(bytes: &[u8]) -> Result<BTreeMap<Value, Value>, Error> {
    let map = tlvdecode(bytes).map_err(refused)?;
    Ok(map
        .into_iter()
        .map(|(tag, value)| (Value::from(tag), Value::from_bytes(value)))
        .collect())
}

fn string_filter(value: &Value) -> String {
    value.to_string()
}

fn environment() -> Environment<'static> {
    let mut env = Environment::new();
    minijinja_contrib::add_to_environment(&mut env);
    env.add_filter("b64decode", b64decode_filter);
    env.add_filter("b64encode", b64encode_filter);
    env.add_filter("tlvdecode", tlvdecode_filter);
    env.add_filter("string", string_filter);
    env.set_unknown_method_callback(minijinja_contrib::pycompat::unknown_method_callback);
    env
}

#[test]
fn test_split() {
    let env = environment();
    let res = env
        .render_str(r#"{{ 'foo, bar' | split(', ') | join(" | ") }}"#, ())
        .unwrap();
    assert_eq!(res, "foo | bar");
}

#[test]
fn test_ilvdecode() {
    let env = environment();
    let res = env
        .render_str(
            r#"
                    {%- set tlv = 'Cg0wLTM4NS0yODA4OS0wEgRtb2Nr' | b64decode | tlvdecode -%}
                    {%- if tlv[18]|string != 'mock' -%}
                        {{ "FAIL"/0 }}
                    {%- endif -%}
                    {{- tlv[10]|string -}}
                "#,
            (),
        )
        .unwrap();
    assert_eq!(res, "0-385-28089-0");
}

#[test]
fn test_base64_decode() {
    let env = environment();

    let res = env
        .render_str("{{ 'cGFkZGluZw==' | b64decode }}", ())
        .unwrap();
    assert_eq!(res, "padding");

    let res = env
        .render_str("{{ 'dW5wYWRkZWQ' | b64decode }}", ())
        .unwrap();
    assert_eq!(res, "unpadded");
}

#[test]
fn filters_fail_the_rendering_on_bad_input() {
    let env = environment();
    assert!(env.render_str("{{ '!!!' | b64decode }}", ()).is_err());
    assert!(env.render_str("{{ 'AQ==' | b64decode | tlvdecode }}", ()).is_err());
    assert_eq!(env.render_str("{{ 'cGFkZGluZw==' | b64decode | b64encode }}", ()).unwrap(), "cGFkZGluZw==");
}

#[test]
fn b64decode_gives_the_bytes() {
    let res = b64decode("cGFkZGluZw==").unwrap();
    assert_eq!(String::from_utf8(res).unwrap(), "padding");

    let res = b64decode("dW5wYWRkZWQ").unwrap();
    assert_eq!(String::from_utf8(res).unwrap(), "unpadded");
}

#[test]
fn tlvdecode_gives_the_map() {
    let bytes = b64decode("Cg0wLTM4NS0yODA4OS0wEgRtb2Nr").unwrap();
    let tlv = tlvdecode(&bytes).unwrap();
    assert_eq!(String::from_utf8(tlv[&18].clone()).unwrap(), "mock");
    let res = String::from_utf8(tlv[&10].clone()).unwrap();
    assert_eq!(res, "0-385-28089-0");
    assert_eq!(tlv.len(), 2);
}

#[test]
fn b64decode_takes_each_variant() {
    // standard alphabet, padded
    assert_eq!(b64decode("+/8="), Ok(vec![0xfb, 0xff]));
    // URL-safe alphabet, padded
    assert_eq!(b64decode("-_8="), Ok(vec![0xfb, 0xff]));
    // standard alphabet, unpadded
    assert_eq!(b64decode("+/8"), Ok(vec![0xfb, 0xff]));
    // URL-safe alphabet, unpadded
    assert_eq!(b64decode("-_8"), Ok(vec![0xfb, 0xff]));
    assert_eq!(b64decode(""), Ok(vec![]));
}

#[test]
fn b64decode_refuses_what_is_not_base64() {
    assert_eq!(b64decode("not base64!"), Err(FilterError::InvalidBase64));
    assert_eq!(b64decode("a"), Err(FilterError::InvalidBase64));
    assert_eq!(b64decode("+_8="), Err(FilterError::InvalidBase64));
    assert_eq!(FilterError::InvalidBase64.message(), "Failed to decode base64 string");
}

#[test]
fn choose_decoding_prefers_the_earlier_variant() {
    assert_eq!(choose_decoding(Some(vec![1]), Some(vec![2]), Some(vec![3]), Some(vec![4])), Ok(vec![1]));
    assert_eq!(choose_decoding(None, Some(vec![2]), Some(vec![3]), Some(vec![4])), Ok(vec![2]));
    assert_eq!(choose_decoding(None, None, Some(vec![3]), Some(vec![4])), Ok(vec![3]));
    assert_eq!(choose_decoding(None, None, None, Some(vec![4])), Ok(vec![4]));
    assert_eq!(choose_decoding(None, None, None, None), Err(FilterError::InvalidBase64));
}

#[test]
fn b64encode_pads() {
    assert_eq!(b64encode(b"padding"), "cGFkZGluZw==");
    assert_eq!(b64encode(b""), "");
    assert_eq!(b64encode(&[0xfb, 0xff]), "+/8=");
}

#[test]
fn tlvdecode_reads_entries() {
    let map = tlvdecode(&[1, 2, 10, 20, 7, 0, 3, 1, 99]).unwrap();
    assert_eq!(map.len(), 3);
    assert_eq!(map[&1], vec![10, 20]);
    assert_eq!(map[&7], Vec::<u8>::new());
    assert_eq!(map[&3], vec![99]);
    assert!(tlvdecode(&[]).unwrap().is_empty());
}

#[test]
fn tlvdecode_keeps_the_last_value_of_a_tag() {
    let map = tlvdecode(&[5, 1, 1, 5, 2, 2, 3]).unwrap();
    assert_eq!(map.len(), 1);
    assert_eq!(map[&5], vec![2, 3]);
}

#[test]
fn tlvdecode_refuses_a_truncated_entry() {
    assert_eq!(tlvdecode(&[1]), Err(FilterError::InvalidTlv));
    assert_eq!(tlvdecode(&[1, 1]), Err(FilterError::InvalidTlv));
    assert_eq!(tlvdecode(&[1, 0, 2, 3, 0, 0]), Err(FilterError::InvalidTlv));
    assert_eq!(tlvdecode(&[1, 255, 0]), Err(FilterError::InvalidTlv));
    assert_eq!(FilterError::InvalidTlv.message(), "Invalid ILV encoding");
}
