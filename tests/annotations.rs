use vrpc_reflection::annotations::{
    find_field_options, find_id_options, find_service_options, DecodeError,
};
use vrpc_reflection::defs::FixedPointType;
use vrpc_reflection::raw::{UnknownField, UnknownValue};

fn annotation(bytes: Vec<u8>) -> UnknownField {
    UnknownField { number: 1020, value: UnknownValue::LengthDelimited(bytes) }
}

fn text_field(tag: u8, s: &str) -> Vec<u8> {
    let mut v = vec![tag, s.len() as u8];
    v.extend_from_slice(s.as_bytes());
    v
}

#[test]
fn no_payload_means_no_annotation() {
    let opts = vec![UnknownField { number: 7, value: UnknownValue::Varint(3) }];
    assert_eq!(find_id_options(&opts), Ok(None));
    assert_eq!(find_id_options(&vec![]), Ok(None));
    let other = vec![UnknownField { number: 1020, value: UnknownValue::Varint(3) }];
    assert_eq!(find_id_options(&other), Ok(None));
}

#[test]
fn id_annotation_reads_multi_byte_varint() {
    // 300 = 0b1_0010_1100: 0xAC 0x02
    let opts = vec![annotation(vec![0x08, 0xAC, 0x02])];
    assert_eq!(find_id_options(&opts), Ok(Some(300)));
}

#[test]
fn empty_payload_gives_defaults() {
    let opts = vec![annotation(vec![])];
    assert_eq!(find_id_options(&opts), Ok(Some(0)));
}

#[test]
fn later_payloads_merge_over_earlier_ones() {
    let opts = vec![annotation(vec![0x08, 0x05]), annotation(vec![0x08, 0x09])];
    assert_eq!(find_id_options(&opts), Ok(Some(9)));
    let mut svc = vec![0x08, 0x04];
    svc.extend(text_field(0x1a, "gain"));
    let opts = vec![annotation(svc), annotation(vec![0x10, 0x01])];
    let o = find_service_options(&opts).unwrap().unwrap();
    assert_eq!(o.id, 4);
    assert_eq!(o.kind, 1);
    assert_eq!(o.identifier, "gain");
    assert_eq!(o.display_name, "");
}

#[test]
fn unknown_fields_in_a_payload_are_skipped() {
    // field 5 as a varint, field 6 length-delimited, field 7 fixed32, then the id
    let opts = vec![annotation(vec![
        0x28, 0x96, 0x01, 0x32, 0x02, 0x61, 0x62, 0x3d, 1, 2, 3, 4, 0x08, 0x07,
    ])];
    assert_eq!(find_id_options(&opts), Ok(Some(7)));
}

#[test]
fn malformed_payload_is_a_decode_error() {
    // a varint that never ends
    assert_eq!(find_id_options(&vec![annotation(vec![0x08, 0x80])]), Err(DecodeError));
    // field number zero
    assert_eq!(find_id_options(&vec![annotation(vec![0x00, 0x01])]), Err(DecodeError));
    // wire type 7
    assert_eq!(find_id_options(&vec![annotation(vec![0x0f, 0x01])]), Err(DecodeError));
    // a string that runs past the end
    assert_eq!(
        find_service_options(&vec![annotation(vec![0x1a, 0x05, 0x61])]).map(|o| o.is_some()),
        Err(DecodeError)
    );
    // invalid UTF-8 in a string
    assert_eq!(
        find_field_options(&vec![annotation(vec![0x12, 0x01, 0xff])]).map(|o| o.is_some()),
        Err(DecodeError)
    );
    // a bad payload anywhere fails the whole node
    let opts = vec![annotation(vec![0x08, 0x01]), annotation(vec![0x08])];
    assert_eq!(find_id_options(&opts), Err(DecodeError));
}

#[test]
fn field_annotation_with_fixed_point_unit_and_description() {
    // fp { ufixq { w: 16, f: 8, q: -2 } }, unit "V", description "volts"
    let ufixq = vec![0x08, 16, 0x10, 8, 0x18, 0xfe, 0xff, 0xff, 0xff, 0xff, 0xff, 0xff, 0xff, 0xff, 0x01];
    let mut fp = vec![0x12, ufixq.len() as u8];
    fp.extend(ufixq);
    let mut payload = vec![0x0a, fp.len() as u8];
    payload.extend(fp);
    payload.extend(text_field(0x12, "V"));
    payload.extend(text_field(0x1a, "volts"));
    let o = find_field_options(&vec![annotation(payload)]).unwrap().unwrap();
    assert_eq!(o.fixed_point, Some(FixedPointType::UFixQ(16, 8, -2)));
    assert_eq!(o.unit, "V");
    assert_eq!(o.description, "volts");
}

#[test]
fn field_annotation_with_unsigned_fixed_point() {
    let payload = vec![0x0a, 0x06, 0x0a, 0x04, 0x08, 12, 0x10, 4];
    let o = find_field_options(&vec![annotation(payload)]).unwrap().unwrap();
    assert_eq!(o.fixed_point, Some(FixedPointType::UFix(12, 4)));
    assert_eq!(o.unit, "");
}

#[test]
fn int32_shift_out_of_range_is_a_decode_error() {
    // q = 2^31 does not fit in 32 signed bits
    let ufixq = vec![0x18, 0x80, 0x80, 0x80, 0x80, 0x08];
    let mut fp = vec![0x12, ufixq.len() as u8];
    fp.extend(ufixq);
    let mut payload = vec![0x0a, fp.len() as u8];
    payload.extend(fp);
    assert_eq!(
        find_field_options(&vec![annotation(payload)]).map(|o| o.is_some()),
        Err(DecodeError)
    );
}

#[test]
fn nested_record_running_past_the_end_is_a_decode_error() {
    // fp declares 9 bytes, 2 follow
    let payload = vec![0x0a, 0x09, 0x0a, 0x00];
    assert_eq!(
        find_field_options(&vec![annotation(payload)]).map(|o| o.is_some()),
        Err(DecodeError)
    );
}

#[test]
fn later_fixed_point_replaces_the_earlier_one() {
    let first = vec![0x0a, 0x06, 0x0a, 0x04, 0x08, 12, 0x10, 4];
    let second = vec![0x0a, 0x00];
    let o = find_field_options(&vec![annotation(first), annotation(second)]).unwrap().unwrap();
    assert_eq!(o.fixed_point, None);
}
