use excel_dll_postgres_rust::api::ApiResponse;
use excel_dll_postgres_rust::error::Error;
use excel_dll_postgres_rust::utf16::{decode_utf16, encode_utf16};
use excel_dll_postgres_rust::vba_str_io::{get_string_from_vba, get_string_ptr_for_vba, payload_for_host, StringForVba};

fn prefixed(s: &str) -> Vec<u16> {
    let units: Vec<u16> = s.encode_utf16().collect();
    let n = (units.len() * 2) as u32;
    let mut block = vec![(n & 0xFFFF) as u16, (n >> 16) as u16];
    block.extend(units);
    block
}

#[test]
fn utf16_round_trip() {
    for s in ["", "abc", "héllo", "😀 surrogate pair", "Сервер"] {
        let units = encode_utf16(s);
        assert_eq!(units, s.encode_utf16().collect::<Vec<u16>>());
        assert_eq!(decode_utf16(&units).unwrap(), s);
    }
}

#[test]
fn lone_surrogates_are_rejected() {
    assert!(decode_utf16(&[0xD800]).is_none());
    assert!(decode_utf16(&[0x61, 0xDC00]).is_none());
    assert!(decode_utf16(&[0xD83D, 0x61]).is_none());
}

#[test]
fn prefixed_host_string_round_trip() {
    let block = prefixed("[{\"sql_query\":\"SELECT 1\"}] 😀");
    assert_eq!(get_string_from_vba(&block).ok().unwrap(), "[{\"sql_query\":\"SELECT 1\"}] 😀");
}

#[test]
fn prefix_bounds_the_text() {
    let mut block = prefixed("ab");
    block.push(0x63);
    assert_eq!(get_string_from_vba(&block).ok().unwrap(), "ab");
}

#[test]
fn invalid_host_string_gives_encoding_error() {
    let block = vec![2, 0, 0xDC00];
    let e = get_string_from_vba(&block).err().unwrap();
    assert_eq!(e.code(), "0020");
    assert_eq!(e.tech_descr(), Some("invalid utf-16: lone surrogate found"));
    let std_msg = String::from_utf16(&[0xDC00]).unwrap_err().to_string();
    assert_eq!(e.tech_descr(), Some(std_msg.as_str()));
}

#[test]
fn outbound_buffer_layout() {
    let mut b = StringForVba::from_string("hé😀".to_string());
    assert!(b.is_valid);
    assert_eq!(b.data, vec![0x68, 0xE9, 0xD83D, 0xDE00]);
    assert_eq!(b.length_in_bytes, 8);
    b.validity_update(false);
    let (data, len, valid) = b.into_raw();
    assert_eq!(String::from_utf16(&data).unwrap(), "hé😀");
    assert_eq!(len, 8);
    assert!(!valid);
}

#[test]
fn earlier_outbound_layout() {
    let w = get_string_ptr_for_vba("xyz".to_string());
    assert_eq!(*w.data, vec![0x78, 0x79, 0x7A]);
    assert_eq!(w.length_in_bytes, 6);
}

#[test]
fn payload_for_host_encodes_document() {
    let batch: Result<Vec<ApiResponse>, Error> = Err(Error::RuntimeCreation("no threads".to_string()));
    let p = payload_for_host(&batch);
    assert!(p.is_valid);
    let text = String::from_utf16(&p.data).unwrap();
    assert_eq!(text, r#"{"Err":{"code":"0510","descr":"Не удалось создать рантайм Tokio","tech_descr":"no threads"}}"#);
    assert_eq!(p.length_in_bytes as usize, p.data.len() * 2);
    let ok: Result<Vec<ApiResponse>, Error> = Ok(Vec::new());
    assert_eq!(String::from_utf16(&payload_for_host(&ok).data).unwrap(), "[]");
}
