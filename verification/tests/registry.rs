use ainukey::registry::dll_path_from;
use ainukey::guids::GUID_TEXT_SERVICE;
use ainukey::registry::{clsid_key, guid_braced, inproc_server_key, reg_sz_bytes, wide, TRANSIENT_LANGIDS};

#[test]
fn braced_guid_text() {
    assert_eq!(guid_braced(GUID_TEXT_SERVICE), "{5ECECCEB-271D-4675-8EE5-8D129EF0CA08}");
    assert_eq!(guid_braced(0), "{00000000-0000-0000-0000-000000000000}");
    assert_eq!(guid_braced(u128::MAX), "{FFFFFFFF-FFFF-FFFF-FFFF-FFFFFFFFFFFF}");
}

#[test]
fn registry_paths() {
    assert_eq!(clsid_key(GUID_TEXT_SERVICE), "CLSID\\{5ECECCEB-271D-4675-8EE5-8D129EF0CA08}");
    assert_eq!(
        inproc_server_key(GUID_TEXT_SERVICE),
        "CLSID\\{5ECECCEB-271D-4675-8EE5-8D129EF0CA08}\\InProcServer32"
    );
}

#[test]
fn wide_strings() {
    assert_eq!(wide("ab"), vec![0x61, 0x62, 0]);
    assert_eq!(wide(""), vec![0]);
    assert_eq!(wide("アイヌ"), "アイヌ".encode_utf16().chain([0]).collect::<Vec<u16>>());
    assert_eq!(wide("𝄞"), vec![0xD834, 0xDD1E, 0]);
}

#[test]
fn reg_sz_data() {
    assert_eq!(reg_sz_bytes(&[0x61, 0x30A2, 0]), vec![0x61, 0, 0xA2, 0x30, 0, 0]);
    assert_eq!(TRANSIENT_LANGIDS, [0x2000, 0x2400, 0x2800, 0x2C00]);
}

#[test]
fn dll_path_from_module_query() {
    let buf = [0x43u16, 0x3A, 0x5C, 0x61, 0, 0];
    assert_eq!(dll_path_from(&buf, 4), Some(vec![0x43, 0x3A, 0x5C, 0x61, 0]));
    assert_eq!(dll_path_from(&buf, 0), None); // the query failed
    assert_eq!(dll_path_from(&buf, 6), None); // the path was cut off
    assert_eq!(dll_path_from(&buf, 9), None);
}
