use unipac::shared::{call_list_packages, decode_list_packages, library_file, str_rs_to_c, Error};

#[test]
fn bare_names_become_library_files() {
    assert_eq!(library_file("dummy"), "libunipac_dummy_plugin.so");
    assert_eq!(library_file("./libx.so"), "./libx.so");
    assert_eq!(library_file(&library_file("dummy")), "libunipac_dummy_plugin.so");
}

#[test]
fn c_strings_lose_nul() {
    assert_eq!(str_rs_to_c("a\0b".to_string()), "ab");
    assert_eq!(str_rs_to_c("plain".to_string()), "plain");
}

#[test]
fn listing_crosses_as_data_or_error() {
    let d = call_list_packages(Ok(vec!["a\0".to_string(), "b".to_string()]));
    assert!(d.err.is_none());
    assert_eq!(d.data.unwrap(), vec!["a".to_string(), "b".to_string()]);
    let d = call_list_packages(Err("no\0pe".to_string()));
    assert!(d.data.is_none());
    assert_eq!(d.err.unwrap(), "nope");
}

#[test]
fn decoding_a_listing() {
    assert_eq!(decode_list_packages(Some(vec!["a".to_string()]), None).unwrap(), vec!["a".to_string()]);
    assert!(matches!(decode_list_packages(None, Some("e".to_string())), Err(Error::LibraryError(ref m)) if m == "e"));
    assert!(matches!(decode_list_packages(None, None), Err(Error::BadResponse)));
    assert!(matches!(decode_list_packages(Some(Vec::new()), Some("e".to_string())), Err(Error::BadResponse)));
}

#[test]
fn dummy_plugin_lists_one_package() {
    assert_eq!(unipac::dummy::list_packages().unwrap(), vec!["dummy-rs".to_string()]);
}

#[test]
fn listing_round_trip() {
    let d = call_list_packages(Ok(vec!["vim".to_string(), "code".to_string()]));
    assert_eq!(decode_list_packages(d.data, d.err).unwrap(), vec!["vim".to_string(), "code".to_string()]);
    let d = call_list_packages(Err("fa\0il".to_string()));
    assert!(matches!(decode_list_packages(d.data, d.err), Err(Error::LibraryError(ref m)) if m == "fail"));
}
