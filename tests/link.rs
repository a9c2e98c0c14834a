use megadl::link::extract_file_handle;

#[test]
fn nested_file_link_yields_file_id() {
    let h = extract_file_handle("https://example.test/folder/ABC/file/XYZ");
    assert_eq!(h, Some("XYZ".to_string()));
}

#[test]
fn nested_file_link_with_key_fragments() {
    let h = extract_file_handle("https://mega.nz/folder/aBcD#key/file/eFgH");
    assert_eq!(h, Some("eFgH".to_string()));
}

#[test]
fn plain_folder_link_yields_nothing() {
    assert_eq!(extract_file_handle("https://example.test/folder/ABC"), None);
}

#[test]
fn plain_file_link_yields_nothing() {
    assert_eq!(extract_file_handle("https://example.test/file/XYZ"), None);
}

#[test]
fn markers_in_wrong_order_yield_nothing() {
    assert_eq!(extract_file_handle("https://example.test/file/XYZ/folder/ABC"), None);
}

#[test]
fn words_without_slashes_yield_nothing() {
    assert_eq!(extract_file_handle("https://example.test/folderfile"), None);
}

#[test]
fn empty_link_yields_nothing() {
    assert_eq!(extract_file_handle(""), None);
}

#[test]
fn last_file_marker_wins() {
    let h = extract_file_handle("https://example.test/folder/A/file/B/file/C");
    assert_eq!(h, Some("C".to_string()));
}

#[test]
fn empty_file_id_is_kept() {
    assert_eq!(extract_file_handle("x/folder/A/file/"), Some(String::new()));
}

#[test]
fn overlapping_markers_need_both() {
    // "/folder/file/" has both words but the markers share a slash.
    assert_eq!(extract_file_handle("/folder/file/X"), None);
    assert_eq!(extract_file_handle("/folder//file/X"), Some("X".to_string()));
}
