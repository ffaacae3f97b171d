use offload_core::extract::{entry_target_name, select_entry};

#[test]
fn picks_named_entry() {
    let names = vec![b"a.txt".to_vec(), b"b.txt".to_vec(), b"c.txt".to_vec()];
    assert_eq!(select_entry(&names, b"b.txt", 0), Some(1));
    assert_eq!(select_entry(&names, b"a.txt", 2), Some(0));
}

#[test]
fn falls_back_to_position() {
    let names = vec![b"a.txt".to_vec(), b"b.txt".to_vec(), b"c.txt".to_vec()];
    assert_eq!(select_entry(&names, b"missing", 1), Some(1));
    assert_eq!(select_entry(&names, b"missing", 3), None);
    assert_eq!(select_entry(&Vec::new(), b"x", 0), None);
}

#[test]
fn first_of_equal_names_wins() {
    let names = vec![b"dup".to_vec(), b"dup".to_vec(), b"other".to_vec()];
    assert_eq!(select_entry(&names, b"dup", 2), Some(0));
}

#[test]
fn target_name_from_manifest() {
    let name = Some(b"notes/march.txt".to_vec());
    assert_eq!(entry_target_name(&name, 0), b"notes_march.txt".to_vec());
    let name = Some(b"deep\\path\\file.bin".to_vec());
    assert_eq!(entry_target_name(&name, 4), b"deep_path_file.bin".to_vec());
}

#[test]
fn target_name_fallback_is_one_based() {
    assert_eq!(entry_target_name(&None, 0), b"file_1".to_vec());
    assert_eq!(entry_target_name(&None, 11), b"file_12".to_vec());
}
