use offload_core::sanitize::sanitize_filename;

#[test]
fn replaces_invalid_bytes() {
    assert_eq!(sanitize_filename(b"my<file>:v2?.txt"), b"my_file__v2_.txt".to_vec());
    assert_eq!(sanitize_filename(b"a/b\\c|d*e\"f"), b"a_b_c_d_e_f".to_vec());
}

#[test]
fn trims_trailing_dots_and_spaces() {
    assert_eq!(sanitize_filename(b"name.."), b"name".to_vec());
    assert_eq!(sanitize_filename(b"name . . "), b"name".to_vec());
    assert_eq!(sanitize_filename(b"inner. name"), b"inner. name".to_vec());
}

#[test]
fn empty_becomes_underscore() {
    assert_eq!(sanitize_filename(b""), b"_".to_vec());
    assert_eq!(sanitize_filename(b". . "), b"_".to_vec());
}

#[test]
fn reserved_names_get_prefixed() {
    assert_eq!(sanitize_filename(b"con"), b"_con".to_vec());
    assert_eq!(sanitize_filename(b"CON.txt"), b"_CON.txt".to_vec());
    assert_eq!(sanitize_filename(b"com5.dat"), b"_com5.dat".to_vec());
    assert_eq!(sanitize_filename(b"LPT9"), b"_LPT9".to_vec());
    assert_eq!(sanitize_filename(b"aux"), b"_aux".to_vec());
    assert_eq!(sanitize_filename(b"Nul."), b"_Nul".to_vec());
}

#[test]
fn near_reserved_names_stay() {
    assert_eq!(sanitize_filename(b"lpt0"), b"lpt0".to_vec());
    assert_eq!(sanitize_filename(b"auxx"), b"auxx".to_vec());
    assert_eq!(sanitize_filename(b"console"), b"console".to_vec());
    assert_eq!(sanitize_filename(b"com10"), b"com10".to_vec());
}

#[test]
fn truncates_to_255_bytes() {
    let long = vec![b'a'; 300];
    let out = sanitize_filename(&long);
    assert_eq!(out.len(), 255);
    assert!(out.iter().all(|&b| b == b'a'));
}

#[test]
fn idempotent_on_samples() {
    let samples: Vec<&[u8]> = vec![
        b"my<file>.txt",
        b"con",
        b"name.. ",
        b"",
        b"normal-name.bin",
        b"com5.dat",
    ];
    for s in samples {
        let once = sanitize_filename(s);
        let twice = sanitize_filename(&once);
        assert_eq!(once, twice);
    }
}

#[test]
fn totality_on_samples() {
    let samples: Vec<&[u8]> = vec![b"", b"...", b"con", b"<>:\"/\\|?*", b"ok name"];
    for s in samples {
        let out = sanitize_filename(s);
        assert!(!out.is_empty());
        assert!(out.len() <= 255);
        assert!(!out.iter().any(|b| b"<>:\"/\\|?*".contains(b)));
        let last = *out.last().unwrap();
        assert!(last != b'.' && last != b' ');
    }
}
