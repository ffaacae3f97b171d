use offload_core::integrity::part_is_valid;
use offload_core::manifest::{
    choose_display_name, part_file_name, parts_path, refresh_path, relay_path, sort_parts,
    FileMeta, Manifest, PartMeta,
};

fn part(index: u64) -> PartMeta {
    PartMeta { index, size: 1, hash: vec![], url: vec![] }
}

fn manifest(
    download_name: Option<&str>,
    display_name: Option<&str>,
    files: Option<Vec<FileMeta>>,
) -> Manifest {
    Manifest {
        archive_id: b"arc1".to_vec(),
        is_bundle: files.is_some(),
        chunk_size_bytes: None,
        iv_b64: vec![],
        auth_tag_b64: vec![],
        original_size: None,
        encrypted_size: None,
        download_name: download_name.map(|s| s.as_bytes().to_vec()),
        display_name: display_name.map(|s| s.as_bytes().to_vec()),
        files,
        parts: vec![],
    }
}

#[test]
fn sorts_parts_by_index() {
    let mut parts = vec![part(3), part(0), part(2), part(1)];
    sort_parts(&mut parts);
    let indices: Vec<u64> = parts.iter().map(|p| p.index).collect();
    assert_eq!(indices, vec![0, 1, 2, 3]);
}

#[test]
fn sort_keeps_duplicates_and_payload() {
    let mut parts = vec![
        PartMeta { index: 2, size: 22, hash: b"h2".to_vec(), url: b"u2".to_vec() },
        PartMeta { index: 1, size: 11, hash: b"h1".to_vec(), url: b"u1".to_vec() },
        PartMeta { index: 2, size: 33, hash: b"h3".to_vec(), url: b"u3".to_vec() },
    ];
    sort_parts(&mut parts);
    assert_eq!(parts.len(), 3);
    assert_eq!(parts[0].index, 1);
    assert_eq!(parts[0].size, 11);
    assert_eq!(parts[1].index, 2);
    assert_eq!(parts[2].index, 2);
    let mut sizes: Vec<u64> = parts.iter().map(|p| p.size).collect();
    sizes.sort();
    assert_eq!(sizes, vec![11, 22, 33]);
}

#[test]
fn display_name_prefers_inner_file() {
    let files = vec![
        FileMeta { original_name: Some(b"a.txt".to_vec()), size: Some(1) },
        FileMeta { original_name: Some(b"b.txt".to_vec()), size: Some(2) },
    ];
    let m = manifest(Some("dl.zip"), Some("shown"), Some(files));
    assert_eq!(choose_display_name(&m, Some(1)), b"b.txt".to_vec());
    assert_eq!(choose_display_name(&m, None), b"dl.zip".to_vec());
}

#[test]
fn display_name_falls_back() {
    // inner file has no name -> download name
    let files = vec![FileMeta { original_name: None, size: None }];
    let m = manifest(Some("dl.zip"), Some("shown"), Some(files));
    assert_eq!(choose_display_name(&m, Some(0)), b"dl.zip".to_vec());
    // index out of range -> download name
    assert_eq!(choose_display_name(&m, Some(9)), b"dl.zip".to_vec());
    // no download name -> display name
    let m = manifest(None, Some("shown"), None);
    assert_eq!(choose_display_name(&m, None), b"shown".to_vec());
    // nothing at all -> download.bin
    let m = manifest(None, None, None);
    assert_eq!(choose_display_name(&m, None), b"download.bin".to_vec());
    assert_eq!(choose_display_name(&m, Some(0)), b"download.bin".to_vec());
}

#[test]
fn progress_total_prefers_original_size() {
    let mut m = manifest(None, None, None);
    m.original_size = Some(40);
    m.encrypted_size = Some(60);
    assert_eq!(m.progress_total(), Some(40));
    m.original_size = None;
    assert_eq!(m.progress_total(), Some(60));
    m.encrypted_size = None;
    assert_eq!(m.progress_total(), None);
}

#[test]
fn endpoint_paths() {
    assert_eq!(parts_path(b"abc"), b"/api/archives/abc/parts".to_vec());
    assert_eq!(relay_path(b"abc", 3), b"/api/archives/abc/parts/3/relay".to_vec());
    assert_eq!(refresh_path(b"abc", 12), b"/api/archives/abc/parts/12/refresh".to_vec());
    assert_eq!(part_file_name(0), b"part_0".to_vec());
    assert_eq!(part_file_name(17), b"part_17".to_vec());
}

#[test]
fn part_validity_checks_hash_and_length() {
    // SHA-256("abc"), a published test vector.
    let hash = b"ba7816bf8f01cfea414140de5dae2223b00361a396177a9cb410ff61f20015ad";
    assert!(part_is_valid(b"abc", 3, hash));
    // wrong length claimed
    assert!(!part_is_valid(b"abc", 4, hash));
    // tampered content
    assert!(!part_is_valid(b"abd", 3, hash));
    // wrong hash
    let other = b"ba7816bf8f01cfea414140de5dae2223b00361a396177a9cb410ff61f20015ae";
    assert!(!part_is_valid(b"abc", 3, other));
}

#[test]
fn empty_part_validity() {
    // SHA-256 of the empty string, a published test vector.
    let hash = b"e3b0c44298fc1c149afbf4c8996fb92427ae41e4649b934ca495991b7852b855";
    assert!(part_is_valid(b"", 0, hash));
    assert!(!part_is_valid(b"", 1, hash));
}
