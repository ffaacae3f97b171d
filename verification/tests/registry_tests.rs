use offload_core::registry::{DownloadItem, DownloadManager, TaskStatus};

fn item(id: &str, archive: &str) -> DownloadItem {
    DownloadItem {
        id: id.as_bytes().to_vec(),
        archive_id: archive.as_bytes().to_vec(),
        name: b"out.bin".to_vec(),
        downloaded: 0,
        total: Some(100),
        status: TaskStatus::Queued,
    }
}

#[test]
fn insert_and_list() {
    let mut m = DownloadManager::new();
    assert!(m.list_downloads().is_empty());
    m.insert(item("t1", "a1"));
    m.insert(item("t2", "a2"));
    let listed = m.list_downloads();
    assert_eq!(listed.len(), 2);
    assert_eq!(listed[0].id, b"t1".to_vec());
    assert_eq!(listed[1].archive_id, b"a2".to_vec());
    assert_eq!(listed[0].status, TaskStatus::Queued);
}

#[test]
fn cancel_flag_is_per_task() {
    let mut m = DownloadManager::new();
    m.insert(item("t1", "a1"));
    m.insert(item("t2", "a2"));
    assert!(!m.cancel_requested(b"t1"));
    m.pause_download(b"t1");
    assert!(m.cancel_requested(b"t1"));
    assert!(!m.cancel_requested(b"t2"));
    // unknown ids are a quiet no-op
    m.pause_download(b"t9");
    assert!(!m.cancel_requested(b"t9"));
}

#[test]
fn status_updates_touch_one_task() {
    let mut m = DownloadManager::new();
    m.insert(item("t1", "a1"));
    m.insert(item("t2", "a2"));
    m.update_status(b"t1", TaskStatus::Downloading);
    m.update_status(b"t2", TaskStatus::Error);
    let listed = m.list_downloads();
    assert_eq!(listed[0].status, TaskStatus::Downloading);
    assert_eq!(listed[1].status, TaskStatus::Error);
    m.update_status(b"t1", TaskStatus::Completed);
    let listed = m.list_downloads();
    assert_eq!(listed[0].status, TaskStatus::Completed);
    assert_eq!(listed[1].status, TaskStatus::Error);
}
