use prunr_app::history_disk::{
    compress_to_ram, decompress_from_ram, frame_picture, history_file_name, is_stale, restore,
    unframe_picture, HistoryError, STALE_AGE_NANOS,
};
use prunr_app::item::{HistoryEntry, HistorySlot};
use prunr_app::pixmap::Pixmap;
use std::sync::Arc;

fn plain(w: u32, h: u32, p: [u8; 4]) -> Pixmap {
    Pixmap::from_raw(w, h, p.repeat((w * h) as usize)).unwrap()
}

#[test]
fn roundtrip_write_read() {
    let rgba = plain(100, 80, [255, 0, 128, 255]);
    let entry = compress_to_ram(&rgba).unwrap();
    let recovered = restore(&entry.data).unwrap();
    assert_eq!((rgba.width, rgba.height), (recovered.width, recovered.height));
    assert_eq!(rgba.data, recovered.data);
    assert!(entry.data.len() < rgba.data.len(), "a plain picture shrinks");
    assert_eq!(decompress_from_ram(&entry).unwrap().data, rgba.data);
}

#[test]
fn damaged_entries_are_refused() {
    assert!(matches!(restore(b"no frame"), Err(HistoryError::Codec)));
    assert!(matches!(unframe_picture(vec![1, 0, 0]), Err(HistoryError::Truncated)));
    let mut raw = frame_picture(&plain(2, 2, [1, 2, 3, 4]));
    assert_eq!(&raw[..8], &[2, 0, 0, 0, 2, 0, 0, 0]);
    raw.pop();
    assert!(matches!(unframe_picture(raw), Err(_)));
}

#[test]
fn files_are_named_after_item_and_place() {
    assert_eq!(history_file_name(99999, 0), "99999_0.zraw");
    assert_eq!(history_file_name(7, 12), "7_12.zraw");
}

#[test]
fn files_go_stale() {
    assert!(!is_stale(STALE_AGE_NANOS));
    assert!(is_stale(STALE_AGE_NANOS + 1));
}

#[test]
fn pictures_are_packed_compressed() {
    let rgba = Arc::new(plain(64, 64, [1, 2, 3, 255]));
    let data = compress_to_ram(&rgba).unwrap().data;
    let slot = HistorySlot::compress(rgba.clone());
    assert!(matches!(&slot, HistorySlot::Compressed(e) if e.data == data));
    assert_eq!(slot.disk_bytes(), Some(data.clone()));
    assert_eq!(HistorySlot::InMemory(rgba.clone()).disk_bytes(), Some(data.clone()));
    let entry = HistoryEntry::new(rgba, None);
    assert!(matches!(entry.slot, HistorySlot::Compressed(e) if e.data == data));
}
