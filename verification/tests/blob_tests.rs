use chat_history_manager::blob::{analyze_photos_blob, analyze_photos_blob_checked, next_const_n_bytes, next_n_bytes, read_const_n_bytes_at, BlobError};

/// A photo record for `url`, with a UUID block and a final block to discard.
fn photo_record(url: &str) -> Vec<u8> {
    let mut v = vec![0x0A, 0x01, 0x02, 0x0A, url.len() as u8];
    v.extend_from_slice(url.as_bytes());
    v.extend_from_slice(&[0x1A, 3, b'a', b'b', b'c']);
    v.extend_from_slice(&[0x30, 0x00, 0x00, 2, 0xFF, 0xFE]);
    v
}

fn end_record() -> Vec<u8> {
    vec![0x0A, 0x00, 0x00, 0x00]
}

#[test]
fn constant_chunks_are_read_off_the_front() {
    let bytes = [1u8, 2, 3, 4, 5];
    let (arr, rest) = next_const_n_bytes::<2>(&bytes);
    assert_eq!(arr, [1, 2]);
    assert_eq!(rest, &[3, 4, 5]);
    let (head, rest) = next_n_bytes(&bytes, 3);
    assert_eq!(head, &[1, 2, 3]);
    assert_eq!(rest, &[4, 5]);
    assert_eq!(read_const_n_bytes_at::<3>(&bytes, 2), [3, 4, 5]);
}

#[test]
fn empty_blob_has_no_photos() {
    assert_eq!(analyze_photos_blob(&[]), Ok(vec![]));
}

#[test]
fn photos_are_listed_in_order() {
    let mut blob = photo_record("https://x/1.jpg");
    blob.extend(photo_record("https://x/2.jpg"));
    blob.extend(end_record());
    assert_eq!(
        analyze_photos_blob(&blob),
        Ok(vec!["https://x/1.jpg".to_owned(), "https://x/2.jpg".to_owned()])
    );
}

#[test]
fn records_after_the_end_record_are_ignored() {
    let mut blob = photo_record("u1");
    blob.extend(end_record());
    blob.extend(photo_record("u2"));
    assert_eq!(analyze_photos_blob(&blob), Ok(vec!["u1".to_owned()]));
}

#[test]
fn blob_may_end_right_after_a_photo() {
    let blob = photo_record("only");
    assert_eq!(analyze_photos_blob(&blob), Ok(vec!["only".to_owned()]));
}

#[test]
fn lower_quality_entries_and_other_sections_are_skipped() {
    let url = "https://x/hq.jpg";
    let mut blob = vec![0x52, 2, b'i', b'd'];
    blob.extend_from_slice(&[0x42, 1, 0x99]);
    blob.extend_from_slice(&[0x0A, 0x00, 0x00, 0x0A, url.len() as u8]);
    blob.extend_from_slice(url.as_bytes());
    // Two lower quality entries
    blob.extend_from_slice(&[0x12, 0x05, 0x06, 0x1A, 2, b'l', b'q']);
    blob.extend_from_slice(&[0x12, 0x1A, 1, b'm']);
    blob.extend_from_slice(&[0x1A, 1, b'u']);
    blob.extend_from_slice(&[0x30, 0x00, 0x00, 0]);
    blob.extend(end_record());
    assert_eq!(analyze_photos_blob(&blob), Ok(vec![url.to_owned()]));
}

#[test]
fn videos_are_skipped() {
    let url = "https://x/with_video.jpg";
    let mut blob = vec![0x0A, 0x00, 0x00, 0x0A, url.len() as u8];
    blob.extend_from_slice(url.as_bytes());
    blob.extend_from_slice(&[0x1A, 1, b'u']);
    blob.extend_from_slice(&[0x22, 1, 2, 3, 4, 5, 6, 7]);
    // First video, followed by another one
    blob.extend_from_slice(&[0x1A, 2, b'v', b'1', 9, 9, 9, 0x22, 1, 2, 3, 4, 5, 6, 7]);
    // Second (last) video
    blob.extend_from_slice(&[0x1A, 2, b'v', b'2', 9, 9, 9, 0x30, 8, 8, 8]);
    blob.extend(photo_record("next"));
    assert_eq!(analyze_photos_blob(&blob), Ok(vec![url.to_owned(), "next".to_owned()]));
}

#[test]
fn unknown_section_is_rejected() {
    assert_eq!(analyze_photos_blob(&[0x99, 0x00]), Err(BlobError::UnexpectedFormat));
}

#[test]
fn unknown_record_type_is_rejected() {
    assert_eq!(analyze_photos_blob(&[0x0A, 0x00, 0x00, 0x07]), Err(BlobError::UnexpectedFormat));
}

#[test]
fn missing_separator_is_rejected() {
    let mut blob = vec![0x0A, 0x00, 0x00, 0x0A, 1, b'u'];
    blob.extend_from_slice(&[0x77, 1, b'x', 0x30, 0, 0, 0]);
    assert_eq!(analyze_photos_blob(&blob), Err(BlobError::UnexpectedFormat));
}

#[test]
fn invalid_url_is_rejected() {
    let mut blob = vec![0x0A, 0x00, 0x00, 0x0A, 2, 0xC3, 0x28];
    blob.extend_from_slice(&[0x1A, 1, b'u', 0x30, 0, 0, 0]);
    assert_eq!(analyze_photos_blob(&blob), Err(BlobError::InvalidUtf8));
}

#[test]
fn truncated_blob_cannot_be_read() {
    let blob = vec![0x0A, 0x00, 0x00, 0x0A, 10, b'u'];
    assert_eq!(analyze_photos_blob_checked(&blob), None);
    assert_eq!(analyze_photos_blob_checked(&[0x0A, 0x00]), None);
}
