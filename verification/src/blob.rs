//! Reading fixed-size and variable-size chunks off byte slices, and the photos blob of the
//! Tinder Android database.
use vstd::prelude::*;
use vstd::slice::{slice_subrange, slice_to_vec};
use vstd::utf8::{valid_utf8, decode_utf8};
use crate::ext::string_from_utf8;
use crate::text::strings_chars;

verus! {

/// The `N` bytes starting at `shift`.
pub fn read_const_n_bytes_at<const N: usize>(bytes: &[u8], shift: usize) -> (r: [u8; N])
    requires
        shift + N <= bytes@.len(),
    ensures
        r@ == bytes@.subrange(shift as int, shift + N),
{
    let mut arr: [u8; N] = [0u8; N];
    let len = bytes.len();
    let mut i: usize = 0;
    while i < N
        invariant
            len == bytes@.len(),
            0 <= i <= N,
            shift + N <= bytes@.len(),
            forall|k: int| 0 <= k < i ==> arr@[k] == bytes@[shift + k],
        decreases N - i,
    {
        arr[i] = bytes[shift + i];
        i = i + 1;
    }
    assert(arr@ =~= bytes@.subrange(shift as int, shift + N));
    arr
}

/// The first `N` bytes, and the rest.
pub fn next_const_n_bytes<const N: usize>(bytes: &[u8]) -> (r: ([u8; N], &[u8]))
    requires
        N <= bytes@.len(),
    ensures
        r.0@ == bytes@.subrange(0, N as int),
        r.1@ == bytes@.subrange(N as int, bytes@.len() as int),
{
    (read_const_n_bytes_at(bytes, 0), slice_subrange(bytes, N, bytes.len()))
}

/// The first `n` bytes, and the rest.
pub fn next_n_bytes(bytes: &[u8], n: usize) -> (r: (&[u8], &[u8]))
    requires
        n <= bytes@.len(),
    ensures
        r.0@ == bytes@.subrange(0, n as int),
        r.1@ == bytes@.subrange(n as int, bytes@.len() as int),
{
    (slice_subrange(bytes, 0, n), slice_subrange(bytes, n, bytes.len()))
}

//
// Photos blob
//

/// Why a photos blob was rejected.
#[derive(Clone, Copy, Debug, PartialEq, Eq, Structural)]
pub enum BlobError {
    /// A byte that marks a section or a separator is not what the format allows.
    UnexpectedFormat,
    /// A URL is not valid UTF-8.
    InvalidUtf8,
}

/// Position just after the first `0x1A` byte at or after `p`; `None` if there is none.
pub open spec fn scan_past_separator(b: Seq<u8>, p: int) -> Option<int>
    decreases b.len() - p,
{
    if p < 0 || p >= b.len() {
        None
    } else if b[p] == 0x1Au8 {
        Some(p + 1)
    } else {
        scan_past_separator(b, p + 1)
    }
}

/// The separator scan ends past its start, within the blob.
pub proof fn lemma_scan_past_separator(b: Seq<u8>, p: int)
    ensures
        scan_past_separator(b, p) matches Some(q) ==> p < q <= b.len(),
    decreases b.len() - p,
{
    if 0 <= p < b.len() && b[p] != 0x1Au8 {
        lemma_scan_past_separator(b, p + 1);
    }
}

/// Position after the lower quality photo entries (each starts with `0x12`; up to and
/// including the next `0x1A` byte, then a length byte and that many bytes) that start at `p`;
/// `None` where the blob ends inside one.
pub open spec fn skip_lower_quality(b: Seq<u8>, p: int) -> Option<int>
    decreases b.len() - p,
{
    if 0 <= p < b.len() && b[p] == 0x12u8 {
        match scan_past_separator(b, p) {
            Some(q) => if q >= b.len() || q + 1 + b[q] > b.len() {
                None
            } else {
                proof {
                    lemma_scan_past_separator(b, p);
                }
                skip_lower_quality(b, q + 1 + b[q])
            },
            None => None,
        }
    } else {
        Some(p)
    }
}

/// Position after the video entries starting at `p` (each: `0x1A`, a length byte, a UTF-8 URL
/// of that length, 3 skipped bytes and a section byte, followed by 7 skipped bytes if the
/// section byte is `0x22`, which starts another entry; the last section byte must be `0x30`
/// and is followed by 3 skipped bytes). `None` where the blob ends early.
pub open spec fn skip_videos(b: Seq<u8>, p: int) -> Option<Result<int, BlobError>>
    decreases b.len() - p,
{
    if p < 0 || p + 1 > b.len() {
        None
    } else if b[p] != 0x1Au8 {
        Some(Err(BlobError::UnexpectedFormat))
    } else if p + 2 > b.len() {
        None
    } else {
        let url_end = p + 2 + b[p + 1];
        if url_end > b.len() {
            None
        } else if !valid_utf8(b.subrange(p + 2, url_end)) {
            Some(Err(BlobError::InvalidUtf8))
        } else if url_end + 4 > b.len() {
            None
        } else {
            let section = b[url_end + 3];
            let after = url_end + 4;
            if section == 0x22u8 {
                if after + 7 > b.len() {
                    None
                } else {
                    skip_videos(b, after + 7)
                }
            } else if section != 0x30u8 {
                Some(Err(BlobError::UnexpectedFormat))
            } else if after + 3 > b.len() {
                None
            } else {
                Some(Ok(after + 3))
            }
        }
    }
}

/// One photo record read at `p`: `Ok((next, url, stop))` gives the position after it, the
/// decoded URL of the photo it describes (if any) and whether it ends the blob. `None` where the blob ends
/// early.
pub open spec fn photo_record(b: Seq<u8>, p: int) -> Option<Result<(int, Option<Seq<char>>, bool), BlobError>> {
    if p < 0 || p >= b.len() {
        None
    } else if b[p] == 0x0Au8 {
        if p + 4 > b.len() {
            None
        } else if b[p + 3] == 0x00u8 {
            Some(Ok((p + 4, None, true)))
        } else if b[p + 3] != 0x0Au8 {
            Some(Err(BlobError::UnexpectedFormat))
        } else if p + 5 > b.len() || p + 5 + b[p + 4] > b.len() {
            None
        } else {
            let url = b.subrange(p + 5, p + 5 + b[p + 4]);
            if !valid_utf8(url) {
                Some(Err(BlobError::InvalidUtf8))
            } else {
                match skip_lower_quality(b, p + 5 + b[p + 4]) {
                    None => None,
                    Some(q) => if q + 1 > b.len() {
                        None
                    } else if b[q] != 0x1Au8 {
                        Some(Err(BlobError::UnexpectedFormat))
                    } else if q + 2 > b.len() || q + 2 + b[q + 1] + 1 > b.len() {
                        None
                    } else {
                        let t = q + 2 + b[q + 1];
                        let block_type = b[t];
                        if block_type == 0x30u8 {
                            if t + 4 > b.len() || t + 4 + b[t + 3] > b.len() {
                                None
                            } else {
                                Some(Ok((t + 4 + b[t + 3], Some(decode_utf8(url)), false)))
                            }
                        } else if block_type == 0x22u8 {
                            if t + 1 + 7 > b.len() {
                                None
                            } else {
                                match skip_videos(b, t + 1 + 7) {
                                    None => None,
                                    Some(Err(e)) => Some(Err(e)),
                                    Some(Ok(n)) => Some(Ok((n, Some(decode_utf8(url)), false))),
                                }
                            }
                        } else {
                            Some(Err(BlobError::UnexpectedFormat))
                        }
                    },
                }
            }
        }
    } else if b[p] == 0x52u8 || b[p] == 0x42u8 {
        if p + 2 > b.len() || p + 2 + b[p + 1] > b.len() {
            None
        } else {
            Some(Ok((p + 2 + b[p + 1], None, false)))
        }
    } else {
        Some(Err(BlobError::UnexpectedFormat))
    }
}

/// Skipping lower quality entries never moves back.
pub proof fn lemma_skip_lower_quality_advances(b: Seq<u8>, p: int)
    ensures
        skip_lower_quality(b, p) matches Some(q) ==> p <= q,
    decreases b.len() - p,
{
    if 0 <= p < b.len() && b[p] == 0x12u8 {
        lemma_scan_past_separator(b, p);
        match scan_past_separator(b, p) {
            Some(q) => if q < b.len() && q + 1 + b[q] <= b.len() {
                lemma_skip_lower_quality_advances(b, q + 1 + b[q]);
            },
            None => {},
        }
    }
}

/// Skipping video entries moves forward and stays within the blob.
pub proof fn lemma_skip_videos_advances(b: Seq<u8>, p: int)
    ensures
        skip_videos(b, p) matches Some(Ok(q)) ==> p < q <= b.len(),
    decreases b.len() - p,
{
    if 0 <= p && p + 2 <= b.len() && b[p] == 0x1Au8 {
        let url_end = p + 2 + b[p + 1];
        if url_end + 4 <= b.len() && b[url_end + 3] == 0x22u8 && url_end + 11 <= b.len() {
            lemma_skip_videos_advances(b, url_end + 11);
        }
    }
}

/// A photo record that was read ends past its start, within the blob.
pub proof fn lemma_photo_record_advances(b: Seq<u8>, p: int)
    ensures
        photo_record(b, p) matches Some(Ok((next, _u, _s))) ==> p < next <= b.len(),
{
    if 0 <= p && p + 5 <= b.len() && b[p] == 0x0Au8 {
        lemma_skip_lower_quality_advances(b, p + 5 + b[p + 4]);
        match skip_lower_quality(b, p + 5 + b[p + 4]) {
            Some(q) => if q + 2 <= b.len() && q + 2 + b[q + 1] + 1 + 7 <= b.len() {
                lemma_skip_videos_advances(b, q + 2 + b[q + 1] + 1 + 7);
            },
            None => {},
        }
    }
}

/// URLs of the photos described by the records from `p` on, appended to `acc`.
pub open spec fn photo_records(b: Seq<u8>, p: int, acc: Seq<Seq<char>>) -> Option<Result<Seq<Seq<char>>, BlobError>>
    decreases b.len() - p,
{
    if p < 0 || p >= b.len() {
        None
    } else {
        match photo_record(b, p) {
            None => None,
            Some(Err(e)) => Some(Err(e)),
            Some(Ok((next, url, stop))) => {
                let acc2 = match url {
                    Some(u) => acc.push(u),
                    None => acc,
                };
                if stop || next >= b.len() {
                    Some(Ok(acc2))
                } else {
                    proof {
                        lemma_photo_record_advances(b, p);
                    }
                    photo_records(b, next, acc2)
                }
            },
        }
    }
}

/// URLs of the photos described by a photos blob: none for an empty blob, otherwise those of
/// its records read one after the other. `None` where the blob ends inside a record.
pub open spec fn photos_blob(b: Seq<u8>) -> Option<Result<Seq<Seq<char>>, BlobError>> {
    if b.len() == 0 {
        Some(Ok(Seq::empty()))
    } else {
        photo_records(b, 0, Seq::empty())
    }
}

/// A position read back as a mathematical integer.
pub open spec fn pos_view(r: Option<usize>) -> Option<int> {
    match r {
        Some(q) => Some(q as int),
        None => None,
    }
}

/// A position or an error read back as a mathematical integer.
pub open spec fn pos_result_view(r: Option<Result<usize, BlobError>>) -> Option<Result<int, BlobError>> {
    match r {
        Some(Ok(q)) => Some(Ok(q as int)),
        Some(Err(e)) => Some(Err(e)),
        None => None,
    }
}

/// A photo record read back over mathematical values.
pub open spec fn record_view(r: Option<Result<(usize, Option<String>, bool), BlobError>>) -> Option<Result<(int, Option<Seq<char>>, bool), BlobError>> {
    match r {
        Some(Ok((n, Some(u), stop))) => Some(Ok((n as int, Some(u@), stop))),
        Some(Ok((n, None, stop))) => Some(Ok((n as int, None, stop))),
        Some(Err(e)) => Some(Err(e)),
        None => None,
    }
}

/// The URLs of a parse read back as character sequences.
pub open spec fn urls_view(r: Option<Result<Vec<String>, BlobError>>) -> Option<Result<Seq<Seq<char>>, BlobError>> {
    match r {
        Some(Ok(v)) => Some(Ok(strings_chars(v@))),
        Some(Err(e)) => Some(Err(e)),
        None => None,
    }
}

/// Position just after the first `0x1A` byte at or after `p`.
fn find_separator_end(b: &[u8], p: usize) -> (r: Option<usize>)
    ensures
        pos_view(r) == scan_past_separator(b@, p as int),
{
    let n = b.len();
    let mut i = p;
    while i < n
        invariant
            n == b@.len(),
            p <= i,
            scan_past_separator(b@, p as int) == scan_past_separator(b@, i as int),
        decreases n - i,
    {
        if b[i] == 0x1A {
            return Some(i + 1);
        }
        i = i + 1;
    }
    None
}

/// Position after the lower quality photo entries starting at `p`.
fn skip_lower_quality_at(b: &[u8], p: usize) -> (r: Option<usize>)
    ensures
        pos_view(r) == skip_lower_quality(b@, p as int),
{
    let n = b.len();
    let mut i = p;
    while i < n && b[i] == 0x12
        invariant
            n == b@.len(),
            skip_lower_quality(b@, p as int) == skip_lower_quality(b@, i as int),
        decreases n - i,
    {
        proof {
            lemma_scan_past_separator(b@, i as int);
        }
        match find_separator_end(b, i) {
            None => {
                return None;
            },
            Some(q) => {
                if q >= n {
                    return None;
                }
                let len = b[q] as usize;
                if len > n - q - 1 {
                    return None;
                }
                i = q + 1 + len;
            },
        }
    }
    Some(i)
}

/// Position after the video entries starting at `p`, or the error they hold.
fn skip_videos_at(b: &[u8], p: usize) -> (r: Option<Result<usize, BlobError>>)
    ensures
        pos_result_view(r) == skip_videos(b@, p as int),
{
    let n = b.len();
    if p >= n {
        return None;
    }
    let mut i = p;
    loop
        invariant
            n == b@.len(),
            i <= n,
            skip_videos(b@, p as int) == skip_videos(b@, i as int),
        decreases n - i,
    {
        if i >= n {
            return None;
        }
        if b[i] != 0x1A {
            return Some(Err(BlobError::UnexpectedFormat));
        }
        if n - i < 2 {
            return None;
        }
        let url_len = b[i + 1] as usize;
        if url_len > n - i - 2 {
            return None;
        }
        let url_end = i + 2 + url_len;
        let url = slice_to_vec(slice_subrange(b, i + 2, url_end));
        if string_from_utf8(url).is_none() {
            return Some(Err(BlobError::InvalidUtf8));
        }
        if n - url_end < 4 {
            return None;
        }
        let section = b[url_end + 3];
        let after = url_end + 4;
        if section == 0x22 {
            if n - after < 7 {
                return None;
            }
            i = after + 7;
        } else if section != 0x30 {
            return Some(Err(BlobError::UnexpectedFormat));
        } else if n - after < 3 {
            return None;
        } else {
            return Some(Ok(after + 3));
        }
    }
}

/// Reads the photo record at `p`.
fn read_photo_record(b: &[u8], p: usize) -> (r: Option<Result<(usize, Option<String>, bool), BlobError>>)
    ensures
        record_view(r) == photo_record(b@, p as int),
{
    let n = b.len();
    if p >= n {
        return None;
    }
    let first = b[p];
    if first == 0x0A {
        if n - p < 4 {
            return None;
        }
        let tpe = b[p + 3];
        if tpe == 0x00 {
            return Some(Ok((p + 4, None, true)));
        }
        if tpe != 0x0A {
            return Some(Err(BlobError::UnexpectedFormat));
        }
        if n - p < 5 {
            return None;
        }
        let url_len = b[p + 4] as usize;
        if url_len > n - p - 5 {
            return None;
        }
        let url_end = p + 5 + url_len;
        let url = match string_from_utf8(slice_to_vec(slice_subrange(b, p + 5, url_end))) {
            Some(u) => u,
            None => {
                return Some(Err(BlobError::InvalidUtf8));
            },
        };
        let q = match skip_lower_quality_at(b, url_end) {
            Some(q) => q,
            None => {
                return None;
            },
        };
        if q >= n {
            return None;
        }
        if b[q] != 0x1A {
            return Some(Err(BlobError::UnexpectedFormat));
        }
        if n - q < 2 {
            return None;
        }
        let uuid_len = b[q + 1] as usize;
        if uuid_len + 1 > n - q - 2 {
            return None;
        }
        let t = q + 2 + uuid_len;
        let block_type = b[t];
        if block_type == 0x30 {
            if n - t < 4 {
                return None;
            }
            let block_len = b[t + 3] as usize;
            if block_len > n - t - 4 {
                return None;
            }
            Some(Ok((t + 4 + block_len, Some(url), false)))
        } else if block_type == 0x22 {
            if n - t < 8 {
                return None;
            }
            match skip_videos_at(b, t + 8) {
                None => None,
                Some(Err(e)) => Some(Err(e)),
                Some(Ok(next)) => Some(Ok((next, Some(url), false))),
            }
        } else {
            Some(Err(BlobError::UnexpectedFormat))
        }
    } else if first == 0x52 || first == 0x42 {
        if n - p < 2 {
            return None;
        }
        let len = b[p + 1] as usize;
        if len > n - p - 2 {
            return None;
        }
        Some(Ok((p + 2 + len, None, false)))
    } else {
        Some(Err(BlobError::UnexpectedFormat))
    }
}

/// URLs of the photos that a photos blob describes, in the order of its records; an error
/// where a record does not follow the format; `None` where the blob ends inside a record.
pub fn analyze_photos_blob_checked(bytes: &[u8]) -> (r: Option<Result<Vec<String>, BlobError>>)
    ensures
        urls_view(r) == photos_blob(bytes@),
{
    let n = bytes.len();
    let mut photos: Vec<String> = Vec::new();
    if n == 0 {
        proof {
            assert(strings_chars(photos@) =~= Seq::<Seq<char>>::empty());
        }
        return Some(Ok(photos));
    }
    let mut p: usize = 0;
    proof {
        assert(strings_chars(photos@) =~= Seq::<Seq<char>>::empty());
    }
    loop
        invariant
            n == bytes@.len(),
            n > 0,
            p < n,
            photos_blob(bytes@) == photo_records(bytes@, p as int, strings_chars(photos@)),
        decreases n - p,
    {
        proof {
            lemma_photo_record_advances(bytes@, p as int);
        }
        match read_photo_record(bytes, p) {
            None => {
                return None;
            },
            Some(Err(e)) => {
                return Some(Err(e));
            },
            Some(Ok((next, url, stop))) => {
                let ghost before = strings_chars(photos@);
                match url {
                    Some(u) => {
                        photos.push(u);
                        proof {
                            assert(strings_chars(photos@) =~= before.push(u@));
                        }
                    },
                    None => {},
                }
                if stop || next >= n {
                    return Some(Ok(photos));
                }
                p = next;
            },
        }
    }
}

/// URLs of the photos that a photos blob describes, in the order of its records, or the
/// error of the first record that does not follow the format. The blob must not end inside
/// a record.
pub fn analyze_photos_blob(bytes: &[u8]) -> (r: Result<Vec<String>, BlobError>)
    requires
        photos_blob(bytes@) is Some,
    ensures
        urls_view(Some(r)) == photos_blob(bytes@),
{
    match analyze_photos_blob_checked(bytes) {
        Some(r) => r,
        None => Err(BlobError::UnexpectedFormat),
    }
}

} // verus!
