//! Locating a complete JPEG inside an accumulated byte stream.
//!
//! A complete frame is the span from the first Start-Of-Image marker
//! (`FF D8`) to the end of the first End-Of-Image marker (`FF D9`) found at
//! least two bytes past it. Only that first span is ever reported; a stream
//! source extracts it, keeps the bytes that follow it, and scans again.

use vstd::prelude::*;

verus! {

/// A JPEG Start-Of-Image marker (`FF D8`) begins at index `i` of `d`.
pub open spec fn soi_at(d: Seq<u8>, i: int) -> bool {
    &&& 0 <= i
    &&& i + 1 < d.len()
    &&& d[i] == 0xffu8
    &&& d[i + 1] == 0xd8u8
}

/// A JPEG End-Of-Image marker (`FF D9`) begins at index `i` of `d`.
pub open spec fn eoi_at(d: Seq<u8>, i: int) -> bool {
    &&& 0 <= i
    &&& i + 1 < d.len()
    &&& d[i] == 0xffu8
    &&& d[i + 1] == 0xd9u8
}

/// `d` contains no Start-Of-Image marker at all.
pub open spec fn no_soi(d: Seq<u8>) -> bool {
    forall|i: int| !soi_at(d, i)
}

/// The bytes `d[s ..= e]` are exactly the frame a scan of `d` yields:
/// `s` is the position of the first SOI of `d`, and `e` the second byte of
/// the first EOI found at or past `s + 2`.
pub open spec fn frame_at(d: Seq<u8>, s: int, e: int) -> bool {
    &&& soi_at(d, s)
    &&& (forall|k: int| 0 <= k < s ==> !soi_at(d, k))
    &&& eoi_at(d, e - 1)
    &&& s + 2 <= e - 1
    &&& (forall|j: int| s + 2 <= j < e - 1 ==> !eoi_at(d, j))
}

/// Some complete frame can be cut out of `d`.
pub open spec fn has_frame(d: Seq<u8>) -> bool {
    exists|s: int, e: int| frame_at(d, s, e)
}

/// `f` is a self-contained frame: it begins with SOI, ends with EOI, and no
/// earlier EOI hides inside it, so a scan that reaches it consumes exactly it.
pub open spec fn wf_jpeg(f: Seq<u8>) -> bool {
    &&& f.len() >= 4
    &&& f[0] == 0xffu8
    &&& f[1] == 0xd8u8
    &&& f[f.len() - 2] == 0xffu8
    &&& f[f.len() - 1] == 0xd9u8
    &&& (forall|i: int| 2 <= i < f.len() - 2 ==> !(#[trigger] f[i] == 0xffu8 && f[i + 1] == 0xd9u8))
}

/// Position of the first Start-Of-Image marker of `data`, if any.
fn find_soi(data: &[u8]) -> (r: Option<usize>)
    ensures
        match r {
            Some(s) => soi_at(data@, s as int) && (forall|k: int|
                0 <= k < s ==> !soi_at(data@, k)),
            None => no_soi(data@),
        },
{
    let n = data.len();
    if n < 2 {
        return None;
    }
    let mut i: usize = 0;
    while i < n - 1
        invariant
            n == data@.len(),
            2 <= n,
            i <= n - 1,
            forall|k: int| 0 <= k < i ==> !soi_at(data@, k),
        decreases n - i,
    {
        if data[i] == 0xff && data[i + 1] == 0xd8 {
            return Some(i);
        }
        i = i + 1;
    }
    return None;
}

/// Position of the first End-Of-Image marker of `data` at or past `from`.
fn find_eoi_from(data: &[u8], from: usize) -> (r: Option<usize>)
    ensures
        match r {
            Some(j) => from <= j && eoi_at(data@, j as int) && (forall|k: int|
                from <= k < j ==> !eoi_at(data@, k)),
            None => forall|k: int| from <= k ==> !eoi_at(data@, k),
        },
{
    let n = data.len();
    if n < 2 || from >= n - 1 {
        return None;
    }
    let mut i: usize = from;
    while i < n - 1
        invariant
            n == data@.len(),
            2 <= n,
            from <= i <= n - 1,
            forall|k: int| from <= k < i ==> !eoi_at(data@, k),
        decreases n - i,
    {
        if data[i] == 0xff && data[i + 1] == 0xd9 {
            return Some(i);
        }
        i = i + 1;
    }
    return None;
}

/// Scan `data` for the first complete JPEG. On success the result
/// `(start, end)` delimits the frame inclusively: `data[start ..= end]`
/// runs from the first SOI to the end of the first EOI that follows it.
/// `None` means no complete frame has accumulated yet.
pub fn find_jpg(data: &[u8]) -> (r: Option<(usize, usize)>)
    ensures
        match r {
            Some(p) => frame_at(data@, p.0 as int, p.1 as int),
            None => !has_frame(data@),
        },
{
    let n = data.len();
    let s = match find_soi(data) {
        Some(s) => s,
        None => {
            proof {
                assert forall|a: int, e: int| !frame_at(data@, a, e) by {
                    assert(!soi_at(data@, a));
                }
            }
            return None;
        },
    };
    match find_eoi_from(data, s + 2) {
        Some(j) => Some((s, j + 1)),
        None => {
            proof {
                assert forall|a: int, e: int| !frame_at(data@, a, e) by {
                    if frame_at(data@, a, e) {
                        // Two "first SOI" positions must coincide.
                        assert(a == s);
                        assert(eoi_at(data@, e - 1) && s + 2 <= e - 1);
                    }
                }
            }
            None
        },
    }
}

/// A scan pins the frame down: two frames found in the same bytes are the
/// same frame.
pub proof fn lemma_frame_at_unique(d: Seq<u8>, s1: int, e1: int, s2: int, e2: int)
    requires
        frame_at(d, s1, e1),
        frame_at(d, s2, e2),
    ensures
        s1 == s2,
        e1 == e2,
{
    assert(s1 == s2);
    if e1 < e2 {
        assert(eoi_at(d, e1 - 1) && s2 + 2 <= e1 - 1 < e2 - 1);
    }
    if e2 < e1 {
        assert(eoi_at(d, e2 - 1) && s1 + 2 <= e2 - 1 < e1 - 1);
    }
}

/// Round-trip step: when the accumulated bytes are some SOI-free prefix,
/// then one self-contained frame, then anything, the scan yields exactly
/// that frame, and discarding everything up to its end keeps exactly the
/// carry-over `rest`. Applied once per frame, this gives the reframer's
/// round trip: a concatenation of frames comes back out frame by frame,
/// byte-identical, whatever the chunking of the input.
pub proof fn lemma_scan_of_stream(junk: Seq<u8>, f: Seq<u8>, rest: Seq<u8>)
    requires
        no_soi(junk),
        wf_jpeg(f),
    ensures
        frame_at(junk + f + rest, junk.len() as int, junk.len() + f.len() - 1),
        (junk + f + rest).subrange(junk.len() + f.len() as int, (junk + f + rest).len() as int)
            == rest,
        (junk + f + rest).subrange(junk.len() as int, junk.len() + f.len() as int) == f,
{
    let d = junk + f + rest;
    let s = junk.len() as int;
    let e = s + f.len() - 1;
    assert forall|i: int| 0 <= i < f.len() implies d[s + i] == f[i] by {}
    assert(soi_at(d, s));
    assert forall|k: int| 0 <= k < s implies !soi_at(d, k) by {
        if k + 1 < s {
            assert(soi_at(d, k) ==> soi_at(junk, k));
        } else {
            // The pair straddles the boundary: its second byte is f[0] == FF,
            // never D8.
            assert(d[k + 1] == f[0]);
        }
    }
    assert(eoi_at(d, e - 1));
    assert forall|j: int| s + 2 <= j < e - 1 implies !eoi_at(d, j) by {
        assert(d[j] == f[j - s] && d[j + 1] == f[j - s + 1]);
    }
    assert(d.subrange(s + f.len() as int, d.len() as int) =~= rest);
    assert(d.subrange(s, s + f.len() as int) =~= f);
}

/// A self-contained frame standing alone is found whole: the scan reports
/// its full extent.
pub proof fn lemma_wf_frame_scans_whole(f: Seq<u8>)
    requires
        wf_jpeg(f),
    ensures
        frame_at(f, 0, f.len() - 1),
{
    lemma_scan_of_stream(Seq::empty(), f, Seq::empty());
    assert(Seq::empty() + f + Seq::empty() =~= f);
}

/// Round trip for a back-to-back pair: the scan of `f1 + f2` yields exactly
/// `f1`, the carry-over is exactly `f2`, and the scan of that carry-over
/// yields exactly `f2` — so two concatenated frames come back out in order,
/// byte-identical, however the bytes arrived.
pub proof fn lemma_round_trip_pair(f1: Seq<u8>, f2: Seq<u8>)
    requires
        wf_jpeg(f1),
        wf_jpeg(f2),
    ensures
        frame_at(f1 + f2, 0, f1.len() - 1),
        (f1 + f2).subrange(0, f1.len() as int) == f1,
        (f1 + f2).subrange(f1.len() as int, (f1 + f2).len() as int) == f2,
        frame_at(f2, 0, f2.len() - 1),
{
    lemma_scan_of_stream(Seq::empty(), f1, f2);
    assert(Seq::empty() + f1 + f2 =~= f1 + f2);
    lemma_wf_frame_scans_whole(f2);
    assert((f1 + f2).subrange(0, f1.len() as int) =~= f1);
    assert((f1 + f2).subrange(f1.len() as int, (f1 + f2).len() as int) =~= f2);
}

} // verus!
