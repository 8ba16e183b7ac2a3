//! Segments that are dressed up as pictures or packed with gzip.

use crate::error::{Error, ErrorView, Result};
use crate::outside::{gunzip, gzip_plain};
use vstd::prelude::*;

verus! {

/// Bytes that begin as gzip data do.
pub open spec fn has_gzip_header(b: Seq<u8>) -> bool {
    b.len() > 2 && b[0] == 0x1f && b[1] == 0x8b
}

/// Bytes that begin as a PNG picture does.
pub open spec fn has_png_header(b: Seq<u8>) -> bool {
    b.len() >= 4 && b[0] == 137 && b[1] == 80 && b[2] == 78 && b[3] == 71
}

/// Bytes that begin as a GIF picture does.
pub open spec fn has_gif_header(b: Seq<u8>) -> bool {
    b.len() >= 4 && b[0] == 0x47 && b[1] == 0x49 && b[2] == 0x46 && b[3] == 0x38
}

/// Bytes that begin with the letters of a bitmap.
pub open spec fn has_bitmap_letters(b: Seq<u8>) -> bool {
    b.len() >= 2 && b[0] == 0x42 && b[1] == 0x4d
}

/// The bytes behind the length of a bitmap are zero.
pub open spec fn has_bitmap_zeros(b: Seq<u8>) -> bool {
    b.len() >= 9 && b[5] == 0 && b[6] == 0 && b[7] == 0 && b[8] == 0
}

/// Bytes that begin as a JPEG picture does.
pub open spec fn has_jpeg_header(b: Seq<u8>) -> bool {
    b.len() >= 3 && b[0] == 0xff && b[1] == 0xd8 && b[2] == 0xff
}

/// Bytes that begin as a picture does.
pub open spec fn has_image_header(b: Seq<u8>) -> bool {
    ||| has_png_header(b)
    ||| has_gif_header(b)
    ||| (b.len() > 10 && has_bitmap_letters(b) && has_bitmap_zeros(b))
    ||| (b.len() > 3 && has_jpeg_header(b))
}

/// Whether bytes begin as gzip data do.
pub fn is_gzip_header(b: &Vec<u8>) -> (r: bool)
    ensures
        r == has_gzip_header(b@),
{
    b.len() > 2 && b[0] == 0x1f && b[1] == 0x8b
}

fn is_png(b: &Vec<u8>) -> (r: bool)
    ensures
        r == has_png_header(b@),
{
    b.len() >= 4 && b[0] == 137 && b[1] == 80 && b[2] == 78 && b[3] == 71
}

fn is_gif(b: &Vec<u8>) -> (r: bool)
    ensures
        r == has_gif_header(b@),
{
    b.len() >= 4 && b[0] == 0x47 && b[1] == 0x49 && b[2] == 0x46 && b[3] == 0x38
}

/// Whether bytes begin as a picture does.
pub fn is_image_header(b: &Vec<u8>) -> (r: bool)
    ensures
        r == has_image_header(b@),
{
    is_png(b) || is_gif(b) || (b.len() > 10 && b[0] == 0x42 && b[1] == 0x4d && b[5] == 0 && b[6] == 0
        && b[7] == 0 && b[8] == 0) || (b.len() > 3 && b[0] == 0xff && b[1] == 0xd8 && b[2] == 0xff)
}

/// Three packets of a transport stream begin at a position.
pub open spec fn is_sync(b: Seq<u8>, i: int) -> bool {
    0 <= i && i + 376 < b.len() && b[i] == 0x47 && b[i + 188] == 0x47 && b[i + 376] == 0x47
}

/// The first position, from `i` on, at which three packets begin. The last 380 bytes are not looked
/// at.
pub open spec fn sync_from(b: Seq<u8>, i: int) -> Option<int>
    decreases b.len() - i,
{
    if i < 0 || i >= b.len() - 380 {
        None
    } else if is_sync(b, i) {
        Some(i)
    } else {
        sync_from(b, i + 1)
    }
}

/// Where a transport stream begins; at the front where none is found.
pub open spec fn sync_start(b: Seq<u8>) -> int {
    match sync_from(b, 4) {
        Some(i) => i,
        None => 0,
    }
}

/// A transport stream is found no later than at any position at which three packets begin.
pub proof fn law_sync_is_first(b: Seq<u8>, from: int, i: int)
    requires
        0 <= from <= i < b.len() - 380,
        is_sync(b, i),
    ensures
        sync_from(b, from) is Some,
        from <= sync_from(b, from)->0 <= i,
        is_sync(b, sync_from(b, from)->0),
    decreases i - from,
{
    if !is_sync(b, from) {
        law_sync_is_first(b, from + 1, i);
    }
}

fn find_ts_sync_offset(b: &Vec<u8>) -> (r: usize)
    ensures
        r == sync_start(b@),
        r <= b@.len(),
{
    let len: usize = b.len();
    if len <= 380 {
        return 0;
    }
    let limit: usize = len - 380;
    let mut i: usize = 4;
    while i < limit
        invariant
            4 <= i,
            len == b@.len(),
            limit == len - 380,
            sync_from(b@, 4) == sync_from(b@, i as int),
        decreases limit - i,
    {
        if b[i] == 0x47 && b[i + 188] == 0x47 && b[i + 376] == 0x47 {
            return i;
        }
        i = i + 1;
    }
    0
}

/// The end of a short picture in front of a segment: the last two bytes of its last chunk.
pub open spec fn picture_ends_at(b: Seq<u8>, n: int) -> bool {
    b.len() > n && b[n - 2] == 96 && b[n - 1] == 130
}

/// How many bytes of a PNG picture stand in front of a segment.
pub open spec fn png_length(b: Seq<u8>) -> int {
    if picture_ends_at(b, 120) {
        120
    } else if picture_ends_at(b, 6102) {
        6102
    } else if picture_ends_at(b, 69) {
        69
    } else if picture_ends_at(b, 771) {
        771
    } else {
        sync_start(b)
    }
}

fn ends_at(b: &Vec<u8>, n: usize) -> (r: bool)
    requires
        n >= 2,
    ensures
        r == picture_ends_at(b@, n as int),
{
    b.len() > n && b[n - 2] == 96 && b[n - 1] == 130
}

fn find_png_length(b: &Vec<u8>) -> (r: usize)
    ensures
        r == png_length(b@),
        r <= b@.len(),
{
    if ends_at(b, 120) {
        120
    } else if ends_at(b, 6102) {
        6102
    } else if ends_at(b, 69) {
        69
    } else if ends_at(b, 771) {
        771
    } else {
        find_ts_sync_offset(b)
    }
}

/// How many bytes of a picture stand in front of a segment; none where the picture is cut off.
pub open spec fn picture_length(b: Seq<u8>) -> Option<int> {
    if has_png_header(b) {
        Some(png_length(b))
    } else if has_gif_header(b) {
        if b.len() < 42 {
            None
        } else {
            Some(42)
        }
    } else if has_bitmap_letters(b) {
        if b.len() < 9 {
            None
        } else if !has_bitmap_zeros(b) {
            Some(0)
        } else if b.len() < 0x3e {
            None
        } else {
            Some(0x3e)
        }
    } else if has_jpeg_header(b) {
        Some(sync_start(b))
    } else {
        Some(0)
    }
}

/// A segment without the picture in front of it.
pub open spec fn without_picture(b: Seq<u8>) -> core::result::Result<Seq<u8>, ErrorView> {
    match picture_length(b) {
        Some(n) => Ok(b.skip(n)),
        None => Err(ErrorView::Http("image header repair failed"@)),
    }
}

fn find_picture_length(b: &Vec<u8>) -> (r: Option<usize>)
    ensures
        match r {
            Some(n) => picture_length(b@) == Some(n as int) && n <= b@.len(),
            None => picture_length(b@) is None,
        },
{
    if is_png(b) {
        return Some(find_png_length(b));
    }
    if is_gif(b) {
        return if b.len() < 42 {
            None
        } else {
            Some(42)
        };
    }
    if b.len() >= 2 && b[0] == 0x42 && b[1] == 0x4d {
        if b.len() < 9 {
            return None;
        }
        if !(b[5] == 0 && b[6] == 0 && b[7] == 0 && b[8] == 0) {
            return Some(0);
        }
        return if b.len() < 0x3e {
            None
        } else {
            Some(0x3e)
        };
    }
    if b.len() >= 3 && b[0] == 0xff && b[1] == 0xd8 && b[2] == 0xff {
        return Some(find_ts_sync_offset(b));
    }
    Some(0)
}

/// A segment without the picture in front of it.
pub fn process_image_header(b: Vec<u8>) -> (r: Result<Vec<u8>>)
    ensures
        match r {
            Ok(v) => without_picture(b@) == Ok::<Seq<u8>, ErrorView>(v@),
            Err(e) => without_picture(b@) == Err::<Seq<u8>, ErrorView>(e.deep_view()),
        },
{
    match find_picture_length(&b) {
        None => Err(Error::http("image header repair failed")),
        Some(n) => {
            let mut out: Vec<u8> = Vec::new();
            let mut i: usize = n;
            while i < b.len()
                invariant
                    n <= i <= b@.len(),
                    out@ =~= b@.subrange(n as int, i as int),
                decreases b@.len() - i,
            {
                out.push(b[i]);
                i = i + 1;
            }
            assert(out@ =~= b@.skip(n as int));
            Ok(out)
        },
    }
}

/// A segment with what was done to its bytes undone: a picture in front of it goes, and gzip data
/// that can be read are unpacked.
pub open spec fn repaired(b: Seq<u8>, image: bool, gzip: bool) -> core::result::Result<
    Seq<u8>,
    ErrorView,
> {
    let bare = if image {
        without_picture(b)
    } else {
        Ok(b)
    };
    match bare {
        Err(e) => Err(e),
        Ok(v) => if gzip {
            match gzip_plain(v) {
                Ok(plain) => Ok(plain),
                Err(_) => Ok(v),
            }
        } else {
            Ok(v)
        },
    }
}

/// A segment with what was done to its bytes undone.
pub fn repair_downloaded_file(b: Vec<u8>, image_header: bool, gzip_header: bool) -> (r: Result<
    Vec<u8>,
>)
    ensures
        match r {
            Ok(v) => repaired(b@, image_header, gzip_header) == Ok::<Seq<u8>, ErrorView>(v@),
            Err(e) => repaired(b@, image_header, gzip_header) == Err::<Seq<u8>, ErrorView>(
                e.deep_view(),
            ),
        },
{
    let bare: Vec<u8> = if image_header {
        process_image_header(b)?
    } else {
        b
    };
    if gzip_header {
        return match gunzip(&bare) {
            Ok(plain) => Ok(plain),
            Err(_) => Ok(bare),
        };
    }
    Ok(bare)
}

} // verus!
