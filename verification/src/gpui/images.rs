//! Pixel sizes read from the first bytes of PNG, JPEG and WebP files, so the
//! photo viewer can show a picture one image pixel per device pixel.

use vstd::prelude::*;

verus! {

/// A big-endian 16-bit number.
pub open spec fn be16(a: u8, b: u8) -> int {
    a as int * 256 + b as int
}

/// A big-endian 32-bit number.
pub open spec fn be32(d: Seq<u8>, i: int) -> int {
    d[i] as int * 0x100_0000 + d[i + 1] as int * 0x1_0000 + d[i + 2] as int * 0x100 + d[i + 3] as int
}

/// A little-endian 16-bit number.
pub open spec fn le16(a: u8, b: u8) -> int {
    a as int + b as int * 256
}

/// The PNG signature.
pub open spec fn png_signature() -> Seq<u8> {
    seq![0x89u8, 0x50u8, 0x4eu8, 0x47u8, 0x0du8, 0x0au8, 0x1au8, 0x0au8]
}

/// `IHDR`, `RIFF`, `WEBP`, `VP8X`, `VP8 `, `VP8L` as bytes.
pub open spec fn ihdr() -> Seq<u8> { seq![0x49u8, 0x48u8, 0x44u8, 0x52u8] }
pub open spec fn riff() -> Seq<u8> { seq![0x52u8, 0x49u8, 0x46u8, 0x46u8] }
pub open spec fn webp() -> Seq<u8> { seq![0x57u8, 0x45u8, 0x42u8, 0x50u8] }
pub open spec fn vp8x() -> Seq<u8> { seq![0x56u8, 0x50u8, 0x38u8, 0x58u8] }
pub open spec fn vp8() -> Seq<u8> { seq![0x56u8, 0x50u8, 0x38u8, 0x20u8] }
pub open spec fn vp8l() -> Seq<u8> { seq![0x56u8, 0x50u8, 0x38u8, 0x4cu8] }

/// Width and height from a PNG `IHDR` chunk, when both fit an `i32` and
/// are positive.
pub open spec fn png_size_spec(d: Seq<u8>) -> Option<(i32, i32)> {
    if d.len() < 24 || d.subrange(0, 8) != png_signature() || d.subrange(12, 16) != ihdr() {
        None
    } else {
        let w = be32(d, 16);
        let h = be32(d, 20);
        if 0 < w <= i32::MAX && 0 < h <= i32::MAX { Some((w as i32, h as i32)) } else { None }
    }
}

fn matches_bytes(d: &[u8], at: usize, p: &[u8]) -> (r: bool)
    requires
        at + p.len() <= d.len(),
    ensures
        r == (d@.subrange(at as int, at + p.len()) == p@),
{
    let mut k: usize = 0;
    while k < p.len()
        invariant
            k <= p.len(),
            at + p.len() <= d.len(),
            forall|j: int| 0 <= j < k ==> d@[at + j] == p@[j],
        decreases p.len() - k,
    {
        if d[at + k] != p[k] {
            assert(d@.subrange(at as int, at + p.len())[k as int] != p@[k as int]);
            return false;
        }
        k += 1;
    }
    assert(d@.subrange(at as int, at + p.len()) =~= p@);
    true
}

/// The pixel size in a PNG header.
pub fn png_pixel_size(data: &[u8]) -> (r: Option<(i32, i32)>)
    ensures
        r == png_size_spec(data@),
{
    if data.len() < 24 {
        return None;
    }
    let sig: [u8; 8] = [0x89, 0x50, 0x4e, 0x47, 0x0d, 0x0a, 0x1a, 0x0a];
    let chunk: [u8; 4] = [0x49, 0x48, 0x44, 0x52];
    assert(sig@ =~= png_signature());
    assert(chunk@ =~= ihdr());
    if !matches_bytes(data, 0, &sig) || !matches_bytes(data, 12, &chunk) {
        return None;
    }
    let w: u64 = data[16] as u64 * 0x100_0000 + data[17] as u64 * 0x1_0000 + data[18] as u64 * 0x100 + data[19] as u64;
    let h: u64 = data[20] as u64 * 0x100_0000 + data[21] as u64 * 0x1_0000 + data[22] as u64 * 0x100 + data[23] as u64;
    if 0 < w && w <= i32::MAX as u64 && 0 < h && h <= i32::MAX as u64 {
        Some((w as i32, h as i32))
    } else {
        None
    }
}

/// Markers with no length field: `SOI`, `EOI`, `SOS` and the restarts.
pub open spec fn is_standalone(m: u8) -> bool {
    m == 0xd8 || m == 0xd9 || m == 0xda || (0xd0 <= m && m <= 0xd7)
}

/// Start-of-frame markers, which carry the image size.
pub open spec fn is_frame(m: u8) -> bool {
    m == 0xc0 || m == 0xc1 || m == 0xc2 || m == 0xc3 || m == 0xc5 || m == 0xc6 || m == 0xc7
        || m == 0xc9 || m == 0xca || m == 0xcb || m == 0xcd || m == 0xce || m == 0xcf
}

/// The first position at or after `i` that is not a `0xff` fill byte.
pub open spec fn skip_fill(d: Seq<u8>, i: int) -> int
    decreases d.len() - i,
{
    if 0 <= i < d.len() && d[i] == 0xff { skip_fill(d, i + 1) } else { i }
}

proof fn lemma_skip_fill(d: Seq<u8>, i: int)
    requires
        0 <= i,
    ensures
        i <= skip_fill(d, i),
        i < d.len() && d[i] == 0xff ==> i < skip_fill(d, i),
        skip_fill(d, i) < d.len() ==> d[skip_fill(d, i)] != 0xff,
        i <= d.len() ==> skip_fill(d, i) <= d.len(),
    decreases d.len() - i,
{
    if 0 <= i < d.len() && d[i] == 0xff {
        lemma_skip_fill(d, i + 1);
    }
}

/// Walks the JPEG segments from `i` to the first start-of-frame segment.
pub open spec fn jpeg_scan(d: Seq<u8>, i: int) -> Option<(i32, i32)>
    decreases d.len() - i,
{
    if i < 0 || !(i + 3 < d.len()) || d[i] != 0xff {
        None
    } else {
        let j = skip_fill(d, i);
        if j <= i || j >= d.len() {
            None
        } else {
            let m = d[j];
            let k = j + 1;
            if is_standalone(m) {
                if m == 0xda || m == 0xd9 { None } else { jpeg_scan(d, k) }
            } else if k + 1 >= d.len() {
                None
            } else {
                let len = be16(d[k], d[k + 1]);
                if len < 2 || k + len > d.len() {
                    None
                } else if is_frame(m) && len >= 7 {
                    let h = be16(d[k + 3], d[k + 4]);
                    let w = be16(d[k + 5], d[k + 6]);
                    if w > 0 && h > 0 { Some((w as i32, h as i32)) } else { None }
                } else {
                    jpeg_scan(d, k + len)
                }
            }
        }
    }
}

/// The pixel size in a JPEG's first start-of-frame segment.
pub open spec fn jpeg_size_spec(d: Seq<u8>) -> Option<(i32, i32)> {
    if d.len() < 4 || d[0] != 0xff || d[1] != 0xd8 { None } else { jpeg_scan(d, 2) }
}

/// The pixel size in a JPEG header.
pub fn jpeg_pixel_size(data: &[u8]) -> (r: Option<(i32, i32)>)
    ensures
        r == jpeg_size_spec(data@),
{
    if data.len() < 4 || data[0] != 0xff || data[1] != 0xd8 {
        return None;
    }
    let mut index: usize = 2;
    loop
        invariant
            2 <= index,
            data.len() >= 4,
            data@[0] == 0xff && data@[1] == 0xd8,
            jpeg_size_spec(data@) == jpeg_scan(data@, index as int),
        decreases data.len() - index,
    {
        if !(index < data.len() && data.len() - index > 3) {
            return None;
        }
        if data[index] != 0xff {
            return None;
        }
        proof {
            lemma_skip_fill(data@, index as int);
        }
        let mut j = index;
        while j < data.len() && data[j] == 0xff
            invariant
                index <= j <= data.len(),
                skip_fill(data@, index as int) == skip_fill(data@, j as int),
            decreases data.len() - j,
        {
            j += 1;
        }
        if j >= data.len() {
            return None;
        }
        let marker = data[j];
        let k = j + 1;
        if marker == 0xd8 || marker == 0xd9 || marker == 0xda || (0xd0 <= marker && marker <= 0xd7) {
            if marker == 0xda || marker == 0xd9 {
                return None;
            }
            index = k;
            continue;
        }
        if k >= data.len() - 1 {
            return None;
        }
        let len: usize = data[k] as usize * 256 + data[k + 1] as usize;
        if len < 2 || len > data.len() - k {
            return None;
        }
        if (marker == 0xc0 || marker == 0xc1 || marker == 0xc2 || marker == 0xc3 || marker == 0xc5 || marker == 0xc6
            || marker == 0xc7 || marker == 0xc9 || marker == 0xca || marker == 0xcb || marker == 0xcd || marker
            == 0xce || marker == 0xcf) && len >= 7 {
            let h: i32 = data[k + 3] as i32 * 256 + data[k + 4] as i32;
            let w: i32 = data[k + 5] as i32 * 256 + data[k + 6] as i32;
            if w > 0 && h > 0 {
                return Some((w, h));
            }
            return None;
        }
        index = k + len;
    }
}

/// The pixel size in a WebP header: the canvas of an extended file, or the
/// frame of a lossy or lossless one.
pub open spec fn webp_size_spec(d: Seq<u8>) -> Option<(i32, i32)> {
    if d.len() < 30 || d.subrange(0, 4) != riff() || d.subrange(8, 12) != webp() {
        None
    } else {
        let tag = d.subrange(12, 16);
        if tag == vp8x() {
            Some(((1 + le16(d[24], d[25])) as i32, (1 + le16(d[27], d[28])) as i32))
        } else if tag == vp8() {
            if d[23] != 0x9d || d[24] != 0x01 || d[25] != 0x2a {
                None
            } else {
                let w = le16(d[26], d[27]) % 0x4000;
                let h = le16(d[28], d[29]) % 0x4000;
                if w > 0 && h > 0 { Some((w as i32, h as i32)) } else { None }
            }
        } else if tag == vp8l() {
            if d[20] != 0x2f {
                None
            } else {
                let bits = d[21] as int + d[22] as int * 0x100 + d[23] as int * 0x1_0000 + d[24] as int * 0x100_0000;
                Some(((bits % 0x4000 + 1) as i32, ((bits / 0x4000) % 0x4000 + 1) as i32))
            }
        } else {
            None
        }
    }
}

/// The pixel size in a WebP header.
pub fn webp_pixel_size(data: &[u8]) -> (r: Option<(i32, i32)>)
    ensures
        r == webp_size_spec(data@),
{
    if data.len() < 30 {
        return None;
    }
    let riff_tag: [u8; 4] = [0x52, 0x49, 0x46, 0x46];
    let webp_tag: [u8; 4] = [0x57, 0x45, 0x42, 0x50];
    let vp8x_tag: [u8; 4] = [0x56, 0x50, 0x38, 0x58];
    let vp8_tag: [u8; 4] = [0x56, 0x50, 0x38, 0x20];
    let vp8l_tag: [u8; 4] = [0x56, 0x50, 0x38, 0x4c];
    assert(riff_tag@ =~= riff());
    assert(webp_tag@ =~= webp());
    assert(vp8x_tag@ =~= vp8x());
    assert(vp8_tag@ =~= vp8());
    assert(vp8l_tag@ =~= vp8l());
    if !matches_bytes(data, 0, &riff_tag) || !matches_bytes(data, 8, &webp_tag) {
        return None;
    }
    if matches_bytes(data, 12, &vp8x_tag) {
        let w: i32 = 1 + data[24] as i32 + data[25] as i32 * 256;
        let h: i32 = 1 + data[27] as i32 + data[28] as i32 * 256;
        return Some((w, h));
    }
    if matches_bytes(data, 12, &vp8_tag) {
        if data[23] != 0x9d || data[24] != 0x01 || data[25] != 0x2a {
            return None;
        }
        let w: i32 = (data[26] as i32 + data[27] as i32 * 256) % 0x4000;
        let h: i32 = (data[28] as i32 + data[29] as i32 * 256) % 0x4000;
        if w > 0 && h > 0 {
            return Some((w, h));
        }
        return None;
    }
    if matches_bytes(data, 12, &vp8l_tag) {
        if data[20] != 0x2f {
            return None;
        }
        let bits: u32 = data[21] as u32 + data[22] as u32 * 0x100 + data[23] as u32 * 0x1_0000 + data[24] as u32
            * 0x100_0000;
        let w: i32 = (bits % 0x4000 + 1) as i32;
        let h: i32 = ((bits / 0x4000) % 0x4000 + 1) as i32;
        return Some((w, h));
    }
    None
}

/// The pixel size of a PNG, else a JPEG, else a WebP.
pub open spec fn image_size_spec(d: Seq<u8>) -> Option<(i32, i32)> {
    match png_size_spec(d) {
        Some(s) => Some(s),
        None => match jpeg_size_spec(d) {
            Some(s) => Some(s),
            None => webp_size_spec(d),
        },
    }
}

/// The pixel size of an image from its first bytes.
pub fn image_pixel_size(data: &[u8]) -> (r: Option<(i32, i32)>)
    ensures
        r == image_size_spec(data@),
{
    match png_pixel_size(data) {
        Some(s) => Some(s),
        None => match jpeg_pixel_size(data) {
            Some(s) => Some(s),
            None => webp_pixel_size(data),
        },
    }
}

} // verus!
