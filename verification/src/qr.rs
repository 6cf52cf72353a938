//! Reading an attendance QR code from a camera frame: the frame's RGBA
//! pixels turned to greyscale, handed to `rqrr`, and the first grid that
//! decodes taken.
use vstd::prelude::*;

verus! {

/// The greyscale value of an RGBA pixel: the usual luma weights
/// (299, 587, 114 per thousand), rounded down.
pub open spec fn luma(r: int, g: int, b: int) -> int {
    (r * 299 + g * 587 + b * 114) / 1000
}

/// The number of pixels read from `n` bytes, four bytes a pixel (a last,
/// shorter group of three still counts).
pub open spec fn pixel_count(n: int) -> int {
    (n + 3) / 4
}

/// The greyscale image of RGBA bytes, one value a pixel.
pub open spec fn grey_pixels(data: Seq<u8>) -> Seq<u8> {
    Seq::new(
        pixel_count(data.len() as int) as nat,
        |p: int| luma(data[4 * p] as int, data[4 * p + 1] as int, data[4 * p + 2] as int) as u8,
    )
}

/// The greyscale image of a frame's RGBA bytes; every group of four bytes
/// must hold at least red, green and blue.
pub fn grayscale(data: &Vec<u8>) -> (r: Vec<u8>)
    requires
        data.len() % 4 == 0 || data.len() % 4 == 3,
    ensures
        r@ == grey_pixels(data@),
{
    let n = data.len();
    let count: usize = if n % 4 == 3 {
        n / 4 + 1
    } else {
        n / 4
    };
    assert(count == pixel_count(n as int));
    let mut out: Vec<u8> = Vec::new();
    let mut p: usize = 0;
    while p < count
        invariant
            n == data.len(),
            n % 4 == 0 || n % 4 == 3,
            count == pixel_count(n as int),
            0 <= p <= count,
            out@.len() == p,
            forall|q: int| 0 <= q < out@.len() ==> #[trigger] out@[q] == luma(
                data@[4 * q] as int,
                data@[4 * q + 1] as int,
                data@[4 * q + 2] as int,
            ) as u8,
        decreases count - p,
    {
        assert(4 * p + 2 < n);
        let i = 4 * p;
        let r = data[i] as u32;
        let g = data[i + 1] as u32;
        let b = data[i + 2] as u32;
        let gray = ((r * 299 + g * 587 + b * 114) / 1000) as u8;
        out.push(gray);
        p = p + 1;
    }
    assert(out@.len() == pixel_count(data.len() as int));
    assert(out@ =~= grey_pixels(data@));
    out
}

/// The value at column `x` of row `y` of a row-major image `width` wide;
/// black outside the image.
pub fn pixel_at(gray: &Vec<u8>, width: usize, x: usize, y: usize) -> (v: u8)
    ensures
        (y * width + x < gray.len() ==> v == gray@[y * width + x]),
        (y * width + x >= gray.len() ==> v == 0),
{
    match y.checked_mul(width) {
        Some(row) => match row.checked_add(x) {
            Some(k) => if k < gray.len() {
                gray[k]
            } else {
                0
            },
            None => 0,
        },
        None => 0,
    }
}

/// What `rqrr` reads from a greyscale image `width` by `height` (row by
/// row): for each grid that it detects, in its order, the text that the
/// grid decodes to, or none where it does not decode.
pub uninterp spec fn qr_grid_texts(width: usize, height: usize, gray: Seq<u8>) -> Seq<Option<Seq<char>>>;

/// The texts of optional strings.
pub open spec fn texts(v: Seq<Option<String>>) -> Seq<Option<Seq<char>>> {
    Seq::new(
        v.len(),
        |i: int|
            match v[i] {
                Some(s) => Some(s@),
                None => None,
            },
    )
}

/// `rqrr::PreparedImage::prepare_from_greyscale`, `detect_grids` and
/// `Grid::decode` on each grid: the decoded text of every detected grid, in
/// order, none for a grid that does not decode; the name `qr_grid_texts`
/// stands for the result.  rqrr's decoding keeps internal assertions (on
/// its bit buffer and its error-correction blocks) whose bounds follow from
/// the largest QR version; that none of them fails on any image is left
/// unsaid here.
#[verifier::external_body]
fn read_qr_grids(width: usize, height: usize, gray: &Vec<u8>) -> (r: Vec<Option<String>>)
    requires
        gray.len() == width * height,
    ensures
        texts(r@) == qr_grid_texts(width, height, gray@),
{
    let mut img = rqrr::PreparedImage::prepare_from_greyscale(width, height, |x, y| pixel_at(gray, width, x, y));
    img.detect_grids().into_iter().map(|g| g.decode().ok().map(|(_meta, content)| content)).collect()
}

/// The first of the texts that is there.
pub open spec fn first_text(v: Seq<Option<Seq<char>>>) -> Option<Seq<char>>
    decreases v.len(),
{
    if v.len() == 0 {
        None
    } else if v[0] is Some {
        v[0]
    } else {
        first_text(v.drop_first())
    }
}

/// The text of the first grid that decoded, if any.
pub fn first_decoded(results: Vec<Option<String>>) -> (r: Option<String>)
    ensures
        match r {
            Some(s) => first_text(texts(results@)) == Some(s@),
            None => first_text(texts(results@)) is None,
        },
{
    let mut i: usize = 0;
    assert(texts(results@).subrange(0, results.len() as int) =~= texts(results@));
    while i < results.len()
        invariant
            0 <= i <= results.len(),
            first_text(texts(results@).subrange(i as int, results.len() as int)) == first_text(texts(results@)),
        decreases results.len() - i,
    {
        let ghost rest = texts(results@).subrange(i as int, results.len() as int);
        match &results[i] {
            Some(s) => {
                assert(rest[0] == Some(s@));
                return Some(s.clone());
            },
            None => {
                assert(rest.drop_first() =~= texts(results@).subrange(i + 1, results.len() as int));
            },
        }
        i = i + 1;
    }
    None
}

/// The text of the first QR code found in a `width` by `height` camera
/// frame of RGBA bytes, if any decodes.
pub fn decode_qr(width: u32, height: u32, rgba: &Vec<u8>) -> (r: Option<String>)
    requires
        rgba.len() == 4 * width * height,
        width * height <= u32::MAX,
    ensures
        match r {
            Some(s) => first_text(qr_grid_texts(width as usize, height as usize, grey_pixels(rgba@)))
                == Some(s@),
            None => first_text(qr_grid_texts(width as usize, height as usize, grey_pixels(rgba@))) is None,
        },
{
    let ghost k: int = width * height;
    assert(4 * width * height == 4 * k) by (nonlinear_arith)
        requires
            k == width * height,
    ;
    assert((4 * k) % 4 == 0 && (4 * k + 3) / 4 == k);
    let gray = grayscale(rgba);
    assert(gray.len() == width * height);
    let results = read_qr_grids(width as usize, height as usize, &gray);
    first_decoded(results)
}

} // verus!
