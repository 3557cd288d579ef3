//! The icon of the launcher: the image of an icon file that suits a size best, or a plain square.
use vstd::prelude::*;

verus! {

/// The colour of the plain square.
pub const ACCENT: u32 = 0x4C8BF5;

/// An image: four bytes a pixel, row by row.
#[derive(Debug)]
pub struct Image {
    pub width: u32,
    pub height: u32,
    pub rgba: Vec<u8>,
}

pub struct ImageView {
    pub width: u32,
    pub height: u32,
    pub rgba: Seq<u8>,
}

impl DeepView for Image {
    type V = ImageView;

    open spec fn deep_view(&self) -> ImageView {
        ImageView { width: self.width, height: self.height, rgba: self.rgba@ }
    }
}

/// The widths of the images in an icon file, as `ico::IconDir::read` and `IconDirEntry::width` give
/// them; none where the file cannot be read.
pub uninterp spec fn ico_widths(data: Seq<u8>) -> Option<Seq<u32>>;

/// The encoded bytes of an image in an icon file, as `ico::IconDirEntry::data` gives them.
pub uninterp spec fn ico_payload(data: Seq<u8>, index: int) -> Seq<u8>;

/// An image in an icon file, as `ico::IconDirEntry::decode` gives it; none where that fails.
pub uninterp spec fn ico_image(data: Seq<u8>, index: int) -> Option<ImageView>;

/// The number in two bytes, the lower first.
pub open spec fn le16(b: Seq<u8>, at: int) -> nat {
    (b[at] + 256 * b[at + 1]) as nat
}

/// The number in four bytes, the lowest first.
pub open spec fn le32(b: Seq<u8>, at: int) -> nat {
    (le16(b, at) + 0x1_0000 * le16(b, at + 2)) as nat
}

/// How many colours a bitmap of so many bits a pixel has a table for.
pub open spec fn table_size(bits: nat) -> nat {
    if bits == 1 {
        2
    } else if bits == 4 {
        16
    } else if bits == 8 {
        256
    } else {
        0
    }
}

/// Whether the bytes are a PNG file, or a bitmap that has no colour table shorter than its pixels
/// may ask for, or too short to be either.
pub open spec fn has_full_table(payload: Seq<u8>) -> bool {
    ||| payload.len() < 36
    ||| payload[0] == 0x89 && payload[1] == 0x50 && payload[2] == 0x4E && payload[3] == 0x47
    ||| le32(payload, 32) == 0
    ||| le32(payload, 32) >= table_size(le16(payload, 14))
}

/// Calls `ico::IconDir::read` on a cursor over the bytes, and `IconDirEntry::width` on each entry.
/// Claimed: whether the file can be read, and the widths, are functions of the bytes.
#[verifier::external_body]
fn read_widths(data: &Vec<u8>) -> (r: Option<Vec<u32>>)
    ensures
        match r {
            Some(widths) => ico_widths(data@) == Some(widths@),
            None => ico_widths(data@) is None,
        },
{
    let dir = ico::IconDir::read(std::io::Cursor::new(data)).ok()?;
    Some(dir.entries().iter().map(|e| e.width()).collect())
}

/// Calls `ico::IconDir::read` on a cursor over the bytes, and `IconDirEntry::data` on the entry.
/// Claimed: what it gives is a function of the bytes and the index.
#[verifier::external_body]
fn read_payload(data: &Vec<u8>, index: usize) -> (r: Vec<u8>)
    requires
        ico_widths(data@) matches Some(widths) && index < widths.len(),
    ensures
        r@ == ico_payload(data@, index as int),
{
    match ico::IconDir::read(std::io::Cursor::new(data)) {
        Ok(dir) => dir.entries()[index].data().to_vec(),
        Err(_) => Vec::new(),
    }
}

/// Calls `ico::IconDir::read` on a cursor over the bytes, and `IconDirEntry::decode` on the entry.
/// Claimed: whether that succeeds, and the image, are functions of the bytes and the index. A
/// bitmap with a short colour table is left out: there `decode` can panic.
#[verifier::external_body]
fn read_image(data: &Vec<u8>, index: usize) -> (r: Option<Image>)
    requires
        ico_widths(data@) matches Some(widths) && index < widths.len(),
        has_full_table(ico_payload(data@, index as int)),
    ensures
        r.deep_view() == ico_image(data@, index as int),
{
    let dir = ico::IconDir::read(std::io::Cursor::new(data)).ok()?;
    let image = dir.entries()[index].decode().ok()?;
    Some(
        Image { width: image.width(), height: image.height(), rgba: image.rgba_data().to_vec() },
    )
}

/// Whether an image suits the size better than another: the size itself, then the smallest that is
/// larger, then the largest.
pub open spec fn suits_better(a: u32, b: u32, size: u32) -> bool {
    if a == size || b == size {
        a == size && b != size
    } else if a > size || b > size {
        a > size && (b < size || a < b)
    } else {
        a > b
    }
}

/// Whether the image at `i` is the one to take: none suits better, and of those that suit as well
/// it is the first, or the last where all are smaller than the size.
pub open spec fn is_best(widths: Seq<u32>, size: u32, i: int) -> bool {
    &&& 0 <= i < widths.len()
    &&& forall|k: int|
        0 <= k < widths.len() ==> !suits_better(#[trigger] widths[k], widths[i], size)
    &&& forall|k: int|
        0 <= k < widths.len() && #[trigger] widths[k] == widths[i] ==> if widths[i] < size {
            k <= i
        } else {
            i <= k
        }
}

/// The image that suits the size best; none where there is no image.
pub fn best_entry(widths: &Vec<u32>, size: u32) -> (r: Option<usize>)
    ensures
        match r {
            Some(i) => is_best(widths@, size, i as int),
            None => widths@.len() == 0,
        },
{
    if widths.len() == 0 {
        return None;
    }
    let mut best: usize = 0;
    let mut i: usize = 1;
    while i < widths.len()
        invariant
            0 < i <= widths@.len(),
            best < i,
            is_best(widths@.take(i as int), size, best as int),
        decreases widths@.len() - i,
    {
        let a: u32 = widths[i];
        let b: u32 = widths[best];
        let ghost before = widths@.take(i as int);
        let ghost upto = widths@.take(i + 1);
        proof {
            assert forall|k: int| 0 <= k < i implies #[trigger] upto[k] == before[k] by {}
            assert(before[best as int] == b);
            assert(upto[i as int] == a);
        }
        let better = if a == size || b == size {
            a == size && b != size
        } else if a > size || b > size {
            a > size && (b < size || a < b)
        } else {
            a > b
        };
        if better || (a == b && a < size) {
            best = i;
        }
        proof {
            assert forall|k: int| 0 <= k < upto.len() implies !suits_better(
                #[trigger] upto[k],
                upto[best as int],
                size,
            ) by {
                if k < i {
                    assert(!suits_better(before[k], b, size));
                }
            }
            assert forall|k: int| 0 <= k < upto.len() && #[trigger] upto[k] == upto[best as int] implies if upto[best as int]
                < size {
                k <= best
            } else {
                best <= k
            } by {
                if k < i {
                    assert(before[k] == upto[k]);
                    assert(!suits_better(before[k], b, size));
                }
            }
        }
        i = i + 1;
    }
    assert(widths@.take(i as int) =~= widths@);
    Some(best)
}

/// Which image is to be taken is settled by the widths and the size.
pub proof fn best_is_unique(widths: Seq<u32>, size: u32, i: int, j: int)
    requires
        is_best(widths, size, i),
        is_best(widths, size, j),
    ensures
        i == j,
{
    assert(!suits_better(widths[i], widths[j], size));
    assert(!suits_better(widths[j], widths[i], size));
    assert(widths[i] == widths[j]);
}

/// A square of sixteen by sixteen pixels in one colour, without transparency.
pub open spec fn square(colour: u32) -> Seq<u8> {
    Seq::new(
        1024,
        |i: int|
            if i % 4 == 0 {
                (colour / 0x1_0000 % 256) as u8
            } else if i % 4 == 1 {
                (colour / 0x100 % 256) as u8
            } else if i % 4 == 2 {
                (colour % 256) as u8
            } else {
                255u8
            },
    )
}

/// The plain square.
pub fn solid_icon(colour: u32) -> (r: Vec<u8>)
    ensures
        r@ == square(colour),
{
    let mut r: Vec<u8> = Vec::new();
    let mut i: usize = 0;
    while i < 256
        invariant
            i <= 256,
            r@ =~= square(colour).take(4 * i),
        decreases 256 - i,
    {
        r.push((colour / 0x1_0000 % 256) as u8);
        r.push((colour / 0x100 % 256) as u8);
        r.push((colour % 256) as u8);
        r.push(255);
        i = i + 1;
    }
    assert(square(colour).take(1024) =~= square(colour));
    r
}

pub open spec fn image_or_square(image: Option<ImageView>) -> ImageView {
    match image {
        Some(x) => x,
        None => ImageView { width: 16, height: 16, rgba: square(ACCENT) },
    }
}

/// The image, or the plain square where there is none.
pub fn or_square(image: Option<Image>) -> (r: Image)
    ensures
        r.deep_view() == image_or_square(image.deep_view()),
{
    match image {
        Some(x) => x,
        None => Image { width: 16, height: 16, rgba: solid_icon(ACCENT) },
    }
}

/// The image of an icon file that suits the size best.
pub open spec fn chosen_image(data: Seq<u8>, size: u32) -> Option<ImageView> {
    match ico_widths(data) {
        Some(widths) => if widths.len() == 0 {
            None
        } else {
            ico_image(data, choose|i: int| is_best(widths, size, i))
        },
        None => None,
    }
}

/// Whether the image that suits the size best can be decoded without harm.
pub open spec fn chosen_is_sound(data: Seq<u8>, size: u32) -> bool {
    match ico_widths(data) {
        Some(widths) => forall|i: int| #[trigger]
            is_best(widths, size, i) ==> has_full_table(ico_payload(data, i)),
        None => true,
    }
}

/// The icon for a size, out of the bytes of an icon file: the image that suits best, or the plain
/// square where there is none or it cannot be decoded.
pub fn app_icon_rgba(data: &Vec<u8>, size: u32) -> (r: Image)
    requires
        chosen_is_sound(data@, size),
    ensures
        r.deep_view() == image_or_square(chosen_image(data@, size)),
{
    match read_widths(data) {
        None => or_square(None),
        Some(widths) => match best_entry(&widths, size) {
            None => or_square(None),
            Some(i) => {
                proof {
                    let j = choose|j: int| is_best(widths@, size, j);
                    best_is_unique(widths@, size, i as int, j);
                }
                or_square(read_image(data, i))
            },
        },
    }
}

fn full_table(p: &Vec<u8>) -> (r: bool)
    ensures
        r == has_full_table(p@),
{
    if p.len() < 36 || (p[0] == 0x89 && p[1] == 0x50 && p[2] == 0x4E && p[3] == 0x47) {
        return true;
    }
    let used: u32 = p[32] as u32 + 256 * (p[33] as u32) + 0x1_0000 * (p[34] as u32 + 256 * (
    p[35] as u32));
    let bits: u32 = p[14] as u32 + 256 * (p[15] as u32);
    let table: u32 = if bits == 1 {
        2
    } else if bits == 4 {
        16
    } else if bits == 8 {
        256
    } else {
        0
    };
    used == 0 || used >= table
}

/// The icon for a size, out of the bytes of an icon file; none where the image that suits best is
/// a bitmap with a short colour table.
pub fn checked_icon_rgba(data: &Vec<u8>, size: u32) -> (r: Option<Image>)
    ensures
        match r {
            Some(image) => chosen_is_sound(data@, size) && image.deep_view() == image_or_square(
                chosen_image(data@, size),
            ),
            None => !chosen_is_sound(data@, size),
        },
{
    if let Some(widths) = read_widths(data) {
        if let Some(i) = best_entry(&widths, size) {
            let payload = read_payload(data, i);
            if !full_table(&payload) {
                assert(is_best(widths@, size, i as int));
                return None;
            }
            proof {
                assert forall|j: int| #[trigger] is_best(widths@, size, j) implies has_full_table(
                    ico_payload(data@, j),
                ) by {
                    best_is_unique(widths@, size, i as int, j);
                }
            }
        }
    }
    Some(app_icon_rgba(data, size))
}

/// Which image is taken for a size: the first that has it; where none has, the first of the smallest
/// that are larger; and where none is larger either, the last of the largest.
pub proof fn nearest_size_is_taken(widths: Seq<u32>, size: u32, i: int)
    requires
        is_best(widths, size, i),
    ensures
        0 <= i < widths.len(),
        widths.contains(size) ==> widths[i] == size && forall|k: int| 0 <= k < i ==> #[trigger] widths[k] != size,
        !widths.contains(size) && (exists|k: int| 0 <= k < widths.len() && #[trigger] widths[k] > size) ==> {
            &&& widths[i] > size
            &&& forall|k: int|
                0 <= k < widths.len() && #[trigger] widths[k] > size ==> widths[i] <= widths[k]
            &&& forall|k: int| 0 <= k < i ==> #[trigger] widths[k] != widths[i]
        },
        (forall|k: int| 0 <= k < widths.len() ==> #[trigger] widths[k] < size) ==> {
            &&& forall|k: int| 0 <= k < widths.len() ==> #[trigger] widths[k] <= widths[i]
            &&& forall|k: int| i < k < widths.len() ==> #[trigger] widths[k] < widths[i]
        },
{
    if widths.contains(size) {
        let k = choose|k: int| 0 <= k < widths.len() && widths[k] == size;
        assert(!suits_better(widths[k], widths[i], size));
    } else if exists|k: int| 0 <= k < widths.len() && #[trigger] widths[k] > size {
        let k = choose|k: int| 0 <= k < widths.len() && #[trigger] widths[k] > size;
        assert(!suits_better(widths[k], widths[i], size));
        assert(widths[i] != size);
        assert forall|k: int| 0 <= k < widths.len() && #[trigger] widths[k] > size implies widths[i]
            <= widths[k] by {
            assert(!suits_better(widths[k], widths[i], size));
        }
    }
    if forall|k: int| 0 <= k < widths.len() ==> #[trigger] widths[k] < size {
        assert forall|k: int| 0 <= k < widths.len() implies #[trigger] widths[k] <= widths[i] by {
            assert(!suits_better(widths[k], widths[i], size));
        }
    }
}

/// Every pixel of the plain square has the colour, and none is transparent; it has as many pixels as
/// its sides say.
pub proof fn square_is_plain(colour: u32, pixel: int)
    requires
        0 <= pixel < 256,
    ensures
        square(colour).len() == 4 * 16 * 16,
        square(colour)[4 * pixel] == (colour / 0x1_0000 % 256) as u8,
        square(colour)[4 * pixel + 1] == (colour / 0x100 % 256) as u8,
        square(colour)[4 * pixel + 2] == (colour % 256) as u8,
        square(colour)[4 * pixel + 3] == 255,
        image_or_square(None).rgba[4 * pixel] == 0x4C,
        image_or_square(None).rgba[4 * pixel + 1] == 0x8B,
        image_or_square(None).rgba[4 * pixel + 2] == 0xF5,
        image_or_square(None).width == 16,
        image_or_square(None).height == 16,
{
}

/// An image that was found is shown as it is.
pub proof fn found_image_is_shown(image: ImageView)
    ensures
        image_or_square(Some(image)) == image,
{
}

/// Which bitmaps have a colour table that is long enough: those that say nothing of its length, those
/// with more than eight bits a pixel, and those with an entry for each number that a pixel can hold.
pub proof fn short_tables_are_found(payload: Seq<u8>)
    requires
        payload.len() >= 36,
        !(payload[0] == 0x89 && payload[1] == 0x50 && payload[2] == 0x4E && payload[3] == 0x47),
    ensures
        ({
            let bits = payload[14] + 256 * payload[15];
            let used = payload[32] + 0x100 * payload[33] + 0x1_0000 * payload[34] + 0x100_0000
                * payload[35];
            has_full_table(payload) == (used == 0 || (bits == 1 ==> used >= 2) && (bits == 4 ==> used >= 16)
                && (bits == 8 ==> used >= 256))
        }),
{
}

/// The image for a size is the one of the file that is nearest to it, and there is none where the file
/// cannot be read or holds none.
pub proof fn nearest_image_is_chosen(data: Seq<u8>, size: u32, i: int)
    ensures
        ico_widths(data) is None ==> chosen_image(data, size) is None,
        ico_widths(data) matches Some(widths) ==> {
            &&& widths.len() == 0 ==> chosen_image(data, size) is None
            &&& is_best(widths, size, i) ==> chosen_image(data, size) == ico_image(data, i)
        },
{
    if let Some(widths) = ico_widths(data) {
        if is_best(widths, size, i) {
            best_is_unique(widths, size, i, choose|j: int| is_best(widths, size, j));
        }
    }
}

} // verus!
