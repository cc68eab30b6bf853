//! The `.ico` file format as far as embedding an icon into an executable
//! needs it: reading the image directory of an `.ico` file and writing the
//! `RT_GROUP_ICON` resource that points at the individual images.
use vstd::prelude::*;

verus! {

/// Why `.ico` data could not be turned into icon resources.
#[derive(Debug, Clone, Copy, PartialEq, Eq, Structural)]
pub enum IcoError {
    /// The data is shorter than the six-byte directory header.
    TooShort,
    /// A sixteen-byte directory entry runs past the end of the data.
    EntryTruncated,
    /// The image bytes of an entry run past the end of the data.
    ImageTruncated,
    /// The directory lists no images at all.
    NoImages,
}

impl IcoError {
    /// The message reported for the error.
    pub fn message(&self) -> (r: &'static str)
        ensures
            r@ == match self {
                IcoError::TooShort => "ICO data too short"@,
                IcoError::EntryTruncated => "ICO directory entry truncated"@,
                IcoError::ImageTruncated => "ICO image data truncated"@,
                IcoError::NoImages => "no images found in icon data"@,
            },
    {
        match self {
            IcoError::TooShort => "ICO data too short",
            IcoError::EntryTruncated => "ICO directory entry truncated",
            IcoError::ImageTruncated => "ICO image data truncated",
            IcoError::NoImages => "no images found in icon data",
        }
    }
}

/// One image of an `.ico` directory: its directory fields and its encoded
/// (BMP or PNG) bytes.
pub struct IcoEntry {
    pub width: u8,
    pub height: u8,
    pub color_count: u8,
    pub planes: u16,
    pub bit_count: u16,
    pub data: Vec<u8>,
}

impl View for IcoEntry {
    /// (width, height, color count, planes, bit count, image bytes)
    type V = (u8, u8, u8, u16, u16, Seq<u8>);

    open spec fn view(&self) -> (u8, u8, u8, u16, u16, Seq<u8>) {
        (self.width, self.height, self.color_count, self.planes, self.bit_count, self.data@)
    }
}

/// The views of a sequence of entries.
pub open spec fn entry_views(es: Seq<IcoEntry>) -> Seq<(u8, u8, u8, u16, u16, Seq<u8>)> {
    es.map_values(|e: IcoEntry| e@)
}

/// A little-endian 16-bit field.
pub open spec fn le16(b: Seq<u8>, off: int) -> int {
    b[off] as int + 256 * b[off + 1]
}

/// A little-endian 32-bit field.
pub open spec fn le32(b: Seq<u8>, off: int) -> int {
    b[off] as int + 256 * b[off + 1] + 65536 * b[off + 2] + 16777216 * b[off + 3]
}

/// Number of images the directory header announces.
pub open spec fn image_count(b: Seq<u8>) -> int {
    le16(b, 4)
}

/// Start of the `i`-th directory entry.
pub open spec fn entry_offset(i: int) -> int {
    6 + 16 * i
}

/// Size in bytes of the `i`-th image, as its directory entry states it.
pub open spec fn image_size(b: Seq<u8>, i: int) -> int {
    le32(b, entry_offset(i) + 8)
}

/// Offset of the `i`-th image, as its directory entry states it.
pub open spec fn image_offset(b: Seq<u8>, i: int) -> int {
    le32(b, entry_offset(i) + 12)
}

pub open spec fn entry_fits(b: Seq<u8>, i: int) -> bool {
    entry_offset(i) + 16 <= b.len()
}

pub open spec fn image_fits(b: Seq<u8>, i: int) -> bool {
    image_offset(b, i) + image_size(b, i) <= b.len()
}

/// The `i`-th entry and the image it points at both lie within the data.
pub open spec fn entry_valid(b: Seq<u8>, i: int) -> bool {
    entry_fits(b, i) && image_fits(b, i)
}

/// The `i`-th entry as read from the data.
pub open spec fn entry_at(b: Seq<u8>, i: int) -> (u8, u8, u8, u16, u16, Seq<u8>) {
    let off = entry_offset(i);
    (
        b[off],
        b[off + 1],
        b[off + 2],
        le16(b, off + 4) as u16,
        le16(b, off + 6) as u16,
        b.subrange(image_offset(b, i), image_offset(b, i) + image_size(b, i)),
    )
}

/// `i` is the first announced entry that does not lie within the data.
pub open spec fn first_bad_entry(b: Seq<u8>, i: int) -> bool {
    &&& 0 <= i < image_count(b)
    &&& !entry_valid(b, i)
    &&& forall|k: int| 0 <= k < i ==> #[trigger] entry_valid(b, k)
}

/// What reading the image directory of `.ico` data gives: all announced
/// entries, or the error met at the first entry that does not fit.
pub open spec fn parse_ico_spec(b: Seq<u8>) -> Result<Seq<(u8, u8, u8, u16, u16, Seq<u8>)>, IcoError> {
    if b.len() < 6 {
        Err(IcoError::TooShort)
    } else if exists|i: int| first_bad_entry(b, i) {
        let i = choose|i: int| first_bad_entry(b, i);
        if !entry_fits(b, i) {
            Err(IcoError::EntryTruncated)
        } else {
            Err(IcoError::ImageTruncated)
        }
    } else {
        Ok(Seq::new(image_count(b) as nat, |i: int| entry_at(b, i)))
    }
}

/// Reads the image directory of `.ico` data: every announced entry with a
/// copy of the image bytes it points at.
pub fn parse_ico(bytes: &[u8]) -> (r: Result<Vec<IcoEntry>, IcoError>)
    ensures
        match r {
            Ok(v) => parse_ico_spec(bytes@) == Ok::<_, IcoError>(entry_views(v@)),
            Err(e) => parse_ico_spec(bytes@) == Err::<Seq<(u8, u8, u8, u16, u16, Seq<u8>)>, _>(e),
        },
{
    if bytes.len() < 6 {
        return Err(IcoError::TooShort);
    }
    let count: usize = bytes[4] as usize + 256 * (bytes[5] as usize);
    let ghost b = bytes@;
    let mut entries: Vec<IcoEntry> = Vec::new();
    let mut i: usize = 0;
    while i < count
        invariant
            b == bytes@,
            6 <= b.len(),
            count == image_count(b),
            count <= 65535,
            i <= count,
            entries@.len() == i,
            forall|k: int| 0 <= k < i ==> #[trigger] entry_valid(b, k),
            forall|k: int| 0 <= k < i ==> #[trigger] entries@[k]@ == entry_at(b, k),
        decreases count - i,
    {
        let off = 6 + i * 16;
        if bytes.len() < off + 16 {
            proof {
                assert(first_bad_entry(b, i as int));
                lemma_first_bad_unique(b, i as int);
            }
            return Err(IcoError::EntryTruncated);
        }
        let width = bytes[off];
        let height = bytes[off + 1];
        let color_count = bytes[off + 2];
        let planes: u16 = bytes[off + 4] as u16 + 256 * (bytes[off + 5] as u16);
        let bit_count: u16 = bytes[off + 6] as u16 + 256 * (bytes[off + 7] as u16);
        let size: u64 = bytes[off + 8] as u64 + 256 * (bytes[off + 9] as u64) + 65536 * (
        bytes[off + 10] as u64) + 16777216 * (bytes[off + 11] as u64);
        let start: u64 = bytes[off + 12] as u64 + 256 * (bytes[off + 13] as u64) + 65536 * (
        bytes[off + 14] as u64) + 16777216 * (bytes[off + 15] as u64);
        assert(size == image_size(b, i as int));
        assert(start == image_offset(b, i as int));
        if (bytes.len() as u64) < start + size {
            proof {
                assert(first_bad_entry(b, i as int));
                lemma_first_bad_unique(b, i as int);
            }
            return Err(IcoError::ImageTruncated);
        }
        let lo = start as usize;
        let hi = (start + size) as usize;
        let mut data: Vec<u8> = Vec::new();
        data.extend_from_slice(&bytes[lo..hi]);
        assert(data@ =~= b.subrange(lo as int, hi as int));
        let entry = IcoEntry { width, height, color_count, planes, bit_count, data };
        assert(entry@ == entry_at(b, i as int));
        entries.push(entry);
        i = i + 1;
    }
    proof {
        assert(!exists|j: int| first_bad_entry(b, j));
        assert(entry_views(entries@) =~= Seq::new(image_count(b) as nat, |k: int| entry_at(b, k)));
    }
    Ok(entries)
}

/// The first entry that does not fit is the one `choose` picks.
proof fn lemma_first_bad_unique(b: Seq<u8>, i: int)
    requires
        first_bad_entry(b, i),
    ensures
        (choose|j: int| first_bad_entry(b, j)) == i,
{
    let j = choose|j: int| first_bad_entry(b, j);
    assert(first_bad_entry(b, j));
    if j < i {
        assert(entry_valid(b, j));
    } else if j > i {
        assert(entry_valid(b, i));
    }
}


/// Little-endian byte 0, 1, 2 or 3 of `v`.
pub open spec fn byte0(v: int) -> u8 {
    (v % 256) as u8
}

pub open spec fn byte1(v: int) -> u8 {
    (v / 256 % 256) as u8
}

pub open spec fn byte2(v: int) -> u8 {
    (v / 65536 % 256) as u8
}

pub open spec fn byte3(v: int) -> u8 {
    (v / 16777216 % 256) as u8
}

/// The fourteen bytes of a `GRPICONDIRENTRY` for entry `e` with resource id
/// `id`: width, height, colour count, a reserved zero, planes, bit count,
/// the image size as 32 bits and the id as 16 bits, all little-endian.
pub open spec fn group_entry_bytes(e: (u8, u8, u8, u16, u16, Seq<u8>), id: int) -> Seq<u8> {
    seq![
        e.0,
        e.1,
        e.2,
        0u8,
        byte0(e.3 as int),
        byte1(e.3 as int),
        byte0(e.4 as int),
        byte1(e.4 as int),
        byte0(e.5.len() as int),
        byte1(e.5.len() as int),
        byte2(e.5.len() as int),
        byte3(e.5.len() as int),
        byte0(id),
        byte1(id),
    ]
}

/// The directory entries of a group icon; entry `i` gets resource id `i + 1`.
pub open spec fn group_entries_bytes(es: Seq<(u8, u8, u8, u16, u16, Seq<u8>)>) -> Seq<u8>
    decreases es.len(),
{
    if es.len() == 0 {
        Seq::empty()
    } else {
        group_entries_bytes(es.drop_last()) + group_entry_bytes(es.last(), es.len() as int)
    }
}

/// A complete `RT_GROUP_ICON` resource: the header (reserved zero, type 1,
/// entry count) followed by one entry per image.
pub open spec fn group_icon_spec(es: Seq<(u8, u8, u8, u16, u16, Seq<u8>)>) -> Seq<u8> {
    seq![0u8, 0u8, 1u8, 0u8, byte0(es.len() as int), byte1(es.len() as int)]
        + group_entries_bytes(es)
}

/// Appends the directory entry for `e` with resource id `id`.
fn push_group_entry(out: &mut Vec<u8>, e: &IcoEntry, id: u64)
    ensures
        final(out)@ == old(out)@ + group_entry_bytes(e@, id as int),
{
    let len = e.data.len() as u64;
    out.push(e.width);
    out.push(e.height);
    out.push(e.color_count);
    out.push(0);
    out.push((e.planes % 256) as u8);
    out.push((e.planes / 256) as u8);
    out.push((e.bit_count % 256) as u8);
    out.push((e.bit_count / 256) as u8);
    out.push((len % 256) as u8);
    out.push((len / 256 % 256) as u8);
    out.push((len / 65536 % 256) as u8);
    out.push((len / 16777216 % 256) as u8);
    out.push((id % 256) as u8);
    out.push((id / 256 % 256) as u8);
    assert(final(out)@ =~= old(out)@ + group_entry_bytes(e@, id as int));
}

/// Builds the `RT_GROUP_ICON` resource describing `entries`, which are
/// stored as `RT_ICON` resources with ids 1, 2, ...
pub fn build_group_icon(entries: &[IcoEntry]) -> (r: Vec<u8>)
    ensures
        r@ == group_icon_spec(entry_views(entries@)),
{
    let n = entries.len();
    let mut out: Vec<u8> = Vec::new();
    out.push(0);
    out.push(0);
    out.push(1);
    out.push(0);
    out.push((n % 256) as u8);
    out.push((n / 256 % 256) as u8);
    let ghost es = entry_views(entries@);
    proof {
        assert(es.take(0) =~= Seq::<(u8, u8, u8, u16, u16, Seq<u8>)>::empty());
    }
    let mut i: usize = 0;
    while i < n
        invariant
            n == entries@.len(),
            es == entry_views(entries@),
            i <= n,
            out@ =~= seq![0u8, 0u8, 1u8, 0u8, byte0(n as int), byte1(n as int)]
                + group_entries_bytes(es.take(i as int)),
        decreases n - i,
    {
        let ghost before = out@;
        push_group_entry(&mut out, &entries[i], (i + 1) as u64);
        proof {
            assert(es.take(i + 1).drop_last() =~= es.take(i as int));
            assert(es[i as int] == entries@[i as int]@);
            assert(es.take(i + 1).last() == es[i as int]);
        }
        i = i + 1;
    }
    proof {
        assert(es.take(n as int) =~= es);
    }
    out
}

/// A group icon holds a six-byte header and one fourteen-byte entry per
/// image, and its header counts the images (modulo 65536, as 16 bits).
pub proof fn lemma_group_icon_shape(es: Seq<(u8, u8, u8, u16, u16, Seq<u8>)>)
    ensures
        group_icon_spec(es).len() == 6 + 14 * es.len(),
        group_icon_spec(es)[4] as int + 256 * group_icon_spec(es)[5] as int == es.len() % 65536,
    decreases es.len(),
{
    lemma_group_entries_len(es);
    let n = es.len() as int;
    assert(byte0(n) as int + 256 * byte1(n) as int == n % 65536);
}

/// Every entry of a group icon describes its image: entry `i` (at byte
/// `6 + 14 * i`) holds the image's width, height and colour count bytes, a
/// reserved zero, its planes and bit count as 16 bits, its data length as
/// 32 bits (exact for every length below 2^32), and resource id `i + 1`
/// (for ids that fit 16 bits), all little-endian.
pub proof fn lemma_group_icon_entries(es: Seq<(u8, u8, u8, u16, u16, Seq<u8>)>, i: int)
    requires
        0 <= i < es.len(),
    ensures
        ({
            let g = group_icon_spec(es);
            let off = 6 + 14 * i;
            &&& g[off] == es[i].0
            &&& g[off + 1] == es[i].1
            &&& g[off + 2] == es[i].2
            &&& g[off + 3] == 0
            &&& le16(g, off + 4) == es[i].3
            &&& le16(g, off + 6) == es[i].4
            &&& es[i].5.len() < 0x1_0000_0000 ==> le32(g, off + 8) == es[i].5.len()
            &&& i + 1 < 65536 ==> le16(g, off + 12) == i + 1
        }),
{
    lemma_group_entry_at(es, i);
    lemma_group_entries_len(es);
    let g = group_icon_spec(es);
    let off = 6 + 14 * i;
    let e = es[i];
    let gb = group_entries_bytes(es);
    assert(g =~= seq![0u8, 0u8, 1u8, 0u8, byte0(es.len() as int), byte1(es.len() as int)] + gb);
    assert forall|k: int| 0 <= k < 14 implies g[off + k] == #[trigger] group_entry_bytes(e, i + 1)[k] by {
        assert(g[off + k] == gb[14 * i + k]);
        assert(gb.subrange(14 * i, 14 * i + 14)[k] == gb[14 * i + k]);
    }
    lemma_le16_bytes(e.3 as int);
    lemma_le16_bytes(e.4 as int);
    if i + 1 < 65536 {
        lemma_le16_bytes(i + 1);
    }
    if e.5.len() < 0x1_0000_0000 {
        lemma_le32_bytes(e.5.len() as int);
    }
    let b = group_entry_bytes(e, i + 1);
    assert(g[off + 4] == b[4] && g[off + 5] == b[5]);
    assert(g[off + 6] == b[6] && g[off + 7] == b[7]);
    assert(g[off + 8] == b[8] && g[off + 9] == b[9] && g[off + 10] == b[10] && g[off + 11] == b[11]);
    assert(g[off + 12] == b[12] && g[off + 13] == b[13]);
}

/// Entry `i` of the directory bytes is the fourteen bytes describing
/// `es[i]` with id `i + 1`.
proof fn lemma_group_entry_at(es: Seq<(u8, u8, u8, u16, u16, Seq<u8>)>, i: int)
    requires
        0 <= i < es.len(),
    ensures
        group_entries_bytes(es).subrange(14 * i, 14 * i + 14) == group_entry_bytes(es[i], i + 1),
    decreases es.len(),
{
    let pre = es.drop_last();
    lemma_group_entries_len(pre);
    let gb = group_entries_bytes(es);
    assert(gb == group_entries_bytes(pre) + group_entry_bytes(es.last(), es.len() as int));
    if i == es.len() - 1 {
        assert(gb.subrange(14 * i, 14 * i + 14) =~= group_entry_bytes(es.last(), es.len() as int));
    } else {
        lemma_group_entry_at(pre, i);
        assert(gb.subrange(14 * i, 14 * i + 14) =~= group_entries_bytes(pre).subrange(
            14 * i,
            14 * i + 14,
        ));
    }
}

/// The two bytes `byte0`, `byte1` of a 16-bit value read back as it.
proof fn lemma_le16_bytes(v: int)
    requires
        0 <= v < 65536,
    ensures
        byte0(v) as int + 256 * byte1(v) as int == v,
{
    let x = v as u32;
    assert((x % 256) + 256 * ((x / 256) % 256) == x) by (bit_vector)
        requires
            x < 65536,
    ;
}

/// The four bytes `byte0` .. `byte3` of a 32-bit value read back as it.
proof fn lemma_le32_bytes(v: int)
    requires
        0 <= v < 0x1_0000_0000,
    ensures
        byte0(v) as int + 256 * byte1(v) as int + 65536 * byte2(v) as int + 16777216 * byte3(v) as int
            == v,
{
    let x = v as u64;
    assert((x % 256) + 256 * ((x / 256) % 256) + 65536 * ((x / 65536) % 256) + 16777216 * ((x
        / 16777216) % 256) == x) by (bit_vector)
        requires
            x < 0x1_0000_0000,
    ;
}

proof fn lemma_group_entries_len(es: Seq<(u8, u8, u8, u16, u16, Seq<u8>)>)
    ensures
        group_entries_bytes(es).len() == 14 * es.len(),
    decreases es.len(),
{
    if es.len() > 0 {
        lemma_group_entries_len(es.drop_last());
    }
}

/// The resources that embed an icon into an executable: each image as an
/// `RT_ICON` resource with its id, and the `RT_GROUP_ICON` that lists them.
pub struct IconResources {
    pub images: Vec<(u16, Vec<u8>)>,
    pub group: Vec<u8>,
}

/// Turns `.ico` data into the resources that replace an executable's icon;
/// fails when the data cannot be read or holds no image.
pub fn icon_resources(ico_bytes: &[u8]) -> (r: Result<IconResources, IcoError>)
    ensures
        match parse_ico_spec(ico_bytes@) {
            Err(e) => r == Err::<IconResources, _>(e),
            Ok(es) => if es.len() == 0 {
                r == Err::<IconResources, _>(IcoError::NoImages)
            } else {
                &&& r is Ok
                &&& r->Ok_0.group@ == group_icon_spec(es)
                &&& r->Ok_0.images@.len() == es.len()
                &&& forall|i: int| 0 <= i < es.len() ==> (#[trigger] r->Ok_0.images@[i]).0 == i + 1
                    && r->Ok_0.images@[i].1@ == es[i].5
            },
        },
{
    let entries = match parse_ico(ico_bytes) {
        Ok(v) => v,
        Err(e) => return Err(e),
    };
    if entries.len() == 0 {
        return Err(IcoError::NoImages);
    }
    let group = build_group_icon(entries.as_slice());
    let ghost es = entry_views(entries@);
    let n = entries.len();
    let mut images: Vec<(u16, Vec<u8>)> = Vec::new();
    let mut i: usize = 0;
    while i < n
        invariant
            n == entries@.len(),
            es == entry_views(entries@),
            n <= 65535,
            i <= n,
            images@.len() == i,
            forall|j: int| 0 <= j < i ==> (#[trigger] images@[j]).0 == j + 1
                && images@[j].1@ == es[j].5,
        decreases n - i,
    {
        let mut data: Vec<u8> = Vec::new();
        data.extend_from_slice(entries[i].data.as_slice());
        assert(data@ =~= es[i as int].5);
        images.push(((i + 1) as u16, data));
        i = i + 1;
    }
    Ok(IconResources { images, group })
}


// ---------------------------------------------------------------------
// Building an `.ico` file from an arbitrary picture, with the `ico` and
// `image` crates.

#[verifier::external_type_specification]
#[verifier::external_body]
pub struct ExIconDir(ico::IconDir);

#[verifier::external_type_specification]
#[verifier::external_body]
pub struct ExIconImage(ico::IconImage);

#[verifier::external_type_specification]
#[verifier::external_body]
pub struct ExIconDirEntry(ico::IconDirEntry);

#[verifier::external_type_specification]
#[verifier::external_body]
pub struct ExImageError(image::ImageError);

#[verifier::external_type_specification]
#[verifier::external_body]
pub struct ExIoError(std::io::Error);

/// What an icon directory holds: the width, height and encoded data of
/// each of its images, in order.
pub uninterp spec fn icon_dir_entries(d: ico::IconDir) -> Seq<(u32, u32, Seq<u8>)>;

/// The `.ico` file that `IconDir::write` produces for a directory.
pub uninterp spec fn icon_dir_file(d: ico::IconDir) -> Seq<u8>;

/// What `IconDir::read` finds in some bytes: the images of the icon
/// directory they hold, or `None` when they are not an `.ico`/`.cur` file.
pub uninterp spec fn ico_read_entries(bytes: Seq<u8>) -> Option<Seq<(u32, u32, Seq<u8>)>>;

/// Whether `image::load_from_memory` can decode some bytes as a picture.
pub uninterp spec fn image_decodes(bytes: Seq<u8>) -> bool;

/// Holds of the bytes of a picture and one outcome of decoding them to
/// 8-bit RGBA (`image::load_from_memory`, then `to_rgba8`): its width,
/// height and pixels. Decoders such as JPEG's pick SIMD paths by machine,
/// so the outcome is related to the bytes, not fixed by them.
pub uninterp spec fn decoded_rgba(bytes: Seq<u8>, width: u32, height: u32, rgba: Seq<u8>) -> bool;

/// Holds of a `width` x `height` RGBA picture, a side, and one outcome of
/// resampling the picture to that side with the Lanczos3 filter
/// (`imageops::resize`). The filter computes with `f32::sin`, whose
/// precision std documents as varying by platform and even between calls,
/// so the outcome is related to the inputs, not fixed by them.
pub uninterp spec fn lanczos_resampled(width: u32, height: u32, rgba: Seq<u8>, size: u32, out: Seq<u8>) -> bool;

/// The icon data `IconDirEntry::encode` makes of a `size` x `size` RGBA
/// picture without a hotspot (BMP or PNG, as the picture suggests).
pub uninterp spec fn encoded_icon(size: u32, rgba: Seq<u8>) -> Seq<u8>;

/// The total length of the encoded images of a directory.
pub open spec fn data_total(e: Seq<(u32, u32, Seq<u8>)>) -> nat
    decreases e.len(),
{
    if e.len() == 0 {
        0
    } else {
        data_total(e.drop_last()) + e.last().2.len()
    }
}

/// The length of the `.ico` file for a directory: the six-byte header, a
/// sixteen-byte entry per image, then the images.
pub open spec fn ico_file_len(e: Seq<(u32, u32, Seq<u8>)>) -> int {
    (6 + 16 * e.len() + data_total(e)) as int
}

/// The file's image offsets, which `.ico` stores in 32 bits, can all be
/// written.
pub open spec fn offsets_fit(e: Seq<(u32, u32, Seq<u8>)>) -> bool {
    ico_file_len(e) <= u32::MAX
}

/// The byte that stores an image side in a directory entry: the side
/// itself, or 0 for 256 and more.
pub open spec fn size_byte(w: u32) -> u8 {
    if w > 255 {
        0
    } else {
        w as u8
    }
}

/// `v` lays out a directory of images `e` as an `.ico` file: header count,
/// then per entry its side bytes, data size and data offset, the images
/// following the entries back to back.
pub open spec fn written_layout(v: Seq<u8>, e: Seq<(u32, u32, Seq<u8>)>) -> bool {
    &&& v.len() == ico_file_len(e)
    &&& image_count(v) == e.len()
    &&& forall|i: int|
        #![trigger image_offset(v, i)]
        0 <= i < e.len() ==> {
            &&& v[entry_offset(i)] == size_byte(e[i].0)
            &&& v[entry_offset(i) + 1] == size_byte(e[i].1)
            &&& image_size(v, i) == e[i].2.len()
            &&& image_offset(v, i) == 6 + 16 * e.len() + data_total(e.take(i))
            &&& v.subrange(image_offset(v, i), image_offset(v, i) + e[i].2.len()) == e[i].2
        }
}

/// Reads bytes as an `.ico` or `.cur` file (`ico::IconDir::read` over a
/// cursor).
#[verifier::external_body]
fn read_icon_dir(bytes: &[u8]) -> (r: Result<ico::IconDir, std::io::Error>)
    ensures
        r is Ok == ico_read_entries(bytes@) is Some,
        r matches Ok(d) ==> ico_read_entries(bytes@) == Some(icon_dir_entries(d)),
{
    ico::IconDir::read(std::io::Cursor::new(bytes))
}

/// The number of images in a directory (`IconDir::entries().len()`).
#[verifier::external_body]
fn icon_dir_len(d: &ico::IconDir) -> (r: usize)
    ensures
        r == icon_dir_entries(*d).len(),
{
    d.entries().len()
}

/// Writes a directory out as an `.ico` file (`IconDir::write` into a
/// `Vec`). The header, the sixteen-byte entries (side bytes, data size and
/// a running 32-bit data offset) and the images are written in that order;
/// writing into memory only fails for more than 65535 entries. The caller
/// keeps the running offset within 32 bits. The entry fields other than
/// sides, size and offset (colour count, planes, bit depth) are left
/// unsaid.
#[verifier::external_body]
fn write_icon_dir(d: &ico::IconDir) -> (r: Result<Vec<u8>, std::io::Error>)
    requires
        offsets_fit(icon_dir_entries(*d)),
    ensures
        r matches Ok(v) ==> v@ == icon_dir_file(*d) && written_layout(v@, icon_dir_entries(*d)),
        icon_dir_entries(*d).len() <= 65535 ==> r is Ok,
{
    let mut out: Vec<u8> = Vec::new();
    match d.write(&mut out) {
        Ok(()) => Ok(out),
        Err(e) => Err(e),
    }
}

/// An icon directory being filled with freshly encoded icons. It only ever
/// holds icons (never cursors), which is what adding entries needs.
pub struct NewIconDir {
    dir: ico::IconDir,
}

/// An empty icon directory (`IconDir::new(ResourceType::Icon)`).
#[verifier::external_body]
fn new_icon_dir() -> (r: NewIconDir)
    ensures
        icon_dir_entries(r.dir) == Seq::<(u32, u32, Seq<u8>)>::empty(),
{
    NewIconDir { dir: ico::IconDir::new(ico::ResourceType::Icon) }
}

/// A square RGBA picture of side `size` with the pixels `pixels`, ready to
/// be encoded as an icon; it carries no cursor hotspot.
pub struct RgbaIcon {
    image: ico::IconImage,
    size: u32,
    pixels: Vec<u8>,
}

/// Wraps `size` x `size` RGBA pixels (`IconImage::from_rgba_data`), which
/// needs a nonzero size and exactly four bytes per pixel. Icon sides go up
/// to 256.
#[verifier::external_body]
fn rgba_icon(size: u32, rgba: &[u8]) -> (r: RgbaIcon)
    requires
        1 <= size <= 256,
        rgba@.len() == size * size * 4,
    ensures
        r.size == size,
        r.pixels@ == rgba@,
{
    RgbaIcon { image: ico::IconImage::from_rgba_data(size, size, rgba.to_vec()), size, pixels: rgba.to_vec() }
}

/// An encoded icon entry, of the icon (not cursor) kind, with its width,
/// height and data as read from it.
pub struct EncodedIcon {
    entry: ico::IconDirEntry,
    width: u32,
    height: u32,
    data: Vec<u8>,
}

/// Encodes a picture as BMP or PNG icon data (`IconDirEntry::encode`). The
/// entry takes the picture's width and height; a picture without a hotspot
/// gives an icon entry.
///
/// For a side of at most 256 it succeeds: its errors come only from writes
/// into in-memory buffers, which do not fail, and from PNG header checks
/// (nonzero sides, 8-bit RGB or RGBA) that such a picture passes. The data
/// then stays under 1 MiB: a BMP takes a 40-byte header, at most 256
/// palette colours and 256 rows of at most 1056 bytes (271,424 bytes in
/// all); a PNG's image data is stored uncompressed whenever compressing
/// would make it larger (`png` 0.17, `Compression::Fast`), which bounds it
/// by the 262,400 filtered bytes plus block and chunk headers.
#[verifier::external_body]
fn encode_icon(image: &RgbaIcon) -> (r: Result<EncodedIcon, std::io::Error>)
    requires
        1 <= image.size <= 256,
    ensures
        r is Ok,
        r matches Ok(e) ==> e.width == image.size && e.height == image.size,
        r matches Ok(e) ==> e.data@ == encoded_icon(image.size, image.pixels@),
        r matches Ok(e) ==> e.data@.len() <= 1048576,
{
    match ico::IconDirEntry::encode(&image.image) {
        Ok(entry) => Ok(
            EncodedIcon {
                width: entry.width(),
                height: entry.height(),
                data: entry.data().to_vec(),
                entry,
            },
        ),
        Err(e) => Err(e),
    }
}

/// Appends an encoded icon to the directory (`IconDir::add_entry`); both
/// are of the icon kind, so it does not panic.
#[verifier::external_body]
fn add_icon(d: &mut NewIconDir, e: EncodedIcon)
    ensures
        icon_dir_entries(final(d).dir) == icon_dir_entries(old(d).dir).push(
            (e.width, e.height, e.data@),
        ),
{
    d.dir.add_entry(e.entry)
}

/// Decodes a picture in any supported format (`image::load_from_memory`)
/// and converts it to 8-bit RGBA (`DynamicImage::to_rgba8`): its width, its
/// height, and its pixels row by row, four bytes each.
#[verifier::external_body]
fn decode_rgba(bytes: &[u8]) -> (r: Result<(u32, u32, Vec<u8>), image::ImageError>)
    ensures
        r is Ok == image_decodes(bytes@),
        r matches Ok(p) ==> decoded_rgba(bytes@, p.0, p.1, p.2@),
        r matches Ok(p) ==> p.2@.len() == p.0 * p.1 * 4,
{
    match image::load_from_memory(bytes) {
        Ok(img) => {
            let buf = img.to_rgba8();
            Ok((buf.width(), buf.height(), buf.into_raw()))
        },
        Err(e) => Err(e),
    }
}

/// A `width` x `height` RGBA picture resampled to `size` x `size` with the
/// Lanczos3 filter (`imageops::resize` over the pixels as an
/// `ImageBuffer`), as raw RGBA bytes: four per pixel.
#[verifier::external_body]
fn resize_rgba(width: u32, height: u32, rgba: &[u8], size: u32) -> (r: Vec<u8>)
    requires
        rgba@.len() == width * height * 4,
        size * size * 4 <= usize::MAX,
    ensures
        r@.len() == size * size * 4,
        lanczos_resampled(width, height, rgba@, size, r@),
{
    let source = image::ImageBuffer::<image::Rgba<u8>, &[u8]>::from_raw(width, height, rgba)
        .expect("the buffer holds width x height pixels");
    image::imageops::resize(&source, size, size, image::imageops::FilterType::Lanczos3).into_raw()
}

/// A picture decoded to 8-bit RGBA: its width, its height and its pixels,
/// or `None` when the bytes are no picture `image` can decode.
pub fn decode_picture(bytes: &[u8]) -> (r: Option<(u32, u32, Vec<u8>)>)
    ensures
        r is Some == image_decodes(bytes@),
        r matches Some(p) ==> decoded_rgba(bytes@, p.0, p.1, p.2@) && p.2@.len() == p.0 * p.1
            * 4,
{
    match decode_rgba(bytes) {
        Ok(p) => Some(p),
        Err(_) => None,
    }
}

/// Why a picture could not be made into an `.ico` file: the bytes are
/// neither an icon file nor a picture `image` can decode, with the
/// decoder's error.
#[derive(Debug)]
pub enum IconBuildError {
    Decode(image::ImageError),
}

/// The icon sizes baked into a new `.ico` file: taskbar, Start menu tiles
/// and Explorer's large-icon view.
pub open spec fn icon_sizes() -> Seq<u32> {
    seq![16u32, 32u32, 48u32, 256u32]
}

/// Whether some bytes already are an icon file with at least one image.
pub open spec fn holds_icons(bytes: Seq<u8>) -> bool {
    ico_read_entries(bytes) matches Some(e) && e.len() > 0
}

/// One RGBA picture per icon size, in order, each `size` x `size`.
pub open spec fn resampled_pictures(p: Seq<Seq<u8>>) -> bool {
    &&& p.len() == icon_sizes().len()
    &&& forall|i: int|
        0 <= i < p.len() ==> #[trigger] p[i].len() == icon_sizes()[i] * icon_sizes()[i] * 4
}

/// `.ico` data whose directory lists one image per icon size, in order:
/// sides 16, 32, 48 and 256 (stored as 0), each the icon encoding of the
/// picture of that size in `p`.
pub open spec fn ico_of_pictures(p: Seq<Seq<u8>>, v: Seq<u8>) -> bool {
    parse_ico_spec(v) matches Ok(es) && es.len() == icon_sizes().len() && forall|i: int|
        0 <= i < es.len() ==> {
            &&& #[trigger] es[i].0 == size_byte(icon_sizes()[i])
            &&& es[i].1 == size_byte(icon_sizes()[i])
            &&& es[i].5 == encoded_icon(icon_sizes()[i], p[i])
        }
}

/// The total length of a prefix grows entry by entry, and never exceeds
/// the whole.
proof fn lemma_data_total_prefix(e: Seq<(u32, u32, Seq<u8>)>, i: int)
    requires
        0 <= i < e.len(),
    ensures
        data_total(e.take(i + 1)) == data_total(e.take(i)) + e[i].2.len(),
        data_total(e.take(i + 1)) <= data_total(e),
    decreases e.len(),
{
    assert(e.take(i + 1).drop_last() =~= e.take(i));
    if i + 1 < e.len() {
        lemma_data_total_prefix(e.drop_last(), i);
        assert(e.drop_last().take(i + 1) =~= e.take(i + 1));
        assert(e.drop_last().take(i) =~= e.take(i));
    } else {
        assert(e.take(i + 1) =~= e);
    }
}

/// An `.ico` file laid out as `IconDir::write` does reads back, through
/// [`parse_ico`], as the directory's entries: their side bytes and data.
pub proof fn lemma_written_layout_parses(v: Seq<u8>, e: Seq<(u32, u32, Seq<u8>)>)
    requires
        written_layout(v, e),
    ensures
        parse_ico_spec(v) matches Ok(es) && es.len() == e.len() && forall|i: int|
            0 <= i < e.len() ==> #[trigger] es[i].0 == size_byte(e[i].0) && es[i].1 == size_byte(
                e[i].1,
            ) && es[i].5 == e[i].2,
{
    assert forall|i: int| 0 <= i < image_count(v) implies #[trigger] entry_valid(v, i) by {
        assert(image_offset(v, i) == 6 + 16 * e.len() + data_total(e.take(i)));
        lemma_data_total_prefix(e, i);
    }
    assert(!exists|i: int| first_bad_entry(v, i));
    let es = Seq::new(image_count(v) as nat, |i: int| entry_at(v, i));
    assert forall|i: int| 0 <= i < e.len() implies #[trigger] es[i].0 == size_byte(e[i].0)
        && es[i].1 == size_byte(e[i].1) && es[i].5 == e[i].2 by {
        assert(image_offset(v, i) == 6 + 16 * e.len() + data_total(e.take(i)));
        assert(entry_valid(v, i));
    }
}

/// The `.ico` file of a picture resampled to each icon size: `pictures`
/// holds the RGBA pixels for sides 16, 32, 48 and 256, in that order, and
/// each becomes one image of the file, encoded as an icon.
pub fn ico_from_resampled(pictures: &Vec<Vec<u8>>) -> (r: Vec<u8>)
    requires
        resampled_pictures(pictures@.map_values(|p: Vec<u8>| p@)),
    ensures
        ico_of_pictures(pictures@.map_values(|p: Vec<u8>| p@), r@),
{
    let ghost p = pictures@.map_values(|q: Vec<u8>| q@);
    let sizes: [u32; 4] = [16, 32, 48, 256];
    let mut dir = new_icon_dir();
    let mut i: usize = 0;
    while i < 4
        invariant
            i <= 4,
            sizes@ == icon_sizes(),
            p == pictures@.map_values(|q: Vec<u8>| q@),
            resampled_pictures(p),
            icon_dir_entries(dir.dir).len() == i,
            data_total(icon_dir_entries(dir.dir)) <= i * 1048576,
            forall|k: int|
                0 <= k < i ==> {
                    &&& #[trigger] icon_dir_entries(dir.dir)[k].0 == icon_sizes()[k]
                    &&& icon_dir_entries(dir.dir)[k].1 == icon_sizes()[k]
                    &&& icon_dir_entries(dir.dir)[k].2 == encoded_icon(icon_sizes()[k], p[k])
                },
        decreases 4 - i,
    {
        let size = sizes[i];
        assert(p[i as int].len() == size * size * 4);
        let picture = rgba_icon(size, pictures[i].as_slice());
        if let Ok(e) = encode_icon(&picture) {
            let ghost old_entries = icon_dir_entries(dir.dir);
            add_icon(&mut dir, e);
            proof {
                let ne = icon_dir_entries(dir.dir);
                assert(ne.drop_last() =~= old_entries);
                assert(data_total(ne) == data_total(old_entries) + ne.last().2.len());
            }
        }
        i = i + 1;
    }
    let ghost entries = icon_dir_entries(dir.dir);
    match write_icon_dir(&dir.dir) {
        Ok(v) => {
            proof {
                lemma_written_layout_parses(v@, entries);
            }
            v
        },
        Err(_) => {
            proof {
                assert(false);
            }
            Vec::new()
        },
    }
}

/// The four pictures `p` are outcomes of resampling the `width` x `height`
/// RGBA picture `rgba` to each icon size, in order.
pub open spec fn resampled_from(width: u32, height: u32, rgba: Seq<u8>, p: Seq<Seq<u8>>) -> bool {
    &&& resampled_pictures(p)
    &&& forall|i: int|
        0 <= i < p.len() ==> #[trigger] lanczos_resampled(width, height, rgba, icon_sizes()[i], p[i])
}

/// Builds a multi-resolution `.ico` file from a picture (PNG, JPEG, BMP,
/// ICO, ...). An `.ico` file with at least one image is passed through
/// unchanged; any other picture is decoded, resampled to 16, 32, 48 and 256
/// pixels square, and made into an `.ico` file by [`ico_from_resampled`].
/// Bytes that are neither are refused with the decoder's error.
pub fn build_ico(image_bytes: &[u8]) -> (r: Result<Vec<u8>, IconBuildError>)
    ensures
        holds_icons(image_bytes@) ==> (r matches Ok(v) && v@ == image_bytes@),
        !holds_icons(image_bytes@) && !image_decodes(image_bytes@) ==> (r matches Err(
            IconBuildError::Decode(_),
        )),
        !holds_icons(image_bytes@) && image_decodes(image_bytes@) ==> (r matches Ok(v) && exists|
            width: u32,
            height: u32,
            rgba: Seq<u8>,
            p: Seq<Seq<u8>>,
        |
            #![trigger decoded_rgba(image_bytes@, width, height, rgba), resampled_from(width, height, rgba, p)]
            decoded_rgba(image_bytes@, width, height, rgba) && resampled_from(width, height, rgba, p)
                && ico_of_pictures(p, v@)),
{
    if let Ok(existing) = read_icon_dir(image_bytes) {
        if icon_dir_len(&existing) > 0 {
            return Ok(vstd::slice::slice_to_vec(image_bytes));
        }
    }
    let (width, height, rgba) = match decode_rgba(image_bytes) {
        Ok(p) => p,
        Err(e) => return Err(IconBuildError::Decode(e)),
    };
    let sizes: [u32; 4] = [16, 32, 48, 256];
    let mut pictures: Vec<Vec<u8>> = Vec::new();
    let mut i: usize = 0;
    while i < 4
        invariant
            i <= 4,
            sizes@ == icon_sizes(),
            rgba@.len() == width * height * 4,
            pictures@.len() == i,
            forall|k: int|
                0 <= k < i ==> #[trigger] pictures@[k]@.len() == icon_sizes()[k] * icon_sizes()[k]
                    * 4 && lanczos_resampled(width, height, rgba@, icon_sizes()[k], pictures@[k]@),
        decreases 4 - i,
    {
        let size = sizes[i];
        assert(size * size * 4 <= 262144) by (nonlinear_arith)
            requires
                1 <= size <= 256,
        ;
        let resampled = resize_rgba(width, height, rgba.as_slice(), size);
        pictures.push(resampled);
        i = i + 1;
    }
    let ghost p = pictures@.map_values(|q: Vec<u8>| q@);
    assert forall|k: int| 0 <= k < p.len() implies #[trigger] lanczos_resampled(
        width,
        height,
        rgba@,
        icon_sizes()[k],
        p[k],
    ) && p[k].len() == icon_sizes()[k] * icon_sizes()[k] * 4 by {
        assert(p[k] == pictures@[k]@);
    }
    assert(resampled_from(width, height, rgba@, p));
    let v = ico_from_resampled(&pictures);
    Ok(v)
}

} // verus!
