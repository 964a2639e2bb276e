//! The records of the tagged binary container: palettes, indexed bitmaps,
//! textures and file metadata, each with an exact byte-level contract, and
//! the walk that materializes them from a stream.
//!
//! A record is `{ id: u16 LE, size: u32 LE, payload: size - 6 bytes }`.
//! Unknown ids are skipped by advancing the stream by `size - 6`; a record
//! whose payload cannot be read is skipped the same way (resynchronization
//! via the size field); a header that cannot be read ends the walk.

use vstd::prelude::*;

use crate::pixel::pack_px;
use crate::stream::{le16_at, le32_at, ByteStream, StreamError};

verus! {

/// Why a texture could not be resolved against the extracted records.
#[derive(Clone, Copy, Debug, PartialEq, Eq, Structural)]
pub enum ResolveError {
    /// The texture references a bitmap index beyond the extracted set.
    BitmapIndexOutOfRange,
    /// The texture references a palette index beyond the extracted set.
    PaletteIndexOutOfRange,
}

/// A palette record: 256 levels for each of red, green and blue.
pub struct Palette {
    /// Red levels, one per color index.
    pub r: Vec<u8>,
    /// Green levels, one per color index.
    pub g: Vec<u8>,
    /// Blue levels, one per color index.
    pub b: Vec<u8>,
}

/// The mathematical content of a palette record.
pub struct PaletteView {
    /// Red levels.
    pub r: Seq<u8>,
    /// Green levels.
    pub g: Seq<u8>,
    /// Blue levels.
    pub b: Seq<u8>,
}

impl View for Palette {
    type V = PaletteView;

    open spec fn view(&self) -> PaletteView {
        PaletteView { r: self.r@, g: self.g@, b: self.b@ }
    }
}

/// A palette holds exactly 256 levels per channel.
pub open spec fn palette_wf(p: PaletteView) -> bool {
    p.r.len() == 256 && p.g.len() == 256 && p.b.len() == 256
}

/// An indexed bitmap record: a name, its dimensions, and one palette index
/// per pixel in row-major order.
pub struct Bitmap {
    /// The fixed-width record name.
    pub name: Vec<u8>,
    /// Width in pixels.
    pub width: u32,
    /// Height in pixels.
    pub height: u32,
    /// One color index per pixel.
    pub data: Vec<u8>,
}

/// The mathematical content of a bitmap record.
pub struct BitmapView {
    /// The fixed-width record name.
    pub name: Seq<u8>,
    /// Width in pixels.
    pub width: u32,
    /// Height in pixels.
    pub height: u32,
    /// One color index per pixel.
    pub data: Seq<u8>,
}

impl View for Bitmap {
    type V = BitmapView;

    open spec fn view(&self) -> BitmapView {
        BitmapView { name: self.name@, width: self.width, height: self.height, data: self.data@ }
    }
}

/// A bitmap carries a 14-byte name, 16-bit dimensions, and exactly one
/// index byte per pixel.
pub open spec fn bitmap_wf(b: BitmapView) -> bool {
    b.name.len() == 14 && b.width <= 0xffff && b.height <= 0xffff && b.data.len() == b.width
        * b.height
}

/// A texture record: a name and the bitmap and palette it resolves with.
pub struct Texture {
    /// The fixed-width record name.
    pub name: Vec<u8>,
    /// Index into the extracted bitmaps.
    pub bitmap_idx: usize,
    /// Index into the extracted palettes.
    pub colour_idx: usize,
    /// Raw bits of the 32-bit pixel-size float; interpreting them is left
    /// to callers outside the verified core.
    pub pixel_size_bits: u32,
}

/// The mathematical content of a texture record.
pub struct TextureView {
    /// The fixed-width record name.
    pub name: Seq<u8>,
    /// Index into the extracted bitmaps.
    pub bitmap_idx: usize,
    /// Index into the extracted palettes.
    pub colour_idx: usize,
    /// Raw bits of the 32-bit pixel-size float.
    pub pixel_size_bits: u32,
}

impl View for Texture {
    type V = TextureView;

    open spec fn view(&self) -> TextureView {
        TextureView {
            name: self.name@,
            bitmap_idx: self.bitmap_idx,
            colour_idx: self.colour_idx,
            pixel_size_bits: self.pixel_size_bits,
        }
    }
}

/// A texture carries a 32-byte name and 16-bit record indices.
pub open spec fn texture_wf(t: TextureView) -> bool {
    t.name.len() == 32 && t.bitmap_idx <= 0xffff && t.colour_idx <= 0xffff
}

/// A file metadata record: fixed-width name, author, date and version.
pub struct FileInfo {
    /// The container's name field.
    pub name: Vec<u8>,
    /// The container's author field.
    pub author: Vec<u8>,
    /// The container's date field.
    pub date: Vec<u8>,
    /// The editor version field.
    pub version: Vec<u8>,
}

/// The mathematical content of a file metadata record.
pub struct FileInfoView {
    /// The container's name field.
    pub name: Seq<u8>,
    /// The container's author field.
    pub author: Seq<u8>,
    /// The container's date field.
    pub date: Seq<u8>,
    /// The editor version field.
    pub version: Seq<u8>,
}

impl View for FileInfo {
    type V = FileInfoView;

    open spec fn view(&self) -> FileInfoView {
        FileInfoView {
            name: self.name@,
            author: self.author@,
            date: self.date@,
            version: self.version@,
        }
    }
}

/// A fixed-width field of `n` bytes at offset `p`, padded with spaces where
/// the buffer runs out.
pub open spec fn padded_at(d: Seq<u8>, p: int, n: int) -> Seq<u8> {
    Seq::new(
        n as nat,
        |j: int|
            if p + j < d.len() {
                d[p + j]
            } else {
                0x20u8
            },
    )
}

/// The palette whose payload starts at offset `p`: 256 red, then 256
/// green, then 256 blue levels.
pub open spec fn palette_at(d: Seq<u8>, p: int) -> PaletteView {
    PaletteView {
        r: d.subrange(p, p + 256),
        g: d.subrange(p + 256, p + 512),
        b: d.subrange(p + 512, p + 768),
    }
}

/// The pixel count declared by the bitmap header at offset `p`.
pub open spec fn bitmap_size_at(d: Seq<u8>, p: int) -> int {
    le16_at(d, p + 16) * le16_at(d, p + 18)
}

/// The bitmap whose payload starts at offset `p`: a 16-bit header size, a
/// 14-byte name, the two 16-bit dimensions, 16-bit flags, then the index
/// bytes.
pub open spec fn bitmap_at(d: Seq<u8>, p: int) -> BitmapView {
    BitmapView {
        name: d.subrange(p + 2, p + 16),
        width: le16_at(d, p + 16) as u32,
        height: le16_at(d, p + 18) as u32,
        data: d.subrange(p + 22, p + 22 + bitmap_size_at(d, p)),
    }
}

/// The texture whose payload starts at offset `p`: a 32-byte name, two
/// 16-bit record indices, and the 32-bit pixel-size bits.
pub open spec fn texture_at(d: Seq<u8>, p: int) -> TextureView {
    TextureView {
        name: d.subrange(p, p + 32),
        bitmap_idx: le16_at(d, p + 32) as usize,
        colour_idx: le16_at(d, p + 34) as usize,
        pixel_size_bits: le32_at(d, p + 36) as u32,
    }
}

/// The file metadata whose payload starts at offset `p`: four fixed-width
/// space-padded fields of 32, 32, 32 and 16 bytes.
pub open spec fn info_at(d: Seq<u8>, p: int) -> FileInfoView {
    FileInfoView {
        name: padded_at(d, p, 32),
        author: padded_at(d, p + 32, 32),
        date: padded_at(d, p + 64, 32),
        version: padded_at(d, p + 96, 16),
    }
}

/// The stream position after the padded reads of a file metadata record.
pub open spec fn info_end(d: Seq<u8>, p: int) -> int {
    if p >= d.len() {
        p
    } else if p + 112 <= d.len() {
        p + 112
    } else {
        d.len() as int
    }
}

/// Reads a record header: the 16-bit id, then the 32-bit record size.
pub fn read_header(s: &mut ByteStream) -> (r: Result<(u16, u32), StreamError>)
    ensures
        final(s).data == old(s).data,
        r is Ok <==> old(s).pos + 6 <= old(s).data@.len(),
        r is Ok ==> (r->Ok_0).0 == le16_at(old(s).data@, old(s).pos as int) && (r->Ok_0).1
            == le32_at(old(s).data@, old(s).pos + 2) && final(s).pos == old(s).pos + 6,
        r is Err ==> r->Err_0 == StreamError::Truncated && final(s).pos == (if old(s).pos + 2
            <= old(s).data@.len() {
            old(s).pos + 2
        } else {
            old(s).pos as int
        }),
    {
    let id = match s.read_u16_le() {
        Ok(v) => v,
        Err(e) => { return Err(e) },
    };
    let size = match s.read_u32_le() {
        Ok(v) => v,
        Err(e) => { return Err(e) },
    };
    Ok((id, size))
}

/// Reads a palette record payload: 768 level bytes.
pub fn read_palette_data(s: &mut ByteStream) -> (r: Result<Palette, StreamError>)
    ensures
        final(s).data == old(s).data,
        r is Ok <==> old(s).pos + 768 <= old(s).data@.len(),
        r is Ok ==> (r->Ok_0)@ == palette_at(old(s).data@, old(s).pos as int) && palette_wf(
            (r->Ok_0)@,
        ) && final(s).pos == old(s).pos + 768,
        r is Err ==> final(s).pos == old(s).pos && r->Err_0 == StreamError::Truncated,
{
    if s.data.len() < 768 || s.pos > s.data.len() - 768 {
        return Err(StreamError::Truncated);
    }
    let r = match s.read_bytes(256) {
        Ok(v) => v,
        Err(e) => { return Err(e) },
    };
    let g = match s.read_bytes(256) {
        Ok(v) => v,
        Err(e) => { return Err(e) },
    };
    let b = match s.read_bytes(256) {
        Ok(v) => v,
        Err(e) => { return Err(e) },
    };
    let p = Palette { r, g, b };
    proof {
        assert(p@.r =~= palette_at(old(s).data@, old(s).pos as int).r);
        assert(p@.g =~= palette_at(old(s).data@, old(s).pos as int).g);
        assert(p@.b =~= palette_at(old(s).data@, old(s).pos as int).b);
    }
    Ok(p)
}

/// Reads a bitmap record payload: header fields, then one index byte per
/// pixel, as many as the declared dimensions require.
pub fn read_bitmap_data(s: &mut ByteStream) -> (r: Result<Bitmap, StreamError>)
    ensures
        final(s).data == old(s).data,
        r is Ok <==> old(s).pos + 22 + bitmap_size_at(old(s).data@, old(s).pos as int) <= old(
            s,
        ).data@.len(),
        r is Ok ==> (r->Ok_0)@ == bitmap_at(old(s).data@, old(s).pos as int) && bitmap_wf(
            (r->Ok_0)@,
        ) && final(s).pos == old(s).pos + 22 + bitmap_size_at(old(s).data@, old(s).pos as int),
        r is Err ==> final(s).pos == old(s).pos && r->Err_0 == StreamError::Truncated,
{
    let start = s.pos;
    if s.data.len() < 22 || start > s.data.len() - 22 {
        proof {
            assert(bitmap_size_at(s.data@, start as int) >= 0);
        }
        return Err(StreamError::Truncated);
    }
    let _hdr_size = match s.read_u16_le() {
        Ok(v) => v,
        Err(e) => { return Err(e) },
    };
    let name = match s.read_bytes(14) {
        Ok(v) => v,
        Err(e) => { return Err(e) },
    };
    let x_len = match s.read_u16_le() {
        Ok(v) => v,
        Err(e) => { return Err(e) },
    };
    let y_len = match s.read_u16_le() {
        Ok(v) => v,
        Err(e) => { return Err(e) },
    };
    let _flags = match s.read_u16_le() {
        Ok(v) => v,
        Err(e) => { return Err(e) },
    };
    proof {
        assert((x_len as int) * (y_len as int) <= 0xffff * 0xffff) by (nonlinear_arith)
            requires
                x_len <= 0xffff,
                y_len <= 0xffff,
        ;
    }
    let sz: usize = (x_len as usize) * (y_len as usize);
    proof {
        assert(sz == bitmap_size_at(s.data@, start as int));
    }
    if sz > s.data.len() - s.pos {
        s.pos = start;
        return Err(StreamError::Truncated);
    }
    let data = match s.read_bytes(sz) {
        Ok(v) => v,
        Err(e) => { return Err(e) },
    };
    let b = Bitmap { name, width: x_len as u32, height: y_len as u32, data };
    proof {
        assert(b@.name =~= bitmap_at(old(s).data@, start as int).name);
        assert(b@.data =~= bitmap_at(old(s).data@, start as int).data);
    }
    Ok(b)
}

/// Reads a texture record payload: a 32-byte name, the bitmap and palette
/// indices, and the pixel-size bits.
pub fn read_texture_data(s: &mut ByteStream) -> (r: Result<Texture, StreamError>)
    ensures
        final(s).data == old(s).data,
        r is Ok <==> old(s).pos + 40 <= old(s).data@.len(),
        r is Ok ==> (r->Ok_0)@ == texture_at(old(s).data@, old(s).pos as int) && texture_wf(
            (r->Ok_0)@,
        ) && final(s).pos == old(s).pos + 40,
        r is Err ==> final(s).pos == old(s).pos && r->Err_0 == StreamError::Truncated,
{
    if s.data.len() < 40 || s.pos > s.data.len() - 40 {
        return Err(StreamError::Truncated);
    }
    let name = match s.read_bytes(32) {
        Ok(v) => v,
        Err(e) => { return Err(e) },
    };
    let bitmap_idx = match s.read_u16_le() {
        Ok(v) => v,
        Err(e) => { return Err(e) },
    };
    let colour_idx = match s.read_u16_le() {
        Ok(v) => v,
        Err(e) => { return Err(e) },
    };
    let pixel_size_bits = match s.read_f32_bits() {
        Ok(v) => v,
        Err(e) => { return Err(e) },
    };
    let t = Texture {
        name,
        bitmap_idx: bitmap_idx as usize,
        colour_idx: colour_idx as usize,
        pixel_size_bits,
    };
    proof {
        assert(t@.name =~= texture_at(old(s).data@, old(s).pos as int).name);
    }
    Ok(t)
}

/// Reads a file metadata record payload: four space-padded fields; never
/// fails, whatever is left in the stream.
pub fn read_file_info(s: &mut ByteStream) -> (info: FileInfo)
    ensures
        final(s).data == old(s).data,
        info@ == info_at(old(s).data@, old(s).pos as int),
        final(s).pos == info_end(old(s).data@, old(s).pos as int),
{
    let name = s.read_padded(32);
    let author = s.read_padded(32);
    let date = s.read_padded(32);
    let version = s.read_padded(16);
    let info = FileInfo { name, author, date, version };
    proof {
        let d = old(s).data@;
        let p = old(s).pos as int;
        assert(info@.name =~= padded_at(d, p, 32));
        assert(info@.author =~= padded_at(d, p + 32, 32));
        assert(info@.date =~= padded_at(d, p + 64, 32));
        assert(info@.version =~= padded_at(d, p + 96, 16));
    }
    info
}

/// Skips the rest of a record whose header declared `size` bytes for the
/// whole record, the six header bytes included; on success the stream
/// stands exactly at the record start plus `size`, neither more nor less.
pub fn skip_record_payload(s: &mut ByteStream, size: u32) -> (r: Result<(), StreamError>)
    requires
        size >= 6,
        old(s).pos >= 6,
    ensures
        final(s).data == old(s).data,
        r is Ok <==> old(s).pos - 6 + size <= usize::MAX,
        r is Ok ==> final(s).pos == old(s).pos - 6 + size,
        r is Err ==> final(s).pos == old(s).pos && r->Err_0 == StreamError::Truncated,
{
    s.skip((size - 6) as usize)
}

/// Everything one walk of the container yields, in stream order.
pub struct ExtractionView {
    /// The palette records, first record first.
    pub palettes: Seq<PaletteView>,
    /// The bitmap records, first record first.
    pub bitmaps: Seq<BitmapView>,
    /// The texture records, first record first.
    pub textures: Seq<TextureView>,
    /// The file metadata records, first record first.
    pub infos: Seq<FileInfoView>,
}

/// The yield of a walk that finds nothing.
pub open spec fn empty_extraction() -> ExtractionView {
    ExtractionView {
        palettes: Seq::empty(),
        bitmaps: Seq::empty(),
        textures: Seq::empty(),
        infos: Seq::empty(),
    }
}

/// Bytes left between the position and the end of the buffer.
pub open spec fn walk_measure(d: Seq<u8>, p: int) -> nat {
    if 0 <= p <= d.len() {
        (d.len() - p) as nat
    } else {
        0
    }
}

/// The records a walk starting at offset `p` yields.  A header that cannot
/// be read ends the walk; a known record whose payload can be read is
/// collected; any other record is skipped by the declared size, and a size
/// below the six header bytes ends the walk (no resynchronization point).
pub open spec fn walk_from(d: Seq<u8>, p: int) -> ExtractionView
    decreases walk_measure(d, p),
{
    if p < 0 || p + 6 > d.len() {
        empty_extraction()
    } else {
        let id = le16_at(d, p);
        let size = le32_at(d, p + 2);
        let body = p + 6;
        if id == 2 && body + 768 <= d.len() {
            let rest = walk_from(d, body + 768);
            ExtractionView {
                palettes: seq![palette_at(d, body)] + rest.palettes,
                bitmaps: rest.bitmaps,
                textures: rest.textures,
                infos: rest.infos,
            }
        } else if id == 14 && body + 22 + bitmap_size_at(d, body) <= d.len() {
            let rest = walk_from(d, body + 22 + bitmap_size_at(d, body));
            ExtractionView {
                palettes: rest.palettes,
                bitmaps: seq![bitmap_at(d, body)] + rest.bitmaps,
                textures: rest.textures,
                infos: rest.infos,
            }
        } else if id == 15 && body + 40 <= d.len() {
            let rest = walk_from(d, body + 40);
            ExtractionView {
                palettes: rest.palettes,
                bitmaps: rest.bitmaps,
                textures: seq![texture_at(d, body)] + rest.textures,
                infos: rest.infos,
            }
        } else if id == 20 {
            let rest = walk_from(d, info_end(d, body));
            ExtractionView {
                palettes: rest.palettes,
                bitmaps: rest.bitmaps,
                textures: rest.textures,
                infos: seq![info_at(d, body)] + rest.infos,
            }
        } else if size >= 6 {
            walk_from(d, p + size)
        } else {
            empty_extraction()
        }
    }
}

/// The palette records of a vector, as their mathematical contents.
pub open spec fn palette_views(v: Seq<Palette>) -> Seq<PaletteView> {
    v.map_values(|x: Palette| x@)
}

/// The bitmap records of a vector, as their mathematical contents.
pub open spec fn bitmap_views(v: Seq<Bitmap>) -> Seq<BitmapView> {
    v.map_values(|x: Bitmap| x@)
}

/// The texture records of a vector, as their mathematical contents.
pub open spec fn texture_views(v: Seq<Texture>) -> Seq<TextureView> {
    v.map_values(|x: Texture| x@)
}

/// The file metadata records of a vector, as their mathematical contents.
pub open spec fn info_views(v: Seq<FileInfo>) -> Seq<FileInfoView> {
    v.map_values(|x: FileInfo| x@)
}

/// Appending one element to the accumulator moves it across the views.
proof fn lemma_palette_views_push(v: Seq<Palette>, x: Palette)
    ensures
        palette_views(v.push(x)) == palette_views(v).push(x@),
{
    assert(palette_views(v.push(x)) =~= palette_views(v).push(x@));
}

/// Appending one element to the accumulator moves it across the views.
proof fn lemma_bitmap_views_push(v: Seq<Bitmap>, x: Bitmap)
    ensures
        bitmap_views(v.push(x)) == bitmap_views(v).push(x@),
{
    assert(bitmap_views(v.push(x)) =~= bitmap_views(v).push(x@));
}

/// Appending one element to the accumulator moves it across the views.
proof fn lemma_texture_views_push(v: Seq<Texture>, x: Texture)
    ensures
        texture_views(v.push(x)) == texture_views(v).push(x@),
{
    assert(texture_views(v.push(x)) =~= texture_views(v).push(x@));
}

/// Appending one element to the accumulator moves it across the views.
proof fn lemma_info_views_push(v: Seq<FileInfo>, x: FileInfo)
    ensures
        info_views(v.push(x)) == info_views(v).push(x@),
{
    assert(info_views(v.push(x)) =~= info_views(v).push(x@));
}

/// The head of the remainder moves onto the end of the prefix.
proof fn lemma_seq_shift<T>(a: Seq<T>, x: T, b: Seq<T>)
    ensures
        a + (seq![x] + b) == a.push(x) + b,
{
    assert(a + (seq![x] + b) =~= a.push(x) + b);
}

/// A sequence absorbs an empty remainder.
proof fn lemma_seq_end<T>(a: Seq<T>)
    ensures
        a + Seq::<T>::empty() == a,
{
    assert(a + Seq::<T>::empty() =~= a);
}

/// Everything one walk of a container yields.
pub struct Extraction {
    /// The palette records, in stream order.
    pub palettes: Vec<Palette>,
    /// The bitmap records, in stream order.
    pub bitmaps: Vec<Bitmap>,
    /// The texture records, in stream order.
    pub textures: Vec<Texture>,
    /// The file metadata records, in stream order.
    pub infos: Vec<FileInfo>,
}

/// Walks the whole container and materializes every palette, bitmap,
/// texture and file metadata record, exactly as the walk model `walk_from`
/// describes; a truncated record loses only itself, never what was already
/// extracted.
pub fn extract_records(data: Vec<u8>) -> (r: Extraction)
    ensures
        palette_views(r.palettes@) == walk_from(data@, 0).palettes,
        bitmap_views(r.bitmaps@) == walk_from(data@, 0).bitmaps,
        texture_views(r.textures@) == walk_from(data@, 0).textures,
        info_views(r.infos@) == walk_from(data@, 0).infos,
        forall|i: int| 0 <= i < r.palettes@.len() ==> palette_wf(#[trigger] r.palettes@[i]@),
        forall|i: int| 0 <= i < r.bitmaps@.len() ==> bitmap_wf(#[trigger] r.bitmaps@[i]@),
        forall|i: int| 0 <= i < r.textures@.len() ==> texture_wf(#[trigger] r.textures@[i]@),
{
    let ghost d = data@;
    let dl = data.len();
    let mut s = ByteStream::new(data);
    let mut palettes: Vec<Palette> = Vec::new();
    let mut bitmaps: Vec<Bitmap> = Vec::new();
    let mut textures: Vec<Texture> = Vec::new();
    let mut infos: Vec<FileInfo> = Vec::new();
    loop
        invariant_except_break
            s.data@ == d,
            d.len() == dl,
            walk_from(d, 0).palettes == palette_views(palettes@) + walk_from(
                d,
                s.pos as int,
            ).palettes,
            walk_from(d, 0).bitmaps == bitmap_views(bitmaps@) + walk_from(d, s.pos as int).bitmaps,
            walk_from(d, 0).textures == texture_views(textures@) + walk_from(
                d,
                s.pos as int,
            ).textures,
            walk_from(d, 0).infos == info_views(infos@) + walk_from(d, s.pos as int).infos,
            forall|i: int| 0 <= i < palettes@.len() ==> palette_wf(#[trigger] palettes@[i]@),
            forall|i: int| 0 <= i < bitmaps@.len() ==> bitmap_wf(#[trigger] bitmaps@[i]@),
            forall|i: int| 0 <= i < textures@.len() ==> texture_wf(#[trigger] textures@[i]@),
        ensures
            walk_from(d, 0).palettes == palette_views(palettes@),
            walk_from(d, 0).bitmaps == bitmap_views(bitmaps@),
            walk_from(d, 0).textures == texture_views(textures@),
            walk_from(d, 0).infos == info_views(infos@),
            forall|i: int| 0 <= i < palettes@.len() ==> palette_wf(#[trigger] palettes@[i]@),
            forall|i: int| 0 <= i < bitmaps@.len() ==> bitmap_wf(#[trigger] bitmaps@[i]@),
            forall|i: int| 0 <= i < textures@.len() ==> texture_wf(#[trigger] textures@[i]@),
        decreases walk_measure(s.data@, s.pos as int),
    {
        let ghost p = s.pos as int;
        let hdr = match read_header(&mut s) {
            Ok(h) => h,
            Err(_) => {
                proof {
                    assert(walk_from(d, p) == empty_extraction());
                    lemma_seq_end(palette_views(palettes@));
                    lemma_seq_end(bitmap_views(bitmaps@));
                    lemma_seq_end(texture_views(textures@));
                    lemma_seq_end(info_views(infos@));
                }
                break ;
            },
        };
        let (id, size) = hdr;
        let ghost body = p + 6;
        let mut parsed = true;
        if id == 2 {
            match read_palette_data(&mut s) {
                Ok(pal) => {
                    proof {
                        lemma_seq_shift(
                            palette_views(palettes@),
                            pal@,
                            walk_from(d, body + 768).palettes,
                        );
                        lemma_palette_views_push(palettes@, pal);
                    }
                    palettes.push(pal);
                },
                Err(_) => {
                    parsed = false;
                },
            }
        } else if id == 14 {
            match read_bitmap_data(&mut s) {
                Ok(bmp) => {
                    proof {
                        lemma_seq_shift(
                            bitmap_views(bitmaps@),
                            bmp@,
                            walk_from(d, body + 22 + bitmap_size_at(d, body)).bitmaps,
                        );
                        lemma_bitmap_views_push(bitmaps@, bmp);
                    }
                    bitmaps.push(bmp);
                },
                Err(_) => {
                    parsed = false;
                },
            }
        } else if id == 15 {
            match read_texture_data(&mut s) {
                Ok(tex) => {
                    proof {
                        lemma_seq_shift(
                            texture_views(textures@),
                            tex@,
                            walk_from(d, body + 40).textures,
                        );
                        lemma_texture_views_push(textures@, tex);
                    }
                    textures.push(tex);
                },
                Err(_) => {
                    parsed = false;
                },
            }
        } else if id == 20 {
            let fi = read_file_info(&mut s);
            proof {
                lemma_seq_shift(info_views(infos@), fi@, walk_from(d, info_end(d, body)).infos);
                lemma_info_views_push(infos@, fi);
            }
            infos.push(fi);
        } else {
            parsed = false;
        }
        if !parsed {
            if size < 6 {
                proof {
                    assert(walk_from(d, p) == empty_extraction());
                    lemma_seq_end(palette_views(palettes@));
                    lemma_seq_end(bitmap_views(bitmaps@));
                    lemma_seq_end(texture_views(textures@));
                    lemma_seq_end(info_views(infos@));
                }
                break ;
            }
            match skip_record_payload(&mut s, size) {
                Ok(_) => {
                    proof {
                        assert(walk_from(d, p) == walk_from(d, p + size));
                    }
                },
                Err(_) => {
                    proof {
                        assert(p + size > usize::MAX);
                        assert(walk_from(d, p + size) == empty_extraction());
                        assert(walk_from(d, p) == empty_extraction());
                        lemma_seq_end(palette_views(palettes@));
                        lemma_seq_end(bitmap_views(bitmaps@));
                        lemma_seq_end(texture_views(textures@));
                        lemma_seq_end(info_views(infos@));
                    }
                    break ;
                },
            }
        }
    }
    Extraction { palettes, bitmaps, textures, infos }
}

/// The packed RGBA8888 pixel a resolved texture holds at `(x, y)`: the
/// bitmap rows are flipped vertically, the palette supplies the channels,
/// and the alpha channel is fully opaque.
pub open spec fn resolved_px(b: BitmapView, pal: PaletteView, x: int, y: int) -> u32 {
    let idx = b.data[(b.height - 1 - y) * b.width + x];
    pack_px(pal.r[idx as int] as u32, pal.g[idx as int] as u32, pal.b[idx as int] as u32, 0xff)
}

/// Resolves a texture's indexed bitmap against its palette into a flat
/// packed RGBA8888 buffer of the bitmap's dimensions, flipping the rows
/// vertically; a reference beyond the extracted set is reported, never
/// followed.
pub fn resolve_texture(t: &Texture, bitmaps: &Vec<Bitmap>, palettes: &Vec<Palette>) -> (r: Result<
    Vec<u32>,
    ResolveError,
>)
    requires
        forall|i: int| 0 <= i < bitmaps@.len() ==> bitmap_wf(#[trigger] bitmaps@[i]@),
        forall|i: int| 0 <= i < palettes@.len() ==> palette_wf(#[trigger] palettes@[i]@),
    ensures
        r is Ok <==> t.bitmap_idx < bitmaps@.len() && t.colour_idx < palettes@.len(),
        t.bitmap_idx >= bitmaps@.len() ==> r == Result::<Vec<u32>, ResolveError>::Err(
            ResolveError::BitmapIndexOutOfRange,
        ),
        t.bitmap_idx < bitmaps@.len() && t.colour_idx >= palettes@.len() ==> r == Result::<
            Vec<u32>,
            ResolveError,
        >::Err(ResolveError::PaletteIndexOutOfRange),
        r is Ok ==> (r->Ok_0)@.len() == bitmaps@[t.bitmap_idx as int]@.width * bitmaps@[
            t.bitmap_idx as int
        ]@.height,
        r is Ok ==> forall|j: int|
            0 <= j < (r->Ok_0)@.len() ==> #[trigger] (r->Ok_0)@[j] == resolved_px(
                bitmaps@[t.bitmap_idx as int]@,
                palettes@[t.colour_idx as int]@,
                j % (bitmaps@[t.bitmap_idx as int]@.width as int),
                j / (bitmaps@[t.bitmap_idx as int]@.width as int),
            ),
{
    if t.bitmap_idx >= bitmaps.len() {
        return Err(ResolveError::BitmapIndexOutOfRange);
    }
    if t.colour_idx >= palettes.len() {
        return Err(ResolveError::PaletteIndexOutOfRange);
    }
    let bmp = &bitmaps[t.bitmap_idx];
    let pal = &palettes[t.colour_idx];
    let w = bmp.width as usize;
    let h = bmp.height as usize;
    let total = bmp.data.len();
    let mut out: Vec<u32> = Vec::new();
    let mut i: usize = 0;
    while i < total
        invariant
            bitmap_wf(bmp@),
            palette_wf(pal@),
            w == bmp@.width,
            h == bmp@.height,
            total == w * h,
            total == bmp@.data.len(),
            i <= total,
            out@.len() == i,
            forall|j: int|
                0 <= j < i ==> #[trigger] out@[j] == resolved_px(
                    bmp@,
                    pal@,
                    j % (w as int),
                    j / (w as int),
                ),
        decreases total - i,
    {
        proof {
            assert(w > 0 && h > 0) by (nonlinear_arith)
                requires
                    i < total,
                    total == w * h,
                    0 <= i,
                    w >= 0,
                    h >= 0,
            ;
        }
        let x = i % w;
        let y = i / w;
        proof {
            assert(y < h) by (nonlinear_arith)
                requires
                    i < w * h,
                    w > 0,
                    h > 0,
                    y == (i as int) / (w as int),
            ;
            assert((h - 1 - y as int) * (w as int) + (x as int) < w * h) by (nonlinear_arith)
                requires
                    0 <= x < w,
                    0 <= y < h,
                    w > 0,
                    h > 0,
            ;
        }
        let yf = h - 1 - y;
        let src = yf * w + x;
        let ci = bmp.data[src] as usize;
        let px = crate::pixel::pack(
            pal.r[ci] as u32,
            pal.g[ci] as u32,
            pal.b[ci] as u32,
            0xff,
        );
        out.push(px);
        i = i + 1;
    }
    Ok(out)
}

} // verus!
