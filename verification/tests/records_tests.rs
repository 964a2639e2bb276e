use cabal_extract::records::{
    extract_records, read_bitmap_data, read_file_info, read_header, read_palette_data,
    read_texture_data, resolve_texture, skip_record_payload, ResolveError, Texture,
};
use cabal_extract::scale::scale;
use cabal_extract::stream::{ByteStream, StreamError};

fn push_u16(v: &mut Vec<u8>, x: u16) {
    v.push((x & 0xff) as u8);
    v.push((x >> 8) as u8);
}

fn push_u32(v: &mut Vec<u8>, x: u32) {
    v.push((x & 0xff) as u8);
    v.push(((x >> 8) & 0xff) as u8);
    v.push(((x >> 16) & 0xff) as u8);
    v.push(((x >> 24) & 0xff) as u8);
}

fn push_record_header(v: &mut Vec<u8>, id: u16, size: u32) {
    push_u16(v, id);
    push_u32(v, size);
}

fn palette_payload() -> Vec<u8> {
    // red level i, green level 255-i, blue level i/2
    let mut v = Vec::new();
    for i in 0..256usize {
        v.push(i as u8);
    }
    for i in 0..256usize {
        v.push((255 - i) as u8);
    }
    for i in 0..256usize {
        v.push((i / 2) as u8);
    }
    v
}

fn bitmap_payload(name_byte: u8, w: u16, h: u16, data: &[u8]) -> Vec<u8> {
    let mut v = Vec::new();
    push_u16(&mut v, 20); // header size field
    for _ in 0..14 {
        v.push(name_byte);
    }
    push_u16(&mut v, w);
    push_u16(&mut v, h);
    push_u16(&mut v, 0); // flags
    v.extend_from_slice(data);
    v
}

fn texture_payload(name_byte: u8, bitmap_idx: u16, colour_idx: u16, size_bits: u32) -> Vec<u8> {
    let mut v = Vec::new();
    for _ in 0..32 {
        v.push(name_byte);
    }
    push_u16(&mut v, bitmap_idx);
    push_u16(&mut v, colour_idx);
    push_u32(&mut v, size_bits);
    v
}

#[test]
fn stream_reads_little_endian_values() {
    let mut s = ByteStream::new(vec![0x34, 0x12, 0x78, 0x56, 0x34, 0x12]);
    assert_eq!(s.read_u16_le(), Ok(0x1234));
    assert_eq!(s.read_u32_le(), Ok(0x12345678));
    assert_eq!(s.pos, 6);
}

#[test]
fn stream_reads_signed_values() {
    let mut s = ByteStream::new(vec![0xff, 0xff, 0xfe, 0xff, 0xff, 0xff, 0x2e, 0xfb]);
    assert_eq!(s.read_i16_le(), Ok(-1));
    assert_eq!(s.read_i32_le(), Ok(-2));
    assert_eq!(s.read_i16_le(), Ok(-1234));
}

#[test]
fn stream_reads_float_bits() {
    // 1.0f32 and 1.0f64, little endian
    let mut s = ByteStream::new(vec![
        0x00, 0x00, 0x80, 0x3f, 0x00, 0x00, 0x00, 0x00, 0x00, 0x00, 0xf0, 0x3f,
    ]);
    assert_eq!(s.read_f32_bits(), Ok(0x3f800000));
    assert_eq!(s.read_f64_bits(), Ok(0x3ff0000000000000));
    assert_eq!(f32::from_bits(0x3f800000), 1.0f32);
    assert_eq!(f64::from_bits(0x3ff0000000000000), 1.0f64);
}

#[test]
fn stream_truncated_read_leaves_position() {
    let mut s = ByteStream::new(vec![0x01]);
    assert_eq!(s.read_u16_le(), Err(StreamError::Truncated));
    assert_eq!(s.pos, 0);
    assert_eq!(s.read_u8(), Ok(0x01));
    assert_eq!(s.read_u8(), Err(StreamError::Truncated));
    assert_eq!(s.pos, 1);
}

#[test]
fn stream_read_bytes_and_padded() {
    let mut s = ByteStream::new(vec![1, 2, 3, 4, 5]);
    assert_eq!(s.read_bytes(3), Ok(vec![1, 2, 3]));
    let padded = s.read_padded(4);
    assert_eq!(padded, vec![4, 5, 0x20, 0x20]);
    assert_eq!(s.pos, 5);
}

#[test]
fn skip_advances_position_exactly() {
    let mut s = ByteStream::new(vec![0; 10]);
    assert_eq!(s.skip(4), Ok(()));
    assert_eq!(s.pos, 4);
    // a skip may run past the end of the buffer
    assert_eq!(s.skip(20), Ok(()));
    assert_eq!(s.pos, 24);
}

#[test]
fn unknown_record_skip_lands_on_next_record() {
    // an unknown record of declared size leaves the stream exactly at
    // record start + size
    let mut bytes = Vec::new();
    push_record_header(&mut bytes, 99, 6 + 11);
    for i in 0..11u8 {
        bytes.push(i);
    }
    bytes.push(0xAA); // first byte of whatever follows
    let mut s = ByteStream::new(bytes);
    let (id, size) = read_header(&mut s).unwrap();
    assert_eq!(id, 99);
    assert_eq!(size, 17);
    skip_record_payload(&mut s, size).unwrap();
    assert_eq!(s.pos, 17);
    assert_eq!(s.read_u8(), Ok(0xAA));
}

#[test]
fn parse_palette_record() {
    let mut s = ByteStream::new(palette_payload());
    let p = read_palette_data(&mut s).unwrap();
    assert_eq!(p.r.len(), 256);
    assert_eq!(p.g.len(), 256);
    assert_eq!(p.b.len(), 256);
    assert_eq!(p.r[10], 10);
    assert_eq!(p.g[10], 245);
    assert_eq!(p.b[10], 5);
    assert_eq!(s.pos, 768);
}

#[test]
fn parse_palette_truncated() {
    let mut s = ByteStream::new(vec![0; 767]);
    assert!(read_palette_data(&mut s).is_err());
    assert_eq!(s.pos, 0);
}

#[test]
fn parse_bitmap_record() {
    let mut s = ByteStream::new(bitmap_payload(b'n', 3, 2, &[9, 8, 7, 6, 5, 4]));
    let b = read_bitmap_data(&mut s).unwrap();
    assert_eq!(b.width, 3);
    assert_eq!(b.height, 2);
    assert_eq!(b.name, vec![b'n'; 14]);
    assert_eq!(b.data, vec![9, 8, 7, 6, 5, 4]);
    assert_eq!(s.pos, 22 + 6);
}

#[test]
fn parse_bitmap_with_short_payload_fails() {
    // the header declares more pixels than the stream holds
    let mut s = ByteStream::new(bitmap_payload(b'n', 200, 200, &[0; 4]));
    assert!(read_bitmap_data(&mut s).is_err());
    assert_eq!(s.pos, 0);
}

#[test]
fn parse_texture_record() {
    let mut s = ByteStream::new(texture_payload(b't', 7, 3, 0x3f800000));
    let t = read_texture_data(&mut s).unwrap();
    assert_eq!(t.name, vec![b't'; 32]);
    assert_eq!(t.bitmap_idx, 7);
    assert_eq!(t.colour_idx, 3);
    assert_eq!(t.pixel_size_bits, 0x3f800000);
    assert_eq!(s.pos, 40);
}

#[test]
fn parse_file_info_record() {
    let mut bytes = Vec::new();
    for _ in 0..32 {
        bytes.push(b'N');
    }
    for _ in 0..32 {
        bytes.push(b'A');
    }
    for _ in 0..32 {
        bytes.push(b'D');
    }
    for _ in 0..16 {
        bytes.push(b'V');
    }
    let mut s = ByteStream::new(bytes);
    let info = read_file_info(&mut s);
    assert_eq!(info.name, vec![b'N'; 32]);
    assert_eq!(info.author, vec![b'A'; 32]);
    assert_eq!(info.date, vec![b'D'; 32]);
    assert_eq!(info.version, vec![b'V'; 16]);
    assert_eq!(s.pos, 112);
}

#[test]
fn extract_walks_a_full_container() {
    let mut bytes = Vec::new();
    // file metadata
    push_record_header(&mut bytes, 20, 118);
    for _ in 0..32 {
        bytes.push(b'G');
    }
    for _ in 0..80 {
        bytes.push(b' ');
    }
    // a palette
    push_record_header(&mut bytes, 2, 774);
    bytes.extend_from_slice(&palette_payload());
    // an unknown record, skipped by its size
    push_record_header(&mut bytes, 99, 6 + 5);
    bytes.extend_from_slice(&[1, 2, 3, 4, 5]);
    // a bitmap
    let bp = bitmap_payload(b'b', 2, 2, &[0, 1, 2, 3]);
    push_record_header(&mut bytes, 14, 6 + bp.len() as u32);
    bytes.extend_from_slice(&bp);
    // level geometry, out of scope, skipped by its size
    push_record_header(&mut bytes, 40, 6 + 9);
    bytes.extend_from_slice(&[0; 9]);
    // a texture referencing the bitmap and the palette
    push_record_header(&mut bytes, 15, 46);
    bytes.extend_from_slice(&texture_payload(b't', 0, 0, 0));

    let ext = extract_records(bytes);
    assert_eq!(ext.infos.len(), 1);
    assert_eq!(ext.palettes.len(), 1);
    assert_eq!(ext.bitmaps.len(), 1);
    assert_eq!(ext.textures.len(), 1);
    assert_eq!(ext.infos[0].name, vec![b'G'; 32]);
    assert_eq!(ext.bitmaps[0].width, 2);
    assert_eq!(ext.bitmaps[0].data, vec![0, 1, 2, 3]);
    assert_eq!(ext.textures[0].bitmap_idx, 0);
}

#[test]
fn extract_resynchronizes_after_bad_record() {
    let mut bytes = Vec::new();
    // a bitmap whose declared dimensions exceed its payload: the record is
    // dropped and the walk resumes at start + size
    let bad = bitmap_payload(b'x', 0xffff, 0xffff, &[0; 4]);
    push_record_header(&mut bytes, 14, 6 + bad.len() as u32);
    bytes.extend_from_slice(&bad);
    push_record_header(&mut bytes, 2, 774);
    bytes.extend_from_slice(&palette_payload());
    let ext = extract_records(bytes);
    assert_eq!(ext.bitmaps.len(), 0);
    assert_eq!(ext.palettes.len(), 1);
}

#[test]
fn extract_stops_at_truncated_header() {
    let ext = extract_records(vec![2, 0, 1]);
    assert_eq!(ext.palettes.len(), 0);
    assert_eq!(ext.bitmaps.len(), 0);
    assert_eq!(ext.textures.len(), 0);
    assert_eq!(ext.infos.len(), 0);
}

fn sample_palette() -> cabal_extract::records::Palette {
    // index 0 red, 1 green, 2 blue, 3 white
    let mut r = vec![0u8; 256];
    let mut g = vec![0u8; 256];
    let mut b = vec![0u8; 256];
    r[0] = 255;
    g[1] = 255;
    b[2] = 255;
    r[3] = 255;
    g[3] = 255;
    b[3] = 255;
    cabal_extract::records::Palette { r, g, b }
}

fn sample_texture(bitmap_idx: usize, colour_idx: usize) -> Texture {
    Texture { name: vec![b' '; 32], bitmap_idx, colour_idx, pixel_size_bits: 0 }
}

#[test]
fn resolve_texture_flips_rows_and_applies_palette() {
    // stored rows are blue/white then red/green; the resolved buffer is
    // flipped vertically, so red/green comes first
    let bitmaps = vec![cabal_extract::records::Bitmap {
        name: vec![b' '; 14],
        width: 2,
        height: 2,
        data: vec![2, 3, 0, 1],
    }];
    let palettes = vec![sample_palette()];
    let t = sample_texture(0, 0);
    let buf = resolve_texture(&t, &bitmaps, &palettes).unwrap();
    assert_eq!(buf, vec![0xFF0000FF, 0xFF00FF00, 0xFFFF0000, 0xFFFFFFFF]);
}

#[test]
fn resolve_texture_reports_bad_references() {
    let bitmaps = vec![cabal_extract::records::Bitmap {
        name: vec![b' '; 14],
        width: 1,
        height: 1,
        data: vec![0],
    }];
    let palettes = vec![sample_palette()];
    assert_eq!(
        resolve_texture(&sample_texture(1, 0), &bitmaps, &palettes),
        Err(ResolveError::BitmapIndexOutOfRange)
    );
    assert_eq!(
        resolve_texture(&sample_texture(0, 1), &bitmaps, &palettes),
        Err(ResolveError::PaletteIndexOutOfRange)
    );
}

#[test]
fn extracted_texture_scales_to_golden_output() {
    // end to end: container bytes -> records -> resolved buffer -> 2x scale
    let mut bytes = Vec::new();
    let mut pal = vec![0u8; 768];
    pal[0] = 255; // r[0]
    pal[256 + 1] = 255; // g[1]
    pal[512 + 2] = 255; // b[2]
    pal[3] = 255;
    pal[256 + 3] = 255;
    pal[512 + 3] = 255;
    push_record_header(&mut bytes, 2, 774);
    bytes.extend_from_slice(&pal);
    let bp = bitmap_payload(b'b', 2, 2, &[2, 3, 0, 1]);
    push_record_header(&mut bytes, 14, 6 + bp.len() as u32);
    bytes.extend_from_slice(&bp);
    push_record_header(&mut bytes, 15, 46);
    bytes.extend_from_slice(&texture_payload(b't', 0, 0, 0));

    let ext = extract_records(bytes);
    let t = &ext.textures[0];
    let buf = resolve_texture(t, &ext.bitmaps, &ext.palettes).unwrap();
    assert_eq!(buf, vec![0xFF0000FF, 0xFF00FF00, 0xFFFF0000, 0xFFFFFFFF]);
    let out = scale(&buf, 2, 2).unwrap();
    let expected: Vec<u32> = vec![
        0xff0000ff, 0xff150ebf, 0xff11a810, 0xff0cff0e,
        0xff3000df, 0xff50088a, 0xff30d100, 0xff4bff72,
        0xffd2002d, 0xffd13000, 0xffadd870, 0xffadffb1,
        0xffff0000, 0xfff23818, 0xffffd1f2, 0xffffffff,
    ];
    assert_eq!(out, expected);
}
