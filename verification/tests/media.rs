use capview::analysis_strip::{composite, AnalysisStrip, Frame};
use capview::bits::BitWriter;
use capview::capture::{PIXFMT_RGB24, V4L2_PIX_FMT_NV12, V4L2_PIX_FMT_UYVY, V4L2_PIX_FMT_YUYV};
use capview::convert::{
    apply_y_lut, clamp_u8, crop_rgb, detect_content_bounds, is_whole, to_rgb, yuv_to_rgb,
};
use capview::jpeg::{
    categorize, encode, sample_block, sample_blocks, scale_table, Block, STD_LUM_QUANT,
};
use capview::net::{parse_header, write_header, HEADER_SIZE};
use capview::png;
use capview::stamp::format_utc_stamp;

#[test]
fn packet_headers_read_back() {
    let mut buf = [0xaau8; 24];
    write_header(&mut buf, 0x01020304, 5, 6, 1920, 1080, 60, 80);
    assert_eq!(&buf[..4], b"CVSW");
    assert_eq!(&buf[4..8], &[1, 2, 3, 4]);
    assert_eq!(&buf[20..], &[0xaa; 4]);
    let h = parse_header(&buf).unwrap();
    assert_eq!((h.seq, h.frag_idx, h.frag_count), (0x01020304, 5, 6));
    assert_eq!((h.width, h.height, h.fps, h.quality), (1920, 1080, 60, 80));
    assert!(parse_header(&buf[..HEADER_SIZE - 1]).is_none());
    buf[0] = 0;
    assert!(parse_header(&buf).is_none());
}

#[test]
fn bits_are_packed_and_stuffed() {
    let mut w = BitWriter::new();
    w.put(0b101, 3);
    w.put(0xff, 8);
    w.flush();
    assert_eq!(w.into_bytes(), vec![0b1011_1111, 0b1111_1111, 0]);
}

#[test]
fn categories_of_coefficients() {
    assert_eq!(categorize(0), (0, 0));
    assert_eq!(categorize(1), (1, 1));
    assert_eq!(categorize(-1), (1, 0));
    assert_eq!(categorize(5), (3, 5));
    assert_eq!(categorize(-5), (3, 2));
}

#[test]
fn quality_scales_the_tables() {
    assert_eq!(scale_table(&STD_LUM_QUANT, 50)[0], 16);
    assert_eq!(scale_table(&STD_LUM_QUANT, 100)[0], 1);
    assert_eq!(scale_table(&STD_LUM_QUANT, 90)[0], 3);
}

#[test]
fn a_grey_picture_is_a_whole_file() {
    let b = Block { y: [0; 64], cb: [0; 64], cr: [0; 64] };
    let file = encode(&[b], 8, 8, 90);
    assert_eq!(&file[..4], &[0xff, 0xd8, 0xff, 0xe0]);
    assert_eq!(&file[file.len() - 2..], &[0xff, 0xd9]);
    // No block has a coefficient: luminance 00 1010, chrominance 00 00 twice.
    assert_eq!(&file[file.len() - 4..file.len() - 2], &[0b0010_1000, 0b0000_0011]);
}

#[test]
fn different_pictures_are_different_files() {
    let mut y = [0i16; 64];
    y[0] = 7;
    y[1] = -3;
    let a = encode(&[Block { y, cb: [0; 64], cr: [0; 64] }], 8, 8, 90);
    let b = encode(&[Block { y: [0; 64], cb: [0; 64], cr: [0; 64] }], 8, 8, 90);
    assert_ne!(a, b);
}

#[test]
fn samples_repeat_the_edge() {
    let rgb: Vec<u8> = vec![1, 2, 3, 4, 5, 6];
    let s = sample_block(&rgb, 2, 1, 0, 0);
    assert_eq!((s.r[0], s.r[1], s.r[7], s.r[63]), (1, 4, 4, 4));
    assert_eq!((s.g[0], s.b[1]), (2, 6));
}

/// Coefficients that tell the pixels of blocks apart.
fn told_apart(rgb: &[u8], width: u32, height: u32) -> Vec<Block> {
    sample_blocks(rgb, width, height)
        .iter()
        .map(|p| Block {
            y: p.r.map(i16::from),
            cb: p.g.map(i16::from),
            cr: p.b.map(i16::from),
        })
        .collect()
}

#[test]
fn partial_blocks_are_those_of_a_widened_picture() {
    let (w, h) = (9u32, 3u32);
    let rgb: Vec<u8> = (0..w * h * 3).map(|i| (i * 7 % 251) as u8).collect();
    let mut big = Vec::new();
    for y in 0..8u32 {
        for x in 0..16u32 {
            let at = ((y.min(h - 1) * w + x.min(w - 1)) * 3) as usize;
            big.extend_from_slice(&rgb[at..at + 3]);
        }
    }
    let small = encode(&told_apart(&rgb, w, h), w, h, 80);
    let wide = encode(&told_apart(&big, 16, 8), 16, 8, 80);
    assert_eq!(sample_blocks(&rgb, w, h).len(), 2);
    assert_ne!(small, wide);
    assert_eq!(small[623..], wide[623..]);
}

#[test]
fn qualities_have_ends() {
    let file = |quality: u32| encode(&told_apart(&[1, 2, 3], 1, 1), 1, 1, quality);
    assert_eq!(file(0), file(1));
    assert_eq!(file(101), file(100));
    assert_ne!(file(1), file(100));
}

#[test]
fn a_picture_is_stored_in_a_png() {
    let rgb = [9, 8, 7, 1, 2, 3, 4, 5, 6, 250, 251, 252];
    let expected: Vec<u8> = vec![
        0x89, 0x50, 0x4e, 0x47, 0x0d, 0x0a, 0x1a, 0x0a, 0x00, 0x00, 0x00, 0x0d, 0x49, 0x48, 0x44, 0x52,
        0x00, 0x00, 0x00, 0x02, 0x00, 0x00, 0x00, 0x02, 0x08, 0x02, 0x00, 0x00, 0x00, 0xfd, 0xd4, 0x9a,
        0x73, 0x00, 0x00, 0x00, 0x19, 0x49, 0x44, 0x41, 0x54, 0x78, 0x01, 0x01, 0x0e, 0x00, 0xf1, 0xff,
        0x00, 0x09, 0x08, 0x07, 0x01, 0x02, 0x03, 0x00, 0x04, 0x05, 0x06, 0xfa, 0xfb, 0xfc, 0x07, 0x8d,
        0x03, 0x1f, 0xfb, 0xb0, 0xb2, 0x5d, 0x00, 0x00, 0x00, 0x00, 0x49, 0x45, 0x4e, 0x44, 0xae, 0x42,
        0x60, 0x82,
    ];
    assert_eq!(png::encode(&rgb, 2, 2), Some(expected));
    assert_eq!(png::encode(&[], 0, 2), None);
    assert_eq!(png::encode(&[], 2, 0), None);
}

#[test]
fn a_large_png_has_several_blocks() {
    let file = png::encode(&vec![7u8; 200 * 200 * 3], 200, 200).unwrap();
    let len = 120200 + 2 + 2 * 5 + 4;
    assert_eq!(file.len(), 8 + 25 + (12 + len) + 12);
    assert_eq!(file[33..37], (len as u32).to_be_bytes());
    // A full block, then the rest.
    assert_eq!(file[43..48], [0, 0xff, 0xff, 0, 0]);
    assert_eq!(file[48 + 65535], 1);
    let sum = file.len() - 12 - 4 - 4;
    assert_eq!(file[sum..sum + 4], 0xe522d1f5u32.to_be_bytes());
}

#[test]
fn frames_are_whole_or_short() {
    assert!(is_whole(&[0; 6], 2, 2, V4L2_PIX_FMT_NV12));
    assert!(!is_whole(&[0; 5], 2, 2, V4L2_PIX_FMT_NV12));
    assert!(is_whole(&[0; 3110400], 1920, 1080, V4L2_PIX_FMT_NV12));
    assert!(is_whole(&[0; 4], 2, 1, V4L2_PIX_FMT_YUYV));
    assert!(!is_whole(&[0; 9], 3, 1, V4L2_PIX_FMT_YUYV));
    assert!(!is_whole(&[0; 2], 1, 1, PIXFMT_RGB24));
    assert!(is_whole(&[], 1, 1, 7));
}

#[test]
fn colours_are_converted() {
    assert_eq!(clamp_u8(-3), 0);
    assert_eq!(clamp_u8(300), 255);
    let grey = yuv_to_rgb(128, 128, 128);
    assert_eq!((grey.r, grey.g, grey.b), (128, 128, 128));
    let red = yuv_to_rgb(76, 85, 255);
    assert_eq!((red.r, red.g, red.b), (254, 0, 0));
    let nv12 = [0u8, 255, 0, 255, 128, 128];
    let rgb = to_rgb(&nv12, 2, 2, V4L2_PIX_FMT_NV12).unwrap();
    assert_eq!(&rgb[..6], &[0, 0, 0, 255, 255, 255]);
    let yuyv = [0u8, 128, 255, 128];
    assert_eq!(to_rgb(&yuyv, 2, 1, V4L2_PIX_FMT_YUYV).unwrap(), vec![0, 0, 0, 255, 255, 255]);
    let uyvy = [128u8, 0, 128, 255];
    assert_eq!(to_rgb(&uyvy, 2, 1, V4L2_PIX_FMT_UYVY).unwrap(), vec![0, 0, 0, 255, 255, 255]);
    assert!(to_rgb(&uyvy, 2, 1, 7).is_none());
    assert_eq!(to_rgb(&[9, 8, 7], 1, 1, PIXFMT_RGB24).is_some(), true);
}

#[test]
fn content_is_found_and_cut_out() {
    let (w, h) = (40u32, 30u32);
    let mut rgb = vec![0u8; (w * h * 3) as usize];
    let p = ((15 * w + 20) * 3) as usize;
    rgb[p] = 200;
    let a = detect_content_bounds(&rgb, w, h);
    assert!(a.x <= 20 && 20 < a.x + a.w && a.y <= 15 && 15 < a.y + a.h);
    let cut = crop_rgb(&rgb, w, a);
    assert_eq!(cut.len() as u32, a.w * a.h * 3);
    assert_eq!(cut.iter().filter(|b| **b == 200).count(), 1);
}

#[test]
fn tables_change_the_luma_alone() {
    let mut lut = [0u8; 256];
    lut[10] = 99;
    let mut yuyv = [10u8, 10, 10, 10];
    apply_y_lut(&mut yuyv, 2, 1, V4L2_PIX_FMT_YUYV, &lut);
    assert_eq!(yuyv, [99, 10, 99, 10]);
    let mut uyvy = [10u8, 10, 10, 10];
    apply_y_lut(&mut uyvy, 2, 1, V4L2_PIX_FMT_UYVY, &lut);
    assert_eq!(uyvy, [10, 99, 10, 99]);
    let mut nv12 = [10u8; 6];
    apply_y_lut(&mut nv12, 2, 2, V4L2_PIX_FMT_NV12, &lut);
    assert_eq!(nv12, [99, 99, 99, 99, 10, 10]);
}

fn frame(v: u8) -> Frame {
    Frame { width: 1, height: 1, rgb: vec![v, v, v] }
}

#[test]
fn frames_fill_a_strip() {
    let mut s = AnalysisStrip::new("/tmp/out", 2, 1, 1700000000);
    assert_eq!(s.capacity(), 2);
    assert_eq!(s.output_dir(), "/tmp/out");
    assert!(s.tar_path().ends_with(".tar"));
    assert!(!s.ingest_frame(frame(1)));
    assert!(s.ingest_frame(frame(2)));
    assert_eq!(s.buffered_count(), 2);
    assert_eq!(s.buffered_bytes(), 6);
    assert!(s.grid_fits());
    let (name, grid) = s.flush();
    assert_eq!(name, "strip_001.jpg");
    assert!(grid.width >= 2);
    s.written();
    assert_eq!((s.buffered_count(), s.strip_count(), s.total_frames()), (0, 1, 2));
    assert!(s.finalize().is_none());
    s.set_grid(0, 9);
    assert_eq!((s.cols, s.rows), (1, 9));
    assert!(!s.ingest_frame(frame(3)));
    let (last, _) = s.finalize().unwrap();
    assert_eq!(last, "strip_002.jpg");
}

#[test]
fn a_strip_counts_once_it_was_written() {
    let mut s = AnalysisStrip::new("/tmp/out", 1, 1, 0);
    assert!(s.ingest_frame(frame(1)));
    assert_eq!(s.flush().0, "strip_001.jpg");
    assert_eq!((s.strip_count(), s.buffered_count()), (0, 1));
    assert_eq!(s.finalize().unwrap().0, "strip_001.jpg");
    assert_eq!((s.strip_count(), s.buffered_count(), s.total_frames()), (0, 1, 1));
    s.written();
    assert_eq!((s.strip_count(), s.buffered_count(), s.total_frames()), (1, 0, 1));
    assert!(s.finalize().is_none());
    assert_eq!((s.strip_count(), s.buffered_count(), s.total_frames()), (1, 0, 1));
    s.strip_index = u32::MAX;
    assert!(s.finalize().is_none());
}

#[test]
fn a_grid_holds_its_frames() {
    let g = composite(&vec![frame(10), frame(20), frame(30)], 2);
    for v in [10u8, 20, 30] {
        assert!(g.rgb.chunks(3).any(|p| p == [v, v, v]));
    }
}

#[test]
fn stamps_of_the_calendar() {
    assert_eq!(format_utc_stamp(0), "19700101-000000");
    assert_eq!(format_utc_stamp(951782399), "20000228-235959");
    assert_eq!(format_utc_stamp(951782400), "20000229-000000");
    assert_eq!(format_utc_stamp(1700000000), "20231114-221320");
}
