use skyctl::{
    debayer_image, downsample, downsample_rgb, render_camera_frame, target_size, BayerPattern,
    Grid2, Grid3, ImageError, RawImage, Stat,
};

fn plane(rows: usize, cols: usize, v: Vec<i32>) -> Grid2 {
    Grid2::from_shape_vec(rows, cols, v).expect("shape matches")
}

fn be_bytes(values: &[i16]) -> Vec<u8> {
    let mut out = Vec::new();
    for v in values {
        out.extend_from_slice(&v.to_be_bytes());
    }
    out
}

fn stat(min: i32, max: i32, median: i32, sum: i128, abs_dev_sum: u128, count: usize) -> Stat {
    Stat { min, max, median, sum, abs_dev_sum, count }
}

// ---- demosaic ----

#[test]
fn demosaic_rggb_block_gives_expected_rgb() {
    let g = plane(2, 2, vec![10, 20, 22, 30]);
    let out = debayer_image(&g, BayerPattern::RGGB).unwrap();
    assert_eq!(out.dim(), (1, 1, 3));
    assert_eq!(out.to_vec(), vec![10, 21, 30]);
}

#[test]
fn demosaic_other_patterns_place_colours() {
    let g = plane(2, 2, vec![10, 20, 22, 30]);
    assert_eq!(debayer_image(&g, BayerPattern::BGGR).unwrap().to_vec(), vec![30, 21, 10]);
    assert_eq!(debayer_image(&g, BayerPattern::GRBG).unwrap().to_vec(), vec![20, 20, 22]);
    assert_eq!(debayer_image(&g, BayerPattern::GBRG).unwrap().to_vec(), vec![22, 20, 20]);
}

#[test]
fn demosaic_green_rounds_down_for_negative_sums() {
    let g = plane(2, 2, vec![0, -3, 0, 0]);
    assert_eq!(debayer_image(&g, BayerPattern::RGGB).unwrap().to_vec(), vec![0, -2, 0]);
}

#[test]
fn demosaic_shape_drops_odd_row_and_column() {
    let g = plane(5, 7, (0..35).collect());
    let out = debayer_image(&g, BayerPattern::RGGB).unwrap();
    assert_eq!(out.dim(), (2, 3, 3));
    assert_eq!(out.to_vec().len(), 18);
    // second block of the second block row: rows 2..4, columns 2..4
    let v = out.to_vec();
    assert_eq!(&v[12..15], &[16, (17 + 23) / 2, 24]);
    let tiny = plane(1, 1, vec![5]);
    assert_eq!(debayer_image(&tiny, BayerPattern::GBRG).unwrap().dim(), (0, 0, 3));
}

#[test]
fn demosaic_without_pattern_is_refused() {
    let g = plane(2, 2, vec![1, 2, 3, 4]);
    assert!(matches!(debayer_image(&g, BayerPattern::NONE), Err(ImageError::Demosaic)));
}

// ---- downsample ----

#[test]
fn downsample_to_source_size_is_identity() {
    let v: Vec<i32> = (1..=12).collect();
    let g = plane(3, 4, v.clone());
    let out = downsample(&g, 4, 3).unwrap();
    assert_eq!(out.dim(), (3, 4));
    assert_eq!(out.to_vec(), v);

    let c: Vec<i32> = (0..18).map(|x| x * 7 - 40).collect();
    let rgb = Grid3::from_shape_vec(2, 3, 3, c.clone()).unwrap();
    let out = downsample_rgb(&rgb, 3, 2).unwrap();
    assert_eq!(out.dim(), (2, 3, 3));
    assert_eq!(out.to_vec(), c);
}

#[test]
fn target_size_keeps_aspect() {
    assert_eq!(target_size(4000, 3000, 800, 800), Some((800, 600)));
    assert_eq!(target_size(3000, 4000, 800, 800), Some((600, 800)));
    assert_eq!(target_size(10, 3, 4, 4), Some((4, 1)));
    assert_eq!(target_size(4, 2, 3, 3), Some((3, 2)));
    // never larger than the source
    assert_eq!(target_size(40, 30, 4000, 3000), Some((40, 30)));
    for &(w, h, mw, mh) in &[(4000usize, 3000usize, 800usize, 800usize), (10, 3, 4, 4), (1920, 1080, 640, 640), (7, 5, 3, 9)] {
        let (tw, th) = target_size(w, h, mw, mh).unwrap();
        let off = 2 * ((tw * h) as i64 - (th * w) as i64).abs();
        assert!(off as usize <= h.max(w));
    }
}

#[test]
fn target_size_rejects_degenerate_boxes() {
    assert_eq!(target_size(100, 1, 1, 100), None);
    assert_eq!(target_size(4, 4, 0, 4), None);
    assert_eq!(target_size(0, 4, 4, 4), None);
}

#[test]
fn downsample_averages_boxes_and_rounds_down() {
    let g = plane(4, 4, (1..=16).collect());
    let out = downsample(&g, 2, 2).unwrap();
    assert_eq!(out.dim(), (2, 2));
    assert_eq!(out.to_vec(), vec![3, 5, 11, 13]);

    let neg = plane(1, 2, vec![-1, -2]);
    assert_eq!(downsample(&neg, 1, 1).unwrap().to_vec(), vec![-2]);

    let overlap = plane(1, 3, vec![0, 3, 6]);
    let out = downsample(&overlap, 2, 1).unwrap();
    assert_eq!(out.dim(), (1, 2));
    assert_eq!(out.to_vec(), vec![1, 4]);
}

#[test]
fn downsample_rgb_averages_each_channel() {
    let rgb = Grid3::from_shape_vec(2, 2, 3, vec![1, 10, 100, 3, 30, 300, 5, 50, 500, 7, 70, 700]).unwrap();
    let out = downsample_rgb(&rgb, 1, 1).unwrap();
    assert_eq!(out.dim(), (1, 1, 3));
    assert_eq!(out.to_vec(), vec![4, 40, 400]);
}

#[test]
fn downsample_zero_box_is_an_error() {
    let g = plane(2, 2, vec![1, 2, 3, 4]);
    assert!(matches!(downsample(&g, 0, 2), Err(ImageError::Downsample)));
    let wide = plane(1, 100, vec![0; 100]);
    assert!(matches!(downsample(&wide, 1, 100), Err(ImageError::Downsample)));
}

// ---- ingestion ----

#[test]
fn ingestion_decodes_big_endian_and_scales() {
    let bytes = vec![0x00, 0x01, 0xff, 0xff, 0x80, 0x00, 0x7f, 0xff];
    let img = RawImage::from_bytes_i16(bytes.clone(), 2, 2, BayerPattern::NONE, 0, 1).unwrap();
    assert_eq!(img.raw_image.dim(), (2, 2));
    assert_eq!(img.raw_image.to_vec(), vec![1, -1, -32768, 32767]);
    assert!(img.debayered_image.is_none());
    assert!(!img.downsampled);

    let img = RawImage::from_bytes_i16(bytes.clone(), 2, 2, BayerPattern::NONE, 32768, 1).unwrap();
    assert_eq!(img.raw_image.to_vec(), vec![32769, 32767, 0, 65535]);

    let img = RawImage::from_bytes_i16(bytes, 4, 1, BayerPattern::RGGB, 1, 2).unwrap();
    assert_eq!(img.raw_image.dim(), (1, 4));
    assert_eq!(img.raw_image.to_vec(), vec![4, 0, -65534, 65536]);
    assert_eq!(img.bayer_pattern, BayerPattern::RGGB);
}

#[test]
fn ingestion_narrows_like_a_cast() {
    let img = RawImage::from_bytes_i16(vec![0x00, 0x01], 1, 1, BayerPattern::NONE, 0, 0x1_0000_0000).unwrap();
    assert_eq!(img.raw_image.to_vec(), vec![0]);
    let img = RawImage::from_bytes_i16(vec![0x00, 0x01], 1, 1, BayerPattern::NONE, 0, 0x8000_0000).unwrap();
    assert_eq!(img.raw_image.to_vec(), vec![i32::MIN]);
}

#[test]
fn ingestion_rejects_bad_lengths() {
    assert!(matches!(RawImage::from_bytes_i16(vec![0, 1, 2], 1, 1, BayerPattern::NONE, 0, 1), Err(ImageError::Ingestion)));
    assert!(matches!(RawImage::from_bytes_i16(vec![0, 1, 2, 3], 2, 2, BayerPattern::NONE, 0, 1), Err(ImageError::Ingestion)));
    assert!(matches!(RawImage::from_bytes_i16(vec![0; 10], 2, 2, BayerPattern::NONE, 0, 1), Err(ImageError::Ingestion)));
}

#[test]
fn header_fields_build_a_frame() {
    let img = RawImage::from_header_fields(vec![1, 2, 3, 4, 5, 6], Some(3), Some(2), None, Some(10), Some("gbrg")).unwrap();
    assert_eq!(img.raw_image.dim(), (2, 3));
    assert_eq!(img.raw_image.to_vec(), vec![10, 20, 30, 40, 50, 60]);
    assert_eq!(img.bayer_pattern, BayerPattern::GBRG);

    let img = RawImage::from_header_fields(vec![-1, 0], Some(2), Some(1), Some(100), None, Some("RGB")).unwrap();
    assert_eq!(img.raw_image.to_vec(), vec![99, 100]);
    assert_eq!(img.bayer_pattern, BayerPattern::NONE);

    let img = RawImage::from_header_fields(vec![7], Some(1), Some(1), None, None, None).unwrap();
    assert_eq!(img.raw_image.to_vec(), vec![7]);
    assert_eq!(img.bayer_pattern, BayerPattern::NONE);
}

#[test]
fn header_fields_reject_missing_or_mismatched_dimensions() {
    assert!(matches!(RawImage::from_header_fields(vec![1, 2], None, Some(2), None, None, None), Err(ImageError::Ingestion)));
    assert!(matches!(RawImage::from_header_fields(vec![1, 2], Some(1), None, None, None, None), Err(ImageError::Ingestion)));
    assert!(matches!(RawImage::from_header_fields(vec![1, 2, 3], Some(2), Some(2), None, None, None), Err(ImageError::Ingestion)));
}

#[test]
fn pattern_names_match_without_case() {
    assert_eq!(BayerPattern::from_name("RGGB"), BayerPattern::RGGB);
    assert_eq!(BayerPattern::from_name("rggb"), BayerPattern::RGGB);
    assert_eq!(BayerPattern::from_name("Bggr"), BayerPattern::BGGR);
    assert_eq!(BayerPattern::from_name("grBG"), BayerPattern::GRBG);
    assert_eq!(BayerPattern::from_name("GBRG"), BayerPattern::GBRG);
    assert_eq!(BayerPattern::from_name("GBRG "), BayerPattern::NONE);
    assert_eq!(BayerPattern::from_name(""), BayerPattern::NONE);
    assert_eq!(BayerPattern::from_name("RGGBX"), BayerPattern::NONE);
    assert!(BayerPattern::RGGB.is_mosaic());
    assert!(!BayerPattern::NONE.is_mosaic());
}

// ---- pipeline and packaging ----

fn synthetic_rggb() -> Vec<i16> {
    vec![
        100, 200, 110, 210, //
        202, 300, 212, 310, //
        120, 220, 130, 230, //
        222, 320, 232, 330,
    ]
}

#[test]
fn packaging_a_demosaiced_frame_has_three_samples_per_pixel() {
    let bytes = be_bytes(&synthetic_rggb());
    let mut img = RawImage::from_bytes_i16(bytes, 4, 4, BayerPattern::RGGB, 0, 1).unwrap();
    img.debayer().unwrap();
    assert_eq!(img.debayered_image.as_ref().unwrap().dim(), (2, 2, 3));
    let mut out = img.get_raw_image().unwrap();
    assert_eq!((out.width, out.height), (2, 2));
    assert_eq!(out.pixels.len(), 2 * 2 * 3);
    assert!(out.check_size().is_ok());
    out.pixels.pop();
    assert!(matches!(out.check_size(), Err(ImageError::Packaging)));
}

#[test]
fn end_to_end_rggb_frame() {
    let values = synthetic_rggb();
    let shifted: Vec<i16> = values.iter().map(|v| v - 32767 - 1).collect();
    let out = render_camera_frame(be_bytes(&shifted), 4, 4, BayerPattern::RGGB).unwrap();
    assert_eq!((out.width, out.height), (2, 2));
    assert_eq!(out.pixels, vec![100, 201, 300, 110, 211, 310, 120, 221, 320, 130, 231, 330]);
    assert_eq!(out.stats.len(), 3);
    assert_eq!(out.stats[0], stat(100, 130, 120, 460, 40, 4));
    assert_eq!(out.stats[1], stat(201, 231, 221, 864, 40, 4));
    assert_eq!(out.stats[2], stat(300, 330, 320, 1260, 40, 4));
}

#[test]
fn camera_frame_errors_by_stage() {
    assert!(matches!(render_camera_frame(vec![0; 3], 1, 1, BayerPattern::NONE), Err(ImageError::Ingestion)));
    assert!(matches!(render_camera_frame(vec![0; 2], 1, 1, BayerPattern::RGGB), Err(ImageError::Statistics)));
    assert!(matches!(render_camera_frame(vec![], 0, 0, BayerPattern::NONE), Err(ImageError::Statistics)));
}

#[test]
fn mono_frame_packs_clamped_gray_triples() {
    let img = RawImage::from_header_fields(vec![-1, 7000], Some(2), Some(1), None, Some(10), None).unwrap();
    let out = img.get_raw_image().unwrap();
    assert_eq!((out.width, out.height), (2, 1));
    assert_eq!(out.pixels, vec![0, 0, 0, 65535, 65535, 65535]);
    assert_eq!(out.stats, vec![stat(-10, 70000, 70000, 69990, 70010, 2)]);
}

#[test]
fn pattern_frame_not_yet_demosaiced_packs_as_gray() {
    let img = RawImage::from_header_fields(vec![1, 2, 3, 4], Some(2), Some(2), None, None, Some("RGGB")).unwrap();
    let out = img.get_raw_image().unwrap();
    assert_eq!(out.pixels.len(), 12);
    assert_eq!(out.stats.len(), 1);
}

#[test]
fn debayer_is_idempotent_and_skips_mono() {
    let mut img = RawImage::from_header_fields(vec![10, 20, 22, 30], Some(2), Some(2), None, None, Some("rggb")).unwrap();
    img.debayer().unwrap();
    let first = img.debayered_image.as_ref().unwrap().to_vec();
    img.debayer().unwrap();
    assert_eq!(img.debayered_image.as_ref().unwrap().to_vec(), first);
    assert_eq!(first, vec![10, 21, 30]);

    let mut mono = RawImage::from_header_fields(vec![1, 2, 3, 4], Some(2), Some(2), None, None, None).unwrap();
    assert!(mono.debayer().is_ok());
    assert!(mono.debayered_image.is_none());
}

#[test]
fn frame_downsample_records_box_and_repeats_nothing() {
    let mut img = RawImage::from_header_fields((1..=16).collect(), Some(4), Some(4), None, None, None).unwrap();
    img.downsample(2, 2).unwrap();
    assert!(img.downsampled);
    assert_eq!((img.downsampled_width, img.downsampled_height), (2, 2));
    assert_eq!(img.raw_image.to_vec(), vec![3, 5, 11, 13]);
    img.downsample(2, 2).unwrap();
    assert_eq!(img.raw_image.to_vec(), vec![3, 5, 11, 13]);
    assert!(matches!(img.downsample(0, 0), Err(ImageError::Downsample)));
    assert_eq!(img.raw_image.to_vec(), vec![3, 5, 11, 13]);
}

#[test]
fn frame_downsample_prefers_demosaiced_block() {
    let mut img = RawImage::from_bytes_i16(be_bytes(&synthetic_rggb()), 4, 4, BayerPattern::RGGB, 0, 1).unwrap();
    img.debayer().unwrap();
    img.downsample(1, 1).unwrap();
    let block = img.debayered_image.as_ref().unwrap();
    assert_eq!(block.dim(), (1, 1, 3));
    assert_eq!(block.to_vec(), vec![115, 216, 315]);
    assert_eq!(img.raw_image.dim(), (4, 4));
}

#[test]
fn grid_round_trip_and_shape_checks() {
    let g = Grid2::from_shape_vec(2, 3, vec![1, 2, 3, 4, 5, 6]).unwrap();
    assert_eq!(g.dim(), (2, 3));
    assert_eq!(g.to_vec(), vec![1, 2, 3, 4, 5, 6]);
    assert!(Grid2::from_shape_vec(2, 2, vec![1, 2, 3]).is_none());
    assert!(Grid3::from_shape_vec(1, 2, 3, vec![0; 5]).is_none());
    assert_eq!(ImageError::Packaging.stage(), "packaging");
}

#[test]
fn demosaic_large_frame_follows_block_rule() {
    let (h, w) = (61usize, 83usize);
    let v: Vec<i32> = (0..h * w).map(|i| ((i * 7919) % 4001) as i32 - 2000).collect();
    let out = debayer_image(&plane(h, w, v.clone()), BayerPattern::GRBG).unwrap();
    assert_eq!(out.dim(), (h / 2, w / 2, 3));
    let got = out.to_vec();
    for y in 0..h / 2 {
        for x in 0..w / 2 {
            let tl = v[2 * y * w + 2 * x] as i64;
            let tr = v[2 * y * w + 2 * x + 1] as i64;
            let bl = v[(2 * y + 1) * w + 2 * x] as i64;
            let br = v[(2 * y + 1) * w + 2 * x + 1] as i64;
            let k = (y * (w / 2) + x) * 3;
            assert_eq!(got[k] as i64, tr);
            assert_eq!(got[k + 1] as i64, (tl + br).div_euclid(2));
            assert_eq!(got[k + 2] as i64, bl);
        }
    }
}

#[test]
fn downsample_large_frame_follows_box_rule() {
    let (h, w) = (47usize, 90usize);
    let v: Vec<i32> = (0..h * w * 3).map(|i| ((i * 104729) % 65536) as i32 - 1000).collect();
    let block = Grid3::from_shape_vec(h, w, 3, v.clone()).unwrap();
    let out = downsample_rgb(&block, 32, 32).unwrap();
    let (th, tw, d) = out.dim();
    assert_eq!((tw, th, d), (32, 17, 3));
    let got = out.to_vec();
    for y in 0..th {
        let (y0, y1) = (y * h / th, ((y + 1) * h + th - 1) / th);
        for x in 0..tw {
            let (x0, x1) = (x * w / tw, ((x + 1) * w + tw - 1) / tw);
            for c in 0..3 {
                let mut sum: i64 = 0;
                for yy in y0..y1.min(h) {
                    for xx in x0..x1.min(w) {
                        sum += v[(yy * w + xx) * 3 + c] as i64;
                    }
                }
                let count = ((y1.min(h) - y0) * (x1.min(w) - x0)) as i64;
                assert_eq!(got[(y * tw + x) * 3 + c] as i64, sum.div_euclid(count));
            }
        }
    }
}
