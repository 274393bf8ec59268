use imgprep::background::Background;
use imgprep::buffer::Buffer;
use imgprep::crop::Crop;
use imgprep::crop::CropError;
use imgprep::crop::ObjectInfo;
use imgprep::image_tools;
use imgprep::is_image;
use imgprep::pixel::Rgba;

fn px(r: u8, g: u8, b: u8, a: u8) -> Rgba {
    Rgba { r, g, b, a }
}

fn white() -> Rgba {
    px(255, 255, 255, 255)
}

fn black() -> Rgba {
    px(0, 0, 0, 255)
}

fn solid(width: u32, height: u32, p: Rgba) -> Buffer<Rgba> {
    Buffer { width, height, data: vec![p; (width * height) as usize] }
}

fn set_px(buf: &mut Buffer<Rgba>, x: u32, y: u32, p: Rgba) {
    let idx = (y * buf.width + x) as usize;
    buf.data[idx] = p;
}

fn get_px(buf: &Buffer<Rgba>, x: u32, y: u32) -> Rgba {
    buf.data[(y * buf.width + x) as usize]
}

#[test]
fn all_background_image_keeps_centred_box() {
    let crop = Crop::new(0, Background::white());
    let image = solid(8, 6, white());
    let info = crop.object_info(&image);
    assert_eq!(info, ObjectInfo { min_x: 4, min_y: 3, max_x: 4, max_y: 3 });
}

#[test]
fn all_background_box_padding_is_unclamped() {
    let crop = Crop::new(5, Background::white());
    let image = solid(4, 4, white());
    let info = crop.object_info(&image);
    assert_eq!(info, ObjectInfo { min_x: -3, min_y: -3, max_x: 7, max_y: 7 });
}

#[test]
fn single_pixel_at_centre_gives_single_pixel_box() {
    // a 10x10 all-white image with one black pixel at (5, 5) keeps the
    // degenerate box (5, 5, 5, 5): the lone pixel sits exactly on the
    // starting extents, and extents never move without corroboration
    let crop = Crop::new(0, Background::white());
    let mut image = solid(10, 10, white());
    set_px(&mut image, 5, 5, black());
    let info = crop.object_info(&image);
    assert_eq!(info, ObjectInfo { min_x: 5, min_y: 5, max_x: 5, max_y: 5 });
}

#[test]
fn isolated_noise_pixel_does_not_extend_box() {
    let crop = Crop::new(0, Background::white());
    let mut image = solid(10, 10, white());
    set_px(&mut image, 2, 5, black());
    let info = crop.object_info(&image);
    assert_eq!(info, ObjectInfo { min_x: 5, min_y: 5, max_x: 5, max_y: 5 });
}

#[test]
fn vertical_run_extends_horizontal_extents_only() {
    let crop = Crop::new(0, Background::white());
    let mut image = solid(10, 10, white());
    set_px(&mut image, 2, 4, black());
    set_px(&mut image, 2, 5, black());
    set_px(&mut image, 2, 6, black());
    let info = crop.object_info(&image);
    // (2, 5) is vertically corroborated, so min_x moves to 2; no pixel of
    // the run is horizontally corroborated, so the vertical extents stay
    assert_eq!(info, ObjectInfo { min_x: 2, min_y: 5, max_x: 5, max_y: 5 });
}

#[test]
fn object_info_applies_padding() {
    let crop = Crop::new(2, Background::white());
    let mut image = solid(9, 9, white());
    for y in 3..6 {
        for x in 3..6 {
            set_px(&mut image, x, y, black());
        }
    }
    let info = crop.object_info(&image);
    // the 3x3 blob's corroborated core spans (3..=5) on both axes
    assert_eq!(info, ObjectInfo { min_x: 1, min_y: 1, max_x: 7, max_y: 7 });
}

#[test]
fn get_object_round_trip_inside_bounds() {
    let crop = Crop::new(0, Background::white());
    let mut image = solid(4, 4, white());
    for y in 0..4 {
        for x in 0..4 {
            set_px(&mut image, x, y, px((10 * x + y) as u8, 0, 0, 255));
        }
    }
    let info = ObjectInfo { min_x: 1, min_y: 1, max_x: 2, max_y: 2 };
    let out = crop.get_object(&image, &info).unwrap();
    assert_eq!(out.width, 2);
    assert_eq!(out.height, 2);
    for dy in 0..2 {
        for dx in 0..2 {
            assert_eq!(get_px(&out, dx, dy), get_px(&image, dx + 1, dy + 1));
        }
    }
}

#[test]
fn get_object_fills_outside_with_background() {
    let crop = Crop::new(0, Background::white());
    let image = solid(2, 2, black());
    let info = ObjectInfo { min_x: -1, min_y: -1, max_x: 1, max_y: 1 };
    let out = crop.get_object(&image, &info).unwrap();
    assert_eq!(out.width, 3);
    assert_eq!(out.height, 3);
    let bg = px(255, 255, 255, 0);
    for dy in 0..3u32 {
        for dx in 0..3u32 {
            let expected = if dx >= 1 && dy >= 1 { black() } else { bg };
            assert_eq!(get_px(&out, dx, dy), expected);
        }
    }
}

#[test]
fn get_object_reports_degenerate_box() {
    let crop = Crop::new(0, Background::white());
    let image = solid(2, 2, black());
    let info = ObjectInfo { min_x: 3, min_y: 0, max_x: 1, max_y: 1 };
    let r = crop.get_object(&image, &info);
    assert!(matches!(r, Err(CropError::DegenerateGeometry)));
}

#[test]
fn crop_to_object_extracts_blob_with_padding() {
    let crop = Crop::new(1, Background::white());
    let mut image = solid(9, 9, white());
    for y in 3..6 {
        for x in 3..6 {
            set_px(&mut image, x, y, black());
        }
    }
    let out = crop.crop_to_object(&image);
    // box (2, 2, 6, 6): a 5x5 cut with a one-pixel white margin
    assert_eq!(out.width, 5);
    assert_eq!(out.height, 5);
    for dy in 0..5u32 {
        for dx in 0..5u32 {
            let expected = if (1..4).contains(&dx) && (1..4).contains(&dy) {
                black()
            } else {
                white()
            };
            assert_eq!(get_px(&out, dx, dy), expected);
        }
    }
}

#[test]
fn fill_to_square_even_difference_splits_evenly() {
    // 4x6 becomes 6x6 with a one-pixel border on each horizontal side
    let crop = Crop::new(0, Background::white());
    let image = solid(4, 6, black());
    let out = crop.fill_to_square(&image);
    assert_eq!(out.width, 6);
    assert_eq!(out.height, 6);
    let bg = px(255, 255, 255, 0);
    for y in 0..6u32 {
        for x in 0..6u32 {
            let expected = if (1..5).contains(&x) { black() } else { bg };
            assert_eq!(get_px(&out, x, y), expected);
        }
    }
}

#[test]
fn fill_to_square_odd_difference_leads_left() {
    // 3x6 becomes 6x6: ceil((6 - 3) / 2) = 2 pixels on the left, 1 on the
    // right
    let crop = Crop::new(0, Background::white());
    let image = solid(3, 6, black());
    let out = crop.fill_to_square(&image);
    assert_eq!(out.width, 6);
    assert_eq!(out.height, 6);
    let bg = px(255, 255, 255, 0);
    for y in 0..6u32 {
        for x in 0..6u32 {
            let expected = if (2..5).contains(&x) { black() } else { bg };
            assert_eq!(get_px(&out, x, y), expected);
        }
    }
}

#[test]
fn fill_to_square_on_square_is_copy() {
    let crop = Crop::new(0, Background::white());
    let mut image = solid(3, 3, white());
    set_px(&mut image, 1, 2, px(9, 8, 7, 6));
    let out = crop.fill_to_square(&image);
    assert_eq!(out, image);
}

#[test]
fn fill_to_square_is_idempotent_on_a_sample() {
    let crop = Crop::new(0, Background::white());
    let mut image = solid(4, 7, white());
    set_px(&mut image, 2, 3, black());
    let once = crop.fill_to_square(&image);
    let twice = crop.fill_to_square(&once);
    assert_eq!(twice, once);
}

#[test]
fn object_info_gray_reads_nonzero_mask_cells() {
    let crop = Crop::new(0, Background::white());
    let mut gray: Buffer<u8> = Buffer { width: 6, height: 6, data: vec![0; 36] };
    gray.data[1 * 6 + 1] = 255;
    gray.data[4 * 6 + 4] = 255;
    let info = crop.object_info_gray(&gray);
    assert_eq!(info, ObjectInfo { min_x: 1, min_y: 1, max_x: 4, max_y: 4 });
}

#[test]
fn object_info_gray_all_zero_keeps_centred_box() {
    let crop = Crop::new(3, Background::white());
    let gray: Buffer<u8> = Buffer { width: 7, height: 5, data: vec![0; 35] };
    let info = crop.object_info_gray(&gray);
    assert_eq!(info, ObjectInfo { min_x: 0, min_y: -1, max_x: 6, max_y: 5 });
}

#[test]
fn crop_to_edges_trims_each_row_to_its_marked_span() {
    let crop = Crop::new(0, Background::white());
    let mut image = solid(6, 6, white());
    for y in 0..6 {
        for x in 0..6 {
            set_px(&mut image, x, y, px((10 * x + y) as u8, 0, 0, 255));
        }
    }
    let mut mask: Buffer<u8> = Buffer { width: 6, height: 6, data: vec![0; 36] };
    mask.data[1 * 6 + 1] = 255;
    mask.data[4 * 6 + 4] = 255;
    let out = crop.crop_to_edges(&image, &mask);
    assert_eq!(out.width, 4);
    assert_eq!(out.height, 4);
    let bg = px(255, 255, 255, 0);
    let src = |sx: u32, sy: u32| px((10 * sx + sy) as u8, 0, 0, 255);
    // row 0: cells within radius 2 of the edge at (1, 1) reach source
    // column 3; source column 4 lies outside both radii
    assert_eq!(get_px(&out, 0, 0), src(1, 1));
    assert_eq!(get_px(&out, 1, 0), src(2, 1));
    assert_eq!(get_px(&out, 2, 0), src(3, 1));
    assert_eq!(get_px(&out, 3, 0), bg);
    // rows 1 and 2: the two edges' radii together cover the whole row
    for dy in 1..3u32 {
        let sy = dy + 1;
        for dx in 0..4u32 {
            assert_eq!(get_px(&out, dx, dy), src(dx + 1, sy));
        }
    }
    // row 3: only cells within radius 2 of the edge at (4, 4) are marked
    assert_eq!(get_px(&out, 0, 3), bg);
    assert_eq!(get_px(&out, 1, 3), src(2, 4));
    assert_eq!(get_px(&out, 2, 3), src(3, 4));
    assert_eq!(get_px(&out, 3, 3), src(4, 4));
}

#[test]
fn crop_to_edges_fills_rows_and_columns_outside_the_image() {
    let crop = Crop::new(1, Background::white());
    let mut image = solid(4, 4, white());
    for y in 0..4 {
        for x in 0..4 {
            set_px(&mut image, x, y, px((10 * x + y) as u8, 0, 0, 255));
        }
    }
    let mut mask: Buffer<u8> = Buffer { width: 4, height: 4, data: vec![0; 16] };
    mask.data[0] = 255;
    let out = crop.crop_to_edges(&image, &mask);
    // the padded box (-1, -1, 3, 3) leaves the mask on two sides
    assert_eq!(out.width, 5);
    assert_eq!(out.height, 5);
    let bg = px(255, 255, 255, 0);
    let src = |sx: u32, sy: u32| px((10 * sx + sy) as u8, 0, 0, 255);
    // the leading row and column map outside the image
    for d in 0..5u32 {
        assert_eq!(get_px(&out, d, 0), bg);
        assert_eq!(get_px(&out, 0, d), bg);
    }
    // the edge's radius-2 neighbourhood covers source rows and columns 0..=2
    for dy in 1..4u32 {
        let sy = dy - 1;
        for dx in 1..4u32 {
            assert_eq!(get_px(&out, dx, dy), src(dx - 1, sy));
        }
        assert_eq!(get_px(&out, 4, dy), bg);
    }
    // further rows see no edge within reach
    for dx in 0..5u32 {
        assert_eq!(get_px(&out, dx, 4), bg);
    }
}

#[test]
fn crop_to_object_all_background_yields_centre_pixel() {
    let crop = Crop::new(0, Background::white());
    let image = solid(10, 10, white());
    let out = crop.crop_to_object(&image);
    assert_eq!(out.width, 1);
    assert_eq!(out.height, 1);
    assert_eq!(get_px(&out, 0, 0), white());
}

#[test]
fn crop_white_copies_the_corroborated_core() {
    let mut image = solid(5, 5, white());
    for y in 1..4 {
        for x in 1..4 {
            set_px(&mut image, x, y, px(0, 0, 0, 128));
        }
    }
    let out = image_tools::crop_white(&image, 0);
    // the corroborated core of the blob spans (1..=3) on both axes,
    // inclusively: a 3x3 cut, copied as it is
    assert_eq!(out.width, 3);
    assert_eq!(out.height, 3);
    for p in &out.data {
        assert_eq!(*p, px(0, 0, 0, 128));
    }
}

#[test]
fn crop_white_all_background_yields_centre_pixel() {
    let image = solid(5, 5, white());
    let out = image_tools::crop_white(&image, 0);
    assert_eq!(out.width, 1);
    assert_eq!(out.height, 1);
    assert_eq!(get_px(&out, 0, 0), white());
}

#[test]
fn crop_white_fills_outside_the_image_with_white() {
    let image = solid(3, 3, black());
    let out = image_tools::crop_white(&image, 1);
    // the whole image is corroborated foreground; padding 1 pushes the box
    // one pixel outside on every side
    assert_eq!(out.width, 5);
    assert_eq!(out.height, 5);
    let fill = px(255, 255, 255, 0);
    for dy in 0..5u32 {
        for dx in 0..5u32 {
            let expected = if (1..4).contains(&dx) && (1..4).contains(&dy) {
                black()
            } else {
                fill
            };
            assert_eq!(get_px(&out, dx, dy), expected);
        }
    }
}

#[test]
fn image_tools_fill_to_square_composites_interior() {
    let image = solid(2, 1, px(0, 0, 0, 128));
    let out = image_tools::fill_to_square(&image);
    assert_eq!(out.width, 2);
    assert_eq!(out.height, 2);
    let border = px(255, 255, 255, 0);
    // the single-pixel vertical difference puts the border on top
    assert_eq!(get_px(&out, 0, 0), border);
    assert_eq!(get_px(&out, 1, 0), border);
    assert_eq!(get_px(&out, 0, 1), px(127, 127, 127, 128));
    assert_eq!(get_px(&out, 1, 1), px(127, 127, 127, 128));
}

#[test]
fn image_tools_fill_to_square_square_input_is_plain_copy() {
    let image = solid(2, 2, px(10, 20, 30, 40));
    let out = image_tools::fill_to_square(&image);
    assert_eq!(out, image);
}

#[test]
fn is_image_accepts_known_extensions() {
    assert!(is_image("photo.jpg"));
    assert!(is_image("photo.jpeg"));
    assert!(is_image("dir/photo.png"));
    assert!(is_image("photo.webp"));
    assert!(is_image("photo.tif"));
    assert!(is_image("photo.avif"));
}

#[test]
fn is_image_rejects_other_paths() {
    assert!(!is_image("photo.txt"));
    assert!(!is_image("jpg"));
    assert!(!is_image(""));
    assert!(!is_image("photo.jpg.part"));
}
