use prism::capture::staging::pack_nv12_staging;
use prism::capture::{bgra_to_nv12, nv12_to_bgra, nv12_to_rgb};

fn three_by_three_bgra() -> Vec<u8> {
    // Rows are 16 bytes apart: 12 bytes of pixels and 4 bytes of padding.
    vec![
        0, 0, 255, 255, 0, 255, 0, 255, 255, 0, 0, 255, 0, 0, 0, 0, //
        255, 255, 255, 255, 0, 0, 0, 255, 32, 64, 128, 255, 0, 0, 0, 0, //
        90, 200, 10, 255, 125, 5, 250, 255, 77, 77, 77, 255, 0, 0, 0, 0,
    ]
}

#[test]
fn bgra_to_nv12_uses_bt601_studio_range() {
    let white = bgra_to_nv12(&[255, 255, 255, 255].repeat(4), 2, 2, 8);
    assert_eq!(white, vec![235, 235, 235, 235, 128, 128]);
    let black = bgra_to_nv12(&[0, 0, 0, 255].repeat(4), 2, 2, 8);
    assert_eq!(black, vec![16, 16, 16, 16, 128, 128]);
    let red = bgra_to_nv12(&[0, 0, 255, 255].repeat(4), 2, 2, 8);
    assert_eq!(red, vec![82, 82, 82, 82, 90, 240]);
}

#[test]
fn bgra_to_nv12_handles_odd_sizes_and_row_padding() {
    let nv12 = bgra_to_nv12(&three_by_three_bgra(), 3, 3, 16);
    assert_eq!(
        nv12,
        vec![82, 144, 41, 235, 16, 84, 128, 95, 82, 90, 240, 240, 110, 108, 53, 128, 128]
    );
}

#[test]
fn nv12_decodes_to_rgb_and_bgra() {
    let nv12 = vec![82, 144, 41, 235, 16, 84, 128, 95, 82, 90, 240, 240, 110, 108, 53, 128, 128];
    assert_eq!(
        nv12_to_rgb(&nv12, 3, 3),
        vec![
            255, 1, 0, 255, 73, 72, 0, 0, 255, 255, 179, 178, 179, 0, 0, 50, 50, 255, 11, 199, 90, 0,
            161, 52, 77, 77, 77
        ]
    );
    assert_eq!(
        nv12_to_bgra(&nv12, 3, 3),
        vec![
            0, 1, 255, 255, 72, 73, 255, 255, 255, 0, 0, 255, 178, 179, 255, 255, 0, 0, 179, 255, 255,
            50, 50, 255, 90, 199, 11, 255, 52, 161, 0, 255, 77, 77, 77, 255
        ]
    );
}

#[test]
fn nv12_decode_clamps_out_of_range_channels() {
    assert_eq!(
        nv12_to_rgb(&[235, 16, 0, 255, 128, 128], 2, 2),
        vec![255, 255, 255, 0, 0, 0, 0, 0, 0, 255, 255, 255]
    );
}

#[test]
fn empty_frames_convert_to_empty_buffers() {
    assert_eq!(bgra_to_nv12(&[], 0, 0, 0), Vec::<u8>::new());
    assert_eq!(nv12_to_rgb(&[], 0, 0), Vec::<u8>::new());
    assert_eq!(nv12_to_bgra(&[], 0, 4), Vec::<u8>::new());
}

#[test]
fn staging_rows_are_copied_without_their_padding() {
    // 2x2 frame, rows padded to 4 bytes: Y rows then one UV row.
    let src = vec![1, 2, 0, 0, 3, 4, 0, 0, 5, 6, 0, 0];
    assert_eq!(pack_nv12_staging(&src, 4, 2, 2), vec![1, 2, 3, 4, 5, 6]);
    // Unpadded memory is taken as already packed.
    let packed = vec![9, 8, 7, 6, 5, 4];
    assert_eq!(pack_nv12_staging(&packed, 2, 2, 2), packed);
    // An odd width leaves a zero at the end of each UV row.
    let odd = vec![1, 2, 3, 0, 4, 5, 6, 0, 7, 8, 9, 0];
    assert_eq!(pack_nv12_staging(&odd, 4, 3, 2), vec![1, 2, 3, 4, 5, 6, 7, 8, 9, 0]);
    assert!(pack_nv12_staging(&[], 4, 3, 0).is_empty());
}
