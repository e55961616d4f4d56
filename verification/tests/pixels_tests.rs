use screenrec::pixels::{rgb_to_yuv, rgb_to_yuv420p, scale_and_pad_frame, write_plane, yuv_to_rgb};

#[test]
fn gray_survives_the_round_trip() {
    for gray in 0..=255u8 {
        let (y, u, v) = rgb_to_yuv(gray, gray, gray);
        assert_eq!((y, u, v), (gray, 128, 128));
        let (r, g, b) = yuv_to_rgb(y, u, v);
        for channel in [r, g, b] {
            assert!((channel as i32 - gray as i32).abs() <= 2);
        }
        assert_eq!((r, g, b), (gray, gray, gray));
    }
}

#[test]
fn primary_colours_encode_as_specified() {
    assert_eq!(rgb_to_yuv(255, 0, 0), (76, 85, 255));
    assert_eq!(rgb_to_yuv(0, 255, 0), (149, 43, 21));
    assert_eq!(rgb_to_yuv(0, 0, 255), (28, 255, 107));
    assert_eq!(rgb_to_yuv(255, 255, 255), (255, 128, 128));
    assert_eq!(rgb_to_yuv(0, 0, 0), (0, 128, 128));
    assert_eq!(rgb_to_yuv(1, 0, 0), (0, 127, 128));
}

#[test]
fn decoding_inverts_the_matrix() {
    assert_eq!(yuv_to_rgb(76, 85, 255), (254, 0, 0));
    assert_eq!(yuv_to_rgb(0, 128, 128), (0, 0, 0));
    assert_eq!(yuv_to_rgb(255, 255, 255), (255, 121, 255));
    assert_eq!(yuv_to_rgb(0, 0, 0), (0, 136, 0));
}

#[test]
fn planes_have_luma_per_pixel_and_chroma_per_block() {
    let rgb = [
        255, 0, 0, 0, 255, 0, 0, 0, 255, //
        10, 10, 10, 20, 20, 20, 30, 30, 30, //
        0, 0, 255, 1, 1, 1, 255, 255, 255,
    ];
    let planes = rgb_to_yuv420p(&rgb, 3, 3);
    assert_eq!(planes.y, vec![76, 149, 28, 10, 20, 30, 28, 1, 255]);
    assert_eq!(planes.u, vec![85, 255, 255, 128]);
    assert_eq!(planes.v, vec![255, 107, 107, 128]);
    let even = rgb_to_yuv420p(&rgb[..12], 2, 2);
    assert_eq!(even.y, vec![76, 149, 28, 10]);
    assert_eq!(even.u, vec![85]);
    assert_eq!(even.v, vec![255]);
    let none = rgb_to_yuv420p(&[], 0, 0);
    assert!(none.y.is_empty() && none.u.is_empty() && none.v.is_empty());
}

fn grid(width: usize, height: usize) -> Vec<u8> {
    let mut data = Vec::new();
    for y in 0..height {
        for x in 0..width {
            let v = (10 * (y + 1) + x + 1) as u8;
            data.extend_from_slice(&[v, v, v]);
        }
    }
    data
}

fn luma_rows(data: &[u8], width: usize) -> Vec<Vec<u8>> {
    data.chunks(width * 3).map(|row| row.chunks(3).map(|p| p[0]).collect()).collect()
}

#[test]
fn scaling_doubles_by_nearest_neighbour() {
    let out = scale_and_pad_frame(&grid(2, 2), 2, 2, 4, 4);
    assert_eq!(
        luma_rows(&out, 4),
        vec![vec![11, 11, 12, 12], vec![11, 11, 12, 12], vec![21, 21, 22, 22], vec![21, 21, 22, 22]]
    );
}

#[test]
fn scaling_pads_with_black_and_centres() {
    let out = scale_and_pad_frame(&grid(2, 1), 2, 1, 4, 4);
    assert_eq!(
        luma_rows(&out, 4),
        vec![vec![0, 0, 0, 0], vec![11, 11, 12, 12], vec![11, 11, 12, 12], vec![0, 0, 0, 0]]
    );
    let tall = scale_and_pad_frame(&grid(1, 2), 1, 2, 5, 4);
    assert_eq!(
        luma_rows(&tall, 5),
        vec![
            vec![0, 11, 11, 0, 0],
            vec![0, 11, 11, 0, 0],
            vec![0, 21, 21, 0, 0],
            vec![0, 21, 21, 0, 0]
        ]
    );
}

#[test]
fn scaling_down_keeps_every_other_pixel() {
    let out = scale_and_pad_frame(&grid(4, 4), 4, 4, 2, 2);
    assert_eq!(luma_rows(&out, 2), vec![vec![11, 13], vec![31, 33]]);
}

#[test]
fn scaling_an_empty_or_short_source_gives_black() {
    assert_eq!(scale_and_pad_frame(&[], 0, 0, 2, 1), vec![0; 6]);
    assert_eq!(scale_and_pad_frame(&[1, 2, 3], 0, 5, 1, 1), vec![0; 3]);
    assert_eq!(scale_and_pad_frame(&[9, 9, 9], 1, 1, 0, 7), Vec::<u8>::new());
    let short = scale_and_pad_frame(&[5, 5, 5, 6, 6], 2, 1, 2, 1);
    assert_eq!(short, vec![5, 5, 5, 0, 0, 0]);
}

#[test]
fn heterogeneous_sources_fit_the_largest_frame() {
    let source = vec![200u8; 1920 * 1080 * 3];
    let out = scale_and_pad_frame(&source, 1920, 1080, 2560, 1440);
    assert_eq!(out.len(), 2560 * 1440 * 3);
    assert!(out.iter().all(|b| *b == 200));
    let wide = scale_and_pad_frame(&source, 1920, 1080, 1920, 1200);
    assert_eq!(wide.len(), 1920 * 1200 * 3);
    assert!(wide[..60 * 1920 * 3].iter().all(|b| *b == 0));
    assert!(wide[60 * 1920 * 3..1140 * 1920 * 3].iter().all(|b| *b == 200));
    assert!(wide[1140 * 1920 * 3..].iter().all(|b| *b == 0));
}

#[test]
fn planes_are_written_with_their_stride() {
    let mut target = vec![9u8; 14];
    write_plane(&mut target, 5, &[1, 2, 3, 4, 5, 6], 3, 2);
    assert_eq!(target, vec![1, 2, 3, 9, 9, 4, 5, 6, 9, 9, 9, 9, 9, 9]);
    let mut tight = vec![0u8; 4];
    write_plane(&mut tight, 2, &[7, 8, 9, 10, 11], 2, 2);
    assert_eq!(tight, vec![7, 8, 9, 10]);
    let mut short = vec![0u8; 5];
    write_plane(&mut short, 3, &[1, 2, 3, 4], 2, 2);
    assert_eq!(short, vec![1, 2, 0, 3, 4]);
    let mut untouched = vec![5u8; 3];
    write_plane(&mut untouched, 4, &[], 0, 1);
    write_plane(&mut untouched, 4, &[1, 2], 2, 0);
    assert_eq!(untouched, vec![5, 5, 5]);
}
