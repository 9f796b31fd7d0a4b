use camera_pipeline::decoder::YuvGpuDecoder;
use camera_pipeline::error::PipelineError;
use camera_pipeline::packed::bgra_to_rgba;
use camera_pipeline::readback::{pad_rows, strip_padding};
use camera_pipeline::rotate::{quarter_turns, rotate_rgba, rotated_size};

fn pattern(w: usize, h: usize) -> Vec<u8> {
    (0..w * h * 4).map(|i| (i * 7 % 251) as u8).collect()
}

#[test]
fn padded_row_values() {
    assert_eq!(YuvGpuDecoder::padded_bytes_per_row(0), 0);
    assert_eq!(YuvGpuDecoder::padded_bytes_per_row(1), 256);
    assert_eq!(YuvGpuDecoder::padded_bytes_per_row(64), 256);
    assert_eq!(YuvGpuDecoder::padded_bytes_per_row(65), 512);
    assert_eq!(YuvGpuDecoder::padded_bytes_per_row(720), 3072);
    assert_eq!(YuvGpuDecoder::padded_bytes_per_row(1280), 5120);
}

#[test]
fn padded_row_is_aligned_and_large_enough() {
    for w in 1u32..3000 {
        let p = YuvGpuDecoder::padded_bytes_per_row(w);
        assert!(p >= w as usize * 4);
        assert_eq!(p % 256, 0);
        assert!(p < w as usize * 4 + 256);
    }
}

#[test]
fn pad_then_strip_gives_back_the_bytes() {
    for (w, h) in [(1usize, 1usize), (3, 5), (64, 2), (65, 3), (100, 1)] {
        let packed = pattern(w, h);
        let stride = YuvGpuDecoder::padded_bytes_per_row(w as u32);
        let padded = pad_rows(&packed, w * 4, stride, h);
        assert_eq!(padded.len(), stride * h);
        assert!(padded[w * 4..stride].iter().all(|b| *b == 0));
        assert_eq!(strip_padding(&padded, w * 4, stride, h), packed);
    }
}

#[test]
fn strip_takes_the_start_of_each_row() {
    let padded = vec![1, 2, 9, 9, 3, 4, 9, 9];
    assert_eq!(strip_padding(&padded, 2, 4, 2), vec![1, 2, 3, 4]);
}

#[test]
fn rotation_by_zero_is_identity() {
    let img = pattern(3, 2);
    assert_eq!(rotate_rgba(&img, 3, 2, 0), img);
    assert_eq!(rotated_size(3, 2, 0), (3, 2));
}

#[test]
fn quarter_turn_moves_pixels_clockwise() {
    // 3x2 image, pixel value = index
    let img: Vec<u8> = (0u8..6).flat_map(|p| [p, p, p, 255]).collect();
    let out = rotate_rgba(&img, 3, 2, 1);
    let order: Vec<u8> = out.chunks(4).map(|c| c[0]).collect();
    // rows of the 2x3 result: [3 0], [4 1], [5 2]
    assert_eq!(order, vec![3, 0, 4, 1, 5, 2]);
    let half: Vec<u8> = rotate_rgba(&img, 3, 2, 2).chunks(4).map(|c| c[0]).collect();
    assert_eq!(half, vec![5, 4, 3, 2, 1, 0]);
    let three: Vec<u8> = rotate_rgba(&img, 3, 2, 3).chunks(4).map(|c| c[0]).collect();
    assert_eq!(three, vec![2, 5, 1, 4, 0, 3]);
    assert_eq!(rotated_size(3, 2, 1), (2, 3));
    assert_eq!(rotated_size(3, 2, 3), (2, 3));
    assert_eq!(rotated_size(3, 2, 2), (3, 2));
}

#[test]
fn opposite_turns_restore_the_image() {
    let img = pattern(5, 3);
    for (a, b) in [(1u32, 3u32), (3, 1), (2, 2)] {
        let (w1, h1) = rotated_size(5, 3, a);
        let once = rotate_rgba(&img, 5, 3, a);
        let back = rotate_rgba(&once, w1 as usize, h1 as usize, b);
        assert_eq!(rotated_size(w1, h1, b), (5, 3));
        assert_eq!(back, img);
    }
}

#[test]
fn four_quarter_turns_are_identity() {
    let img = pattern(4, 7);
    let (mut w, mut h) = (4usize, 7usize);
    let mut cur = img.clone();
    for _ in 0..4 {
        cur = rotate_rgba(&cur, w, h, 1);
        std::mem::swap(&mut w, &mut h);
    }
    assert_eq!((w, h), (4, 7));
    assert_eq!(cur, img);
}

#[test]
fn sensor_orientations() {
    assert_eq!(quarter_turns(0), Some(0));
    assert_eq!(quarter_turns(90), Some(1));
    assert_eq!(quarter_turns(180), Some(2));
    assert_eq!(quarter_turns(270), Some(3));
    assert_eq!(quarter_turns(45), None);
    assert_eq!(quarter_turns(360), None);
    assert_eq!(quarter_turns(-90), None);
}

#[test]
fn decoder_rejects_bad_sizes() {
    assert!(matches!(YuvGpuDecoder::new(0, 720), Err(PipelineError::GpuInitializationFailed)));
    assert!(matches!(YuvGpuDecoder::new(1280, 0), Err(PipelineError::GpuInitializationFailed)));
    assert!(matches!(YuvGpuDecoder::new(8193, 16), Err(PipelineError::GpuInitializationFailed)));
    assert!(YuvGpuDecoder::new(8192, 8192).is_ok());
}

#[test]
fn decoder_sizes_and_dispatch() {
    let d = YuvGpuDecoder::new(1280, 720).unwrap();
    assert_eq!((d.width(), d.height()), (1280, 720));
    assert_eq!(d.chroma_size(), (640, 360));
    assert_eq!(d.convert_workgroups(), (160, 90));
    assert_eq!(d.rotate_workgroups(), (80, 45));
    assert_eq!(d.output_size(), (1280, 720));
    assert_eq!(d.staging_layout(), (5120, 5120 * 720));
    let e = YuvGpuDecoder::new(10, 9).unwrap();
    assert_eq!(e.convert_workgroups(), (2, 2));
    assert_eq!(e.rotate_workgroups(), (1, 1));
}

#[test]
fn rotation_resources_are_built_once_per_angle() {
    let mut d = YuvGpuDecoder::new(1280, 720).unwrap();
    assert!(!d.prepare_rotation(0));
    assert_eq!(d.output_size(), (1280, 720));
    assert!(d.prepare_rotation(1));
    assert_eq!(d.output_size(), (720, 1280));
    assert!(!d.prepare_rotation(1));
    assert!(!d.prepare_rotation(1));
    assert!(d.prepare_rotation(2));
    assert_eq!(d.output_size(), (1280, 720));
    assert!(d.prepare_rotation(3));
    assert_eq!(d.output_size(), (720, 1280));
    assert_eq!(d.staging_layout(), (3072, 3072 * 1280));
    assert_eq!(d.rotation_degrees(), 270);
}

#[test]
fn rotation_parameter_holds_the_angle() {
    let mut d = YuvGpuDecoder::new(64, 32).unwrap();
    assert_eq!(d.rotation_uniform(), 0i32.to_le_bytes().to_vec());
    d.prepare_rotation(1);
    assert_eq!(d.rotation_uniform(), 90i32.to_le_bytes().to_vec());
    d.prepare_rotation(2);
    assert_eq!(d.rotation_uniform(), 180i32.to_le_bytes().to_vec());
}

#[test]
fn readback_strips_padding_of_the_output() {
    let mut d = YuvGpuDecoder::new(3, 2).unwrap();
    let packed = pattern(3, 2);
    let padded = pad_rows(&packed, 12, 256, 2);
    assert_eq!(d.readback(&padded), Ok(packed));
    assert_eq!(d.readback(&vec![0u8; 511]), Err(PipelineError::GpuSubmissionFailed));
    d.prepare_rotation(1);
    let turned = pattern(2, 3);
    let padded = pad_rows(&turned, 8, 256, 3);
    assert_eq!(d.readback(&padded), Ok(turned));
    assert_eq!(d.readback(&padded[..600].to_vec()), Err(PipelineError::GpuSubmissionFailed));
}

#[test]
fn bgra_becomes_rgba() {
    assert_eq!(bgra_to_rgba(&vec![1, 2, 3, 4, 5, 6, 7, 8]), vec![3, 2, 1, 4, 7, 6, 5, 8]);
    assert_eq!(bgra_to_rgba(&vec![]), Vec::<u8>::new());
}
