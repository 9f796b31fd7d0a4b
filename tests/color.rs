use camera_pipeline::error::PipelineError;
use camera_pipeline::pipeline::convert_and_rotate;
use camera_pipeline::yuv::{convert_planar, decode_yuv420sp, pack_chroma, yuv_to_rgba, PlanarFrame};

fn uniform_frame(w: usize, h: usize, y: u8, u: u8, v: u8, pixel_stride: usize) -> PlanarFrame {
    let uv_row = (w / 2) * pixel_stride;
    let uv_len = (h / 2) * uv_row;
    PlanarFrame {
        width: w,
        height: h,
        y_plane: vec![y; w * h],
        y_row_stride: w,
        u_plane: vec![u; uv_len],
        v_plane: vec![v; uv_len],
        uv_row_stride: uv_row,
        uv_pixel_stride: pixel_stride,
    }
}

#[test]
fn pixel_conversion_exact_values() {
    assert_eq!(yuv_to_rgba(16, 128, 128), [0, 0, 0, 255]);
    assert_eq!(yuv_to_rgba(235, 128, 128), [254, 254, 254, 255]);
    assert_eq!(yuv_to_rgba(81, 90, 240), [254, 0, 0, 255]);
    assert_eq!(yuv_to_rgba(0, 0, 0), [0, 154, 0, 255]);
    assert_eq!(yuv_to_rgba(255, 255, 255), [255, 125, 255, 255]);
}

#[test]
fn semi_planar_mid_gray_two_by_two_is_near_white() {
    // luma plane, then one interleaved V,U pair for the 2x2 block
    let data = vec![235, 235, 235, 235, 128, 128];
    let out = decode_yuv420sp(&data, 2, 2);
    assert_eq!(out.len(), 16);
    for px in out.chunks(4) {
        for c in &px[..3] {
            assert!((*c as i32 - 255).abs() <= 2);
        }
        assert_eq!(px[3], 255);
    }
    assert_eq!(out, [254, 254, 254, 255].repeat(4));
}

#[test]
fn semi_planar_reads_v_before_u() {
    // V = 240, U = 90 gives red; swapped it would be blue-ish
    let data = vec![81, 81, 81, 81, 240, 90];
    let out = decode_yuv420sp(&data, 2, 2);
    assert_eq!(&out[0..4], &[254, 0, 0, 255]);
}

#[test]
fn semi_planar_chroma_is_shared_by_two_by_two_blocks() {
    // 4x2 frame: left block gray, right block red
    let data = vec![81, 81, 81, 81, 81, 81, 81, 81, 128, 128, 240, 90];
    let out = decode_yuv420sp(&data, 4, 2);
    let gray = yuv_to_rgba(81, 128, 128);
    let red = yuv_to_rgba(81, 90, 240);
    for row in 0..2 {
        for col in 0..4 {
            let px = &out[(row * 4 + col) * 4..(row * 4 + col) * 4 + 4];
            if col < 2 {
                assert_eq!(px, &gray);
            } else {
                assert_eq!(px, &red);
            }
        }
    }
}

#[test]
fn semi_planar_empty_frame() {
    assert_eq!(decode_yuv420sp(&[], 0, 0), Vec::<u8>::new());
}

#[test]
fn uniform_input_is_uniform_output_for_both_pixel_strides() {
    for stride in [1usize, 2] {
        for (y, u, v) in [(235u8, 128u8, 128u8), (81, 90, 240), (41, 240, 110), (16, 128, 128)] {
            let f = uniform_frame(8, 6, y, u, v, stride);
            let out = convert_planar(&f).unwrap();
            let expect = yuv_to_rgba(y, u, v);
            assert_eq!(out.len(), 8 * 6 * 4);
            for px in out.chunks(4) {
                assert_eq!(px, &expect);
            }
        }
    }
}

#[test]
fn interleaved_planes_read_at_pixel_stride_two() {
    // NV21 layout: one buffer V,U,V,U...; the U plane starts one byte later.
    let w = 4;
    let h = 2;
    let vu = vec![240u8, 90, 128, 128];
    let f = PlanarFrame {
        width: w,
        height: h,
        y_plane: vec![81; w * h],
        y_row_stride: w,
        u_plane: vu[1..].to_vec(),
        v_plane: vu.clone(),
        uv_row_stride: w,
        uv_pixel_stride: 2,
    };
    let out = convert_planar(&f).unwrap();
    let mut sp = vec![81u8; w * h];
    sp.extend_from_slice(&vu);
    assert_eq!(out, decode_yuv420sp(&sp, w as i32, h as i32));
}

#[test]
fn planar_respects_row_stride_padding() {
    let f = PlanarFrame {
        width: 2,
        height: 2,
        y_plane: vec![235, 235, 0, 0, 16, 16, 0],
        y_row_stride: 4,
        u_plane: vec![128],
        v_plane: vec![128],
        uv_row_stride: 8,
        uv_pixel_stride: 1,
    };
    let out = convert_planar(&f).unwrap();
    let white = yuv_to_rgba(235, 128, 128);
    let black = yuv_to_rgba(16, 128, 128);
    assert_eq!(&out[0..4], &white);
    assert_eq!(&out[4..8], &white);
    assert_eq!(&out[8..12], &black);
    assert_eq!(&out[12..16], &black);
}

#[test]
fn unsupported_pixel_stride_is_rejected() {
    let f = uniform_frame(4, 4, 100, 128, 128, 3);
    assert_eq!(convert_planar(&f), Err(PipelineError::UnsupportedPixelFormat));
}

#[test]
fn short_planes_are_rejected() {
    let mut f = uniform_frame(4, 4, 100, 128, 128, 2);
    f.y_plane.pop();
    assert_eq!(convert_planar(&f), Err(PipelineError::FrameAcquisitionFailed));
    let mut g = uniform_frame(4, 4, 100, 128, 128, 2);
    g.v_plane.truncate(2);
    assert_eq!(convert_planar(&g), Err(PipelineError::FrameAcquisitionFailed));
    let mut k = uniform_frame(4, 4, 100, 128, 128, 1);
    k.y_row_stride = 3;
    assert_eq!(convert_planar(&k), Err(PipelineError::FrameAcquisitionFailed));
}

#[test]
fn end_to_end_two_by_two_rotated_quarter_turn() {
    let ys = [235u8, 16, 81, 145];
    let f = PlanarFrame {
        width: 2,
        height: 2,
        y_plane: ys.to_vec(),
        y_row_stride: 2,
        u_plane: vec![128],
        v_plane: vec![128],
        uv_row_stride: 1,
        uv_pixel_stride: 1,
    };
    let px: Vec<[u8; 4]> = ys.iter().map(|y| yuv_to_rgba(*y, 128, 128)).collect();
    let upright = convert_and_rotate(&f, 0).unwrap();
    assert_eq!((upright.width, upright.height), (2, 2));
    assert_eq!(upright.pixels, [px[0], px[1], px[2], px[3]].concat());
    let turned = convert_and_rotate(&f, 1).unwrap();
    assert_eq!((turned.width, turned.height), (2, 2));
    // a clockwise quarter turn: the bottom-left pixel becomes the top-left one
    assert_eq!(turned.pixels, [px[2], px[0], px[3], px[1]].concat());
    assert_eq!(&turned.pixels[4..8], &[254, 254, 254, 255]);
}

#[test]
fn chroma_is_packed_as_u_then_v_at_each_stride() {
    // NV21 buffer for a 4x4 frame: two rows of V,U pairs, row stride 4
    let vu = vec![10u8, 20, 30, 40, 50, 60, 70, 80];
    let f = PlanarFrame {
        width: 4,
        height: 4,
        y_plane: vec![0; 16],
        y_row_stride: 4,
        u_plane: vu[1..].to_vec(),
        v_plane: vu.clone(),
        uv_row_stride: 4,
        uv_pixel_stride: 2,
    };
    assert_eq!(pack_chroma(&f), Ok(vec![20, 10, 40, 30, 60, 50, 80, 70]));
    let planar = PlanarFrame {
        width: 4,
        height: 4,
        y_plane: vec![0; 16],
        y_row_stride: 4,
        u_plane: vec![1, 2, 3, 4],
        v_plane: vec![5, 6, 7, 8],
        uv_row_stride: 2,
        uv_pixel_stride: 1,
    };
    assert_eq!(pack_chroma(&planar), Ok(vec![1, 5, 2, 6, 3, 7, 4, 8]));
    let mut bad = uniform_frame(4, 4, 0, 0, 0, 3);
    assert_eq!(pack_chroma(&bad), Err(PipelineError::UnsupportedPixelFormat));
    bad.uv_pixel_stride = 2;
    bad.u_plane.clear();
    assert_eq!(pack_chroma(&bad), Err(PipelineError::FrameAcquisitionFailed));
}

#[test]
fn uniform_semi_planar_frame_is_uniform() {
    let (w, h) = (6usize, 4usize);
    let mut data = vec![120u8; w * h];
    for _ in 0..(w * h / 4) {
        data.push(200); // V
        data.push(60); // U
    }
    let out = decode_yuv420sp(&data, w as i32, h as i32);
    let expect = yuv_to_rgba(120, 60, 200);
    assert_eq!(out.len(), w * h * 4);
    for px in out.chunks(4) {
        assert_eq!(px, &expect);
    }
}
