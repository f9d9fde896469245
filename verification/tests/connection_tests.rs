use rust_rdp::bitmap_codec::{apply_bitmap_update, decode_rect, new_planar_decoder, BitmapRect};
use rust_rdp::connection::{
    attempt_status, bitmap_decoding, rdp_attempts, socket_address, surface_decoding, vnc_error_status, AttemptKind,
    AttemptPlan, BitmapDecoding, PlanStep, VncScreen,
};
use rust_rdp::pixels::{InclusiveRect, PixelFormat, VncRect};
use rust_rdp::progressive::{decode_progressive_stream_to_screen, decode_tile, GfxSurface, QuantValues, TileData};

#[test]
fn attempts_with_and_without_domain() {
    assert_eq!(
        rdp_attempts("CORP"),
        vec![AttemptKind::NlaWithDomain, AttemptKind::NlaWithoutDomain, AttemptKind::TlsOnly]
    );
    assert_eq!(rdp_attempts(""), vec![AttemptKind::NlaWithoutDomain, AttemptKind::TlsOnly]);
    assert!(!AttemptKind::TlsOnly.enable_credssp());
    assert!(AttemptKind::NlaWithDomain.uses_domain());
}

#[test]
fn attempt_plan_reports_each_attempt_then_the_last_error() {
    let mut plan = AttemptPlan::new("");
    match plan.next_step() {
        PlanStep::Try { kind, status } => {
            assert_eq!(kind, AttemptKind::NlaWithoutDomain);
            assert_eq!(status, "Connecting... Attempt 1/2 (CredSSP (NLA) without domain)");
        },
        other => panic!("unexpected {:?}", other),
    }
    plan.attempt_failed("Handshake failed: x".to_string());
    match plan.next_step() {
        PlanStep::Try { kind, status } => {
            assert_eq!(kind, AttemptKind::TlsOnly);
            assert_eq!(status, "Connecting... Attempt 2/2 (TLS Security (no NLA))");
        },
        other => panic!("unexpected {:?}", other),
    }
    plan.attempt_failed("TLS Connection Failed: y".to_string());
    assert_eq!(plan.next_step(), PlanStep::GiveUp { message: "TLS Connection Failed: y".to_string() });
}

#[test]
fn status_strings() {
    assert_eq!(attempt_status(0, 3, AttemptKind::NlaWithDomain), "Connecting... Attempt 1/3 (CredSSP (NLA) with domain)");
    assert_eq!(socket_address("example.org", 5900), "example.org:5900");
    assert_eq!(socket_address("h", -1), "h:-1");
    assert_eq!(vnc_error_status("boom"), "VNC Error: boom");
}

#[test]
fn vnc_screen_resizes_draws_and_copies() {
    let mut s = VncScreen::new(2, 2);
    assert!(!s.take_frame_due());
    assert_eq!(s.set_resolution(3, 1), (3, 1));
    assert_eq!(s.pixel_data(), &[0, 0, 0]);
    let rect = VncRect { x: 0, y: 0, width: 1, height: 1 };
    s.raw_image(&rect, &[0x10, 0x20, 0x30, 0x40]);
    assert_eq!(s.pixel_data()[0], 0x4030_2010);
    s.copy_rect(&VncRect { x: 2, y: 0, width: 1, height: 1 }, &VncRect { x: 0, y: 0, width: 1, height: 1 });
    assert_eq!(s.pixel_data()[2], s.pixel_data()[0]);
    assert!(s.take_frame_due());
    assert!(!s.take_frame_due());
}

#[test]
fn bitmap_and_surface_decoding_choices() {
    assert_eq!(bitmap_decoding(true, 32), BitmapDecoding::Planar);
    assert_eq!(bitmap_decoding(true, 16), BitmapDecoding::InterleavedRle);
    assert_eq!(bitmap_decoding(false, 32), BitmapDecoding::Raw(PixelFormat::Rgb8));
    assert_eq!(bitmap_decoding(false, 24), BitmapDecoding::Raw(PixelFormat::Rgb24));
    assert_eq!(bitmap_decoding(false, 15), BitmapDecoding::Raw(PixelFormat::Rgb15));
    assert_eq!(surface_decoding(9, 24), BitmapDecoding::Planar);
    assert_eq!(surface_decoding(0, 32), BitmapDecoding::Planar);
    assert_eq!(surface_decoding(0, 16), BitmapDecoding::Raw(PixelFormat::Rgb16));
    assert_eq!(surface_decoding(3, 32), BitmapDecoding::Skip);
}

#[test]
fn interleaved_rle_rejects_bad_input_and_decodes_a_fill() {
    let mut dec = new_planar_decoder();
    assert_eq!(decode_rect(&mut dec, BitmapDecoding::InterleavedRle, &[0x00], 0, 1, 16), None);
    assert_eq!(decode_rect(&mut dec, BitmapDecoding::InterleavedRle, &[0x00], 1, 1, 32), None);
    // A regular background run of length 1 on the first row is black.
    let r = decode_rect(&mut dec, BitmapDecoding::InterleavedRle, &[0x01], 1, 1, 8);
    assert_eq!(r, Some((vec![0], PixelFormat::Rgb8)));
    let r = decode_rect(&mut dec, BitmapDecoding::InterleavedRle, &[0x02], 2, 1, 16);
    assert_eq!(r, Some((vec![0, 0, 0, 0], PixelFormat::Rgb16)));
    let raw = decode_rect(&mut dec, BitmapDecoding::Raw(PixelFormat::Rgb24), &[1, 2, 3], 1, 1, 24);
    assert_eq!(raw, Some((vec![1, 2, 3], PixelFormat::Rgb24)));
    assert_eq!(decode_rect(&mut dec, BitmapDecoding::Skip, &[1, 2, 3], 1, 1, 24), None);
}

#[test]
fn planar_codec_rejects_garbage() {
    let mut dec = new_planar_decoder();
    assert_eq!(decode_rect(&mut dec, BitmapDecoding::Planar, &[], 4, 4, 32), None);
}

#[test]
fn uncompressed_bitmap_update_is_drawn_bottom_up() {
    let mut screen = vec![0i32; 4];
    let mut dec = new_planar_decoder();
    let rect = BitmapRect {
        rectangle: InclusiveRect { left: 0, top: 0, right: 0, bottom: 1 },
        width: 1,
        height: 2,
        bits_per_pixel: 24,
        compressed: false,
        data: vec![1, 2, 3, 4, 5, 6],
    };
    apply_bitmap_update(&mut screen, 2, 2, &mut dec, &vec![rect]);
    assert_eq!(screen[2], (0xFF01_0203u32) as i32);
    assert_eq!(screen[0], (0xFF04_0506u32) as i32);
}

#[test]
fn progressive_stream_errors_and_empty_stream() {
    let mut screen = vec![0i32; 16];
    assert_eq!(decode_progressive_stream_to_screen(&[], &mut screen, 4, 4), Ok(()));
    let r = decode_progressive_stream_to_screen(&[0xC0, 0xCC, 0x02, 0, 0, 0], &mut screen, 4, 4);
    assert!(r.unwrap_err().starts_with("decode_progressive_stream error: "));
    assert_eq!(screen, vec![0i32; 16]);
}

#[test]
fn gfx_surface_reset_and_bitmap() {
    let mut g = GfxSurface::new(2, 1);
    assert_eq!(g.reset_graphics(2, 2), (2, 2));
    assert_eq!(g.pixel_data().len(), 4);
    g.bitmap_updated(&InclusiveRect { left: 1, top: 1, right: 1, bottom: 1 }, &[9, 8, 7, 6]);
    assert_eq!(g.pixel_data()[3], (0x0609_0807u32) as i32);
    assert_eq!(g.progressive_update(&[]), Ok(()));
}

fn tile(y: Vec<u8>, cb: Vec<u8>, cr: Vec<u8>) -> TileData {
    TileData { quant_idx_y: 0, quant_idx_cb: 0, quant_idx_cr: 0, x_idx: 0, y_idx: 0, y_data: y, cb_data: cb, cr_data: cr }
}

const QUANT_6: QuantValues =
    QuantValues { ll3: 6, lh3: 6, hl3: 6, hh3: 6, lh2: 6, hl2: 6, hh2: 6, lh1: 6, hl1: 6, hh1: 6 };

#[test]
fn zero_coefficients_decode_to_mid_grey() {
    // All-zero entropy data decodes to zero coefficients; Y = Cb = Cr = 0 is
    // (0 + 4096) * 65536 >> 21 = 128 on every channel, alpha 255.
    let rgba = decode_tile(&tile(vec![0], vec![0, 0], vec![0]), &vec![QUANT_6], 0).unwrap();
    assert_eq!(rgba.len(), 64 * 64 * 4);
    assert!(rgba.chunks(4).all(|p| p == [128, 128, 128, 255]));
}

#[test]
fn tile_errors_name_the_failing_step() {
    assert_eq!(
        decode_tile(&tile(vec![0], vec![0], vec![0]), &vec![], 0),
        Err("Quant index Y out of range".to_string())
    );
    assert_eq!(
        decode_tile(&tile(vec![], vec![0], vec![0]), &vec![QUANT_6], 0).map_err(|e| e.starts_with("RLGR Y decode failed: ")),
        Err(true)
    );
    assert_eq!(
        decode_tile(&tile(vec![0], vec![0; 0x80000], vec![0]), &vec![QUANT_6], 0),
        Err("RLGR Cb decode failed: tile data too long".to_string())
    );
}
