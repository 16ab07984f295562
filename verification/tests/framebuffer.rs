use libremarkable::framebuffer::{FbError, Framebuffer, FramebufferIO};
use libremarkable::geom::Rect;

#[test]
fn pixel_write_then_read() {
    let mut fb = Framebuffer::new(16, 8, 1);
    assert_eq!(fb.write_pixel(3, 5, 0xab), Ok(()));
    assert_eq!(fb.read_pixel(3, 5), Ok(0xab));
    assert_eq!(fb.read_pixel(3, 6), Ok(0));
}

#[test]
fn pixel_out_of_bounds_is_rejected() {
    let mut fb = Framebuffer::new(16, 8, 1);
    assert_eq!(fb.write_pixel(8, 0, 1), Err(FbError::OutOfBounds));
    assert_eq!(fb.write_pixel(0, 16, 1), Err(FbError::OutOfBounds));
    assert_eq!(fb.read_pixel(8, 0), Err(FbError::OutOfBounds));
    // the failed write changed nothing
    assert_eq!(fb.read_pixel(7, 15), Ok(0));
}

#[test]
fn multi_byte_pixels_fill_every_byte() {
    let mut fb = Framebuffer::new(4, 4, 2);
    assert_eq!(fb.write_pixel(1, 1, 0x5a), Ok(()));
    // pixel (1,1) starts at byte (1*4+1)*2 = 10
    assert_eq!(fb.read_offset(10), Ok(0x5a));
    assert_eq!(fb.read_offset(11), Ok(0x5a));
    assert_eq!(fb.read_offset(9), Ok(0));
}

#[test]
fn read_offset_bounds() {
    let mut fb = Framebuffer::new(4, 4, 1);
    assert_eq!(fb.read_offset(-1), Err(FbError::OutOfBounds));
    assert_eq!(fb.read_offset(16), Err(FbError::OutOfBounds));
    assert_eq!(fb.read_offset(15), Ok(0));
}

#[test]
fn write_frame_replaces_prefix() {
    let mut fb = Framebuffer::new(4, 2, 1);
    assert_eq!(fb.write_pixel(1, 3, 9), Ok(()));
    let frame = [1u8, 2, 3];
    assert_eq!(fb.write_frame(&frame), Ok(()));
    assert_eq!(fb.read_offset(0), Ok(1));
    assert_eq!(fb.read_offset(1), Ok(2));
    assert_eq!(fb.read_offset(2), Ok(3));
    assert_eq!(fb.read_offset(7), Ok(9));
    let too_long = [0u8; 9];
    assert_eq!(fb.write_frame(&too_long), Err(FbError::SizeMismatch));
}

#[test]
fn dump_and_restore_region_round_trip() {
    let mut fb = Framebuffer::new(8, 8, 1);
    for y in 0..8usize {
        for x in 0..8usize {
            fb.write_pixel(y, x, (y * 8 + x) as u8).unwrap();
        }
    }
    let rect = Rect { top: 2, left: 3, width: 4, height: 3 };
    let dumped = fb.dump_region(&rect).unwrap();
    assert_eq!(dumped.len(), 12);
    assert_eq!(dumped[0], 2 * 8 + 3);
    assert_eq!(dumped[4], 3 * 8 + 3);

    // scribble over the region, then restore it
    for y in 2..5usize {
        for x in 3..7usize {
            fb.write_pixel(y, x, 0xee).unwrap();
        }
    }
    assert_eq!(fb.restore_region(&rect, &dumped), Ok(()));
    for y in 0..8usize {
        for x in 0..8usize {
            assert_eq!(fb.read_pixel(y, x), Ok((y * 8 + x) as u8));
        }
    }
}

#[test]
fn restore_region_wrong_length_fails() {
    let mut fb = Framebuffer::new(8, 8, 1);
    let rect = Rect { top: 0, left: 0, width: 2, height: 2 };
    assert_eq!(fb.restore_region(&rect, &[1, 2, 3]), Err(FbError::SizeMismatch));
    assert_eq!(fb.restore_region(&rect, &[1, 2, 3, 4]), Ok(()));
}

#[test]
fn region_outside_panel_is_rejected() {
    let mut fb = Framebuffer::new(8, 8, 1);
    let rect = Rect { top: 6, left: 0, width: 2, height: 3 };
    assert_eq!(fb.dump_region(&rect), Err(FbError::OutOfBounds));
    assert_eq!(fb.restore_region(&rect, &[0; 6]), Err(FbError::OutOfBounds));
    assert_eq!(fb.dump_region(&Rect::sentinel()), Err(FbError::OutOfBounds));
}

#[test]
fn control_plane_toggles_are_recorded() {
    let mut fb = Framebuffer::new(2, 2, 1);
    fb.set_epdc_access(true);
    fb.set_autoupdate_mode(1);
    fb.set_update_scheme(2);
    assert!(fb.epdc_access);
    assert_eq!(fb.autoupdate_mode, 1);
    assert_eq!(fb.update_scheme, 2);
}
