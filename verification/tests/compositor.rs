use termrender::compositor::Compositor;

/// A fully transparent frame for a `w` by `h` cell terminal.
fn transparent_frame(w: u16, h: u16) -> Vec<u8> {
    vec![0u8; (w as usize) * (h as usize) * 4]
}

fn set_pixel(frame: &mut [u8], w: u16, x: u16, y: u16, rgba: [u8; 4]) {
    let base = 4 * ((y as usize) * (w as usize) + (x as usize));
    frame[base..base + 4].copy_from_slice(&rgba);
}

#[test]
fn all_transparent_first_frame_emits_spaces_then_nothing() {
    // A 2x2 terminal whose mesh renders nothing: the first frame differs
    // from the sentinel everywhere, so all four cells are erased; an
    // identical second frame emits no cell update at all.
    let mut c = Compositor::new(2, 2);
    let out = c.present(transparent_frame(2, 2), 0);
    assert_eq!(out.cells.len(), 4);
    for u in &out.cells {
        assert_eq!(u.glyph, ' ');
    }
    let out2 = c.present(transparent_frame(2, 2), 0);
    assert_eq!(out2.cells.len(), 0);
}

#[test]
fn overlay_is_emitted_on_every_frame() {
    let mut c = Compositor::new(2, 2);
    let out = c.present(transparent_frame(2, 2), 0);
    assert_eq!(out.overlay.x, 0);
    assert_eq!(out.overlay.y, 0);
    assert_eq!((out.overlay.r, out.overlay.g, out.overlay.b), (255, 0, 0));
    // The second frame changes no pixel, yet the overlay comes again.
    let out2 = c.present(transparent_frame(2, 2), 0);
    assert_eq!(out2.cells.len(), 0);
    assert_eq!(out2.overlay.x, 0);
    assert_eq!(out2.overlay.y, 0);
    assert_eq!((out2.overlay.r, out2.overlay.g, out2.overlay.b), (255, 0, 0));
}

#[test]
fn single_new_opaque_pixel_emits_exactly_one_update() {
    // Frame one is fully transparent; frame two turns (1,1) opaque red.
    let mut c = Compositor::new(2, 2);
    c.present(transparent_frame(2, 2), 0);
    let mut frame2 = transparent_frame(2, 2);
    set_pixel(&mut frame2, 2, 1, 1, [255, 0, 0, 255]);
    let out = c.present(frame2, 0);
    assert_eq!(out.cells.len(), 1);
    let u = &out.cells[0];
    assert_eq!((u.x, u.y), (1, 1));
    assert_eq!((u.r, u.g, u.b), (255, 0, 0));
    assert_eq!(u.glyph, '0');
}

#[test]
fn transparent_pixel_erases_and_opaque_pixel_draws() {
    // Alpha zero maps to a space whatever the RGB; anything else carries
    // the pixel's own RGB under the visible glyph.
    let mut c = Compositor::new(2, 1);
    let mut frame1 = transparent_frame(2, 1);
    set_pixel(&mut frame1, 2, 0, 0, [17, 34, 51, 0]);
    set_pixel(&mut frame1, 2, 1, 0, [9, 8, 7, 1]);
    let out = c.present(frame1, 0);
    assert_eq!(out.cells.len(), 2);
    assert_eq!(out.cells[0].glyph, ' ');
    assert_eq!(out.cells[1].glyph, '0');
    assert_eq!((out.cells[1].r, out.cells[1].g, out.cells[1].b), (9, 8, 7));
}

#[test]
fn updates_come_in_raster_order() {
    let mut c = Compositor::new(3, 2);
    c.present(transparent_frame(3, 2), 0);
    let mut frame2 = transparent_frame(3, 2);
    set_pixel(&mut frame2, 3, 2, 1, [1, 1, 1, 255]);
    set_pixel(&mut frame2, 3, 1, 0, [2, 2, 2, 255]);
    let out = c.present(frame2, 0);
    assert_eq!(out.cells.len(), 2);
    assert_eq!((out.cells[0].x, out.cells[0].y), (1, 0));
    assert_eq!((out.cells[1].x, out.cells[1].y), (2, 1));
}

#[test]
fn changed_origin_cell_is_diffed_and_overlay_still_comes() {
    let mut c = Compositor::new(2, 1);
    c.present(transparent_frame(2, 1), 0);
    let mut frame2 = transparent_frame(2, 1);
    set_pixel(&mut frame2, 2, 0, 0, [5, 6, 7, 255]);
    let out = c.present(frame2, 0);
    assert_eq!(out.cells.len(), 1);
    assert_eq!((out.cells[0].x, out.cells[0].y), (0, 0));
    assert_eq!(out.overlay.x, 0);
    assert_eq!(out.overlay.y, 0);
}

#[test]
fn smoothed_duration_and_overlay_text_follow_the_average() {
    let mut c = Compositor::new(1, 1);
    assert_eq!(c.smoothed_micros(), 0);
    // While the average is zero the overlay shows "inf".
    let out = c.present(transparent_frame(1, 1), 0);
    assert_eq!(out.overlay.text, vec!['i', 'n', 'f']);
    // One 2000 microsecond frame from rest: 5% of it is 100.
    let out2 = c.present(transparent_frame(1, 1), 2000);
    assert_eq!(c.smoothed_micros(), 100);
    // 1e6 / 100 microseconds = 10000 frames per second.
    assert_eq!(out2.overlay.text, vec!['1', '0', '0', '0', '0']);
}

#[test]
fn smoothed_duration_over_two_frames() {
    let mut c = Compositor::new(1, 1);
    c.present(transparent_frame(1, 1), 4000);
    assert_eq!(c.smoothed_micros(), 200);
    c.present(transparent_frame(1, 1), 2000);
    // 0.95 * 200 + 0.05 * 2000 = 190 + 100.
    assert_eq!(c.smoothed_micros(), 290);
}

#[test]
fn empty_terminal_still_gets_the_overlay() {
    let mut c = Compositor::new(0, 0);
    let out = c.present(Vec::new(), 1000);
    assert_eq!(out.cells.len(), 0);
    assert_eq!(out.overlay.x, 0);
    assert_eq!(out.overlay.y, 0);
    assert_eq!(c.smoothed_micros(), 50);
}

#[test]
fn pixel_buffer_len_counts_four_bytes_per_cell() {
    assert_eq!(termrender::compositor::pixel_buffer_len(2, 2), Some(16));
    assert_eq!(termrender::compositor::pixel_buffer_len(0, 7), Some(0));
}

#[test]
fn width_and_height_are_kept() {
    let c = Compositor::new(7, 3);
    assert_eq!(c.width(), 7);
    assert_eq!(c.height(), 3);
}
