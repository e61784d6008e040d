use watercontroller::bus::{BusError, MemBus};
use watercontroller::ls027b7dh01::Ls027b7dh01;

/// The expected line chunk: 1-indexed line address, 50 bytes, filler.
fn line_chunk(line: u8, fill: u8) -> Vec<u8> {
    let mut chunk = vec![line + 1];
    chunk.extend(std::iter::repeat(fill).take(50));
    chunk.push(0x00);
    chunk
}

#[test]
fn test_fresh_flush_is_toggle_only() {
    // On a fresh engine the dirty bitmap is empty: a flush toggles the
    // polarity exactly once and issues no line write.
    let mut display = Ls027b7dh01::new(MemBus::new());
    assert_eq!(display.flush(), Ok(()));
    assert_eq!(display.bus().transcript(), &vec![vec![0x00, 0x00]]);
}

#[test]
fn test_fresh_framebuffer_is_white() {
    let display = Ls027b7dh01::new(MemBus::new());
    let fb = display.framebuffer();
    assert_eq!(fb.len(), 12000);
    assert!(fb.iter().all(|&b| b == 0xFF));
}

#[test]
fn test_set_pixel_marks_exactly_its_line() {
    let mut display = Ls027b7dh01::new(MemBus::new());
    // Dark pixel at (0, 0) on a white framebuffer: a real change.
    display.set_pixel(0, 0, false);
    assert_eq!(display.flush(), Ok(()));
    let mut expected = vec![0x01];
    let mut chunk = line_chunk(0, 0xFF);
    chunk[1] = 0xFE;
    expected.extend(chunk);
    expected.push(0x00);
    assert_eq!(display.bus().transcript(), &vec![expected]);
}

#[test]
fn test_set_pixel_same_color_leaves_bitmap_clean() {
    let mut display = Ls027b7dh01::new(MemBus::new());
    // Light pixel on an already-white framebuffer: no change, no dirty
    // line, so the flush degrades to a toggle.
    display.set_pixel(3, 7, true);
    assert_eq!(display.flush(), Ok(()));
    assert_eq!(display.bus().transcript(), &vec![vec![0x00, 0x00]]);
}

#[test]
fn test_set_pixel_out_of_bounds_is_ignored() {
    let mut display = Ls027b7dh01::new(MemBus::new());
    display.set_pixel(400, 0, false);
    display.set_pixel(0, 240, false);
    assert_eq!(display.flush(), Ok(()));
    assert_eq!(display.bus().transcript(), &vec![vec![0x00, 0x00]]);
}

#[test]
fn test_pixel_packing_lsb_first() {
    let mut display = Ls027b7dh01::new(MemBus::new());
    // Bit 0 is the leftmost pixel of each byte group.
    display.set_pixel(8, 2, false);
    display.set_pixel(15, 2, false);
    let fb = display.framebuffer();
    assert_eq!(fb[2 * 50 + 1], 0xFF & !0x01 & !0x80);
}

#[test]
fn test_flush_clears_dirty_bits() {
    let mut display = Ls027b7dh01::new(MemBus::new());
    display.set_pixel(10, 5, false);
    assert_eq!(display.flush(), Ok(()));
    // Everything flushed: the next flush is a toggle again.
    assert_eq!(display.flush(), Ok(()));
    let transcript = display.bus().transcript();
    assert_eq!(transcript.len(), 2);
    assert_eq!(transcript[1], vec![0x02, 0x00]);
}

#[test]
fn test_polarity_alternates_across_transactions() {
    // After n successful transactions from a fresh state, the polarity
    // bit (visible as bit 1 of each mode byte) equals n mod 2.
    let mut display = Ls027b7dh01::new(MemBus::new());
    assert_eq!(display.clear_display(), Ok(()));
    assert_eq!(display.toggle_vcom(), Ok(()));
    display.set_pixel(0, 0, false);
    assert_eq!(display.flush(), Ok(()));
    assert_eq!(display.toggle_vcom(), Ok(()));
    let transcript = display.bus().transcript();
    assert_eq!(transcript.len(), 4);
    assert_eq!(transcript[0][0], 0x04);
    assert_eq!(transcript[1][0], 0x02);
    assert_eq!(transcript[2][0], 0x01);
    assert_eq!(transcript[3][0], 0x02);
}

#[test]
fn test_clear_display_resets_framebuffer_and_dirty() {
    let mut display = Ls027b7dh01::new(MemBus::new());
    display.set_pixel(5, 5, false);
    assert_eq!(display.clear_display(), Ok(()));
    assert!(display.framebuffer().iter().all(|&b| b == 0xFF));
    // The hardware clear dropped the dirty marks: next flush toggles only.
    assert_eq!(display.flush(), Ok(()));
    let transcript = display.bus().transcript();
    assert_eq!(transcript[0], vec![0x04, 0x00]);
    assert_eq!(transcript[1], vec![0x02, 0x00]);
}

#[test]
fn test_clear_framebuffer_marks_all_dirty() {
    let mut display = Ls027b7dh01::new(MemBus::new());
    display.clear_framebuffer();
    assert_eq!(display.flush(), Ok(()));
    let transcript = display.bus().transcript();
    assert_eq!(transcript.len(), 1);
    // Mode byte, 240 chunks of 52 bytes, trailing filler.
    assert_eq!(transcript[0].len(), 1 + 240 * 52 + 1);
    assert_eq!(transcript[0][0], 0x01);
}

#[test]
fn test_fill_black_sends_full_image() {
    let mut display = Ls027b7dh01::new(MemBus::new());
    assert_eq!(display.fill_black(), Ok(()));
    assert!(display.framebuffer().iter().all(|&b| b == 0x00));
    let transcript = display.bus().transcript();
    assert_eq!(transcript.len(), 1);
    let payload = &transcript[0];
    assert_eq!(payload.len(), 1 + 240 * 52 + 1);
    assert_eq!(payload[0], 0x01);
    assert_eq!(*payload.last().unwrap(), 0x00);
    for line in 0..240usize {
        let chunk = &payload[1 + line * 52..1 + (line + 1) * 52];
        assert_eq!(chunk.to_vec(), line_chunk(line as u8, 0x00));
    }
}

#[test]
fn test_mark_all_dirty_forces_full_redraw() {
    let mut display = Ls027b7dh01::new(MemBus::new());
    display.mark_all_dirty();
    assert_eq!(display.flush(), Ok(()));
    let transcript = display.bus().transcript();
    assert_eq!(transcript[0].len(), 1 + 240 * 52 + 1);
}

#[test]
fn test_bus_failure_keeps_dirty_and_polarity() {
    let mut bus = MemBus::new();
    bus.fail_next(2);
    let mut display = Ls027b7dh01::new(bus);
    display.set_pixel(0, 0, false);
    assert_eq!(display.flush(), Err(BusError));
    assert_eq!(display.toggle_vcom(), Err(BusError));
    assert_eq!(display.bus().transcript(), &Vec::<Vec<u8>>::new());
    // The failed transactions flipped nothing and kept the line dirty:
    // the retried flush sends the full write payload, with the polarity
    // bit still low.
    assert_eq!(display.flush(), Ok(()));
    let transcript = display.bus().transcript();
    assert_eq!(transcript.len(), 1);
    assert_eq!(transcript[0][0], 0x01);
    assert_eq!(transcript[0].len(), 1 + 52 + 1);
}
