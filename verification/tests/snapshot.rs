use libremarkable::snapshot::CompressedCanvasState;

/// The canvas region the reference application draws in.
const CANVAS_WIDTH: u32 = 1404;
const CANVAS_HEIGHT: u32 = 1080;

fn round_trip(raw: &[u8], height: u32, width: u32) {
    let snap = CompressedCanvasState::capture(raw, height, width);
    assert_eq!(snap.height, height);
    assert_eq!(snap.width, width);
    let back = snap.decompress();
    assert_eq!(back.as_slice(), raw);
}

#[test]
fn round_trip_zero_filled_canvas() {
    let raw = vec![0u8; (CANVAS_WIDTH * CANVAS_HEIGHT) as usize];
    round_trip(&raw, CANVAS_HEIGHT, CANVAS_WIDTH);
}

#[test]
fn round_trip_all_ones_canvas() {
    let raw = vec![0xffu8; (CANVAS_WIDTH * CANVAS_HEIGHT) as usize];
    round_trip(&raw, CANVAS_HEIGHT, CANVAS_WIDTH);
}

#[test]
fn round_trip_random_content_canvas() {
    // Deterministic pseudo-random content, full canvas size.
    let mut state: u64 = 0x2545_f491_4f6c_dd1d;
    let mut raw = Vec::with_capacity((CANVAS_WIDTH * CANVAS_HEIGHT) as usize);
    for _ in 0..(CANVAS_WIDTH * CANVAS_HEIGHT) {
        state = state.wrapping_mul(6364136223846793005).wrapping_add(1442695040888963407);
        raw.push((state >> 33) as u8);
    }
    round_trip(&raw, CANVAS_HEIGHT, CANVAS_WIDTH);
}

#[test]
fn round_trip_empty_region() {
    round_trip(&[], 0, 0);
}

#[test]
fn round_trip_long_run_crosses_count_cap() {
    // A run longer than one count byte can carry.
    let mut raw = vec![7u8; 600];
    raw.push(8);
    round_trip(&raw, 1, 601);
}

#[test]
fn compression_shrinks_uniform_regions() {
    let raw = vec![0u8; 4096];
    let snap = CompressedCanvasState::capture(&raw, 64, 64);
    assert!(snap.data.len() < raw.len());
}

#[test]
fn compressed_form_is_count_value_pairs() {
    let raw = [3u8, 3, 3, 9, 9, 1];
    let snap = CompressedCanvasState::capture(&raw, 1, 6);
    assert_eq!(snap.data, vec![3u8, 3, 2, 9, 1, 1]);
}

#[test]
fn capture_is_immutable_across_decompressions() {
    let raw = vec![3u8, 3, 3, 9, 9, 1];
    let snap = CompressedCanvasState::capture(&raw, 1, 6);
    let first = snap.decompress();
    let second = snap.decompress();
    assert_eq!(first, second);
    assert_eq!(first.as_slice(), raw.as_slice());
}
