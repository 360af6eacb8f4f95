use bagel::frame::{render_frame, SCREEN_HEIGHT, SCREEN_WIDTH};

#[test]
fn traced_cells_get_shade_and_edges_stay_blank() {
    let frame = render_frame(4, 3, -1i32, |x: usize, y: usize| (10 * y + x) as i32);
    assert_eq!(
        frame,
        vec![-1, -1, -1, -1, -1, 11, 12, 13, -1, 21, 22, 23]
    );
}

#[test]
fn empty_frame() {
    let frame = render_frame(0, 5, 0u8, |_x: usize, _y: usize| 1u8);
    assert!(frame.is_empty());
    let frame = render_frame(5, 0, 0u8, |_x: usize, _y: usize| 1u8);
    assert!(frame.is_empty());
}

#[test]
fn single_row_is_all_blank() {
    let frame = render_frame(3, 1, 7u8, |_x: usize, _y: usize| 1u8);
    assert_eq!(frame, vec![7, 7, 7]);
}

#[test]
fn full_screen_frame_is_row_major() {
    let frame = render_frame(SCREEN_WIDTH, SCREEN_HEIGHT, 0.0f32, |x: usize, y: usize| {
        (y * 1000 + x) as f32
    });
    assert_eq!(frame.len(), 75 * 75);
    assert_eq!(frame[0], 0.0);
    assert_eq!(frame[1 * 75 + 1], 1001.0);
    assert_eq!(frame[74 * 75 + 74], 74074.0);
    assert_eq!(frame[40 * 75], 0.0);
    assert_eq!(frame[40], 0.0);
}
