use bagel::canvas::compose_canvas;

fn text(levels: &[usize], width: usize, height: usize) -> String {
    compose_canvas(&levels.to_vec(), width, height).into_iter().collect()
}

#[test]
fn rows_after_the_first_are_drawn_with_doubled_columns() {
    let levels = vec![12, 12, 12, 0, 1, 2, 3, 4, 5];
    assert_eq!(text(&levels, 3, 3), "  ..,,\n--~~::\n");
}

#[test]
fn out_of_range_level_draws_at_sign() {
    assert_eq!(text(&[0, 0, 99, 6], 2, 2), "@@;;\n");
}

#[test]
fn one_row_or_none_draws_nothing() {
    assert_eq!(text(&[3, 4, 5], 3, 1), "");
    assert_eq!(text(&[], 3, 0), "");
    assert_eq!(text(&[], 0, 4), "\n\n\n");
}

#[test]
fn full_screen_canvas_shape() {
    let levels = vec![0usize; 75 * 75];
    let canvas = text(&levels, 75, 75);
    let lines: Vec<&str> = canvas.lines().collect();
    assert_eq!(lines.len(), 74);
    assert!(lines.iter().all(|l| l.len() == 150 && l.chars().all(|c| c == ' ')));
}
