use game_of_life::Coord;
use game_of_life::GOL;

fn frame_of(width: u8, height: u8, cells: &[(i16, i16)]) -> String {
    let live: Vec<Coord> = cells.iter().map(|&(x, y)| Coord { x, y }).collect();
    let gol = GOL::from_iter(width, height, live).unwrap();
    gol.render().into_iter().collect()
}

#[test]
fn render_draws_a_fenced_frame() {
    let expected = concat_lines(&[" # # # # ", "#   o   #", "#       #", " # # # # "]);
    assert_eq!(frame_of(3, 2, &[(1, 0)]), expected);
}

#[test]
fn render_of_the_smallest_grid() {
    assert_eq!(frame_of(1, 1, &[]), concat_lines(&[" # # ", "#   #", " # # "]));
    assert_eq!(frame_of(1, 1, &[(0, 0)]), concat_lines(&[" # # ", "# o #", " # # "]));
}

#[test]
fn render_shows_every_live_cell_in_its_row_and_column() {
    let expected = concat_lines(&[
        " # # # # # ",
        "# o       #",
        "#   o o   #",
        "# o o     #",
        "#       o #",
        " # # # # # ",
    ]);
    assert_eq!(frame_of(4, 4, &[(0, 0), (1, 1), (2, 1), (0, 2), (1, 2), (3, 3)]), expected);
}

#[test]
fn render_has_one_line_for_each_row_and_two_borders() {
    let frame = frame_of(15, 9, &[(3, 3)]);
    let lines: Vec<&str> = frame.lines().collect();
    assert_eq!(lines.len(), 11);
    for line in &lines {
        assert_eq!(line.len(), 2 * 15 + 3);
    }
    assert!(frame.ends_with('\n'));
    assert_eq!(frame.len(), 11 * (2 * 15 + 4));
    assert_eq!(frame.matches('o').count(), 1);
}

#[test]
fn render_of_the_widest_grid() {
    let frame = frame_of(255, 1, &[(254, 0)]);
    let lines: Vec<&str> = frame.lines().collect();
    assert_eq!(lines.len(), 3);
    assert_eq!(lines[0], format!(" {}", "# ".repeat(256)));
    assert_eq!(lines[1], format!("# {}o #", "  ".repeat(254)));
    assert_eq!(lines[2], lines[0]);
}

#[test]
fn render_follows_the_generations() {
    let live = vec![Coord { x: 1, y: 2 }, Coord { x: 2, y: 2 }, Coord { x: 3, y: 2 }];
    let mut gol = GOL::from_iter(5, 5, live).unwrap();
    gol.step();
    let frame: String = gol.render().into_iter().collect();
    let expected = concat_lines(&[
        " # # # # # # ",
        "#           #",
        "#     o     #",
        "#     o     #",
        "#     o     #",
        "#           #",
        " # # # # # # ",
    ]);
    assert_eq!(frame, expected);
}

fn concat_lines(lines: &[&str]) -> String {
    let mut text = String::new();
    for line in lines {
        text.push_str(line);
        text.push('\n');
    }
    text
}
