use three::board::Board;
use three::color::{next_color, Color, Ring};
use three::layer::{index_to_location, location_to_index, matching_color, Layer, Lines};

const COLORS: [Color; 4] = [Color::Blue, Color::Green, Color::Red, Color::Yellow];
const RINGS: [Ring; 3] = [Ring::Top, Ring::Middle, Ring::Bottom];

// The cells of the eight lines of a grid, in scan order, as (x, y).
const LINES: [[(usize, usize); 3]; 8] = [
    [(0, 0), (1, 0), (2, 0)],
    [(0, 1), (1, 1), (2, 1)],
    [(0, 2), (1, 2), (2, 2)],
    [(0, 0), (0, 1), (0, 2)],
    [(1, 0), (1, 1), (1, 2)],
    [(2, 0), (2, 1), (2, 2)],
    [(0, 0), (1, 1), (2, 2)],
    [(0, 2), (1, 1), (2, 0)],
];

fn layer_of(colors: [u8; 9]) -> Layer {
    let mut cells = [None; 9];
    for i in 0..9 {
        cells[i] = Some(COLORS[colors[i] as usize]);
    }
    Layer::new(cells)
}

#[test]
fn full_stack_at_every_position_wins() {
    for &c in COLORS.iter() {
        for y in 0..3 {
            for x in 0..3 {
                let mut board = Board::empty();
                for &ring in RINGS.iter() {
                    board.set_ring((x, y), ring, c);
                }
                assert_eq!(board.winner(), Some(c));
                assert_eq!(board.full_stack(), Some(c));
            }
        }
    }
}

#[test]
fn downward_staircase_on_every_line_wins() {
    for &c in COLORS.iter() {
        for line in LINES.iter() {
            let mut board = Board::empty();
            board.set_ring(line[0], Ring::Top, c);
            board.set_ring(line[1], Ring::Middle, c);
            board.set_ring(line[2], Ring::Bottom, c);
            assert_eq!(board.full_stack(), None);
            assert_eq!(board.three_of_same(), None);
            assert_eq!(board.winner(), Some(c));
        }
    }
}

#[test]
fn upward_staircase_on_every_line_wins() {
    for &c in COLORS.iter() {
        for line in LINES.iter() {
            let mut board = Board::empty();
            board.set_ring(line[0], Ring::Bottom, c);
            board.set_ring(line[1], Ring::Middle, c);
            board.set_ring(line[2], Ring::Top, c);
            assert_eq!(board.full_stack(), None);
            assert_eq!(board.three_of_same(), None);
            assert_eq!(board.winner(), Some(c));
        }
    }
}

#[test]
fn full_board_without_line_is_a_draw() {
    let board = Board::new(
        layer_of([3, 0, 2, 1, 2, 0, 1, 2, 2]),
        layer_of([0, 1, 1, 2, 1, 2, 2, 3, 2]),
        layer_of([3, 3, 0, 0, 2, 3, 2, 3, 1]),
    );
    assert!(board.full());
    assert_eq!(board.winner(), None);
}

#[test]
fn winner_asked_twice_agrees() {
    let mut board = Board::empty();
    board.set_ring((0, 0), Ring::Top, Color::Green);
    board.set_ring((1, 1), Ring::Middle, Color::Green);
    board.set_ring((2, 2), Ring::Bottom, Color::Green);
    let first = board.winner();
    assert_eq!(board.winner(), first);
    assert_eq!(first, Some(Color::Green));
    let empty = Board::empty();
    assert_eq!(empty.winner(), empty.winner());
}

#[test]
fn board_write_is_read_back() {
    for &ring in RINGS.iter() {
        for y in 0..3 {
            for x in 0..3 {
                let mut board = Board::empty();
                board.set_ring((x, y), ring, Color::Yellow);
                assert_eq!(board.get_ring((x, y), ring), Some(Color::Yellow));
                for &other in RINGS.iter() {
                    for y2 in 0..3 {
                        for x2 in 0..3 {
                            if other != ring || (x2, y2) != (x, y) {
                                assert_eq!(board.get_ring((x2, y2), other), None);
                            }
                        }
                    }
                }
            }
        }
    }
}

#[test]
fn layer_write_is_read_back() {
    let mut layer = Layer::empty();
    layer.set((2, 1), Color::Red);
    assert_eq!(layer.get((2, 1)), Some(Color::Red));
    assert_eq!(layer.iter()[5], Some(Color::Red));
    assert_eq!(layer.get((1, 2)), None);
    layer.set((2, 1), Color::Blue);
    assert_eq!(layer.get((2, 1)), Some(Color::Blue));
}

#[test]
fn empty_board_has_no_winner() {
    let board = Board::empty();
    assert_eq!(board.winner(), None);
    assert!(!board.full());
}

#[test]
fn middle_stack_of_red_wins() {
    let mut board = Board::empty();
    board.set_ring((1, 1), Ring::Top, Color::Red);
    board.set_ring((1, 1), Ring::Middle, Color::Red);
    board.set_ring((1, 1), Ring::Bottom, Color::Red);
    assert_eq!(board.winner(), Some(Color::Red));
}

#[test]
fn top_row_of_yellow_wins() {
    let mut board = Board::empty();
    board.set_ring((0, 0), Ring::Top, Color::Yellow);
    board.set_ring((1, 0), Ring::Top, Color::Yellow);
    board.set_ring((2, 0), Ring::Top, Color::Yellow);
    assert_eq!(board.three_of_same(), Some(Color::Yellow));
    assert_eq!(board.winner(), Some(Color::Yellow));
}

#[test]
fn downward_descending_blue_wins() {
    let mut board = Board::empty();
    board.set_ring((0, 0), Ring::Top, Color::Blue);
    board.set_ring((1, 1), Ring::Middle, Color::Blue);
    board.set_ring((2, 2), Ring::Bottom, Color::Blue);
    assert_eq!(board.winner(), Some(Color::Blue));
}

#[test]
fn mixed_descending_has_no_winner() {
    let mut board = Board::empty();
    board.set_ring((0, 0), Ring::Top, Color::Blue);
    board.set_ring((1, 1), Ring::Middle, Color::Green);
    board.set_ring((2, 2), Ring::Bottom, Color::Blue);
    assert_eq!(board.winner(), None);
}

#[test]
fn full_stack_comes_before_layer_line() {
    let mut board = Board::empty();
    board.set_ring((0, 0), Ring::Top, Color::Green);
    board.set_ring((1, 0), Ring::Top, Color::Green);
    board.set_ring((2, 0), Ring::Top, Color::Green);
    board.set_ring((2, 2), Ring::Top, Color::Red);
    board.set_ring((2, 2), Ring::Middle, Color::Red);
    board.set_ring((2, 2), Ring::Bottom, Color::Red);
    assert_eq!(board.winner(), Some(Color::Red));
}

#[test]
fn layer_line_comes_before_staircase() {
    let mut board = Board::empty();
    board.set_ring((0, 0), Ring::Top, Color::Blue);
    board.set_ring((1, 1), Ring::Middle, Color::Blue);
    board.set_ring((2, 2), Ring::Bottom, Color::Blue);
    board.set_ring((0, 2), Ring::Bottom, Color::Yellow);
    board.set_ring((1, 2), Ring::Bottom, Color::Yellow);
    board.set_ring((2, 1), Ring::Bottom, Color::Yellow);
    board.set_ring((0, 1), Ring::Bottom, Color::Yellow);
    board.set_ring((1, 1), Ring::Bottom, Color::Yellow);
    assert_eq!(board.winner(), Some(Color::Yellow));
}

#[test]
fn downward_view_comes_before_upward_view() {
    let mut board = Board::empty();
    // Upward row 0: Bottom (0,0), Middle (1,0), Top (2,0).
    board.set_ring((0, 0), Ring::Bottom, Color::Green);
    board.set_ring((1, 0), Ring::Middle, Color::Green);
    board.set_ring((2, 0), Ring::Top, Color::Green);
    // Downward ascending diagonal: Top (0,2), Middle (1,1), Bottom (2,0).
    board.set_ring((0, 2), Ring::Top, Color::Red);
    board.set_ring((1, 1), Ring::Middle, Color::Red);
    board.set_ring((2, 0), Ring::Bottom, Color::Red);
    assert_eq!(board.full_stack(), None);
    assert_eq!(board.three_of_same(), None);
    assert_eq!(board.winner(), Some(Color::Red));
}

#[test]
fn first_layer_line_in_scan_order_wins() {
    // Two complete rows: the upper one is reported.
    let layer = Layer::new([
        Some(Color::Red), Some(Color::Red), Some(Color::Red),
        Some(Color::Green), Some(Color::Yellow), Some(Color::Green),
        Some(Color::Blue), Some(Color::Blue), Some(Color::Blue),
    ]);
    assert_eq!(layer.three_in_row(), Some(Color::Red));
    let layer = Layer::new([
        Some(Color::Blue), Some(Color::Blue), Some(Color::Blue),
        Some(Color::Green), Some(Color::Yellow), Some(Color::Green),
        Some(Color::Red), Some(Color::Red), Some(Color::Red),
    ]);
    assert_eq!(layer.three_in_row(), Some(Color::Blue));
    // A complete column and no complete row.
    let layer = Layer::new([
        Some(Color::Green), Some(Color::Blue), Some(Color::Yellow),
        Some(Color::Green), Some(Color::Yellow), Some(Color::Blue),
        Some(Color::Green), Some(Color::Blue), Some(Color::Yellow),
    ]);
    assert_eq!(layer.three_in_row(), Some(Color::Green));
}

#[test]
fn top_layer_line_comes_before_bottom_layer_line() {
    let mut board = Board::empty();
    for x in 0..3 {
        board.set_ring((x, 2), Ring::Bottom, Color::Blue);
        board.set_ring((x, 1), Ring::Top, Color::Yellow);
    }
    assert_eq!(board.three_of_same(), Some(Color::Yellow));
    assert_eq!(board.winner(), Some(Color::Yellow));
}

#[test]
fn diagonals_of_a_layer() {
    let layer = Layer::new([
        Some(Color::Blue), None, Some(Color::Green),
        None, Some(Color::Red), None,
        Some(Color::Yellow), None, Some(Color::Blue),
    ]);
    assert_eq!(layer.descending(), (Some(Color::Blue), Some(Color::Red), Some(Color::Blue)));
    assert_eq!(layer.ascending(), (Some(Color::Yellow), Some(Color::Red), Some(Color::Green)));
}

#[test]
fn views_compose_lines_across_layers() {
    let board = Board::new(
        layer_of([0, 1, 2, 3, 0, 1, 2, 3, 0]),
        layer_of([1, 2, 3, 0, 1, 2, 3, 0, 1]),
        layer_of([2, 3, 0, 1, 2, 3, 0, 1, 2]),
    );
    let down = board.downward_view();
    assert_eq!(down.row(0), (Some(Color::Blue), Some(Color::Red), Some(Color::Blue)));
    assert_eq!(down.column(1), (Some(Color::Green), Some(Color::Green), Some(Color::Green)));
    let up = board.upward_view();
    assert_eq!(up.row(0), (Some(Color::Red), Some(Color::Red), Some(Color::Red)));
    assert_eq!(up.ascending(), (Some(Color::Blue), Some(Color::Green), Some(Color::Red)));
    assert_eq!(up.descending(), (Some(Color::Red), Some(Color::Green), Some(Color::Blue)));
}

#[test]
fn layer_full_needs_every_cell() {
    assert!(!Layer::empty().full());
    assert!(layer_of([0; 9]).full());
    let mut cells = [Some(Color::Red); 9];
    cells[8] = None;
    assert!(!Layer::new(cells).full());
}

#[test]
fn matching_color_needs_three_equal_cells() {
    assert_eq!(matching_color((Some(Color::Red), Some(Color::Red), Some(Color::Red))), Some(Color::Red));
    assert_eq!(matching_color((Some(Color::Red), Some(Color::Red), Some(Color::Blue))), None);
    assert_eq!(matching_color((Some(Color::Red), None, Some(Color::Red))), None);
    assert_eq!(matching_color((None, None, None)), None);
}

#[test]
fn location_and_index_agree() {
    assert_eq!(location_to_index(3, (2, 1)), 5);
    assert_eq!(location_to_index(3, (0, 2)), 6);
    assert_eq!(index_to_location(3, 7), (1, 2));
    assert_eq!(index_to_location(4, 9), (1, 2));
    for i in 0..9 {
        assert_eq!(location_to_index(3, index_to_location(3, i)), i);
    }
    for y in 0..3 {
        for x in 0..3 {
            assert_eq!(index_to_location(3, location_to_index(3, (x, y))), (x, y));
        }
    }
}

#[test]
fn colors_take_turns_in_a_cycle() {
    assert_eq!(next_color(Color::Blue), Color::Green);
    assert_eq!(next_color(Color::Green), Color::Red);
    assert_eq!(next_color(Color::Red), Color::Yellow);
    assert_eq!(next_color(Color::Yellow), Color::Blue);
}

#[test]
fn defaults_are_empty() {
    assert_eq!(Layer::default(), Layer::empty());
    assert_eq!(Board::default(), Board::empty());
    assert_eq!(Board::default().winner(), None);
    assert!(Layer::default().iter().iter().all(|c| c.is_none()));
}
