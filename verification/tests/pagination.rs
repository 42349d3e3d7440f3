use docxside_pdf::pagination::{place, Placement};

const TOP: i64 = 720_000;
const BOTTOM: i64 = 72_000;
const FIRST: i64 = 12_000;
const LINE: i64 = 14_400;

/// Places a paragraph of `total` lines where exactly `room` lines fit.
fn with_room(room: i64, total: usize) -> Placement {
    let available = if room == 0 { FIRST - 1 } else { FIRST + (room - 1) * LINE };
    place(BOTTOM + available, TOP, BOTTOM, 0, total as i64 * LINE, 0, FIRST, LINE, total)
}

#[test]
fn five_lines_where_two_fit_are_split_two_and_three() {
    assert_eq!(with_room(2, 5), Placement::Split { kept: 2 });
}

#[test]
fn five_lines_where_four_fit_leave_two_for_the_next_page() {
    assert_eq!(with_room(4, 5), Placement::Split { kept: 3 });
    assert_eq!(with_room(3, 5), Placement::Split { kept: 3 });
}

#[test]
fn fewer_than_two_lines_are_not_left_behind() {
    assert_eq!(with_room(1, 5), Placement::NextPage);
    assert_eq!(with_room(0, 5), Placement::NextPage);
    assert_eq!(with_room(1, 10), Placement::NextPage);
}

#[test]
fn paragraphs_of_fewer_than_four_lines_are_never_split() {
    for total in 0..4 {
        for room in 0..total {
            assert_eq!(with_room(room as i64, total), Placement::NextPage);
        }
    }
    assert_eq!(with_room(2, 4), Placement::Split { kept: 2 });
    assert_eq!(with_room(3, 4), Placement::Split { kept: 2 });
    assert_eq!(with_room(1, 4), Placement::NextPage);
}

#[test]
fn every_split_keeps_two_and_moves_two() {
    for total in 0..12usize {
        for room in 0..12 {
            if let Placement::Split { kept } = with_room(room, total) {
                assert!(kept >= 2);
                assert!(total - kept >= 2);
                assert!(kept as i64 <= room);
            }
        }
    }
}

#[test]
fn what_fits_is_placed_here() {
    assert_eq!(place(500_000, TOP, BOTTOM, 10_000, 5 * LINE, 0, FIRST, LINE, 5), Placement::Here);
    // It fits to the unit.
    assert_eq!(place(BOTTOM + 72_000, TOP, BOTTOM, 0, 72_000, 0, FIRST, LINE, 5), Placement::Here);
    assert_eq!(place(BOTTOM + 71_999, TOP, BOTTOM, 0, 72_000, 0, FIRST, LINE, 5), Placement::Split { kept: 3 });
}

#[test]
fn room_for_the_next_paragraph_counts() {
    assert_eq!(place(BOTTOM + 80_000, TOP, BOTTOM, 0, 72_000, 8_000, FIRST, LINE, 5), Placement::Here);
    assert_eq!(place(BOTTOM + 80_000, TOP, BOTTOM, 0, 72_000, 8_001, FIRST, LINE, 5), Placement::Split { kept: 3 });
}

#[test]
fn on_an_empty_page_everything_is_placed() {
    assert_eq!(place(TOP, TOP, BOTTOM, 0, 10_000_000, 0, FIRST, LINE, 700), Placement::Here);
    assert_eq!(place(TOP - 999, TOP, BOTTOM, 0, 10_000_000, 0, FIRST, LINE, 700), Placement::Here);
    assert_eq!(place(TOP - 1_000, TOP, BOTTOM, 0, 10_000_000, 0, FIRST, LINE, 700), Placement::Split { kept: 45 });
}

#[test]
fn lines_without_height_are_not_split() {
    assert_eq!(place(BOTTOM + 100, TOP, BOTTOM, 200, 0, 0, 0, 0, 5), Placement::NextPage);
}
