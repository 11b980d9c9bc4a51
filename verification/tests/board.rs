use fueros::board::{Board, Cell, Edge, EdgeValue};
use fueros::player::PlayerId;
use fueros::util::Vector2i;

#[test]
fn scenario_3_2() {
    let board = Board::with_size(3, 2);
    assert_eq!(board.horizontal_edge_count(), 9);
    assert_eq!(board.vertical_edge_count(), 8);
    assert_eq!(board.cell_count(), 6);
    assert_eq!(
        board.get_edge(Edge::Horizontal { x: 1, y: 0 }),
        Some(EdgeValue::Claimed(PlayerId::System))
    );
    assert_eq!(
        board.get_edge(Edge::Horizontal { x: 1, y: 1 }),
        Some(EdgeValue::Unset)
    );
    assert_eq!(board.get_cell(Vector2i { x: 1, y: 1 }), Some(Cell::Unclaimed));
    assert_eq!(board.get_cell(Vector2i { x: 3, y: 0 }), None);
}

#[test]
fn fresh_array_lengths() {
    let sizes: [(usize, usize); 4] = [(1, 1), (2, 3), (7, 5), (40, 1)];
    for &(w, h) in sizes.iter() {
        let board = Board::with_size(w, h);
        assert_eq!(board.width(), w);
        assert_eq!(board.height(), h);
        assert_eq!(board.horizontal_edge_count(), w * (h + 1));
        assert_eq!(board.vertical_edge_count(), (w + 1) * h);
        assert_eq!(board.cell_count(), w * h);
    }
}

#[test]
fn boundary_edges_claimed_by_system() {
    let board = Board::with_size(4, 3);
    for x in 0..4u16 {
        assert_eq!(
            board.get_edge(Edge::Horizontal { x, y: 0 }),
            Some(EdgeValue::Claimed(PlayerId::System))
        );
        assert_eq!(
            board.get_edge(Edge::Horizontal { x, y: 3 }),
            Some(EdgeValue::Claimed(PlayerId::System))
        );
    }
    for y in 0..3u16 {
        assert_eq!(
            board.get_edge(Edge::Vertical { x: 0, y }),
            Some(EdgeValue::Claimed(PlayerId::System))
        );
        assert_eq!(
            board.get_edge(Edge::Vertical { x: 4, y }),
            Some(EdgeValue::Claimed(PlayerId::System))
        );
    }
}

#[test]
fn interior_edges_unset_and_cells_unclaimed() {
    let board = Board::with_size(4, 3);
    for x in 0..4u16 {
        for y in 1..3u16 {
            assert_eq!(
                board.get_edge(Edge::Horizontal { x, y }),
                Some(EdgeValue::Unset)
            );
        }
    }
    for x in 1..4u16 {
        for y in 0..3u16 {
            assert_eq!(
                board.get_edge(Edge::Vertical { x, y }),
                Some(EdgeValue::Unset)
            );
        }
    }
    for x in 0..4i32 {
        for y in 0..3i32 {
            assert_eq!(board.get_cell(Vector2i { x, y }), Some(Cell::Unclaimed));
        }
    }
}

#[test]
fn edge_round_trip() {
    let mut board = Board::with_size(3, 2);
    let horizontal = Edge::Horizontal { x: 2, y: 1 };
    let vertical = Edge::Vertical { x: 1, y: 0 };
    assert!(board.set_edge(horizontal, EdgeValue::Claimed(PlayerId::Player(1))));
    assert_eq!(
        board.get_edge(horizontal),
        Some(EdgeValue::Claimed(PlayerId::Player(1)))
    );
    assert!(board.set_edge(vertical, EdgeValue::Claimed(PlayerId::Player(2))));
    assert_eq!(
        board.get_edge(vertical),
        Some(EdgeValue::Claimed(PlayerId::Player(2)))
    );
    // A boundary edge is a valid write target like any other edge.
    assert!(board.set_edge(Edge::Horizontal { x: 0, y: 0 }, EdgeValue::Unset));
    assert_eq!(
        board.get_edge(Edge::Horizontal { x: 0, y: 0 }),
        Some(EdgeValue::Unset)
    );
}

#[test]
fn cell_round_trip() {
    let mut board = Board::with_size(3, 2);
    let pos = Vector2i { x: 2, y: 1 };
    assert!(board.set_cell(pos, Cell::Claimed(PlayerId::Player(7))));
    assert_eq!(board.get_cell(pos), Some(Cell::Claimed(PlayerId::Player(7))));
    assert!(board.set_cell(pos, Cell::Unclaimed));
    assert_eq!(board.get_cell(pos), Some(Cell::Unclaimed));
}

#[test]
fn writes_leave_other_slots_alone() {
    let mut board = Board::with_size(3, 2);
    assert!(board.set_edge(
        Edge::Horizontal { x: 1, y: 1 },
        EdgeValue::Claimed(PlayerId::Player(1))
    ));
    assert!(board.set_cell(Vector2i { x: 0, y: 0 }, Cell::Claimed(PlayerId::Player(1))));
    // Neighbouring slots keep their fresh values.
    assert_eq!(
        board.get_edge(Edge::Horizontal { x: 2, y: 1 }),
        Some(EdgeValue::Unset)
    );
    assert_eq!(
        board.get_edge(Edge::Vertical { x: 1, y: 1 }),
        Some(EdgeValue::Unset)
    );
    assert_eq!(board.get_cell(Vector2i { x: 1, y: 0 }), Some(Cell::Unclaimed));
    assert_eq!(
        board.get_edge(Edge::Horizontal { x: 1, y: 0 }),
        Some(EdgeValue::Claimed(PlayerId::System))
    );
}

#[test]
fn out_of_range_edges_rejected() {
    let mut board = Board::with_size(3, 2);
    let bad_edges = [
        Edge::Horizontal { x: 3, y: 0 },  // x == width
        Edge::Horizontal { x: 0, y: 3 },  // y > height
        Edge::Vertical { x: 4, y: 0 },    // x > width
        Edge::Vertical { x: 0, y: 2 },    // y == height
    ];
    for &edge in bad_edges.iter() {
        assert!(!board.is_edge_valid(edge));
        assert_eq!(board.get_edge(edge), None);
        assert!(!board.set_edge(edge, EdgeValue::Claimed(PlayerId::Player(1))));
    }
    // The failed writes changed nothing: a full sweep still reads fresh values.
    for x in 0..3u16 {
        for y in 0..3u16 {
            let expected = if y == 0 || y == 2 {
                EdgeValue::Claimed(PlayerId::System)
            } else {
                EdgeValue::Unset
            };
            assert_eq!(board.get_edge(Edge::Horizontal { x, y }), Some(expected));
        }
    }
    for x in 0..4u16 {
        for y in 0..2u16 {
            let expected = if x == 0 || x == 3 {
                EdgeValue::Claimed(PlayerId::System)
            } else {
                EdgeValue::Unset
            };
            assert_eq!(board.get_edge(Edge::Vertical { x, y }), Some(expected));
        }
    }
}

#[test]
fn out_of_range_cells_rejected() {
    let mut board = Board::with_size(3, 2);
    let bad_positions = [
        Vector2i { x: -1, y: 0 },
        Vector2i { x: 0, y: -1 },
        Vector2i { x: 3, y: 0 },
        Vector2i { x: 0, y: 2 },
    ];
    for &pos in bad_positions.iter() {
        assert!(!board.is_cell_valid(pos));
        assert_eq!(board.get_cell(pos), None);
        assert!(!board.set_cell(pos, Cell::Claimed(PlayerId::Player(1))));
    }
    for x in 0..3i32 {
        for y in 0..2i32 {
            assert_eq!(board.get_cell(Vector2i { x, y }), Some(Cell::Unclaimed));
        }
    }
}

#[test]
fn validity_rules_by_orientation() {
    let board = Board::with_size(3, 2);
    // Horizontal: x < width, y <= height.
    assert!(board.is_edge_valid(Edge::Horizontal { x: 2, y: 2 }));
    assert!(!board.is_edge_valid(Edge::Horizontal { x: 3, y: 0 }));
    // Vertical: x <= width, y < height.
    assert!(board.is_edge_valid(Edge::Vertical { x: 3, y: 1 }));
    assert!(!board.is_edge_valid(Edge::Vertical { x: 0, y: 2 }));
    assert!(board.is_cell_valid(Vector2i { x: 2, y: 1 }));
    assert!(!board.is_cell_valid(Vector2i { x: 3, y: 1 }));
}

#[test]
fn smallest_board() {
    let mut board = Board::with_size(1, 1);
    assert_eq!(board.horizontal_edge_count(), 2);
    assert_eq!(board.vertical_edge_count(), 2);
    assert_eq!(board.cell_count(), 1);
    // Every edge of a 1x1 board is a boundary edge.
    assert_eq!(
        board.get_edge(Edge::Horizontal { x: 0, y: 0 }),
        Some(EdgeValue::Claimed(PlayerId::System))
    );
    assert_eq!(
        board.get_edge(Edge::Horizontal { x: 0, y: 1 }),
        Some(EdgeValue::Claimed(PlayerId::System))
    );
    assert_eq!(
        board.get_edge(Edge::Vertical { x: 0, y: 0 }),
        Some(EdgeValue::Claimed(PlayerId::System))
    );
    assert_eq!(
        board.get_edge(Edge::Vertical { x: 1, y: 0 }),
        Some(EdgeValue::Claimed(PlayerId::System))
    );
    assert_eq!(board.get_cell(Vector2i { x: 0, y: 0 }), Some(Cell::Unclaimed));
    assert!(board.set_cell(Vector2i { x: 0, y: 0 }, Cell::Claimed(PlayerId::Player(0))));
    assert_eq!(
        board.get_cell(Vector2i { x: 0, y: 0 }),
        Some(Cell::Claimed(PlayerId::Player(0)))
    );
}

#[test]
fn player_identities_are_distinct() {
    let mut board = Board::with_size(2, 2);
    let edge = Edge::Vertical { x: 1, y: 0 };
    assert!(board.set_edge(edge, EdgeValue::Claimed(PlayerId::Player(5))));
    let read = board.get_edge(edge);
    assert_eq!(read, Some(EdgeValue::Claimed(PlayerId::Player(5))));
    assert_ne!(read, Some(EdgeValue::Claimed(PlayerId::System)));
    assert_ne!(read, Some(EdgeValue::Claimed(PlayerId::Player(4))));
}
