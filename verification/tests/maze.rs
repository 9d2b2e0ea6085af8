use multiplayer_fps::maze::{
    maze_layout, minimap_cells, minimap_shade, wall_cells, MinimapCell, MinimapShade, MAZE_SIZE,
};

fn expected_layout() -> Vec<Vec<i32>> {
    vec![
        vec![1, 1, 1, 1, 1, 1, 1],
        vec![1, 0, 0, 0, 0, 0, 1],
        vec![1, 0, 0, 0, 0, 0, 1],
        vec![1, 0, 0, 1, 0, 0, 1],
        vec![1, 0, 0, 0, 0, 0, 1],
        vec![1, 0, 0, 0, 0, 0, 1],
        vec![1, 1, 1, 1, 1, 1, 1],
    ]
}

#[test]
fn maze_layout_is_the_games_maze() {
    assert_eq!(maze_layout(), expected_layout());
    assert_eq!(MAZE_SIZE, 7);
}

#[test]
fn maze_is_enclosed_by_walls() {
    let layout = maze_layout();
    for i in 0..MAZE_SIZE {
        assert_eq!(layout[0][i], 1);
        assert_eq!(layout[MAZE_SIZE - 1][i], 1);
        assert_eq!(layout[i][0], 1);
        assert_eq!(layout[i][MAZE_SIZE - 1], 1);
    }
    assert_eq!(layout[3][3], 1);
}

#[test]
fn maze_has_twenty_five_wall_blocks() {
    let walls = wall_cells(&maze_layout());
    assert_eq!(walls.len(), 25);
    assert_eq!(walls[0], (0, 0));
    assert_eq!(walls[6], (0, 6));
    assert_eq!(walls[7], (1, 0));
    assert_eq!(walls[12], (3, 3));
    assert_eq!(walls[24], (6, 6));
    assert!(!walls.contains(&(1, 1)));
    assert!(!walls.contains(&(3, 2)));
}

#[test]
fn wall_blocks_come_in_row_major_order_once_each() {
    let walls = wall_cells(&maze_layout());
    for i in 1..walls.len() {
        assert!(walls[i - 1] < walls[i]);
    }
}

#[test]
fn minimap_draws_every_cell_of_the_maze() {
    let cells = minimap_cells(&maze_layout());
    assert_eq!(cells.len(), 49);
    assert_eq!(cells[0], MinimapCell { row: 0, col: 0, shade: MinimapShade::Light });
    assert_eq!(cells[8], MinimapCell { row: 1, col: 1, shade: MinimapShade::Dark });
    assert_eq!(cells[24], MinimapCell { row: 3, col: 3, shade: MinimapShade::Light });
    assert_eq!(cells[48], MinimapCell { row: 6, col: 6, shade: MinimapShade::Light });
    for (i, c) in cells.iter().enumerate() {
        assert_eq!((c.row, c.col), (i / 7, i % 7));
    }
}

#[test]
fn minimap_light_squares_are_the_wall_blocks() {
    let layout = maze_layout();
    let lights: Vec<(usize, usize)> = minimap_cells(&layout)
        .iter()
        .filter(|c| c.shade == MinimapShade::Light)
        .map(|c| (c.row, c.col))
        .collect();
    assert_eq!(lights, wall_cells(&layout));
}

#[test]
fn minimap_shade_of_cell_values() {
    assert_eq!(minimap_shade(1), MinimapShade::Light);
    assert_eq!(minimap_shade(0), MinimapShade::Dark);
    assert_eq!(minimap_shade(2), MinimapShade::Dark);
    assert_eq!(minimap_shade(-1), MinimapShade::Dark);
}

#[test]
fn ragged_layout_cells_and_walls() {
    let layout = vec![vec![1, 0], vec![], vec![0, 2, 1]];
    assert_eq!(wall_cells(&layout), vec![(0, 0), (2, 2)]);
    assert_eq!(
        minimap_cells(&layout),
        vec![
            MinimapCell { row: 0, col: 0, shade: MinimapShade::Light },
            MinimapCell { row: 0, col: 1, shade: MinimapShade::Dark },
            MinimapCell { row: 2, col: 0, shade: MinimapShade::Dark },
            MinimapCell { row: 2, col: 1, shade: MinimapShade::Dark },
            MinimapCell { row: 2, col: 2, shade: MinimapShade::Light },
        ]
    );
}

#[test]
fn empty_layout_has_no_cells() {
    let layout: Vec<Vec<i32>> = vec![];
    assert!(wall_cells(&layout).is_empty());
    assert!(minimap_cells(&layout).is_empty());
}
