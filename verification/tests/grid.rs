use ecosim::spatial_grid::SpatialGrid;

#[test]
fn new_grid_has_ceiling_dimensions_and_is_empty() {
    let g = SpatialGrid::new(800_000, 600_000, 100_000);
    assert_eq!(g.cols, 8);
    assert_eq!(g.rows, 6);
    assert!(g.query(0, 0).is_empty());
    assert!(g.query(799_999, 599_999).is_empty());
    let g2 = SpatialGrid::new(850_000, 600_000, 100_000);
    assert_eq!(g2.cols, 9);
}

#[test]
fn insert_then_query_finds_id_in_neighborhood() {
    let mut g = SpatialGrid::new(800_000, 600_000, 100_000);
    g.insert(450_000, 250_000, 7);
    // Same bucket.
    assert!(g.query(450_000, 250_000).contains(&7));
    // One bucket away on each axis.
    assert!(g.query(360_000, 310_000).contains(&7));
    assert!(g.query(520_000, 180_000).contains(&7));
}

#[test]
fn query_more_than_two_cells_away_misses() {
    let mut g = SpatialGrid::new(800_000, 600_000, 100_000);
    g.insert(450_000, 250_000, 7);
    assert!(!g.query(50_000, 50_000).contains(&7));
    assert!(!g.query(750_000, 250_000).contains(&7));
    assert!(!g.query(450_000, 550_000).contains(&7));
}

#[test]
fn clear_empties_every_bucket() {
    let mut g = SpatialGrid::new(800_000, 600_000, 100_000);
    g.insert(100_000, 100_000, 1);
    g.insert(700_000, 500_000, 2);
    g.clear();
    let mut y: i64 = 0;
    while y <= 600_000 {
        let mut x: i64 = 0;
        while x <= 800_000 {
            assert!(g.query(x, y).is_empty());
            x += 50_000;
        }
        y += 50_000;
    }
}

#[test]
fn out_of_range_insert_is_dropped() {
    let mut g = SpatialGrid::new(800_000, 600_000, 100_000);
    g.insert(-5, 100_000, 3);
    g.insert(100_000, -5, 4);
    g.insert(800_001, 100_000, 5);
    g.insert(100_000, 600_001, 6);
    assert!(g.query(0, 100_000).is_empty());
    assert!(g.query(100_000, 0).is_empty());
    assert!(g.query(799_999, 100_000).is_empty());
    assert!(g.query(100_000, 599_999).is_empty());
}

#[test]
fn query_concatenates_without_dedup_or_filter() {
    let mut g = SpatialGrid::new(800_000, 600_000, 100_000);
    g.insert(110_000, 110_000, 1);
    g.insert(120_000, 120_000, 2);
    g.insert(110_000, 115_000, 1);
    let found = g.query(115_000, 115_000);
    // All three entries come back, duplicates included.
    assert_eq!(found.iter().filter(|&&id| id == 1).count(), 2);
    assert_eq!(found.iter().filter(|&&id| id == 2).count(), 1);
}

#[test]
fn cell_larger_than_world_gives_one_bucket() {
    let mut g = SpatialGrid::new(50_000, 50_000, 100_000);
    assert_eq!(g.cols, 1);
    assert_eq!(g.rows, 1);
    g.insert(10_000, 40_000, 9);
    assert!(g.query(49_000, 1_000).contains(&9));
}
