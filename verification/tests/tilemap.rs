use landsknecht::components::CollisionShape;
use landsknecht::components::RigidBody;
use landsknecht::tilemap::parse_map;
use landsknecht::units::Coord;
use landsknecht::units::Vec2;

#[test]
fn empty_file_is_empty_map() {
    let m = parse_map(&Vec::new());
    assert_eq!(m.width, 0);
    assert_eq!(m.height, 0);
    assert_eq!(m.tiles.len(), 0);
    assert_eq!(m.obstacles.len(), 0);
}

#[test]
fn single_row_positions_are_centred() {
    // Width 3: origin x is -3 * 10000 / 2 = -15000; height 1: origin y is
    // 5000. Tiles sit at x = -15000, -5000, 5000, all at y = 5000.
    let m = parse_map(&b"a#b".to_vec());
    assert_eq!(m.width, 3);
    assert_eq!(m.height, 1);
    assert_eq!(m.tiles.len(), 3);
    for (i, tile) in m.tiles.iter().enumerate() {
        assert_eq!(tile.col, i);
        assert_eq!(tile.row, 0);
        assert_eq!(
            tile.sprite.pos,
            Vec2 {
                x: Coord { base: -15000 + 10000 * i as i64, diag: 0 },
                y: Coord { base: 5000, diag: 0 },
            }
        );
        assert_eq!(tile.sprite.size, 10000);
        assert_eq!(tile.sprite.z, 100);
    }
    assert_eq!(m.tiles[0].glyph, b'a');
    assert_eq!(m.tiles[0].sprite.index, b'a');
    assert!(!m.tiles[0].is_wall);
    assert!(m.tiles[1].is_wall);
    assert_eq!(m.tiles[1].sprite.index, b'#');
}

#[test]
fn wall_owns_one_colocated_obstacle() {
    let m = parse_map(&b"a#b".to_vec());
    assert_eq!(m.obstacles.len(), 1);
    let o = &m.obstacles[0];
    assert_eq!(o.pos, m.tiles[1].sprite.pos);
    assert_eq!(o.rigid_body, RigidBody::Static);
    assert_eq!(o.shape, CollisionShape::Cuboid { half_extent: 5000 });
    assert!(o.layers.groups.obstacle);
    assert!(!o.layers.groups.player);
    assert!(!o.layers.groups.unit);
    assert!(!o.layers.groups.bullet);
    assert!(o.layers.masks.player && o.layers.masks.obstacle);
    assert!(o.layers.masks.unit && o.layers.masks.bullet);
}

#[test]
fn trailing_newline_ends_the_last_row() {
    let with_nl = parse_map(&b"ab\n".to_vec());
    let without = parse_map(&b"ab".to_vec());
    assert_eq!(with_nl.height, 1);
    assert_eq!(with_nl.width, 2);
    assert_eq!(with_nl.tiles.len(), without.tiles.len());
}

#[test]
fn two_rows_walls_and_positions() {
    let m = parse_map(&b"ab\n#c".to_vec());
    assert_eq!(m.width, 2);
    assert_eq!(m.height, 2);
    assert_eq!(m.tiles.len(), 4);
    // Second row sits one tile lower: y = 2 * 5000 - 1 * 10000 = 0.
    let wall = &m.tiles[2];
    assert_eq!((wall.col, wall.row), (0, 1));
    assert!(wall.is_wall);
    assert_eq!(
        wall.sprite.pos,
        Vec2 { x: Coord { base: -10000, diag: 0 }, y: Coord { base: 0, diag: 0 } }
    );
    assert_eq!(m.obstacles.len(), 1);
    assert_eq!(m.obstacles[0].pos, wall.sprite.pos);
}

#[test]
fn ragged_rows_keep_their_own_lengths() {
    // The first row fixes the nominal width; a longer later row still
    // spawns all of its tiles.
    let m = parse_map(&b"a\n###".to_vec());
    assert_eq!(m.width, 1);
    assert_eq!(m.height, 2);
    assert_eq!(m.tiles.len(), 4);
    assert_eq!(m.obstacles.len(), 3);
}

#[test]
fn blank_line_is_an_empty_row() {
    let m = parse_map(&b"a\n\n#".to_vec());
    assert_eq!(m.height, 3);
    assert_eq!(m.tiles.len(), 2);
    assert_eq!(m.obstacles.len(), 1);
    assert_eq!(m.tiles[1].row, 2);
}

#[test]
fn any_byte_is_its_own_sprite_index() {
    let m = parse_map(&vec![200u8, 7u8]);
    assert_eq!(m.tiles[0].sprite.index, 200);
    assert_eq!(m.tiles[1].sprite.index, 7);
    assert!(!m.tiles[0].is_wall && !m.tiles[1].is_wall);
    assert_eq!(m.obstacles.len(), 0);
}

#[test]
fn every_wall_counted_in_order() {
    let m = parse_map(&b"#a#\n.#.".to_vec());
    assert_eq!(m.obstacles.len(), 3);
    assert_eq!(m.obstacles[0].pos, m.tiles[0].sprite.pos);
    assert_eq!(m.obstacles[1].pos, m.tiles[2].sprite.pos);
    assert_eq!(m.obstacles[2].pos, m.tiles[4].sprite.pos);
}
