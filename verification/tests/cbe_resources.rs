use nicaiemu::cbe::actor::{Actor, Animation, SpriteFrame};
use nicaiemu::cbe::map::{MapError, Tile, TileMap};
use nicaiemu::cbe::sce::{Scene, SceneError};

#[test]
fn test_sprite_frame_creation() {
    let frame = SpriteFrame { index: 0, x: 0, y: 0, width: 32, height: 32 };
    assert_eq!(frame.width, 32);
    assert_eq!(frame.height, 32);
}

#[test]
fn actors_keep_raw_data_and_find_animations_by_name() {
    let mut actor = Actor::parse(&[0xff, 0x01, 0xff]).unwrap();
    assert_eq!(actor.raw_data, vec![0xff, 0x01, 0xff]);
    assert_eq!(actor.frame_count(), 0);
    assert_eq!(actor.animation_count(), 0);
    assert!(actor.find_animation("walk").is_none());
    actor.animations.push(Animation { name: "walk".to_string(), frames: vec![1, 2], frame_duration: 100, looped: true });
    actor.animations.push(Animation { name: "walk".to_string(), frames: vec![3], frame_duration: 50, looped: false });
    assert_eq!(actor.animation_count(), 2);
    assert_eq!(actor.find_animation("walk").unwrap().frames, vec![1, 2]);
    assert!(actor.find_animation("run").is_none());
}

#[test]
fn test_tile_creation() {
    let tile = Tile::new(100, false, true);
    assert_eq!(tile.id, 100);
    assert!(!tile.flip_x);
    assert!(tile.flip_y);
}

#[test]
fn test_map_analysis() {
    let data = vec![0u8; 100];
    let analysis = TileMap::analyze_buffer(&data);
    assert_eq!(analysis.size, 100);
    assert_eq!(analysis.tile_candidates, 1);
}

#[test]
fn map_analysis_counts_runs_and_distinct_bytes() {
    let mut data = vec![1u8, 1, 1, 2, 2, 3, 3, 3, 3];
    data.extend(std::iter::repeat(7u8).take(300));
    let analysis = TileMap::analyze_buffer(&data);
    assert_eq!(analysis.size, 309);
    assert!(analysis.has_draw_records);
    assert_eq!(analysis.tile_candidates, 4);
    assert_eq!(analysis.rle_candidates, 4);
}

#[test]
fn maps_parse_a_placeholder_grid_or_a_pattern_grid() {
    assert!(matches!(TileMap::parse(&[]), Err(MapError::Empty)));
    let map = TileMap::parse(&[1, 2, 3]).unwrap();
    assert_eq!((map.width, map.height), (15, 25));
    assert_eq!(map.tiles.len(), 25);
    assert_eq!(map.get_tile(14, 24).map(|t| t.id), Some(0));
    assert!(map.get_tile(15, 0).is_none());

    assert!(matches!(TileMap::parse_with_tiles(&[0; 15], 240, 400), Err(MapError::TooShort)));
    let mut data = vec![0u8; 16];
    data.extend_from_slice(b"\x08tiles.png\0");
    let map = TileMap::parse_with_tiles(&data, 33, 16).unwrap();
    assert_eq!((map.width, map.height), (3, 1));
    assert_eq!(map.tileset_ref.as_deref(), Some("tiles"));
    assert_eq!(map.get_tile(2, 0).map(|t| t.id), Some(2));
    assert_eq!(map.raw_data, data);
}

#[test]
fn test_scene_creation() {
    let scene = Scene {
        width: 240,
        height: 400,
        maps: Vec::new(),
        entities: Vec::new(),
        scripts: Vec::new(),
        raw_data: Vec::new(),
    };
    assert_eq!(scene.width(), 240);
    assert_eq!(scene.height(), 400);
}

#[test]
fn test_scene_parse_minimal() {
    let mut data = vec![0u8; 32];
    data[0x0A] = 0x53;
    data[0x0B] = 0x43;
    data[0x0C] = 0x45;
    data[0x0D] = 0x32;
    data[0x0E] = 0xF0;
    data[0x0F] = 0x00;
    data[0x10] = 0x90;
    data[0x11] = 0x01;
    data[0x12] = 0x00;
    data[0x13] = 0x00;

    let scene = Scene::parse(&data).unwrap();
    assert_eq!(scene.width(), 240);
    assert_eq!(scene.height(), 400);
    assert_eq!(scene.maps().len(), 0);
}

#[test]
fn scenes_list_maps_actors_and_scripts() {
    let mut data = vec![0u8; 0x12];
    data.extend_from_slice(&2u16.to_le_bytes());
    data.extend_from_slice(&[7, b'b', b'g', 0, 0, b'.', 1, 2, 3, 0]);
    data.extend_from_slice(&[9, b'l', b'v', b'1', b'a', b'x', 4, 5, 6]);
    data.push(9);
    data.extend_from_slice(b"hero.actor");
    data.push(0);
    data.push(6);
    data.extend_from_slice(b"ai.xse");
    data.push(5);
    data.extend_from_slice(b"x.map");
    let scene = Scene::parse(&data).unwrap();
    assert_eq!(scene.maps().len(), 2);
    assert_eq!(scene.maps()[0].name, "bg.map");
    assert_eq!((scene.maps()[0].field0, scene.maps()[0].field1, scene.maps()[0].field2), (7, 2, 3));
    assert_eq!(scene.maps()[1].name, "lv1a");
    assert_eq!(scene.entity_count(), 0);
    assert_eq!(scene.scripts().len(), 1);
    assert_eq!(scene.scripts()[0].script_name, "ai.xse");
    assert_eq!(scene.scripts()[0].script_type, "main");
    assert!(matches!(Scene::parse(&[0; 19]), Err(SceneError::TooShort)));
}
