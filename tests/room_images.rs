use room_images::canvas::{
    Canvas, Label, Layer, Mineral, Resource, TileColor, Sprite, Structure, Terrain, Tile, ROOM_AREA,
};
use room_images::color::{calculate_color, checked_color};
use room_images::path::render_roomxy_path;
use room_images::regions::{limit_regions, render_region_analysis, RegionAnalysis};
use room_images::room::{
    draw_resources_from_offline_room_data, draw_structures_from_offline_room_data,
    draw_terrain_from_offline_terrain_data, make_images_for_room, ObjectKind, RoomData, RoomObject,
};

fn t(x: u8, y: u8) -> Tile {
    Tile { x, y }
}

fn tint(r: u8, g: u8, b: u8, a: u8, tiles: Vec<Tile>) -> Layer {
    Layer::Tint { color: TileColor { r, g, b, a }, tiles }
}

#[test]
fn color_of_first_category_points_along_u() {
    assert_eq!(calculate_color(1, 0), (127, 79, 255));
    assert_eq!(calculate_color(3, 0), (127, 79, 255));
}

#[test]
fn color_at_quarter_turns() {
    assert_eq!(calculate_color(4, 1), (255, 53, 127));
    assert_eq!(calculate_color(2, 1), (127, 175, 0));
    assert_eq!(calculate_color(4, 3), (0, 201, 127));
}

#[test]
fn color_at_thirds_of_a_turn() {
    assert_eq!(calculate_color(3, 1), (252, 87, 0));
    assert_eq!(calculate_color(3, 2), (2, 215, 0));
}

#[test]
fn color_is_deterministic_and_depends_on_count() {
    for n in 1..=20u8 {
        for i in 0..n {
            assert_eq!(calculate_color(n, i), calculate_color(n, i));
        }
    }
    assert_ne!(calculate_color(3, 1), calculate_color(4, 1));
}

#[test]
fn colors_are_distinct_for_small_counts() {
    for n in 1..=12u8 {
        for i in 0..n {
            for j in 0..n {
                if i != j {
                    assert_ne!(calculate_color(n, i), calculate_color(n, j), "n={} {} {}", n, i, j);
                }
            }
        }
    }
}

#[test]
fn color_refuses_missing_categories() {
    assert_eq!(checked_color(0, 0), None);
    assert_eq!(checked_color(5, 5), None);
    assert_eq!(checked_color(5, 9), None);
    assert_eq!(checked_color(3, 1), Some(calculate_color(3, 1)));
}

#[test]
fn single_tile_path_highlights_one_tile() {
    let mut canvas = Canvas::new();
    render_roomxy_path(&mut canvas, &vec![t(7, 9)]);
    assert_eq!(
        canvas.layers,
        vec![
            tint(255, 0, 0, 125, vec![t(7, 9)]),
            tint(0, 0, 255, 125, vec![]),
            tint(0, 255, 0, 125, vec![t(7, 9)]),
        ]
    );
}

#[test]
fn two_tile_path_has_no_middle() {
    let mut canvas = Canvas::new();
    render_roomxy_path(&mut canvas, &vec![t(1, 1), t(1, 2)]);
    assert_eq!(
        canvas.layers,
        vec![
            tint(255, 0, 0, 125, vec![t(1, 1)]),
            tint(0, 0, 255, 125, vec![]),
            tint(0, 255, 0, 125, vec![t(1, 2)]),
        ]
    );
}

#[test]
fn three_tile_path_marks_start_middle_and_end() {
    let mut canvas = Canvas::new();
    render_roomxy_path(&mut canvas, &vec![t(2, 2), t(2, 3), t(2, 4)]);
    assert_eq!(
        canvas.layers,
        vec![
            tint(255, 0, 0, 125, vec![t(2, 2)]),
            tint(0, 0, 255, 125, vec![t(2, 3)]),
            tint(0, 255, 0, 125, vec![t(2, 4)]),
        ]
    );
}

#[test]
fn path_is_drawn_over_earlier_layers() {
    let mut canvas = Canvas::new();
    canvas.push_layer(Layer::Text { tile: t(0, 0), label: Label::Glyph('x') });
    render_roomxy_path(&mut canvas, &vec![t(3, 3), t(4, 4), t(5, 5), t(6, 6)]);
    assert_eq!(canvas.layers.len(), 4);
    assert_eq!(canvas.layers[0], Layer::Text { tile: t(0, 0), label: Label::Glyph('x') });
    assert_eq!(canvas.layers[2], tint(0, 0, 255, 125, vec![t(4, 4), t(5, 5)]));
}

fn sample_analysis() -> RegionAnalysis {
    let first = vec![t(1, 1), t(1, 2), t(2, 1)];
    let second = vec![t(10, 10), t(10, 11), t(11, 10), t(11, 11), t(12, 10)];
    let mut heights = vec![None; ROOM_AREA];
    for (i, xy) in first.iter().chain(second.iter()).enumerate() {
        heights[xy.y as usize * 50 + xy.x as usize] = Some(i as u8 + 1);
    }
    RegionAnalysis {
        regions: vec![first, second],
        heights,
        border_tiles: vec![t(0, 0), t(5, 5), t(6, 5), t(7, 5)],
    }
}

#[test]
fn two_regions_with_borders() {
    let analysis = sample_analysis();
    let mut canvas = Canvas::new();
    render_region_analysis(&mut canvas, &analysis);
    let c0 = calculate_color(3, 0);
    let c1 = calculate_color(3, 1);
    assert_ne!(c0, c1);
    let mut expected = vec![tint(c0.0, c0.1, c0.2, 128, analysis.regions[0].clone())];
    for (i, xy) in analysis.regions[0].iter().enumerate() {
        expected.push(Layer::Text { tile: *xy, label: Label::Number(i as u8 + 1) });
    }
    expected.push(tint(c1.0, c1.1, c1.2, 128, analysis.regions[1].clone()));
    for (i, xy) in analysis.regions[1].iter().enumerate() {
        expected.push(Layer::Text { tile: *xy, label: Label::Number(i as u8 + 4) });
    }
    for xy in &analysis.border_tiles {
        expected.push(Layer::Text { tile: *xy, label: Label::Glyph('B') });
    }
    assert_eq!(canvas.layers, expected);
}

#[test]
fn region_tiles_without_height_are_skipped() {
    let mut analysis = sample_analysis();
    analysis.heights[1 * 50 + 2] = None;
    analysis.border_tiles.clear();
    let mut canvas = Canvas::new();
    render_region_analysis(&mut canvas, &analysis);
    assert_eq!(canvas.layers.len(), 1 + 2 + 1 + 5);
    assert_eq!(canvas.layers[3], tint(calculate_color(3, 1).0, calculate_color(3, 1).1, calculate_color(3, 1).2, 128, analysis.regions[1].clone()));
}

#[test]
fn no_regions_draws_only_borders() {
    let analysis = RegionAnalysis {
        regions: vec![],
        heights: vec![None; ROOM_AREA],
        border_tiles: vec![t(3, 4)],
    };
    let mut canvas = Canvas::new();
    render_region_analysis(&mut canvas, &analysis);
    assert_eq!(canvas.layers, vec![Layer::Text { tile: t(3, 4), label: Label::Glyph('B') }]);
}

fn sample_room() -> RoomData {
    let mut terrain = vec![Terrain::Plain; ROOM_AREA];
    terrain[3 * 50 + 2] = Terrain::Wall;
    terrain[0 * 50 + 49] = Terrain::Swamp;
    RoomData {
        terrain,
        objects: vec![
            RoomObject { tile: t(4, 4), kind: ObjectKind::Controller },
            RoomObject { tile: t(5, 6), kind: ObjectKind::Source },
            RoomObject { tile: t(8, 8), kind: ObjectKind::Other },
            RoomObject { tile: t(9, 9), kind: ObjectKind::Mineral(Mineral::Keanium) },
            RoomObject { tile: t(9, 9), kind: ObjectKind::Extractor },
        ],
    }
}

#[test]
fn terrain_is_drawn_column_by_column() {
    let room = sample_room();
    let mut canvas = Canvas::new();
    draw_terrain_from_offline_terrain_data(&mut canvas, &room.terrain);
    assert_eq!(canvas.layers.len(), ROOM_AREA);
    assert_eq!(canvas.layers[1], Layer::Sprite { tile: t(0, 1), sprite: Sprite::Terrain(Terrain::Plain) });
    assert_eq!(canvas.layers[2 * 50 + 3], Layer::Sprite { tile: t(2, 3), sprite: Sprite::Terrain(Terrain::Wall) });
    assert_eq!(canvas.layers[49 * 50], Layer::Sprite { tile: t(49, 0), sprite: Sprite::Terrain(Terrain::Swamp) });
    assert_eq!(canvas.layers[3 * 50 + 2], Layer::Sprite { tile: t(3, 2), sprite: Sprite::Terrain(Terrain::Plain) });
}

#[test]
fn resources_and_structures_are_picked_from_objects() {
    let room = sample_room();
    let mut canvas = Canvas::new();
    draw_resources_from_offline_room_data(&mut canvas, &room);
    assert_eq!(
        canvas.layers,
        vec![
            Layer::Sprite { tile: t(5, 6), sprite: Sprite::Resource(Resource::Source) },
            Layer::Sprite { tile: t(9, 9), sprite: Sprite::Resource(Resource::Mineral(Mineral::Keanium)) },
        ]
    );
    let mut canvas = Canvas::new();
    draw_structures_from_offline_room_data(&mut canvas, &room);
    assert_eq!(
        canvas.layers,
        vec![
            Layer::Sprite { tile: t(4, 4), sprite: Sprite::Structure(Structure::Controller) },
            Layer::Sprite { tile: t(9, 9), sprite: Sprite::Structure(Structure::Extractor) },
        ]
    );
}

#[test]
fn analysis_image_extends_an_untouched_base_image() {
    let room = sample_room();
    let analysis = sample_analysis();
    let images = make_images_for_room(&room, &analysis);
    assert_eq!(images.len(), 2);
    let base = &images[0].layers;
    assert_eq!(base.len(), ROOM_AREA + 2 + 2);
    assert_eq!(base[ROOM_AREA + 3], Layer::Sprite { tile: t(9, 9), sprite: Sprite::Structure(Structure::Extractor) });
    let top = &images[1].layers;
    assert_eq!(&top[..base.len()], &base[..]);
    let mut expected = Canvas::new();
    render_region_analysis(&mut expected, &analysis);
    assert_eq!(&top[base.len()..], &expected.layers[..]);
}

#[test]
fn duplicate_canvas_is_independent() {
    let mut base = Canvas::new();
    render_roomxy_path(&mut base, &vec![t(1, 1)]);
    let mut copy = base.duplicate();
    assert_eq!(copy.layers, base.layers);
    render_region_analysis(&mut copy, &sample_analysis());
    assert_eq!(base.layers.len(), 3);
    assert!(copy.layers.len() > 3);
}

fn one_tile_regions(n: usize) -> RegionAnalysis {
    RegionAnalysis {
        regions: (0..n).map(|i| vec![t((i % 50) as u8, (i / 50) as u8)]).collect(),
        heights: vec![Some(1); ROOM_AREA],
        border_tiles: vec![],
    }
}

#[test]
fn limit_regions_refuses_too_many_regions() {
    assert!(limit_regions(one_tile_regions(255)).is_none());
    assert!(limit_regions(one_tile_regions(300)).is_none());
    let kept = limit_regions(one_tile_regions(254)).expect("few enough regions");
    assert_eq!(kept.regions.len(), 254);
    assert_eq!(kept.regions[253], vec![t(3, 5)]);
    assert!(limit_regions(one_tile_regions(0)).is_some());
}

#[test]
fn limit_regions_refuses_tiles_outside_the_room() {
    let mut a = sample_analysis();
    a.border_tiles.push(t(50, 3));
    assert!(limit_regions(a).is_none());
    let mut a = sample_analysis();
    a.regions[1].push(t(4, 50));
    assert!(limit_regions(a).is_none());
    let mut a = sample_analysis();
    a.heights.pop();
    assert!(limit_regions(a).is_none());
    let kept = limit_regions(sample_analysis()).expect("a drawable analysis");
    assert_eq!(kept.regions, sample_analysis().regions);
    assert_eq!(kept.border_tiles, sample_analysis().border_tiles);
}
