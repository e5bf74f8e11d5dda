use sombervale::world::{draw_order, draw_sprite, summon_candidate};
use sombervale::control::{Controls, Key};
use sombervale::geometry::{Point2, Point3, Rect};
use sombervale::image::Image;
use sombervale::power::FrogPower;
use sombervale::random::Random;
use sombervale::world::{
    build_layer, collision_shape, intro_step, leader_collision, outro_fade, pixels, spawn_point,
    summon, summon_position, tile_source, world_to_screen, EntityKind, Viewport,
};

#[test]
fn entity_names() {
    assert_eq!(EntityKind::from_name(&"Jean".to_string()), Some(EntityKind::Jean));
    assert_eq!(EntityKind::from_name(&"Blob".to_string()), Some(EntityKind::Blob));
    assert_eq!(EntityKind::from_name(&"Fire".to_string()), Some(EntityKind::Fire));
    assert_eq!(EntityKind::from_name(&"Frog".to_string()), None);
}

#[test]
fn level_rects_flip_vertically() {
    assert_eq!(collision_shape(2, 3, 4, 5, 100), Rect::new(32, 1472, 64, 80));
    assert_eq!(spawn_point(2, 3, 4, 5, 100), Point3::new(64, 0, 1472));
}

#[test]
fn tile_positions() {
    assert_eq!(tile_source(0, 1, 4, 8, 8), None);
    assert_eq!(tile_source(1, 1, 4, 8, 8), Some(Point2::new(0, 0)));
    assert_eq!(tile_source(7, 1, 4, 8, 8), Some(Point2::new(16, 8)));
}

#[test]
fn layer_is_built_from_tiles() {
    // tileset: two 1x1 tiles, red then green
    let tileset = Image::new(vec![255, 0, 0, 255, 0, 255, 0, 255], 2, 1).unwrap();
    let gids = vec![vec![2, 0], vec![1, 2]];
    let layer = build_layer(&gids, 1, &tileset, 1, 1, 2, 2);
    assert_eq!(layer.width(), 2);
    assert_eq!(layer.height(), 2);
    assert_eq!(
        layer.data().clone(),
        vec![0, 255, 0, 255, 0, 0, 0, 0, 255, 0, 0, 255, 0, 255, 0, 255]
    );
}

#[test]
fn pixel_rounding_goes_down() {
    assert_eq!(pixels(33), 2);
    assert_eq!(pixels(-1), -1);
    assert_eq!(pixels(-16), -1);
    assert_eq!(pixels(-17), -2);
}

#[test]
fn screen_position_of_sprite() {
    let vp = Viewport { pos: Point2::new(160, 0), world_height: 200 };
    let p = world_to_screen(Point3::new(320, 0, 160), Point2::new(16, 32), &vp);
    // x: 20 - 8 - 10; y: 200 - 32 - 10 - 0
    assert_eq!(p, Point2::new(2, 158));
}

#[test]
fn camera_follows_leader() {
    let mut vp = Viewport { pos: Point2::new(0, 0), world_height: 1000 };
    // sprite 16x32 at x = 200px: spans 192..208, beyond the right inset at 112
    vp.follow(Point3::new(200 * 16, 0, 900 * 16), Point2::new(16, 32));
    assert_eq!(vp.pos.x, (208 - 112) * 16);
    assert_eq!(vp.world_height, 1000);
    let mut still = Viewport { pos: Point2::new(0, 0), world_height: 128 };
    still.follow(Point3::new(80 * 16, 0, 48 * 16), Point2::new(16, 32));
    assert_eq!(still.pos, Point2::new(0, 0));
}

#[test]
fn intro_pans_then_stops() {
    let mut vp = Viewport { pos: Point2::new(0, 0), world_height: 10 };
    assert!(intro_step(&mut vp));
    assert_eq!(vp.pos, Point2::new(3, 0));
    let mut diag = Viewport { pos: Point2::new(2048, 0), world_height: 10 };
    assert!(intro_step(&mut diag));
    assert_eq!(diag.pos, Point2::new(2051, 3));
    let mut done = Viewport { pos: Point2::new(2048, 3520), world_height: 10 };
    assert!(!intro_step(&mut done));
    assert_eq!(done.pos, Point2::new(2048, 3520));
}

#[test]
fn outro_fades_linearly() {
    assert_eq!(outro_fade(100, 100), 256);
    assert_eq!(outro_fade(0, 1000), 128);
    assert_eq!(outro_fade(0, 2000), 0);
    assert_eq!(outro_fade(500, 0), 256);
}

#[test]
fn leader_contact_ends_world() {
    let mut queue = vec![99];
    let shadows = vec![Point3::new(1000, 0, 0), Point3::new(50, 0, 50)];
    let ids = vec![7, 8];
    let outro = leader_collision(1, Point3::new(0, 0, 0), &ids, &shadows, &mut queue);
    assert!(outro);
    assert_eq!(queue, vec![99, 1, 8]);
    let mut none = Vec::new();
    assert!(!leader_collision(1, Point3::new(0, 0, 0), &vec![7], &vec![Point3::new(500, 0, 0)], &mut none));
    assert!(none.is_empty());
}

#[test]
fn summon_avoids_shapes() {
    let shapes = vec![Rect::new(-400, -400, 400, 800)];
    let mut r = Random::from_seed(42, 54);
    for _ in 0..50 {
        if let Some(p) = summon_position(Point3::new(0, 0, 0), &mut r, &shapes, 1000) {
            assert!(!shapes[0].circle_intersects(p, 80));
            assert!(p.x * p.x + p.z * p.z <= 448 * 448);
        }
    }
    assert_eq!(summon_position(Point3::new(0, 0, 0), &mut r, &shapes, 0), None);
}

#[test]
fn summon_needs_press_and_charge() {
    let shapes = Vec::new();
    let mut r = Random::from_seed(1, 1);
    let mut c = Controls::new();
    let mut p = FrogPower::new(0);
    assert_eq!(summon(&mut c, &mut p, Point3::new(0, 0, 0), &mut r, &shapes, 100, 0), None);
    assert_eq!(p.pp(), 1);
    c.update(Key::Space, true);
    assert!(summon(&mut c, &mut p, Point3::new(0, 0, 0), &mut r, &shapes, 100, 0).is_some());
    assert_eq!(p.pp(), 0);
    c.update(Key::Space, false);
    c.update(Key::Space, true);
    assert_eq!(summon(&mut c, &mut p, Point3::new(0, 0, 0), &mut r, &shapes, 100, 0), None);
}

#[test]
fn summon_candidate_offsets_and_checks() {
    let leader = Point3::new(1000, 5, 1000);
    // 448 % 897 = 448 -> offset 0; 897 + 458 -> offset 10
    assert_eq!(
        summon_candidate(leader, 448, 897 + 458, &Vec::new()),
        Some(Point3::new(1000, 5, 1010))
    );
    // corner of the square lies outside the circle
    assert_eq!(summon_candidate(leader, 0, 0, &Vec::new()), None);
    // a shape over the spot rejects it
    let shapes = vec![Rect::new(900, 900, 200, 200)];
    assert_eq!(summon_candidate(leader, 448, 448, &shapes), None);
}

#[test]
fn failed_summon_keeps_charge() {
    // every spot near the leader is blocked
    let shapes = vec![Rect::new(-10_000, -10_000, 20_000, 20_000)];
    let mut r = Random::from_seed(5, 6);
    let mut c = Controls::new();
    let mut p = FrogPower::new(0);
    c.update(Key::Space, true);
    assert_eq!(summon(&mut c, &mut p, Point3::new(0, 0, 0), &mut r, &shapes, 50, 0), None);
    assert_eq!(p.pp(), 1);
}

#[test]
fn sprites_draw_farthest_first() {
    assert_eq!(draw_order(&vec![5, 9, 5, -1, 9]), vec![1, 4, 0, 2, 3]);
    assert_eq!(draw_order(&Vec::new()), Vec::<usize>::new());
}

#[test]
fn sprite_frame_is_selected() {
    // sheet of two 1x1 frames: red then green
    let sheet = Image::new(vec![255, 0, 0, 255, 0, 255, 0, 255], 1, 2).unwrap();
    let mut dest = Image::blank(2, 2);
    let vp = Viewport { pos: Point2::new(0, 0), world_height: 2 };
    // feet at pixel (1, 0 up from the bottom): drawn at screen (1, 1)
    draw_sprite(&mut dest, &vp, Point3::new(16, 0, 0), &sheet, 1, 1, 256);
    assert_eq!(dest.data()[12..16].to_vec(), vec![0, 255, 0, 255]);
    assert_eq!(dest.data()[0..12].to_vec(), vec![0; 12]);
}
