use ferrux_engine::actors::{BouncingBox, Environment, World};
use ferrux_engine::canvas::EngineCanvas;

#[test]
fn bouncing_box_draws_its_square() {
    let bbox = BouncingBox::new(-60, 2, 1, 1);
    let mut canvas = EngineCanvas::new(10, 70);
    bbox.draw(&mut canvas);
    for x in 0..10 {
        for y in 0..70 {
            assert_eq!(canvas.is_lit(x, y), x < 4 && y >= 2 && y < 66, "({}, {})", x, y);
        }
    }
}

#[test]
fn bouncing_box_turns_back_at_the_edges() {
    let mut canvas = EngineCanvas::new(1000, 700);
    let mut bbox = BouncingBox::new(0, 100, -3, 2);
    bbox.update();
    bbox.draw(&mut canvas);
    assert!(canvas.is_lit(3, 102));
    assert!(!canvas.is_lit(2, 102));
    assert!(!canvas.is_lit(3, 101));
    assert!(canvas.is_lit(66, 102 + 63));
    assert!(!canvas.is_lit(67, 102));

    let mut canvas = EngineCanvas::new(1000, 700);
    let mut bbox = BouncingBox::new(897, 576, 1, 1);
    bbox.update();
    bbox.draw(&mut canvas);
    assert!(canvas.is_lit(896, 577));
    assert!(!canvas.is_lit(895, 577));
    assert!(!canvas.is_lit(896, 576));
}

#[test]
fn world_paints_box_and_background() {
    let world = World::new();
    let mut frame = vec![0u8; 960 * 100 * 4 + 2];
    world.draw(&mut frame);
    let pixel = |x: usize, y: usize| frame[4 * (y * 960 + x)..4 * (y * 960 + x) + 4].to_vec();
    assert_eq!(pixel(24, 16), vec![0x5e, 0x48, 0xe8, 0xff]);
    assert_eq!(pixel(87, 79), vec![0x5e, 0x48, 0xe8, 0xff]);
    assert_eq!(pixel(88, 16), vec![0x48, 0xb2, 0xe8, 0xff]);
    assert_eq!(pixel(23, 16), vec![0x48, 0xb2, 0xe8, 0xff]);
    assert_eq!(pixel(24, 80), vec![0x48, 0xb2, 0xe8, 0xff]);
    assert_eq!(&frame[960 * 100 * 4..], &[0, 0]);
}

#[test]
fn world_update_moves_the_box() {
    let mut world = World::new();
    world.update();
    let mut frame = vec![0u8; 960 * 90 * 4];
    world.draw(&mut frame);
    let pixel = |x: usize, y: usize| frame[4 * (y * 960 + x)..4 * (y * 960 + x) + 4].to_vec();
    assert_eq!(pixel(24, 16), vec![0x48, 0xb2, 0xe8, 0xff]);
    assert_eq!(pixel(25, 17), vec![0x5e, 0x48, 0xe8, 0xff]);
    assert_eq!(pixel(88, 80), vec![0x5e, 0x48, 0xe8, 0xff]);
}

#[test]
fn environment_draws_every_box() {
    let mut env = Environment::new(960);
    assert_eq!(env.width(), 960);
    let mut canvas = EngineCanvas::new(200, 120);
    env.draw(&mut canvas);
    assert!(canvas.is_lit(24, 16));
    assert!(canvas.is_lit(159, 95));
    assert!(!canvas.is_lit(160, 95));
    assert!(!canvas.is_lit(23, 16));
    env.update();
    let mut canvas = EngineCanvas::new(200, 120);
    env.draw(&mut canvas);
    assert!(!canvas.is_lit(24, 16));
    assert!(canvas.is_lit(25, 17));
    assert!(canvas.is_lit(161, 97));
    assert!(!canvas.is_lit(162, 97));
}

#[test]
fn long_run_of_updates_stays_in_reach() {
    let mut world = World::new();
    for _ in 0..10_000 {
        world.update();
    }
    let mut env = Environment::new(960);
    for _ in 0..10_000 {
        env.update();
    }
}

#[test]
fn box_far_outside_still_updates() {
    let mut bbox = BouncingBox::new(5000, -3000, 7, -5);
    bbox.update();
    let mut canvas = EngineCanvas::new(10, 10);
    bbox.draw(&mut canvas);
    assert!(!canvas.is_lit(0, 0));
    let mut bbox = BouncingBox::new(-70, -60, 4, 0);
    bbox.update();
    bbox.draw(&mut canvas);
    assert!(!canvas.is_lit(0, 0));
    bbox.update();
    bbox.draw(&mut canvas);
    assert!(canvas.is_lit(0, 0) == false);
    let mut bbox = BouncingBox::new(-62, 0, -4, 0);
    bbox.update();
    bbox.draw(&mut canvas);
    assert!(canvas.is_lit(0, 3));
}
