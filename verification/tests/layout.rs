use gravity_wizard::layout::LevelError;
use gravity_wizard::layout::LevelState;
use gravity_wizard::layout::Platform;
use gravity_wizard::layout::clear_level;
use gravity_wizard::layout::level_data_reader;
use gravity_wizard::layout::load_level;
use gravity_wizard::layout::parse_coord;
use gravity_wizard::layout::spawn_objects;
use gravity_wizard::layout::spawn_platforms;
use gravity_wizard::layout::split_bytes;
use gravity_wizard::layout::trim_bytes;
use gravity_wizard::physics::Velocity;

fn text(s: &str) -> Vec<u8> {
    s.as_bytes().to_vec()
}

#[test]
fn level_round_trip() {
    let data = text("Level 1;0 300 0 100,NULL;NULL;640 360");
    let ld = level_data_reader(&data).unwrap();
    assert_eq!(ld.platforms.len(), 1);
    let p = ld.platforms[0];
    assert_eq!((p.lowx, p.highx, p.lowy, p.highy), (0, 300_000, 0, 100_000));
    assert_eq!(ld.objects.len(), 0);
    assert_eq!((ld.exit.x, ld.exit.y), (640_000, 360_000));
}

#[test]
fn missing_segments_is_rejected() {
    assert_eq!(level_data_reader(&text("a;b")), Err(LevelError::MissingSegments));
    assert_eq!(level_data_reader(&text("")), Err(LevelError::MissingSegments));
}

#[test]
fn bad_number_is_rejected() {
    let data = text("h;0 x 0 100,NULL;NULL;0 0");
    assert_eq!(level_data_reader(&data), Err(LevelError::BadNumber));
    let exit_bad = text("h;NULL;NULL;0 oops");
    assert_eq!(level_data_reader(&exit_bad), Err(LevelError::BadNumber));
}

#[test]
fn wrong_field_count_is_rejected() {
    let data = text("h;0 300 0,NULL;NULL;0 0");
    assert_eq!(level_data_reader(&data), Err(LevelError::MalformedEntry));
    let exit_three = text("h;NULL;NULL;1 2 3");
    assert_eq!(level_data_reader(&exit_three), Err(LevelError::MalformedEntry));
}

#[test]
fn unordered_bounds_are_rejected() {
    let data = text("h;300 0 0 100,NULL;NULL;0 0");
    assert_eq!(level_data_reader(&data), Err(LevelError::InvalidBounds));
}

#[test]
fn oversized_coordinate_is_rejected() {
    let data = text("h;0 99999999999 0 1,NULL;NULL;0 0");
    assert_eq!(level_data_reader(&data), Err(LevelError::NumberOutOfRange));
}

#[test]
fn fractions_parse_to_milli_units() {
    let data = text("h;0 300.5 0 100,NULL;NULL;640.25 -360.125");
    let ld = level_data_reader(&data).unwrap();
    assert_eq!(ld.platforms[0].highx, 300_500);
    assert_eq!(ld.exit.x, 640_250);
    // Digits past milli precision are dropped.
    assert_eq!(ld.exit.y, -360_125);
}

#[test]
fn null_ends_the_list_early() {
    let data = text("h;0 1 0 1,NULL,2 3 2 3;NULL;0 0");
    let ld = level_data_reader(&data).unwrap();
    assert_eq!(ld.platforms.len(), 1);
}

#[test]
fn entries_are_trimmed() {
    let data = text("h; 0 300 0 100 ,\n NULL ;NULL; 640 360 ");
    let ld = level_data_reader(&data).unwrap();
    assert_eq!(ld.platforms.len(), 1);
    assert_eq!(ld.platforms[0].highx, 300_000);
    assert_eq!(ld.exit.x, 640_000);
}

#[test]
fn objects_become_resting_bodies() {
    let data = text("h;NULL;0 10 0 10,NULL;5 5");
    let ld = level_data_reader(&data).unwrap();
    assert_eq!(ld.objects.len(), 1);
    let bodies = spawn_objects(&ld.objects);
    assert_eq!(bodies.len(), 1);
    assert_eq!(bodies[0].position.x, 5_000);
    assert_eq!(bodies[0].position.y, 5_000);
    assert_eq!(bodies[0].size.width, 10_000);
    assert_eq!(bodies[0].size.height, 10_000);
    assert_eq!(bodies[0].velocity, Velocity { x: 0, y: 0 });
}

#[test]
fn platforms_render_as_center_and_size() {
    let platforms = vec![Platform { lowx: 0, highx: 300_000, lowy: 0, highy: 100_000 }];
    let rects = spawn_platforms(&platforms);
    assert_eq!(rects.len(), 1);
    assert_eq!(rects[0].0.x, 150_000);
    assert_eq!(rects[0].0.y, 50_000);
    assert_eq!(rects[0].1.width, 300_000);
    assert_eq!(rects[0].1.height, 100_000);
}

#[test]
fn parse_coord_grammar() {
    assert_eq!(parse_coord(&text("300")), Ok(300_000));
    assert_eq!(parse_coord(&text("1.5")), Ok(1_500));
    assert_eq!(parse_coord(&text("-1.5")), Ok(-1_500));
    assert_eq!(parse_coord(&text("1.2345")), Ok(1_234));
    assert_eq!(parse_coord(&text("0.07")), Ok(70));
    assert_eq!(parse_coord(&text("")), Err(LevelError::BadNumber));
    assert_eq!(parse_coord(&text("-")), Err(LevelError::BadNumber));
    assert_eq!(parse_coord(&text("300.")), Err(LevelError::BadNumber));
    assert_eq!(parse_coord(&text(".5")), Err(LevelError::BadNumber));
    assert_eq!(parse_coord(&text("1e3")), Err(LevelError::BadNumber));
    assert_eq!(parse_coord(&text("1.2.3")), Err(LevelError::BadNumber));
    assert_eq!(parse_coord(&text("2000000")), Err(LevelError::NumberOutOfRange));
    assert_eq!(parse_coord(&text("1999999")), Ok(1_999_999_000));
}

#[test]
fn split_and_trim_bytes() {
    let segs = split_bytes(&text("a;;b"), b';');
    assert_eq!(segs.len(), 3);
    assert_eq!(segs[0], text("a"));
    assert_eq!(segs[1], text(""));
    assert_eq!(segs[2], text("b"));
    assert_eq!(trim_bytes(&text("  x y\n")), text("x y"));
    assert_eq!(trim_bytes(&text("   ")), text(""));
}

#[test]
fn level_lifecycle_guards_double_load() {
    let data = text("h;0 300 0 100,NULL;NULL;640 360");
    let mut state = LevelState::Unloaded;
    assert!(load_level(&mut state, &data).is_ok());
    match &state {
        LevelState::Loaded(ld) => assert_eq!(ld.platforms.len(), 1),
        LevelState::Unloaded => panic!("level must be loaded"),
    }
    // Loading over a loaded level is rejected and changes nothing.
    assert_eq!(load_level(&mut state, &data), Err(LevelError::AlreadyLoaded));
    match &state {
        LevelState::Loaded(ld) => assert_eq!(ld.platforms.len(), 1),
        LevelState::Unloaded => panic!("level must still be loaded"),
    }
    clear_level(&mut state);
    assert!(matches!(state, LevelState::Unloaded));
    // After a clear the next load succeeds again.
    assert!(load_level(&mut state, &data).is_ok());
}

#[test]
fn failed_load_leaves_state_unloaded() {
    let mut state = LevelState::Unloaded;
    let r = load_level(&mut state, &text("h;0 bad 0 1,NULL;NULL;0 0"));
    assert_eq!(r, Err(LevelError::BadNumber));
    assert!(matches!(state, LevelState::Unloaded));
}
