use gravity_wizard::physics::Gravity;
use gravity_wizard::physics::GravityDirection;
use gravity_wizard::physics::Velocity;
use gravity_wizard::wizard::WIZARD_SIZE;
use gravity_wizard::wizard::despawn_wizard;
use gravity_wizard::wizard::spawn_wizard;
use gravity_wizard::wizard::wizard_input;

#[test]
fn input_accelerates_toward_held_side() {
    let mut v = Velocity { x: 0, y: 7 };
    wizard_input(&mut v, false, true);
    assert_eq!(v.x, 4_000);
    assert_eq!(v.y, 7);
    wizard_input(&mut v, true, false);
    // Braking out of opposite motion is twice as hard.
    assert_eq!(v.x, -4_000);
}

#[test]
fn input_decays_toward_rest_without_keys() {
    let mut v = Velocity { x: 10_000, y: 0 };
    wizard_input(&mut v, false, false);
    assert_eq!(v.x, 6_000);
    let mut w = Velocity { x: -10_000, y: 0 };
    wizard_input(&mut w, false, false);
    assert_eq!(w.x, -6_000);
    let mut rest = Velocity { x: 0, y: 0 };
    wizard_input(&mut rest, false, false);
    assert_eq!(rest.x, 0);
}

#[test]
fn contradictory_keys_decay_like_no_keys() {
    let mut v = Velocity { x: 10_000, y: 0 };
    wizard_input(&mut v, true, true);
    assert_eq!(v.x, 6_000);
}

#[test]
fn input_clamps_to_horizontal_cap() {
    let mut v = Velocity { x: 249_000, y: 0 };
    wizard_input(&mut v, false, true);
    assert_eq!(v.x, 250_000);
    wizard_input(&mut v, false, true);
    assert_eq!(v.x, 250_000);
    let mut w = Velocity { x: -249_000, y: 0 };
    wizard_input(&mut w, true, false);
    assert_eq!(w.x, -250_000);
    assert!(v.x.abs() <= 250_000 && w.x.abs() <= 250_000);
}

#[test]
fn spawn_resets_state_and_gravity() {
    let mut g = Gravity(GravityDirection::Up);
    let w = spawn_wizard(1_280_000, 720_000, &mut g);
    assert_eq!(g.0, GravityDirection::Down);
    assert_eq!(w.body.position.x, 1_280_000 / 6);
    assert_eq!(w.body.position.y, 720_000 / 5);
    assert_eq!(w.body.velocity, Velocity { x: 0, y: 0 });
    assert_eq!(w.body.size.width, WIZARD_SIZE);
    assert_eq!(w.body.size.height, WIZARD_SIZE);
}

#[test]
fn despawn_removes_the_player() {
    let mut g = Gravity(GravityDirection::Down);
    let mut slot = Some(spawn_wizard(1_280_000, 720_000, &mut g));
    despawn_wizard(&mut slot);
    assert!(slot.is_none());
}
