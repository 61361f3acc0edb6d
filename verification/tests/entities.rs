use landsknecht::collisions::CollisionEvent;
use landsknecht::components::maintain_previous_transform;
use landsknecht::components::CollisionShape;
use landsknecht::components::Layer;
use landsknecht::components::LayerSet;
use landsknecht::components::PrevTransform;
use landsknecht::components::RigidBody;
use landsknecht::components::Transform;
use landsknecht::input::KeySet;
use landsknecht::movement::RayAnswer;
use landsknecht::player::run_tick;
use landsknecht::player::spawn_player;
use landsknecht::units::Coord;
use landsknecht::units::Vec2;

#[test]
fn spawned_player_record() {
    let b = spawn_player();
    assert_eq!(b.player.speed, 5);
    assert_eq!(
        b.transform.translation,
        Vec2 { x: Coord { base: 0, diag: 0 }, y: Coord { base: 0, diag: 0 } }
    );
    assert_eq!(b.transform.z, 900);
    assert_eq!(b.rigid_body, RigidBody::Dynamic);
    assert_eq!(b.shape, CollisionShape::Sphere { radius: 5000 });
    assert!(b.layers.groups.player && b.layers.groups.unit);
    assert!(!b.layers.groups.obstacle && !b.layers.groups.bullet);
    assert!(b.layers.masks.player && b.layers.masks.obstacle);
    assert!(b.layers.masks.unit && b.layers.masks.bullet);
    assert_eq!(b.active.len(), 0);
    assert_eq!(b.sprite_index, 27);
    assert_eq!(b.prev.0.z, 0);
}

#[test]
fn previous_transform_snapshots_current() {
    let current = Transform {
        translation: Vec2 { x: Coord { base: 42, diag: -7 }, y: Coord { base: 0, diag: 9 } },
        z: 900,
    };
    let mut prev = PrevTransform(Transform {
        translation: Vec2 { x: Coord { base: 0, diag: 0 }, y: Coord { base: 0, diag: 0 } },
        z: 0,
    });
    maintain_previous_transform(&current, &mut prev);
    assert_eq!(prev.0, current);
}

#[test]
fn layer_set_membership() {
    let s = LayerSet { player: true, obstacle: false, unit: true, bullet: false };
    let all = LayerSet::all();
    let none = LayerSet::none();
    for l in [Layer::Player, Layer::Obstacle, Layer::Unit, Layer::Bullet] {
        let held = match l {
            Layer::Player => s.player,
            Layer::Obstacle => s.obstacle,
            Layer::Unit => s.unit,
            Layer::Bullet => s.bullet,
        };
        let in_all = match l {
            Layer::Player => all.player,
            Layer::Obstacle => all.obstacle,
            Layer::Unit => all.unit,
            Layer::Bullet => all.bullet,
        };
        let in_none = match l {
            Layer::Player => none.player,
            Layer::Obstacle => none.obstacle,
            Layer::Unit => none.unit,
            Layer::Bullet => none.bullet,
        };
        assert_eq!(held, matches!(l, Layer::Player | Layer::Unit));
        assert!(in_all);
        assert!(!in_none);
    }
}

#[test]
fn full_tick_pipeline() {
    let mut b = spawn_player();
    let before = b.transform;
    let keys = KeySet { d: true, ..KeySet::empty() };
    let answers = vec![RayAnswer::Miss, RayAnswer::Miss, RayAnswer::Miss];
    let events = vec![CollisionEvent::Started(1, 7)];
    let r = run_tick(&mut b, 1, &keys, 100, &answers, &events);
    // Previous transform snapshots the pre-tick placement; the player
    // moved one step east; the start event is tracked.
    assert_eq!(b.prev.0, before);
    assert_eq!(r.probes, 1);
    assert_eq!(b.transform.translation.x, Coord { base: 2500, diag: 0 });
    assert_eq!(b.transform.z, 900);
    assert!(b.active.is_touching(7));
    assert_eq!(b.active.len(), 1);
}

#[test]
fn coordinates_add_componentwise() {
    let a = Coord { base: 100, diag: -50 };
    let b = Coord { base: -30, diag: 20 };
    assert_eq!(a.plus(b), Coord { base: 70, diag: -30 });
    let v = Vec2 { x: a, y: b };
    let d = Vec2 { x: Coord { base: 1, diag: 2 }, y: Coord { base: 3, diag: 4 } };
    assert_eq!(
        v.translate(d),
        Vec2 { x: Coord { base: 101, diag: -48 }, y: Coord { base: -27, diag: 24 } }
    );
}
