use robot_arm::geometry::Vertex;
use robot_arm::gravity::{apply_gravity, is_airborne, next_fall, settle, GRAVITY_STEP, GROUND};
use robot_arm::part::{Claw, Object, Part};

fn square(x: i32, y: i32) -> Part {
    Part::Object(Object {
        vertices: vec![
            Vertex { x, y },
            Vertex { x: x + 50_000, y },
            Vertex { x: x + 50_000, y: y + 50_000 },
            Vertex { x, y: y + 50_000 },
        ],
    })
}

fn reference_height(part: &Part) -> i32 {
    part.get_vertices_ref()[0].y
}

#[test]
fn ground_and_step_have_their_values() {
    assert_eq!(GROUND, -430_000);
    assert_eq!(GRAVITY_STEP, 10_000);
}

#[test]
fn one_tick_lowers_every_vertex_by_a_step() {
    let mut object = square(100_000, -200_000);
    let updated = apply_gravity(&mut object);
    assert_eq!(object, square(100_000, -210_000));
    assert_eq!(&updated, object.get_vertices_ref());
}

#[test]
fn free_fall_reaches_the_ground_in_time() {
    let mut object = square(100_000, -200_000);
    let ticks = (-200_000 - GROUND) / GRAVITY_STEP;
    assert_eq!(ticks, 23);
    for tick in 1..=ticks {
        assert!(is_airborne(object.get_vertices_ref()));
        apply_gravity(&mut object);
        assert_eq!(reference_height(&object), -200_000 - tick * GRAVITY_STEP);
    }
    assert_eq!(reference_height(&object), GROUND);
    assert!(!is_airborne(object.get_vertices_ref()));
}

#[test]
fn free_fall_does_not_pass_the_ground() {
    let mut object = square(100_000, -200_000);
    for _ in 0..23 {
        apply_gravity(&mut object);
    }
    let at_rest = square(100_000, GROUND);
    assert_eq!(object, at_rest);
    for _ in 0..10 {
        apply_gravity(&mut object);
        assert_eq!(object, at_rest);
    }
}

#[test]
fn the_last_step_is_cut_short() {
    let mut object = square(0, GROUND + 14_999);
    assert_eq!(next_fall(object.get_vertices_ref()), 10_000);
    apply_gravity(&mut object);
    assert_eq!(reference_height(&object), GROUND + 4_999);
    assert_eq!(next_fall(object.get_vertices_ref()), 4_999);
    apply_gravity(&mut object);
    assert_eq!(object, square(0, GROUND));
    assert_eq!(next_fall(object.get_vertices_ref()), 0);
}

#[test]
fn an_object_below_the_ground_stays() {
    let mut object = square(150_000, -450_000);
    assert!(!is_airborne(object.get_vertices_ref()));
    apply_gravity(&mut object);
    assert_eq!(object, square(150_000, -450_000));
}

#[test]
fn the_first_vertex_decides() {
    let mut object = Part::Object(Object {
        vertices: vec![
            Vertex { x: 0, y: GROUND },
            Vertex { x: 10, y: 500_000 },
            Vertex { x: 20, y: -900_000 },
        ],
    });
    assert!(!is_airborne(object.get_vertices_ref()));
    settle(&mut object);
    assert_eq!(object.get_vertices_ref()[1].y, 500_000);
    let mut object = Part::Object(Object {
        vertices: vec![Vertex { x: 0, y: GROUND + 3 }, Vertex { x: 20, y: -900_000 }],
    });
    assert!(is_airborne(object.get_vertices_ref()));
    settle(&mut object);
    assert_eq!(
        object.get_vertices_ref(),
        &vec![Vertex { x: 0, y: GROUND }, Vertex { x: 20, y: -900_003 }]
    );
}

#[test]
fn an_empty_outline_does_not_fall() {
    let mut object = Part::Object(Object { vertices: vec![] });
    assert!(!is_airborne(object.get_vertices_ref()));
    assert_eq!(next_fall(object.get_vertices_ref()), 0);
    let updated = apply_gravity(&mut object);
    assert!(updated.is_empty());
}

#[test]
fn a_tip_falls_with_its_part() {
    let tip = Vertex { x: 5, y: 0 };
    let mut claw = Part::Claw(Claw {
        vertices: vec![tip, Vertex { x: 15, y: 30 }, Vertex { x: 65, y: 20 }],
        tip,
    });
    apply_gravity(&mut claw);
    assert_eq!(claw.get_tip(), Some(Vertex { x: 5, y: -10_000 }));
    assert_eq!(claw.get_vertices_ref()[0], Vertex { x: 5, y: -10_000 });
}

#[test]
fn falling_saturates_at_the_bottom_of_the_range() {
    let mut object = Part::Object(Object {
        vertices: vec![Vertex { x: 0, y: 0 }, Vertex { x: 0, y: i32::MIN + 1 }],
    });
    apply_gravity(&mut object);
    assert_eq!(
        object.get_vertices_ref(),
        &vec![Vertex { x: 0, y: -10_000 }, Vertex { x: 0, y: i32::MIN }]
    );
}
