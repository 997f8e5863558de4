use robot_arm::geometry::Vertex;
use robot_arm::part::{
    generate_chain, generate_claws, generate_object, generate_vertices, Chain, Claw, Object, Part,
    DEF_HEIGHT, DEF_RADIUS, DEF_THINNING, DISC_SEGMENTS,
};

#[test]
fn dimensions_have_their_values() {
    assert_eq!(DEF_RADIUS, 50_000);
    assert_eq!(DEF_THINNING, 20_000);
    assert_eq!(DEF_HEIGHT, 400_000);
    assert_eq!(DISC_SEGMENTS, 100);
}

#[test]
fn a_link_starts_with_its_wedge() {
    let (vertices, _, tip) = generate_vertices(-500_000, -400_000);
    assert_eq!(vertices.len(), 101);
    assert_eq!(vertices[0], Vertex { x: -470_000, y: 0 });
    assert_eq!(vertices[1], Vertex { x: -550_000, y: -400_000 });
    assert_eq!(vertices[2], Vertex { x: -530_000, y: 0 });
    assert_eq!(tip, Vertex { x: -500_000, y: 0 });
}

#[test]
fn a_link_goes_on_round_its_disc() {
    let (vertices, _, _) = generate_vertices(-500_000, -400_000);
    assert_eq!(vertices[3], Vertex { x: -450_886, y: -390_631 });
    assert_eq!(vertices[25], Vertex { x: -499_998, y: -350_001 });
    assert_eq!(vertices[50], Vertex { x: -549_998, y: -399_996 });
    assert_eq!(vertices[100], Vertex { x: -450_004, y: -400_008 });
}

#[test]
fn the_disc_is_round_to_a_hundred_thousandth() {
    let (vertices, _, _) = generate_vertices(250_000, 125_000);
    for (i, v) in vertices.iter().enumerate().skip(3) {
        let angle = 2.0 * std::f64::consts::PI * i as f64 / 100.0;
        let x = 250_000.0 + 50_000.0 * angle.cos();
        let y = 125_000.0 + 50_000.0 * angle.sin();
        assert!((v.x as f64 - x).abs() <= 10.0, "point {}: {:?}", i, v);
        assert!((v.y as f64 - y).abs() <= 10.0, "point {}: {:?}", i, v);
    }
}

#[test]
fn a_link_is_drawn_as_a_fan() {
    let (_, indices, _) = generate_vertices(0, 0);
    let mut expected: Vec<u32> = vec![0, 1, 2, 3];
    expected.extend(3..=100);
    assert_eq!(indices, expected);
}

#[test]
fn generate_chain_puts_the_pieces_together() {
    let (vertices, indices, tip) = generate_vertices(12, -34);
    assert_eq!(generate_chain(12, -34), Chain { vertices, indices, tip });
}

#[test]
fn a_link_at_the_edge_of_the_range_saturates() {
    let chain = generate_chain(i32::MAX, i32::MAX);
    assert_eq!(chain.tip, Vertex { x: i32::MAX, y: i32::MAX });
    assert_eq!(chain.vertices[1], Vertex { x: i32::MAX - 50_000, y: i32::MAX });
}

#[test]
fn claws_sit_above_and_below_the_wrist() {
    let wrist = Vertex { x: -100_000, y: 400_000 };
    let (claw1, claw2) = generate_claws(wrist);
    assert_eq!(
        claw1,
        Part::Claw(Claw {
            vertices: vec![
                Vertex { x: -100_000, y: 430_000 },
                Vertex { x: -90_000, y: 460_000 },
                Vertex { x: -40_000, y: 450_000 },
            ],
            tip: Vertex { x: -100_000, y: 430_000 },
        })
    );
    assert_eq!(
        claw2,
        Part::Claw(Claw {
            vertices: vec![
                Vertex { x: -100_000, y: 370_000 },
                Vertex { x: -90_000, y: 340_000 },
                Vertex { x: -40_000, y: 350_000 },
            ],
            tip: Vertex { x: -100_000, y: 370_000 },
        })
    );
}

#[test]
fn the_tip_of_a_claw_is_its_first_vertex() {
    let (claw1, claw2) = generate_claws(Vertex { x: 7, y: 9 });
    assert_eq!(claw1.get_tip(), Some(claw1.get_vertices_ref()[0]));
    assert_eq!(claw2.get_tip(), Some(claw2.get_vertices_ref()[0]));
}

#[test]
fn generate_object_keeps_the_outline() {
    let outline = vec![Vertex { x: 1, y: 2 }, Vertex { x: 3, y: 4 }, Vertex { x: 5, y: 6 }];
    assert_eq!(generate_object(outline.clone()), Object { vertices: outline });
}

#[test]
fn an_object_has_no_tip() {
    let object = Part::Object(generate_object(vec![Vertex { x: 1, y: 2 }]));
    assert_eq!(object.get_tip(), None);
    assert_eq!(object.get_vertices_ref(), &vec![Vertex { x: 1, y: 2 }]);
}

#[test]
fn links_and_claws_have_a_tip() {
    let chain = Part::Chain(generate_chain(0, 0));
    assert_eq!(chain.get_tip(), Some(Vertex { x: 0, y: 400_000 }));
    assert_eq!(chain.get_vertices_ref().len(), 101);
}

#[test]
fn get_vertices_hands_out_the_outline_itself() {
    let mut object = Part::Object(generate_object(vec![Vertex { x: 1, y: 2 }]));
    object.get_vertices().push(Vertex { x: 3, y: 4 });
    object.get_vertices()[0] = Vertex { x: 0, y: 0 };
    assert_eq!(object.get_vertices_ref(), &vec![Vertex { x: 0, y: 0 }, Vertex { x: 3, y: 4 }]);
    let (mut claw, _) = generate_claws(Vertex { x: 0, y: 0 });
    claw.get_vertices().clear();
    assert!(claw.get_vertices_ref().is_empty());
    assert_eq!(claw.get_tip(), Some(Vertex { x: 0, y: 30_000 }));
}
