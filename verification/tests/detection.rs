use pixie::components::BodyType;
use pixie::scalar::Scalar;
use pixie::systems::detection::{
    axis_direction, detect_box_box, detect_box_circle, detect_circle_box, detect_circle_circle,
    detect_collision, detect_collisions, flipped, pair_contact,
};
use pixie::systems::{ColliderType, CollisionInfo, EntityCollisionData};

fn s(micros: i64) -> Scalar {
    Scalar::from_micros(micros)
}

fn circle(entity: u64, x: i64, y: i64, radius: i64, body_type: BodyType) -> EntityCollisionData {
    EntityCollisionData {
        entity,
        position: [s(x), s(y)],
        mass: s(1_000_000),
        restitution: s(500_000),
        body_type,
        collider: ColliderType::Circle { radius: s(radius) },
    }
}

fn boxed(entity: u64, x: i64, y: i64, w: i64, h: i64, body_type: BodyType) -> EntityCollisionData {
    EntityCollisionData {
        entity,
        position: [s(x), s(y)],
        mass: s(2_000_000),
        restitution: s(900_000),
        body_type,
        collider: ColliderType::Box { width: s(w), height: s(h) },
    }
}

fn normal_points_from_first_to_second(
    c: &CollisionInfo,
    a: &EntityCollisionData,
    b: &EntityCollisionData,
) -> bool {
    let dx = b.position[0].raw - a.position[0].raw;
    let dy = b.position[1].raw - a.position[1].raw;
    c.normal[0].raw * dx >= 0 && c.normal[1].raw * dy >= 0
}

#[test]
fn overlapping_circles_give_one_contact() {
    let a = circle(1, 0, 0, 500_000, BodyType::Dynamic);
    let b = circle(2, 900_000, 0, 500_000, BodyType::Dynamic);
    let contacts = detect_collisions(&vec![a, b]);
    assert_eq!(contacts.len(), 1);
    let c = contacts[0];
    assert_eq!(c.penetration, s(100_000));
    assert_eq!(c.normal, [s(1_000_000), s(0)]);
    assert_eq!(c.contact_point, [s(500_000), s(0)]);
    assert_eq!((c.entity1, c.entity2), (1, 2));
    assert_eq!((c.mass1, c.mass2), (s(1_000_000), s(1_000_000)));
    assert_eq!(c.restitution, s(500_000));
    assert_eq!((c.body_type1, c.body_type2), (BodyType::Dynamic, BodyType::Dynamic));
}

#[test]
fn separated_circles_give_no_contact() {
    let a = circle(1, 0, 0, 500_000, BodyType::Dynamic);
    let b = circle(2, 1_100_000, 0, 500_000, BodyType::Dynamic);
    assert_eq!(detect_collisions(&vec![a, b]).len(), 0);
    assert!(detect_circle_circle(&a, &b, s(500_000), s(500_000)).is_none());
}

#[test]
fn touching_circles_give_no_contact() {
    let a = circle(1, 0, 0, 500_000, BodyType::Dynamic);
    let b = circle(2, 1_000_000, 0, 500_000, BodyType::Dynamic);
    assert!(detect_circle_circle(&a, &b, s(500_000), s(500_000)).is_none());
}

#[test]
fn coincident_circles_give_no_contact() {
    let a = circle(1, 250_000, -750_000, 500_000, BodyType::Dynamic);
    let b = circle(2, 250_000, -750_000, 500_000, BodyType::Dynamic);
    assert!(detect_circle_circle(&a, &b, s(500_000), s(500_000)).is_none());
    // 0.003 apart: squared distance 9e-6 is not above the threshold of 1e-5
    let c = circle(3, 253_000, -750_000, 500_000, BodyType::Dynamic);
    assert!(detect_circle_circle(&a, &c, s(500_000), s(500_000)).is_none());
    // 0.0032 apart: squared distance 1.024e-5 is above it
    let d = circle(4, 253_200, -750_000, 500_000, BodyType::Dynamic);
    assert!(detect_circle_circle(&a, &d, s(500_000), s(500_000)).is_some());
}

#[test]
fn oblique_circles_round_toward_zero() {
    let a = circle(1, 0, 0, 500_000, BodyType::Dynamic);
    let b = circle(2, 600_000, 700_000, 500_000, BodyType::Static);
    let c = detect_circle_circle(&a, &b, s(500_000), s(500_000)).unwrap();
    assert_eq!(c.normal, [s(650_791), s(759_256)]);
    assert_eq!(c.penetration, s(78_046));
    assert_eq!(c.contact_point, [s(325_395), s(379_628)]);
    assert_eq!(c.body_type2, BodyType::Static);
}

#[test]
fn restitution_of_a_contact_is_the_smaller_one() {
    let mut a = circle(1, 0, 0, 500_000, BodyType::Dynamic);
    let mut b = circle(2, 900_000, 0, 500_000, BodyType::Dynamic);
    a.restitution = s(200_000);
    b.restitution = s(700_000);
    assert_eq!(detect_collision(&a, &b).unwrap().restitution, s(200_000));
    assert_eq!(detect_collision(&b, &a).unwrap().restitution, s(200_000));
}

#[test]
fn circle_above_a_box_touches_its_top() {
    let ball = circle(1, 0, 900_000, 500_000, BodyType::Dynamic);
    let floor = boxed(2, 0, 0, 2_000_000, 1_000_000, BodyType::Static);
    let c = detect_circle_box(&ball, &floor, s(500_000), s(2_000_000), s(1_000_000)).unwrap();
    assert_eq!(c.normal, [s(0), s(-1_000_000)]);
    assert_eq!(c.penetration, s(100_000));
    assert_eq!(c.contact_point, [s(0), s(500_000)]);
    assert_eq!((c.entity1, c.entity2), (1, 2));
    assert_eq!((c.mass1, c.mass2), (s(1_000_000), s(2_000_000)));
    assert_eq!(c.restitution, s(500_000));
    assert!(normal_points_from_first_to_second(&c, &ball, &floor));
}

#[test]
fn circle_beyond_reach_of_a_box_gives_no_contact() {
    let ball = circle(1, 0, 1_000_000, 500_000, BodyType::Dynamic);
    let floor = boxed(2, 0, 0, 2_000_000, 1_000_000, BodyType::Static);
    assert!(detect_circle_box(&ball, &floor, s(500_000), s(2_000_000), s(1_000_000)).is_none());
    let corner = circle(3, 1_400_000, 900_000, 500_000, BodyType::Dynamic);
    assert!(detect_circle_box(&corner, &floor, s(500_000), s(2_000_000), s(1_000_000)).is_none());
}

#[test]
fn circle_centre_inside_a_box_leaves_along_the_axis_of_least_overlap() {
    let floor = boxed(2, 0, 0, 2_000_000, 1_000_000, BodyType::Static);
    let ball = circle(1, 200_000, 100_000, 500_000, BodyType::Dynamic);
    let c = detect_circle_box(&ball, &floor, s(500_000), s(2_000_000), s(1_000_000)).unwrap();
    // overlap 0.8 along x, 0.4 along y: the circle leaves upward, so the normal points down
    assert_eq!(c.normal, [s(0), s(-1_000_000)]);
    assert_eq!(c.penetration, s(900_000));
    assert_eq!(c.contact_point, [s(200_000), s(100_000)]);
    assert!(normal_points_from_first_to_second(&c, &ball, &floor));

    let tall = boxed(3, 0, 0, 2_000_000, 4_000_000, BodyType::Static);
    let left = circle(4, -800_000, 0, 500_000, BodyType::Dynamic);
    let c = detect_circle_box(&left, &tall, s(500_000), s(2_000_000), s(4_000_000)).unwrap();
    assert_eq!(c.normal, [s(1_000_000), s(0)]);
    assert_eq!(c.penetration, s(700_000));
    assert!(normal_points_from_first_to_second(&c, &left, &tall));
}

#[test]
fn box_against_circle_is_the_flipped_contact() {
    let ball = circle(1, 0, 900_000, 500_000, BodyType::Dynamic);
    let floor = boxed(2, 0, 0, 2_000_000, 1_000_000, BodyType::Static);
    let c = detect_box_circle(&floor, &ball, s(2_000_000), s(1_000_000), s(500_000)).unwrap();
    assert_eq!((c.entity1, c.entity2), (2, 1));
    assert_eq!(c.normal, [s(0), s(1_000_000)]);
    assert_eq!(c.penetration, s(100_000));
    assert_eq!((c.mass1, c.mass2), (s(2_000_000), s(1_000_000)));
    assert_eq!((c.body_type1, c.body_type2), (BodyType::Static, BodyType::Dynamic));
    assert!(normal_points_from_first_to_second(&c, &floor, &ball));
    let direct = detect_circle_box(&ball, &floor, s(500_000), s(2_000_000), s(1_000_000)).unwrap();
    assert_eq!(c, flipped(direct));
    assert_eq!(flipped(c), direct);
}

#[test]
fn overlapping_boxes_separate_along_the_axis_of_least_overlap() {
    let a = boxed(1, 0, 0, 2_000_000, 2_000_000, BodyType::Dynamic);
    let b = boxed(2, 1_500_000, 500_000, 2_000_000, 2_000_000, BodyType::Dynamic);
    let c = detect_box_box(&a, &b, s(2_000_000), s(2_000_000), s(2_000_000), s(2_000_000))
        .unwrap();
    assert_eq!(c.normal, [s(1_000_000), s(0)]);
    assert_eq!(c.penetration, s(500_000));
    assert_eq!(c.contact_point, [s(750_000), s(250_000)]);
    assert!(normal_points_from_first_to_second(&c, &a, &b));

    let above = boxed(3, 200_000, 1_800_000, 2_000_000, 2_000_000, BodyType::Dynamic);
    let c = detect_box_box(&above, &a, s(2_000_000), s(2_000_000), s(2_000_000), s(2_000_000))
        .unwrap();
    assert_eq!(c.normal, [s(0), s(-1_000_000)]);
    assert_eq!(c.penetration, s(200_000));
    assert!(normal_points_from_first_to_second(&c, &above, &a));
}

#[test]
fn touching_boxes_overlap_by_zero_and_apart_boxes_do_not() {
    let a = boxed(1, 0, 0, 2_000_000, 2_000_000, BodyType::Dynamic);
    let b = boxed(2, 2_000_000, 0, 2_000_000, 2_000_000, BodyType::Dynamic);
    let c = detect_box_box(&a, &b, s(2_000_000), s(2_000_000), s(2_000_000), s(2_000_000))
        .unwrap();
    assert_eq!(c.penetration, s(0));
    let far = boxed(3, 2_000_001, 0, 2_000_000, 2_000_000, BodyType::Dynamic);
    assert!(
        detect_box_box(&a, &far, s(2_000_000), s(2_000_000), s(2_000_000), s(2_000_000)).is_none()
    );
}

#[test]
fn axis_direction_is_plus_one_only_below() {
    assert_eq!(axis_direction(s(1), s(2)), s(1_000_000));
    assert_eq!(axis_direction(s(2), s(1)), s(-1_000_000));
    assert_eq!(axis_direction(s(2), s(2)), s(-1_000_000));
}

#[test]
fn dispatch_follows_the_shapes() {
    let ball = circle(1, 0, 900_000, 500_000, BodyType::Dynamic);
    let floor = boxed(2, 0, 0, 2_000_000, 1_000_000, BodyType::Static);
    assert_eq!(
        detect_collision(&ball, &floor),
        detect_circle_box(&ball, &floor, s(500_000), s(2_000_000), s(1_000_000))
    );
    assert_eq!(
        detect_collision(&floor, &ball),
        detect_box_circle(&floor, &ball, s(2_000_000), s(1_000_000), s(500_000))
    );
    let other = boxed(3, 500_000, 0, 2_000_000, 1_000_000, BodyType::Dynamic);
    assert_eq!(
        detect_collision(&floor, &other),
        detect_box_box(&floor, &other, s(2_000_000), s(1_000_000), s(2_000_000), s(1_000_000))
    );
}

#[test]
fn pairs_without_a_dynamic_body_are_not_tested() {
    let a = circle(1, 0, 0, 500_000, BodyType::Static);
    let b = circle(2, 900_000, 0, 500_000, BodyType::Static);
    assert!(pair_contact(&a, &b).is_none());
    let k = circle(3, 900_000, 0, 500_000, BodyType::Kinematic);
    assert!(pair_contact(&a, &k).is_none());
    assert!(pair_contact(&k, &k).is_none());
    let near = circle(5, 1_700_000, 0, 500_000, BodyType::Kinematic);
    assert!(pair_contact(&k, &near).is_none());
    let d = circle(4, 900_000, 0, 500_000, BodyType::Dynamic);
    assert!(pair_contact(&a, &d).is_some());
    assert!(pair_contact(&d, &near).is_some());
    assert!(pair_contact(&near, &d).is_some());
    assert_eq!(detect_collisions(&vec![a, b, k]).len(), 0);
}

#[test]
fn contacts_come_in_pair_order() {
    let a = circle(10, 0, 0, 500_000, BodyType::Dynamic);
    let b = circle(20, 900_000, 0, 500_000, BodyType::Dynamic);
    let c = circle(30, 450_000, 700_000, 500_000, BodyType::Dynamic);
    let far = circle(40, 9_000_000, 0, 500_000, BodyType::Dynamic);
    let contacts = detect_collisions(&vec![a, far, b, c]);
    let pairs: Vec<(u64, u64)> = contacts.iter().map(|c| (c.entity1, c.entity2)).collect();
    assert_eq!(pairs, vec![(10, 20), (10, 30), (20, 30)]);
    assert_eq!(detect_collisions(&vec![]).len(), 0);
    assert_eq!(detect_collisions(&vec![a]).len(), 0);
}
