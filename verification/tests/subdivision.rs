use universim::error::GeometryError;
use universim::model::{next_generation, Cube, Event, MouseButton, Space};
use universim::offsets::{keep, CHILD_COUNT, POSITION_COUNT};
use universim::subdivision::{BIAS, DIVISOR};
use universim::utils::create_wireframe;

const KEPT: [(i64, i64, i64); 20] = [
    (-1, -1, -1),
    (-1, -1, 0),
    (-1, -1, 1),
    (-1, 0, -1),
    (-1, 0, 1),
    (-1, 1, -1),
    (-1, 1, 0),
    (-1, 1, 1),
    (0, -1, -1),
    (0, -1, 1),
    (0, 1, -1),
    (0, 1, 1),
    (1, -1, -1),
    (1, -1, 0),
    (1, -1, 1),
    (1, 0, -1),
    (1, 0, 1),
    (1, 1, -1),
    (1, 1, 0),
    (1, 1, 1),
];

fn root() -> Cube {
    Cube::new(0, 0, 0, 500).unwrap()
}

fn numbers(c: &Cube) -> [i64; 5] {
    [c.x(), c.y(), c.z(), c.len(), c.scale()]
}

fn in_units(steps: i64, scale: i64) -> f64 {
    steps as f64 / scale as f64
}

fn close(a: f64, b: f64) -> bool {
    (a - b).abs() < 1e-9
}

/// The position of a child in its parent, read back from the two centres:
/// the bias is taken off, and what is left is counted in child lengths.
fn position_of(child: &Cube, parent: &Cube) -> (i64, i64, i64) {
    let along = |c: i64, p: i64| -> i64 {
        let moved: i64 = c - DIVISOR * p - DIVISOR * BIAS * parent.scale();
        assert_eq!(moved % parent.len(), 0);
        moved / parent.len()
    };
    (along(child.x(), parent.x()), along(child.y(), parent.y()), along(child.z(), parent.z()))
}

fn same(a: &Cube, b: &Cube) -> bool {
    numbers(a) == numbers(b) && a.cuboid() == b.cuboid() && a.wireframe() == b.wireframe()
}

#[test]
fn keep_rule_drops_the_middle_and_the_face_centres() {
    assert!(!keep(0, 0, 0));
    assert!(!keep(1, 0, 0));
    assert!(!keep(-1, 0, 0));
    assert!(!keep(0, 1, 0));
    assert!(!keep(0, -1, 0));
    assert!(!keep(0, 0, 1));
    assert!(!keep(0, 0, -1));
    assert!(keep(1, 1, 0));
    assert!(keep(-1, 0, 1));
    assert!(keep(0, -1, -1));
    assert!(keep(1, 1, 1));
    assert!(keep(-1, -1, -1));
}

#[test]
fn keep_rule_keeps_twenty_of_twenty_seven() {
    let mut visited: usize = 0;
    let mut kept: Vec<(i64, i64, i64)> = Vec::new();
    for x in -1i64..2i64 {
        for y in -1i64..2i64 {
            for z in -1i64..2i64 {
                visited += 1;
                if keep(x, y, z) {
                    kept.push((x, y, z));
                }
            }
        }
    }
    assert_eq!(visited, POSITION_COUNT);
    assert_eq!(kept.len(), CHILD_COUNT);
    assert_eq!(kept, KEPT.to_vec());
}

#[test]
fn keep_rule_goes_by_the_manhattan_norm() {
    assert!(keep(2, 0, 0));
    assert!(keep(0, 0, -2));
    assert!(keep(i64::MIN, 0, 0));
    assert!(keep(i64::MAX, i64::MAX, i64::MAX));
    assert!(keep(i64::MIN, i64::MIN, i64::MIN));
}

#[test]
fn new_cube_has_its_box_and_its_wireframe() {
    let c = Cube::new(1, 2, 3, 8).unwrap();
    assert_eq!(numbers(&c), [1, 2, 3, 8, 1]);
    let b = c.cuboid();
    assert_eq!([b.x(), b.y(), b.z(), b.w(), b.h(), b.d(), b.scale()], [1, 2, 3, 8, 8, 8, 1]);
    assert_eq!(c.wireframe().len(), 12);
    assert_eq!(c.wireframe().to_vec(), create_wireframe(&b).unwrap());
    let first = c.wireframe()[0];
    assert_eq!(
        [first.x(), first.y(), first.z(), first.w(), first.h(), first.d(), first.scale()],
        [-6, 12, 6, 2, 2, 16, 2]
    );
}

#[test]
fn cube_on_a_finer_lattice() {
    let c = Cube::with_scale(-470, -470, -470, 500, 3).unwrap();
    assert_eq!(numbers(&c), [-470, -470, -470, 500, 3]);
    assert_eq!(c.cuboid().scale(), 3);
    assert_eq!(c.wireframe()[0].scale(), 6);
    assert_eq!(c.wireframe()[0].x(), -1440);
    assert_eq!(c.wireframe()[0].w(), 6);
    assert_eq!(c.wireframe()[0].d(), 1000);
}

#[test]
fn cube_refuses_a_length_that_is_not_positive() {
    assert_eq!(Cube::new(0, 0, 0, 0).err(), Some(GeometryError::NonPositiveExtent));
    assert_eq!(Cube::new(0, 0, 0, -500).err(), Some(GeometryError::NonPositiveExtent));
    assert_eq!(Cube::with_scale(0, 0, 0, 0, 3).err(), Some(GeometryError::NonPositiveExtent));
    assert!(Cube::new(0, 0, 0, 1).is_ok());
}

#[test]
fn cube_refuses_a_scale_that_is_not_positive() {
    assert_eq!(Cube::with_scale(0, 0, 0, 5, 0).err(), Some(GeometryError::NonPositiveScale));
    assert_eq!(Cube::with_scale(0, 0, 0, 5, -1).err(), Some(GeometryError::NonPositiveScale));
    assert_eq!(Cube::with_scale(0, 0, 0, 0, 0).err(), Some(GeometryError::NonPositiveScale));
}

#[test]
fn cube_refuses_what_does_not_fit() {
    assert_eq!(Cube::new(i64::MAX, 0, 0, 1).err(), Some(GeometryError::Overflow));
    assert_eq!(Cube::new(0, 0, 0, i64::MAX).err(), Some(GeometryError::Overflow));
    assert_eq!(Cube::with_scale(0, 0, 0, 1, i64::MAX).err(), Some(GeometryError::Overflow));
}

#[test]
fn root_cube_has_a_corner_child_at_minus_one_minus_one_minus_one() {
    let parent = root();
    let children = parent.generate().unwrap();
    let c = &children[0];
    // 3 * 0 + (-1) * 500 + 3 * 10 * 1 steps of a third of a unit
    assert_eq!(numbers(c), [-470, -470, -470, 500, 3]);
    let third: f64 = 500.0 / 3.0;
    let bias: f64 = 10.0;
    assert!(close(in_units(c.x(), c.scale()), 0.0 + -1.0 * third + bias));
    assert!(close(in_units(c.y(), c.scale()), 0.0 + -1.0 * third + bias));
    assert!(close(in_units(c.z(), c.scale()), 0.0 + -1.0 * third + bias));
    assert!(close(in_units(c.len(), c.scale()), third));
    assert!(close(in_units(c.x(), c.scale()), -156.66666666666666));
    assert!(close(in_units(c.len(), c.scale()), 166.66666666666666));
}

#[test]
fn generate_gives_twenty_children_a_third_as_long() {
    let parent = Cube::new(7, -8, 9, 60).unwrap();
    let children = parent.generate().unwrap();
    assert_eq!(children.len(), 20);
    assert_eq!(children.len(), CHILD_COUNT);
    for c in children.iter() {
        assert_eq!(c.len(), 60);
        assert_eq!(c.scale(), 3);
        assert_eq!(in_units(c.len(), c.scale()), 20.0);
    }
}

#[test]
fn generate_places_children_in_visiting_order() {
    let parent = Cube::new(7, -8, 9, 60).unwrap();
    let children = parent.generate().unwrap();
    assert_eq!(children.len(), KEPT.len());
    for (c, (ox, oy, oz)) in children.iter().zip(KEPT.iter()) {
        // in steps of a third: 3 * centre + offset * 60 + 30
        assert_eq!(c.x(), 3 * 7 + ox * 60 + 30);
        assert_eq!(c.y(), 3 * -8 + oy * 60 + 30);
        assert_eq!(c.z(), 3 * 9 + oz * 60 + 30);
        // in units: centre + offset * 20 + 10
        assert_eq!(in_units(c.x(), c.scale()), (7 + ox * 20 + 10) as f64);
        assert_eq!(in_units(c.y(), c.scale()), (-8 + oy * 20 + 10) as f64);
        assert_eq!(in_units(c.z(), c.scale()), (9 + oz * 20 + 10) as f64);
    }
    assert_eq!(numbers(&children[0]), [-9, -54, -3, 60, 3]);
    assert_eq!(numbers(&children[19]), [111, 66, 117, 60, 3]);
    assert_eq!(numbers(&children[8]), [51, -54, -3, 60, 3]);
}

#[test]
fn generate_uses_each_position_of_norm_above_one_once() {
    let parent = root();
    let children = parent.generate().unwrap();
    let mut used: Vec<(i64, i64, i64)> =
        children.iter().map(|c| position_of(c, &parent)).collect();
    assert_eq!(used, KEPT.to_vec());
    used.sort();
    used.dedup();
    assert_eq!(used.len(), 20);
    let mut wanted: Vec<(i64, i64, i64)> = Vec::new();
    for x in -1i64..2i64 {
        for y in -1i64..2i64 {
            for z in -1i64..2i64 {
                if x.abs() + y.abs() + z.abs() > 1 {
                    wanted.push((x, y, z));
                }
            }
        }
    }
    wanted.sort();
    assert_eq!(used, wanted);
    assert!(!used.contains(&(0, 0, 0)));
    for face in [(1, 0, 0), (-1, 0, 0), (0, 1, 0), (0, -1, 0), (0, 0, 1), (0, 0, -1)] {
        assert!(!used.contains(&face));
    }
}

#[test]
fn generate_gives_eight_corners_and_twelve_edge_middles() {
    let parent = root();
    let children = parent.generate().unwrap();
    let mut corners: usize = 0;
    let mut edges: usize = 0;
    for c in children.iter() {
        let (ox, oy, oz) = position_of(c, &parent);
        let norm: i64 = ox.abs() + oy.abs() + oz.abs();
        if norm == 3 {
            corners += 1;
        } else if norm == 2 {
            edges += 1;
        }
        // the cell of the partition in thirds, moved by the bias of 10 on every axis
        let third: f64 = 500.0 / 3.0;
        assert!(close(in_units(c.x(), c.scale()), ox as f64 * third + 10.0));
        assert!(close(in_units(c.y(), c.scale()), oy as f64 * third + 10.0));
        assert!(close(in_units(c.z(), c.scale()), oz as f64 * third + 10.0));
        // without the bias the child lies within the parent
        for centre in [c.x(), c.y(), c.z()] {
            let middle: f64 = in_units(centre, c.scale()) - 10.0;
            assert!(middle - third / 2.0 >= -250.0 - 1e-9);
            assert!(middle + third / 2.0 <= 250.0 + 1e-9);
        }
    }
    assert_eq!(corners, 8);
    assert_eq!(edges, 12);
}

#[test]
fn generate_answers_the_same_for_equal_cubes() {
    let a = Cube::new(12, -34, 56, 78).unwrap();
    let b = Cube::new(12, -34, 56, 78).unwrap();
    let of_a = a.generate().unwrap();
    let of_b = b.generate().unwrap();
    let again = a.generate().unwrap();
    assert_eq!(of_a.len(), of_b.len());
    for ((x, y), z) in of_a.iter().zip(of_b.iter()).zip(again.iter()) {
        assert!(same(x, y));
        assert!(same(x, z));
    }
    assert!(same(&a, &b));
}

#[test]
fn generate_leaves_the_cube_as_it_was() {
    let a = root();
    let _ = a.generate().unwrap();
    assert_eq!(numbers(&a), [0, 0, 0, 500, 1]);
    assert_eq!(a.wireframe().len(), 12);
}

#[test]
fn children_come_with_their_box_and_wireframe() {
    let children = root().generate().unwrap();
    for c in children.iter() {
        let b = c.cuboid();
        assert_eq!(
            [b.x(), b.y(), b.z(), b.w(), b.h(), b.d(), b.scale()],
            [c.x(), c.y(), c.z(), 500, 500, 500, 3]
        );
        assert_eq!(c.wireframe().to_vec(), create_wireframe(&b).unwrap());
    }
    let first = children[0].wireframe()[0];
    assert_eq!(
        [first.x(), first.y(), first.z(), first.w(), first.h(), first.d(), first.scale()],
        [-1440, -440, -940, 6, 6, 1000, 6]
    );
}

#[test]
fn two_generations_give_four_hundred_cubes_a_ninth_as_long() {
    let first = next_generation(&[root()]).unwrap();
    assert_eq!(first.len(), 20);
    let second = next_generation(&first).unwrap();
    assert_eq!(second.len(), 400);
    for c in second.iter() {
        assert_eq!(c.len(), 500);
        assert_eq!(c.scale(), 9);
        assert!(close(in_units(c.len(), c.scale()), 500.0 / 9.0));
    }
    // 3 * (-470) + (-1) * 500 + 3 * 10 * 3 steps of a ninth of a unit
    assert_eq!(numbers(&second[0]), [-1820, -1820, -1820, 500, 9]);
    let third: f64 = 500.0 / 3.0;
    let ninth: f64 = 500.0 / 9.0;
    assert!(close(in_units(second[0].x(), 9), (-third + 10.0) - ninth + 10.0));
    assert_eq!(numbers(&second[399]), [2180, 2180, 2180, 500, 9]);
}

#[test]
fn next_generation_goes_cube_by_cube() {
    let a = Cube::new(0, 0, 0, 9).unwrap();
    let b = Cube::new(1000, 0, 0, 3).unwrap();
    let of_a = a.generate().unwrap();
    let of_b = b.generate().unwrap();
    let both = next_generation(&[a, b]).unwrap();
    assert_eq!(both.len(), 40);
    for (got, want) in both[0..20].iter().zip(of_a.iter()) {
        assert!(same(got, want));
    }
    for (got, want) in both[20..40].iter().zip(of_b.iter()) {
        assert!(same(got, want));
    }
    assert_eq!(numbers(&both[20]), [3027, 27, 27, 3, 3]);
}

#[test]
fn next_generation_of_nothing_is_nothing() {
    assert_eq!(next_generation(&[]).unwrap().len(), 0);
}

#[test]
fn generate_refuses_a_length_that_is_not_positive() {
    let mut c = root();
    c.set_len(0);
    assert_eq!(c.generate().err(), Some(GeometryError::NonPositiveExtent));
    c.set_len(-3);
    assert_eq!(c.generate().err(), Some(GeometryError::NonPositiveExtent));
    c.set_len(1);
    assert_eq!(c.generate().unwrap().len(), 20);
}

#[test]
fn generate_refuses_children_that_do_not_fit() {
    let far: i64 = 2_000_000_000_000_000_000;
    let c = Cube::new(far, 0, 0, 1).unwrap();
    assert_eq!(c.generate().err(), Some(GeometryError::Overflow));
    let fine = Cube::with_scale(0, 0, 0, 1, i64::MAX / 2).unwrap();
    assert_eq!(fine.generate().err(), Some(GeometryError::Overflow));
}

#[test]
fn generate_fits_up_to_the_last_step() {
    // the outermost face of a child's wireframe stands at 6 * x + 3 * len + 60 * scale
    let last: i64 = 1537228672809129290;
    let children = Cube::new(last, 0, 0, 1).unwrap().generate().unwrap();
    assert_eq!(children.len(), 20);
    assert_eq!(children[19].x(), 3 * last + 1 + 30);
    assert_eq!(children[19].wireframe()[2].x(), 6 * last + 3 + 60);
    assert_eq!(children[19].wireframe()[2].x(), i64::MAX - 4);
    let beyond = Cube::new(last + 1, 0, 0, 1).unwrap();
    assert_eq!(beyond.generate().err(), Some(GeometryError::Overflow));
}

#[test]
fn next_generation_reports_the_first_cube_that_fails() {
    let mut flat = root();
    flat.set_len(0);
    let far = Cube::new(2_000_000_000_000_000_000, 0, 0, 1).unwrap();
    assert_eq!(
        next_generation(&[root(), flat.clone(), far.clone()]).err(),
        Some(GeometryError::NonPositiveExtent)
    );
    assert_eq!(
        next_generation(&[root(), far, flat]).err(),
        Some(GeometryError::Overflow)
    );
}

#[test]
fn setters_change_one_number_and_leave_box_and_wireframe() {
    let mut c = Cube::new(1, 2, 3, 4).unwrap();
    let b = c.cuboid();
    let w = c.wireframe().to_vec();
    c.set_x(10);
    assert_eq!(numbers(&c), [10, 2, 3, 4, 1]);
    c.set_y(20);
    assert_eq!(numbers(&c), [10, 20, 3, 4, 1]);
    c.set_z(30);
    assert_eq!(numbers(&c), [10, 20, 30, 4, 1]);
    c.set_len(40);
    assert_eq!(numbers(&c), [10, 20, 30, 40, 1]);
    assert_eq!(c.cuboid(), b);
    assert_eq!(c.wireframe().to_vec(), w);
}

#[test]
fn numbers_can_be_changed_in_place() {
    let mut c = Cube::new(1, 2, 3, 4).unwrap();
    let b = c.cuboid();
    *c.x_mut() += 100;
    *c.y_mut() = -2;
    *c.z_mut() *= 2;
    *c.len_mut() = 9;
    assert_eq!(numbers(&c), [101, -2, 6, 9, 1]);
    assert_eq!(c.cuboid(), b);
    assert_eq!(c.wireframe().len(), 12);
}

#[test]
fn generate_goes_by_the_numbers_as_they_are_now() {
    let mut c = root();
    c.set_x(100);
    c.set_len(30);
    let children = c.generate().unwrap();
    // 3 * 100 + (-1) * 30 + 30
    assert_eq!(numbers(&children[0]), [300, 0, 0, 30, 3]);
}

#[test]
fn clone_is_the_same_cube() {
    let mut c = Cube::new(5, 6, 7, 8).unwrap();
    c.set_x(50);
    let d = c.clone();
    assert!(same(&c, &d));
    assert_eq!(numbers(&d), [50, 6, 7, 8, 1]);
    assert_eq!(d.cuboid().x(), 5);
}

#[test]
fn space_holds_its_cubes() {
    let mut space = Space::new(vec![root()]);
    assert_eq!(space.cubes().len(), 1);
    assert_eq!(numbers(&space.cubes()[0]), [0, 0, 0, 500, 1]);
    space.set_cubes(vec![Cube::new(1, 1, 1, 1).unwrap(), Cube::new(2, 2, 2, 2).unwrap()]);
    assert_eq!(space.cubes().len(), 2);
    assert_eq!(numbers(&space.cubes()[1]), [2, 2, 2, 2, 1]);
    space.cubes_mut().pop();
    space.cubes_mut()[0].set_x(9);
    assert_eq!(space.cubes().len(), 1);
    assert_eq!(numbers(&space.cubes()[0]), [9, 1, 1, 1, 1]);
}

#[test]
fn left_button_subdivides_the_space() {
    let mut space = Space::new(vec![root()]);
    assert_eq!(space.event(Event::MousePressed(MouseButton::Left)), Ok(()));
    assert_eq!(space.cubes().len(), 20);
    assert_eq!(numbers(&space.cubes()[0]), [-470, -470, -470, 500, 3]);
    assert_eq!(space.event(Event::MousePressed(MouseButton::Left)), Ok(()));
    assert_eq!(space.cubes().len(), 400);
    assert_eq!(numbers(&space.cubes()[0]), [-1820, -1820, -1820, 500, 9]);
}

#[test]
fn other_events_leave_the_space() {
    let mut space = Space::new(vec![root()]);
    for event in [
        Event::Other,
        Event::MousePressed(MouseButton::Right),
        Event::MousePressed(MouseButton::Middle),
        Event::MousePressed(MouseButton::Other),
    ] {
        assert_eq!(space.event(event), Ok(()));
        assert_eq!(space.cubes().len(), 1);
        assert_eq!(numbers(&space.cubes()[0]), [0, 0, 0, 500, 1]);
    }
}

#[test]
fn a_failed_subdivision_leaves_the_space() {
    let far = Cube::new(2_000_000_000_000_000_000, 0, 0, 1).unwrap();
    let mut space = Space::new(vec![root(), far]);
    assert_eq!(
        space.event(Event::MousePressed(MouseButton::Left)),
        Err(GeometryError::Overflow)
    );
    assert_eq!(space.cubes().len(), 2);
    assert_eq!(numbers(&space.cubes()[0]), [0, 0, 0, 500, 1]);
}

#[test]
fn bias_and_divisor() {
    assert_eq!(BIAS, 10);
    assert_eq!(DIVISOR, 3);
}
