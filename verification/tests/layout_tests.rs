use stellar_layout::coordinates::Coordinates;
use stellar_layout::Layout;
use stellar_layout::Length;
use stellar_layout::Object;
use stellar_layout::ObservedObject;
use stellar_layout::Shape;
use stellar_layout::LIGHT_YEAR_METERS;

#[test]
fn placement() {
    let mut layout = Layout::new(5, Length::from_kilometers(1000));
    let object_1 = Object::new(
        Coordinates::new(0, 0, 0),
        Shape::Sphere(Length::from_kilometers(1000)),
    );
    let success = layout.add_object(object_1);

    assert!(success, "failed adding 000");

    let object_2 = Object::new(
        Coordinates::new(5, 0, 0),
        Shape::Sphere(Length::from_kilometers(1000)),
    );
    let success = layout.add_object(object_2);

    assert!(success, "failed adding 500");

    let object_3 = Object::new(
        Coordinates::new(-4, 0, 0),
        Shape::Sphere(Length::from_kilometers(1000)),
    );
    let success = layout.add_object(object_3);

    assert!(success, "failed adding -400");

    let object_4 = Object::new(
        Coordinates::new(6, 0, 0),
        Shape::Sphere(Length::from_kilometers(1000)),
    );
    let success = layout.add_object(object_4);

    assert_eq!(success, false, "failed adding 600");

    let object_5 = Object::new(
        Coordinates::new(-6, 0, 0),
        Shape::Sphere(Length::from_kilometers(1000)),
    );
    let success = layout.add_object(object_5);

    assert_eq!(success, false, "failed adding -600");
}

#[test]
fn basic_object() {
    let mut layout = Layout::default();
    let object_1 = Object::new(
        Coordinates::new(5, 0, 0),
        Shape::Sphere(Length::from_kilometers(1000)),
    );
    layout.add_object(object_1);

    let _distance = layout.get_distance(&Coordinates::new(0, 0, 0), &Coordinates::new(5, 0, 0));
}

#[test]
fn system_test() {
    let mut layout = Layout::new(2992000000, Length::from_kilometers(5_984_000_000));

    let moon = Object::new(
        Coordinates::new(384399, 0, 0),
        Shape::Sphere(Length::from_meters(3_474_800)),
    );
    layout.add_object(moon);

    let sun = Object::new(
        Coordinates::new(149597870, 0, 0),
        Shape::Sphere(Length::from_kilometers(1392700)),
    );
    layout.add_object(sun);

    let origin = Coordinates::new(0, 0, 0);
    for object in layout.objects.iter() {
        let _distance = layout.get_distance(&origin, &object.position);
    }
}

#[test]
fn moon_distance() {
    // A grid of bound 5 spanning 3,844,000 km: one grid step is a tenth of
    // the span, so an object one step out sits 384,400 km away.
    let mut layout = Layout::new(5, Length::from_kilometers(3_844_000));
    let moon = Object::new(
        Coordinates::new(1, 0, 0),
        Shape::Sphere(Length::from_meters(3_474_800)),
    );
    let added = layout.add_object(moon);
    assert!(added);

    let distance = layout.get_distance(&Coordinates::new(0, 0, 0), &Coordinates::new(1, 0, 0));
    assert_eq!(distance.meters, 384_400_000);
}

#[test]
fn scaling_half_dimension() {
    // Bound 5, dimension 1000 km: the gap from the centre to the bound on
    // one axis is exactly half the dimension.
    let layout = Layout::new(5, Length::from_kilometers(1000));
    let distance = layout.get_distance(&Coordinates::new(0, 0, 0), &Coordinates::new(5, 0, 0));
    assert_eq!(distance.meters, 500_000);
}

#[test]
fn distance_symmetry() {
    let layout = Layout::new(10, Length::from_meters(123_456));
    let p = Coordinates::new(3, -2, 7);
    let q = Coordinates::new(-1, 4, 0);
    let d_pq = layout.get_distance(&p, &q);
    let d_qp = layout.get_distance(&q, &p);
    assert_eq!(d_pq, d_qp);
}

#[test]
fn bounds_inclusive_on_all_axes() {
    let mut layout = Layout::new(7, Length::from_meters(1_000_000));
    let shape = Shape::Sphere(Length::from_meters(1));
    assert!(layout.add_object(Object::new(Coordinates::new(0, -7, 0), shape)));
    assert!(layout.add_object(Object::new(Coordinates::new(0, 0, 7), shape)));
    assert!(!layout.add_object(Object::new(Coordinates::new(0, -8, 0), shape)));
    assert!(!layout.add_object(Object::new(Coordinates::new(0, 0, 8), shape)));
    assert_eq!(layout.objects.len(), 2);
}

#[test]
fn failed_add_leaves_layout_unchanged() {
    let mut layout = Layout::new(3, Length::from_meters(600));
    let shape = Shape::Sphere(Length::from_meters(1));
    assert!(layout.add_object(Object::new(Coordinates::new(1, 2, 3), shape)));
    let added = layout.add_object(Object::new(Coordinates::new(4, 0, 0), shape));
    assert!(!added);
    assert_eq!(layout.objects.len(), 1);
    assert_eq!(layout.objects[0].position, Coordinates::new(1, 2, 3));
}

#[test]
fn check_bound_is_inclusive() {
    let layout = Layout::new(5, Length::from_meters(1000));
    assert!(layout.check_bound(&5));
    assert!(layout.check_bound(&-5));
    assert!(layout.check_bound(&0));
    assert!(!layout.check_bound(&6));
    assert!(!layout.check_bound(&-6));
}

#[test]
fn equality_ignores_hash_and_hash_is_deterministic() {
    let a = Coordinates::new(1, 2, 3);
    let b = Coordinates::new(1, 2, 3);
    assert_eq!(a, b);
    assert_eq!(a.hash, b.hash);

    // A coordinate whose cached hash was tampered with still compares equal:
    // identity reads only the three axes.
    let c = Coordinates {
        x: 1,
        y: 2,
        z: 3,
        hash: a.hash.wrapping_add(1),
    };
    assert_eq!(a, c);

    let d = Coordinates::new(1, 2, 4);
    assert_ne!(a, d);
}

#[test]
fn hash_is_a_fixed_portable_function() {
    // The combining function is fixed and documented, so these digests are
    // stable across builds, processes, and machines.
    assert_eq!(Coordinates::new(1, 2, 3).hash, 6784308788937962724);
    assert_eq!(Coordinates::new(0, 0, 0).hash, 7453881163446397074);
    assert_eq!(stellar_layout::coordinates::generate_hash(1, 2, 3), 6784308788937962724);
}

#[test]
fn hash_breaks_axis_symmetry() {
    // The per-axis offsets keep permuted and reflected triples apart.
    let x1 = Coordinates::new(1, 0, 0);
    let y1 = Coordinates::new(0, 1, 0);
    let z1 = Coordinates::new(0, 0, 1);
    let nx1 = Coordinates::new(-1, 0, 0);
    assert_ne!(x1.hash, y1.hash);
    assert_ne!(x1.hash, z1.hash);
    assert_ne!(y1.hash, z1.hash);
    assert_ne!(x1.hash, nx1.hash);
}

#[test]
fn distance_squared_is_exact() {
    let p = Coordinates::new(1, 2, 3);
    let q = Coordinates::new(4, 6, 3);
    assert_eq!(Coordinates::distance_squared(&p, &q), 25);
    assert_eq!(Coordinates::distance_squared(&q, &p), 25);
    assert_eq!(Coordinates::distance_squared(&p, &p), 0);
}

#[test]
fn unit_conversions_are_exact() {
    assert_eq!(Length::from_meters(17).meters, 17);
    assert_eq!(Length::from_kilometers(1).meters, 1_000);
    assert_eq!(Length::from_light_years(1).meters, 9_460_730_472_580_800);
    assert_eq!(Length::from_light_years(1).meters, LIGHT_YEAR_METERS);
}

#[test]
fn default_layout() {
    let layout = Layout::default();
    assert_eq!(layout.coordinate_bound, 1000);
    assert_eq!(layout.dimension.meters, LIGHT_YEAR_METERS);
    assert_eq!(layout.objects.len(), 0);
}

#[test]
fn isqrt_rounds_down() {
    assert_eq!(stellar_layout::math::isqrt(0), 0);
    assert_eq!(stellar_layout::math::isqrt(1), 1);
    assert_eq!(stellar_layout::math::isqrt(24), 4);
    assert_eq!(stellar_layout::math::isqrt(25), 5);
    assert_eq!(stellar_layout::math::isqrt(26), 5);
    assert_eq!(stellar_layout::math::isqrt(u128::MAX), u64::MAX as u128);
}

#[test]
fn observation_cardinality_and_order() {
    let mut layout = Layout::new(5, Length::from_kilometers(1000));
    let positions = [
        Coordinates::new(0, 0, 0),
        Coordinates::new(5, 0, 0),
        Coordinates::new(-4, 2, 1),
    ];
    let radii: [u128; 3] = [10, 20, 30];
    for i in 0..3 {
        let added = layout.add_object(Object::new(
            positions[i],
            Shape::Sphere(Length::from_meters(radii[i])),
        ));
        assert!(added);
    }

    let origin = Coordinates::new(1, 1, 1);
    let observed: Vec<ObservedObject> = layout.observe_layout_objects(&origin);
    assert_eq!(observed.len(), 3);
    for i in 0..3 {
        assert_eq!(observed[i].coordinates, positions[i]);
        assert_eq!(observed[i].observed_from, origin);
        assert_eq!(observed[i].shape, Shape::Sphere(Length::from_meters(radii[i])));
    }

    // Observation is read-only: the layout is unchanged and a second call
    // returns the same records.
    assert_eq!(layout.objects.len(), 3);
    let observed_again = layout.observe_layout_objects(&origin);
    assert_eq!(observed_again.len(), observed.len());
    for i in 0..3 {
        assert_eq!(observed[i].coordinates, observed_again[i].coordinates);
        assert_eq!(observed[i].observed_from, observed_again[i].observed_from);
        assert_eq!(observed[i].shape, observed_again[i].shape);
        assert_eq!(observed[i].distance, observed_again[i].distance);
    }
}

#[test]
fn try_get_distance_reports_range() {
    let layout = Layout::new(5, Length::from_meters(1000));
    let d = layout.try_get_distance(&Coordinates::new(0, 0, 0), &Coordinates::new(5, 0, 0));
    assert_eq!(d, Some(Length::from_meters(500)));

    // A dimension at the top of the machine range cannot be scaled.
    let vast = Layout::new(1, Length::from_meters(u128::MAX));
    let out = vast.try_get_distance(&Coordinates::new(0, 0, 0), &Coordinates::new(1, 0, 0));
    assert_eq!(out, None);

    // The squared grid distance between opposite corners of the full
    // coordinate range leaves the machine range as well.
    let wide = Layout::new(i64::MAX, Length::from_meters(1000));
    let lo = Coordinates::new(i64::MIN, i64::MIN, i64::MIN);
    let hi = Coordinates::new(i64::MAX, i64::MAX, i64::MAX);
    assert_eq!(Coordinates::checked_distance_squared(&lo, &hi), None);
    assert_eq!(wide.try_get_distance(&lo, &hi), None);
}

#[test]
fn observed_distance_scales_with_the_grid() {
    // Bound 2 over 4000 m: one grid unit is 1000 m, so an object two units
    // out on one axis is observed at 2000 m.
    let mut layout = Layout::new(2, Length::from_meters(4000));
    let added = layout.add_object(Object::new(
        Coordinates::new(2, 0, 0),
        Shape::Sphere(Length::from_meters(5)),
    ));
    assert!(added);
    let observed = layout.observe_layout_objects(&Coordinates::new(0, 0, 0));
    assert_eq!(observed.len(), 1);
    assert_eq!(observed[0].distance.meters, 2000);
}
