use toytracer::ray::media_at;

/// The refractive index of the medium an object stands for, the vacuum when none.
fn index_of(obj: Option<usize>, indices: &[f64]) -> f64 {
    obj.map_or(1.0, |o| indices[o])
}

#[test]
fn finding_n1_and_n2_at_intersections() {
    // Three glass spheres a, b and c, with refractive indices 1.5, 2.0 and 2.5.
    let (a, b, c) = (0usize, 1usize, 2usize);
    let indices = [1.5, 2.0, 2.5];
    let xs = vec![a, b, c, b, c, a];
    let tests = vec![
        (1.0, 1.5),
        (1.5, 2.0),
        (2.0, 2.5),
        (2.5, 2.5),
        (2.5, 1.5),
        (1.5, 1.0),
    ];
    for (idx, test) in tests.into_iter().enumerate() {
        let (n1, n2) = test;
        let (exited, entered) = media_at(&xs, idx);
        assert_eq!(index_of(exited, &indices), n1);
        assert_eq!(index_of(entered, &indices), n2);
    }
}

#[test]
fn media_of_a_single_sphere() {
    let xs = vec![7, 7];
    assert_eq!(media_at(&xs, 0), (None, Some(7)));
    assert_eq!(media_at(&xs, 1), (Some(7), None));
}

#[test]
fn media_past_the_intersections_are_vacuum() {
    let xs = vec![3, 4];
    assert_eq!(media_at(&xs, 2), (None, None));
    assert_eq!(media_at(&Vec::new(), 0), (None, None));
}
