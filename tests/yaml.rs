use toytracer::yaml::{
    complete_material, complete_materials, complete_transform, complete_transforms,
    generate_objects, step_of, ErrParseYaml, MaterialDefn, MaterialOverrides, MaterialRepr,
    MaterialValues, ObjectRepr, ShapeKind, Step, TransformRepr,
};

fn default_material() -> MaterialValues<f64> {
    MaterialValues {
        color: (1.0, 1.0, 1.0),
        diffuse: 0.9,
        ambient: 0.1,
        specular: 0.9,
        shininess: 200.0,
        reflective: 0.0,
        refractive_index: 1.0,
        transparency: 0.0,
    }
}

fn no_overrides() -> MaterialOverrides<f64> {
    MaterialOverrides {
        color: None,
        diffuse: None,
        ambient: None,
        specular: None,
        shininess: None,
        reflective: None,
        refractive_index: None,
        transparency: None,
    }
}

fn white() -> MaterialValues<f64> {
    MaterialValues {
        color: (1.0, 1.0, 1.0),
        diffuse: 0.7,
        ambient: 0.1,
        specular: 0.0,
        reflective: 0.1,
        ..default_material()
    }
}

fn blue() -> MaterialValues<f64> {
    MaterialValues { color: (0.537, 0.831, 0.914), ..white() }
}

/// white:
///     color: [ 1, 1, 1 ], diffuse: 0.7, ambient: 0.1, specular: 0.0, reflective: 0.1
/// blue:
///     extends: white
///     color: [ 0.537, 0.831, 0.914 ]
fn material_definitions() -> Vec<(String, MaterialRepr<f64>)> {
    vec![
        ("white".to_string(), MaterialRepr::Complete(white())),
        (
            "blue".to_string(),
            MaterialRepr::Extends {
                extends: "white".to_string(),
                overrides: MaterialOverrides { color: Some((0.537, 0.831, 0.914)), ..no_overrides() },
            },
        ),
    ]
}

fn tr(name: &str) -> TransformRepr<f64> {
    TransformRepr::Ref(name.to_string())
}

fn three(name: &str, x: f64, y: f64, z: f64) -> TransformRepr<f64> {
    TransformRepr::ThreeParam(name.to_string(), x, y, z)
}

/// standard: [ translate 1 -1 1 ], [ scale 0.5 0.5 0.5 ]
/// large: standard, [ scale 3.5 3.5 3.5 ]
fn transform_definitions() -> Vec<(String, Vec<TransformRepr<f64>>)> {
    vec![
        (
            "standard".to_string(),
            vec![three("translate", 1.0, -1.0, 1.0), three("scale", 0.5, 0.5, 0.5)],
        ),
        ("large".to_string(), vec![tr("standard"), three("scale", 3.5, 3.5, 3.5)]),
    ]
}

fn standard_steps() -> Vec<Step<f64>> {
    vec![Step::Translate(1.0, -1.0, 1.0), Step::Scale(0.5, 0.5, 0.5)]
}

fn large_steps() -> Vec<Step<f64>> {
    let mut steps = standard_steps();
    steps.push(Step::Scale(3.5, 3.5, 3.5));
    steps
}

#[test]
fn deserialize_material_definitions() {
    let got = complete_materials(&material_definitions()).expect("completes every material");
    let want = vec![("white".to_string(), white()), ("blue".to_string(), blue())];
    assert_eq!(got, want);
}

#[test]
fn fails_on_recursive_material_definition() {
    let defs = vec![
        (
            "white".to_string(),
            MaterialRepr::Extends {
                extends: "blue".to_string(),
                overrides: MaterialOverrides {
                    color: Some((1.0, 1.0, 1.0)),
                    diffuse: Some(0.7),
                    ambient: Some(0.1),
                    specular: Some(0.0),
                    ..no_overrides()
                },
            },
        ),
        (
            "blue".to_string(),
            MaterialRepr::Extends {
                extends: "white".to_string(),
                overrides: MaterialOverrides { color: Some((0.537, 0.831, 0.914)), ..no_overrides() },
            },
        ),
    ];
    let got = complete_materials(&defs);
    assert!(got.is_err());
    assert!(matches!(got, Err(ErrParseYaml::RecursiveDefinition)));
}

#[test]
fn material_extending_an_unknown_name_fails() {
    let defs = vec![(
        "glass".to_string(),
        MaterialRepr::Extends { extends: "clear".to_string(), overrides: no_overrides() },
    )];
    match complete_material("glass", &defs) {
        Err(ErrParseYaml::UnknownMaterial(name)) => assert_eq!(name, "clear"),
        other => panic!("unexpected {:?}", other),
    }
    match complete_material("metal", &defs) {
        Err(ErrParseYaml::UnknownMaterial(name)) => assert_eq!(name, "metal"),
        other => panic!("unexpected {:?}", other),
    }
}

#[test]
fn material_overrides_apply_along_a_chain() {
    let mut defs = material_definitions();
    defs.push((
        "shiny_blue".to_string(),
        MaterialRepr::Extends {
            extends: "blue".to_string(),
            overrides: MaterialOverrides { reflective: Some(0.9), ..no_overrides() },
        },
    ));
    let got = complete_material("shiny_blue", &defs).expect("completes");
    assert_eq!(got, MaterialValues { reflective: 0.9, ..blue() });
    assert_eq!(complete_material("white", &defs).expect("completes"), white());
}

#[test]
fn deserialize_transform_definitions() {
    let got = complete_transforms(&transform_definitions()).expect("completes every transform");
    let want = vec![("standard".to_string(), standard_steps()), ("large".to_string(), large_steps())];
    assert_eq!(got, want);
}

#[test]
fn completed_transform_inlines_references() {
    let got = complete_transform("large", &transform_definitions()).expect("completes");
    let want = vec![
        three("translate", 1.0, -1.0, 1.0),
        three("scale", 0.5, 0.5, 0.5),
        three("scale", 3.5, 3.5, 3.5),
    ];
    assert_eq!(got, want);
}

#[test]
fn transform_used_twice_is_no_cycle() {
    let mut defs = transform_definitions();
    defs.push(("twice".to_string(), vec![tr("standard"), tr("standard")]));
    let got = complete_transform("twice", &defs).expect("completes");
    assert_eq!(got.len(), 4);
}

#[test]
fn fails_on_recursive_transform_definition() {
    let defs = vec![
        (
            "standard".to_string(),
            vec![tr("large"), three("translate", 1.0, -1.0, 1.0), three("scale", 0.5, 0.5, 0.5)],
        ),
        ("large".to_string(), vec![tr("standard"), three("scale", 3.5, 3.5, 3.5)]),
    ];
    let got = complete_transforms(&defs);
    assert!(got.is_err());
    assert!(matches!(got, Err(ErrParseYaml::RecursiveDefinition)));
}

#[test]
fn transform_referring_to_an_unknown_name_fails() {
    let defs = vec![("a".to_string(), vec![three("scale", 2.0, 2.0, 2.0), tr("b")])];
    match complete_transform("a", &defs) {
        Err(ErrParseYaml::KeyNotExists(name)) => assert_eq!(name, "b"),
        other => panic!("unexpected {:?}", other),
    }
}

#[test]
fn steps_are_named_by_name_and_arity() {
    let one = TransformRepr::OneParam("rotate_y".to_string(), 0.5);
    assert_eq!(step_of(&one).expect("known"), Step::RotateY(0.5));
    let six = TransformRepr::SixParam("shear".to_string(), 1.0, 0.0, 0.0, 0.0, 0.0, 0.0);
    assert_eq!(step_of(&six).expect("known"), Step::Shear(1.0, 0.0, 0.0, 0.0, 0.0, 0.0));
    match step_of(&three("rotate_x", 1.0, 2.0, 3.0)) {
        Err(ErrParseYaml::UnknownTransformation(name)) => assert_eq!(name, "rotate_x"),
        other => panic!("unexpected {:?}", other),
    }
    assert!(matches!(step_of(&tr("standard")), Err(ErrParseYaml::Unsupported)));
}

#[test]
fn unknown_step_in_a_named_transform_fails() {
    let defs = vec![("odd".to_string(), vec![three("stretch", 1.0, 2.0, 3.0)])];
    match complete_transforms(&defs) {
        Err(ErrParseYaml::UnknownTransformation(name)) => assert_eq!(name, "stretch"),
        other => panic!("unexpected {:?}", other),
    }
}

fn object_reprs() -> Vec<ObjectRepr<f64>> {
    vec![
        ObjectRepr {
            typ: ShapeKind::Sphere,
            material: MaterialDefn::Ref("white".to_string()),
            transform: vec![tr("large")],
        },
        ObjectRepr {
            typ: ShapeKind::Plane,
            material: MaterialDefn::Defined(MaterialOverrides {
                color: Some((1.0, 1.0, 1.0)),
                ambient: Some(1.0),
                diffuse: Some(0.0),
                specular: Some(0.0),
                reflective: None,
                ..no_overrides()
            }),
            transform: vec![
                TransformRepr::OneParam("rotate_x".to_string(), 1.5707963267948966),
                three("translate", 0.0, 0.0, 500.0),
            ],
        },
    ]
}

#[test]
fn deserialize_objects() {
    let mats = complete_materials(&material_definitions()).expect("materials");
    let trs = complete_transforms(&transform_definitions()).expect("transforms");
    let got = generate_objects(&object_reprs(), &mats, &trs, &default_material())
        .expect("should generate objects");
    assert_eq!(got.len(), 2);
    assert_eq!(got[0].typ, ShapeKind::Sphere);
    assert_eq!(got[0].material, white());
    assert_eq!(got[0].transform, large_steps());
    assert_eq!(got[1].typ, ShapeKind::Plane);
    assert_eq!(
        got[1].material,
        MaterialValues {
            color: (1.0, 1.0, 1.0),
            ambient: 1.0,
            diffuse: 0.0,
            specular: 0.0,
            ..default_material()
        }
    );
    assert_eq!(
        got[1].transform,
        vec![Step::RotateX(1.5707963267948966), Step::Translate(0.0, 0.0, 500.0)]
    );
}

#[test]
fn object_with_unknown_names_fails() {
    let mats = complete_materials(&material_definitions()).expect("materials");
    let trs = complete_transforms(&transform_definitions()).expect("transforms");
    let xs = vec![ObjectRepr {
        typ: ShapeKind::Sphere,
        material: MaterialDefn::Ref("gold".to_string()),
        transform: vec![tr("huge")],
    }];
    match generate_objects(&xs, &mats, &trs, &default_material()) {
        Err(ErrParseYaml::UnknownMaterial(name)) => assert_eq!(name, "gold"),
        other => panic!("unexpected {:?}", other),
    }
    let xs = vec![ObjectRepr {
        typ: ShapeKind::Sphere,
        material: MaterialDefn::Ref("blue".to_string()),
        transform: vec![tr("huge")],
    }];
    match generate_objects(&xs, &mats, &trs, &default_material()) {
        Err(ErrParseYaml::UnknownTransformation(name)) => assert_eq!(name, "huge"),
        other => panic!("unexpected {:?}", other),
    }
}

#[test]
fn errors_describe_themselves() {
    assert_eq!(ErrParseYaml::RecursiveDefinition.message(), "Recursive definition in yaml");
    assert_eq!(
        ErrParseYaml::KeyNotExists("large".to_string()).message(),
        "Key does not exist; key=large"
    );
    assert_eq!(ErrParseYaml::Unsupported.message(), "An unsupported operation");
    assert_eq!(
        ErrParseYaml::UnknownTransformation("twist".to_string()).message(),
        "Unknown transformation; tr=twist"
    );
    assert_eq!(
        ErrParseYaml::UnknownMaterial("gold".to_string()).message(),
        "Unknown material; mat=gold"
    );
    let bad = serde_yaml::from_str::<Vec<u8>>("{").expect_err("not yaml");
    let text = ErrParseYaml::SerdeError(bad).message();
    assert!(text.starts_with("Serde error; err="));
    assert!(text.len() > "Serde error; err=".len());
}
