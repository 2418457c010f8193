use std::sync::atomic::AtomicUsize;
use toytracer::{get_uid, pad_filepath};

#[test]
fn test_pad_filepath() {
    let exists_fn = |filename: &str| match filename {
        "foo.ppm" | "foo (1).ppm" | "foo (2).ppm" => true,
        _ => false,
    };

    let got = pad_filepath("foo.ppm", exists_fn);
    let want = "foo (3).ppm";
    assert_eq!(got.as_deref(), Some(want));

    let exists_fn = |filename: &str| match filename {
        "foo/bar.ppm" | "foo/bar (1).ppm" => true,
        _ => false,
    };

    let got = pad_filepath("foo/bar.ppm", exists_fn);
    let want = "foo/bar (2).ppm";
    assert_eq!(got.as_deref(), Some(want));
}

#[test]
fn pad_filepath_keeps_a_free_path() {
    let got = pad_filepath("./tmp/scene.ppm", |_: &str| false);
    assert_eq!(got.as_deref(), Some("./tmp/scene.ppm"));
}

#[test]
fn pad_filepath_counts_past_nine() {
    let got = pad_filepath("out/a.b.ppm", |p: &str| {
        p == "out/a.b.ppm" || (p.starts_with("out/a.b (") && !p.starts_with("out/a.b (12)"))
    });
    assert_eq!(got.as_deref(), Some("out/a.b (12).ppm"));
}

#[test]
fn pad_filepath_needs_an_extension() {
    assert_eq!(pad_filepath("foo", |_: &str| true), None);
    assert_eq!(pad_filepath("foo", |_: &str| false), None);
}

#[test]
fn uids_are_handed_out_in_order() {
    let counter = AtomicUsize::new(0);
    assert_eq!(get_uid(&counter), 0);
    assert_eq!(get_uid(&counter), 1);
    assert_eq!(get_uid(&counter), 2);
}
