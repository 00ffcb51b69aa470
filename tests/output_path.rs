use image_optimizer::output_path::{mirrored_output_path, OutputPathError};

fn parts(p: &[&str]) -> Vec<String> {
    p.iter().map(|s| s.to_string()).collect()
}

#[test]
fn mirrors_relative_path_under_output() {
    let r = mirrored_output_path(
        &parts(&[".", "optimized"]),
        &parts(&[".", "photos"]),
        &parts(&[".", "photos", "subfolder", "image.jpg"]),
    );
    assert_eq!(r, Ok(parts(&[".", "optimized", "subfolder", "image.jpg"])));
}

#[test]
fn file_outside_input_is_refused() {
    let r = mirrored_output_path(&parts(&["/", "out"]), &parts(&["/", "in"]), &parts(&["/", "other", "a.png"]));
    assert_eq!(r, Err(OutputPathError::NotUnderInput));
    let r = mirrored_output_path(&parts(&["/", "out"]), &parts(&["/", "in", "deep"]), &parts(&["/", "in"]));
    assert_eq!(r, Err(OutputPathError::NotUnderInput));
}

#[test]
fn components_compare_whole() {
    let r = mirrored_output_path(&parts(&["/", "out"]), &parts(&["/", "a", "b"]), &parts(&["/", "a", "bc", "x.png"]));
    assert_eq!(r, Err(OutputPathError::NotUnderInput));
}
