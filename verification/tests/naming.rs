use appendfile::naming::{matching_extensions_for, next_file_name, next_output_path, parse_index};

fn names(list: &[&str]) -> Vec<String> {
    list.iter().map(|s| s.to_string()).collect()
}

fn exts(list: &[&str]) -> Vec<String> {
    names(list)
}

#[test]
fn next_output_path_uses_highest_png_or_jpg_index() {
    let target_dir = "/tmp/appendfile-test-dir";
    let listing = names(&["ayca1.jpg", "ayca2.png", "ayca10.jpg", "ayca7.gif"]);
    let output = next_output_path(target_dir, "ayca", "/tmp/source.png", &listing)
        .expect("failed to determine output path");
    assert_eq!(output, "/tmp/appendfile-test-dir/ayca11.png");
}

#[test]
fn next_output_path_keeps_source_extension_when_family_is_mixed() {
    let target_dir = "/tmp/appendfile-test-dir";
    let listing = names(&["photo1.png", "photo2.jpg"]);
    let output = next_output_path(target_dir, "photo", "/tmp/source.jpg", &listing)
        .expect("failed to determine output path");
    assert_eq!(output, "/tmp/appendfile-test-dir/photo3.jpg");
}

#[test]
fn next_output_path_starts_at_one_in_an_empty_folder() {
    let output = next_output_path("/data", "clip", "/in/movie.mp4", &Vec::new()).unwrap();
    assert_eq!(output, "/data/clip1.mp4");
}

#[test]
fn next_output_path_refuses_input_without_extension() {
    let err = next_output_path("/data", "clip", "/in/movie", &Vec::new()).unwrap_err();
    assert_eq!(err, "input file has no valid extension: /in/movie");
    let err = next_output_path("/data", "clip", "/in/.hidden", &Vec::new()).unwrap_err();
    assert_eq!(err, "input file has no valid extension: /in/.hidden");
}

#[test]
fn next_output_path_joins_with_trailing_separator() {
    let output = next_output_path("/data/", "a", "x.gif", &names(&["a4.gif"])).unwrap();
    assert_eq!(output, "/data/a5.gif");
}

#[test]
fn next_file_name_keeps_extension_case() {
    let name = next_file_name("ayca", "PNG", &names(&["ayca3.png", "ayca9.JPG"]));
    assert_eq!(name, "ayca4.PNG");
}

#[test]
fn next_file_name_counts_jpeg_only_in_jpeg_family() {
    let listing = names(&["p5.jpeg", "p2.png"]);
    assert_eq!(next_file_name("p", "jpg", &listing), "p6.jpg");
    assert_eq!(next_file_name("p", "png", &listing), "p3.png");
}

#[test]
fn next_file_name_other_extension_counts_alone() {
    let listing = names(&["v1.mp4", "v8.mov", "v3.MP4"]);
    assert_eq!(next_file_name("v", "mp4", &listing), "v2.mp4");
    assert_eq!(next_file_name("v", "MP4", &listing), "v2.MP4");
}

#[test]
fn next_file_name_saturates_at_u64_max() {
    let listing = names(&["x18446744073709551615.gif"]);
    assert_eq!(next_file_name("x", "gif", &listing), "x18446744073709551615.gif");
}

#[test]
fn next_file_name_ignores_unparsable_indices() {
    let listing = names(&["x18446744073709551616.gif", "x0.gif", "x.gif", "xa1.gif", "x-3.gif", "y9.gif"]);
    assert_eq!(next_file_name("x", "gif", &listing), "x1.gif");
}

#[test]
fn next_file_name_accepts_plus_and_leading_zeros() {
    let listing = names(&["x+7.gif", "x007.gif"]);
    assert_eq!(next_file_name("x", "gif", &listing), "x8.gif");
}

#[test]
fn next_file_name_does_not_depend_on_listing_order() {
    let a = names(&["q2.png", "q5.jpg", "q1.png"]);
    let b = names(&["q1.png", "q2.png", "q5.jpg"]);
    assert_eq!(next_file_name("q", "png", &a), next_file_name("q", "png", &b));
}

#[test]
fn next_file_name_advances_after_adding_result() {
    let mut listing = names(&["n4.png"]);
    let first = next_file_name("n", "png", &listing);
    assert_eq!(first, "n5.png");
    listing.push(first);
    assert_eq!(next_file_name("n", "png", &listing), "n6.png");
}

#[test]
fn matching_extensions_for_png_family() {
    assert_eq!(matching_extensions_for("png"), exts(&["png", "jpg"]));
    assert_eq!(matching_extensions_for("PnG"), exts(&["png", "jpg"]));
    assert_eq!(matching_extensions_for("jpg"), exts(&["png", "jpg", "jpeg"]));
    assert_eq!(matching_extensions_for("JPEG"), exts(&["png", "jpg", "jpeg"]));
    assert_eq!(matching_extensions_for("MOV"), exts(&["mov"]));
    assert_eq!(matching_extensions_for("ÄbC"), exts(&["Äbc"]));
}

#[test]
fn parse_index_cases() {
    let family = exts(&["png", "jpg"]);
    assert_eq!(parse_index("ayca12.png", "ayca", &family), Some(12));
    assert_eq!(parse_index("ayca12.jpg", "ayca", &family), Some(12));
    assert_eq!(parse_index("ayca12.gif", "ayca", &family), None);
    assert_eq!(parse_index("ayca0.png", "ayca", &family), None);
    assert_eq!(parse_index("ayca.png", "ayca", &family), None);
    assert_eq!(parse_index("other3.png", "ayca", &family), None);
    assert_eq!(parse_index("ayca3.PNG", "ayca", &family), None);
    assert_eq!(parse_index("ayca1 .png", "ayca", &family), None);
    assert_eq!(parse_index("ayca3.png.png", "ayca", &family), None);
}

#[test]
fn produced_name_reads_back_as_next_index() {
    let listing = names(&["k2.jpeg", "k7.png"]);
    for ext in ["png", "jpg", "jpeg", "webm"] {
        let name = next_file_name("k", ext, &listing);
        let family = matching_extensions_for(ext);
        let index = parse_index(&name, "k", &family).expect("produced name belongs to its family");
        assert!(!listing.contains(&name));
        let mut grown = listing.clone();
        grown.push(name.clone());
        let again = next_file_name("k", ext, &grown);
        assert_eq!(parse_index(&again, "k", &family), Some(index + 1));
    }
}
