use exercism_shim::track::{contains_string, Registry};

fn strings(items: &[&str]) -> Vec<String> {
    items.iter().map(|s| s.to_string()).collect()
}

#[test]
fn explicit_name_selects_each_track() {
    let reg = Registry::standard();
    assert_eq!(reg.select_by_name("rust"), vec![0]);
    assert_eq!(reg.select_by_name("javascript"), vec![1]);
    assert_eq!(reg.select_by_name("typescript"), vec![1]);
    assert_eq!(reg.select_by_name("js"), vec![1]);
    assert_eq!(reg.select_by_name("ts"), vec![1]);
    assert_eq!(reg.select_by_name("java"), vec![2]);
    assert_eq!(reg.select_by_name("gleam"), vec![3]);
    assert_eq!(reg.select_by_name("go"), vec![4]);
}

#[test]
fn unknown_name_selects_nothing() {
    let reg = Registry::standard();
    assert_eq!(reg.select_by_name("cobol"), Vec::<usize>::new());
    assert_eq!(reg.select_by_name(""), Vec::<usize>::new());
    assert_eq!(reg.select_by_name("Rust"), Vec::<usize>::new());
}

#[test]
fn explicit_name_ignores_markers() {
    let reg = Registry::standard();
    let present = strings(&["Cargo.toml", "go.mod"]);
    assert_eq!(reg.resolve(Some("java"), &present), vec![2]);
}

#[test]
fn each_marker_detects_its_track() {
    let reg = Registry::standard();
    let cases: [(&str, usize); 7] = [
        ("Cargo.toml", 0),
        ("package.json", 1),
        ("deno.json", 1),
        ("gradlew", 2),
        ("pom.xml", 2),
        ("gleam.toml", 3),
        ("go.mod", 4),
    ];
    for (marker, track) in cases {
        assert_eq!(reg.detect(&strings(&[marker])), vec![track], "{}", marker);
    }
}

#[test]
fn several_markers_detect_tracks_in_registry_order() {
    let reg = Registry::standard();
    let present = strings(&["go.mod", "README.md", "Cargo.toml", "pom.xml"]);
    assert_eq!(reg.resolve(None, &present), vec![0, 2, 4]);
}

#[test]
fn two_markers_of_one_track_select_it_once() {
    let reg = Registry::standard();
    let present = strings(&["pom.xml", "gradlew"]);
    assert_eq!(reg.detect(&present), vec![2]);
}

#[test]
fn no_marker_detects_nothing() {
    let reg = Registry::standard();
    assert_eq!(reg.detect(&Vec::new()), Vec::<usize>::new());
    assert_eq!(reg.detect(&strings(&["Makefile", "cargo.toml"])), Vec::<usize>::new());
}

#[test]
fn standard_registry_layout() {
    let reg = Registry::standard();
    assert_eq!(reg.tracks.len(), 5);
    let dirs: Vec<&str> = reg.tracks.iter().map(|t| t.source_dir.as_str()).collect();
    assert_eq!(dirs, vec!["src/", "src/", "src/main/java/", "src/", "src/main/"]);
    assert_eq!(reg.tracks[1].extensions, strings(&[".js", ".ts"]));
    assert_eq!(reg.tracks[2].marker_files, strings(&["gradlew", "pom.xml"]));
}

#[test]
fn contains_string_compares_whole_strings() {
    let v = strings(&["go.mod", "Cargo.toml"]);
    assert!(contains_string(&v, &"Cargo.toml".to_string()));
    assert!(!contains_string(&v, &"Cargo".to_string()));
    assert!(!contains_string(&Vec::new(), &"go.mod".to_string()));
}
