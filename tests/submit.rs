use exercism_shim::collect::{collect_files, submit_args};
use exercism_shim::track::Registry;

fn strings(items: &[&str]) -> Vec<String> {
    items.iter().map(|s| s.to_string()).collect()
}

#[test]
fn rust_directory_submits_its_sources() {
    let reg = Registry::standard();
    let selected = reg.resolve(None, &strings(&["Cargo.toml"]));
    assert_eq!(selected, vec![0]);
    let listings = vec![Some(strings(&["lib.rs", "main.rs"]))];
    let paths = reg.submission_paths(&selected, &listings);
    assert_eq!(paths, strings(&["src/lib.rs", "src/main.rs"]));
    assert_eq!(submit_args(&paths), strings(&["submit", "src/lib.rs", "src/main.rs"]));
}

#[test]
fn collection_keeps_declared_extensions_only() {
    let exts = strings(&[".js", ".ts"]);
    let names = strings(&["index.ts", "notes.txt", "app.js", "app.json", "types.d.ts", "js", "lib"]);
    assert_eq!(
        collect_files("src/", &names, &exts),
        strings(&["src/index.ts", "src/app.js", "src/types.d.ts"])
    );
}

#[test]
fn collection_keeps_listing_order() {
    let exts = strings(&[".rs"]);
    let names = strings(&["main.rs", "a.rs", "lib.rs"]);
    assert_eq!(
        collect_files("src/", &names, &exts),
        strings(&["src/main.rs", "src/a.rs", "src/lib.rs"])
    );
}

#[test]
fn collection_of_empty_listing_is_empty() {
    assert_eq!(collect_files("src/", &Vec::new(), &strings(&[".rs"])), Vec::<String>::new());
    assert_eq!(collect_files("src/", &strings(&["lib.rs"]), &Vec::new()), Vec::<String>::new());
}

#[test]
fn collection_joins_java_directory() {
    let reg = Registry::standard();
    let java = &reg.tracks[2];
    let names = strings(&["Bob.java", "Bob.class"]);
    assert_eq!(
        collect_files(&java.source_dir, &names, &java.extensions),
        strings(&["src/main/java/Bob.java"])
    );
}

#[test]
fn several_tracks_contribute_in_selection_order() {
    let reg = Registry::standard();
    let selected = reg.resolve(None, &strings(&["go.mod", "Cargo.toml"]));
    assert_eq!(selected, vec![0, 4]);
    let listings = vec![
        Some(strings(&["lib.rs", "x.go"])),
        Some(strings(&["main.go", "go.sum"])),
    ];
    assert_eq!(
        reg.submission_paths(&selected, &listings),
        strings(&["src/lib.rs", "src/main/main.go"])
    );
}

#[test]
fn unreadable_directory_contributes_nothing() {
    let reg = Registry::standard();
    let selected = vec![1, 3];
    let listings = vec![None, Some(strings(&["app.gleam"]))];
    assert_eq!(reg.submission_paths(&selected, &listings), strings(&["src/app.gleam"]));
}

#[test]
fn no_track_submits_no_paths() {
    let reg = Registry::standard();
    let selected = reg.resolve(None, &Vec::new());
    assert!(selected.is_empty());
    let paths = reg.submission_paths(&selected, &Vec::new());
    assert!(paths.is_empty());
    assert_eq!(submit_args(&paths), strings(&["submit"]));
}

#[test]
fn unknown_track_submits_no_paths() {
    let reg = Registry::standard();
    let selected = reg.resolve(Some("cobol"), &strings(&["Cargo.toml"]));
    assert!(selected.is_empty());
    assert_eq!(submit_args(&reg.submission_paths(&selected, &Vec::new())), strings(&["submit"]));
}
