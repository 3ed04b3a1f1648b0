use exercism_shim::download::{download_args, download_outcome, existing_directory, DownloadAction};

fn strings(items: &[&str]) -> Vec<String> {
    items.iter().map(|s| s.to_string()).collect()
}

#[test]
fn success_opens_printed_directory() {
    assert_eq!(
        download_outcome(true, "./two-fer\n", ""),
        DownloadAction::OpenEditor("./two-fer".to_string())
    );
}

#[test]
fn success_trims_every_trailing_newline() {
    assert_eq!(
        download_outcome(true, "/home/u/exercism/rust/clock\n\n", "ignored"),
        DownloadAction::OpenEditor("/home/u/exercism/rust/clock".to_string())
    );
    assert_eq!(
        download_outcome(true, "dir", ""),
        DownloadAction::OpenEditor("dir".to_string())
    );
}

#[test]
fn existing_directory_is_opened() {
    assert_eq!(
        download_outcome(false, "", "Error: directory 'two-fer' already exists"),
        DownloadAction::OpenEditor("two-fer".to_string())
    );
}

#[test]
fn existing_directory_on_a_later_line() {
    let err = "\nWarning: something\nError: directory '/tmp/ex/rust/leap' already exists, use --force to overwrite\n";
    assert_eq!(
        download_outcome(false, "", err),
        DownloadAction::OpenEditor("/tmp/ex/rust/leap".to_string())
    );
}

#[test]
fn unrelated_error_is_reported() {
    let err = "Error: unauthorized request\n";
    assert_eq!(download_outcome(false, "", err), DownloadAction::Report(err.to_string()));
}

#[test]
fn empty_error_is_reported() {
    assert_eq!(download_outcome(false, "", ""), DownloadAction::Report(String::new()));
}

#[test]
fn marker_line_needs_a_quoted_path() {
    assert_eq!(existing_directory("Error: directory two-fer already exists"), None);
    assert_eq!(existing_directory("Error: directory 'two-fer already exists"), None);
    assert_eq!(
        existing_directory("Error: directory without quotes\nError: directory 'late'"),
        None
    );
}

#[test]
fn marker_must_start_the_line() {
    assert_eq!(existing_directory("  Error: directory 'x' already exists"), None);
    assert_eq!(existing_directory("Error: dir 'x'"), None);
}

#[test]
fn quoted_path_may_be_empty() {
    assert_eq!(existing_directory("Error: directory '' exists"), Some(String::new()));
}

#[test]
fn download_arguments_without_force() {
    assert_eq!(
        download_args("rust", "two-fer", false),
        strings(&["download", "--track=rust", "--exercise=two-fer"])
    );
}

#[test]
fn download_arguments_with_force() {
    assert_eq!(
        download_args("go", "leap", true),
        strings(&["download", "--track=go", "--exercise=leap", "--force"])
    );
}
