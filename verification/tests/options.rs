use rls::options::{Options, ALL_FILES_FLAG, DEFAULT_PATH, HELP_FLAG};

fn args(tokens: &[&str]) -> Vec<String> {
    tokens.iter().map(|t| t.to_string()).collect()
}

#[test]
fn program_name_alone_gives_the_defaults() {
    let opts = Options::new(&args(&["rls"]));
    assert!(!opts.all_files);
    assert!(!opts.help);
    assert_eq!(opts.path, "./");
}

#[test]
fn empty_argument_list_gives_the_defaults() {
    let opts = Options::new(&Vec::new());
    assert!(!opts.all_files);
    assert!(!opts.help);
    assert_eq!(opts.path, "./");
}

#[test]
fn all_files_flag_is_recognised() {
    let opts = Options::new(&args(&["rls", "-a"]));
    assert!(opts.all_files);
    assert!(!opts.help);
    assert_eq!(opts.path, "./");
}

#[test]
fn help_flag_is_recognised() {
    let opts = Options::new(&args(&["rls", "-h"]));
    assert!(!opts.all_files);
    assert!(opts.help);
    assert_eq!(opts.path, "./");
}

#[test]
fn a_plain_token_is_the_path() {
    let opts = Options::new(&args(&["rls", "/tmp"]));
    assert!(!opts.all_files);
    assert!(!opts.help);
    assert_eq!(opts.path, "/tmp");
}

#[test]
fn the_last_path_token_wins() {
    let opts = Options::new(&args(&["rls", "first", "second", "third"]));
    assert_eq!(opts.path, "third");
}

#[test]
fn flags_behind_the_path_do_not_replace_it() {
    let opts = Options::new(&args(&["rls", "first", "-a", "second", "-h", "-a"]));
    assert!(opts.all_files);
    assert!(opts.help);
    assert_eq!(opts.path, "second");
}

#[test]
fn an_unknown_flag_is_taken_as_the_path() {
    let opts = Options::new(&args(&["rls", "src", "-x"]));
    assert!(!opts.all_files);
    assert!(!opts.help);
    assert_eq!(opts.path, "-x");
}

#[test]
fn flags_are_matched_exactly() {
    let opts = Options::new(&args(&["rls", "-ah"]));
    assert!(!opts.all_files);
    assert!(!opts.help);
    assert_eq!(opts.path, "-ah");

    let opts = Options::new(&args(&["rls", " -a"]));
    assert!(!opts.all_files);
    assert_eq!(opts.path, " -a");

    let opts = Options::new(&args(&["rls", "-A"]));
    assert!(!opts.all_files);
    assert_eq!(opts.path, "-A");
}

#[test]
fn the_invocation_name_is_never_read() {
    let opts = Options::new(&args(&["-a"]));
    assert!(!opts.all_files);
    assert!(!opts.help);
    assert_eq!(opts.path, "./");

    let opts = Options::new(&args(&["-h", "-a"]));
    assert!(opts.all_files);
    assert!(!opts.help);

    let opts = Options::new(&args(&["some/dir", "-h"]));
    assert!(opts.help);
    assert_eq!(opts.path, "./");
}

#[test]
fn repeated_flags_stay_set() {
    let opts = Options::new(&args(&["rls", "-a", "-a", "-h", "-h"]));
    assert!(opts.all_files);
    assert!(opts.help);
    assert_eq!(opts.path, "./");
}

#[test]
fn an_empty_token_is_a_path() {
    let opts = Options::new(&args(&["rls", "dir", ""]));
    assert_eq!(opts.path, "");
}

#[test]
fn a_path_with_wide_characters_is_kept() {
    let opts = Options::new(&args(&["rls", "-a", "données/été"]));
    assert!(opts.all_files);
    assert_eq!(opts.path, "données/été");
}

#[test]
fn the_fixed_tokens() {
    assert_eq!(ALL_FILES_FLAG, "-a");
    assert_eq!(HELP_FLAG, "-h");
    assert_eq!(DEFAULT_PATH, "./");
}
