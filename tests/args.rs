use rusty_jello::args::Args;

fn strings(v: &[&str]) -> Vec<String> {
    v.iter().map(|s| s.to_string()).collect()
}

#[test]
fn parses_flags_options_and_values() {
    let args = Args::new(
        strings(&["prog", "file.ja", "-a", "-o", "out.bin", "-t"]),
        strings(&["-a", "-q"]),
    );
    assert_eq!(args.get_arg("").unwrap().value, "file.ja");
    assert_eq!(args.get_arg("-a").unwrap().value, "true");
    assert_eq!(args.get_arg("-o").unwrap().value, "out.bin");
    assert_eq!(args.get_arg("-t").unwrap().value, "");
    assert!(args.has_arg("-o"));
    assert!(!args.has_arg("-q"));
    assert!(args.get_arg("-m").is_none());
    assert_eq!(args.count_arg(""), 1);
}

#[test]
fn counts_repeated_values() {
    let args = Args::new(strings(&["prog", "a", "b", "-v"]), strings(&["-v"]));
    assert_eq!(args.count_arg(""), 2);
    assert_eq!(args.get_arg("").unwrap().value, "a");
    assert_eq!(args.count_arg("-v"), 1);
}

#[test]
fn empty_command_line() {
    let args = Args::new(vec![], vec![]);
    assert!(!args.has_arg(""));
    assert_eq!(args.count_arg(""), 0);
}
