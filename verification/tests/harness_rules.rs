use eqforbeginner::cli::{parse_command_line, usage, CliCommand};
use eqforbeginner::error::DspError;
use eqforbeginner::harness::expected_role;
use eqforbeginner::sources::{
    admit_declaration, check_any_source, check_source_digest, escaped_root_error, hex_string,
    relative_path_is_safe, safe_relative_path, sha256_bytes, PathComponentKind, SourceDeclaration,
};

fn args(values: &[&str]) -> Vec<String> {
    values.iter().map(|value| value.to_string()).collect()
}

#[test]
fn no_arguments_generate_the_synthetic_example() {
    assert_eq!(
        parse_command_line(&args(&[])),
        Ok(CliCommand::GenerateExample { output: "examples/phase1".to_string() })
    );
}

#[test]
fn options_override_their_defaults_in_any_order() {
    assert_eq!(
        parse_command_line(&args(&["analyze-sub", "--output", "out", "--dataset", "d.json"])),
        Ok(CliCommand::AnalyzeSub {
            dataset: "d.json".to_string(),
            source_root: "measurments".to_string(),
            output: "out".to_string(),
        })
    );
    assert_eq!(
        parse_command_line(&args(&["prepare-phase6-beta", "--design-csv", "x.csv"])),
        Ok(CliCommand::PreparePhase6Beta {
            phase4_project: "examples/phase4-offline-measured/project.json".to_string(),
            design_csv: "x.csv".to_string(),
            phase4_wav: "examples/phase4-offline-measured/filter/EQforBeginner_48000_Phase4_Trial.wav".to_string(),
            output: "examples/phase6-measured-preview".to_string(),
        })
    );
}

#[test]
fn help_wins_anywhere_on_the_line() {
    assert_eq!(parse_command_line(&args(&["-h"])), Ok(CliCommand::Help));
    assert_eq!(parse_command_line(&args(&["verify-48k-offline", "--dataset", "a", "--help"])), Ok(CliCommand::Help));
}

#[test]
fn unknown_commands_and_flags_print_the_usage() {
    let error = parse_command_line(&args(&["frobnicate"])).unwrap_err();
    assert_eq!(error, format!("unknown command `frobnicate`\n{}", usage()));
    let error = parse_command_line(&args(&["generate-example", "--dataset", "x"])).unwrap_err();
    assert_eq!(error, format!("unknown argument `--dataset`\n{}", usage()));
    assert!(usage().starts_with("Usage:\n  eqforbeginner-cli generate-example"));
}

#[test]
fn a_flag_without_its_value_is_an_error() {
    assert_eq!(
        parse_command_line(&args(&["generate-phase6-reference", "--output"])),
        Err("--output requires a directory".to_string())
    );
    assert_eq!(
        parse_command_line(&args(&["analyze-sub", "--source-root"])),
        Err("--source-root requires a path".to_string())
    );
}

#[test]
fn digests_are_lowercase_hexadecimal() {
    assert_eq!(hex_string(&[0x00, 0x0f, 0xa5, 0xff]), "000fa5ff");
    assert_eq!(
        sha256_bytes(b"abc"),
        "ba7816bf8f01cfea414140de5dae2223b00361a396177a9cb410ff61f20015ad"
    );
    assert_eq!(
        sha256_bytes(b""),
        "e3b0c44298fc1c149afbf4c8996fb92427ae41e4649b934ca495991b7852b855"
    );
}

#[test]
fn only_plain_relative_paths_are_safe() {
    assert!(safe_relative_path("phase3/main-p0.wav"));
    assert!(!safe_relative_path("../measurement.bin"));
    assert!(!safe_relative_path("/etc/passwd"));
    assert!(!safe_relative_path("./a"));
    assert!(relative_path_is_safe(false, &vec![PathComponentKind::Normal, PathComponentKind::Normal]));
    assert!(!relative_path_is_safe(false, &vec![PathComponentKind::Normal, PathComponentKind::ParentDir]));
    assert!(!relative_path_is_safe(true, &vec![]));
}

fn declaration<'a>(id: &'a str, path: &'a str) -> SourceDeclaration<'a> {
    SourceDeclaration { id, relative_path: path, sha256: "00", bytes: 4 }
}

#[test]
fn declarations_need_an_id_a_safe_path_and_no_repeats() {
    let mut seen = Vec::new();
    assert_eq!(admit_declaration(&mut seen, &declaration("a", "x.wav"), true), Ok(()));
    assert_eq!(seen, vec!["x.wav".to_string()]);
    assert_eq!(
        admit_declaration(&mut seen, &declaration("b", "x.wav"), true),
        Err("duplicate source path `x.wav` in fixture".to_string())
    );
    assert_eq!(
        admit_declaration(&mut seen, &declaration(" ", "y.wav"), true),
        Err("source declaration id must not be empty".to_string())
    );
    assert_eq!(
        admit_declaration(&mut seen, &declaration("c", "../y.wav"), false),
        Err("source `c` has unsafe path `../y.wav`".to_string())
    );
    assert_eq!(seen, vec!["x.wav".to_string()]);
}

#[test]
fn changed_or_escaping_sources_are_rejected() {
    let declared = declaration("main", "m.wav");
    assert_eq!(check_source_digest(&declared, "00", 4), Ok(()));
    assert_eq!(
        check_source_digest(&declared, "01", 4),
        Err("source `main` hash or size changed; regenerate the fixture".to_string())
    );
    assert!(check_source_digest(&declared, "00", 5).is_err());
    assert_eq!(escaped_root_error("main"), "source `main` escapes the declared source root");
    assert_eq!(check_any_source(0), Err("fixture must declare at least one source file".to_string()));
    assert_eq!(check_any_source(1), Ok(()));
}

#[test]
fn response_ids_declare_their_role_by_prefix() {
    assert_eq!(expected_role("combined-p0"), Some("combined"));
    assert_eq!(expected_role("main-p3"), Some("main-only"));
    assert_eq!(expected_role("sub-p1"), Some("sub-only"));
    assert_eq!(expected_role("subwoofer"), None);
    assert_eq!(expected_role("main"), None);
}

#[test]
fn dsp_errors_render_their_context() {
    assert_eq!(DspError::EmptyInput("impulse").to_string(), "impulse must not be empty");
    assert_eq!(
        DspError::NonFinite { context: "impulse response", index: 12 }.to_string(),
        "impulse response contains a non-finite value at index 12"
    );
    assert_eq!(
        DspError::TargetParse { line: 3, message: "bad".to_string() }.to_string(),
        "target line 3: bad"
    );
    assert_eq!(DspError::InvalidArgument("x".to_string()).to_string(), "x");
    assert_eq!(DspError::ShapeMismatch("y".to_string()).to_string(), "y");
}

#[test]
fn a_changed_source_no_longer_matches_its_declaration() {
    let trusted = sha256_bytes(b"trusted");
    assert_eq!(trusted, "a9a089195c68d2adeee23beaa2c3a93b1d4cdf09046e7a9e520b3b166dff3e6a");
    let declared = SourceDeclaration { id: "measurement", relative_path: "measurement.bin", sha256: &trusted, bytes: 7 };
    assert_eq!(check_source_digest(&declared, &trusted, 7), Ok(()));
    assert!(check_source_digest(&declared, &sha256_bytes(b"changed"), 7).is_err());

    let escape = SourceDeclaration { id: "escape", relative_path: "../measurement.bin", sha256: &trusted, bytes: 7 };
    let mut seen = Vec::new();
    let path_safe = safe_relative_path(escape.relative_path);
    assert!(!path_safe);
    assert!(admit_declaration(&mut seen, &escape, path_safe).is_err());
}

#[test]
fn portable_paths_are_safe_exactly_when_they_stay_below_the_root() {
    assert!(safe_relative_path(""));
    assert!(safe_relative_path("a/./b"));
    assert!(safe_relative_path("a..b/c"));
    assert!(!safe_relative_path("a/.."));
    assert!(!safe_relative_path("."));
    assert!(!safe_relative_path("/"));
}
