//! The serialization table, the argument list, and the parse back.

use inkscape_export::args::InkscapeArgs;

fn args(png: bool, pdf: bool, eps: bool) -> InkscapeArgs {
    InkscapeArgs {
        file_path_input: None,
        export_png: png,
        export_eps: eps,
        export_pdf: pdf,
    }
}

fn flag_of(png: bool, pdf: bool, eps: bool) -> Option<String> {
    args(png, pdf, eps).export_type_flag()
}

#[test]
fn export_type_table_all_selected() {
    assert_eq!(
        flag_of(true, true, true).as_deref(),
        Some("--export-type=png,pdf,eps")
    );
}

#[test]
fn export_type_table_pairs() {
    assert_eq!(
        flag_of(true, true, false).as_deref(),
        Some("--export-type=png,pdf")
    );
    assert_eq!(
        flag_of(true, false, true).as_deref(),
        Some("--export-type=png,eps")
    );
    assert_eq!(
        flag_of(false, true, true).as_deref(),
        Some("--export-type=pdf,eps")
    );
}

#[test]
fn export_type_table_singles() {
    assert_eq!(
        flag_of(true, false, false).as_deref(),
        Some("--export-type=png")
    );
    assert_eq!(
        flag_of(false, true, false).as_deref(),
        Some("--export-type=pdf")
    );
    assert_eq!(
        flag_of(false, false, true).as_deref(),
        Some("--export-type=eps")
    );
}

#[test]
fn export_type_table_none_selected() {
    assert_eq!(flag_of(false, false, false), None);
}

#[test]
fn export_args_empty_when_nothing_requested() {
    let argv = args(false, false, false).export_args();
    assert!(argv.is_empty());
}

#[test]
fn export_args_flag_then_input() {
    let mut a = args(true, false, true);
    a.file_path_input = Some(String::from("drawing.svg"));
    let argv = a.export_args();
    assert_eq!(argv, vec!["--export-type=png,eps", "drawing.svg"]);
}

#[test]
fn parse_round_trip_all_formats() {
    let argv = args(true, true, true).export_args();
    let back = InkscapeArgs::from_command_args(&argv);
    assert!(back.export_png);
    assert!(back.export_pdf);
    assert!(back.export_eps);
    assert_eq!(back.file_path_input, None);
}

#[test]
fn parse_round_trip_each_combination() {
    for bits in 0..8u8 {
        let png = bits & 1 != 0;
        let pdf = bits & 2 != 0;
        let eps = bits & 4 != 0;
        let mut a = args(png, pdf, eps);
        a.file_path_input = Some(String::from("in.svg"));
        let back = InkscapeArgs::from_command_args(&a.export_args());
        assert_eq!(back.export_png, png);
        assert_eq!(back.export_pdf, pdf);
        assert_eq!(back.export_eps, eps);
        assert_eq!(back.file_path_input.as_deref(), Some("in.svg"));
    }
}

#[test]
fn parse_ignores_token_order() {
    let argv = vec![String::from("--export-type=eps,png,pdf")];
    let back = InkscapeArgs::from_command_args(&argv);
    assert!(back.export_png);
    assert!(back.export_pdf);
    assert!(back.export_eps);
}

#[test]
fn parse_ignores_unknown_format_names() {
    let argv = vec![String::from("--export-type=svg,png")];
    let back = InkscapeArgs::from_command_args(&argv);
    assert!(back.export_png);
    assert!(!back.export_pdf);
    assert!(!back.export_eps);
}

#[test]
fn parse_takes_other_tokens_as_input_path() {
    let argv = vec![
        String::from("--export-type=pdf"),
        String::from("picture.svg"),
    ];
    let back = InkscapeArgs::from_command_args(&argv);
    assert!(back.export_pdf);
    assert_eq!(back.file_path_input.as_deref(), Some("picture.svg"));
}

#[test]
fn parse_last_positional_token_wins() {
    let argv = vec![String::from("first.svg"), String::from("second.svg")];
    let back = InkscapeArgs::from_command_args(&argv);
    assert_eq!(back.file_path_input.as_deref(), Some("second.svg"));
    assert!(!back.export_png && !back.export_pdf && !back.export_eps);
}

#[test]
fn parse_empty_list_gives_empty_request() {
    let back = InkscapeArgs::from_command_args(&Vec::new());
    assert!(!back.export_png && !back.export_pdf && !back.export_eps);
    assert_eq!(back.file_path_input, None);
}

#[test]
fn parse_empty_format_list_selects_nothing() {
    let argv = vec![String::from("--export-type=")];
    let back = InkscapeArgs::from_command_args(&argv);
    assert!(!back.export_png && !back.export_pdf && !back.export_eps);
    assert_eq!(back.file_path_input, None);
}

#[test]
fn snapshot_is_equal_and_independent() {
    let mut a = args(true, false, false);
    a.file_path_input = Some(String::from("a.svg"));
    let copy = a.snapshot();
    a.export_png = false;
    a.file_path_input = None;
    assert!(copy.export_png);
    assert_eq!(copy.file_path_input.as_deref(), Some("a.svg"));
}
