//! The builder, the command line, and the dry-run report.

use inkscape_export::args::InkscapeArgs;
use inkscape_export::builder::InkscapeArgsBuilder;
use inkscape_export::cmd::InkscapeCmd;

#[test]
fn builder_starts_empty() {
    let b = InkscapeArgsBuilder::new();
    let a = b.build();
    assert!(!a.export_png && !a.export_pdf && !a.export_eps);
    assert_eq!(a.file_path_input, None);
}

#[test]
fn builder_default_matches_new() {
    let a = InkscapeArgsBuilder::default().build();
    let b = InkscapeArgsBuilder::new().build();
    assert_eq!(a.export_png, b.export_png);
    assert_eq!(a.export_pdf, b.export_pdf);
    assert_eq!(a.export_eps, b.export_eps);
    assert_eq!(a.file_path_input, b.file_path_input);
}

#[test]
fn builder_sets_exactly_one_flag() {
    let mut b = InkscapeArgsBuilder::new();
    b.png(true);
    let a = b.build();
    assert!(a.export_png && !a.export_pdf && !a.export_eps);
    b.pdf(true);
    let a = b.build();
    assert!(a.export_png && a.export_pdf && !a.export_eps);
    b.png(false);
    let a = b.build();
    assert!(!a.export_png && a.export_pdf && !a.export_eps);
}

#[test]
fn builder_toggle_chain_like_ui_events() {
    let mut b = InkscapeArgsBuilder::new();
    b.png(true);
    b.eps(true);
    b.pdf(true);
    b.eps(false);
    let a = b.build();
    assert!(a.export_png && a.export_pdf && !a.export_eps);
}

#[test]
fn builder_snapshot_is_independent() {
    let mut b = InkscapeArgsBuilder::new();
    b.png(true);
    let first = b.build();
    b.png(false);
    let second = b.build();
    assert!(first.export_png);
    assert!(!second.export_png);
}

#[test]
fn command_line_starts_with_executable() {
    let mut b = InkscapeArgsBuilder::new();
    b.pdf(true);
    let cmd = InkscapeCmd::new(String::from("/usr/bin/inkscape"), b.build());
    let argv = cmd.command_line();
    assert_eq!(argv, vec!["/usr/bin/inkscape", "--export-type=pdf"]);
}

#[test]
fn command_line_without_formats_has_no_flag() {
    let cmd = InkscapeCmd::new(
        String::from("/usr/bin/inkscape"),
        InkscapeArgsBuilder::new().build(),
    );
    assert_eq!(cmd.command_line(), vec!["/usr/bin/inkscape"]);
}

#[test]
fn command_line_appends_input_path() {
    let args = InkscapeArgs {
        file_path_input: Some(String::from("test.svg")),
        export_png: true,
        export_eps: true,
        export_pdf: true,
    };
    let cmd = InkscapeCmd::new(String::from("inkscape"), args);
    assert_eq!(
        cmd.command_line(),
        vec!["inkscape", "--export-type=png,pdf,eps", "test.svg"]
    );
}

#[test]
fn dryrun_reports_whole_invocation() {
    let args = InkscapeArgs {
        file_path_input: Some(String::from("test.svg")),
        export_png: true,
        export_eps: false,
        export_pdf: true,
    };
    let cmd = InkscapeCmd::new(String::from("/usr/bin/inkscape"), args);
    assert_eq!(
        cmd.dryrun(),
        "DRYRUN: /usr/bin/inkscape --export-type=png,pdf test.svg"
    );
}

#[test]
fn dryrun_of_empty_request_is_just_the_program() {
    let cmd = InkscapeCmd::new(
        String::from("inkscape"),
        InkscapeArgsBuilder::new().build(),
    );
    assert_eq!(cmd.dryrun(), "DRYRUN: inkscape");
}
