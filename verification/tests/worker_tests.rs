//! The worker state machine: discovery outcomes and message servicing.

use inkscape_export::args::InkscapeArgs;
use inkscape_export::worker::process_messages;
use inkscape_export::worker::InkscapeMessage;
use inkscape_export::worker::WorkerState;

fn request(png: bool, pdf: bool, eps: bool) -> InkscapeArgs {
    InkscapeArgs {
        file_path_input: None,
        export_png: png,
        export_eps: eps,
        export_pdf: pdf,
    }
}

fn exe() -> Option<String> {
    Some(String::from("/usr/bin/inkscape"))
}

#[test]
fn quit_before_any_export_spawns_nothing() {
    let msgs = vec![
        InkscapeMessage::Quit,
        InkscapeMessage::Export(request(true, true, true)),
    ];
    let launches = process_messages(exe(), &msgs);
    assert!(launches.is_empty());
}

#[test]
fn two_exports_give_two_independent_launches() {
    let msgs = vec![
        InkscapeMessage::Export(request(true, false, false)),
        InkscapeMessage::Export(request(false, true, false)),
    ];
    let launches = process_messages(exe(), &msgs);
    assert_eq!(launches.len(), 2);
    assert_eq!(launches[0].exe_path, "/usr/bin/inkscape");
    assert_eq!(launches[1].exe_path, "/usr/bin/inkscape");
    assert!(launches[0].args.export_png && !launches[0].args.export_pdf);
    assert!(launches[1].args.export_pdf && !launches[1].args.export_png);
}

#[test]
fn failed_discovery_services_no_message_at_all() {
    let msgs = vec![
        InkscapeMessage::Export(request(true, true, true)),
        InkscapeMessage::Export(request(true, false, false)),
    ];
    let launches = process_messages(None, &msgs);
    assert!(launches.is_empty());
}

#[test]
fn quit_stops_servicing_later_exports() {
    let msgs = vec![
        InkscapeMessage::Export(request(true, false, false)),
        InkscapeMessage::Quit,
        InkscapeMessage::Export(request(false, false, true)),
    ];
    let launches = process_messages(exe(), &msgs);
    assert_eq!(launches.len(), 1);
    assert!(launches[0].args.export_png);
}

#[test]
fn empty_queue_spawns_nothing() {
    let launches = process_messages(exe(), &Vec::new());
    assert!(launches.is_empty());
}

#[test]
fn discovery_success_makes_the_worker_ready() {
    let state = WorkerState::new().on_discovery(Some(String::from("/opt/bin/inkscape")));
    match state {
        WorkerState::Ready { exe_path } => assert_eq!(exe_path, "/opt/bin/inkscape"),
        _ => panic!("worker should be ready after a successful discovery"),
    }
}

#[test]
fn discovery_failure_terminates_the_worker() {
    let state = WorkerState::new().on_discovery(None);
    assert!(matches!(state, WorkerState::Terminated));
}

#[test]
fn ready_worker_launches_each_export_with_its_own_arguments() {
    let mut state = WorkerState::Ready {
        exe_path: String::from("inkscape"),
    };
    let launch = state.on_message(InkscapeMessage::Export(request(false, true, true)));
    let cmd = launch.expect("an export message must yield a launch");
    assert_eq!(cmd.exe_path, "inkscape");
    assert!(cmd.args.export_pdf && cmd.args.export_eps && !cmd.args.export_png);
    assert!(matches!(state, WorkerState::Ready { .. }));
}

#[test]
fn ready_worker_quits_without_launching() {
    let mut state = WorkerState::Ready {
        exe_path: String::from("inkscape"),
    };
    let launch = state.on_message(InkscapeMessage::Quit);
    assert!(launch.is_none());
    assert!(matches!(state, WorkerState::Terminated));
}
