use zipy::events::{stopped_event, EventReader, ReadOutcome, ReaderAction};
use zipy::supervisor::{
    binary_candidates, caption_args, exec_permission_fix, join_path, launch_plan, library_dir,
    resolve_binary, Supervisor,
};

#[test]
fn stop_without_process_is_a_no_op() {
    let mut sup: Supervisor<u32> = Supervisor::new();
    assert!(!sup.is_running());
    assert_eq!(sup.stop(), None);
    assert!(!sup.is_running());
    assert_eq!(sup.stop(), None);
}

#[test]
fn install_hands_back_the_previous_process() {
    let mut sup: Supervisor<u32> = Supervisor::new();
    assert_eq!(sup.install(7), None);
    assert!(sup.is_running());
    assert_eq!(sup.install(8), Some(7));
    assert_eq!(sup.stop(), Some(8));
    assert!(!sup.is_running());
}

#[test]
fn stopped_is_emitted_once_after_the_pipe_closes() {
    let mut reader = EventReader::new();
    let inputs = vec![
        ReadOutcome::Line("{\"type\":\"ready\"}".to_string()),
        ReadOutcome::Line(String::new()),
        ReadOutcome::Line("not json".to_string()),
        ReadOutcome::Closed,
        ReadOutcome::Closed,
        ReadOutcome::Line("late".to_string()),
    ];
    let actions: Vec<ReaderAction> = inputs.into_iter().map(|o| reader.on_read(o)).collect();
    assert_eq!(
        actions,
        vec![
            ReaderAction::Parse("{\"type\":\"ready\"}".to_string()),
            ReaderAction::Skip,
            ReaderAction::Parse("not json".to_string()),
            ReaderAction::EmitStopped,
            ReaderAction::Idle,
            ReaderAction::Idle,
        ]
    );
    let stops = actions.iter().filter(|a| **a == ReaderAction::EmitStopped).count();
    assert_eq!(stops, 1);
}

#[test]
fn no_stopped_event_while_the_pipe_is_open() {
    let mut reader = EventReader::new();
    assert_eq!(reader.on_read(ReadOutcome::Line("x".to_string())), ReaderAction::Parse("x".to_string()));
    assert!(!reader.finished);
}

#[test]
fn stopped_event_has_only_its_type() {
    let e = stopped_event();
    assert_eq!(e.event_type, "stopped");
    assert_eq!(e.caption_type, None);
    assert_eq!(e.text, None);
    assert_eq!(e.timestamp, None);
}

#[test]
fn join_path_adds_one_separator() {
    assert_eq!(join_path("/opt/app", "bin"), "/opt/app/bin");
    assert_eq!(join_path("/opt/app/", "bin"), "/opt/app/bin");
    assert_eq!(join_path("", "bin"), "bin");
}

#[test]
fn candidates_put_bundled_paths_before_system_paths() {
    let c = binary_candidates("/app", Some("/res/zig-april-captions".to_string()), "/home/u", "zig-april-captions", true);
    assert_eq!(
        c,
        vec![
            "/app/zig-april-captions",
            "/app/resources/zig-april-captions",
            "/app/../resources/zig-april-captions",
            "/res/zig-april-captions",
            "/usr/lib/zipy/zig-april-captions",
            "../zig-april-captions/zig-out/bin/zig-april-captions",
            "/home/u/workspace/local/zig/zig-april-captions/zig-out/bin/zig-april-captions",
        ]
    );
    let without = binary_candidates("/app", None, "", "zig-april-captions", true);
    assert_eq!(without.len(), 6);
    assert_eq!(without[3], "/usr/lib/zipy/zig-april-captions");
    assert_eq!(without[5], "/workspace/local/zig/zig-april-captions/zig-out/bin/zig-april-captions");
    let elsewhere = binary_candidates("/app", None, "/h", "zig-april-captions", false);
    assert_eq!(elsewhere.len(), 5);
    assert!(!elsewhere.iter().any(|p| p.starts_with("/usr/lib/zipy")));
}

#[test]
fn first_existing_candidate_wins() {
    let c = vec!["a".to_string(), "b".to_string(), "c".to_string()];
    assert_eq!(resolve_binary(&c, &vec![false, true, true], "name"), "b");
    assert_eq!(resolve_binary(&c, &vec![false, false, false], "name"), "name");
}

#[test]
fn arguments_depend_on_audio_source() {
    assert_eq!(caption_args("/m.onnx", "monitor"), vec!["--json", "--monitor", "/m.onnx"]);
    assert_eq!(caption_args("/m.onnx", "mic"), vec!["--json", "/m.onnx"]);
}

#[test]
fn execute_bits_are_added_only_when_missing() {
    assert_eq!(exec_permission_fix(0o644), Some(0o755));
    assert_eq!(exec_permission_fix(0o700), None);
    assert_eq!(exec_permission_fix(0o100644), Some(0o100755));
}

#[test]
fn library_dir_is_the_binary_directory() {
    assert_eq!(library_dir("/usr/lib/zipy/zig-april-captions"), "/usr/lib/zipy");
    assert_eq!(library_dir("/bin"), "/");
    assert_eq!(library_dir("zig-april-captions"), "");
}

#[test]
fn launch_plan_reports_a_missing_binary() {
    match launch_plan("/x/bin", false, "/m", "mic") {
        Err(msg) => assert_eq!(msg, "Binary not found at path: /x/bin"),
        Ok(_) => panic!("expected an error"),
    }
    let plan = launch_plan("/x/bin", true, "/m", "monitor").ok().unwrap();
    assert_eq!(plan.program, "/x/bin");
    assert_eq!(plan.args, vec!["--json", "--monitor", "/m"]);
    assert_eq!(plan.library_dir, "/x");
}
