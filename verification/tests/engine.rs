use render_assets::{
    build_invocation, diagnostic_text, Action, Event, Opts, Outcome, Phase, RenderError, RenderJob,
    RenderRun, Renderer,
};

fn job(name: &str) -> RenderJob {
    RenderJob {
        source_file: "ship.blend".to_string(),
        asset_name: name.to_string(),
        model_path: "ship.blend".to_string(),
        output: format!("{}.png", name),
        output_path: format!("assets/rendered/{}.png", name),
        object: name.to_uppercase(),
        width: 256,
        z_local_frames: 1,
        z_frames: 1,
        x_frames: 1,
    }
}

fn renderer() -> Renderer {
    Renderer { executable: "blender".to_string(), script: "pass".to_string() }
}

fn run_over(names: &[&str], no_override: bool) -> RenderRun {
    RenderRun::new(names.iter().map(|name| job(name)).collect(), renderer(), Opts { no_override })
}

#[test]
fn new_pass_is_pending_with_nothing_done() {
    let run = run_over(&["hull", "mast"], true);
    assert_eq!(run.phase(), Phase::Pending);
    assert_eq!(run.progress(), 0);
    assert_eq!(run.total(), 2);
    assert_eq!(run.invocations(), 0);
    assert!(run.outcomes().is_empty());
    assert_eq!(run.current_job(), Some(&job("hull")));
}

#[test]
fn existing_output_is_skipped_without_invocation() {
    let run = run_over(&["hull", "mast"], true);
    let (run, action) = run.step(Event::Next);
    assert_eq!(action, Action::Probe { path: "assets/rendered/hull.png".to_string() });
    assert_eq!(run.phase(), Phase::Probing);
    assert_eq!(run.progress(), 0);
    let (run, action) = run.step(Event::Probed { exists: true });
    assert_eq!(action, Action::Advance);
    assert_eq!(run.phase(), Phase::Pending);
    assert_eq!(run.invocations(), 0);
    assert_eq!(run.progress(), 1);
    assert_eq!(run.outcomes(), &vec![Outcome::Skipped]);
    assert_eq!(run.current_job(), Some(&job("mast")));
}

#[test]
fn missing_output_is_rendered_when_outputs_are_kept() {
    let run = run_over(&["hull"], true);
    let (run, _) = run.step(Event::Next);
    let (run, action) = run.step(Event::Probed { exists: false });
    assert_eq!(action, Action::Invoke(build_invocation(&renderer(), &job("hull"))));
    assert_eq!(run.phase(), Phase::Rendering);
    assert_eq!(run.invocations(), 1);
    assert_eq!(run.progress(), 0);
    let (run, action) = run.step(Event::Exited { success: true });
    assert_eq!(action, Action::Advance);
    assert_eq!(run.progress(), 1);
    assert_eq!(run.outcomes(), &vec![Outcome::Rendered]);
    let (run, action) = run.step(Event::Next);
    assert_eq!(action, Action::Finish);
    assert_eq!(run.phase(), Phase::Finished);
    assert_eq!(run.invocations(), 1);
}

#[test]
fn without_no_override_nothing_is_probed() {
    let run = run_over(&["hull", "mast"], false);
    let (run, action) = run.step(Event::Next);
    assert_eq!(action, Action::Invoke(build_invocation(&renderer(), &job("hull"))));
    let (run, action) = run.step(Event::Exited { success: true });
    assert_eq!(action, Action::Advance);
    let (run, action) = run.step(Event::Next);
    assert_eq!(action, Action::Invoke(build_invocation(&renderer(), &job("mast"))));
    let (run, action) = run.step(Event::Exited { success: true });
    assert_eq!(action, Action::Advance);
    let (run, action) = run.step(Event::Next);
    assert_eq!(action, Action::Finish);
    assert_eq!(run.invocations(), 2);
    assert_eq!(run.progress(), 2);
    assert_eq!(run.outcomes(), &vec![Outcome::Rendered, Outcome::Rendered]);
    assert_eq!(run.current_job(), None);
}

#[test]
fn first_failure_aborts_with_exactly_one_invocation() {
    let run = run_over(&["hull", "mast"], false);
    let (run, action) = run.step(Event::Next);
    assert!(matches!(action, Action::Invoke(_)));
    let (run, action) = run.step(Event::Exited { success: false });
    assert_eq!(action, Action::Abort(RenderError::RenderFailure { object: "HULL".to_string() }));
    assert_eq!(run.phase(), Phase::Aborted);
    assert_eq!(run.invocations(), 1);
    assert_eq!(run.progress(), 0);
    let mut run = run;
    for event in [
        Event::Next,
        Event::Probed { exists: false },
        Event::Exited { success: true },
        Event::SpawnFailed { cause: "again".to_string() },
        Event::Next,
    ] {
        let (next, action) = run.step(event);
        assert_eq!(action, Action::Rejected);
        run = next;
    }
    assert_eq!(run.phase(), Phase::Aborted);
    assert_eq!(run.invocations(), 1);
    assert_eq!(run.progress(), 0);
    assert!(run.outcomes().is_empty());
}

#[test]
fn failure_after_rendered_assets_keeps_their_outcomes() {
    let run = run_over(&["hull", "mast", "keel"], true);
    let (run, _) = run.step(Event::Next);
    let (run, _) = run.step(Event::Probed { exists: true });
    let (run, _) = run.step(Event::Next);
    let (run, _) = run.step(Event::Probed { exists: false });
    let (run, action) = run.step(Event::Exited { success: false });
    assert_eq!(action, Action::Abort(RenderError::RenderFailure { object: "MAST".to_string() }));
    assert_eq!(run.phase(), Phase::Aborted);
    assert_eq!(run.progress(), 1);
    assert_eq!(run.invocations(), 1);
    assert_eq!(run.outcomes(), &vec![Outcome::Skipped]);
    assert_eq!(run.current_job(), Some(&job("mast")));
}

#[test]
fn renderer_that_cannot_start_aborts() {
    let run = run_over(&["hull", "mast"], false);
    let (run, _) = run.step(Event::Next);
    let (run, action) = run.step(Event::SpawnFailed { cause: "No such file or directory".to_string() });
    let error = RenderError::InvocationError {
        object: "HULL".to_string(),
        cause: "No such file or directory".to_string(),
    };
    assert_eq!(action, Action::Abort(error.clone()));
    assert_eq!(error.message(), "Failed to render HULL: No such file or directory");
    assert_eq!(run.phase(), Phase::Aborted);
    assert_eq!(run.invocations(), 1);
    let (run, action) = run.step(Event::Next);
    assert_eq!(action, Action::Rejected);
    assert_eq!(run.invocations(), 1);
}

#[test]
fn render_failure_message_names_the_object() {
    let error = RenderError::RenderFailure { object: "Hull".to_string() };
    assert_eq!(error.message(), "Failed to render Hull:");
}

#[test]
fn unexpected_events_are_rejected_and_change_nothing() {
    let run = run_over(&["hull"], true);
    let (run, action) = run.step(Event::Probed { exists: true });
    assert_eq!(action, Action::Rejected);
    let (run, action) = run.step(Event::Exited { success: true });
    assert_eq!(action, Action::Rejected);
    assert_eq!((run.phase(), run.progress(), run.invocations()), (Phase::Pending, 0, 0));
    let (run, _) = run.step(Event::Next);
    let (run, action) = run.step(Event::Next);
    assert_eq!(action, Action::Rejected);
    let (run, action) = run.step(Event::Exited { success: false });
    assert_eq!(action, Action::Rejected);
    assert_eq!((run.phase(), run.progress(), run.invocations()), (Phase::Probing, 0, 0));
    let (run, _) = run.step(Event::Probed { exists: false });
    let (run, action) = run.step(Event::Probed { exists: true });
    assert_eq!(action, Action::Rejected);
    let (run, action) = run.step(Event::Next);
    assert_eq!(action, Action::Rejected);
    assert_eq!((run.phase(), run.progress(), run.invocations()), (Phase::Rendering, 0, 1));
}

#[test]
fn empty_pass_finishes_at_once() {
    let run = run_over(&[], true);
    assert_eq!(run.total(), 0);
    let (run, action) = run.step(Event::Next);
    assert_eq!(action, Action::Finish);
    assert_eq!(run.phase(), Phase::Finished);
    let (run, action) = run.step(Event::Next);
    assert_eq!(action, Action::Rejected);
    assert_eq!(run.phase(), Phase::Finished);
    assert_eq!(run.invocations(), 0);
}

#[test]
fn progress_counts_skipped_and_rendered_assets() {
    let exists = [true, false, true, false, false];
    let names = ["a", "b", "c", "d", "e"];
    let mut run = run_over(&names, true);
    let mut action = Action::Advance;
    let mut probes = 0;
    let mut invocations = 0;
    let mut advances = 0;
    loop {
        let event = match &action {
            Action::Advance => Event::Next,
            Action::Probe { path } => {
                assert_eq!(path, &format!("assets/rendered/{}.png", names[advances]));
                probes += 1;
                Event::Probed { exists: exists[advances] }
            }
            Action::Invoke(invocation) => {
                assert_eq!(invocation.args[8], names[advances].to_uppercase());
                invocations += 1;
                Event::Exited { success: true }
            }
            Action::Finish => break,
            other => panic!("unexpected action {:?}", other),
        };
        let before = run.progress();
        let (next, next_action) = run.step(event);
        if next_action == Action::Advance {
            advances += 1;
            assert_eq!(next.progress(), before + 1);
        } else {
            assert_eq!(next.progress(), before);
        }
        run = next;
        action = next_action;
    }
    assert_eq!(probes, 5);
    assert_eq!(invocations, 3);
    assert_eq!(advances, 5);
    assert_eq!(run.invocations(), 3);
    assert_eq!(run.progress(), 5);
    assert_eq!(
        run.outcomes(),
        &vec![
            Outcome::Skipped,
            Outcome::Rendered,
            Outcome::Skipped,
            Outcome::Rendered,
            Outcome::Rendered
        ]
    );
}

#[test]
fn diagnostic_text_shows_both_streams() {
    assert_eq!(
        diagnostic_text("Blender 3.0\nsaved", "warning: x"),
        "-- blender stdout:\nBlender 3.0\nsaved\n-- blender stderr:\nwarning: x\n"
    );
    assert_eq!(diagnostic_text("", ""), "-- blender stdout:\n\n-- blender stderr:\n\n");
}
