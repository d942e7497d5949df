use wam::progress::{Frame, Phase, ProgressState, ProgressUpdate};

fn started(subject: &str, step: &'static str) -> ProgressUpdate {
    ProgressUpdate::Started { subject: subject.to_string(), step }
}

fn progressed(subject: &str, step: &'static str) -> ProgressUpdate {
    ProgressUpdate::Progressed { subject: subject.to_string(), step }
}

fn done(subject: &str) -> ProgressUpdate {
    ProgressUpdate::Done { subject: subject.to_string() }
}

fn shown(state: &ProgressState) -> Vec<(String, &'static str)> {
    state.current.clone()
}

#[test]
fn a_new_display_shows_nothing() {
    let state = ProgressState::new();
    assert_eq!(state.current_phase, Phase::Idle);
    assert_eq!(state.lines_drawn, 0);
    assert!(state.current.is_empty());
}

#[test]
fn a_start_adds_a_line_once() {
    let mut state = ProgressState::new();
    let frame = state.handle(started("dbm", "downloading metadata"));
    assert_eq!(frame, Frame { erase: 0, lines: vec!["dbm: downloading metadata".to_string()] });
    let frame = state.handle(started("dbm", "again"));
    assert_eq!(frame, Frame { erase: 1, lines: vec!["dbm: downloading metadata".to_string()] });
    state.handle(started("weakauras", "reading filename"));
    assert_eq!(
        shown(&state),
        vec![
            ("dbm".to_string(), "downloading metadata"),
            ("weakauras".to_string(), "reading filename")
        ]
    );
    assert_eq!(state.lines_drawn, 2);
}

#[test]
fn progress_replaces_the_line_where_it_stands() {
    let mut state = ProgressState::new();
    state.handle(started("a", "one"));
    state.handle(started("b", "one"));
    state.handle(started("c", "one"));
    let frame = state.handle(progressed("b", "two"));
    assert_eq!(frame.erase, 3);
    assert_eq!(frame.lines, vec!["a: one", "b: two", "c: one"]);
    let frame = state.handle(progressed("unknown", "two"));
    assert_eq!(frame.lines, vec!["a: one", "b: two", "c: one"]);
}

#[test]
fn completion_removes_the_line() {
    let mut state = ProgressState::new();
    state.handle(started("a", "one"));
    state.handle(started("b", "one"));
    state.handle(started("c", "one"));
    let frame = state.handle(done("b"));
    assert_eq!(frame, Frame { erase: 3, lines: vec!["a: one".to_string(), "c: one".to_string()] });
    assert_eq!(state.lines_drawn, 2);
    let frame = state.handle(done("b"));
    assert_eq!(frame.erase, 2);
    assert_eq!(frame.lines.len(), 2);
    state.handle(done("a"));
    let frame = state.handle(done("c"));
    assert_eq!(frame, Frame { erase: 1, lines: Vec::new() });
    assert_eq!(state.lines_drawn, 0);
}

#[test]
fn completion_removes_every_line_of_the_subject() {
    let mut state = ProgressState::new();
    state.current.push(("a".to_string(), "one"));
    state.current.push(("b".to_string(), "one"));
    state.current.push(("a".to_string(), "two"));
    state.handle(done("a"));
    assert_eq!(shown(&state), vec![("b".to_string(), "one")]);
}

#[test]
fn phase_events_change_no_line() {
    let mut state = ProgressState::new();
    state.handle(started("a", "one"));
    let frame = state.handle(ProgressUpdate::PhaseStarted(Phase::Downloading));
    assert_eq!(frame, Frame { erase: 1, lines: vec!["a: one".to_string()] });
    state.handle(ProgressUpdate::PhaseEnded(Phase::Downloading));
    assert_eq!(state.current_phase, Phase::Idle);
    assert_eq!(shown(&state), vec![("a".to_string(), "one")]);
}

#[test]
fn tick_stops_when_all_is_done_or_the_senders_are_gone() {
    let mut state = ProgressState::new();
    assert_eq!(state.tick(Some(started("a", "one"))).map(|f| f.lines.len()), Some(1));
    assert_eq!(state.tick(Some(ProgressUpdate::AllDone)), None);
    assert_eq!(state.tick(None), None);
    assert_eq!(shown(&state), vec![("a".to_string(), "one")]);
    assert_eq!(state.lines_drawn, 1);
    assert_eq!(state.tick(Some(done("a"))), Some(Frame { erase: 1, lines: Vec::new() }));
}

#[test]
fn redraw_erases_what_was_drawn_last() {
    let mut state = ProgressState::new();
    state.current.push(("a".to_string(), "one"));
    state.current.push(("b".to_string(), "two"));
    let frame = state.redraw();
    assert_eq!(frame, Frame { erase: 0, lines: vec!["a: one".to_string(), "b: two".to_string()] });
    let frame = state.redraw();
    assert_eq!(frame.erase, 2);
    assert_eq!(started("a", "x").clone(), started("a", "x"));
}
