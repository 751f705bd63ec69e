use json_materializer::{
    materialize_text, plan, Action, Event, HostValue, MaterializeError, Session, Step,
    DEFAULT_MAX_DEPTH,
};

fn number(double: f64) -> HostValue {
    HostValue::Number(double.to_bits())
}

fn text(s: &str) -> HostValue {
    HostValue::Text(s.to_string())
}

fn insert(key: &str) -> Step {
    Step::Insert(key.to_string())
}

/// A host that keeps its values on a stack. `false` where it cannot perform
/// the step.
fn perform(stack: &mut Vec<HostValue>, step: Step) -> bool {
    match step {
        Step::Null => stack.push(HostValue::Null),
        Step::Bool(b) => stack.push(HostValue::Bool(b)),
        Step::Number(bits) => stack.push(HostValue::Number(bits)),
        Step::Text(s) => stack.push(HostValue::Text(s)),
        Step::OpenSequence => stack.push(HostValue::Sequence(vec![])),
        Step::OpenMapping => stack.push(HostValue::Mapping(vec![])),
        Step::Append => {
            let child = match stack.pop() {
                Some(child) => child,
                None => return false,
            };
            match stack.last_mut() {
                Some(HostValue::Sequence(elements)) => elements.push(child),
                _ => return false,
            }
        }
        Step::Insert(key) => {
            let child = match stack.pop() {
                Some(child) => child,
                None => return false,
            };
            match stack.last_mut() {
                Some(HostValue::Mapping(entries)) => {
                    match entries.iter().position(|(held, _)| *held == key) {
                        Some(at) => entries[at] = (key, child),
                        None => entries.push((key, child)),
                    }
                }
                _ => return false,
            }
        }
    }
    true
}

fn build(graph: &HostValue, fail_at: Option<usize>) -> Result<Vec<HostValue>, MaterializeError> {
    let mut session = Session::new(graph);
    let mut stack = Vec::new();
    let mut event = Event::Ready;
    let mut performed = 0;
    loop {
        match session.advance(event) {
            Action::Perform(step) => {
                event = if fail_at == Some(performed) || !perform(&mut stack, step) {
                    Event::Failed
                } else {
                    Event::Ready
                };
                performed += 1;
            }
            Action::Finish => return Ok(stack),
            Action::Abort(error) => return Err(error),
        }
    }
}

#[test]
fn scalar_is_one_step() {
    assert_eq!(plan(&HostValue::Null), vec![Step::Null]);
    assert_eq!(plan(&HostValue::Bool(true)), vec![Step::Bool(true)]);
    assert_eq!(plan(&number(1.5)), vec![Step::Number(0x3FF8_0000_0000_0000)]);
    assert_eq!(plan(&text("x")), vec![Step::Text("x".to_string())]);
}

#[test]
fn empty_containers_are_opened_and_left_empty() {
    assert_eq!(plan(&HostValue::Sequence(vec![])), vec![Step::OpenSequence]);
    assert_eq!(plan(&HostValue::Mapping(vec![])), vec![Step::OpenMapping]);
}

#[test]
fn container_is_opened_before_its_children() {
    let graph = materialize_text("{\"a\": 1, \"b\": [true, null, \"x\"], \"c\": {}}", 8).unwrap();
    assert_eq!(
        plan(&graph),
        vec![
            Step::OpenMapping,
            Step::Number(1.0f64.to_bits()),
            insert("a"),
            Step::OpenSequence,
            Step::Bool(true),
            Step::Append,
            Step::Null,
            Step::Append,
            Step::Text("x".to_string()),
            Step::Append,
            insert("b"),
            Step::OpenMapping,
            insert("c"),
        ]
    );
}

#[test]
fn steps_build_the_graph() {
    for document in [
        "null",
        "3.5",
        "[]",
        "{}",
        "[1, [2, [3, []]], {}]",
        "{\"a\": 1, \"b\": [true, null, \"x\"], \"c\": {}}",
        "{\"zeta\": {\"alpha\": [null, {\"k\": \"v\"}]}, \"alpha\": -1}",
    ] {
        let graph = materialize_text(document, DEFAULT_MAX_DEPTH).unwrap();
        let mut stack = Vec::new();
        for step in plan(&graph) {
            assert!(perform(&mut stack, step));
        }
        assert_eq!(stack, vec![graph]);
    }
}

#[test]
fn steps_leave_the_stack_below_untouched() {
    let graph = materialize_text("[{\"a\": [1]}]", DEFAULT_MAX_DEPTH).unwrap();
    let mut stack = vec![text("below"), HostValue::Sequence(vec![])];
    for step in plan(&graph) {
        assert!(perform(&mut stack, step));
    }
    assert_eq!(stack, vec![text("below"), HostValue::Sequence(vec![]), graph]);
}

#[test]
fn session_hands_out_the_steps_in_order() {
    let graph = materialize_text("[true, {\"k\": null}]", 8).unwrap();
    let mut session = Session::new(&graph);
    let expected = vec![
        Step::OpenSequence,
        Step::Bool(true),
        Step::Append,
        Step::OpenMapping,
        Step::Null,
        insert("k"),
        Step::Append,
    ];
    for step in expected {
        assert_eq!(session.advance(Event::Ready), Action::Perform(step));
    }
    assert_eq!(session.advance(Event::Ready), Action::Finish);
    assert_eq!(session.advance(Event::Ready), Action::Finish);
}

#[test]
fn session_builds_the_graph_in_a_host() {
    let graph = materialize_text(
        "{\"a\": 1, \"b\": [true, null, \"x\"], \"c\": {}}",
        DEFAULT_MAX_DEPTH,
    )
    .unwrap();
    assert_eq!(build(&graph, None), Ok(vec![graph]));
}

#[test]
fn host_failure_aborts_the_session() {
    let graph = materialize_text("[1, 2, 3]", 8).unwrap();
    let mut session = Session::new(&graph);
    assert_eq!(session.advance(Event::Ready), Action::Perform(Step::OpenSequence));
    assert_eq!(
        session.advance(Event::Failed),
        Action::Abort(MaterializeError::Allocation)
    );
}

#[test]
fn aborted_session_stays_aborted() {
    let graph = materialize_text("[1, 2, 3]", 8).unwrap();
    let mut session = Session::new(&graph);
    assert_eq!(session.advance(Event::Ready), Action::Perform(Step::OpenSequence));
    assert_eq!(
        session.advance(Event::Failed),
        Action::Abort(MaterializeError::Allocation)
    );
    assert_eq!(
        session.advance(Event::Ready),
        Action::Abort(MaterializeError::Allocation)
    );
    assert_eq!(
        session.advance(Event::Ready),
        Action::Abort(MaterializeError::Allocation)
    );
}

#[test]
fn failure_before_any_step_aborts() {
    let mut session = Session::new(&HostValue::Null);
    assert_eq!(
        session.advance(Event::Failed),
        Action::Abort(MaterializeError::Allocation)
    );
}

#[test]
fn failure_at_any_step_gives_no_graph() {
    let graph = materialize_text("{\"a\": [1, 2], \"b\": {}}", 8).unwrap();
    let steps = plan(&graph).len();
    for at in 0..steps {
        assert_eq!(build(&graph, Some(at)), Err(MaterializeError::Allocation));
    }
    assert_eq!(build(&graph, Some(steps)), Ok(vec![graph]));
}

#[test]
fn failure_after_the_last_step_aborts() {
    let mut session = Session::new(&HostValue::Bool(false));
    assert_eq!(session.advance(Event::Ready), Action::Perform(Step::Bool(false)));
    assert_eq!(
        session.advance(Event::Failed),
        Action::Abort(MaterializeError::Allocation)
    );
}
