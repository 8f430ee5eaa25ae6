use berry_editor::debugger::breakpoint_gutter::{breakpoint_class, breakpoint_title, condition_from_input};
use berry_editor::debugger::debug_console::{
    enter_expression, evaluation_result, message_class, message_prefix, ConsoleMessage, MessageType,
};
use berry_editor::debugger::debug_toolbar::{state_label, toolbar_buttons};
use berry_editor::debugger::session::{Breakpoint, DebugSession, DebugState, Scope, StackFrame, Variable};
use berry_editor::debugger::variables_panel::{expand_arrow, indent_px, type_suffix};
use berry_editor::debugger::watch_panel::{add_watch, add_watch_with_id, record_evaluation, remove_watch, WatchExpression};

fn bp(id: &str, file: &str, line: u32) -> Breakpoint {
    Breakpoint { id: id.to_string(), file: file.to_string(), line, condition: None, verified: true }
}

#[test]
fn test_debug_session_new() {
    let session = DebugSession::new();
    assert_eq!(session.state(), DebugState::Stopped);
    assert!(session.session_id().is_none());
    assert_eq!(session.breakpoint_file_count(), 0);
    assert_eq!(session.stack_frames().len(), 0);
}

#[test]
fn test_debug_state_equality() {
    assert_eq!(DebugState::Stopped, DebugState::Stopped);
    assert_ne!(DebugState::Stopped, DebugState::Running);
    assert_eq!(DebugState::Paused, DebugState::Paused);
    assert_eq!(DebugState::Stepping, DebugState::Stepping);
}

#[test]
fn test_breakpoint_equality() {
    let bp1 = Breakpoint { id: "1".to_string(), file: "test.rs".to_string(), line: 10, condition: None, verified: true };
    let bp2 = Breakpoint { id: "1".to_string(), file: "test.rs".to_string(), line: 10, condition: None, verified: true };
    let bp3 = Breakpoint { id: "2".to_string(), file: "test.rs".to_string(), line: 10, condition: None, verified: true };
    assert_eq!(bp1, bp2);
    assert_ne!(bp1, bp3);
}

#[test]
fn test_stack_frame_creation() {
    let frame = StackFrame {
        id: 1,
        name: "main".to_string(),
        file: Some("main.rs".to_string()),
        line: Some(42),
        column: Some(10),
    };
    assert_eq!(frame.id, 1);
    assert_eq!(frame.name, "main");
    assert_eq!(frame.line, Some(42));
}

#[test]
fn test_variable_with_children() {
    let child1 = Variable {
        name: "x".to_string(),
        value: "10".to_string(),
        value_type: Some("i32".to_string()),
        children: None,
    };
    let parent = Variable {
        name: "struct_var".to_string(),
        value: "MyStruct".to_string(),
        value_type: Some("MyStruct".to_string()),
        children: Some(vec![child1]),
    };
    assert!(parent.children.is_some());
    assert_eq!(parent.children.as_ref().unwrap().len(), 1);
}

#[test]
fn session_test_scope_creation() {
    let scope = Scope {
        name: "Local".to_string(),
        variables: vec![Variable {
            name: "x".to_string(),
            value: "42".to_string(),
            value_type: Some("i32".to_string()),
            children: None,
        }],
    };
    assert_eq!(scope.name, "Local");
    assert_eq!(scope.variables.len(), 1);
}

#[test]
fn variables_panel_test_scope_creation() {
    let scope = Scope { name: "Local".to_string(), variables: vec![] };
    assert_eq!(scope.name, "Local");
    assert_eq!(scope.variables.len(), 0);
}

#[test]
fn test_variable_with_type() {
    let var = Variable {
        name: "x".to_string(),
        value: "42".to_string(),
        value_type: Some("i32".to_string()),
        children: None,
    };
    assert_eq!(var.name, "x");
    assert_eq!(var.value, "42");
    assert!(var.value_type.is_some());
    assert_eq!(var.value_type.unwrap(), "i32");
}

#[test]
fn test_variable_tree_structure() {
    let child = Variable { name: "field".to_string(), value: "10".to_string(), value_type: None, children: None };
    let parent = Variable {
        name: "struct_var".to_string(),
        value: "MyStruct".to_string(),
        value_type: Some("MyStruct".to_string()),
        children: Some(vec![child]),
    };
    assert!(parent.children.is_some());
    assert_eq!(parent.children.as_ref().unwrap().len(), 1);
    assert_eq!(parent.children.as_ref().unwrap()[0].name, "field");
}

#[test]
fn test_indent_calculation() {
    assert_eq!(indent_px(1), 20);
    assert_eq!(indent_px(2), 40);
    assert_eq!(indent_px(3), 60);
}

#[test]
fn test_breakpoint_verified_class() {
    let bp = Breakpoint { id: "1".to_string(), file: "test.rs".to_string(), line: 10, condition: None, verified: true };
    assert!(bp.verified);
    assert_eq!(breakpoint_class(&bp), "berry-breakpoint-icon berry-breakpoint-verified");
}

#[test]
fn test_breakpoint_conditional_message() {
    let bp = Breakpoint {
        id: "1".to_string(),
        file: "test.rs".to_string(),
        line: 10,
        condition: Some("x > 10".to_string()),
        verified: true,
    };
    assert!(bp.condition.is_some());
    assert_eq!(bp.condition.as_ref().unwrap(), "x > 10");
    assert_eq!(breakpoint_title(&bp), "Conditional: x > 10");
}

#[test]
fn test_message_type_equality() {
    assert_eq!(MessageType::Output, MessageType::Output);
    assert_eq!(MessageType::Input, MessageType::Input);
    assert_eq!(MessageType::Error, MessageType::Error);
    assert_eq!(MessageType::Info, MessageType::Info);
    assert_ne!(MessageType::Output, MessageType::Error);
}

#[test]
fn test_console_message_creation() {
    let msg = ConsoleMessage::new(MessageType::Output, "Hello".to_string());
    assert_eq!(msg.message_type, MessageType::Output);
    assert_eq!(msg.content, "Hello");
    assert!(!msg.timestamp.is_empty());
}

#[test]
fn test_message_prefix() {
    assert_eq!(message_prefix(MessageType::Output), "");
    assert_eq!(message_prefix(MessageType::Input), "> ");
    assert_eq!(message_prefix(MessageType::Error), "Error: ");
    assert_eq!(message_prefix(MessageType::Info), "Info: ");
}

#[test]
fn test_message_class_mapping() {
    let classes = [
        (MessageType::Output, "berry-console-message berry-console-output"),
        (MessageType::Input, "berry-console-message berry-console-input"),
        (MessageType::Error, "berry-console-message berry-console-error"),
        (MessageType::Info, "berry-console-message berry-console-info"),
    ];
    for (msg_type, expected_class) in classes {
        assert_eq!(message_class(msg_type), expected_class);
    }
}

#[test]
fn test_debug_state_display() {
    assert_eq!(format!("{:?}", DebugState::Stopped), "Stopped");
    assert_eq!(format!("{:?}", DebugState::Running), "Running");
    assert_eq!(format!("{:?}", DebugState::Paused), "Paused");
    assert_eq!(format!("{:?}", DebugState::Stepping), "Stepping");
    assert_eq!(state_label(DebugState::Stopped), "Stopped");
    assert_eq!(state_label(DebugState::Running), "Running");
    assert_eq!(state_label(DebugState::Paused), "Paused");
    assert_eq!(state_label(DebugState::Stepping), "Stepping");
}

#[test]
fn test_button_disabled_logic() {
    let stopped = toolbar_buttons(DebugState::Stopped);
    assert!(!stopped.continue_enabled);
    assert!(!stopped.stop_enabled);
    let paused = toolbar_buttons(DebugState::Paused);
    assert!(paused.step_over_enabled && paused.step_into_enabled && paused.step_out_enabled);
}

#[test]
fn test_watch_expression_creation() {
    let watch = WatchExpression { id: "1".to_string(), expression: "x + y".to_string(), value: None, error: None };
    assert_eq!(watch.expression, "x + y");
    assert!(watch.value.is_none());
    assert!(watch.error.is_none());
}

#[test]
fn test_watch_expression_with_value() {
    let watch = WatchExpression {
        id: "1".to_string(),
        expression: "x".to_string(),
        value: Some("42".to_string()),
        error: None,
    };
    assert!(watch.value.is_some());
    assert_eq!(watch.value.as_ref().unwrap(), "42");
}

#[test]
fn test_watch_expression_with_error() {
    let watch = WatchExpression {
        id: "1".to_string(),
        expression: "invalid".to_string(),
        value: None,
        error: Some("undefined variable".to_string()),
    };
    assert!(watch.error.is_some());
    assert_eq!(watch.error.as_ref().unwrap(), "undefined variable");
}

#[test]
fn test_watch_expression_equality() {
    let watch1 = WatchExpression { id: "1".to_string(), expression: "x".to_string(), value: None, error: None };
    let watch2 = WatchExpression { id: "1".to_string(), expression: "x".to_string(), value: None, error: None };
    assert_eq!(watch1, watch2);
}

#[test]
fn session_requests_need_an_active_session() {
    let mut session = DebugSession::new();
    assert_eq!(session.active_session(), Err("No active debug session".to_string()));
    session.started("s1".to_string());
    assert_eq!(session.active_session(), Ok("s1".to_string()));
    assert_eq!(session.state(), DebugState::Running);
    session.stepped();
    assert_eq!(session.state(), DebugState::Stepping);
    session.resumed();
    assert_eq!(session.state(), DebugState::Running);
    session.stopped();
    assert_eq!(session.state(), DebugState::Stopped);
    assert_eq!(session.active_session(), Err("No active debug session".to_string()));
}

#[test]
fn session_breakpoints_are_kept_by_file() {
    let mut session = DebugSession::new();
    session.breakpoint_added("a.rs".to_string(), bp("1", "a.rs", 3));
    session.breakpoint_added("b.rs".to_string(), bp("2", "b.rs", 5));
    session.breakpoint_added("a.rs".to_string(), bp("3", "a.rs", 9));
    assert_eq!(session.breakpoint_file_count(), 2);
    let in_a = session.breakpoints_in("a.rs").unwrap();
    assert_eq!(in_a.len(), 2);
    assert_eq!(in_a[0].id, "1");
    assert_eq!(in_a[1].id, "3");
    assert!(session.breakpoints_in("c.rs").is_none());

    session.breakpoint_removed("1");
    assert_eq!(session.breakpoints_in("a.rs").unwrap().len(), 1);
    assert_eq!(session.breakpoints_in("a.rs").unwrap()[0].id, "3");
    assert_eq!(session.breakpoints_in("b.rs").unwrap().len(), 1);

    session.breakpoint_removed("2");
    assert_eq!(session.breakpoint_file_count(), 2);
    assert_eq!(session.breakpoints_in("b.rs").unwrap().len(), 0);
}

#[test]
fn session_stop_clears_frames_and_keeps_breakpoints() {
    let mut session = DebugSession::new();
    session.started("s".to_string());
    session.breakpoint_added("a.rs".to_string(), bp("1", "a.rs", 1));
    session.stack_trace_received(vec![StackFrame { id: 7, name: "f".to_string(), file: None, line: None, column: None }]);
    session.variables_received(vec![Scope { name: "Local".to_string(), variables: vec![] }]);
    assert_eq!(session.stack_frames().len(), 1);
    assert_eq!(session.scopes().len(), 1);
    session.stopped();
    assert_eq!(session.stack_frames().len(), 0);
    assert_eq!(session.scopes().len(), 0);
    assert_eq!(session.breakpoints_in("a.rs").unwrap().len(), 1);
    assert!(session.session_id().is_none());
}

#[test]
fn toolbar_buttons_when_running() {
    let running = toolbar_buttons(DebugState::Running);
    assert!(running.continue_enabled && running.stop_enabled && running.restart_enabled);
    assert!(!running.step_over_enabled);
    let stepping = toolbar_buttons(DebugState::Stepping);
    assert!(stepping.step_out_enabled);
}

#[test]
fn console_entering_and_results() {
    let mut messages = Vec::new();
    assert!(!enter_expression(&mut messages, ""));
    assert!(messages.is_empty());
    assert!(enter_expression(&mut messages, "x + 1"));
    evaluation_result(&mut messages, Ok("43".to_string()));
    evaluation_result(&mut messages, Err("bad".to_string()));
    assert_eq!(messages.len(), 3);
    assert_eq!(messages[0].message_type, MessageType::Input);
    assert_eq!(messages[0].display_text(), "> x + 1");
    assert_eq!(messages[1].message_type, MessageType::Output);
    assert_eq!(messages[1].display_text(), "43");
    assert_eq!(messages[2].display_text(), "Error: bad");
    let ts = &messages[2].timestamp;
    assert_eq!(ts.len(), 8);
    assert_eq!(&ts[2..3], ":");
    assert_eq!(messages[2].timestamp_label(), format!("[{}]", ts));
}

#[test]
fn watches_added_evaluated_and_removed() {
    let mut watches = Vec::new();
    assert_eq!(add_watch(&mut watches, ""), None);
    let id = add_watch(&mut watches, "x").unwrap();
    assert_eq!(id.len(), 36);
    assert_eq!(&id[8..9], "-");
    assert!(add_watch_with_id(&mut watches, "y", "w2".to_string()));
    record_evaluation(&mut watches, &id, Ok("1".to_string()));
    record_evaluation(&mut watches, "w2", Err("undefined".to_string()));
    record_evaluation(&mut watches, "nope", Ok("9".to_string()));
    assert_eq!(watches[0].value, Some("1".to_string()));
    assert_eq!(watches[0].error, None);
    assert_eq!(watches[1].value, None);
    assert_eq!(watches[1].error, Some("undefined".to_string()));
    remove_watch(&mut watches, &id);
    assert_eq!(watches.len(), 1);
    assert_eq!(watches[0].id, "w2");
}

#[test]
fn breakpoint_views() {
    let mut b = bp("1", "a.rs", 1);
    assert_eq!(breakpoint_title(&b), "Breakpoint");
    b.verified = false;
    assert_eq!(breakpoint_class(&b), "berry-breakpoint-icon berry-breakpoint-unverified");
    assert_eq!(condition_from_input(String::new()), None);
    assert_eq!(condition_from_input("x > 1".to_string()), Some("x > 1".to_string()));
    assert_eq!(expand_arrow(false, true), " ");
    assert_eq!(expand_arrow(true, true), "\u{25BC}");
    assert_eq!(expand_arrow(true, false), "\u{25B6}");
    assert_eq!(type_suffix("i32"), " (i32)");
}
