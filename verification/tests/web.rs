use ccgo::web::{clamp_resize, parse_control_command, route_binary_frame, route_text_frame,
    ControlCommand, WsAction, MAX_TERMINAL_SIZE, MIN_TERMINAL_SIZE};

#[test]
fn test_control_command_resize_parsing() {
    let json = r#"{"type":"resize","cols":80,"rows":24}"#;
    let cmd = parse_control_command(json).unwrap();
    match cmd {
        ControlCommand::Resize { cols, rows } => {
            assert_eq!(cols, 80);
            assert_eq!(rows, 24);
        }
    }
}

#[test]
fn test_control_command_invalid_type() {
    let json = r#"{"type":"unknown","cols":80,"rows":24}"#;
    let result = parse_control_command(json);
    assert!(result.is_none());
}

#[test]
fn test_control_command_missing_fields() {
    let json = r#"{"type":"resize","cols":80}"#;
    let result = parse_control_command(json);
    assert!(result.is_none());
}

#[test]
fn test_resize_value_clamping() {
    // Minimum clamping
    let (clamped_cols, clamped_rows) = clamp_resize(0, 0);
    assert_eq!(clamped_cols, MIN_TERMINAL_SIZE);
    assert_eq!(clamped_rows, MIN_TERMINAL_SIZE);

    // Maximum clamping
    let (clamped_cols, clamped_rows) = clamp_resize(1000, 1000);
    assert_eq!(clamped_cols, MAX_TERMINAL_SIZE);
    assert_eq!(clamped_rows, MAX_TERMINAL_SIZE);

    // Normal values
    let (clamped_cols, clamped_rows) = clamp_resize(120, 40);
    assert_eq!(clamped_cols, 120);
    assert_eq!(clamped_rows, 40);
}

#[test]
fn test_resize_control_frame_is_clamped() {
    // A browser resize with out-of-range values reaches the PTY clamped.
    let frame = "\u{0}{\"type\":\"resize\",\"cols\":0,\"rows\":1000}";
    match route_text_frame(frame, false) {
        WsAction::Resize { cols, rows } => {
            assert_eq!(cols, 1);
            assert_eq!(rows, 500);
        }
        _ => panic!("expected a resize action"),
    }
}

#[test]
fn test_malformed_control_frame_dropped() {
    let frame = "\u{0}{\"type\":\"resize\",\"cols\":}";
    assert!(matches!(route_text_frame(frame, true), WsAction::Ignore));
}

#[test]
fn test_control_command_float_rejected() {
    assert!(parse_control_command(r#"{"type":"resize","cols":80.5,"rows":24}"#).is_none());
    assert!(parse_control_command(r#"{"type":"resize","cols":70000,"rows":24}"#).is_none());
}

#[test]
fn test_text_input_respects_enable_flag() {
    match route_text_frame("ls -l", true) {
        WsAction::Input(bytes) => assert_eq!(bytes, b"ls -l".to_vec()),
        _ => panic!("expected input"),
    }
    assert!(matches!(route_text_frame("ls -l", false), WsAction::Ignore));
}

#[test]
fn test_binary_input_respects_enable_flag() {
    match route_binary_frame(vec![1u8, 2, 3], true) {
        WsAction::Input(bytes) => assert_eq!(bytes, vec![1u8, 2, 3]),
        _ => panic!("expected input"),
    }
    assert!(matches!(route_binary_frame(vec![1u8], false), WsAction::Ignore));
}
