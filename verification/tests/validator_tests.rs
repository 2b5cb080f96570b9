use supamonitor::validator::{validate, CommandKind, ValidationError};

#[test]
fn delete_without_filter_is_refused_with_the_fixed_message() {
    let verdict = validate(CommandKind::Delete, false);
    assert_eq!(verdict, Err(ValidationError::DeleteWithoutFilter));
    assert_eq!(verdict.unwrap_err().message(), "DELETE queries must have a WHERE clause");
}

#[test]
fn delete_with_filter_is_accepted() {
    assert_eq!(validate(CommandKind::Delete, true), Ok(()));
}

#[test]
fn other_commands_are_accepted_with_or_without_filter() {
    let kinds = [
        CommandKind::Unknown,
        CommandKind::Select,
        CommandKind::Update,
        CommandKind::Insert,
        CommandKind::Merge,
        CommandKind::Utility,
        CommandKind::Nothing,
    ];
    for kind in kinds {
        assert_eq!(validate(kind, false), Ok(()));
        assert_eq!(validate(kind, true), Ok(()));
    }
}

#[test]
fn validation_keeps_no_state_between_statements() {
    assert!(validate(CommandKind::Delete, false).is_err());
    assert!(validate(CommandKind::Delete, true).is_ok());
    assert!(validate(CommandKind::Delete, false).is_err());
    assert!(validate(CommandKind::Select, false).is_ok());
}
