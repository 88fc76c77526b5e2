use uid_relation_system::error::make_error_sequence;
use uid_relation_system::kernel::types::{
    Direction, ErrorLevel, FallbackStrategy, LogicOffset, RelationalPosition, SequenceVersion,
    SystemError, UID,
};
use uid_relation_system::CoreError;

#[test]
fn test_uid_display() {
    let uid = UID(0x1234567890ABCDEF);
    assert_eq!(uid.to_string(), "0x1234567890abcdef");
}

#[test]
fn test_relational_position() {
    let pos = RelationalPosition::start();
    assert_eq!(pos.anchor_uid.0, 0);
    assert!(matches!(pos.direction, Direction::Right));
    assert_eq!(pos.distance, 0);

    let anchor = UID(0x1000);
    let pos2 = RelationalPosition::from_anchor(anchor);
    assert_eq!(pos2.anchor_uid, anchor);
}

#[test]
fn test_error_sequence() {
    let error_seq = make_error_sequence(
        ErrorLevel::Warning,
        SystemError::InvalidPosition,
        vec![UID(1), UID(2), UID(3)],
        vec![UID(4)],
    );

    assert!(error_seq.len() >= 5);
}

#[test]
fn test_logic_offset() {
    let offset = LogicOffset { logical_timestamp: 1000, physical_position: 42, deleted: false };

    assert_eq!(offset.logical_timestamp, 1000);
    assert_eq!(offset.physical_position, 42);
    assert!(!offset.deleted);
}

#[test]
fn uid_text_pads_with_zeros() {
    assert_eq!(UID(0).to_string(), "0x0000000000000000");
    assert_eq!(UID(0xabc).to_string(), "0x0000000000000abc");
    assert_eq!(UID(u64::MAX).to_string(), "0xffffffffffffffff");
}

#[test]
fn uid_converts_to_and_from_its_number() {
    let uid = UID::from(77u64);
    assert_eq!(uid, UID(77));
    assert_eq!(u64::from(uid), 77);
}

#[test]
fn uid_orders_as_its_number() {
    assert!(UID(1) < UID(2));
    assert!(UID(u64::MAX) > UID(0));
    assert!(SequenceVersion(3) < SequenceVersion(4));
    assert!(ErrorLevel::Fatal < ErrorLevel::Info);
}

#[test]
fn relational_position_from_anchor_points_right_at_distance_zero() {
    let pos = RelationalPosition::from_anchor(UID(9));
    assert_eq!(pos.direction, Direction::Right);
    assert_eq!(pos.distance, 0);
}

#[test]
fn error_sequence_is_mark_level_code_length_context_details() {
    let sequence = make_error_sequence(
        ErrorLevel::Warning,
        SystemError::InvalidPosition,
        vec![UID(1), UID(2), UID(3)],
        vec![UID(4)],
    );
    assert_eq!(
        sequence,
        vec![
            UID(0xE000000000000001),
            UID(0xE000000000000004),
            UID(0xE000000000000101),
            UID(3),
            UID(1),
            UID(2),
            UID(3),
            UID(4),
        ]
    );
}

#[test]
fn error_sequence_of_each_level_and_code() {
    let levels = [
        (ErrorLevel::Fatal, 0xE000000000000002u64),
        (ErrorLevel::Severe, 0xE000000000000003),
        (ErrorLevel::Warning, 0xE000000000000004),
        (ErrorLevel::Info, 0xE000000000000005),
    ];
    for (level, expected) in levels {
        let sequence = make_error_sequence(level, SystemError::ParseError, vec![], vec![]);
        assert_eq!(sequence[1], UID(expected));
    }
    let codes = [
        (SystemError::UIDNotFound(UID(42)), 42u64),
        (SystemError::InvalidPosition, 0xE000000000000101),
        (SystemError::VersionMismatch, 0xE000000000000102),
        (SystemError::AnchorNotFound(UID(43)), 43),
        (SystemError::OperationNotSupported, 0xE000000000000103),
        (SystemError::StorageError, 0xE000000000000104),
        (SystemError::ParseError, 0xE000000000000105),
    ];
    for (code, expected) in codes {
        let sequence = make_error_sequence(ErrorLevel::Info, code, vec![], vec![UID(7)]);
        assert_eq!(sequence, vec![UID(0xE000000000000001), UID(0xE000000000000005), UID(expected), UID(0), UID(7)]);
    }
}

#[test]
fn core_error_wraps_a_system_error() {
    let wrapped = CoreError::from(SystemError::StorageError);
    assert!(matches!(wrapped, CoreError::SystemError(SystemError::StorageError)));
}

#[test]
fn fallback_strategies_differ() {
    assert_ne!(FallbackStrategy::Recalculate, FallbackStrategy::UseSnapshot);
    assert_ne!(FallbackStrategy::UseSnapshot, FallbackStrategy::Error);
}
