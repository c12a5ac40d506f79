use signpost::latch::Latch;
use signpost::logger::Resolution;
use signpost::marker::{reserved_id, Marker, SignpostType};
use signpost::name::CName;
use signpost::OsLog;

fn name(text: &str) -> CName {
    CName::new(text).unwrap()
}

fn ready_logger(handle: usize) -> OsLog {
    let mut log = OsLog::new(name("com.example.app"), OsLog::category_points_of_interest());
    assert!(matches!(log.get(), Resolution::Create { .. }));
    assert!(log.publish(handle));
    log
}

#[test]
fn new_logger_has_no_handle() {
    let log = OsLog::new(name("com.example.app"), name("Rendering"));
    assert_eq!(log.handle(), None);
    assert_eq!(log.subsystem().as_bytes_with_nul(), b"com.example.app\0");
    assert_eq!(log.category().as_bytes_with_nul(), b"Rendering\0");
}

#[test]
fn first_caller_creates_for_subsystem_and_category() {
    let subsystem = name("com.example.app");
    let category = name("Rendering");
    let mut log = OsLog::new(name("com.example.app"), name("Rendering"));
    assert_eq!(
        log.get(),
        Resolution::Create { subsystem: &subsystem, category: &category }
    );
    assert_eq!(log.handle(), None);
}

#[test]
fn callers_wait_until_the_handle_is_published() {
    let mut log = OsLog::new(name("com.example.app"), name("Rendering"));
    assert!(matches!(log.get(), Resolution::Create { .. }));
    assert_eq!(log.get(), Resolution::Wait);
    assert_eq!(log.get(), Resolution::Wait);
    assert_eq!(log.handle(), None);
    assert!(log.publish(0x1000));
    assert_eq!(log.get(), Resolution::Ready(0x1000));
    assert_eq!(log.handle(), Some(0x1000));
}

#[test]
fn handle_is_published_once() {
    let mut log = OsLog::new(name("com.example.app"), name("Rendering"));
    assert!(!log.publish(7));
    assert_eq!(log.handle(), None);
    assert!(matches!(log.get(), Resolution::Create { .. }));
    assert!(log.publish(8));
    assert!(!log.publish(9));
    assert_eq!(log.handle(), Some(8));
    assert_eq!(log.get(), Resolution::Ready(8));
}

#[test]
fn zero_is_a_handle_like_any_other() {
    let mut log = OsLog::new(name("com.example.app"), name("Rendering"));
    assert!(matches!(log.get(), Resolution::Create { .. }));
    assert!(log.publish(0));
    assert_eq!(log.handle(), Some(0));
    assert_eq!(log.get(), Resolution::Ready(0));
}

#[test]
fn many_callers_create_once_and_agree_on_the_handle() {
    let mut log = OsLog::new(name("com.example.app"), name("Rendering"));
    let callers = 16;
    let mut creations = 0;
    let mut waiting = 0;
    for _ in 0..callers {
        match log.get() {
            Resolution::Create { .. } => creations += 1,
            Resolution::Wait => waiting += 1,
            Resolution::Ready(_) => panic!("no handle was published yet"),
        }
    }
    assert_eq!(creations, 1);
    assert_eq!(waiting, callers - 1);
    assert!(log.publish(0xABCD));
    for _ in 0..callers {
        assert_eq!(log.get(), Resolution::Ready(0xABCD));
    }
}

#[test]
fn category_set_before_first_use_is_the_one_created() {
    let subsystem = name("com.example.app");
    let second = name("DynamicTracing");
    let mut log =
        OsLog::new(name("com.example.app"), name("PointsOfInterest")).with_category(name("DynamicTracing"));
    assert_eq!(log.category().as_bytes_with_nul(), b"DynamicTracing\0");
    assert_eq!(
        log.get(),
        Resolution::Create { subsystem: &subsystem, category: &second }
    );
}

#[test]
fn category_set_after_publication_leaves_the_handle() {
    let log = ready_logger(5).with_category(name("Other"));
    assert_eq!(log.handle(), Some(5));
    assert_eq!(log.category().as_bytes_with_nul(), b"Other\0");
    assert_eq!(log.subsystem().as_bytes_with_nul(), b"com.example.app\0");
}

#[test]
fn predefined_categories_carry_the_same_text() {
    assert_eq!(OsLog::category_points_of_interest().as_bytes_with_nul(), b"PointsOfInterest\0");
    assert_eq!(OsLog::category_dynamic_tracing().as_bytes_with_nul(), b"PointsOfInterest\0");
    assert_eq!(OsLog::category_dynamic_stack_tracing().as_bytes_with_nul(), b"PointsOfInterest\0");
}

#[test]
fn event_goes_out_when_enabled() {
    let log = ready_logger(0x77);
    let event = name("Event");
    assert_eq!(
        log.emit_event(10, &event, true),
        Some(Marker {
            handle: 0x77,
            kind: SignpostType::Event,
            id: 10,
            name: &event,
            scratch_len: 64,
        })
    );
}

#[test]
fn event_is_skipped_when_disabled() {
    let log = ready_logger(0x77);
    let event = name("Event");
    assert_eq!(log.emit_event(10, &event, false), None);
}

#[test]
fn kinds_have_their_native_codes() {
    assert_eq!(SignpostType::Event.code(), 0);
    assert_eq!(SignpostType::IntervalBegin.code(), 1);
    assert_eq!(SignpostType::IntervalEnd.code(), 2);
}

#[test]
fn kinds_have_their_scratch_lengths() {
    assert_eq!(SignpostType::Event.scratch_len(), 64);
    assert_eq!(SignpostType::IntervalBegin.scratch_len(), 64);
    assert_eq!(SignpostType::IntervalEnd.scratch_len(), 4);
}

#[test]
fn marker_takes_its_scratch_length_from_its_kind() {
    let event = name("Event");
    assert_eq!(Marker::new(1, SignpostType::IntervalEnd, 3, &event).scratch_len, 4);
    assert_eq!(Marker::new(1, SignpostType::Event, 3, &event).scratch_len, 64);
}

#[test]
fn zero_and_the_largest_identifier_are_reserved() {
    assert!(reserved_id(0));
    assert!(reserved_id(u64::MAX));
    assert!(!reserved_id(1));
    assert!(!reserved_id(42));
    assert!(!reserved_id(u64::MAX - 1));
}

#[test]
fn latch_values_compare() {
    assert_eq!(Latch::Ready(3), Latch::Ready(3));
    assert_ne!(Latch::Ready(3), Latch::Ready(4));
    assert_ne!(Latch::Unset, Latch::Initializing);
}
