use signpost::expand::{EventArgs, Expansion, PoiLoggerArgs};
use signpost::logger::Resolution;
use signpost::marker::SignpostType;
use signpost::{begin_interval, const_poi_logger, emit_event, OsLog};
use std::time::{Duration, Instant};

fn logger(subsystem: &str) -> OsLog {
    let args = PoiLoggerArgs { name: syn::parse_str(&format!("{:?}", subsystem)).unwrap() };
    let mut log = match const_poi_logger(args) {
        Ok(Expansion::Logger { subsystem, category }) => OsLog::new(subsystem, category),
        _ => panic!("the logger was not constructed"),
    };
    assert!(matches!(log.get(), Resolution::Create { .. }));
    assert!(log.publish(0x5150));
    log
}

fn event_args(log: &str, id: u64, name: &str) -> EventArgs {
    EventArgs {
        log: syn::parse_str(log).unwrap(),
        id: syn::parse_str(&format!("{}", id)).unwrap(),
        name: syn::parse_str(&format!("{:?}", name)).unwrap(),
    }
}

#[test]
fn emit_event_macro() {
    let log = logger("mhallin.github.io");
    let name = match emit_event(event_args("LOGGER", 10, "Event")) {
        Ok(Expansion::EmitEvent { name, .. }) => name,
        _ => panic!("the event was not expanded"),
    };

    let marker = log.emit_event(10, &name, true).unwrap();
    assert_eq!(log.subsystem().as_bytes_with_nul(), b"mhallin.github.io\0");
    assert_eq!(marker.kind, SignpostType::Event);
    assert_eq!(marker.id, 10);
    assert_eq!(marker.name.as_bytes_with_nul(), b"Event\0");
    assert_eq!(marker.handle, 0x5150);
}

#[test]
fn emit_interval() {
    let log = logger("mhallin.github.io");
    let name = match begin_interval(event_args("LOGGER", 11, "Interval")) {
        Ok(Expansion::BeginInterval { name, .. }) => name,
        _ => panic!("the interval was not expanded"),
    };

    let (begin, mut interval) = log.begin_interval(11, &name, true);
    let begin = begin.unwrap();
    assert_eq!(begin.kind, SignpostType::IntervalBegin);
    assert_eq!(begin.id, 11);
    assert_eq!(begin.name.as_bytes_with_nul(), b"Interval\0");

    let started = Instant::now();
    while started.elapsed() < Duration::from_millis(10) {}

    let end = interval.end(true).unwrap();
    assert_eq!(end.kind, SignpostType::IntervalEnd);
    assert_eq!(end.id, 11);
    assert_eq!(end.name.as_bytes_with_nul(), b"Interval\0");
    assert_eq!(end.handle, begin.handle);
}
