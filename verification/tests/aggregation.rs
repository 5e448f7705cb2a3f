use speedscope::speedscope::{build, FrameRegistry, Record, SpRecorder, SpeedScopeStruct};

fn record(
    timestamp: u64,
    event_kind: &str,
    source_file: &str,
    source_line: u64,
    symbol_name: &str,
) -> Record {
    Record {
        timestamp,
        event_kind: event_kind.to_owned(),
        source_file: source_file.to_owned(),
        source_line,
        symbol_name: symbol_name.to_owned(),
    }
}

fn assert_docs_equal(a: &SpeedScopeStruct, b: &SpeedScopeStruct) {
    assert_eq!(a.schema, b.schema);
    assert_eq!(a.active_profile_index, b.active_profile_index);
    assert_eq!(a.exporter, b.exporter);
    assert_eq!(a.name, b.name);
    assert_eq!(a.profiles.len(), b.profiles.len());
    for (pa, pb) in a.profiles.iter().zip(b.profiles.iter()) {
        assert_eq!(pa.profile_type, pb.profile_type);
        assert_eq!(pa.name, pb.name);
        assert_eq!(pa.unit, pb.unit);
        assert_eq!(pa.start_value, pb.start_value);
        assert_eq!(pa.end_value, pb.end_value);
        assert_eq!(pa.events.len(), pb.events.len());
        for (ea, eb) in pa.events.iter().zip(pb.events.iter()) {
            assert_eq!(ea.event_kind, eb.event_kind);
            assert_eq!(ea.at, eb.at);
            assert_eq!(ea.frame, eb.frame);
        }
    }
    assert_eq!(a.shared.frames.len(), b.shared.frames.len());
    for (fa, fb) in a.shared.frames.iter().zip(b.shared.frames.iter()) {
        assert_eq!(fa.symbol_name, fb.symbol_name);
        assert_eq!(fa.source_file, fb.source_file);
        assert_eq!(fa.source_line, fb.source_line);
        assert_eq!(fa.column, fb.column);
    }
}

#[test]
fn build_concrete_scenario() {
    let records = vec![
        record(1, "O", "f.py", 10, "g"),
        record(2, "C", "f.py", 10, "g"),
        record(3, "O", "f.py", 20, "h"),
    ];
    let doc = build(&records);

    let frames = &doc.shared.frames;
    assert_eq!(frames.len(), 2);
    assert_eq!(frames[0].source_file, "f.py");
    assert_eq!(frames[0].source_line, 10);
    assert_eq!(frames[0].symbol_name, "g");
    assert_eq!(frames[1].source_file, "f.py");
    assert_eq!(frames[1].source_line, 20);
    assert_eq!(frames[1].symbol_name, "h");

    assert_eq!(doc.profiles.len(), 1);
    let events = &doc.profiles[0].events;
    assert_eq!(events.len(), 3);
    assert_eq!(events[0].event_kind, "O");
    assert_eq!(events[0].at, 1);
    assert_eq!(events[0].frame, 0);
    assert_eq!(events[1].event_kind, "C");
    assert_eq!(events[1].at, 2);
    assert_eq!(events[1].frame, 0);
    assert_eq!(events[2].event_kind, "O");
    assert_eq!(events[2].at, 3);
    assert_eq!(events[2].frame, 1);
}

#[test]
fn build_fixed_labels() {
    let doc = build(&vec![record(5, "O", "a.py", 1, "f")]);
    assert_eq!(
        doc.schema,
        "https://www.speedscope.app/file-format-schema.json"
    );
    assert_eq!(doc.active_profile_index, 0);
    assert_eq!(doc.exporter, "pyspeedscope");
    assert_eq!(doc.name, "profile for python script");
    assert_eq!(doc.profiles.len(), 1);
    assert_eq!(doc.profiles[0].profile_type, "evented");
    assert_eq!(doc.profiles[0].name, "python");
    assert_eq!(doc.profiles[0].unit, "nanoseconds");
    assert_eq!(doc.profiles[0].start_value, "");
    assert_eq!(doc.profiles[0].end_value, "");
    assert_eq!(doc.shared.frames[0].column, 1);
}

#[test]
fn build_empty_input_is_a_document() {
    let doc = build(&vec![]);
    assert_eq!(doc.shared.frames.len(), 0);
    assert_eq!(doc.profiles.len(), 1);
    assert_eq!(doc.profiles[0].events.len(), 0);
    assert_eq!(doc.profiles[0].profile_type, "evented");
}

#[test]
fn build_is_deterministic() {
    let records = vec![
        record(1, "O", "x.py", 3, "a"),
        record(2, "O", "y.py", 4, "b"),
        record(3, "C", "x.py", 3, "a"),
        record(9, "C", "y.py", 4, "b"),
    ];
    let d1 = build(&records);
    let d2 = build(&records);
    assert_docs_equal(&d1, &d2);
}

#[test]
fn frame_indices_are_stable() {
    // Three distinct keys; the repeated key must reuse its first index, and
    // each first occurrence gets the count of distinct keys seen before it.
    let records = vec![
        record(1, "O", "a.py", 1, "f"),
        record(2, "O", "b.py", 2, "g"),
        record(3, "C", "a.py", 1, "f"),
        record(4, "O", "c.py", 3, "h"),
        record(5, "C", "b.py", 2, "g"),
    ];
    let doc = build(&records);
    let events = &doc.profiles[0].events;
    assert_eq!(events[0].frame, 0);
    assert_eq!(events[1].frame, 1);
    assert_eq!(events[2].frame, 0);
    assert_eq!(events[3].frame, 2);
    assert_eq!(events[4].frame, 1);
    assert_eq!(doc.shared.frames.len(), 3);
}

#[test]
fn keys_differ_when_any_part_differs() {
    // Same file and symbol on another line, same line in another file, and
    // same site with another symbol are three more distinct keys.
    let records = vec![
        record(1, "O", "a.py", 1, "f"),
        record(2, "O", "a.py", 2, "f"),
        record(3, "O", "b.py", 1, "f"),
        record(4, "O", "a.py", 1, "g"),
    ];
    let doc = build(&records);
    assert_eq!(doc.shared.frames.len(), 4);
    let events = &doc.profiles[0].events;
    assert_eq!(events[0].frame, 0);
    assert_eq!(events[1].frame, 1);
    assert_eq!(events[2].frame, 2);
    assert_eq!(events[3].frame, 3);
}

#[test]
fn recorder_accumulates_and_builds() {
    let mut rec = SpRecorder::new();
    assert_eq!(rec.len(), 0);
    rec.start();
    rec.append_record(1, "O".to_owned(), "f.py".to_owned(), 10, "g".to_owned());
    rec.append_record(2, "C".to_owned(), "f.py".to_owned(), 10, "g".to_owned());
    assert_eq!(rec.len(), 2);
    rec.stop();
    assert_eq!(rec.len(), 2);
    let doc = rec.make_speed_scope_doc();
    assert_eq!(doc.profiles[0].events.len(), 2);
    assert_eq!(doc.shared.frames.len(), 1);
    assert_eq!(doc.profiles[0].events[1].frame, 0);
}

#[test]
fn registry_interns_first_seen_order() {
    let mut reg = FrameRegistry::new();
    let a = record(1, "O", "a.py", 1, "f");
    let b = record(2, "O", "b.py", 2, "g");
    assert_eq!(reg.intern(&a), 0);
    assert_eq!(reg.intern(&b), 1);
    assert_eq!(reg.intern(&a), 0);
    assert_eq!(reg.intern(&b), 1);
    let frames = reg.into_frames();
    assert_eq!(frames.len(), 2);
    assert_eq!(frames[0].source_file, "a.py");
    assert_eq!(frames[1].source_file, "b.py");
}
