use speedscope::spy::{
    extract_args, extract_locals, suffix_matches, PyProcess, RawFrame, RawLocal, RawProcess,
    RawTrace, Tracer,
};
use speedscope::text::{contains_substr, to_chars, u64_to_string};

fn var(name: &str, arg: bool, repr: Option<&str>) -> RawLocal {
    RawLocal {
        name: name.to_owned(),
        arg,
        repr: repr.map(|r| r.to_owned()),
    }
}

fn frame(filename: &str, short: Option<&str>, line: i32, locals: Option<Vec<RawLocal>>) -> RawFrame {
    RawFrame {
        name: "fn_name".to_owned(),
        filename: filename.to_owned(),
        short_filename: short.map(|s| s.to_owned()),
        line,
        locals,
    }
}

fn process_of(frames: Vec<RawFrame>) -> RawProcess {
    RawProcess {
        pid: 42,
        version: "3.8.10".to_owned(),
        cmdline: "python app.py".to_owned(),
        exe: "/usr/bin/python".to_owned(),
        traces: vec![RawTrace {
            thread_id: "140123".to_owned(),
            os_thread_id: Some(777),
            status: "active".to_owned(),
            frames,
        }],
    }
}

fn normalize(raw: &RawProcess, suffix: &str) -> PyProcess {
    Tracer::new().normalize(raw, suffix)
}

#[test]
fn native_frames_are_dropped() {
    let raw = process_of(vec![
        frame("native.so", Some("native.so"), 0, Some(vec![var("x", true, Some("1"))])),
        frame("app.py", None, 12, None),
        frame("other.c", None, 0, None),
    ]);
    let p = normalize(&raw, "app.py");
    assert_eq!(p.traces.len(), 1);
    let frames = &p.traces[0].frames;
    assert_eq!(frames.len(), 1);
    assert_eq!(frames[0].line, 12);
    assert_eq!(frames[0].filename, "app.py");
}

#[test]
fn short_filename_is_preferred() {
    let raw = process_of(vec![
        frame("/full/path/app.py", Some("app.py"), 3, None),
        frame("/full/path/lib.py", None, 4, None),
    ]);
    let p = normalize(&raw, "app.py");
    let frames = &p.traces[0].frames;
    assert_eq!(frames[0].filename, "app.py");
    assert_eq!(frames[1].filename, "/full/path/lib.py");
    // The symbol name is the sampler's, untouched by the file name choice.
    assert_eq!(frames[0].name, "fn_name");
    assert_eq!(frames[1].name, "fn_name");
}

#[test]
fn partition_takes_first_runs() {
    let raw = process_of(vec![frame(
        "app.py",
        None,
        5,
        Some(vec![
            var("a", true, Some("1")),
            var("b", true, Some("2")),
            var("c", false, Some("3")),
            var("d", false, Some("4")),
        ]),
    )]);
    let p = normalize(&raw, "app.py");
    let f = &p.traces[0].frames[0];
    assert_eq!(f.args.len(), 2);
    assert_eq!(f.args[0].name, "a");
    assert_eq!(f.args[1].name, "b");
    assert_eq!(f.locals.len(), 2);
    assert_eq!(f.locals[0].name, "c");
    assert_eq!(f.locals[1].name, "d");
}

#[test]
fn partition_drops_later_runs() {
    let raw = process_of(vec![frame(
        "app.py",
        None,
        5,
        Some(vec![
            var("a", true, Some("1")),
            var("b", false, Some("2")),
            var("c", true, Some("3")),
        ]),
    )]);
    let p = normalize(&raw, "app.py");
    let f = &p.traces[0].frames[0];
    assert_eq!(f.args.len(), 1);
    assert_eq!(f.args[0].name, "a");
    assert_eq!(f.locals.len(), 1);
    assert_eq!(f.locals[0].name, "b");
}

#[test]
fn partition_when_locals_lead() {
    let locals = vec![
        var("l1", false, Some("1")),
        var("a1", true, Some("2")),
        var("l2", false, Some("3")),
    ];
    let args = extract_args(&locals);
    assert_eq!(args.len(), 1);
    assert_eq!(args[0].name, "a1");
    let locs = extract_locals(&locals);
    assert_eq!(locs.len(), 1);
    assert_eq!(locs[0].name, "l1");
}

#[test]
fn missing_repr_displays_question_mark() {
    let raw = process_of(vec![frame(
        "app.py",
        None,
        5,
        Some(vec![var("a", true, None), var("x", false, None), var("y", false, Some("7"))]),
    )]);
    let p = normalize(&raw, "app.py");
    let f = &p.traces[0].frames[0];
    assert_eq!(f.args[0].repr, "?");
    assert_eq!(f.locals[0].repr, "?");
    assert_eq!(f.locals[1].repr, "7");
}

#[test]
fn frame_without_variable_list_is_kept_empty() {
    let raw = process_of(vec![frame("app.py", None, 9, None)]);
    let p = normalize(&raw, "app.py");
    let f = &p.traces[0].frames[0];
    assert_eq!(f.args.len(), 0);
    assert_eq!(f.locals.len(), 0);
}

#[test]
fn metadata_is_copied_verbatim() {
    let raw = process_of(vec![]);
    let p = normalize(&raw, "app.py");
    assert_eq!(p.pid, 42);
    assert_eq!(p.version, "3.8.10");
    assert_eq!(p.cmdline, "python app.py");
    assert_eq!(p.exe, "/usr/bin/python");
    assert_eq!(p.traces[0].thread_id, "140123");
    assert_eq!(p.traces[0].status, "active");
}

#[test]
fn thread_label_is_os_thread_id_or_known() {
    let mut raw = process_of(vec![]);
    let p = normalize(&raw, "app.py");
    assert_eq!(p.traces[0].name, "777");
    raw.traces[0].os_thread_id = None;
    let p = normalize(&raw, "app.py");
    assert_eq!(p.traces[0].name, "Known");
}

#[test]
fn non_matching_frames_are_retained_too() {
    let raw = process_of(vec![
        frame("toolbar/apps/admin.py", None, 7, None),
        frame("unrelated/other.py", None, 8, None),
    ]);
    let p = normalize(&raw, "toolbar/apps/admin.py");
    assert_eq!(p.traces[0].frames.len(), 2);
    assert!(suffix_matches("toolbar/apps/admin.py", "apps/admin.py"));
    assert!(!suffix_matches("unrelated/other.py", "apps/admin.py"));
}

#[test]
fn suffix_match_rule() {
    assert!(suffix_matches("a/b/c.py", "c.py"));
    assert!(suffix_matches("c.py", "c.py"));
    assert!(suffix_matches("c.py", ""));
    assert!(!suffix_matches("c.py", "b/c.py"));
    assert!(!suffix_matches("", "c.py"));
    assert!(!suffix_matches("a/b/c.py", "c.pyx"));
}

#[test]
fn test_tracer() {
    // One snapshot shaped like a live sampling pass over process 123.
    let raw = RawProcess {
        pid: 123,
        version: "3.7.3".to_owned(),
        cmdline: "gunicorn worker".to_owned(),
        exe: "/usr/bin/python3".to_owned(),
        traces: vec![RawTrace {
            thread_id: "0x7F".to_owned(),
            os_thread_id: None,
            status: "idle".to_owned(),
            frames: vec![frame("toolbar/apps/admin.py", None, 31, None)],
        }],
    };
    let mut tracer = Tracer::new();
    let p = tracer.normalize(&raw, "toolbar/apps/admin.py");
    assert_eq!(p.pid, 123);
    assert_eq!(p.traces.len(), 1);
    assert_eq!(p.traces[0].frames.len(), 1);
}

#[test]
fn chars_of_a_string() {
    assert_eq!(to_chars("abc"), vec!['a', 'b', 'c']);
    assert_eq!(to_chars(""), Vec::<char>::new());
}

#[test]
fn decimal_formatting() {
    assert_eq!(u64_to_string(0), "0");
    assert_eq!(u64_to_string(7), "7");
    assert_eq!(u64_to_string(123), "123");
    assert_eq!(u64_to_string(1000), "1000");
    assert_eq!(u64_to_string(u64::MAX), "18446744073709551615");
}

#[test]
fn substring_rule() {
    assert!(contains_substr("/usr/bin/gunicorn worker", "gunicorn"));
    assert!(contains_substr("gunicorn", "gunicorn"));
    assert!(contains_substr("abc", ""));
    assert!(contains_substr("", ""));
    assert!(!contains_substr("", "gunicorn"));
    assert!(!contains_substr("gunicor", "gunicorn"));
    assert!(!contains_substr("uwsgi master", "gunicorn"));
    assert!(contains_substr("aab", "ab"));
}
