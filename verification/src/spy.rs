//! Normalizing one raw per-process stack snapshot (as produced by an external
//! stack sampler) into a per-thread trace model.
//!
//! Policy, stated by the specification functions below and proved of the
//! executable code:
//! - a raw frame whose reported line is the sentinel `0` is a native frame and
//!   is dropped entirely;
//! - a retained frame's file name is the sampler's short file name when
//!   available, otherwise the full file name;
//! - within one frame's variable list, the first contiguous run of entries
//!   flagged as arguments becomes `args` and the first contiguous run of
//!   entries not so flagged becomes `locals`; later runs of either kind are
//!   dropped;
//! - a variable with no sampler-provided representation displays as `"?"`;
//! - whether a file name ends with the caller's target suffix is informational
//!   only: matching and non-matching frames are both retained.

use vstd::prelude::*;
use crate::text::u64_dec;
use crate::text::u64_to_string;

verus! {

/// One argument of a normalized frame: its name and displayed value.
pub struct PyArg {
    pub name: String,
    pub repr: String,
}

/// One local variable of a normalized frame: its name and displayed value.
pub struct PyLocal {
    pub name: String,
    pub repr: String,
}

/// One normalized stack frame: a call site with its arguments and locals.
pub struct PyFrame {
    pub name: String,
    pub filename: String,
    pub line: i32,
    pub args: Vec<PyArg>,
    pub locals: Vec<PyLocal>,
}

/// The normalized stack state of one thread.
pub struct PyTrace {
    pub thread_id: String,
    pub name: String,
    pub status: String,
    pub frames: Vec<PyFrame>,
}

/// The normalized stack state of one sampled process.
pub struct PyProcess {
    pub pid: i32,
    pub version: String,
    pub cmdline: String,
    pub exe: String,
    pub traces: Vec<PyTrace>,
}

/// One raw variable as the sampler reports it: a name, an is-argument flag,
/// and an optional representation string.
pub struct RawLocal {
    pub name: String,
    pub arg: bool,
    pub repr: Option<String>,
}

/// One raw stack frame as the sampler reports it. `line == 0` marks a native
/// frame without line information; `locals` is absent when the sampler did
/// not read variables for this frame.
pub struct RawFrame {
    pub name: String,
    pub filename: String,
    pub short_filename: Option<String>,
    pub line: i32,
    pub locals: Option<Vec<RawLocal>>,
}

/// One raw thread as the sampler reports it: a pre-formatted thread id, the
/// OS thread id when known, a status label, and the frames innermost first.
pub struct RawTrace {
    pub thread_id: String,
    pub os_thread_id: Option<u64>,
    pub status: String,
    pub frames: Vec<RawFrame>,
}

/// One raw snapshot of a sampled process, with its metadata read in full:
/// the reader fails before constructing this value if any field is missing.
pub struct RawProcess {
    pub pid: i32,
    pub version: String,
    pub cmdline: String,
    pub exe: String,
    pub traces: Vec<RawTrace>,
}

/// Mathematical model of a named, displayed variable.
pub ghost struct NamedValueV {
    pub name: Seq<char>,
    pub repr: Seq<char>,
}

/// Mathematical model of a normalized frame.
pub ghost struct PyFrameV {
    pub name: Seq<char>,
    pub filename: Seq<char>,
    pub line: i32,
    pub args: Seq<NamedValueV>,
    pub locals: Seq<NamedValueV>,
}

/// Mathematical model of a normalized thread trace.
pub ghost struct PyTraceV {
    pub thread_id: Seq<char>,
    pub name: Seq<char>,
    pub status: Seq<char>,
    pub frames: Seq<PyFrameV>,
}

/// Mathematical model of a normalized process snapshot.
pub ghost struct PyProcessV {
    pub pid: i32,
    pub version: Seq<char>,
    pub cmdline: Seq<char>,
    pub exe: Seq<char>,
    pub traces: Seq<PyTraceV>,
}

/// Mathematical model of a raw variable.
pub ghost struct RawLocalV {
    pub name: Seq<char>,
    pub arg: bool,
    pub repr: Option<Seq<char>>,
}

/// Mathematical model of a raw frame.
pub ghost struct RawFrameV {
    pub name: Seq<char>,
    pub filename: Seq<char>,
    pub short_filename: Option<Seq<char>>,
    pub line: i32,
    pub locals: Option<Seq<RawLocalV>>,
}

/// Mathematical model of a raw thread.
pub ghost struct RawTraceV {
    pub thread_id: Seq<char>,
    pub os_thread_id: Option<u64>,
    pub status: Seq<char>,
    pub frames: Seq<RawFrameV>,
}

/// Mathematical model of a raw process snapshot.
pub ghost struct RawProcessV {
    pub pid: i32,
    pub version: Seq<char>,
    pub cmdline: Seq<char>,
    pub exe: Seq<char>,
    pub traces: Seq<RawTraceV>,
}

impl View for PyArg {
    type V = NamedValueV;

    open spec fn view(&self) -> NamedValueV {
        NamedValueV { name: self.name@, repr: self.repr@ }
    }
}

impl DeepView for PyArg {
    type V = NamedValueV;

    open spec fn deep_view(&self) -> NamedValueV {
        self.view()
    }
}

impl View for PyLocal {
    type V = NamedValueV;

    open spec fn view(&self) -> NamedValueV {
        NamedValueV { name: self.name@, repr: self.repr@ }
    }
}

impl DeepView for PyLocal {
    type V = NamedValueV;

    open spec fn deep_view(&self) -> NamedValueV {
        self.view()
    }
}

impl View for PyFrame {
    type V = PyFrameV;

    open spec fn view(&self) -> PyFrameV {
        PyFrameV {
            name: self.name@,
            filename: self.filename@,
            line: self.line,
            args: self.args.deep_view(),
            locals: self.locals.deep_view(),
        }
    }
}

impl DeepView for PyFrame {
    type V = PyFrameV;

    open spec fn deep_view(&self) -> PyFrameV {
        self.view()
    }
}

impl View for PyTrace {
    type V = PyTraceV;

    open spec fn view(&self) -> PyTraceV {
        PyTraceV {
            thread_id: self.thread_id@,
            name: self.name@,
            status: self.status@,
            frames: self.frames.deep_view(),
        }
    }
}

impl DeepView for PyTrace {
    type V = PyTraceV;

    open spec fn deep_view(&self) -> PyTraceV {
        self.view()
    }
}

impl View for PyProcess {
    type V = PyProcessV;

    open spec fn view(&self) -> PyProcessV {
        PyProcessV {
            pid: self.pid,
            version: self.version@,
            cmdline: self.cmdline@,
            exe: self.exe@,
            traces: self.traces.deep_view(),
        }
    }
}

impl DeepView for PyProcess {
    type V = PyProcessV;

    open spec fn deep_view(&self) -> PyProcessV {
        self.view()
    }
}

impl View for RawLocal {
    type V = RawLocalV;

    open spec fn view(&self) -> RawLocalV {
        RawLocalV { name: self.name@, arg: self.arg, repr: self.repr.deep_view() }
    }
}

impl DeepView for RawLocal {
    type V = RawLocalV;

    open spec fn deep_view(&self) -> RawLocalV {
        self.view()
    }
}

impl View for RawFrame {
    type V = RawFrameV;

    open spec fn view(&self) -> RawFrameV {
        RawFrameV {
            name: self.name@,
            filename: self.filename@,
            short_filename: self.short_filename.deep_view(),
            line: self.line,
            locals: self.locals.deep_view(),
        }
    }
}

impl DeepView for RawFrame {
    type V = RawFrameV;

    open spec fn deep_view(&self) -> RawFrameV {
        self.view()
    }
}

impl View for RawTrace {
    type V = RawTraceV;

    open spec fn view(&self) -> RawTraceV {
        RawTraceV {
            thread_id: self.thread_id@,
            os_thread_id: self.os_thread_id,
            status: self.status@,
            frames: self.frames.deep_view(),
        }
    }
}

impl DeepView for RawTrace {
    type V = RawTraceV;

    open spec fn deep_view(&self) -> RawTraceV {
        self.view()
    }
}

impl View for RawProcess {
    type V = RawProcessV;

    open spec fn view(&self) -> RawProcessV {
        RawProcessV {
            pid: self.pid,
            version: self.version@,
            cmdline: self.cmdline@,
            exe: self.exe@,
            traces: self.traces.deep_view(),
        }
    }
}

impl DeepView for RawProcess {
    type V = RawProcessV;

    open spec fn deep_view(&self) -> RawProcessV {
        self.view()
    }
}

/// The displayed value of a variable: its representation string when the
/// sampler provided one, otherwise the placeholder `"?"`.
pub open spec fn display_of(repr: Option<Seq<char>>) -> Seq<char> {
    match repr {
        Some(r) => r,
        None => "?"@,
    }
}

/// The named, displayed form of one raw variable.
pub open spec fn named_value_of(l: RawLocalV) -> NamedValueV {
    NamedValueV { name: l.name, repr: display_of(l.repr) }
}

/// The longest prefix of `s` whose entries all have the is-argument flag
/// equal to `want`.
pub open spec fn run_from(s: Seq<RawLocalV>, want: bool) -> Seq<RawLocalV>
    decreases s.len(),
{
    if s.len() == 0 || s[0].arg != want {
        Seq::empty()
    } else {
        seq![s[0]] + run_from(s.drop_first(), want)
    }
}

/// The first contiguous run of entries of `s` whose is-argument flag equals
/// `want`; empty when no entry has it.
pub open spec fn first_run(s: Seq<RawLocalV>, want: bool) -> Seq<RawLocalV>
    decreases s.len(),
{
    if s.len() == 0 {
        Seq::empty()
    } else if s[0].arg == want {
        run_from(s, want)
    } else {
        first_run(s.drop_first(), want)
    }
}

/// The partition captured for one frame: the first run of entries with flag
/// `want`, displayed; empty when the sampler supplied no variable list.
pub open spec fn partition_of(locals: Option<Seq<RawLocalV>>, want: bool) -> Seq<NamedValueV> {
    match locals {
        Some(s) => first_run(s, want).map_values(|l: RawLocalV| named_value_of(l)),
        None => Seq::empty(),
    }
}

/// The file name a normalized frame records: the sampler's short file name
/// when available, otherwise the full file name.
pub open spec fn chosen_filename(f: RawFrameV) -> Seq<char> {
    match f.short_filename {
        Some(s) => s,
        None => f.filename,
    }
}

/// The normalized form of one retained raw frame: the sampler's symbol
/// name, the chosen file name, the line, and the variable partition.
pub open spec fn norm_frame(f: RawFrameV) -> PyFrameV {
    PyFrameV {
        name: f.name,
        filename: chosen_filename(f),
        line: f.line,
        args: partition_of(f.locals, true),
        locals: partition_of(f.locals, false),
    }
}

/// The normalized frame list of one thread: native frames (line `0`) are
/// dropped entirely, every other frame is normalized, in sampler order.
pub open spec fn norm_frames(fs: Seq<RawFrameV>) -> Seq<PyFrameV>
    decreases fs.len(),
{
    if fs.len() == 0 {
        Seq::empty()
    } else {
        let rest = norm_frames(fs.drop_last());
        if fs.last().line == 0 {
            rest
        } else {
            rest.push(norm_frame(fs.last()))
        }
    }
}

/// The label a normalized thread carries: the decimal OS thread id when
/// known, otherwise the literal `"Known"`.
pub open spec fn thread_label(os_thread_id: Option<u64>) -> Seq<char> {
    match os_thread_id {
        Some(tid) => u64_dec(tid),
        None => "Known"@,
    }
}

/// The normalized form of one raw thread.
pub open spec fn norm_trace(t: RawTraceV) -> PyTraceV {
    PyTraceV {
        thread_id: t.thread_id,
        name: thread_label(t.os_thread_id),
        status: t.status,
        frames: norm_frames(t.frames),
    }
}

/// The normalized form of one raw process snapshot: metadata copied
/// verbatim, each thread normalized in order.
pub open spec fn norm_process(p: RawProcessV) -> PyProcessV {
    PyProcessV {
        pid: p.pid,
        version: p.version,
        cmdline: p.cmdline,
        exe: p.exe,
        traces: p.traces.map_values(|t: RawTraceV| norm_trace(t)),
    }
}

proof fn lemma_run_from_is_subrange(s: Seq<RawLocalV>, want: bool, end: int)
    requires
        0 <= end <= s.len(),
        forall|j: int| 0 <= j < end ==> s[j].arg == want,
        end < s.len() ==> s[end].arg != want,
    ensures
        run_from(s, want) == s.subrange(0, end),
    decreases s.len(),
{
    if s.len() == 0 || end == 0 {
        assert(s.subrange(0, 0) =~= Seq::<RawLocalV>::empty());
    } else {
        let t = s.drop_first();
        assert(forall|j: int| 0 <= j < end - 1 ==> t[j] == s[j + 1]);
        lemma_run_from_is_subrange(t, want, end - 1);
        assert(seq![s[0]] + t.subrange(0, end - 1) =~= s.subrange(0, end));
    }
}

proof fn lemma_first_run_is_subrange(s: Seq<RawLocalV>, want: bool, start: int, end: int)
    requires
        0 <= start <= end <= s.len(),
        forall|j: int| 0 <= j < start ==> s[j].arg != want,
        start < s.len() ==> s[start].arg == want,
        start == s.len() ==> start == end,
        forall|j: int| start <= j < end ==> s[j].arg == want,
        end < s.len() ==> s[end].arg != want,
    ensures
        first_run(s, want) == s.subrange(start, end),
    decreases s.len(),
{
    if start == s.len() {
        assert(s.subrange(start, end) =~= Seq::<RawLocalV>::empty());
        lemma_first_run_all_miss(s, want);
    } else if start > 0 {
        let t = s.drop_first();
        assert(forall|j: int| 0 <= j < t.len() ==> t[j] == s[j + 1]);
        lemma_first_run_is_subrange(t, want, start - 1, end - 1);
        assert(t.subrange(start - 1, end - 1) =~= s.subrange(start, end));
    } else {
        lemma_run_from_is_subrange(s, want, end);
    }
}

proof fn lemma_first_run_all_miss(s: Seq<RawLocalV>, want: bool)
    requires
        forall|j: int| 0 <= j < s.len() ==> s[j].arg != want,
    ensures
        first_run(s, want) == Seq::<RawLocalV>::empty(),
    decreases s.len(),
{
    if s.len() > 0 {
        let t = s.drop_first();
        assert(forall|j: int| 0 <= j < t.len() ==> t[j] == s[j + 1]);
        lemma_first_run_all_miss(t, want);
    }
}

/// The displayed value of one optional representation string.
fn display_repr(repr: &Option<String>) -> (r: String)
    ensures
        r@ == display_of(repr.deep_view()),
{
    match repr {
        Some(s) => s.clone(),
        None => "?".to_owned(),
    }
}

/// The bounds of the first contiguous run of entries of `locals` whose
/// is-argument flag equals `want`: the run is `locals[b.0 .. b.1]`.
fn run_bounds(locals: &Vec<RawLocal>, want: bool) -> (b: (usize, usize))
    ensures
        b.0 <= b.1 <= locals@.len(),
        first_run(locals.deep_view(), want) == locals.deep_view().subrange(
            b.0 as int,
            b.1 as int,
        ),
{
    let ghost s = locals.deep_view();
    let n = locals.len();
    let mut start: usize = 0;
    while start < n && locals[start].arg != want
        invariant
            start <= n,
            n == s.len(),
            s == locals.deep_view(),
            forall|j: int| 0 <= j < start ==> s[j].arg != want,
        decreases n - start,
    {
        assert(s[start as int] == locals@[start as int].deep_view());
        start = start + 1;
    }
    let mut end: usize = start;
    while end < n && locals[end].arg == want
        invariant
            start <= end <= n,
            n == s.len(),
            s == locals.deep_view(),
            forall|j: int| 0 <= j < start ==> s[j].arg != want,
            start < n ==> s[start as int].arg == want,
            forall|j: int| start <= j < end ==> s[j].arg == want,
        decreases n - end,
    {
        assert(s[end as int] == locals@[end as int].deep_view());
        end = end + 1;
    }
    proof {
        lemma_first_run_is_subrange(s, want, start as int, end as int);
    }
    (start, end)
}

/// Copies the first contiguous run of argument entries of `locals`, each
/// with its displayed value.
pub fn extract_args(locals: &Vec<RawLocal>) -> (r: Vec<PyArg>)
    ensures
        r.deep_view() == partition_of(Some(locals.deep_view()), true),
{
    let ghost s = locals.deep_view();
    let (start, end) = run_bounds(locals, true);
    let mut r: Vec<PyArg> = Vec::new();
    let mut k = start;
    while k < end
        invariant
            start <= k <= end <= s.len(),
            s == locals.deep_view(),
            first_run(s, true) == s.subrange(start as int, end as int),
            r@.len() == k - start,
            forall|i: int| 0 <= i < k - start ==> r.deep_view()[i] == named_value_of(s[start + i]),
        decreases end - k,
    {
        proof {
            assert(s[k as int] == locals@[k as int].deep_view());
        }
        let ghost prev = r.deep_view();
        let name = locals[k].name.clone();
        let repr = display_repr(&locals[k].repr);
        r.push(PyArg { name, repr });
        k = k + 1;
        proof {
            assert(r.deep_view()[k - start - 1] == named_value_of(s[k - 1]));
            assert forall|i: int| 0 <= i < k - start implies r.deep_view()[i]
                == named_value_of(s[start + i]) by {
                if i < k - start - 1 {
                    assert(r.deep_view()[i] == prev[i]);
                }
            }
        }
    }
    proof {
        assert(r.deep_view() =~= partition_of(Some(s), true));
    }
    r
}

/// Copies the first contiguous run of non-argument entries of `locals`, each
/// with its displayed value.
pub fn extract_locals(locals: &Vec<RawLocal>) -> (r: Vec<PyLocal>)
    ensures
        r.deep_view() == partition_of(Some(locals.deep_view()), false),
{
    let ghost s = locals.deep_view();
    let (start, end) = run_bounds(locals, false);
    let mut r: Vec<PyLocal> = Vec::new();
    let mut k = start;
    while k < end
        invariant
            start <= k <= end <= s.len(),
            s == locals.deep_view(),
            first_run(s, false) == s.subrange(start as int, end as int),
            r@.len() == k - start,
            forall|i: int| 0 <= i < k - start ==> r.deep_view()[i] == named_value_of(s[start + i]),
        decreases end - k,
    {
        proof {
            assert(s[k as int] == locals@[k as int].deep_view());
        }
        let ghost prev = r.deep_view();
        let name = locals[k].name.clone();
        let repr = display_repr(&locals[k].repr);
        r.push(PyLocal { name, repr });
        k = k + 1;
        proof {
            assert(r.deep_view()[k - start - 1] == named_value_of(s[k - 1]));
            assert forall|i: int| 0 <= i < k - start implies r.deep_view()[i]
                == named_value_of(s[start + i]) by {
                if i < k - start - 1 {
                    assert(r.deep_view()[i] == prev[i]);
                }
            }
        }
    }
    proof {
        assert(r.deep_view() =~= partition_of(Some(s), false));
    }
    r
}


/// Normalizes one raw frame: symbol name kept, file name chosen, variables
/// partitioned.
pub fn normalize_frame(frame: &RawFrame) -> (r: PyFrame)
    ensures
        r@ == norm_frame(frame@),
{
    let filename = match &frame.short_filename {
        Some(s) => s.clone(),
        None => frame.filename.clone(),
    };
    let mut args: Vec<PyArg> = Vec::new();
    let mut locals: Vec<PyLocal> = Vec::new();
    match &frame.locals {
        Some(l) => {
            args = extract_args(l);
            locals = extract_locals(l);
        }
        None => {
            proof {
                assert(args.deep_view() =~= Seq::<NamedValueV>::empty());
                assert(locals.deep_view() =~= Seq::<NamedValueV>::empty());
            }
        }
    }
    let name = frame.name.clone();
    PyFrame { name, filename, line: frame.line, args, locals }
}

/// Normalizes one raw thread: label choice and frame filtering.
pub fn normalize_trace(trace: &RawTrace) -> (r: PyTrace)
    ensures
        r@ == norm_trace(trace@),
{
    let name = match trace.os_thread_id {
        Some(tid) => u64_to_string(tid),
        None => "Known".to_owned(),
    };
    let ghost fs = trace.frames.deep_view();
    let mut frames: Vec<PyFrame> = Vec::new();
    proof {
        assert(frames.deep_view() =~= Seq::<PyFrameV>::empty());
        assert(fs.take(0) =~= Seq::<RawFrameV>::empty());
    }
    let n = trace.frames.len();
    let mut i: usize = 0;
    while i < n
        invariant
            i <= n,
            n == fs.len(),
            fs == trace.frames.deep_view(),
            frames.deep_view() == norm_frames(fs.take(i as int)),
        decreases n - i,
    {
        let ghost prev = frames.deep_view();
        proof {
            assert(fs[i as int] == trace.frames@[i as int].deep_view());
        }
        let f = &trace.frames[i];
        if f.line != 0 {
            let pf = normalize_frame(f);
            frames.push(pf);
            proof {
                assert(frames.deep_view() =~= prev.push(norm_frame(fs[i as int])));
            }
        }
        i = i + 1;
        proof {
            assert(fs.take(i as int).drop_last() =~= fs.take(i - 1));
            assert(fs.take(i as int).last() == fs[i - 1]);
        }
    }
    proof {
        assert(fs.take(n as int) =~= fs);
    }
    PyTrace { thread_id: trace.thread_id.clone(), name, status: trace.status.clone(), frames }
}

/// Whether `filename` ends with the caller-specified target suffix. The
/// current retention policy keeps matching and non-matching frames alike:
/// this predicate is informational metadata for callers.
pub fn suffix_matches(filename: &str, suffix: &str) -> (r: bool)
    ensures
        r == suffix@.is_suffix_of(filename@),
{
    let fc = crate::text::to_chars(filename);
    let sc = crate::text::to_chars(suffix);
    if sc.len() > fc.len() {
        return false;
    }
    let off = fc.len() - sc.len();
    let mut i: usize = 0;
    while i < sc.len()
        invariant
            fc@ == filename@,
            sc@ == suffix@,
            sc@.len() <= fc@.len(),
            off == fc@.len() - sc@.len(),
            fc@.len() <= usize::MAX,
            i <= sc@.len(),
            forall|j: int| 0 <= j < i ==> fc@[off + j] == sc@[j],
        decreases sc@.len() - i,
    {
        if fc[off + i] != sc[i] {
            proof {
                let sub = filename@.subrange(off as int, filename@.len() as int);
                assert(sub[i as int] == fc@[off + i]);
            }
            return false;
        }
        i = i + 1;
    }
    proof {
        assert(suffix@ =~= filename@.subrange(off as int, filename@.len() as int));
    }
    true
}

/// The stack normalizer. One instance normalizes raw snapshots one at a
/// time; it keeps no state between calls.
pub struct Tracer {}

impl Tracer {
    /// Makes a normalizer.
    pub fn new() -> Tracer {
        Tracer {  }
    }

    /// Normalizes one raw process snapshot into a per-thread trace model.
    ///
    /// `_target_suffix` is the caller's target source-path suffix. Under the
    /// retention policy proved here it does not affect the output: matching
    /// and non-matching frames are both retained (see [`suffix_matches`] for
    /// the match rule itself). Only frames with the native sentinel line `0`
    /// are dropped.
    pub fn normalize(&mut self, process: &RawProcess, _target_suffix: &str) -> (r: PyProcess)
        ensures
            r@ == norm_process(process@),
    {
        let ghost ts = process.traces.deep_view();
        let mut traces: Vec<PyTrace> = Vec::new();
        let n = process.traces.len();
        let mut i: usize = 0;
        while i < n
            invariant
                i <= n,
                n == ts.len(),
                ts == process.traces.deep_view(),
                traces@.len() == i,
                forall|j: int| 0 <= j < i ==> traces.deep_view()[j] == norm_trace(ts[j]),
            decreases n - i,
        {
            let ghost prev = traces.deep_view();
            proof {
                assert(ts[i as int] == process.traces@[i as int].deep_view());
            }
            let t = normalize_trace(&process.traces[i]);
            traces.push(t);
            i = i + 1;
            proof {
                assert forall|j: int| 0 <= j < i implies traces.deep_view()[j] == norm_trace(
                    ts[j],
                ) by {
                    if j < i - 1 {
                        assert(traces.deep_view()[j] == prev[j]);
                    }
                }
            }
        }
        let r = PyProcess {
            pid: process.pid,
            version: process.version.clone(),
            cmdline: process.cmdline.clone(),
            exe: process.exe.clone(),
            traces,
        };
        proof {
            assert(r@.traces =~= norm_process(process@).traces);
        }
        r
    }
}

/// Native-frame exclusion: a raw frame whose line is the sentinel `0` never
/// appears in the normalized output, whatever its other fields hold.
pub proof fn lemma_native_frames_excluded(fs: Seq<RawFrameV>, i: int)
    requires
        0 <= i < norm_frames(fs).len(),
    ensures
        norm_frames(fs)[i].line != 0,
    decreases fs.len(),
{
    if fs.len() > 0 {
        if fs.last().line == 0 {
            lemma_native_frames_excluded(fs.drop_last(), i);
        } else if i < norm_frames(fs.drop_last()).len() {
            lemma_native_frames_excluded(fs.drop_last(), i);
        }
    }
}

} // verus!
