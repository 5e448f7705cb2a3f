//! Aggregating timestamped sample records into an evented flame-graph
//! profile document.
//!
//! A [`FrameRegistry`] deduplicates call-site identities (file, line, symbol)
//! into stable indices, preserving first-seen order; [`build`] folds a record
//! sequence into one document: one event per record, in record order, each
//! referencing its frame's index. The whole document is a function of the
//! record sequence alone, given by [`spec_build`].

use vstd::prelude::*;

verus! {

/// One raw sample fact appended by a caller before aggregation.
pub struct Record {
    pub timestamp: u64,
    pub event_kind: String,
    pub source_file: String,
    pub source_line: u64,
    pub symbol_name: String,
}

/// One timestamped reference to a shared frame.
pub struct Event {
    pub event_kind: String,
    pub at: u64,
    pub frame: u64,
}

/// One call-site identity in the shared frame table.
pub struct Frame {
    pub symbol_name: String,
    pub source_file: String,
    pub source_line: u64,
    pub column: u8,
}

/// One evented profile: a fixed set of labels around the event list.
pub struct Profile {
    pub profile_type: String,
    pub name: String,
    pub unit: String,
    pub start_value: String,
    pub end_value: String,
    pub events: Vec<Event>,
}

/// The shared frame table of a document.
pub struct ShareFrames {
    pub frames: Vec<Frame>,
}

/// The assembled profile document.
pub struct SpeedScopeStruct {
    pub schema: String,
    pub profiles: Vec<Profile>,
    pub shared: ShareFrames,
    pub active_profile_index: u8,
    pub exporter: String,
    pub name: String,
}

/// Mathematical model of a record.
pub ghost struct RecordV {
    pub timestamp: u64,
    pub event_kind: Seq<char>,
    pub source_file: Seq<char>,
    pub source_line: u64,
    pub symbol_name: Seq<char>,
}

/// Mathematical model of an event. The frame index is an unbounded integer;
/// the executable document stores it as `u64`.
pub ghost struct EventV {
    pub event_kind: Seq<char>,
    pub at: u64,
    pub frame: int,
}

/// Mathematical model of a frame.
pub ghost struct FrameV {
    pub symbol_name: Seq<char>,
    pub source_file: Seq<char>,
    pub source_line: u64,
    pub column: u8,
}

/// Mathematical model of a profile.
pub ghost struct ProfileV {
    pub profile_type: Seq<char>,
    pub name: Seq<char>,
    pub unit: Seq<char>,
    pub start_value: Seq<char>,
    pub end_value: Seq<char>,
    pub events: Seq<EventV>,
}

/// Mathematical model of a shared frame table.
pub ghost struct ShareFramesV {
    pub frames: Seq<FrameV>,
}

/// Mathematical model of a document.
pub ghost struct SpeedScopeStructV {
    pub schema: Seq<char>,
    pub profiles: Seq<ProfileV>,
    pub shared: ShareFramesV,
    pub active_profile_index: u8,
    pub exporter: Seq<char>,
    pub name: Seq<char>,
}

/// A call-site identity: two records with equal keys share one frame.
pub ghost struct FrameKeyV {
    pub source_file: Seq<char>,
    pub source_line: u64,
    pub symbol_name: Seq<char>,
}

impl View for Record {
    type V = RecordV;

    open spec fn view(&self) -> RecordV {
        RecordV {
            timestamp: self.timestamp,
            event_kind: self.event_kind@,
            source_file: self.source_file@,
            source_line: self.source_line,
            symbol_name: self.symbol_name@,
        }
    }
}

impl DeepView for Record {
    type V = RecordV;

    open spec fn deep_view(&self) -> RecordV {
        self.view()
    }
}

impl View for Event {
    type V = EventV;

    open spec fn view(&self) -> EventV {
        EventV { event_kind: self.event_kind@, at: self.at, frame: self.frame as int }
    }
}

impl DeepView for Event {
    type V = EventV;

    open spec fn deep_view(&self) -> EventV {
        self.view()
    }
}

impl View for Frame {
    type V = FrameV;

    open spec fn view(&self) -> FrameV {
        FrameV {
            symbol_name: self.symbol_name@,
            source_file: self.source_file@,
            source_line: self.source_line,
            column: self.column,
        }
    }
}

impl DeepView for Frame {
    type V = FrameV;

    open spec fn deep_view(&self) -> FrameV {
        self.view()
    }
}

impl View for Profile {
    type V = ProfileV;

    open spec fn view(&self) -> ProfileV {
        ProfileV {
            profile_type: self.profile_type@,
            name: self.name@,
            unit: self.unit@,
            start_value: self.start_value@,
            end_value: self.end_value@,
            events: self.events.deep_view(),
        }
    }
}

impl DeepView for Profile {
    type V = ProfileV;

    open spec fn deep_view(&self) -> ProfileV {
        self.view()
    }
}

impl View for ShareFrames {
    type V = ShareFramesV;

    open spec fn view(&self) -> ShareFramesV {
        ShareFramesV { frames: self.frames.deep_view() }
    }
}

impl DeepView for ShareFrames {
    type V = ShareFramesV;

    open spec fn deep_view(&self) -> ShareFramesV {
        self.view()
    }
}

impl View for SpeedScopeStruct {
    type V = SpeedScopeStructV;

    open spec fn view(&self) -> SpeedScopeStructV {
        SpeedScopeStructV {
            schema: self.schema@,
            profiles: self.profiles.deep_view(),
            shared: self.shared@,
            active_profile_index: self.active_profile_index,
            exporter: self.exporter@,
            name: self.name@,
        }
    }
}

impl DeepView for SpeedScopeStruct {
    type V = SpeedScopeStructV;

    open spec fn deep_view(&self) -> SpeedScopeStructV {
        self.view()
    }
}

/// The frame key a record derives.
pub open spec fn rec_key(r: RecordV) -> FrameKeyV {
    FrameKeyV {
        source_file: r.source_file,
        source_line: r.source_line,
        symbol_name: r.symbol_name,
    }
}

/// The frame key a stored frame carries.
pub open spec fn frame_key(f: FrameV) -> FrameKeyV {
    FrameKeyV {
        source_file: f.source_file,
        source_line: f.source_line,
        symbol_name: f.symbol_name,
    }
}

/// The frame a record creates on its key's first occurrence.
pub open spec fn frame_of(r: RecordV) -> FrameV {
    FrameV {
        symbol_name: r.symbol_name,
        source_file: r.source_file,
        source_line: r.source_line,
        column: 1,
    }
}

/// Whether some stored frame carries key `k`.
pub open spec fn has_key(frames: Seq<FrameV>, k: FrameKeyV) -> bool {
    exists|i: int| 0 <= i < frames.len() && frame_key(frames[i]) == k
}

/// The first index whose frame carries key `k` (meaningful when `has_key`).
pub open spec fn index_of_key(frames: Seq<FrameV>, k: FrameKeyV) -> int
    decreases frames.len(),
{
    if frames.len() == 0 {
        0
    } else if frame_key(frames[0]) == k {
        0
    } else {
        1 + index_of_key(frames.drop_first(), k)
    }
}

/// No two stored frames carry one key.
pub open spec fn distinct_keys(frames: Seq<FrameV>) -> bool {
    forall|i: int, j: int|
        0 <= i < j < frames.len() ==> frame_key(frames[i]) != frame_key(frames[j])
}

/// The frame table after interning one record: unchanged when its key is
/// present, extended by one frame otherwise.
pub open spec fn intern_frames(frames: Seq<FrameV>, r: RecordV) -> Seq<FrameV> {
    if has_key(frames, rec_key(r)) {
        frames
    } else {
        frames.push(frame_of(r))
    }
}

/// The index interning one record returns against table `frames`.
pub open spec fn frame_index(frames: Seq<FrameV>, r: RecordV) -> int {
    if has_key(frames, rec_key(r)) {
        index_of_key(frames, rec_key(r))
    } else {
        frames.len() as int
    }
}

/// The frame table a record sequence builds, in first-seen key order.
pub open spec fn frames_of_records(rs: Seq<RecordV>) -> Seq<FrameV>
    decreases rs.len(),
{
    if rs.len() == 0 {
        Seq::empty()
    } else {
        intern_frames(frames_of_records(rs.drop_last()), rs.last())
    }
}

/// The event one record produces against table `frames`.
pub open spec fn event_of(frames: Seq<FrameV>, r: RecordV) -> EventV {
    EventV { event_kind: r.event_kind, at: r.timestamp, frame: frame_index(frames, r) }
}

/// The event list a record sequence builds: one event per record, in order.
pub open spec fn events_of_records(rs: Seq<RecordV>) -> Seq<EventV>
    decreases rs.len(),
{
    if rs.len() == 0 {
        Seq::empty()
    } else {
        events_of_records(rs.drop_last()).push(
            event_of(frames_of_records(rs.drop_last()), rs.last()),
        )
    }
}

/// The document a record sequence builds: its events and frames under the
/// fixed schema, profile and exporter labels.
pub open spec fn spec_build(rs: Seq<RecordV>) -> SpeedScopeStructV {
    SpeedScopeStructV {
        schema: "https://www.speedscope.app/file-format-schema.json"@,
        profiles: seq![
            ProfileV {
                profile_type: "evented"@,
                name: "python"@,
                unit: "nanoseconds"@,
                start_value: ""@,
                end_value: ""@,
                events: events_of_records(rs),
            }
        ],
        shared: ShareFramesV { frames: frames_of_records(rs) },
        active_profile_index: 0,
        exporter: "pyspeedscope"@,
        name: "profile for python script"@,
    }
}

proof fn lemma_index_of_key_first(frames: Seq<FrameV>, k: FrameKeyV, i: int)
    requires
        0 <= i < frames.len(),
        frame_key(frames[i]) == k,
        forall|j: int| 0 <= j < i ==> frame_key(frames[j]) != k,
    ensures
        index_of_key(frames, k) == i,
        has_key(frames, k),
    decreases i,
{
    if i > 0 {
        let t = frames.drop_first();
        assert(forall|j: int| 0 <= j < t.len() ==> t[j] == frames[j + 1]);
        lemma_index_of_key_first(t, k, i - 1);
    }
}

/// Deduplicates call-site identities into stable indices, preserving
/// first-seen order. Scope one registry per aggregation pass.
pub struct FrameRegistry {
    frames: Vec<Frame>,
}

impl View for FrameRegistry {
    type V = Seq<FrameV>;

    closed spec fn view(&self) -> Seq<FrameV> {
        self.frames.deep_view()
    }
}

impl FrameRegistry {
    /// Well-formed: no two stored frames carry one key, so an interned
    /// index is never reassigned.
    pub open spec fn wf(self) -> bool {
        distinct_keys(self@)
    }

    /// Makes an empty registry.
    pub fn new() -> (r: FrameRegistry)
        ensures
            r@ == Seq::<FrameV>::empty(),
            r.wf(),
    {
        let r = FrameRegistry { frames: Vec::new() };
        proof {
            assert(r@ =~= Seq::<FrameV>::empty());
        }
        r
    }

    /// Interns one record's call site: returns the index its key already
    /// has, or stores a new frame (first writer wins) at the next index and
    /// returns that. No index is ever reassigned or reused.
    pub fn intern(&mut self, record: &Record) -> (idx: usize)
        requires
            old(self).wf(),
        ensures
            final(self).wf(),
            final(self)@ == intern_frames(old(self)@, record@),
            idx == frame_index(old(self)@, record@),
            idx < final(self)@.len(),
            frame_key(final(self)@[idx as int]) == rec_key(record@),
    {
        let ghost fs = self@;
        let n = self.frames.len();
        let mut i: usize = 0;
        while i < n
            invariant
                i <= n,
                n == fs.len(),
                fs == self@,
                self == old(self),
                distinct_keys(fs),
                forall|j: int| 0 <= j < i ==> frame_key(fs[j]) != rec_key(record@),
            decreases n - i,
        {
            proof {
                assert(fs[i as int] == self.frames@[i as int].deep_view());
            }
            let f = &self.frames[i];
            if f.source_file == record.source_file && f.source_line == record.source_line
                && f.symbol_name == record.symbol_name {
                proof {
                    assert(frame_key(fs[i as int]) == rec_key(record@));
                    lemma_index_of_key_first(fs, rec_key(record@), i as int);
                }
                return i;
            }
            i = i + 1;
        }
        proof {
            assert(!has_key(fs, rec_key(record@)));
        }
        let frame = Frame {
            symbol_name: record.symbol_name.clone(),
            source_file: record.source_file.clone(),
            source_line: record.source_line,
            column: 1,
        };
        self.frames.push(frame);
        proof {
            assert(self@ =~= fs.push(frame_of(record@)));
            assert forall|a: int, b: int| 0 <= a < b < self@.len() implies frame_key(self@[a])
                != frame_key(self@[b]) by {
                if b < fs.len() {
                    assert(self@[a] == fs[a] && self@[b] == fs[b]);
                } else {
                    assert(self@[a] == fs[a] && frame_key(self@[b]) == rec_key(record@));
                }
            }
        }
        n
    }

    /// Hands the stored frames out, in interned-index order.
    pub fn into_frames(self) -> (frames: Vec<Frame>)
        ensures
            frames.deep_view() == self@,
    {
        self.frames
    }
}

/// Accumulates the record sequence that [`build`] consumes; records are
/// append-only and immutable once appended.
pub struct SpRecorder {
    records: Vec<Record>,
}

impl View for SpRecorder {
    type V = Seq<RecordV>;

    closed spec fn view(&self) -> Seq<RecordV> {
        self.records.deep_view()
    }
}

impl SpRecorder {
    /// Makes an empty recorder.
    pub fn new() -> (r: SpRecorder)
        ensures
            r@ == Seq::<RecordV>::empty(),
    {
        let r = SpRecorder { records: Vec::new() };
        proof {
            assert(r@ =~= Seq::<RecordV>::empty());
        }
        r
    }

    /// Lifecycle hook for callers that bracket a sampling session;
    /// recording needs no setup, so the records are untouched.
    pub fn start(&mut self)
        ensures
            final(self)@ == old(self)@,
    {
    }

    /// Lifecycle hook, the counterpart of [`SpRecorder::start`]; recording
    /// needs no teardown, so the records are untouched.
    pub fn stop(&mut self)
        ensures
            final(self)@ == old(self)@,
    {
    }

    /// Appends one record, after every record already held.
    pub fn append_record(
        &mut self,
        timestamp: u64,
        event_kind: String,
        source_file: String,
        source_line: u64,
        symbol_name: String,
    )
        ensures
            final(self)@ == old(self)@.push(
                RecordV {
                    timestamp,
                    event_kind: event_kind@,
                    source_file: source_file@,
                    source_line,
                    symbol_name: symbol_name@,
                },
            ),
    {
        let ghost prev = self@;
        let record = Record { timestamp, event_kind, source_file, source_line, symbol_name };
        let ghost rv = record@;
        self.records.push(record);
        proof {
            assert(self@ =~= prev.push(rv));
        }
    }

    /// The number of records held.
    pub fn len(&self) -> (n: usize)
        ensures
            n == self@.len(),
    {
        self.records.len()
    }

    /// Builds the profile document of the records held so far.
    pub fn make_speed_scope_doc(&self) -> (doc: SpeedScopeStruct)
        ensures
            doc@ == spec_build(self@),
    {
        build(&self.records)
    }
}

/// Builds the profile document of `records`: one event per record, in record
/// order, over the deduplicated frame table, wrapped in exactly one profile
/// under the fixed labels. A pure function of the record sequence; an empty
/// sequence yields a document with zero events and zero frames.
pub fn build(records: &Vec<Record>) -> (doc: SpeedScopeStruct)
    ensures
        doc@ == spec_build(records.deep_view()),
{
    let ghost rs = records.deep_view();
    let mut registry = FrameRegistry::new();
    let mut events: Vec<Event> = Vec::new();
    proof {
        assert(rs.take(0) =~= Seq::<RecordV>::empty());
        assert(events.deep_view() =~= events_of_records(rs.take(0)));
        assert(registry@ =~= frames_of_records(rs.take(0)));
    }
    let n = records.len();
    let mut i: usize = 0;
    while i < n
        invariant
            i <= n,
            n == rs.len(),
            rs == records.deep_view(),
            registry.wf(),
            registry@ == frames_of_records(rs.take(i as int)),
            events.deep_view() == events_of_records(rs.take(i as int)),
        decreases n - i,
    {
        let ghost prev_frames = registry@;
        let ghost prev_events = events.deep_view();
        proof {
            assert(rs[i as int] == records@[i as int].deep_view());
        }
        let record = &records[i];
        let idx = registry.intern(record);
        let event_kind = record.event_kind.clone();
        events.push(Event { event_kind, at: record.timestamp, frame: idx as u64 });
        i = i + 1;
        proof {
            assert(rs.take(i as int).drop_last() =~= rs.take(i - 1));
            assert(rs.take(i as int).last() == rs[i - 1]);
            assert(events.deep_view() =~= prev_events.push(event_of(prev_frames, rs[i - 1])));
        }
    }
    proof {
        assert(rs.take(n as int) =~= rs);
    }
    let frames = registry.into_frames();
    let mut profiles: Vec<Profile> = Vec::new();
    profiles.push(
        Profile {
            profile_type: "evented".to_owned(),
            name: "python".to_owned(),
            unit: "nanoseconds".to_owned(),
            start_value: "".to_owned(),
            end_value: "".to_owned(),
            events,
        },
    );
    let doc = SpeedScopeStruct {
        schema: "https://www.speedscope.app/file-format-schema.json".to_owned(),
        profiles,
        shared: ShareFrames { frames },
        active_profile_index: 0,
        exporter: "pyspeedscope".to_owned(),
        name: "profile for python script".to_owned(),
    };
    proof {
        assert(doc@.profiles =~= spec_build(rs).profiles);
    }
    doc
}


proof fn lemma_events_len(rs: Seq<RecordV>)
    ensures
        events_of_records(rs).len() == rs.len(),
    decreases rs.len(),
{
    if rs.len() > 0 {
        lemma_events_len(rs.drop_last());
    }
}

proof fn lemma_event_at(rs: Seq<RecordV>, i: int)
    requires
        0 <= i < rs.len(),
    ensures
        events_of_records(rs).len() == rs.len(),
        events_of_records(rs)[i] == event_of(frames_of_records(rs.take(i)), rs[i]),
    decreases rs.len(),
{
    lemma_events_len(rs);
    if i == rs.len() - 1 {
        assert(rs.take(i) =~= rs.drop_last());
    } else {
        lemma_event_at(rs.drop_last(), i);
        assert(rs.drop_last().take(i) =~= rs.take(i));
        assert(rs.drop_last()[i] == rs[i]);
    }
}

/// Order preservation: the event list mirrors the record list in length
/// and, per position, in event kind and timestamp.
pub proof fn lemma_order_preservation(rs: Seq<RecordV>)
    ensures
        events_of_records(rs).len() == rs.len(),
        forall|i: int|
            0 <= i < rs.len() ==> (#[trigger] events_of_records(rs)[i]).event_kind
                == rs[i].event_kind && events_of_records(rs)[i].at == rs[i].timestamp,
{
    lemma_events_len(rs);
    assert forall|i: int|
        0 <= i < rs.len() implies (#[trigger] events_of_records(rs)[i]).event_kind
        == rs[i].event_kind && events_of_records(rs)[i].at == rs[i].timestamp by {
        lemma_event_at(rs, i);
    }
}

/// Index stability over time: the frame table built from any prefix of the
/// records is a prefix of the final table, so no index is ever reassigned or
/// reused, and no stored frame is ever mutated or removed.
pub proof fn lemma_frames_prefix(rs: Seq<RecordV>, i: int)
    requires
        0 <= i <= rs.len(),
    ensures
        frames_of_records(rs.take(i)).len() <= frames_of_records(rs).len(),
        forall|j: int|
            0 <= j < frames_of_records(rs.take(i)).len() ==> frames_of_records(rs)[j]
                == frames_of_records(rs.take(i))[j],
    decreases rs.len() - i,
{
    if i == rs.len() {
        assert(rs.take(i) =~= rs);
    } else {
        lemma_frames_prefix(rs, i + 1);
        assert(rs.take(i + 1).drop_last() =~= rs.take(i));
        assert(rs.take(i + 1).last() == rs[i]);
        let shorter = frames_of_records(rs.take(i));
        let longer = frames_of_records(rs.take(i + 1));
        assert(longer == intern_frames(shorter, rs[i]));
        assert forall|j: int| 0 <= j < shorter.len() implies frames_of_records(rs)[j]
            == shorter[j] by {
            assert(longer[j] == shorter[j]);
        }
    }
}

proof fn lemma_index_of_key_props(frames: Seq<FrameV>, k: FrameKeyV)
    requires
        has_key(frames, k),
    ensures
        0 <= index_of_key(frames, k) < frames.len(),
        frame_key(frames[index_of_key(frames, k)]) == k,
        forall|j: int| 0 <= j < index_of_key(frames, k) ==> frame_key(frames[j]) != k,
    decreases frames.len(),
{
    if frame_key(frames[0]) != k {
        let w = choose|i: int| 0 <= i < frames.len() && frame_key(frames[i]) == k;
        let t = frames.drop_first();
        assert(forall|j: int| 0 <= j < t.len() ==> t[j] == frames[j + 1]);
        assert(frame_key(t[w - 1]) == k);
        lemma_index_of_key_props(t, k);
        assert forall|j: int| 0 <= j < index_of_key(frames, k) implies frame_key(frames[j])
            != k by {
            if j > 0 {
                assert(frames[j] == t[j - 1]);
            }
        }
    }
}

proof fn lemma_index_of_key_prefix(short: Seq<FrameV>, long: Seq<FrameV>, k: FrameKeyV)
    requires
        has_key(short, k),
        short.len() <= long.len(),
        forall|j: int| 0 <= j < short.len() ==> long[j] == short[j],
    ensures
        has_key(long, k),
        index_of_key(long, k) == index_of_key(short, k),
{
    lemma_index_of_key_props(short, k);
    let idx = index_of_key(short, k);
    assert(frame_key(long[idx]) == k);
    lemma_index_of_key_first(long, k, idx);
}

proof fn lemma_frames_keys(rs: Seq<RecordV>, k: FrameKeyV)
    ensures
        has_key(frames_of_records(rs), k) <==> (exists|j: int|
            0 <= j < rs.len() && rec_key(rs[j]) == k),
    decreases rs.len(),
{
    if rs.len() > 0 {
        let prev = frames_of_records(rs.drop_last());
        let fs = frames_of_records(rs);
        let r = rs.last();
        lemma_frames_keys(rs.drop_last(), k);
        assert(forall|j: int| 0 <= j < rs.len() - 1 ==> rs.drop_last()[j] == rs[j]);
        assert(fs == intern_frames(prev, r));
        if has_key(fs, k) {
            let w = choose|i: int| 0 <= i < fs.len() && frame_key(fs[i]) == k;
            if w < prev.len() {
                assert(fs[w] == prev[w]);
                assert(has_key(prev, k));
                let j = choose|j: int|
                    0 <= j < rs.len() - 1 && rec_key(rs.drop_last()[j]) == k;
                assert(rec_key(rs[j]) == k);
            } else {
                assert(fs == prev.push(frame_of(r)));
                assert(frame_key(fs[w]) == rec_key(r));
                assert(rec_key(rs[rs.len() - 1]) == k);
            }
        }
        if exists|j: int| 0 <= j < rs.len() && rec_key(rs[j]) == k {
            let j = choose|j: int| 0 <= j < rs.len() && rec_key(rs[j]) == k;
            if j < rs.len() - 1 {
                assert(rec_key(rs.drop_last()[j]) == k);
                assert(has_key(prev, k));
                let w = choose|i: int| 0 <= i < prev.len() && frame_key(prev[i]) == k;
                if !has_key(prev, rec_key(r)) {
                    assert(fs == prev.push(frame_of(r)));
                    assert(fs[w] == prev[w]);
                }
                assert(frame_key(fs[w]) == k);
                assert(has_key(fs, k));
            } else {
                if has_key(prev, k) {
                    assert(fs == prev);
                } else {
                    assert(fs == prev.push(frame_of(r)));
                    assert(frame_key(fs[prev.len() as int]) == k);
                }
                assert(has_key(fs, k));
            }
        }
    }
}

/// The first position at which a record with key `k` occurs (meaningful
/// when some record carries `k`).
pub open spec fn first_occurrence(rs: Seq<RecordV>, k: FrameKeyV) -> int
    decreases rs.len(),
{
    if rs.len() == 0 {
        0
    } else if rec_key(rs[0]) == k {
        0
    } else {
        1 + first_occurrence(rs.drop_first(), k)
    }
}

proof fn lemma_first_occurrence_props(rs: Seq<RecordV>, k: FrameKeyV)
    requires
        exists|j: int| 0 <= j < rs.len() && rec_key(rs[j]) == k,
    ensures
        0 <= first_occurrence(rs, k) < rs.len(),
        rec_key(rs[first_occurrence(rs, k)]) == k,
        forall|j: int| 0 <= j < first_occurrence(rs, k) ==> rec_key(rs[j]) != k,
    decreases rs.len(),
{
    if rec_key(rs[0]) != k {
        let w = choose|j: int| 0 <= j < rs.len() && rec_key(rs[j]) == k;
        let t = rs.drop_first();
        assert(forall|j: int| 0 <= j < t.len() ==> t[j] == rs[j + 1]);
        assert(rec_key(t[w - 1]) == k);
        lemma_first_occurrence_props(t, k);
        assert forall|j: int| 0 <= j < first_occurrence(rs, k) implies rec_key(rs[j]) != k by {
            if j > 0 {
                assert(rs[j] == t[j - 1]);
            }
        }
    }
}

proof fn lemma_event_frame_value(rs: Seq<RecordV>, i: int)
    requires
        0 <= i < rs.len(),
    ensures
        events_of_records(rs).len() == rs.len(),
        events_of_records(rs)[i].frame == frames_of_records(
            rs.take(first_occurrence(rs, rec_key(rs[i]))),
        ).len(),
{
    let k = rec_key(rs[i]);
    lemma_event_at(rs, i);
    lemma_first_occurrence_props(rs, k);
    let f = first_occurrence(rs, k);
    if i < f {
        assert(rec_key(rs[i]) != k);
        assert(false);
    }
    let ff = frames_of_records(rs.take(f));
    let fi = frames_of_records(rs.take(i));
    assert(forall|j: int| 0 <= j < f ==> rs.take(f)[j] == rs[j]);
    lemma_frames_keys(rs.take(f), k);
    assert(!has_key(ff, k));
    if i > f {
        assert(rs.take(i)[f] == rs[f]);
        lemma_frames_keys(rs.take(i), k);
        assert(has_key(fi, k));
        let ff1 = frames_of_records(rs.take(f + 1));
        assert(rs.take(f + 1).drop_last() =~= rs.take(f));
        assert(rs.take(f + 1).last() == rs[f]);
        assert(ff1 == intern_frames(ff, rs[f]));
        assert(ff1 == ff.push(frame_of(rs[f])));
        assert(frame_key(ff1[ff.len() as int]) == k);
        assert forall|j: int| 0 <= j < ff.len() implies frame_key(ff1[j]) != k by {
            assert(ff1[j] == ff[j]);
            assert(!(0 <= j < ff.len() && frame_key(ff[j]) == k));
        }
        lemma_index_of_key_first(ff1, k, ff.len() as int);
        assert(rs.take(i).take(f + 1) =~= rs.take(f + 1));
        lemma_frames_prefix(rs.take(i), f + 1);
        lemma_index_of_key_prefix(ff1, fi, k);
    }
}

/// Index stability: records carrying one frame key produce events that
/// reference one frame index, and that index is the size of the frame table
/// built from the records strictly before the key's first occurrence — the
/// count of distinct keys seen before it.
pub proof fn lemma_index_stability(rs: Seq<RecordV>, i: int, j: int)
    requires
        0 <= i < rs.len(),
        0 <= j < rs.len(),
        rec_key(rs[i]) == rec_key(rs[j]),
    ensures
        events_of_records(rs)[i].frame == events_of_records(rs)[j].frame,
        events_of_records(rs)[i].frame == frames_of_records(
            rs.take(first_occurrence(rs, rec_key(rs[i]))),
        ).len(),
{
    lemma_event_frame_value(rs, i);
    lemma_event_frame_value(rs, j);
}

/// Determinism: the document is a function of the record sequence alone, so
/// repeated builds over one record sequence produce identical documents.
pub proof fn lemma_build_deterministic(
    rs: Seq<RecordV>,
    d1: SpeedScopeStructV,
    d2: SpeedScopeStructV,
)
    requires
        d1 == spec_build(rs),
        d2 == spec_build(rs),
    ensures
        d1 == d2,
{
}

/// Empty input: no records yield a document with one profile holding zero
/// events, over a frame table with zero frames — a document, not an error.
pub proof fn lemma_build_empty()
    ensures
        spec_build(Seq::<RecordV>::empty()).shared.frames.len() == 0,
        spec_build(Seq::<RecordV>::empty()).profiles.len() == 1,
        spec_build(Seq::<RecordV>::empty()).profiles[0].events.len() == 0,
{
}


/// Deduplication: no two frames of the built table carry one key, so the
/// n-th distinct key observed owns index n-1 and no other.
pub proof fn lemma_frames_distinct(rs: Seq<RecordV>)
    ensures
        distinct_keys(frames_of_records(rs)),
    decreases rs.len(),
{
    if rs.len() > 0 {
        let prev = frames_of_records(rs.drop_last());
        let fs = frames_of_records(rs);
        let r = rs.last();
        lemma_frames_distinct(rs.drop_last());
        if !has_key(prev, rec_key(r)) {
            assert(fs == prev.push(frame_of(r)));
            assert forall|a: int, b: int| 0 <= a < b < fs.len() implies frame_key(fs[a])
                != frame_key(fs[b]) by {
                if b < prev.len() {
                    assert(fs[a] == prev[a] && fs[b] == prev[b]);
                } else {
                    assert(fs[a] == prev[a]);
                    assert(frame_key(fs[b]) == rec_key(r));
                    assert(!(0 <= a < prev.len() && frame_key(prev[a]) == rec_key(r)));
                }
            }
        }
    }
}

} // verus!
