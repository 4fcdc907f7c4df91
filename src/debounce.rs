use vstd::prelude::*;
use crate::clients::SendEventsParams;
use crate::text::opt_view;

verus! {

/// Repeated reads of one file within this many milliseconds are dropped.
pub const DEBOUNCE_WINDOW_MS: i64 = 120_000;

/// One editor observation as the debounce rule sees it: the file, whether it
/// was a write, and when (milliseconds).
pub type Observation = (Seq<char>, bool, i64);

/// The file last forwarded and when.
pub type Cursor = (Seq<char>, i64);

/// Whether an observation is dropped: same file, not a write, and within the
/// window of the last forward.
pub open spec fn suppressed(cur: Cursor, o: Observation) -> bool {
    &&& o.0 == cur.0
    &&& o.2 - cur.1 < DEBOUNCE_WINDOW_MS
    &&& !o.1
}

/// One decide-and-stamp step: the next cursor and whether `o` is forwarded.
pub open spec fn debounce_step(cur: Cursor, o: Observation) -> (Cursor, bool) {
    if suppressed(cur, o) {
        (cur, false)
    } else {
        ((o.0, o.2), true)
    }
}

/// The cursor after a run of observations.
pub open spec fn cursor_after(cur: Cursor, os: Seq<Observation>) -> Cursor
    decreases os.len(),
{
    if os.len() == 0 {
        cur
    } else {
        cursor_after(debounce_step(cur, os[0]).0, os.drop_first())
    }
}

/// How many observations of a run are forwarded.
pub open spec fn forwarded_count(cur: Cursor, os: Seq<Observation>) -> nat
    decreases os.len(),
{
    if os.len() == 0 {
        0
    } else {
        let (next, fwd) = debounce_step(cur, os[0]);
        (if fwd { 1nat } else { 0nat }) + forwarded_count(next, os.drop_first())
    }
}

/// A notification from the editor.
pub enum EditorEvent {
    /// A file was opened, in the given language.
    Opened { uri: String, language: String },
    /// A file's content changed; the position of the first change, if known,
    /// as (line, character).
    Changed { uri: String, position: Option<(u32, u32)> },
    /// A file was saved.
    Saved { uri: String },
}

/// A position component as the backend stores it; one that does not fit is 0.
pub open spec fn position_value(n: u32) -> i32 {
    if n <= i32::MAX { n as i32 } else { 0 }
}

/// The capture call an editor notification stands for.
pub open spec fn event_of(e: EditorEvent) -> (Seq<char>, bool, Option<Seq<char>>, Option<i32>, Option<i32>) {
    match e {
        EditorEvent::Opened { uri, language } => (uri@, false, Some(language@), None, None),
        EditorEvent::Changed { uri, position } => match position {
            Some((line, ch)) => (uri@, false, None, Some(position_value(line)), Some(position_value(ch))),
            None => (uri@, false, None, None, None),
        },
        EditorEvent::Saved { uri } => (uri@, true, None, None, None),
    }
}

/// The fields of a capture call, as characters.
pub open spec fn params_view(p: SendEventsParams) -> (Seq<char>, bool, Option<Seq<char>>, Option<i32>, Option<i32>) {
    (p.uri@, p.is_write, opt_view(p.language), p.line_number, p.cursor_pos)
}

fn position_i32(n: u32) -> (r: i32)
    ensures
        r == position_value(n),
{
    if n <= 2147483647u32 {
        n as i32
    } else {
        0
    }
}

impl EditorEvent {
    /// The capture call this notification stands for.
    pub fn into_params(self) -> (p: SendEventsParams)
        ensures
            params_view(p) == event_of(self),
    {
        match self {
            EditorEvent::Opened { uri, language } => SendEventsParams {
                uri,
                is_write: false,
                language: Some(language),
                line_number: None,
                cursor_pos: None,
            },
            EditorEvent::Changed { uri, position } => match position {
                Some((line, ch)) => SendEventsParams {
                    uri,
                    is_write: false,
                    language: None,
                    line_number: Some(position_i32(line)),
                    cursor_pos: Some(position_i32(ch)),
                },
                None => SendEventsParams { uri, is_write: false, language: None, line_number: None, cursor_pos: None },
            },
            EditorEvent::Saved { uri } => SendEventsParams {
                uri,
                is_write: true,
                language: None,
                line_number: None,
                cursor_pos: None,
            },
        }
    }
}

/// The most recently forwarded file and when it was forwarded.
pub struct CurrentFile {
    pub uri: String,
    pub timestamp: i64,
}

impl View for CurrentFile {
    type V = Cursor;

    open spec fn view(&self) -> Cursor {
        (self.uri@, self.timestamp)
    }
}

impl CurrentFile {
    /// The state of a fresh session started at `now`: no file yet.
    pub fn new(now: i64) -> (c: Self)
        ensures
            c@ == (Seq::<char>::empty(), now),
    {
        CurrentFile { uri: String::new(), timestamp: now }
    }

    /// Decides whether an observation of `uri` at `now` is forwarded, and if
    /// so stamps it as the latest forward. Whether the send then succeeds does
    /// not matter to the stamp.
    pub fn observe(&mut self, uri: &String, is_write: bool, now: i64) -> (forward: bool)
        ensures
            (final(self)@, forward) == debounce_step(old(self)@, (uri@, is_write, now)),
    {
        let recent = (now as i128) - (self.timestamp as i128) < DEBOUNCE_WINDOW_MS as i128;
        if *uri == self.uri && recent && !is_write {
            false
        } else {
            self.uri = uri.clone();
            self.timestamp = now;
            true
        }
    }

    /// Runs the rule on an editor notification; gives back the capture call to
    /// make, outside any lock, when the notification is forwarded.
    pub fn send(&mut self, event: EditorEvent, now: i64) -> (r: Option<SendEventsParams>)
        ensures
            ({
                let (uri, is_write, _, _, _) = event_of(event);
                let (next, fwd) = debounce_step(old(self)@, (uri, is_write, now));
                &&& final(self)@ == next
                &&& (r is Some) == fwd
                &&& r matches Some(p) ==> params_view(p) == event_of(event)
            }),
    {
        let p = event.into_params();
        if self.observe(&p.uri, p.is_write, now) {
            Some(p)
        } else {
            None
        }
    }
}

/// A write is always forwarded, whatever came before.
pub proof fn lemma_write_always_forwarded(cur: Cursor, uri: Seq<char>, now: i64)
    ensures
        debounce_step(cur, (uri, true, now)).1,
{
}

/// A notification for another file than the last forwarded one, or one that
/// comes once the window has elapsed, is forwarded and becomes the cursor.
pub proof fn lemma_new_file_or_elapsed_window_forwarded(cur: Cursor, o: Observation)
    requires
        o.0 != cur.0 || o.2 - cur.1 >= DEBOUNCE_WINDOW_MS,
    ensures
        debounce_step(cur, o) == ((o.0, o.2), true),
{
}

/// Reads of one file that all fall within the window of the first, starting
/// from a cursor that lets the first through.
pub open spec fn burst_of_reads(cur: Cursor, uri: Seq<char>, os: Seq<Observation>) -> bool {
    &&& os.len() >= 1
    &&& !suppressed(cur, os[0])
    &&& forall|i: int| 0 <= i < os.len() ==> (#[trigger] os[i]).0 == uri && !os[i].1
    &&& forall|i: int| 0 <= i < os.len() ==> (#[trigger] os[i]).2 - os[0].2 < DEBOUNCE_WINDOW_MS
}

proof fn lemma_quiet_reads(uri: Seq<char>, t0: i64, os: Seq<Observation>)
    requires
        forall|i: int| 0 <= i < os.len() ==> (#[trigger] os[i]).0 == uri && !os[i].1,
        forall|i: int| 0 <= i < os.len() ==> (#[trigger] os[i]).2 - t0 < DEBOUNCE_WINDOW_MS,
    ensures
        forwarded_count((uri, t0), os) == 0,
        cursor_after((uri, t0), os) == (uri, t0),
    decreases os.len(),
{
    if os.len() > 0 {
        let rest = os.drop_first();
        assert(os[0].0 == uri && !os[0].1);
        assert(os[0].2 - t0 < DEBOUNCE_WINDOW_MS);
        assert forall|i: int| 0 <= i < rest.len() implies (#[trigger] rest[i]).0 == uri && !rest[i].1 by {
            assert(rest[i] == os[i + 1]);
        }
        assert forall|i: int| 0 <= i < rest.len() implies (#[trigger] rest[i]).2 - t0 < DEBOUNCE_WINDOW_MS by {
            assert(rest[i] == os[i + 1]);
        }
        lemma_quiet_reads(uri, t0, rest);
    }
}

/// A burst of reads of one file within the window forwards exactly one event,
/// and leaves the cursor on that file at the burst's first time.
pub proof fn lemma_burst_forwards_once(cur: Cursor, uri: Seq<char>, os: Seq<Observation>)
    requires
        burst_of_reads(cur, uri, os),
    ensures
        forwarded_count(cur, os) == 1,
        cursor_after(cur, os) == (uri, os[0].2),
{
    let rest = os.drop_first();
    assert(os[0].0 == uri && !os[0].1);
    assert forall|i: int| 0 <= i < rest.len() implies (#[trigger] rest[i]).0 == uri && !rest[i].1 by {
        assert(rest[i] == os[i + 1]);
    }
    assert forall|i: int| 0 <= i < rest.len() implies (#[trigger] rest[i]).2 - os[0].2 < DEBOUNCE_WINDOW_MS by {
        assert(rest[i] == os[i + 1]);
    }
    lemma_quiet_reads(uri, os[0].2, rest);
}

proof fn lemma_run_concat(cur: Cursor, xs: Seq<Observation>, ys: Seq<Observation>)
    ensures
        forwarded_count(cur, xs + ys) == forwarded_count(cur, xs) + forwarded_count(cursor_after(cur, xs), ys),
        cursor_after(cur, xs + ys) == cursor_after(cursor_after(cur, xs), ys),
    decreases xs.len(),
{
    if xs.len() == 0 {
        assert(xs + ys =~= ys);
    } else {
        assert((xs + ys).drop_first() =~= xs.drop_first() + ys);
        assert((xs + ys)[0] == xs[0]);
        lemma_run_concat(debounce_step(cur, xs[0]).0, xs.drop_first(), ys);
    }
}

/// Two bursts of reads of one file, the second starting once the window of
/// the first has elapsed, forward exactly two events.
pub proof fn lemma_window_elapsed_forwards_twice(cur: Cursor, uri: Seq<char>, xs: Seq<Observation>, ys: Seq<Observation>)
    requires
        burst_of_reads(cur, uri, xs),
        ys.len() >= 1,
        ys[0].2 - xs[0].2 >= DEBOUNCE_WINDOW_MS,
        burst_of_reads((uri, xs[0].2), uri, ys),
    ensures
        forwarded_count(cur, xs + ys) == 2,
{
    lemma_burst_forwards_once(cur, uri, xs);
    lemma_burst_forwards_once((uri, xs[0].2), uri, ys);
    lemma_run_concat(cur, xs, ys);
}

/// How many of `fs` are true.
pub open spec fn count_true(fs: Seq<bool>) -> nat
    decreases fs.len(),
{
    if fs.len() == 0 {
        0
    } else {
        (if fs[0] { 1nat } else { 0nat }) + count_true(fs.drop_first())
    }
}

/// Successive calls: cursor `curs[i]` before call `i`, observation `os[i]`,
/// forward decision `fwds[i]`, each call as [`CurrentFile::observe`] and
/// [`CurrentFile::send`] promise.
pub open spec fn successive_calls(curs: Seq<Cursor>, os: Seq<Observation>, fwds: Seq<bool>) -> bool {
    &&& curs.len() == os.len() + 1
    &&& fwds.len() == os.len()
    &&& forall|i: int| 0 <= i < os.len() ==> (curs[i + 1], fwds[i]) == #[trigger] debounce_step(curs[i], os[i])
}

/// Any number of successive calls forward what the run of their
/// observations forwards, and leave the cursor where the run leaves it.
pub proof fn lemma_calls_follow_run(curs: Seq<Cursor>, os: Seq<Observation>, fwds: Seq<bool>)
    requires
        successive_calls(curs, os, fwds),
    ensures
        count_true(fwds) == forwarded_count(curs[0], os),
        curs.last() == cursor_after(curs[0], os),
    decreases os.len(),
{
    if os.len() > 0 {
        let (c2, o2, f2) = (curs.drop_first(), os.drop_first(), fwds.drop_first());
        assert(debounce_step(curs[0], os[0]) == (curs[1], fwds[0]));
        assert forall|i: int| 0 <= i < o2.len() implies (c2[i + 1], f2[i]) == #[trigger] debounce_step(c2[i], o2[i]) by {
            assert(debounce_step(curs[i + 1], os[i + 1]) == (curs[i + 2], fwds[i + 1]));
        }
        lemma_calls_follow_run(c2, o2, f2);
    }
}

/// N successive calls on reads of one file within the window of the first
/// forward exactly one, the first, and leave the cursor at the first time.
pub proof fn lemma_burst_of_calls_forwards_once(curs: Seq<Cursor>, uri: Seq<char>, os: Seq<Observation>, fwds: Seq<bool>)
    requires
        successive_calls(curs, os, fwds),
        burst_of_reads(curs[0], uri, os),
    ensures
        count_true(fwds) == 1,
        fwds[0],
        curs.last() == (uri, os[0].2),
{
    lemma_calls_follow_run(curs, os, fwds);
    lemma_burst_forwards_once(curs[0], uri, os);
    assert(debounce_step(curs[0], os[0]) == (curs[1], fwds[0]));
}

/// Successive calls on two bursts of reads of one file, the second starting
/// once the window of the first has elapsed, forward exactly two.
pub proof fn lemma_two_bursts_of_calls_forward_twice(
    curs: Seq<Cursor>,
    uri: Seq<char>,
    xs: Seq<Observation>,
    ys: Seq<Observation>,
    fwds: Seq<bool>,
)
    requires
        successive_calls(curs, xs + ys, fwds),
        burst_of_reads(curs[0], uri, xs),
        ys.len() >= 1,
        ys[0].2 - xs[0].2 >= DEBOUNCE_WINDOW_MS,
        burst_of_reads((uri, xs[0].2), uri, ys),
    ensures
        count_true(fwds) == 2,
        curs.last() == (uri, ys[0].2),
{
    lemma_calls_follow_run(curs, xs + ys, fwds);
    lemma_window_elapsed_forwards_twice(curs[0], uri, xs, ys);
    lemma_run_concat(curs[0], xs, ys);
    lemma_burst_forwards_once(curs[0], uri, xs);
    lemma_burst_forwards_once((uri, xs[0].2), uri, ys);
}

} // verus!
