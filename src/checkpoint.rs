use vstd::prelude::*;

use crate::document::pairs_view;
use crate::text::{push_char, same_text};

verus! {

/// How long the store waits between two writes of the checkpoint file.
pub const FLUSH_INTERVAL_MS: u64 = 1234;

/// The longest checkpoint text that is parsed. The YAML parser recurses once
/// per level of block nesting with no bound of its own, so a longer text,
/// which no checkpoint of one cursor needs, is taken for no checkpoint.
pub const MAX_CHECKPOINT_CHARS: usize = 1024;

/// What serde_yaml writes for a map of these string entries.
pub uninterp spec fn yaml_text_of(entries: Seq<(Seq<char>, Seq<char>)>) -> Option<Seq<char>>;

/// What serde_yaml reads from `text` as a map of strings to strings, in key order.
pub uninterp spec fn yaml_entries_of(text: Seq<char>) -> Option<Seq<(Seq<char>, Seq<char>)>>;

/// Relies on `serde_yaml::to_string` for a `BTreeMap<String, String>`.
#[verifier::external_body]
fn yaml_text(entries: &Vec<(String, String)>) -> (r: Option<String>)
    ensures
        yaml_text_of(pairs_view(entries@)) == match r {
            Some(t) => Some(t@),
            None => None::<Seq<char>>,
        },
{
    let map: std::collections::BTreeMap<String, String> = entries.iter().cloned().collect();
    serde_yaml::to_string(&map).ok()
}

/// Relies on `serde_yaml::from_str` into a `BTreeMap<String, String>`; its
/// parser recurses once per nesting level, so the text is kept short.
#[verifier::external_body]
fn yaml_entries(text: &str) -> (r: Option<Vec<(String, String)>>)
    requires
        text@.len() <= MAX_CHECKPOINT_CHARS,
    ensures
        yaml_entries_of(text@) == match r {
            Some(v) => Some(pairs_view(v@)),
            None => None::<Seq<(Seq<char>, Seq<char>)>>,
        },
{
    match serde_yaml::from_str::<std::collections::BTreeMap<String, String>>(text) {
        Ok(m) => Some(m.into_iter().collect()),
        Err(_) => None,
    }
}

/// The value of the first entry with key `k`.
pub open spec fn lookup(entries: Seq<(Seq<char>, Seq<char>)>, k: Seq<char>) -> Option<Seq<char>>
    decreases entries.len(),
{
    if entries.len() == 0 {
        None
    } else if entries[0].0 == k {
        Some(entries[0].1)
    } else {
        lookup(entries.skip(1), k)
    }
}

/// The cursor that a checkpoint file holds: its `position` entry, or the
/// empty cursor where the text is not such a file.
pub open spec fn cursor_in(entries: Option<Seq<(Seq<char>, Seq<char>)>>) -> Seq<char> {
    match entries {
        Some(e) => match lookup(e, "position"@) {
            Some(v) => v,
            None => Seq::empty(),
        },
        None => Seq::empty(),
    }
}

/// The value of the `position` entry, or the empty cursor where there is none.
pub fn cursor_from_entries(entries: &Vec<(String, String)>) -> (r: String)
    ensures
        r@ == cursor_in(Some(pairs_view(entries@))),
{
    let ghost e = pairs_view(entries@);
    let mut i: usize = 0;
    assert(e.skip(0) =~= e);
    while i < entries.len()
        invariant
            i <= entries@.len(),
            e == pairs_view(entries@),
            lookup(e, "position"@) == lookup(e.skip(i as int), "position"@),
        decreases entries.len() - i,
    {
        assert(e.skip(i as int)[0] == e[i as int]);
        if same_text(entries[i].0.as_str(), "position") {
            return entries[i].1.clone();
        }
        assert(e.skip(i as int).skip(1) =~= e.skip(i + 1));
        i = i + 1;
    }
    String::new()
}

/// Reads a checkpoint file's text; anything that is not a checkpoint, and
/// any text longer than `MAX_CHECKPOINT_CHARS`, gives the empty cursor, which
/// means that there is no checkpoint.
pub fn load_cursor(text: &str) -> (r: String)
    ensures
        text@.len() > MAX_CHECKPOINT_CHARS ==> r@ == Seq::<char>::empty(),
        text@.len() <= MAX_CHECKPOINT_CHARS ==> r@ == cursor_in(yaml_entries_of(text@)),
{
    if text.unicode_len() > MAX_CHECKPOINT_CHARS {
        return String::new();
    }
    match yaml_entries(text) {
        Some(v) => cursor_from_entries(&v),
        None => String::new(),
    }
}

/// The text of the checkpoint file for `cursor`: a map with the single entry
/// `position`, and a closing newline.
pub fn checkpoint_text(cursor: &str) -> (r: Option<String>)
    ensures
        match yaml_text_of(seq![("position"@, cursor@)]) {
            Some(t) => r matches Some(s) && s@ == t.push('\n'),
            None => r is None,
        },
{
    let mut entries: Vec<(String, String)> = Vec::new();
    entries.push((String::from_str("position"), String::from_str(cursor)));
    assert(pairs_view(entries@) =~= seq![("position"@, cursor@)]);
    match yaml_text(&entries) {
        Some(mut t) => {
            push_char(&mut t, '\n');
            Some(t)
        },
        None => None,
    }
}

/// The state of the checkpoint store, as values.
pub struct CheckpointState {
    pub latest: Seq<char>,
    pub written: Seq<char>,
    pub last_attempt_ms: int,
    pub interval_ms: int,
}

/// The store after the delivery of the record with cursor `c` is acknowledged.
pub open spec fn ack_state(s: CheckpointState, c: Seq<char>) -> CheckpointState {
    CheckpointState { latest: c, ..s }
}

/// The store after a run of acknowledgments, in order.
pub open spec fn after_acks(s: CheckpointState, cs: Seq<Seq<char>>) -> CheckpointState
    decreases cs.len(),
{
    if cs.len() == 0 {
        s
    } else {
        ack_state(after_acks(s, cs.drop_last()), cs.last())
    }
}

/// Whether a write is due at `now_ms`: the latest cursor differs from the one
/// written, and the interval has passed since the last attempt.
pub open spec fn write_due(s: CheckpointState, now_ms: int) -> bool {
    s.latest != s.written && now_ms >= s.last_attempt_ms + s.interval_ms
}

/// The store after a poll at `now_ms`, and the cursor to write if one is due.
pub open spec fn poll_state(s: CheckpointState, now_ms: int) -> (CheckpointState, Option<Seq<char>>) {
    if write_due(s, now_ms) {
        (CheckpointState { last_attempt_ms: now_ms, ..s }, Some(s.latest))
    } else {
        (s, None)
    }
}

/// The store once `c` is in the checkpoint file.
pub open spec fn confirm_state(s: CheckpointState, c: Seq<char>) -> CheckpointState {
    CheckpointState { written: c, ..s }
}

/// Debounces checkpoint writes: acknowledged cursors come in as fast as
/// records are delivered, and at most one write per interval goes out, only
/// of a changed value.
pub struct Checkpointer {
    pub latest: String,
    pub written: String,
    pub last_attempt_ms: u64,
    pub interval_ms: u64,
}

impl Checkpointer {
    pub open spec fn state(&self) -> CheckpointState {
        CheckpointState {
            latest: self.latest@,
            written: self.written@,
            last_attempt_ms: self.last_attempt_ms as int,
            interval_ms: self.interval_ms as int,
        }
    }

    /// A store that starts from the cursor loaded at `now_ms`.
    pub fn new(loaded: &str, now_ms: u64, interval_ms: u64) -> (r: Checkpointer)
        ensures
            r.state() == (CheckpointState {
                latest: loaded@,
                written: loaded@,
                last_attempt_ms: now_ms as int,
                interval_ms: interval_ms as int,
            }),
    {
        Checkpointer {
            latest: String::from_str(loaded),
            written: String::from_str(loaded),
            last_attempt_ms: now_ms,
            interval_ms,
        }
    }

    /// Takes note that the record with cursor `cursor` was delivered.
    pub fn acknowledge(&mut self, cursor: String)
        ensures
            final(self).state() == ack_state(old(self).state(), cursor@),
    {
        self.latest = cursor;
    }

    /// The cursor to write at `now_ms`, if a write is due; the attempt counts
    /// from now whether or not the write then succeeds.
    pub fn poll(&mut self, now_ms: u64) -> (r: Option<String>)
        ensures
            write_due(old(self).state(), now_ms as int) ==> (r matches Some(c) && c@
                == old(self).state().latest && final(self).state() == (CheckpointState {
                last_attempt_ms: now_ms as int,
                ..old(self).state()
            })),
            !write_due(old(self).state(), now_ms as int) ==> r is None && final(self).state()
                == old(self).state(),
            poll_state(old(self).state(), now_ms as int) == (final(self).state(), match r {
                Some(c) => Some(c@),
                None => None::<Seq<char>>,
            }),
    {
        let changed = !same_text(self.latest.as_str(), self.written.as_str());
        let elapsed = now_ms >= self.last_attempt_ms && now_ms - self.last_attempt_ms
            >= self.interval_ms;
        if changed && elapsed {
            self.last_attempt_ms = now_ms;
            Some(String::from_str(self.latest.as_str()))
        } else {
            None
        }
    }

    /// The cursor to write before shutting down, if it changed since the
    /// last write; no interval applies.
    pub fn flush(&self) -> (r: Option<String>)
        ensures
            self.state().latest != self.state().written ==> (r matches Some(c) && c@
                == self.state().latest),
            self.state().latest == self.state().written ==> r is None,
    {
        if same_text(self.latest.as_str(), self.written.as_str()) {
            None
        } else {
            Some(String::from_str(self.latest.as_str()))
        }
    }

    /// Takes note that `cursor` is now in the checkpoint file.
    pub fn confirm(&mut self, cursor: &str)
        ensures
            final(self).state() == confirm_state(old(self).state(), cursor@),
    {
        self.written = String::from_str(cursor);
    }
}

/// After deliveries acknowledged in order, the store holds the cursor of the
/// last of them, never an earlier one, and the write that falls due at
/// `now_ms` (whose cursor `poll` hands out) is a write of that cursor.
pub proof fn checkpoint_follows_last_delivery(s: CheckpointState, cs: Seq<Seq<char>>, now_ms: int)
    requires
        cs.len() > 0,
    ensures
        after_acks(s, cs).latest == cs.last(),
        after_acks(s, cs).written == s.written,
        after_acks(s, cs).last_attempt_ms == s.last_attempt_ms,
        after_acks(s, cs).interval_ms == s.interval_ms,
        write_due(after_acks(s, cs), now_ms) <==> (cs.last() != s.written && now_ms
            >= s.last_attempt_ms + s.interval_ms),
    decreases cs.len(),
{
    if cs.len() > 1 {
        checkpoint_follows_last_delivery(s, cs.drop_last(), now_ms);
    } else {
        assert(after_acks(s, cs.drop_last()) == s);
    }
    let t = after_acks(s, cs);
    assert(t == ack_state(after_acks(s, cs.drop_last()), cs.last()));
    assert(t.written == s.written && t.last_attempt_ms == s.last_attempt_ms
        && t.interval_ms == s.interval_ms);
}

/// What the checkpoint task does next: take the next acknowledgment, or
/// poll at a time, writing what is due (the write succeeding or not).
pub enum StoreEvent {
    Ack,
    Tick(int, bool),
}

/// The store after `ev`, where the acknowledgments are those of `cs` in
/// order: its state, how many of `cs` it took, and each write it made, as
/// the index in `cs` of the cursor it held then, with that cursor.
pub open spec fn run_store(s0: CheckpointState, cs: Seq<Seq<char>>, ev: Seq<StoreEvent>) -> (
    CheckpointState,
    int,
    Seq<(int, Seq<char>)>,
)
    decreases ev.len(),
{
    if ev.len() == 0 {
        (s0, 0, Seq::empty())
    } else {
        let prev = run_store(s0, cs, ev.drop_last());
        let s = prev.0;
        let k = prev.1;
        let w = prev.2;
        match ev.last() {
            StoreEvent::Ack => if k < cs.len() {
                (ack_state(s, cs[k]), k + 1, w)
            } else {
                (s, k, w)
            },
            StoreEvent::Tick(now_ms, ok) => {
                let polled = poll_state(s, now_ms);
                match polled.1 {
                    Some(c) => (
                        if ok {
                            confirm_state(polled.0, c)
                        } else {
                            polled.0
                        },
                        k,
                        w.push((k - 1, c)),
                    ),
                    None => (polled.0, k, w),
                }
            },
        }
    }
}

/// However acknowledgments of `cs` (in delivery order) and debounced writes
/// interleave, every write is of the cursor acknowledged last before it, and
/// the cursors written go forward through `cs`: once one has been written,
/// no earlier one is written again.
pub proof fn writes_follow_delivery_order(
    s0: CheckpointState,
    cs: Seq<Seq<char>>,
    ev: Seq<StoreEvent>,
)
    requires
        s0.latest == s0.written,
    ensures
        ({
            let (s, k, w) = run_store(s0, cs, ev);
            &&& 0 <= k <= cs.len()
            &&& k == 0 ==> s.latest == s0.latest && s.written == s.latest
            &&& k > 0 ==> s.latest == cs[k - 1]
            &&& forall|i: int| 0 <= i < w.len() ==> 0 <= #[trigger] w[i].0 < k && w[i].1 == cs[w[i].0]
            &&& forall|i: int, j: int| 0 <= i < j < w.len() ==> #[trigger] w[i].0 <= #[trigger] w[j].0
        }),
    decreases ev.len(),
{
    if ev.len() > 0 {
        writes_follow_delivery_order(s0, cs, ev.drop_last());
        let prev = run_store(s0, cs, ev.drop_last());
        let k = prev.1;
        let w = prev.2;
        match ev.last() {
            StoreEvent::Ack => {},
            StoreEvent::Tick(now_ms, ok) => {
                let polled = poll_state(prev.0, now_ms);
                if polled.1 is Some {
                    assert(k > 0);
                    let w2 = w.push((k - 1, prev.0.latest));
                    assert(run_store(s0, cs, ev).2 == w2);
                    assert forall|i: int, j: int| 0 <= i < j < w2.len() implies #[trigger] w2[i].0
                        <= #[trigger] w2[j].0 by {
                        if j == w.len() {
                            assert(w2[i] == w[i]);
                        } else {
                            assert(w2[i] == w[i] && w2[j] == w[j]);
                        }
                    }
                    assert forall|i: int| 0 <= i < w2.len() implies 0 <= #[trigger] w2[i].0 < k
                        && w2[i].1 == cs[w2[i].0] by {
                        if i < w.len() {
                            assert(w2[i] == w[i]);
                        }
                    }
                }
            },
        }
    }
}

} // verus!
