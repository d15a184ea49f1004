use vstd::prelude::*;
use std::time::Duration;
use crate::clock::{utc_now, UtcTimestamp};

verus! {

/// The duration of the given number of nanoseconds, as `Duration::from_nanos` builds it.
pub uninterp spec fn nanos_duration(nanos: u64) -> Duration;

/// Calls `std::time::Duration::from_nanos`, which builds the duration of
/// `nanos` nanoseconds; the result is named by `nanos_duration`.
#[verifier::external_body]
fn duration_from_nanos(nanos: u64) -> (d: Duration)
    ensures
        d == nanos_duration(nanos),
{
    Duration::from_nanos(nanos)
}

/// The nanoseconds from `start` to `end`; zero when `end` is not later than
/// `start`, and `u64::MAX` when the span does not fit.
pub open spec fn elapsed_between(start: UtcTimestamp, end: UtcTimestamp) -> u64 {
    let d: int = (end.seconds - start.seconds) * 1_000_000_000 + end.nanos - start.nanos;
    if d <= 0 {
        0
    } else if d > u64::MAX {
        u64::MAX
    } else {
        d as u64
    }
}

/// One labelled timer: when it was started, the time it measured so far
/// (zero until it is stopped) and when it was last stopped, if it was.
#[derive(Clone, Debug)]
pub struct Timing {
    pub label: String,
    pub started: UtcTimestamp,
    pub elapsed_nanos: u64,
    pub stopped: Option<UtcTimestamp>,
}

/// Whether no label occurs twice among `s`.
pub open spec fn labels_unique(s: Seq<Timing>) -> bool {
    forall|i: int, j: int| 0 <= i < j < s.len() ==> s[i].label@ != s[j].label@
}

/// The labels of the timers of `s`, in order.
pub open spec fn timer_labels(s: Seq<Timing>) -> Seq<Seq<char>> {
    s.map_values(|t: Timing| t.label@)
}

/// Whether some timer of `s` carries `label`.
pub open spec fn has_label(s: Seq<Timing>, label: Seq<char>) -> bool {
    exists|i: int| 0 <= i < s.len() && s[i].label@ == label
}

/// The timers of `s` keyed by label: each label maps to when its timer was
/// started and the nanoseconds it measured.
pub open spec fn timing_map(s: Seq<Timing>) -> Map<Seq<char>, (UtcTimestamp, u64, Option<UtcTimestamp>)> {
    Map::new(
        |l: Seq<char>| has_label(s, l),
        |l: Seq<char>|
            {
                let i = choose|i: int| 0 <= i < s.len() && s[i].label@ == l;
                (s[i].started, s[i].elapsed_nanos, s[i].stopped)
            },
    )
}

/// A label is carried by some timer exactly when it is among the timers' labels.
proof fn lemma_has_label_iff(s: Seq<Timing>, label: Seq<char>)
    ensures
        has_label(s, label) == timer_labels(s).contains(label),
{
    if has_label(s, label) {
        let i = choose|i: int| 0 <= i < s.len() && s[i].label@ == label;
        assert(timer_labels(s)[i] == label);
    }
    if timer_labels(s).contains(label) {
        let i = choose|i: int| 0 <= i < timer_labels(s).len() && timer_labels(s)[i] == label;
        assert(s[i].label@ == label);
    }
}

/// With unique labels, the timer at index `i` is what the map holds for its label.
proof fn lemma_timing_map_at(s: Seq<Timing>, i: int)
    requires
        labels_unique(s),
        0 <= i < s.len(),
    ensures
        timing_map(s).contains_key(s[i].label@),
        timing_map(s)[s[i].label@] == (s[i].started, s[i].elapsed_nanos, s[i].stopped),
{
    let l = s[i].label@;
    assert(has_label(s, l));
    let j = choose|j: int| 0 <= j < s.len() && s[j].label@ == l;
    assert(j == i) by {
        if j < i {
            assert(s[j].label@ != s[i].label@);
        } else if i < j {
            assert(s[i].label@ != s[j].label@);
        }
    }
}

/// Replacing the timer at index `i` by one with the same label changes the map
/// at that label only.
proof fn lemma_timing_map_update(s: Seq<Timing>, i: int, t: Timing)
    requires
        labels_unique(s),
        0 <= i < s.len(),
        t.label@ == s[i].label@,
    ensures
        labels_unique(s.update(i, t)),
        timing_map(s.update(i, t)) == timing_map(s).insert(t.label@, (t.started, t.elapsed_nanos, t.stopped)),
{
    let u = s.update(i, t);
    assert(labels_unique(u)) by {
        assert forall|a: int, b: int| 0 <= a < b < u.len() implies u[a].label@ != u[b].label@ by {
            assert(s[a].label@ != s[b].label@);
        }
    }
    let m = timing_map(s).insert(t.label@, (t.started, t.elapsed_nanos, t.stopped));
    assert forall|l: Seq<char>| #[trigger] m.contains_key(l) == timing_map(u).contains_key(l) by {
        if has_label(s, l) {
            let k = choose|k: int| 0 <= k < s.len() && s[k].label@ == l;
            assert(u[k].label@ == l);
        }
        if has_label(u, l) {
            let k = choose|k: int| 0 <= k < u.len() && u[k].label@ == l;
            assert(s[k].label@ == l);
        }
    }
    assert forall|l: Seq<char>| #[trigger] m.contains_key(l) implies m[l] == timing_map(u)[l] by {
        let k = choose|k: int| 0 <= k < u.len() && u[k].label@ == l;
        lemma_timing_map_at(u, k);
        if k != i {
            lemma_timing_map_at(s, k);
        }
    }
    assert(timing_map(u) =~= m);
}

/// Appending a timer whose label is new adds that label to the map.
proof fn lemma_timing_map_push(s: Seq<Timing>, t: Timing)
    requires
        labels_unique(s),
        !has_label(s, t.label@),
    ensures
        labels_unique(s.push(t)),
        timing_map(s.push(t)) == timing_map(s).insert(t.label@, (t.started, t.elapsed_nanos, t.stopped)),
{
    let u = s.push(t);
    assert(labels_unique(u)) by {
        assert forall|a: int, b: int| 0 <= a < b < u.len() implies u[a].label@ != u[b].label@ by {
            if b == s.len() {
                assert(s[a].label@ != t.label@);
            } else {
                assert(s[a].label@ != s[b].label@);
            }
        }
    }
    let m = timing_map(s).insert(t.label@, (t.started, t.elapsed_nanos, t.stopped));
    assert forall|l: Seq<char>| #[trigger] m.contains_key(l) == timing_map(u).contains_key(l) by {
        if has_label(s, l) {
            let k = choose|k: int| 0 <= k < s.len() && s[k].label@ == l;
            assert(u[k].label@ == l);
        }
        if l == t.label@ {
            assert(u[s.len() as int].label@ == l);
        }
        if has_label(u, l) {
            let k = choose|k: int| 0 <= k < u.len() && u[k].label@ == l;
            if k < s.len() {
                assert(s[k].label@ == l);
            }
        }
    }
    assert forall|l: Seq<char>| #[trigger] m.contains_key(l) implies m[l] == timing_map(u)[l] by {
        let k = choose|k: int| 0 <= k < u.len() && u[k].label@ == l;
        lemma_timing_map_at(u, k);
        if k < s.len() {
            lemma_timing_map_at(s, k);
        }
    }
    assert(timing_map(u) =~= m);
}

/// Measures how long labelled stretches of work take.
pub struct Profiler {
    timings: Vec<Timing>,
}

impl Profiler {
    #[verifier::type_invariant]
    spec fn well_formed(self) -> bool {
        labels_unique(self.timings@)
    }

    /// The timers in the order their labels were first started.
    pub closed spec fn entries(&self) -> Seq<Timing> {
        self.timings@
    }

    /// Each label's timer: when it was started and the nanoseconds it measured.
    pub open spec fn timings(&self) -> Map<Seq<char>, (UtcTimestamp, u64, Option<UtcTimestamp>)> {
        timing_map(self.entries())
    }

    pub fn new() -> (p: Self)
        ensures
            p.entries().len() == 0,
            p.timings() == Map::<Seq<char>, (UtcTimestamp, u64, Option<UtcTimestamp>)>::empty(),
    {
        let p = Profiler { timings: Vec::new() };
        assert(p.timings() =~= Map::<Seq<char>, (UtcTimestamp, u64, Option<UtcTimestamp>)>::empty());
        p
    }

    /// Where the timer labelled `label` stands, if there is one.
    fn position(&self, label: &String) -> (r: Option<usize>)
        ensures
            match r {
                Some(i) => i < self.entries().len() && self.entries()[i as int].label@ == label@,
                None => !has_label(self.entries(), label@),
            },
    {
        let mut i: usize = 0;
        while i < self.timings.len()
            invariant
                i <= self.timings@.len(),
                forall|j: int| 0 <= j < i ==> self.timings@[j].label@ != label@,
            decreases self.timings@.len() - i,
        {
            if self.timings[i].label == *label {
                return Some(i);
            }
            i = i + 1;
        }
        None
    }

    /// Starts (or restarts) the timer labelled `label` at the instant `now`;
    /// it measures nothing until it is stopped.
    pub fn start_timer_at(&mut self, label: &str, now: UtcTimestamp)
        ensures
            final(self).timings() == old(self).timings().insert(label@, (now, 0u64, None)),
            timer_labels(final(self).entries()) == (if has_label(old(self).entries(), label@) {
                timer_labels(old(self).entries())
            } else {
                timer_labels(old(self).entries()).push(label@)
            }),
    {
        proof {
            use_type_invariant(&*self);
        }
        let key = String::from_str(label);
        let t = Timing { label: key.clone(), started: now, elapsed_nanos: 0, stopped: None };
        let ghost s = self.timings@;
        match self.position(&key) {
            Some(i) => {
                proof {
                    lemma_timing_map_update(s, i as int, t);
                    assert(timer_labels(s.update(i as int, t)) =~= timer_labels(s));
                    assert(has_label(s, label@));
                }
                let mut timings = Vec::new();
                std::mem::swap(&mut timings, &mut self.timings);
                timings.set(i, t);
                self.timings = timings;
            },
            None => {
                proof {
                    lemma_timing_map_push(s, t);
                    assert(timer_labels(s.push(t)) =~= timer_labels(s).push(label@));
                }
                let mut timings = Vec::new();
                std::mem::swap(&mut timings, &mut self.timings);
                timings.push(t);
                self.timings = timings;
            },
        }
    }

    /// Stops the timer labelled `label` at the instant `now`: it then holds the
    /// nanoseconds from its start to `now`, and `now` as its stop. Without such
    /// a timer nothing changes.
    pub fn stop_timer_at(&mut self, label: &str, now: UtcTimestamp)
        ensures
            timer_labels(final(self).entries()) == timer_labels(old(self).entries()),
            old(self).timings().contains_key(label@) ==> final(self).timings() == old(
                self,
            ).timings().insert(
                label@,
                (
                    old(self).timings()[label@].0,
                    elapsed_between(old(self).timings()[label@].0, now),
                    Some(now),
                ),
            ),
            !old(self).timings().contains_key(label@) ==> final(self).entries() == old(
                self,
            ).entries(),
    {
        proof {
            use_type_invariant(&*self);
        }
        let key = String::from_str(label);
        let ghost s = self.timings@;
        match self.position(&key) {
            Some(i) => {
                let started = self.timings[i].started;
                let elapsed = nanos_between(started, now);
                let t = Timing { label: key, started, elapsed_nanos: elapsed, stopped: Some(now) };
                proof {
                    lemma_timing_map_at(s, i as int);
                    lemma_timing_map_update(s, i as int, t);
                    assert(timer_labels(s.update(i as int, t)) =~= timer_labels(s));
                }
                let mut timings = Vec::new();
                std::mem::swap(&mut timings, &mut self.timings);
                timings.set(i, t);
                self.timings = timings;
            },
            None => {},
        }
    }

    /// Starts the timer labelled `label` now, by the system clock.
    pub fn start_timer(&mut self, label: &str)
        ensures
            final(self).timings().dom() == old(self).timings().dom().insert(label@),
            final(self).timings()[label@].1 == 0,
            final(self).timings()[label@].2 is None,
            final(self).timings()[label@].0.seconds >= 0,
            final(self).timings()[label@].0.nanos < 1_000_000_000,
            timer_labels(final(self).entries()) == (if has_label(old(self).entries(), label@) {
                timer_labels(old(self).entries())
            } else {
                timer_labels(old(self).entries()).push(label@)
            }),
            forall|l: Seq<char>|
                #![trigger old(self).timings().contains_key(l)]
                l != label@ && old(self).timings().contains_key(l)
                    ==> final(self).timings()[l] == old(self).timings()[l],
    {
        let now = utc_now();
        self.start_timer_at(label, now);
    }

    /// Stops the timer labelled `label` now, by the system clock: it then holds
    /// the nanoseconds from its start to the instant read, and that instant
    /// as its stop. Without such a timer nothing changes.
    pub fn stop_timer(&mut self, label: &str)
        ensures
            final(self).timings().dom() == old(self).timings().dom(),
            timer_labels(final(self).entries()) == timer_labels(old(self).entries()),
            forall|l: Seq<char>|
                #![trigger old(self).timings().contains_key(l)]
                l != label@ && old(self).timings().contains_key(l)
                    ==> final(self).timings()[l] == old(self).timings()[l],
            old(self).timings().contains_key(label@) ==> final(self).timings()[label@].0 == old(
                self,
            ).timings()[label@].0,
            old(self).timings().contains_key(label@) ==> final(self).timings()[label@].2 is Some
                && final(self).timings()[label@].1 == elapsed_between(
                final(self).timings()[label@].0,
                final(self).timings()[label@].2->0,
            ),
            old(self).timings().contains_key(label@) ==> final(self).timings()[label@].2->0.seconds >= 0
                && final(self).timings()[label@].2->0.nanos < 1_000_000_000,
    {
        let now = utc_now();
        self.stop_timer_at(label, now);
        proof {
            assert(self.timings().dom() =~= old(self).timings().dom());
        }
    }

    /// The time measured by the timer labelled `label`, if there is one.
    pub fn get_timing(&self, label: &str) -> (d: Option<Duration>)
        ensures
            d == (if self.timings().contains_key(label@) {
                Some(nanos_duration(self.timings()[label@].1))
            } else {
                None
            }),
    {
        proof {
            use_type_invariant(self);
        }
        let key = String::from_str(label);
        match self.position(&key) {
            Some(i) => {
                proof {
                    lemma_timing_map_at(self.timings@, i as int);
                }
                Some(duration_from_nanos(self.timings[i].elapsed_nanos))
            },
            None => None,
        }
    }

    /// The timers, in the order their labels were first started.
    pub fn entries_vec(&self) -> (v: &Vec<Timing>)
        ensures
            v@ == self.entries(),
    {
        &self.timings
    }
}

/// The nanoseconds from `start` to `end`, as `elapsed_between` states them.
fn nanos_between(start: UtcTimestamp, end: UtcTimestamp) -> (n: u64)
    ensures
        n == elapsed_between(start, end),
{
    let d: i128 = (end.seconds as i128 - start.seconds as i128) * 1_000_000_000i128 + end.nanos as i128
        - start.nanos as i128;
    if d <= 0 {
        0
    } else if d > u64::MAX as i128 {
        u64::MAX
    } else {
        d as u64
    }
}

/// The labels that `profile_hdcmodels` times, in order.
pub open spec fn profiled_stages() -> Seq<Seq<char>> {
    seq!["encode_data"@, "calculate_similarity"@, "train_model"@, "predict"@]
}

/// Whether a timer's entry is that of a stopped timer read from the clock:
/// started and stopped at instants not before the epoch (with fewer than a
/// second of nanoseconds), holding the nanoseconds between the two.
pub open spec fn measured(t: (UtcTimestamp, u64, Option<UtcTimestamp>)) -> bool {
    &&& t.0.seconds >= 0
    &&& t.0.nanos < 1_000_000_000
    &&& t.2 is Some
    &&& t.2->0.seconds >= 0
    &&& t.2->0.nanos < 1_000_000_000
    &&& t.1 == elapsed_between(t.0, t.2->0)
}

/// Times the stages of the HDC models (encoding, similarity, training,
/// prediction) and returns the profiler that holds their timings: each stage
/// is started and stopped by the clock and holds the time between.
pub fn profile_hdcmodels() -> (p: Profiler)
    ensures
        timer_labels(p.entries()) == profiled_stages(),
        p.timings().dom() == profiled_stages().to_set(),
        forall|i: int| 0 <= i < 4 ==> #[trigger] measured(p.timings()[profiled_stages()[i]]),
{
    proof {
        reveal_strlit("encode_data");
        reveal_strlit("calculate_similarity");
        reveal_strlit("train_model");
        reveal_strlit("predict");
    }
    let ghost stages = profiled_stages();
    let mut profiler = Profiler::new();
    proof {
        assert(timer_labels(profiler.entries()) =~= stages.take(0));
        lemma_has_label_iff(profiler.entries(), stages[0]);
    }
    profiler.start_timer("encode_data");
    profiler.stop_timer("encode_data");
    assert(measured(profiler.timings()[stages[0]]));
    proof {
        assert(timer_labels(profiler.entries()) =~= stages.take(1));
        lemma_has_label_iff(profiler.entries(), stages[1]);
        assert(stages[1].len() != stages[0].len());
        assert(!stages.take(1).contains(stages[1]));
    }
    let ghost before = profiler.timings();
    assert(profiler.timings().contains_key(stages[0]));
    profiler.start_timer("calculate_similarity");
    assert(profiler.timings().contains_key(stages[0]));
    assert(profiler.timings()[stages[0]] == before[stages[0]]);
    profiler.stop_timer("calculate_similarity");
    assert(profiler.timings()[stages[0]] == before[stages[0]]);
    assert(measured(profiler.timings()[stages[1]]));
    proof {
        assert(timer_labels(profiler.entries()) =~= stages.take(2));
        lemma_has_label_iff(profiler.entries(), stages[2]);
        assert(stages[2][0] != stages[0][0]);
        assert(stages[2].len() != stages[1].len());
        assert(!stages.take(2).contains(stages[2]));
    }
    let ghost before = profiler.timings();
    assert(profiler.timings().contains_key(stages[0]) && profiler.timings().contains_key(stages[1]));
    profiler.start_timer("train_model");
    assert(profiler.timings().contains_key(stages[0]) && profiler.timings().contains_key(stages[1]));
    assert(profiler.timings()[stages[0]] == before[stages[0]] && profiler.timings()[stages[1]] == before[stages[1]]);
    profiler.stop_timer("train_model");
    assert(profiler.timings()[stages[0]] == before[stages[0]] && profiler.timings()[stages[1]] == before[stages[1]]);
    assert(measured(profiler.timings()[stages[2]]));
    proof {
        assert(timer_labels(profiler.entries()) =~= stages.take(3));
        lemma_has_label_iff(profiler.entries(), stages[3]);
        assert(stages[3].len() != stages[0].len());
        assert(stages[3].len() != stages[1].len());
        assert(stages[3].len() != stages[2].len());
        assert(!stages.take(3).contains(stages[3]));
    }
    let ghost before = profiler.timings();
    assert(profiler.timings().contains_key(stages[0]) && profiler.timings().contains_key(stages[1]) && profiler.timings().contains_key(stages[2]));
    profiler.start_timer("predict");
    assert(profiler.timings().contains_key(stages[0]) && profiler.timings().contains_key(stages[1]) && profiler.timings().contains_key(stages[2]));
    assert(profiler.timings()[stages[0]] == before[stages[0]] && profiler.timings()[stages[1]] == before[stages[1]] && profiler.timings()[stages[2]] == before[stages[2]]);
    profiler.stop_timer("predict");
    assert(profiler.timings()[stages[0]] == before[stages[0]] && profiler.timings()[stages[1]] == before[stages[1]] && profiler.timings()[stages[2]] == before[stages[2]]);
    assert(measured(profiler.timings()[stages[3]]));
    proof {
        assert(timer_labels(profiler.entries()) =~= stages);
        assert(profiler.timings().dom() =~= stages.to_set());
        assert forall|i: int| 0 <= i < 4 implies #[trigger] measured(profiler.timings()[profiled_stages()[i]]) by {
            assert(stages[i] == profiled_stages()[i]);
        }
    }
    profiler
}

/// A timer started at `started` and stopped at `stopped` holds the
/// nanoseconds between the two instants and its stop; other timers keep
/// their value.
pub proof fn lemma_stopped_timer_holds_span(
    timings: Map<Seq<char>, (UtcTimestamp, u64, Option<UtcTimestamp>)>,
    label: Seq<char>,
    started: UtcTimestamp,
    stopped: UtcTimestamp,
)
    ensures
        ({
            let running = timings.insert(label, (started, 0u64, None));
            &&& running.contains_key(label)
            &&& running.insert(
                label,
                (running[label].0, elapsed_between(running[label].0, stopped), Some(stopped)),
            ) == timings.insert(label, (started, elapsed_between(started, stopped), Some(stopped)))
        }),
{
    let running = timings.insert(label, (started, 0u64, None));
    assert(running.insert(
        label,
        (running[label].0, elapsed_between(running[label].0, stopped), Some(stopped)),
    ) =~= timings.insert(label, (started, elapsed_between(started, stopped), Some(stopped))));
}

/// Spans add up: the time from `a` to `c` is the time from `a` to `b` plus
/// the time from `b` to `c`, for instants in that order (each with fewer than
/// a second of nanoseconds) whose span fits.
pub proof fn lemma_spans_add_up(a: UtcTimestamp, b: UtcTimestamp, c: UtcTimestamp)
    requires
        a.nanos < 1_000_000_000,
        b.nanos < 1_000_000_000,
        c.nanos < 1_000_000_000,
        !b.precedes(a),
        !c.precedes(b),
        (c.seconds - a.seconds) * 1_000_000_000 + c.nanos - a.nanos <= u64::MAX,
    ensures
        elapsed_between(a, c) == elapsed_between(a, b) + elapsed_between(b, c),
{
}

/// A timer measures the real time between its start and its stop: for a
/// stop not before the start, the nanoseconds it holds are the whole seconds
/// between the two instants times a billion, plus the difference of their
/// sub-second nanoseconds (when that fits 64 bits).
pub proof fn lemma_measured_span(start: UtcTimestamp, stop: UtcTimestamp)
    requires
        start.nanos < 1_000_000_000,
        stop.nanos < 1_000_000_000,
        !stop.precedes(start),
        (stop.seconds - start.seconds) * 1_000_000_000 + stop.nanos - start.nanos <= u64::MAX,
    ensures
        elapsed_between(start, stop) as int == (stop.seconds - start.seconds) * 1_000_000_000 + stop.nanos
            - start.nanos,
{
}

} // verus!
