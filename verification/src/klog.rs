//! Leveled logger: six append-only queues of timestamped messages,
//! one per severity, and a read view that drains the queues at or
//! above a chosen threshold in nondecreasing timestamp order — a
//! two-queue merge folded over the selected queues.

use vstd::prelude::*;
use vstd::multiset::Multiset;
use crate::array::GrowArray;
use crate::console::{Color, Message, MessageBuilder};
use crate::text::Text;
use crate::time::{time_label, time_le, SystemTime};

verus! {

/// The abstraction of one stored record: its timestamp and the
/// sections of its message.
pub type RecordView = (SystemTime, Seq<(Seq<char>, Color, Color)>);

/// One timestamped message in a severity queue.
pub struct LogRecord {
    pub time: SystemTime,
    pub msg: Message,
}

impl View for LogRecord {
    type V = RecordView;

    open spec fn view(&self) -> RecordView {
        (self.time, self.msg@)
    }
}

impl LogRecord {
    /// A fresh record with the same timestamp and message.
    pub fn duplicate(&self) -> (r: Self)
        requires
            self.msg@.len() < usize::MAX as int / 2,
        ensures
            r@ == self@,
    {
        LogRecord { time: self.time, msg: self.msg.duplicate() }
    }
}

/// The abstractions of a run of records, in queue order.
pub open spec fn records_view(rs: Seq<LogRecord>) -> Seq<RecordView> {
    rs.map(|i: int, r: LogRecord| r@)
}

/// The records are in nondecreasing timestamp order.
pub open spec fn time_sorted(rs: Seq<RecordView>) -> bool {
    forall|i: int, j: int| 0 <= i <= j < rs.len() ==> time_le(rs[i].0, rs[j].0)
}

/// The chronological merge of two runs of records: at each step the
/// earlier head goes first, the first run's head on a timestamp tie,
/// and neither run's own order is disturbed.
pub open spec fn merge_by_time(a: Seq<RecordView>, b: Seq<RecordView>) -> Seq<RecordView>
    decreases a.len() + b.len(),
{
    if a.len() == 0 {
        b
    } else if b.len() == 0 {
        a
    } else if time_le(a[0].0, b[0].0) {
        seq![a[0]] + merge_by_time(a.drop_first(), b)
    } else {
        seq![b[0]] + merge_by_time(a, b.drop_first())
    }
}

/// A merge neither loses nor invents records: its length is the two
/// lengths added, and its records are exactly the two runs' records.
pub proof fn lemma_merge_len_multiset(a: Seq<RecordView>, b: Seq<RecordView>)
    ensures
        merge_by_time(a, b).len() == a.len() + b.len(),
        merge_by_time(a, b).to_multiset() == a.to_multiset().add(b.to_multiset()),
    decreases a.len() + b.len(),
{
    broadcast use vstd::seq_lib::group_to_multiset_ensures;

    if a.len() == 0 {
        assert(a.to_multiset() =~= Multiset::<RecordView>::empty());
        assert(merge_by_time(a, b).to_multiset() =~= a.to_multiset().add(b.to_multiset()));
    } else if b.len() == 0 {
        assert(b.to_multiset() =~= Multiset::<RecordView>::empty());
        assert(merge_by_time(a, b).to_multiset() =~= a.to_multiset().add(b.to_multiset()));
    } else if time_le(a[0].0, b[0].0) {
        lemma_merge_len_multiset(a.drop_first(), b);
        lemma_cons_multiset(a[0], merge_by_time(a.drop_first(), b));
        lemma_cons_multiset(a[0], a.drop_first());
        assert(seq![a[0]] + a.drop_first() =~= a);
        assert(merge_by_time(a, b).to_multiset() =~= a.to_multiset().add(b.to_multiset()));
    } else {
        lemma_merge_len_multiset(a, b.drop_first());
        lemma_cons_multiset(b[0], merge_by_time(a, b.drop_first()));
        lemma_cons_multiset(b[0], b.drop_first());
        assert(seq![b[0]] + b.drop_first() =~= b);
        assert(merge_by_time(a, b).to_multiset() =~= a.to_multiset().add(b.to_multiset()));
    }
}

proof fn lemma_cons_multiset(x: RecordView, s: Seq<RecordView>)
    ensures
        (seq![x] + s).to_multiset() == s.to_multiset().insert(x),
{
    broadcast use vstd::seq_lib::group_to_multiset_ensures;

    let t = seq![x] + s;
    assert(t[0] == x);
    assert(t.remove(0) =~= s);
    assert(t.remove(0).to_multiset() =~= t.to_multiset().remove(t[0]));
    assert(t.contains(x));
    assert(t.to_multiset().count(x) > 0);
    assert(t.to_multiset() =~= s.to_multiset().insert(x));
}

/// Merging two time-ordered runs yields a time-ordered run, and its
/// first record is one of the two heads.
pub proof fn lemma_merge_sorted(a: Seq<RecordView>, b: Seq<RecordView>)
    requires
        time_sorted(a),
        time_sorted(b),
    ensures
        time_sorted(merge_by_time(a, b)),
        merge_by_time(a, b).len() > 0 ==> (a.len() > 0 && merge_by_time(a, b)[0] == a[0]) || (
        b.len() > 0 && merge_by_time(a, b)[0] == b[0]),
    decreases a.len() + b.len(),
{
    let m = merge_by_time(a, b);
    if a.len() == 0 || b.len() == 0 {
    } else if time_le(a[0].0, b[0].0) {
        let a2 = a.drop_first();
        assert(time_sorted(a2)) by {
            assert forall|i: int, j: int| 0 <= i <= j < a2.len() implies time_le(
                a2[i].0,
                a2[j].0,
            ) by {
                assert(a2[i] == a[i + 1] && a2[j] == a[j + 1]);
            }
        }
        lemma_merge_sorted(a2, b);
        let m2 = merge_by_time(a2, b);
        assert(time_sorted(m)) by {
            assert forall|i: int, j: int| 0 <= i <= j < m.len() implies time_le(
                m[i].0,
                m[j].0,
            ) by {
                if i == 0 && j > 0 {
                    assert(m[0] == a[0]);
                    assert(m[j] == m2[j - 1]);
                    assert((a2.len() > 0 && m2[0] == a2[0]) || m2[0] == b[0]);
                    if a2.len() > 0 {
                        assert(a2[0] == a[1] && time_le(a[0].0, a[1].0));
                    }
                    assert(time_le(a[0].0, m2[0].0));
                    assert(time_le(m2[0].0, m2[j - 1].0));
                } else if i > 0 {
                    assert(m[i] == m2[i - 1] && m[j] == m2[j - 1]);
                }
            }
        }
    } else {
        let b2 = b.drop_first();
        assert(time_sorted(b2)) by {
            assert forall|i: int, j: int| 0 <= i <= j < b2.len() implies time_le(
                b2[i].0,
                b2[j].0,
            ) by {
                assert(b2[i] == b[i + 1] && b2[j] == b[j + 1]);
            }
        }
        lemma_merge_sorted(a, b2);
        let m2 = merge_by_time(a, b2);
        assert(time_sorted(m)) by {
            assert forall|i: int, j: int| 0 <= i <= j < m.len() implies time_le(
                m[i].0,
                m[j].0,
            ) by {
                if i == 0 && j > 0 {
                    assert(m[0] == b[0]);
                    assert(m[j] == m2[j - 1]);
                    assert(m2[0] == a[0] || (b2.len() > 0 && m2[0] == b2[0]));
                    if b2.len() > 0 {
                        assert(b2[0] == b[1] && time_le(b[0].0, b[1].0));
                    }
                    assert(time_le(b[0].0, m2[0].0));
                    assert(time_le(m2[0].0, m2[j - 1].0));
                } else if i > 0 {
                    assert(m[i] == m2[i - 1] && m[j] == m2[j - 1]);
                }
            }
        }
    }
}

/// `s` can be read off `t` in order: `t` holds all of `s`'s entries,
/// first to last, possibly with others in between.
pub open spec fn subsequence_of(s: Seq<RecordView>, t: Seq<RecordView>) -> bool
    decreases s.len() + t.len(),
{
    if s.len() == 0 {
        true
    } else if t.len() == 0 {
        false
    } else if s[0] == t[0] {
        subsequence_of(s.drop_first(), t.drop_first())
    } else {
        subsequence_of(s, t.drop_first())
    }
}

/// Two weakenings of `subsequence_of`: an extra entry in front of the
/// longer run changes nothing, and a subsequence stays one when its
/// own first entry is dropped.
proof fn lemma_subsequence_weaken(s: Seq<RecordView>, t: Seq<RecordView>, x: RecordView)
    ensures
        subsequence_of(s, t) && s.len() > 0 ==> subsequence_of(s.drop_first(), t),
        subsequence_of(s, t) ==> subsequence_of(s, seq![x] + t),
    decreases s.len() + t.len(),
{
    if subsequence_of(s, t) && s.len() > 0 {
        if s[0] == t[0] {
            lemma_subsequence_weaken(s.drop_first(), t.drop_first(), t[0]);
            assert(seq![t[0]] + t.drop_first() =~= t);
        } else {
            lemma_subsequence_weaken(s, t.drop_first(), t[0]);
            lemma_subsequence_weaken(s.drop_first(), t.drop_first(), t[0]);
            assert(seq![t[0]] + t.drop_first() =~= t);
        }
    }
    if subsequence_of(s, t) && s.len() > 0 {
        let u = seq![x] + t;
        assert(u[0] == x);
        assert(u.drop_first() =~= t);
        if s[0] == x {
            assert(subsequence_of(s.drop_first(), t));
        }
    }
}

/// A run can be read off itself.
proof fn lemma_subsequence_refl(t: Seq<RecordView>)
    ensures
        subsequence_of(t, t),
    decreases t.len(),
{
    if t.len() > 0 {
        lemma_subsequence_refl(t.drop_first());
    }
}

/// A merge never reorders the records of either run: each run can be
/// read off the merged run in its own order.
pub proof fn lemma_merge_keeps_queue_order(a: Seq<RecordView>, b: Seq<RecordView>)
    ensures
        subsequence_of(a, merge_by_time(a, b)),
        subsequence_of(b, merge_by_time(a, b)),
    decreases a.len() + b.len(),
{
    let m = merge_by_time(a, b);
    if a.len() == 0 {
        lemma_subsequence_refl(b);
    } else if b.len() == 0 {
        lemma_subsequence_refl(a);
    } else if time_le(a[0].0, b[0].0) {
        let m2 = merge_by_time(a.drop_first(), b);
        lemma_merge_keeps_queue_order(a.drop_first(), b);
        assert(m[0] == a[0]);
        assert(m.drop_first() =~= m2);
        assert(subsequence_of(a, m));
        if b[0] == a[0] {
            lemma_subsequence_weaken(b, m2, a[0]);
            assert(subsequence_of(b.drop_first(), m2));
        }
        assert(subsequence_of(b, m));
    } else {
        let m2 = merge_by_time(a, b.drop_first());
        lemma_merge_keeps_queue_order(a, b.drop_first());
        assert(m[0] == b[0]);
        assert(m.drop_first() =~= m2);
        assert(subsequence_of(b, m));
        if a[0] == b[0] {
            lemma_subsequence_weaken(a, m2, b[0]);
            assert(subsequence_of(a.drop_first(), m2));
        }
        assert(subsequence_of(a, m));
    }
}

/// Every message in the run is small enough to be duplicated and
/// prefixed without its section count overflowing.
pub open spec fn queue_ok(rs: Seq<LogRecord>) -> bool {
    forall|i: int| 0 <= i < rs.len() ==> #[trigger] rs[i].msg@.len() < usize::MAX as int / 2 - 1
}

/// A fresh run with the same records.
fn dup_records(a: &GrowArray<LogRecord>) -> (m: GrowArray<LogRecord>)
    requires
        a@.len() < usize::MAX as int / 2,
        queue_ok(a@),
    ensures
        records_view(m@) == records_view(a@),
        queue_ok(m@),
{
    let n = a.len();
    let mut m: GrowArray<LogRecord> = GrowArray::new();
    let mut i: usize = 0;
    while i < n
        invariant
            i <= n,
            n == a@.len(),
            n < usize::MAX as int / 2,
            queue_ok(a@),
            m@.len() == i,
            queue_ok(m@),
            forall|k: int| 0 <= k < i ==> #[trigger] m@[k]@ == a@[k]@,
        decreases n - i,
    {
        m.push(a.get(i).duplicate());
        i = i + 1;
    }
    proof {
        assert(records_view(m@) =~= records_view(a@));
    }
    m
}

/// Merges two runs of records chronologically, copying the records;
/// ties go to the first run, and neither run's order is disturbed.
fn merge_records(a: &GrowArray<LogRecord>, b: &GrowArray<LogRecord>) -> (m: GrowArray<LogRecord>)
    requires
        a@.len() + b@.len() < usize::MAX as int / 2,
        queue_ok(a@),
        queue_ok(b@),
    ensures
        records_view(m@) == merge_by_time(records_view(a@), records_view(b@)),
        queue_ok(m@),
{
    let ghost av = records_view(a@);
    let ghost bv = records_view(b@);
    let alen = a.len();
    let blen = b.len();
    let mut m: GrowArray<LogRecord> = GrowArray::new();
    proof {
        assert(records_view(m@) =~= Seq::<RecordView>::empty());
        assert(av.skip(0) =~= av);
        assert(bv.skip(0) =~= bv);
    }
    let mut i: usize = 0;
    let mut j: usize = 0;
    while i < alen || j < blen
        invariant
            i <= alen,
            j <= blen,
            alen == a@.len(),
            blen == b@.len(),
            alen + blen < usize::MAX as int / 2,
            queue_ok(a@),
            queue_ok(b@),
            av == records_view(a@),
            bv == records_view(b@),
            m@.len() == i + j,
            queue_ok(m@),
            merge_by_time(av, bv) == records_view(m@) + merge_by_time(
                av.skip(i as int),
                bv.skip(j as int),
            ),
        decreases alen - i + blen - j,
    {
        let ghost mv0 = records_view(m@);
        let take_first = if j >= blen {
            true
        } else if i >= alen {
            false
        } else {
            a.get(i).time.le(&b.get(j).time)
        };
        if take_first {
            let rec = a.get(i).duplicate();
            proof {
                assert(av.skip(i as int)[0] == av[i as int]);
                assert(av.skip(i as int).drop_first() =~= av.skip(i + 1));
                if j < blen {
                    assert(bv.skip(j as int)[0] == bv[j as int]);
                } else {
                    assert(bv.skip(j as int) =~= Seq::<RecordView>::empty());
                }
                assert(merge_by_time(av.skip(i as int), bv.skip(j as int)) == seq![
                    av[i as int],
                ] + merge_by_time(av.skip(i + 1), bv.skip(j as int)));
            }
            m.push(rec);
            proof {
                assert(records_view(m@) =~= mv0.push(av[i as int]));
                assert(records_view(m@) + merge_by_time(av.skip(i + 1), bv.skip(j as int)) =~= mv0
                    + merge_by_time(av.skip(i as int), bv.skip(j as int)));
            }
            i = i + 1;
        } else {
            let rec = b.get(j).duplicate();
            proof {
                assert(bv.skip(j as int)[0] == bv[j as int]);
                assert(bv.skip(j as int).drop_first() =~= bv.skip(j + 1));
                if i < alen {
                    assert(av.skip(i as int)[0] == av[i as int]);
                    assert(merge_by_time(av.skip(i as int), bv.skip(j as int)) == seq![
                        bv[j as int],
                    ] + merge_by_time(av.skip(i as int), bv.skip(j + 1)));
                } else {
                    assert(av.skip(i as int) =~= Seq::<RecordView>::empty());
                    assert(merge_by_time(av.skip(i as int), bv.skip(j as int)) == bv.skip(
                        j as int,
                    ));
                    assert(bv.skip(j as int) =~= seq![bv[j as int]] + bv.skip(j + 1));
                    assert(merge_by_time(av.skip(i as int), bv.skip(j + 1)) == bv.skip(j + 1));
                }
            }
            m.push(rec);
            proof {
                assert(records_view(m@) =~= mv0.push(bv[j as int]));
                assert(records_view(m@) + merge_by_time(av.skip(i as int), bv.skip(j + 1)) =~= mv0
                    + merge_by_time(av.skip(i as int), bv.skip(j as int)));
            }
            j = j + 1;
        }
    }
    proof {
        assert(av.skip(alen as int) =~= Seq::<RecordView>::empty());
        assert(bv.skip(blen as int) =~= Seq::<RecordView>::empty());
        assert(records_view(m@) + merge_by_time(av.skip(alen as int), bv.skip(blen as int))
            =~= records_view(m@));
    }
    m
}

/// The six severities, most severe first.
#[derive(Clone, Copy, PartialEq, Eq, Structural)]
pub enum LoggerLevel {
    Fatal,
    Error,
    Warning,
    Info,
    Debug,
    Trace,
}

/// A severity's place in the inclusion order: fatal first, trace
/// last; a threshold selects all severities up to its own place.
pub open spec fn level_index(l: LoggerLevel) -> int {
    match l {
        LoggerLevel::Fatal => 0,
        LoggerLevel::Error => 1,
        LoggerLevel::Warning => 2,
        LoggerLevel::Info => 3,
        LoggerLevel::Debug => 4,
        LoggerLevel::Trace => 5,
    }
}

impl LoggerLevel {
    pub fn index(&self) -> (i: usize)
        ensures
            i == level_index(*self),
    {
        match *self {
            LoggerLevel::Fatal => 0,
            LoggerLevel::Error => 1,
            LoggerLevel::Warning => 2,
            LoggerLevel::Info => 3,
            LoggerLevel::Debug => 4,
            LoggerLevel::Trace => 5,
        }
    }
}

/// A message with a level label stitched in front: one extra section
/// holding the label in the level's color on the default background.
pub open spec fn labeled(
    label: Seq<char>,
    color: Color,
    msg: Seq<(Seq<char>, Color, Color)>,
) -> Seq<(Seq<char>, Color, Color)> {
    seq![(label, color, Color(0, 0, 0))] + msg
}

/// A record as the read view yields it: the stored message prefixed
/// with a section holding the formatted timestamp.
pub open spec fn stamped(rec: RecordView) -> Seq<(Seq<char>, Color, Color)> {
    seq![(time_label(rec.0.unix_time as nat), Color(0xee, 0xee, 0xee), Color(0, 0, 0))] + rec.1
}

/// The logger: one append-only queue of timestamped records per
/// severity, in the order logged.
pub struct KernelLogger {
    fatal_queue: GrowArray<LogRecord>,
    error_queue: GrowArray<LogRecord>,
    warning_queue: GrowArray<LogRecord>,
    info_queue: GrowArray<LogRecord>,
    debug_queue: GrowArray<LogRecord>,
    trace_queue: GrowArray<LogRecord>,
}

impl KernelLogger {
    #[verifier::type_invariant]
    spec fn wf(&self) -> bool {
        &&& queue_ok(self.fatal_queue@)
        &&& queue_ok(self.error_queue@)
        &&& queue_ok(self.warning_queue@)
        &&& queue_ok(self.info_queue@)
        &&& queue_ok(self.debug_queue@)
        &&& queue_ok(self.trace_queue@)
    }

    pub closed spec fn fatal_log(&self) -> Seq<RecordView> {
        records_view(self.fatal_queue@)
    }

    pub closed spec fn error_log(&self) -> Seq<RecordView> {
        records_view(self.error_queue@)
    }

    pub closed spec fn warning_log(&self) -> Seq<RecordView> {
        records_view(self.warning_queue@)
    }

    pub closed spec fn info_log(&self) -> Seq<RecordView> {
        records_view(self.info_queue@)
    }

    pub closed spec fn debug_log(&self) -> Seq<RecordView> {
        records_view(self.debug_queue@)
    }

    pub closed spec fn trace_log(&self) -> Seq<RecordView> {
        records_view(self.trace_queue@)
    }

    /// The queue a place in the severity order selects.
    pub open spec fn queue_view(&self, k: int) -> Seq<RecordView> {
        if k == 1 {
            self.error_log()
        } else if k == 2 {
            self.warning_log()
        } else if k == 3 {
            self.info_log()
        } else if k == 4 {
            self.debug_log()
        } else {
            self.trace_log()
        }
    }

    /// The chronological merge of the queues from fatal up to place
    /// `k` in the severity order.
    pub open spec fn merged_view(&self, k: int) -> Seq<RecordView>
        decreases k,
    {
        if k <= 0 {
            self.fatal_log()
        } else {
            merge_by_time(self.merged_view(k - 1), self.queue_view(k))
        }
    }

    /// How many records the queues from fatal up to place `k` hold
    /// together.
    pub open spec fn levels_total(&self, k: int) -> int
        decreases k,
    {
        if k <= 0 {
            self.fatal_log().len() as int
        } else {
            self.levels_total(k - 1) + self.queue_view(k).len()
        }
    }

    /// How many records all six queues hold together.
    pub open spec fn total_records(&self) -> int {
        self.levels_total(5)
    }

    /// A logger with all six queues empty.
    pub fn new() -> (l: Self)
        ensures
            l.fatal_log() == Seq::<RecordView>::empty(),
            l.error_log() == Seq::<RecordView>::empty(),
            l.warning_log() == Seq::<RecordView>::empty(),
            l.info_log() == Seq::<RecordView>::empty(),
            l.debug_log() == Seq::<RecordView>::empty(),
            l.trace_log() == Seq::<RecordView>::empty(),
    {
        let l = KernelLogger {
            fatal_queue: GrowArray::new(),
            error_queue: GrowArray::new(),
            warning_queue: GrowArray::new(),
            info_queue: GrowArray::new(),
            debug_queue: GrowArray::new(),
            trace_queue: GrowArray::new(),
        };
        proof {
            assert(records_view(l.fatal_queue@) =~= Seq::<RecordView>::empty());
            assert(records_view(l.error_queue@) =~= Seq::<RecordView>::empty());
            assert(records_view(l.warning_queue@) =~= Seq::<RecordView>::empty());
            assert(records_view(l.info_queue@) =~= Seq::<RecordView>::empty());
            assert(records_view(l.debug_queue@) =~= Seq::<RecordView>::empty());
            assert(records_view(l.trace_queue@) =~= Seq::<RecordView>::empty());
        }
        l
    }

    /// Prefixes the message with the `Fatal: ` label in the level's
    /// color and appends the record to the fatal queue, stamped with
    /// `time`, a clock value read from the host time source.
    pub fn fatal(&mut self, msg: Message, time: SystemTime)
        requires
            msg@.len() < usize::MAX as int / 2 - 2,
            old(self).fatal_log().len() < usize::MAX as int / 2,
        ensures
            final(self).fatal_log() == old(self).fatal_log().push(
                (time, labeled("Fatal: "@, Color(0xee, 0x22, 0x22), msg@)),
            ),
            final(self).error_log() == old(self).error_log(),
            final(self).warning_log() == old(self).warning_log(),
            final(self).info_log() == old(self).info_log(),
            final(self).debug_log() == old(self).debug_log(),
            final(self).trace_log() == old(self).trace_log(),
    {
        proof {
            use_type_invariant(&*self);
            reveal_strlit("Fatal: ");
        }
        let label = Text::from_str("Fatal: ");
        let built = MessageBuilder::new().message(&label).foreground_color(
            Color::red(),
        ).append(MessageBuilder::from_message(msg)).build();
        proof {
            assert(built@ =~= labeled("Fatal: "@, Color(0xee, 0x22, 0x22), msg@));
        }
        let mut q: GrowArray<LogRecord> = GrowArray::new();
        core::mem::swap(&mut q, &mut self.fatal_queue);
        q.push(LogRecord { time, msg: built });
        self.fatal_queue = q;
        proof {
            assert(final(self).fatal_log() =~= old(self).fatal_log().push(
                (time, labeled("Fatal: "@, Color(0xee, 0x22, 0x22), msg@)),
            ));
        }
    }

    /// Prefixes the message with the `Error: ` label in the level's
    /// color and appends the record to the error queue, stamped with
    /// `time`, a clock value read from the host time source.
    pub fn error(&mut self, msg: Message, time: SystemTime)
        requires
            msg@.len() < usize::MAX as int / 2 - 2,
            old(self).error_log().len() < usize::MAX as int / 2,
        ensures
            final(self).error_log() == old(self).error_log().push(
                (time, labeled("Error: "@, Color(0xee, 0xaa, 0x22), msg@)),
            ),
            final(self).fatal_log() == old(self).fatal_log(),
            final(self).warning_log() == old(self).warning_log(),
            final(self).info_log() == old(self).info_log(),
            final(self).debug_log() == old(self).debug_log(),
            final(self).trace_log() == old(self).trace_log(),
    {
        proof {
            use_type_invariant(&*self);
            reveal_strlit("Error: ");
        }
        let label = Text::from_str("Error: ");
        let built = MessageBuilder::new().message(&label).foreground_color(
            Color::orange(),
        ).append(MessageBuilder::from_message(msg)).build();
        proof {
            assert(built@ =~= labeled("Error: "@, Color(0xee, 0xaa, 0x22), msg@));
        }
        let mut q: GrowArray<LogRecord> = GrowArray::new();
        core::mem::swap(&mut q, &mut self.error_queue);
        q.push(LogRecord { time, msg: built });
        self.error_queue = q;
        proof {
            assert(final(self).error_log() =~= old(self).error_log().push(
                (time, labeled("Error: "@, Color(0xee, 0xaa, 0x22), msg@)),
            ));
        }
    }

    /// Prefixes the message with the `Warning: ` label in the level's
    /// color and appends the record to the warning queue, stamped with
    /// `time`, a clock value read from the host time source.
    pub fn warning(&mut self, msg: Message, time: SystemTime)
        requires
            msg@.len() < usize::MAX as int / 2 - 2,
            old(self).warning_log().len() < usize::MAX as int / 2,
        ensures
            final(self).warning_log() == old(self).warning_log().push(
                (time, labeled("Warning: "@, Color(0xee, 0x22, 0xee), msg@)),
            ),
            final(self).fatal_log() == old(self).fatal_log(),
            final(self).error_log() == old(self).error_log(),
            final(self).info_log() == old(self).info_log(),
            final(self).debug_log() == old(self).debug_log(),
            final(self).trace_log() == old(self).trace_log(),
    {
        proof {
            use_type_invariant(&*self);
            reveal_strlit("Warning: ");
        }
        let label = Text::from_str("Warning: ");
        let built = MessageBuilder::new().message(&label).foreground_color(
            Color::purple(),
        ).append(MessageBuilder::from_message(msg)).build();
        proof {
            assert(built@ =~= labeled("Warning: "@, Color(0xee, 0x22, 0xee), msg@));
        }
        let mut q: GrowArray<LogRecord> = GrowArray::new();
        core::mem::swap(&mut q, &mut self.warning_queue);
        q.push(LogRecord { time, msg: built });
        self.warning_queue = q;
        proof {
            assert(final(self).warning_log() =~= old(self).warning_log().push(
                (time, labeled("Warning: "@, Color(0xee, 0x22, 0xee), msg@)),
            ));
        }
    }

    /// Prefixes the message with the `Info: ` label in the level's
    /// color and appends the record to the info queue, stamped with
    /// `time`, a clock value read from the host time source.
    pub fn info(&mut self, msg: Message, time: SystemTime)
        requires
            msg@.len() < usize::MAX as int / 2 - 2,
            old(self).info_log().len() < usize::MAX as int / 2,
        ensures
            final(self).info_log() == old(self).info_log().push(
                (time, labeled("Info: "@, Color(0x22, 0xee, 0x22), msg@)),
            ),
            final(self).fatal_log() == old(self).fatal_log(),
            final(self).error_log() == old(self).error_log(),
            final(self).warning_log() == old(self).warning_log(),
            final(self).debug_log() == old(self).debug_log(),
            final(self).trace_log() == old(self).trace_log(),
    {
        proof {
            use_type_invariant(&*self);
            reveal_strlit("Info: ");
        }
        let label = Text::from_str("Info: ");
        let built = MessageBuilder::new().message(&label).foreground_color(
            Color::green(),
        ).append(MessageBuilder::from_message(msg)).build();
        proof {
            assert(built@ =~= labeled("Info: "@, Color(0x22, 0xee, 0x22), msg@));
        }
        let mut q: GrowArray<LogRecord> = GrowArray::new();
        core::mem::swap(&mut q, &mut self.info_queue);
        q.push(LogRecord { time, msg: built });
        self.info_queue = q;
        proof {
            assert(final(self).info_log() =~= old(self).info_log().push(
                (time, labeled("Info: "@, Color(0x22, 0xee, 0x22), msg@)),
            ));
        }
    }

    /// Prefixes the message with the `Debug: ` label in the level's
    /// color and appends the record to the debug queue, stamped with
    /// `time`, a clock value read from the host time source.
    pub fn debug(&mut self, msg: Message, time: SystemTime)
        requires
            msg@.len() < usize::MAX as int / 2 - 2,
            old(self).debug_log().len() < usize::MAX as int / 2,
        ensures
            final(self).debug_log() == old(self).debug_log().push(
                (time, labeled("Debug: "@, Color(0xee, 0xee, 0xee), msg@)),
            ),
            final(self).fatal_log() == old(self).fatal_log(),
            final(self).error_log() == old(self).error_log(),
            final(self).warning_log() == old(self).warning_log(),
            final(self).info_log() == old(self).info_log(),
            final(self).trace_log() == old(self).trace_log(),
    {
        proof {
            use_type_invariant(&*self);
            reveal_strlit("Debug: ");
        }
        let label = Text::from_str("Debug: ");
        let built = MessageBuilder::new().message(&label).foreground_color(
            Color::white(),
        ).append(MessageBuilder::from_message(msg)).build();
        proof {
            assert(built@ =~= labeled("Debug: "@, Color(0xee, 0xee, 0xee), msg@));
        }
        let mut q: GrowArray<LogRecord> = GrowArray::new();
        core::mem::swap(&mut q, &mut self.debug_queue);
        q.push(LogRecord { time, msg: built });
        self.debug_queue = q;
        proof {
            assert(final(self).debug_log() =~= old(self).debug_log().push(
                (time, labeled("Debug: "@, Color(0xee, 0xee, 0xee), msg@)),
            ));
        }
    }

    /// Prefixes the message with the `Trace: ` label in the level's
    /// color and appends the record to the trace queue, stamped with
    /// `time`, a clock value read from the host time source.
    pub fn trace(&mut self, msg: Message, time: SystemTime)
        requires
            msg@.len() < usize::MAX as int / 2 - 2,
            old(self).trace_log().len() < usize::MAX as int / 2,
        ensures
            final(self).trace_log() == old(self).trace_log().push(
                (time, labeled("Trace: "@, Color(0xee, 0xee, 0xee), msg@)),
            ),
            final(self).fatal_log() == old(self).fatal_log(),
            final(self).error_log() == old(self).error_log(),
            final(self).warning_log() == old(self).warning_log(),
            final(self).info_log() == old(self).info_log(),
            final(self).debug_log() == old(self).debug_log(),
    {
        proof {
            use_type_invariant(&*self);
            reveal_strlit("Trace: ");
        }
        let label = Text::from_str("Trace: ");
        let built = MessageBuilder::new().message(&label).foreground_color(
            Color::white(),
        ).append(MessageBuilder::from_message(msg)).build();
        proof {
            assert(built@ =~= labeled("Trace: "@, Color(0xee, 0xee, 0xee), msg@));
        }
        let mut q: GrowArray<LogRecord> = GrowArray::new();
        core::mem::swap(&mut q, &mut self.trace_queue);
        q.push(LogRecord { time, msg: built });
        self.trace_queue = q;
        proof {
            assert(final(self).trace_log() =~= old(self).trace_log().push(
                (time, labeled("Trace: "@, Color(0xee, 0xee, 0xee), msg@)),
            ));
        }
    }

    /// How many records all six queues hold together, wide enough
    /// that the sum cannot wrap.
    pub fn record_count(&self) -> (n: u128)
        ensures
            n == self.total_records(),
    {
        let n = self.fatal_queue.len() as u128 + self.error_queue.len() as u128
            + self.warning_queue.len() as u128 + self.info_queue.len() as u128
            + self.debug_queue.len() as u128 + self.trace_queue.len() as u128;
        proof {
            assert(self.levels_total(5) == self.levels_total(4) + self.trace_log().len());
            assert(self.levels_total(4) == self.levels_total(3) + self.debug_log().len());
            assert(self.levels_total(3) == self.levels_total(2) + self.info_log().len());
            assert(self.levels_total(2) == self.levels_total(1) + self.warning_log().len());
            assert(self.levels_total(1) == self.levels_total(0) + self.error_log().len());
        }
        n
    }

    /// A read view over the queues from fatal up to and including
    /// `threshold`, drained in nondecreasing timestamp order.
    pub fn iter(&self, threshold: LoggerLevel) -> (it: LogIterator)
        requires
            self.total_records() < usize::MAX as int / 2,
        ensures
            it.remaining() == self.merged_view(level_index(threshold)),
    {
        proof {
            use_type_invariant(self);
            lemma_levels_total_mono(self, 0);
        }
        let idx = threshold.index();
        let mut m = dup_records(&self.fatal_queue);
        let mut k: usize = 0;
        while k < idx
            invariant
                k <= idx,
                idx == level_index(threshold),
                idx <= 5,
                self.wf(),
                self.total_records() < usize::MAX as int / 2,
                records_view(m@) == self.merged_view(k as int),
                queue_ok(m@),
            decreases idx - k,
        {
            proof {
                lemma_merged_view_len(self, k as int);
                lemma_levels_total_mono(self, k as int + 1);
            }
            let q = if k == 0 {
                &self.error_queue
            } else if k == 1 {
                &self.warning_queue
            } else if k == 2 {
                &self.info_queue
            } else if k == 3 {
                &self.debug_queue
            } else {
                &self.trace_queue
            };
            proof {
                assert(records_view(q@) == self.queue_view(k as int + 1));
            }
            m = merge_records(&m, q);
            k = k + 1;
        }
        let it = LogIterator { records: m, index: 0 };
        proof {
            assert(it.remaining() =~= self.merged_view(idx as int));
        }
        it
    }
}

/// Selecting more severities never selects fewer records.
proof fn lemma_levels_total_mono(l: &KernelLogger, k: int)
    requires
        0 <= k <= 5,
    ensures
        l.levels_total(k) <= l.levels_total(5),
    decreases 5 - k,
{
    if k < 5 {
        lemma_levels_total_mono(l, k + 1);
    }
}

/// The merged view of the first levels holds exactly their queues'
/// records, so its length is their lengths added.
proof fn lemma_merged_view_len(l: &KernelLogger, k: int)
    requires
        0 <= k <= 5,
    ensures
        l.merged_view(k).len() == l.levels_total(k),
    decreases k,
{
    if k > 0 {
        lemma_merged_view_len(l, k - 1);
        lemma_merge_len_multiset(l.merged_view(k - 1), l.queue_view(k));
    }
}

/// When every selected queue is in nondecreasing timestamp order —
/// as queues are when each record was stamped by a monotonic clock at
/// the moment of logging — the merged view up to place `k` is in
/// nondecreasing timestamp order too.
pub proof fn lemma_merged_view_sorted(l: &KernelLogger, k: int)
    requires
        0 <= k,
        time_sorted(l.fatal_log()),
        forall|j: int| 1 <= j <= k ==> time_sorted(#[trigger] l.queue_view(j)),
    ensures
        time_sorted(l.merged_view(k)),
    decreases k,
{
    if k > 0 {
        lemma_merged_view_sorted(l, k - 1);
        lemma_merge_sorted(l.merged_view(k - 1), l.queue_view(k));
    }
}

/// A lazy, finite, non-restartable walk over merged records: each
/// step yields the next record's message prefixed with its formatted
/// timestamp.
pub struct LogIterator {
    records: GrowArray<LogRecord>,
    index: usize,
}

impl LogIterator {
    #[verifier::type_invariant]
    spec fn wf(&self) -> bool {
        self.index <= self.records@.len() && queue_ok(self.records@)
    }

    /// The records not yet yielded.
    pub closed spec fn remaining(&self) -> Seq<RecordView> {
        records_view(self.records@).skip(self.index as int)
    }

    /// Yields the next merged record's message, prefixed with its
    /// formatted timestamp, or `None` when the view is drained.
    pub fn next(&mut self) -> (r: Option<Message>)
        ensures
            old(self).remaining().len() == 0 ==> r is None && final(self).remaining() == old(
                self,
            ).remaining(),
            old(self).remaining().len() > 0 ==> {
                &&& final(self).remaining() == old(self).remaining().drop_first()
                &&& r matches Some(m) && m@ == stamped(old(self).remaining()[0])
            },
    {
        proof {
            use_type_invariant(&*self);
        }
        if self.index < self.records.len() {
            let rec = self.records.get(self.index);
            let label = rec.time.to_label();
            let mut b = MessageBuilder::new();
            b.message_mut(&label);
            let b2 = b.append(MessageBuilder::from_message(rec.msg.duplicate()));
            let out = b2.build();
            proof {
                assert(out@ =~= stamped(old(self).remaining()[0]));
            }
            self.index = self.index + 1;
            proof {
                assert(final(self).remaining() =~= old(self).remaining().drop_first());
            }
            Some(out)
        } else {
            None
        }
    }
}

} // verus!
