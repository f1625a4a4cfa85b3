//! Timed routines: named lists of parameter-change events with delays
//! between them, and the runtime queue that merges, replaces and dispatches
//! them.

use vstd::prelude::*;
use crate::fixed::FIX_ONE;

verus! {

/// Ceiling on a stored delay (fixed-point seconds); longer schedules are
/// capped here.
pub const DELAY_CAP: i64 = 0x100000000000;

/// A tongue preset reference: a fixed preset, or one drawn from the
/// routine random stream.
#[derive(Debug, Clone, Copy, PartialEq, Eq, Structural)]
pub enum TongueIndex {
    Index(usize),
    Random,
}

impl TongueIndex {
    /// A short label for display.
    pub fn name(&self) -> (r: &'static str)
    {
        match self {
            TongueIndex::Index(_) => "Index",
            TongueIndex::Random => "Random",
        }
    }
}

/// One parameter-change event.
#[derive(Debug, Clone, Copy)]
pub enum Event {
    Tongue { index: TongueIndex, speed: Option<i64> },
    Constriction { i: usize, strength: Option<i64> },
    Velum { openness: i64 },
    Pitch { value: i64 },
    Sound { sound: bool },
    ForceDiameter,
}

/// The variant tag of an event; kind-replacement matches on this alone.
#[derive(Debug, Clone, Copy, PartialEq, Eq, Structural)]
pub enum EventKind {
    Tongue,
    Constriction,
    Velum,
    Pitch,
    Sound,
    ForceDiameter,
}

/// The kind of an event.
pub open spec fn kind_of(e: Event) -> EventKind {
    match e {
        Event::Tongue { .. } => EventKind::Tongue,
        Event::Constriction { .. } => EventKind::Constriction,
        Event::Velum { .. } => EventKind::Velum,
        Event::Pitch { .. } => EventKind::Pitch,
        Event::Sound { .. } => EventKind::Sound,
        Event::ForceDiameter => EventKind::ForceDiameter,
    }
}

/// An event's payload stays inside the ranges the dispatcher accepts.
pub open spec fn event_wf(e: Event) -> bool {
    match e {
        Event::Tongue { index, speed } => match speed {
            Option::Some(s) => 0 <= s <= 20971520,
            Option::None => true,
        },
        Event::Constriction { i, strength } => match strength {
            Option::Some(s) => 0 <= s <= FIX_ONE,
            Option::None => true,
        },
        Event::Velum { openness } => 0 <= openness <= FIX_ONE,
        Event::Pitch { value } => -262144 <= value <= 262144,
        Event::Sound { .. } => true,
        Event::ForceDiameter => true,
    }
}

impl Event {
    /// A human-readable label.
    pub fn name(&self) -> (r: &'static str)
    {
        match self {
            Event::Tongue { .. } => "Tongue",
            Event::Constriction { .. } => "Constriction",
            Event::Velum { .. } => "Velum",
            Event::Pitch { .. } => "Pitch",
            Event::Sound { .. } => "Sound",
            Event::ForceDiameter => "Force Diameter",
        }
    }

    /// The variant tag; exact per `kind_of`.
    pub fn kind(&self) -> (r: EventKind)
        ensures
            r == kind_of(*self),
    {
        match self {
            Event::Tongue { .. } => EventKind::Tongue,
            Event::Constriction { .. } => EventKind::Constriction,
            Event::Velum { .. } => EventKind::Velum,
            Event::Pitch { .. } => EventKind::Pitch,
            Event::Sound { .. } => EventKind::Sound,
            Event::ForceDiameter => EventKind::ForceDiameter,
        }
    }
}

/// A well-formed event list: delays inside the cap, sane payloads.
pub open spec fn events_wf(q: Seq<(i64, Event)>) -> bool {
    &&& forall|i: int| 0 <= i < q.len() ==> 0 <= (#[trigger] q[i]).0 <= DELAY_CAP
    &&& forall|i: int| 0 <= i < q.len() ==> event_wf((#[trigger] q[i]).1)
}

/// The set of kinds occurring in an event list.
pub open spec fn kinds_of(q: Seq<(i64, Event)>) -> Set<EventKind>
    decreases q.len(),
{
    if q.len() == 0 {
        Set::<EventKind>::empty()
    } else {
        kinds_of(q.drop_last()).insert(kind_of(q.last().1))
    }
}

/// How many events of a kind an event list holds.
pub open spec fn count_kind(q: Seq<(i64, Event)>, k: EventKind) -> int
    decreases q.len(),
{
    if q.len() == 0 {
        0int
    } else {
        count_kind(q.drop_last(), k) + if kind_of(q.last().1) == k {
            1int
        } else {
            0int
        }
    }
}

/// The queue with every event of a kind in `ks` removed; a removed entry's
/// delay rolls into its successor (capped), so later timing is preserved.
/// `carry` is the delay already rolled forward.
pub open spec fn remove_kinds_carry(
    q: Seq<(i64, Event)>,
    ks: Set<EventKind>,
    carry: int,
) -> Seq<(i64, Event)>
    decreases q.len(),
{
    if q.len() == 0 {
        Seq::<(i64, Event)>::empty()
    } else {
        let d = if carry + q[0].0 > DELAY_CAP {
            DELAY_CAP as int
        } else {
            carry + q[0].0
        };
        if ks.contains(kind_of(q[0].1)) {
            remove_kinds_carry(q.subrange(1, q.len() as int), ks, d)
        } else {
            seq![(d as i64, q[0].1)] + remove_kinds_carry(q.subrange(1, q.len() as int), ks, 0)
        }
    }
}

/// The queue with every event of a kind in `ks` removed.
pub open spec fn remove_kinds(q: Seq<(i64, Event)>, ks: Set<EventKind>) -> Seq<(i64, Event)> {
    remove_kinds_carry(q, ks, 0)
}

/// Merge two delta-timed event lists: whichever head is due sooner goes
/// first, and the other head's delta shrinks by the emitted delta.
pub open spec fn merge_events(a: Seq<(i64, Event)>, b: Seq<(i64, Event)>) -> Seq<(i64, Event)>
    decreases a.len() + b.len(),
{
    if a.len() == 0 {
        b
    } else if b.len() == 0 {
        a
    } else if a[0].0 < b[0].0 {
        seq![a[0]] + merge_events(
            a.subrange(1, a.len() as int),
            b.update(0, (((b[0].0 - a[0].0) as i64), b[0].1)),
        )
    } else {
        seq![b[0]] + merge_events(
            a.update(0, (((a[0].0 - b[0].0) as i64), a[0].1)),
            b.subrange(1, b.len() as int),
        )
    }
}

/// The queue and the dispatched events after `dt` has elapsed: the head
/// sheds `dt`; every head that reaches zero or less pops and fires.
pub open spec fn process_queue(q: Seq<(i64, Event)>, dt: int) -> (Seq<(i64, Event)>, Seq<Event>)
    decreases q.len(),
{
    if q.len() == 0 {
        (q, Seq::<Event>::empty())
    } else if q[0].0 - dt > 0 {
        (q.update(0, (((q[0].0 - dt) as i64), q[0].1)), Seq::<Event>::empty())
    } else {
        let rec = process_queue(q.subrange(1, q.len() as int), dt);
        (rec.0, seq![q[0].1] + rec.1)
    }
}

/// Whether any event of the list has the given kind; exact per membership
/// in `kinds_of`.
fn has_kind(events: &Vec<(i64, Event)>, k: EventKind) -> (r: bool)
    ensures
        r == kinds_of(events@).contains(k),
{
    let mut i: usize = 0;
    let mut found: bool = false;
    proof {
        assert(!kinds_of(events@.subrange(0, 0)).contains(k));
    }
    while i < events.len() && !found
        invariant
            i <= events@.len(),
            found ==> kinds_of(events@).contains(k),
            !found ==> kinds_of(events@.subrange(0, i as int)).contains(k) == false,
        decreases events@.len() - i + (if found {
            0int
        } else {
            1int
        }),
    {
        let kd: EventKind = events[i].1.kind();
        proof {
            assert(events@.subrange(0, i as int + 1).drop_last() =~= events@.subrange(0, i as int));
            assert(events@.subrange(0, i as int + 1).last() == events@[i as int]);
            if kd == k {
                lemma_kinds_subrange(events@, i as int + 1, k);
            }
        }
        if kd == k {
            found = true;
        }
        i = i + 1;
    }
    proof {
        if !found {
            assert(events@.subrange(0, events@.len() as int) =~= events@);
        }
    }
    found
}

/// A kind present in a prefix is present in the whole list.
proof fn lemma_kinds_subrange(q: Seq<(i64, Event)>, n: int, k: EventKind)
    requires
        0 <= n <= q.len(),
        kinds_of(q.subrange(0, n)).contains(k),
    ensures
        kinds_of(q).contains(k),
    decreases q.len() - n,
{
    if n < q.len() {
        assert(q.subrange(0, n + 1).drop_last() =~= q.subrange(0, n));
        lemma_kinds_subrange(q, n + 1, k);
    } else {
        assert(q.subrange(0, n) =~= q);
    }
}

/// The queue with every event whose kind occurs in `kinds` removed, delays
/// rolled forward; exact per `remove_kinds`.
fn remove_kinds_exec(q: &Vec<(i64, Event)>, kinds: &Vec<(i64, Event)>) -> (out: Vec<(i64, Event)>)
    requires
        events_wf(q@),
    ensures
        out@ == remove_kinds(q@, kinds_of(kinds@)),
        events_wf(out@),
{
    let mut out: Vec<(i64, Event)> = Vec::new();
    let mut carry: i64 = 0;
    let mut i: usize = 0;
    let ghost ks: Set<EventKind> = kinds_of(kinds@);
    proof {
        assert(q@.subrange(0, q@.len() as int) =~= q@);
        assert(Seq::<(i64, Event)>::empty() + remove_kinds_carry(q@, ks, 0)
            =~= remove_kinds_carry(q@, ks, 0));
    }
    while i < q.len()
        invariant
            i <= q@.len(),
            events_wf(q@),
            0 <= carry <= DELAY_CAP,
            events_wf(out@),
            ks == kinds_of(kinds@),
            remove_kinds(q@, ks) == out@ + remove_kinds_carry(
                q@.subrange(i as int, q@.len() as int),
                ks,
                carry as int,
            ),
        decreases q@.len() - i,
    {
        let ghost rest: Seq<(i64, Event)> = q@.subrange(i as int, q@.len() as int);
        let (d, e): (i64, Event) = q[i];
        proof {
            assert(rest[0] == q@[i as int]);
            assert(rest.subrange(1, rest.len() as int) =~= q@.subrange(
                i as int + 1,
                q@.len() as int,
            ));
        }
        let capped: i64 = if carry + d > DELAY_CAP {
            DELAY_CAP
        } else {
            carry + d
        };
        let kd: EventKind = e.kind();
        if has_kind(kinds, kd) {
            carry = capped;
        } else {
            out.push((capped, e));
            carry = 0;
        }
        i = i + 1;
    }
    proof {
        assert(q@.subrange(q@.len() as int, q@.len() as int)
            =~= Seq::<(i64, Event)>::empty());
        assert(out@ + Seq::<(i64, Event)>::empty() =~= out@);
    }
    out
}

/// Merge two delta-timed lists; exact per `merge_events`.
fn merge_exec(a: &Vec<(i64, Event)>, b: &Vec<(i64, Event)>) -> (out: Vec<(i64, Event)>)
    requires
        events_wf(a@),
        events_wf(b@),
    ensures
        out@ == merge_events(a@, b@),
        events_wf(out@),
{
    let mut out: Vec<(i64, Event)> = Vec::new();
    let mut ai: usize = 0;
    let mut bi: usize = 0;
    let mut ahead: i64 = if a.len() > 0 {
        a[0].0
    } else {
        0
    };
    let mut bhead: i64 = if b.len() > 0 {
        b[0].0
    } else {
        0
    };
    proof {
        if a@.len() > 0 {
            assert(rem_list(a@, 0, ahead) =~= a@);
        } else {
            assert(rem_list(a@, 0, ahead) =~= a@);
        }
        if b@.len() > 0 {
            assert(rem_list(b@, 0, bhead) =~= b@);
        } else {
            assert(rem_list(b@, 0, bhead) =~= b@);
        }
        assert(Seq::<(i64, Event)>::empty() + merge_events(a@, b@) =~= merge_events(a@, b@));
    }
    while ai < a.len() && bi < b.len()
        invariant
            ai <= a@.len(),
            bi <= b@.len(),
            events_wf(a@),
            events_wf(b@),
            events_wf(out@),
            ai < a@.len() ==> 0 <= ahead <= a@[ai as int].0,
            bi < b@.len() ==> 0 <= bhead <= b@[bi as int].0,
            merge_events(a@, b@) == out@ + merge_events(
                rem_list(a@, ai as int, ahead),
                rem_list(b@, bi as int, bhead),
            ),
        decreases a@.len() - ai + b@.len() - bi,
    {
        let ghost ra: Seq<(i64, Event)> = rem_list(a@, ai as int, ahead);
        let ghost rb: Seq<(i64, Event)> = rem_list(b@, bi as int, bhead);
        proof {
            assert(ra[0] == (ahead, a@[ai as int].1));
            assert(rb[0] == (bhead, b@[bi as int].1));
        }
        if ahead < bhead {
            out.push((ahead, a[ai].1));
            bhead = bhead - ahead;
            ai = ai + 1;
            if ai < a.len() {
                ahead = a[ai].0;
            } else {
                ahead = 0;
            }
            proof {
                assert(ra.subrange(1, ra.len() as int) =~= rem_list(a@, ai as int, ahead));
                assert(rb.update(0, (((rb[0].0 - ra[0].0) as i64), rb[0].1)) =~= rem_list(
                    b@,
                    bi as int,
                    bhead,
                ));
            }
        } else {
            out.push((bhead, b[bi].1));
            ahead = ahead - bhead;
            bi = bi + 1;
            if bi < b.len() {
                bhead = b[bi].0;
            } else {
                bhead = 0;
            }
            proof {
                assert(rb.subrange(1, rb.len() as int) =~= rem_list(b@, bi as int, bhead));
                assert(ra.update(0, (((ra[0].0 - rb[0].0) as i64), ra[0].1)) =~= rem_list(
                    a@,
                    ai as int,
                    ahead,
                ));
            }
        }
    }
    proof {
        if ai < a@.len() {
            assert(rem_list(b@, bi as int, bhead) =~= Seq::<(i64, Event)>::empty());
            assert(merge_events(rem_list(a@, ai as int, ahead), rem_list(b@, bi as int, bhead))
                == rem_list(a@, ai as int, ahead));
        }
    }
    while ai < a.len()
        invariant
            ai <= a@.len(),
            events_wf(a@),
            events_wf(out@),
            ai < a@.len() ==> bi >= b@.len(),
            ai < a@.len() ==> 0 <= ahead <= a@[ai as int].0,
            merge_events(a@, b@) == out@ + merge_events(
                rem_list(a@, ai as int, ahead),
                rem_list(b@, bi as int, bhead),
            ),
            bi <= b@.len(),
        decreases a@.len() - ai,
    {
        proof {
            assert(rem_list(b@, bi as int, bhead) =~= Seq::<(i64, Event)>::empty());
        }
        let ghost ra: Seq<(i64, Event)> = rem_list(a@, ai as int, ahead);
        proof {
            assert(ra[0] == (ahead, a@[ai as int].1));
        }
        out.push((ahead, a[ai].1));
        ai = ai + 1;
        if ai < a.len() {
            ahead = a[ai].0;
        } else {
            ahead = 0;
        }
        proof {
            assert(ra.subrange(1, ra.len() as int) =~= rem_list(a@, ai as int, ahead));
            assert(ra =~= seq![ra[0]] + ra.subrange(1, ra.len() as int));
            assert(rem_list(b@, bi as int, bhead) =~= Seq::<(i64, Event)>::empty());
        }
    }
    while bi < b.len()
        invariant
            bi <= b@.len(),
            ai <= a@.len(),
            events_wf(b@),
            events_wf(out@),
            bi < b@.len() ==> ai >= a@.len(),
            bi < b@.len() ==> 0 <= bhead <= b@[bi as int].0,
            merge_events(a@, b@) == out@ + merge_events(
                rem_list(a@, ai as int, ahead),
                rem_list(b@, bi as int, bhead),
            ),
        decreases b@.len() - bi,
    {
        proof {
            assert(rem_list(a@, ai as int, ahead) =~= Seq::<(i64, Event)>::empty());
        }
        let ghost rb: Seq<(i64, Event)> = rem_list(b@, bi as int, bhead);
        proof {
            assert(rb[0] == (bhead, b@[bi as int].1));
        }
        out.push((bhead, b[bi].1));
        bi = bi + 1;
        if bi < b.len() {
            bhead = b[bi].0;
        } else {
            bhead = 0;
        }
        proof {
            assert(rb.subrange(1, rb.len() as int) =~= rem_list(b@, bi as int, bhead));
            assert(rb =~= seq![rb[0]] + rb.subrange(1, rb.len() as int));
            assert(rem_list(a@, ai as int, ahead) =~= Seq::<(i64, Event)>::empty());
        }
    }
    proof {
        assert(rem_list(a@, ai as int, ahead) =~= Seq::<(i64, Event)>::empty());
        assert(rem_list(b@, bi as int, bhead) =~= Seq::<(i64, Event)>::empty());
        assert(out@ + Seq::<(i64, Event)>::empty() =~= out@);
    }
    out
}

/// The remainder of a list from index `i`, with its head delay replaced by
/// `head`; empty past the end.
pub open spec fn rem_list(q: Seq<(i64, Event)>, i: int, head: i64) -> Seq<(i64, Event)> {
    if 0 <= i < q.len() {
        seq![(head, q[i].1)] + q.subrange(i + 1, q.len() as int)
    } else {
        Seq::<(i64, Event)>::empty()
    }
}

/// A named, reusable list of timed events.
pub struct Routine {
    pub name: String,
    pub events: Vec<(i64, Event)>,
}

impl Routine {
    pub open spec fn wf(self) -> bool {
        events_wf(self.events@)
    }

    /// Weave another routine's events into this one, preserving both
    /// absolute timelines; exact per `merge_events`.
    pub fn merge(&mut self, other: &Routine)
        requires
            events_wf(old(self).events@),
            events_wf(other.events@),
        ensures
            final(self).events@ == merge_events(old(self).events@, other.events@),
            events_wf(final(self).events@),
            final(self).name@ == old(self).name@,
    {
        let merged: Vec<(i64, Event)> = merge_exec(&self.events, &other.events);
        self.events = merged;
    }
}

/// The pending event queue.
pub struct Runtime {
    pub events: Vec<(i64, Event)>,
}

impl Runtime {
    pub open spec fn wf(self) -> bool {
        events_wf(self.events@)
    }

    /// An empty queue.
    pub fn new() -> (r: Runtime)
        ensures
            r.wf(),
            r.events@.len() == 0,
    {
        Runtime { events: Vec::new() }
    }

    /// Queue a routine: first drop every pending event whose kind the
    /// routine also carries (rolling delays forward so later timing
    /// stands), then weave the routine's events in by delta merge.
    pub fn push_routine(&mut self, routine: &Routine)
        requires
            old(self).wf(),
            events_wf(routine.events@),
        ensures
            final(self).wf(),
            final(self).events@ == merge_events(
                remove_kinds(old(self).events@, kinds_of(routine.events@)),
                routine.events@,
            ),
    {
        let kept: Vec<(i64, Event)> = remove_kinds_exec(&self.events, &routine.events);
        let merged: Vec<(i64, Event)> = merge_exec(&kept, &routine.events);
        self.events = merged;
    }

    /// Let `dtime` elapse: the head sheds it, and every event that comes
    /// due pops off in order (each popped head lets the next shed the full
    /// `dtime` again). Returns the dispatched events.
    pub fn process(&mut self, dtime: i64) -> (fired: Vec<Event>)
        requires
            old(self).wf(),
            0 <= dtime <= FIX_ONE * 16,
        ensures
            final(self).wf(),
            final(self).events@ == process_queue(old(self).events@, dtime as int).0,
            fired@ == process_queue(old(self).events@, dtime as int).1,
    {
        let mut fired: Vec<Event> = Vec::new();
        let mut i: usize = 0;
        let ghost q0: Seq<(i64, Event)> = self.events@;
        let mut done: bool = false;
        let mut newhead: i64 = 0;
        proof {
            assert(q0.subrange(0, q0.len() as int) =~= q0);
            assert(Seq::<Event>::empty() + process_queue(q0, dtime as int).1 =~= process_queue(
                q0,
                dtime as int,
            ).1);
        }
        while i < self.events.len() && !done
            invariant
                i <= q0.len(),
                self.events@ == q0,
                events_wf(q0),
                0 <= dtime <= FIX_ONE * 16,
                !done ==> process_queue(q0, dtime as int) == process_queue_tail(
                    q0,
                    dtime as int,
                    i as int,
                    fired@,
                ),
                done ==> (i < q0.len() && 0 < newhead <= DELAY_CAP && process_queue(
                    q0,
                    dtime as int,
                ) == (
                    q0.subrange(i as int, q0.len() as int).update(0, (newhead, q0[i as int].1)),
                    fired@,
                )),
            decreases q0.len() - i + (if done {
                0int
            } else {
                1int
            }),
        {
            let ghost rest: Seq<(i64, Event)> = q0.subrange(i as int, q0.len() as int);
            proof {
                assert(rest[0] == q0[i as int]);
                assert(rest.subrange(1, rest.len() as int) =~= q0.subrange(
                    i as int + 1,
                    q0.len() as int,
                ));
            }
            let h: i64 = self.events[i].0 - dtime;
            if h > 0 {
                newhead = h;
                done = true;
            } else {
                fired.push(self.events[i].1);
                proof {
                    let rec = process_queue(rest.subrange(1, rest.len() as int), dtime as int);
                    assert(fired@ + rec.1 =~= fired@.drop_last() + (seq![rest[0].1] + rec.1));
                }
                i = i + 1;
            }
        }
        if done {
            let mut rebuilt: Vec<(i64, Event)> = Vec::new();
            let start: usize = i;
            rebuilt.push((newhead, self.events[start].1));
            let mut j: usize = start + 1;
            while j < self.events.len()
                invariant
                    start < j <= q0.len(),
                    start < q0.len(),
                    self.events@ == q0,
                    rebuilt@.len() == j - start,
                    rebuilt@[0] == (newhead, q0[start as int].1),
                    forall|t: int| 1 <= t < rebuilt@.len() ==> #[trigger] rebuilt@[t] == q0[
                        start + t],
                decreases q0.len() - j,
            {
                rebuilt.push(self.events[j]);
                j = j + 1;
            }
            proof {
                assert(rebuilt@ =~= q0.subrange(start as int, q0.len() as int).update(
                    0,
                    (newhead, q0[start as int].1),
                ));
            }
            self.events = rebuilt;
        } else {
            proof {
                assert(q0.subrange(q0.len() as int, q0.len() as int)
                    =~= Seq::<(i64, Event)>::empty());
                assert(fired@ + Seq::<Event>::empty() =~= fired@);
            }
            self.events = Vec::new();
        }
        fired
    }
}

/// Counting splits over concatenation.
proof fn lemma_count_concat(a: Seq<(i64, Event)>, b: Seq<(i64, Event)>, k: EventKind)
    ensures
        count_kind(a + b, k) == count_kind(a, k) + count_kind(b, k),
    decreases b.len(),
{
    if b.len() == 0 {
        assert(a + b =~= a);
    } else {
        assert((a + b).drop_last() =~= a + b.drop_last());
        lemma_count_concat(a, b.drop_last(), k);
    }
}

/// Counting ignores delays: lists with the same kinds in the same places
/// count alike.
proof fn lemma_count_congruent(a: Seq<(i64, Event)>, b: Seq<(i64, Event)>, k: EventKind)
    requires
        a.len() == b.len(),
        forall|i: int| 0 <= i < a.len() ==> kind_of((#[trigger] a[i]).1) == kind_of(b[i].1),
    ensures
        count_kind(a, k) == count_kind(b, k),
    decreases a.len(),
{
    if a.len() > 0 {
        lemma_count_congruent(a.drop_last(), b.drop_last(), k);
    }
}

/// Merging two lists never loses or invents an event: counts add up.
proof fn lemma_count_merge(a: Seq<(i64, Event)>, b: Seq<(i64, Event)>, k: EventKind)
    ensures
        count_kind(merge_events(a, b), k) == count_kind(a, k) + count_kind(b, k),
    decreases a.len() + b.len(),
{
    if a.len() == 0 || b.len() == 0 {
    } else if a[0].0 < b[0].0 {
        let b2 = b.update(0, (((b[0].0 - a[0].0) as i64), b[0].1));
        lemma_count_merge(a.subrange(1, a.len() as int), b2, k);
        lemma_count_concat(seq![a[0]], merge_events(a.subrange(1, a.len() as int), b2), k);
        lemma_count_congruent(b2, b, k);
        assert(seq![a[0]] + a.subrange(1, a.len() as int) =~= a);
        lemma_count_concat(seq![a[0]], a.subrange(1, a.len() as int), k);
    } else {
        let a2 = a.update(0, (((a[0].0 - b[0].0) as i64), a[0].1));
        lemma_count_merge(a2, b.subrange(1, b.len() as int), k);
        lemma_count_concat(seq![b[0]], merge_events(a2, b.subrange(1, b.len() as int)), k);
        lemma_count_congruent(a2, a, k);
        assert(seq![b[0]] + b.subrange(1, b.len() as int) =~= b);
        lemma_count_concat(seq![b[0]], b.subrange(1, b.len() as int), k);
    }
}

/// Removal is complete: no event of a removed kind survives.
proof fn lemma_count_remove(q: Seq<(i64, Event)>, ks: Set<EventKind>, k: EventKind, carry: int)
    requires
        ks.contains(k),
        events_wf(q),
        0 <= carry <= DELAY_CAP,
    ensures
        count_kind(remove_kinds_carry(q, ks, carry), k) == 0,
    decreases q.len(),
{
    if q.len() > 0 {
        let d = if carry + q[0].0 > DELAY_CAP {
            DELAY_CAP as int
        } else {
            carry + q[0].0
        };
        if ks.contains(kind_of(q[0].1)) {
            lemma_count_remove(q.subrange(1, q.len() as int), ks, k, d);
        } else {
            lemma_count_remove(q.subrange(1, q.len() as int), ks, k, 0);
            let s1 = seq![((d as i64), q[0].1)];
            lemma_count_concat(s1, remove_kinds_carry(q.subrange(1, q.len() as int), ks, 0), k);
            assert(s1.drop_last() =~= Seq::<(i64, Event)>::empty());
            assert(s1.last().1 == q[0].1);
            assert(kind_of(q[0].1) != k);
            assert(count_kind(Seq::<(i64, Event)>::empty(), k) == 0);
            assert(count_kind(s1, k) == count_kind(s1.drop_last(), k) + (if kind_of(s1.last().1)
                == k {
                1int
            } else {
                0int
            }));
            assert(count_kind(s1, k) == 0);
        }
    }
}

/// Kind-replacement: after a routine is pushed, the pending events of any
/// kind the routine carries are exactly the routine's own — pushing two
/// routines in sequence that share a kind leaves exactly the second one's
/// events of that kind in the queue, however the queue looked before.
pub proof fn lemma_kind_replacement(q: Seq<(i64, Event)>, r: Seq<(i64, Event)>, k: EventKind)
    requires
        kinds_of(r).contains(k),
        events_wf(q),
    ensures
        count_kind(merge_events(remove_kinds(q, kinds_of(r)), r), k) == count_kind(r, k),
{
    lemma_count_remove(q, kinds_of(r), k, 0);
    lemma_count_merge(remove_kinds(q, kinds_of(r)), r, k);
}

/// What remains to be decided once the scan reached index `i` with `acc`
/// already fired.
pub open spec fn process_queue_tail(q: Seq<(i64, Event)>, dt: int, i: int, acc: Seq<Event>) -> (
    Seq<(i64, Event)>,
    Seq<Event>,
) {
    let rec = process_queue(q.subrange(i, q.len() as int), dt);
    (rec.0, acc + rec.1)
}

} // verus!
