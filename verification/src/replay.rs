//! Choosing and ordering the recorded messages that are fed to the engine.

use vstd::prelude::*;
use crate::config::{parse_u64, parsed_u64};
use crate::text::{to_chars, trim_range, trimmed};

verus! {

/// What is wrong with the choice of lines.
#[derive(Debug, Clone, Copy, PartialEq, Eq, Structural)]
pub enum RangeError {
    /// The first line lies behind the last.
    FromBehindTo,
}

/// Which lines of a recording are fed to the engine: from a first to a last
/// line, both counted from one and both included, and at most so many.
#[derive(Debug, Clone, Copy)]
pub struct LineWindow {
    pub from_line: Option<u64>,
    pub to_line: Option<u64>,
    pub limit: Option<u64>,
}

/// The positive number that a setting writes; nothing where it is not
/// given, writes no number, or writes zero.
pub open spec fn positive(value: Option<&str>) -> Option<u64> {
    match value {
        Some(s) => match parsed_u64(s@) {
            Some(n) => if n > 0 {
                Some(n)
            } else {
                None
            },
            None => None,
        },
        None => None,
    }
}

/// The positive number that a setting writes, see [`positive`].
pub fn parse_positive(value: Option<&str>) -> (r: Option<u64>)
    ensures
        r == positive(value),
{
    match value {
        Some(s) => match parse_u64(s) {
            Some(n) => if n > 0 {
                Some(n)
            } else {
                None
            },
            None => None,
        },
        None => None,
    }
}

/// The line is white space alone.
pub open spec fn blank(line: Seq<char>) -> bool {
    trimmed(line).len() == 0
}

/// Whether the line is white space alone.
pub fn is_blank(line: &str) -> (b: bool)
    ensures
        b == blank(line@),
{
    let chars = to_chars(line);
    let (a, e) = trim_range(chars.as_slice());
    a == e
}

impl LineWindow {
    /// The line numbered `line_no` lies in the window.
    pub open spec fn holds(self, line_no: u64) -> bool {
        &&& self.from_line matches Some(from) ==> from <= line_no
        &&& self.to_line matches Some(to) ==> line_no <= to
    }

    /// `taken` lines are as many as the window allows.
    pub open spec fn full(self, taken: u64) -> bool {
        self.limit matches Some(limit) && taken >= limit
    }

    /// The window that the settings describe. A first line behind the last
    /// is refused.
    pub fn from_values(from_line: Option<&str>, to_line: Option<&str>, limit: Option<&str>) -> (r:
        Result<LineWindow, RangeError>)
        ensures
            match (positive(from_line), positive(to_line)) {
                (Some(from), Some(to)) if from > to => r == Err::<LineWindow, RangeError>(
                    RangeError::FromBehindTo,
                ),
                _ => r == Ok::<LineWindow, RangeError>(
                    LineWindow {
                        from_line: positive(from_line),
                        to_line: positive(to_line),
                        limit: positive(limit),
                    },
                ),
            },
    {
        let from_line = parse_positive(from_line);
        let to_line = parse_positive(to_line);
        match (from_line, to_line) {
            (Some(from), Some(to)) => {
                if from > to {
                    return Err(RangeError::FromBehindTo);
                }
            },
            _ => {},
        }
        Ok(LineWindow { from_line, to_line, limit: parse_positive(limit) })
    }

    /// Whether the line numbered `line_no` lies in the window.
    pub fn selects(&self, line_no: u64) -> (b: bool)
        ensures
            b == self.holds(line_no),
    {
        let after_start = match self.from_line {
            Some(from) => from <= line_no,
            None => true,
        };
        let before_end = match self.to_line {
            Some(to) => line_no <= to,
            None => true,
        };
        after_start && before_end
    }

    /// Whether `taken` lines are as many as the window allows.
    pub fn is_full(&self, taken: u64) -> (b: bool)
        ensures
            b == self.full(taken),
    {
        match self.limit {
            Some(limit) => taken >= limit,
            None => false,
        }
    }
}

// ─────────────────────────────── Ordering ────────────────────────────────

/// One recorded message.
#[derive(Debug, Clone)]
pub struct DumpEvent {
    /// When the message was posted, in seconds of Unix time.
    pub timestamp: i64,
    pub channel_id: i64,
    pub channel_title: String,
    pub text: String,
}

/// `a` is fed to the engine no later than `b`: it is older, or as old and
/// from a source of no greater number.
pub open spec fn no_later(a: DumpEvent, b: DumpEvent) -> bool {
    a.timestamp < b.timestamp || (a.timestamp == b.timestamp && a.channel_id <= b.channel_id)
}

/// The events stand in the order in which they are fed to the engine.
pub open spec fn ordered(events: Seq<DumpEvent>) -> bool {
    forall|i: int, j: int| 0 <= i < j < events.len() ==> no_later(events[i], events[j])
}

/// `sorted` with `e` put behind the last event that is no later than `e`.
pub open spec fn inserted(sorted: Seq<DumpEvent>, e: DumpEvent) -> Seq<DumpEvent>
    decreases sorted.len(),
{
    if sorted.len() == 0 || no_later(sorted.last(), e) {
        sorted.push(e)
    } else {
        inserted(sorted.drop_last(), e).push(sorted.last())
    }
}

/// The events in the order in which they are fed to the engine; events of
/// one time and one source keep the order in which they were recorded.
pub open spec fn in_order(events: Seq<DumpEvent>) -> Seq<DumpEvent>
    decreases events.len(),
{
    if events.len() == 0 {
        events
    } else {
        inserted(in_order(events.drop_last()), events.last())
    }
}

/// Putting an event in at position `at` is [`inserted`] where all events
/// from `at` on are later than the event and the one before `at`, if there
/// is one, is not.
pub proof fn lemma_inserted_at(sorted: Seq<DumpEvent>, e: DumpEvent, at: int)
    requires
        0 <= at <= sorted.len(),
        forall|k: int| at <= k < sorted.len() ==> !no_later(#[trigger] sorted[k], e),
        at > 0 ==> no_later(sorted[at - 1], e),
    ensures
        inserted(sorted, e) == sorted.insert(at, e),
    decreases sorted.len(),
{
    if at == sorted.len() {
        assert(sorted.insert(at, e) =~= sorted.push(e));
    } else {
        assert(!no_later(sorted.last(), e));
        let shorter = sorted.drop_last();
        assert forall|k: int| at <= k < shorter.len() implies !no_later(
            #[trigger] shorter[k],
            e,
        ) by {
            assert(shorter[k] == sorted[k]);
        }
        lemma_inserted_at(shorter, e, at);
        assert(shorter.insert(at, e).push(sorted.last()) =~= sorted.insert(at, e));
    }
}

/// Putting an event in keeps the order and adds just that event.
pub proof fn lemma_inserted(sorted: Seq<DumpEvent>, e: DumpEvent)
    requires
        ordered(sorted),
    ensures
        ordered(inserted(sorted, e)),
        inserted(sorted, e).to_multiset() == sorted.to_multiset().insert(e),
        inserted(sorted, e).len() == sorted.len() + 1,
    decreases sorted.len(),
{
    broadcast use vstd::seq_lib::to_multiset_build;

    if sorted.len() == 0 || no_later(sorted.last(), e) {
        let out = sorted.push(e);
        assert forall|i: int, j: int| 0 <= i < j < out.len() implies no_later(out[i], out[j]) by {
            if j == sorted.len() {
                if i < sorted.len() - 1 {
                    assert(no_later(sorted[i], sorted.last()));
                }
            }
        }
    } else {
        let shorter = sorted.drop_last();
        let last = sorted.last();
        assert forall|i: int, j: int| 0 <= i < j < shorter.len() implies no_later(
            shorter[i],
            shorter[j],
        ) by {
            assert(shorter[i] == sorted[i] && shorter[j] == sorted[j]);
        }
        lemma_inserted(shorter, e);
        let mid = inserted(shorter, e);
        let out = mid.push(last);
        assert(sorted =~= shorter.push(last));
        assert(mid.to_multiset().insert(last) =~= sorted.to_multiset().insert(e));
        assert forall|i: int, j: int| 0 <= i < j < out.len() implies no_later(out[i], out[j]) by {
            if j == mid.len() {
                // Every event of `mid` is `e` or an event of `shorter`.
                assert(mid.to_multiset().count(mid[i]) > 0) by {
                    mid.to_multiset_ensures();
                    assert(mid.contains(mid[i]));
                }
                if mid[i] != e {
                    assert(shorter.to_multiset().count(mid[i]) > 0);
                    shorter.to_multiset_ensures();
                    assert(shorter.contains(mid[i]));
                    let k = choose|k: int| 0 <= k < shorter.len() && shorter[k] == mid[i];
                    assert(no_later(sorted[k], sorted.last()));
                }
            }
        }
    }
}

/// What [`in_order`] gives is in order and holds the same events.
pub proof fn lemma_in_order(events: Seq<DumpEvent>)
    ensures
        ordered(in_order(events)),
        in_order(events).to_multiset() == events.to_multiset(),
        in_order(events).len() == events.len(),
    decreases events.len(),
{
    broadcast use vstd::seq_lib::to_multiset_build;

    if events.len() > 0 {
        lemma_in_order(events.drop_last());
        lemma_inserted(in_order(events.drop_last()), events.last());
        assert(events =~= events.drop_last().push(events.last()));
    }
}

/// Whether `a` is fed to the engine no later than `b`.
pub fn is_no_later(a: &DumpEvent, b: &DumpEvent) -> (r: bool)
    ensures
        r == no_later(*a, *b),
{
    a.timestamp < b.timestamp || (a.timestamp == b.timestamp && a.channel_id <= b.channel_id)
}

/// Put the events in the order in which they are fed to the engine: by
/// time, then by source; what is alike in both stays as it was recorded.
pub fn sort_events(events: &mut Vec<DumpEvent>)
    ensures
        final(events)@ == in_order(old(events)@),
        ordered(final(events)@),
        final(events)@.to_multiset() == old(events)@.to_multiset(),
{
    let ghost before = events@;
    let mut i: usize = 0;
    while i < events.len()
        invariant
            i <= events.len(),
            events.len() == before.len(),
            events@.take(i as int) == in_order(before.take(i as int)),
            events@.skip(i as int) == before.skip(i as int),
        decreases events.len() - i,
    {
        let ghost sorted = events@.take(i as int);
        let ghost e = events@[i as int];
        proof {
            assert(e == events@.skip(i as int)[0]);
            assert(before.take(i + 1).drop_last() =~= before.take(i as int));
        }
        let mut at: usize = i;
        while at > 0 && !is_no_later(&events[at - 1], &events[i])
            invariant
                at <= i,
                i < events.len(),
                e == events@[i as int],
                sorted == events@.take(i as int),
                forall|k: int| at <= k < i ==> !no_later(#[trigger] sorted[k], e),
            decreases at,
        {
            at -= 1;
        }
        proof {
            lemma_inserted_at(sorted, e, at as int);
        }
        if at < i {
            let moved = events.remove(i);
            events.insert(at, moved);
        }
        proof {
            assert(before.skip(i + 1) =~= before.skip(i as int).skip(1));
        }
        i += 1;
    }
    proof {
        assert(events@.take(events@.len() as int) =~= events@);
        assert(before.take(before.len() as int) =~= before);
        lemma_in_order(before);
    }
}

} // verus!
