//! What holds of every key-press log, however it came about.
//!
//! Each statement is about the model in [`crate::model`]; the tracker's methods
//! are tied to that model by their contracts.

use vstd::prelude::*;
use crate::model::{age, capped, younger_than, PressLog, MAX_KEY_PRESSES};

verus! {

/// No two consecutive instants of `times` are further apart than `timeout`.
pub open spec fn steady(times: Seq<nat>, timeout: nat) -> bool {
    forall|i: int| 0 < i < times.len() ==> age(#[trigger] times[i], times[i - 1]) <= timeout
}

/// The `count` instants before `now` that lie `step` apart, the latest of them
/// `step` before `now`, latest first.
pub open spec fn evenly_spaced(now: nat, step: nat, count: nat) -> Seq<nat> {
    Seq::new(count, |i: int| (now - (i + 1) * step) as nat)
}

/// One key press: the new timestamp is at the front, what follows it is a prefix
/// of the surviving entries in their old order, and the log stays within its
/// capacity and keeps its timeout.  While there is room nothing is cut off, so
/// entries older than the timeout stay as long as the front entry is not.
pub proof fn lemma_press_goes_to_front(log: PressLog, now: nat)
    ensures
        log.press(now).timeout == log.timeout,
        log.press(now).within_capacity(),
        log.press(now).times.len() == capped(log.surviving(now).len() + 1),
        log.press(now).times[0] == now,
        log.press(now).times.is_prefix_of(seq![now] + log.surviving(now)),
        log.surviving(now).len() < MAX_KEY_PRESSES ==> log.press(now).times == seq![now]
            + log.surviving(now),
{
}

/// The log never outgrows its capacity: any number of key presses leaves a log
/// that was within capacity within capacity.
pub proof fn lemma_presses_keep_capacity(log: PressLog, times: Seq<nat>)
    requires
        log.within_capacity(),
    ensures
        log.press_all(times).within_capacity(),
    decreases times.len(),
{
    if times.len() > 0 {
        lemma_presses_keep_capacity(log, times.drop_last());
        lemma_press_goes_to_front(log.press_all(times.drop_last()), times.last());
    }
}

/// Entries are never reordered.  After any sequence of key presses, reading the
/// log from front to back gives the presses from the most recent one backwards,
/// without a gap: the log is a prefix of the whole history, newest first.  In
/// particular its front is the latest press.
pub proof fn lemma_log_is_newest_first(log: PressLog, times: Seq<nat>)
    ensures
        log.press_all(times).timeout == log.timeout,
        log.press_all(times).times.is_prefix_of(times.reverse() + log.times),
        times.len() > 0 ==> log.press_all(times).times.len() > 0 && log.press_all(
            times,
        ).times[0] == times.last(),
    decreases times.len(),
{
    let history = times.reverse() + log.times;
    if times.len() == 0 {
        assert(log.times =~= history.subrange(0, log.times.len() as int));
    } else {
        let earlier = times.drop_last();
        let before = log.press_all(earlier);
        let after = before.press(times.last());
        lemma_log_is_newest_first(log, earlier);
        lemma_press_goes_to_front(before, times.last());
        let earlier_history = earlier.reverse() + log.times;
        assert(history =~= seq![times.last()] + earlier_history);
        assert forall|i: int| 0 <= i < after.times.len() implies after.times[i] == history[i] by {
            if i > 0 {
                assert(after.times[i] == before.times[i - 1]);
                assert(before.times[i - 1] == earlier_history[i - 1]);
            }
        }
        assert(after.times =~= history.subrange(0, after.times.len() as int));
    }
}

/// Typing without a pause longer than the timeout never resets the log.  After
/// `n` such key presses on a fresh tracker the log holds `n` entries, or its
/// capacity if `n` is larger: the latest presses, newest first.
pub proof fn lemma_steady_typing_fills_log(timeout: nat, times: Seq<nat>)
    requires
        steady(times, timeout),
    ensures
        PressLog::fresh(timeout).press_all(times).times.len() == capped(times.len()),
        PressLog::fresh(timeout).press_all(times).times == times.reverse().take(
            capped(times.len()) as int,
        ),
    decreases times.len(),
{
    let log = PressLog::fresh(timeout).press_all(times);
    if times.len() > 0 {
        let earlier = times.drop_last();
        let before = PressLog::fresh(timeout).press_all(earlier);
        assert(steady(earlier, timeout)) by {
            assert forall|i: int| 0 < i < earlier.len() implies age(
                #[trigger] earlier[i],
                earlier[i - 1],
            ) <= timeout by {
                assert(earlier[i] == times[i]);
            }
        }
        lemma_steady_typing_fills_log(timeout, earlier);
        lemma_log_is_newest_first(PressLog::fresh(timeout), earlier);
        if earlier.len() > 0 {
            assert(before.times[0] == times[times.len() - 2]);
            assert(age(times[times.len() - 1], times[times.len() - 2]) <= timeout);
        }
        assert(!before.is_stale(times.last()));
        lemma_press_goes_to_front(before, times.last());
    }
    lemma_log_is_newest_first(PressLog::fresh(timeout), times);
    assert(times.reverse() + Seq::<nat>::empty() =~= times.reverse());
    assert(log.times =~= times.reverse().take(capped(times.len()) as int));
}

/// A pause longer than the timeout starts the log over: whatever the log held,
/// after a key press at `first` and the next one at `second`, more than the
/// timeout later, it holds the second press and nothing else.
pub proof fn lemma_pause_resets_log(log: PressLog, first: nat, second: nat)
    requires
        age(second, first) > log.timeout,
    ensures
        log.press(first).press(second).times == seq![second],
{
    lemma_press_goes_to_front(log, first);
    assert(log.press(first).is_stale(second));
    assert(log.press(first).press(second).times =~= seq![second]);
}

/// Filtering keeps a sequence as it is when every element passes the test.
proof fn lemma_filter_keeps_all(s: Seq<nat>, pred: spec_fn(nat) -> bool)
    requires
        forall|i: int| 0 <= i < s.len() ==> pred(#[trigger] s[i]),
    ensures
        s.filter(pred) == s,
    decreases s.len(),
{
    reveal(Seq::filter);
    if s.len() > 0 {
        lemma_filter_keeps_all(s.drop_last(), pred);
        assert(s.drop_last().push(s.last()) =~= s);
    }
}

/// The window is open at its far end.  Of `count` key presses that lie `step`
/// apart, the latest of them `step` ago, a window that reaches a little beyond
/// the oldest one holds them all, and a window that falls a little short of the
/// oldest one holds all but that one.  So does the window that reaches the
/// oldest press exactly: a press whose age equals the window's length is outside.
pub proof fn lemma_evenly_spaced_presses_in_window(
    log: PressLog,
    now: nat,
    step: nat,
    slack: nat,
    count: nat,
)
    requires
        0 < slack < step,
        count * step <= now,
        log.times == evenly_spaced(now, step, count),
    ensures
        log.within(now, count * step + slack).len() == count,
        count > 0 ==> log.within(now, (count * step - slack) as nat).len() == count - 1,
        count > 0 ==> log.within(now, count * step).len() == count - 1,
{
    let times = log.times;
    assert forall|i: int| 0 <= i < count implies {
        &&& age(now, #[trigger] times[i]) == (i + 1) * step
        &&& age(now, times[i]) <= count * step
        &&& i < count - 1 ==> age(now, times[i]) <= count * step - step
    } by {
        assert((i + 1) * step <= count * step) by (nonlinear_arith)
            requires
                0 <= i < count,
                0 < step,
        ;
        if i < count - 1 {
            assert((i + 1) * step <= count * step - step) by (nonlinear_arith)
                requires
                    0 <= i < count - 1,
                    0 < step,
            ;
        }
    }
    lemma_filter_keeps_all(times, younger_than(now, count * step + slack));
    if count > 0 {
        let short = younger_than(now, (count * step - slack) as nat);
        let exact = younger_than(now, count * step);
        assert(step <= count * step) by (nonlinear_arith)
            requires
                0 < count,
        ;
        assert(age(now, times.last()) == count * step);
        assert(!short(times.last()) && !exact(times.last()));
        lemma_filter_keeps_all(times.drop_last(), short);
        lemma_filter_keeps_all(times.drop_last(), exact);
        assert(times.filter(short) == times.drop_last() && times.filter(exact)
            == times.drop_last()) by {
            reveal(Seq::filter);
        }
    }
}

/// A window of length zero holds no key press.
pub proof fn lemma_empty_window(log: PressLog, now: nat)
    ensures
        log.within(now, 0).len() == 0,
{
    log.times.lemma_all_neg_filter_empty(younger_than(now, 0));
}

} // verus!
