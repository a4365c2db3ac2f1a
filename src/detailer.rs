//! The detailer: a level-filtered buffer of trace lines, indented by the
//! scopes that are open, timestamped when timing is on, and handed back as
//! one record when flushed.

use std::sync::atomic::{AtomicUsize, Ordering};
use std::sync::Arc;
use std::time::Instant;
use vstd::prelude::*;
use crate::level::{filter_level, passes, Level, LevelFilter};
use crate::render::{entry, push_entry, trim_end, trimmed};

verus! {

/// Whether detail lines carry the microseconds elapsed since the start.
#[derive(Clone, Copy, Debug, PartialEq, Eq)]
pub enum TimingSetting {
    /// Prefix each detail with the time elapsed since the start.
    WithTiming,
    /// Write details without timestamps.
    WithoutTiming,
}

/// An event or workflow detail logger.
///
/// Lines are kept in the order they were logged until the detailer is
/// flushed, which hands back the whole trace as one record and starts a new
/// cycle.
pub struct Detailer {
    level: LevelFilter,
    accumulated: String,
    current_indentation: Arc<AtomicUsize>,
    start: Option<Instant>,
    last_stamp: u64,
    stamps: Ghost<Seq<u64>>,
}

/// Holds one level of indentation on the detailer it came from for as long
/// as it lives.
pub struct DetailScopeGuard {
    level: Arc<AtomicUsize>,
}

/// The severity a flushed record is emitted at: the threshold's own, or
/// `Info` for a threshold that names none.
pub open spec fn record_level(f: LevelFilter) -> Level {
    match filter_level(f) {
        Some(l) => l,
        None => Level::Info,
    }
}

impl Detailer {
    /// The text accumulated since the last reset.
    pub closed spec fn buffer(&self) -> Seq<char> {
        self.accumulated@
    }

    /// The most verbose severity that is kept.
    pub closed spec fn threshold(&self) -> LevelFilter {
        self.level
    }

    /// Whether lines are timestamped.
    pub closed spec fn timed(&self) -> bool {
        self.start is Some
    }

    /// The timestamps written since the last reset, in order.
    pub closed spec fn stamps(&self) -> Seq<u64> {
        self.stamps@
    }

    /// The latest timestamp written since the last reset (zero before any).
    pub closed spec fn last_stamp(&self) -> u64 {
        self.last_stamp
    }

    /// The shared scope-depth counter that this detailer indents by.
    pub closed spec fn depth_handle(&self) -> Arc<AtomicUsize> {
        self.current_indentation
    }

    /// The timestamps of this cycle never go down, and none is above the
    /// latest one.
    pub closed spec fn wf(&self) -> bool {
        &&& forall|i: int, j: int|
            0 <= i <= j < self.stamps@.len() ==> #[trigger] self.stamps@[i] <= #[trigger] self.stamps@[j]
        &&& forall|i: int| 0 <= i < self.stamps@.len() ==> #[trigger] self.stamps@[i] <= self.last_stamp
    }

    /// The timestamp that a line gets when the clock reads `elapsed`: the
    /// reading, but never below the latest one written; none when timing is
    /// off.
    pub open spec fn next_stamp(&self, elapsed: u64) -> Option<u64> {
        if self.timed() {
            Some(
                if elapsed < self.last_stamp() {
                    self.last_stamp()
                } else {
                    elapsed
                },
            )
        } else {
            None
        }
    }

    /// The record that a flush of this state emits: the trimmed text at the
    /// record severity, or nothing when only white space is buffered.
    pub open spec fn pending(&self) -> Option<(Level, Seq<char>)> {
        let text = trim_end(self.buffer());
        if text.len() == 0 {
            None
        } else {
            Some((record_level(self.threshold()), text))
        }
    }

    /// `post` is `pre` with one line appended at depth `depth`, timestamped
    /// from the clock reading `elapsed`.
    pub open spec fn appended(pre: Detailer, post: Detailer, depth: usize, elapsed: u64, msg: Seq<char>) -> bool {
        let stamp = pre.next_stamp(elapsed);
        &&& post.wf()
        &&& post.buffer() == pre.buffer() + entry(depth as nat, stamp, msg)
        &&& post.threshold() == pre.threshold()
        &&& post.timed() == pre.timed()
        &&& post.depth_handle() == pre.depth_handle()
        &&& post.stamps() == match stamp {
            Some(t) => pre.stamps().push(t),
            None => pre.stamps(),
        }
        &&& post.last_stamp() == match stamp {
            Some(t) => t,
            None => pre.last_stamp(),
        }
    }

    /// `post` is `pre` after logging `msg` at severity `level`: unchanged
    /// when the threshold filters the line out, else with the line appended
    /// at the depth and clock reading found at the time.
    pub open spec fn logged(pre: Detailer, post: Detailer, level: Level, msg: Seq<char>) -> bool {
        if passes(level, pre.threshold()) {
            exists|depth: usize, elapsed: u64| #[trigger] Self::appended(pre, post, depth, elapsed, msg)
        } else {
            post == pre
        }
    }

    /// `post` is `pre` with its buffer and timestamps cleared.
    pub open spec fn cleared(pre: Detailer, post: Detailer) -> bool {
        &&& post.wf()
        &&& post.buffer() == Seq::<char>::empty()
        &&& post.stamps() == Seq::<u64>::empty()
        &&& post.last_stamp() == 0
        &&& post.threshold() == pre.threshold()
        &&& post.timed() == pre.timed()
        &&& post.depth_handle() == pre.depth_handle()
    }

    /// Create a new event Detailer logger.
    ///
    /// When flushed it hands back its accumulated input.
    pub fn new(level: LevelFilter, timing_setting: TimingSetting) -> (r: Detailer)
        ensures
            r.wf(),
            r.buffer() == Seq::<char>::empty(),
            r.stamps() == Seq::<u64>::empty(),
            r.last_stamp() == 0,
            r.threshold() == level,
            r.timed() == (timing_setting == TimingSetting::WithTiming),
    {
        Detailer {
            level,
            accumulated: String::new(),
            current_indentation: Arc::new(AtomicUsize::new(0)),
            start: match timing_setting {
                TimingSetting::WithTiming => Some(Instant::now()),
                TimingSetting::WithoutTiming => None,
            },
            last_stamp: 0,
            stamps: Ghost(Seq::empty()),
        }
    }

    /// See what's currently accumulated
    pub fn peek(&self) -> (r: &str)
        ensures
            r@ == self.buffer(),
    {
        self.accumulated.as_str()
    }

    /// Whether a line of severity `level` would be kept. Callers can test
    /// this before they format a message.
    pub fn enabled(&self, level: Level) -> (r: bool)
        ensures
            r == passes(level, self.threshold()),
    {
        level.passes(self.level)
    }

    /// Remove the contents and reset the timer (if enabled)
    pub fn reset(&mut self)
        ensures
            Self::cleared(*old(self), *final(self)),
    {
        self.accumulated = String::new();
        if self.start.is_some() {
            self.start = Some(Instant::now());
        }
        self.last_stamp = 0;
        self.stamps = Ghost(Seq::empty());
    }

    /// Hand back the trimmed contents as one record, if there is any text,
    /// and clear them.
    pub fn flush(&mut self) -> (r: Option<(Level, String)>)
        ensures
            Self::cleared(*old(self), *final(self)),
            match old(self).pending() {
                None => r is None,
                Some((level, text)) => r matches Some((l, s)) && l == level && s@ == text,
            },
    {
        let to_flush = trimmed(self.accumulated.as_str());
        let r = if to_flush.unicode_len() > 0 {
            let level = match self.level.to_level() {
                Some(l) => l,
                None => Level::Info,
            };
            Some((level, to_flush))
        } else {
            None
        };
        self.reset();
        r
    }

    /// Indent output one more level as long as the scope guard exists
    ///
    /// The scope's name is logged first, at the threshold's own severity,
    /// so it shows unless the detailer is off.
    pub fn scope(&mut self, scope_name: &str) -> (g: DetailScopeGuard)
        requires
            old(self).wf(),
        ensures
            match filter_level(old(self).threshold()) {
                Some(l) => Self::logged(*old(self), *final(self), l, scope_name@),
                None => *final(self) == *old(self),
            },
            final(self).wf(),
            g.handle() == old(self).depth_handle(),
    {
        if let Some(level) = self.level.to_level() {
            self.log(level, scope_name);
        }
        DetailScopeGuard::new(self.current_indentation.clone())
    }

    /// Appends one line at scope depth `depth`, timestamped from the clock
    /// reading `elapsed` when timing is on. The severity filter is not
    /// consulted.
    pub fn append(&mut self, depth: usize, elapsed: u64, message: &str)
        requires
            old(self).wf(),
        ensures
            Self::appended(*old(self), *final(self), depth, elapsed, message@),
    {
        let stamp = if self.start.is_some() {
            let t = if elapsed < self.last_stamp {
                self.last_stamp
            } else {
                elapsed
            };
            self.last_stamp = t;
            self.stamps = Ghost(self.stamps@.push(t));
            Some(t)
        } else {
            None
        };
        push_entry(&mut self.accumulated, depth, stamp, message);
    }

    /// log a line, if the level is enabled.
    pub fn log(&mut self, level: Level, message: &str)
        requires
            old(self).wf(),
        ensures
            final(self).wf(),
            Self::logged(*old(self), *final(self), level, message@),
            final(self).buffer() != old(self).buffer() <==> passes(level, old(self).threshold()),
    {
        if level.passes(self.level) {
            let depth = self.current_indentation.load(Ordering::Relaxed);
            let elapsed = match &self.start {
                Some(start) => micros_since(start),
                None => 0,
            };
            let ghost pre = *self;
            self.append(depth, elapsed, message);
            assert(Self::appended(pre, *self, depth, elapsed, message@));
            assert(self.buffer().len() > pre.buffer().len());
        }
    }

    /// log a line
    pub fn info(&mut self, message: &str)
        requires
            old(self).wf(),
        ensures
            final(self).wf(),
            Self::logged(*old(self), *final(self), Level::Info, message@),
    {
        self.log(Level::Info, message)
    }

    /// log a line
    pub fn trace(&mut self, message: &str)
        requires
            old(self).wf(),
        ensures
            final(self).wf(),
            Self::logged(*old(self), *final(self), Level::Trace, message@),
    {
        self.log(Level::Trace, message)
    }

    /// log a line
    pub fn debug(&mut self, message: &str)
        requires
            old(self).wf(),
        ensures
            final(self).wf(),
            Self::logged(*old(self), *final(self), Level::Debug, message@),
    {
        self.log(Level::Debug, message)
    }

    /// log a line
    pub fn warn(&mut self, message: &str)
        requires
            old(self).wf(),
        ensures
            final(self).wf(),
            Self::logged(*old(self), *final(self), Level::Warn, message@),
    {
        self.log(Level::Warn, message)
    }

    /// log a line
    pub fn error(&mut self, message: &str)
        requires
            old(self).wf(),
        ensures
            final(self).wf(),
            Self::logged(*old(self), *final(self), Level::Error, message@),
    {
        self.log(Level::Error, message)
    }
}

/// The timestamps written in one cycle never go down.
pub proof fn lemma_stamps_non_decreasing(d: Detailer)
    requires
        d.wf(),
    ensures
        forall|i: int, j: int|
            0 <= i <= j < d.stamps().len() ==> #[trigger] d.stamps()[i] <= #[trigger] d.stamps()[j],
{
}

/// After a flush (or a reset) there is nothing to emit, so a second flush in
/// a row emits no record.
pub proof fn lemma_flush_twice_emits_once(pre: Detailer, post: Detailer)
    requires
        Detailer::cleared(pre, post),
    ensures
        post.pending() is None,
{
    assert(trim_end(post.buffer()) =~= Seq::<char>::empty());
}

/// A detailer that is off keeps nothing: logging leaves it as it was.
pub proof fn lemma_disabled_logs_nothing(pre: Detailer, post: Detailer, level: Level, msg: Seq<char>)
    requires
        pre.threshold() == LevelFilter::Off,
        Detailer::logged(pre, post, level, msg),
    ensures
        post == pre,
        post.buffer().len() == pre.buffer().len(),
{
}

/// The whole microseconds since `start`, cut to 64 bits.
fn micros_since(start: &Instant) -> u64 {
    let micros = start.elapsed().as_micros();
    #[verifier::truncate]
    (micros as u64)
}

impl DetailScopeGuard {
    /// The depth counter that this guard holds a level on.
    pub closed spec fn handle(&self) -> Arc<AtomicUsize> {
        self.level
    }

    /// Enter one level deeper on the counter `level` until the guard drops.
    pub fn new(level: Arc<AtomicUsize>) -> (r: Self)
        ensures
            r.handle() == level,
    {
        level.fetch_add(1, Ordering::Relaxed);
        Self { level }
    }
}

impl Drop for DetailScopeGuard {
    /// Gives the level back. Relies on `AtomicUsize::fetch_sub`, which takes
    /// one off the counter and neither panics nor blocks; the call is made
    /// here unverified because drop may not unwind and the std contract of
    /// `fetch_sub` does not promise that.
    #[verifier::external_body]
    fn drop(&mut self)
        opens_invariants none
        no_unwind
    {
        self.level.fetch_sub(1, Ordering::Relaxed);
    }
}

} // verus!
