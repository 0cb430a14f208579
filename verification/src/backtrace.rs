//! The frame-pointer backtrace: the decisions of the stack walk, and the
//! report that is logged of a walk's result.
//!
//! The walk reads memory through frame pointers, which verified code cannot
//! do; `FrameWalk` holds the walk's state and says, step by step, which
//! frame to read next, and the caller performs the read and hands back what
//! it found. Each frame holds the caller's frame pointer at its address and
//! the return address one word above it.
use crate::radix;
use vstd::prelude::*;
use vstd::string::StringExecFns;

verus! {

/// How many return addresses a backtrace holds.
pub const BACKTRACE_DEPTH: usize = 64;

/// Frame pointers below this address end the walk.
pub const LOWEST_FRAME: u64 = 1024 * 64;

/// Return addresses above this one end the report.
pub const HIGHEST_REPORTED_ADDRESS: u64 = 1 << 40;

/// What the walk needs next.
#[derive(PartialEq, Eq, Structural, Debug, Clone, Copy)]
pub enum WalkStep {
    /// Read the caller's frame pointer stored at `frame`, to skip the frame
    /// of the function that started the walk.
    SkipFrame { frame: u64 },
    /// Read the frame at `frame`: the return address above it and the
    /// caller's frame pointer stored at it.
    ReadFrame { frame: u64 },
    /// The walk is over.
    Done,
}

/// Whether the frame pointer `frame`, reached after `prev`, ends the walk:
/// a null or low pointer, or one that repeats the previous frame.
pub open spec fn ends_walk(prev: u64, frame: u64) -> bool {
    prev == frame || frame == 0 || frame < LOWEST_FRAME
}

/// The state of a stack walk.
pub struct FrameWalk {
    trace: Vec<u64>,
    depth: usize,
    prev: u64,
    frame: u64,
    skipped: bool,
}

impl FrameWalk {
    /// The return addresses recorded so far; zero where none was recorded.
    pub closed spec fn trace(&self) -> Seq<u64> {
        self.trace@
    }

    /// How many return addresses have been recorded.
    pub closed spec fn depth(&self) -> nat {
        self.depth as nat
    }

    /// The frame pointer the walk stands at.
    pub closed spec fn frame(&self) -> u64 {
        self.frame
    }

    /// The frame pointer the walk stood at before.
    pub closed spec fn prev(&self) -> u64 {
        self.prev
    }

    /// Whether the starting frame has been skipped.
    pub closed spec fn skipped(&self) -> bool {
        self.skipped
    }

    /// The shape every walk keeps: a full-length trace, zero beyond the
    /// recorded part.
    pub closed spec fn wf(&self) -> bool {
        &&& self.trace@.len() == BACKTRACE_DEPTH
        &&& self.depth <= BACKTRACE_DEPTH
        &&& forall|i: int| self.depth <= i < BACKTRACE_DEPTH ==> self.trace@[i] == 0
    }

    /// An upper bound on the reads the walk still asks for: the skip of the
    /// starting frame while it is owed, and one read per free slot of the
    /// trace.
    pub open spec fn steps_left(&self) -> nat {
        (if self.skipped() {
            0nat
        } else {
            1nat
        }) + (BACKTRACE_DEPTH - self.depth()) as nat
    }

    /// The step that the state calls for.
    pub open spec fn step_spec(&self) -> WalkStep {
        if !self.skipped() {
            if self.frame() == 0 {
                WalkStep::Done
            } else {
                WalkStep::SkipFrame { frame: self.frame() }
            }
        } else if self.depth() == BACKTRACE_DEPTH || ends_walk(self.prev(), self.frame()) {
            WalkStep::Done
        } else {
            WalkStep::ReadFrame { frame: self.frame() }
        }
    }

    /// Starts a walk at the frame pointer `frame` of the caller.
    pub fn start(frame: u64) -> (w: Self)
        ensures
            w.wf(),
            w.trace() == Seq::new(BACKTRACE_DEPTH as nat, |i: int| 0u64),
            w.depth() == 0,
            w.frame() == frame,
            w.prev() == 0,
            !w.skipped(),
    {
        let mut trace: Vec<u64> = Vec::new();
        let mut i: usize = 0;
        while i < BACKTRACE_DEPTH
            invariant
                i <= BACKTRACE_DEPTH,
                trace@ == Seq::new(i as nat, |j: int| 0u64),
            decreases BACKTRACE_DEPTH - i,
        {
            trace.push(0);
            i = i + 1;
            assert(trace@ =~= Seq::new(i as nat, |j: int| 0u64));
        }
        FrameWalk { trace, depth: 0, prev: 0, frame, skipped: false }
    }

    /// The step that the walk needs next.
    pub fn next_step(&self) -> (s: WalkStep)
        requires
            self.wf(),
        ensures
            s == self.step_spec(),
            s matches WalkStep::ReadFrame { frame } ==> frame >= LOWEST_FRAME && frame
                == self.frame() && frame != self.prev() && self.depth() < BACKTRACE_DEPTH,
            s matches WalkStep::SkipFrame { frame } ==> frame != 0 && frame == self.frame()
                && !self.skipped(),
            self.skipped() && self.frame() < LOWEST_FRAME ==> s is Done,
    {
        if !self.skipped {
            if self.frame == 0 {
                WalkStep::Done
            } else {
                WalkStep::SkipFrame { frame: self.frame }
            }
        } else if self.depth == BACKTRACE_DEPTH || self.prev == self.frame || self.frame == 0
            || self.frame < LOWEST_FRAME {
            WalkStep::Done
        } else {
            WalkStep::ReadFrame { frame: self.frame }
        }
    }

    /// Hands the walk the caller's frame pointer read at the starting
    /// frame, after a `SkipFrame` step.
    pub fn skip_to(&mut self, link: u64)
        requires
            old(self).wf(),
            old(self).step_spec() is SkipFrame,
        ensures
            final(self).wf(),
            final(self).trace() == old(self).trace(),
            final(self).depth() == old(self).depth(),
            final(self).prev() == old(self).prev(),
            final(self).frame() == link,
            final(self).skipped(),
            final(self).steps_left() < old(self).steps_left(),
    {
        self.frame = link;
        self.skipped = true;
    }

    /// Hands the walk what it read of the frame of a `ReadFrame` step: the
    /// return address `ret` above the frame and the caller's frame pointer
    /// `link` stored at it. The return address is recorded and the walk
    /// moves to the caller's frame.
    pub fn record(&mut self, ret: u64, link: u64)
        requires
            old(self).wf(),
            old(self).step_spec() is ReadFrame,
        ensures
            final(self).wf(),
            final(self).trace() == old(self).trace().update(old(self).depth() as int, ret),
            final(self).depth() == old(self).depth() + 1,
            final(self).prev() == old(self).frame(),
            final(self).frame() == link,
            final(self).skipped(),
            final(self).steps_left() < old(self).steps_left(),
    {
        self.trace.set(self.depth, ret);
        self.prev = self.frame;
        self.frame = link;
        self.depth = self.depth + 1;
    }

    /// The backtrace: the return addresses recorded, zero beyond them.
    pub fn into_trace(self) -> (t: Vec<u64>)
        requires
            self.wf(),
        ensures
            t@ == self.trace(),
            t@.len() == BACKTRACE_DEPTH,
            forall|i: int| self.depth() <= i < BACKTRACE_DEPTH ==> t@[i] == 0,
    {
        self.trace
    }
}

/// A walk that is not over has a read left to ask for, so that, as each
/// read takes one away, every walk ends after at most `BACKTRACE_DEPTH + 1`
/// reads; and a walk never asks to read a frame that would end it.
pub proof fn walk_ends(w: FrameWalk)
    requires
        w.wf(),
    ensures
        !(w.step_spec() is Done) ==> w.steps_left() > 0,
        w.steps_left() <= BACKTRACE_DEPTH + 1,
        w.step_spec() is ReadFrame ==> !ends_walk(w.prev(), w.frame()) && w.depth()
            < BACKTRACE_DEPTH,
{
}

/// The walk never asks to read memory at a null frame pointer, nor at any
/// frame below `LOWEST_FRAME`, nor the frame it has just read: once the
/// starting frame is skipped, a frame pointer of zero, or any other below
/// `LOWEST_FRAME`, ends the walk, whatever frame came before it.
pub proof fn walk_reads_no_low_frame(w: FrameWalk)
    requires
        w.wf(),
    ensures
        w.step_spec() matches WalkStep::ReadFrame { frame } ==> frame >= LOWEST_FRAME && frame
            != w.prev(),
        w.step_spec() matches WalkStep::SkipFrame { frame } ==> frame != 0,
        w.skipped() && w.frame() == 0 ==> w.step_spec() is Done,
        w.skipped() && w.frame() < LOWEST_FRAME ==> w.step_spec() is Done,
        !w.skipped() && w.frame() == 0 ==> w.step_spec() is Done,
{
}

/// The report lists every address of the trace up to its first zero or
/// out-of-range address, however long the trace is, each on a line of its
/// own in trace order, between the `addr2line` command and a blank line.
pub proof fn report_lists_the_whole_run(binary: Seq<char>, trace: Seq<u64>, n: int)
    requires
        0 <= n <= trace.len(),
        forall|j: int| 0 <= j < n ==> is_reported(#[trigger] trace[j]),
        n == trace.len() || !is_reported(trace[n]),
    ensures
        report_text(binary, trace) == "backtrace: run \n\naddr2line -e "@ + binary + address_lines(
            trace.take(n),
        ) + "\n\n"@,
{
    lemma_reported_prefix(trace, n);
}

/// Each address adds exactly its own line to the report's lines, after
/// those of the addresses before it.
pub proof fn address_lines_append(addrs: Seq<u64>, addr: u64)
    ensures
        address_lines(addrs.push(addr)) == address_lines(addrs) + " \\\n  0x"@ + radix::digits(
            addr as nat,
            16,
            false,
        ),
{
    assert(addrs.push(addr).drop_last() =~= addrs);
}

/// Whether the report lists the return address `addr`.
pub open spec fn is_reported(addr: u64) -> bool {
    addr != 0 && addr <= HIGHEST_REPORTED_ADDRESS
}

/// The addresses that the report lists: the trace up to its first zero or
/// out-of-range address.
pub open spec fn reported_prefix(trace: Seq<u64>) -> Seq<u64>
    decreases trace.len(),
{
    if trace.len() == 0 || !is_reported(trace[0]) {
        seq![]
    } else {
        seq![trace[0]] + reported_prefix(trace.drop_first())
    }
}

/// The report's lines of the addresses `addrs`: each on a line of its
/// own, continued from the line before by a backslash.
pub open spec fn address_lines(addrs: Seq<u64>) -> Seq<char>
    decreases addrs.len(),
{
    if addrs.len() == 0 {
        seq![]
    } else {
        address_lines(addrs.drop_last()) + " \\\n  0x"@ + radix::digits(
            addrs.last() as nat,
            16,
            false,
        )
    }
}

/// The report of a backtrace of the program `binary`: an `addr2line`
/// command line that resolves the reported addresses.
pub open spec fn report_text(binary: Seq<char>, trace: Seq<u64>) -> Seq<char> {
    "backtrace: run \n\naddr2line -e "@ + binary + address_lines(reported_prefix(trace))
        + "\n\n"@
}

proof fn lemma_reported_prefix(trace: Seq<u64>, n: int)
    requires
        0 <= n <= trace.len(),
        forall|j: int| 0 <= j < n ==> is_reported(#[trigger] trace[j]),
        n == trace.len() || !is_reported(trace[n]),
    ensures
        reported_prefix(trace) == trace.take(n),
    decreases n,
{
    if n == 0 {
        assert(trace.take(0) =~= seq![]);
    } else {
        let rest = trace.drop_first();
        assert forall|j: int| 0 <= j < n - 1 implies is_reported(#[trigger] rest[j]) by {
            assert(rest[j] == trace[j + 1]);
        }
        if n - 1 < rest.len() {
            assert(rest[n - 1] == trace[n]);
        }
        lemma_reported_prefix(rest, n - 1);
        assert(trace.take(n) =~= seq![trace[0]] + rest.take(n - 1));
    }
}

/// The report of the backtrace `trace` of the program `binary`.
pub fn backtrace_report(binary: &str, trace: &[u64]) -> (s: String)
    ensures
        s@ == report_text(binary@, trace@),
{
    let mut out = String::from_str("backtrace: run \n\naddr2line -e ");
    out.append(binary);
    let ghost head = out@;
    let mut i: usize = 0;
    while i < trace.len()
        invariant_except_break
            i <= trace.len(),
            out@ == head + address_lines(trace@.take(i as int)),
            forall|j: int| 0 <= j < i ==> is_reported(#[trigger] trace@[j]),
        ensures
            i <= trace.len(),
            out@ == head + address_lines(trace@.take(i as int)),
            forall|j: int| 0 <= j < i ==> is_reported(#[trigger] trace@[j]),
            i == trace.len() || !is_reported(trace@[i as int]),
        decreases trace.len() - i,
    {
        let addr = trace[i];
        if addr == 0 || addr > HIGHEST_REPORTED_ADDRESS {
            break;
        }
        let digits = radix::digits_string(addr as u128, 16, false);
        out.append(" \\\n  0x");
        out.append(digits.as_str());
        assert(trace@.take(i + 1).drop_last() =~= trace@.take(i as int));
        assert(out@ =~= head + address_lines(trace@.take(i + 1)));
        i = i + 1;
    }
    proof {
        lemma_reported_prefix(trace@, i as int);
    }
    out.append("\n\n");
    assert(out@ =~= report_text(binary@, trace@));
    out
}

} // verus!
