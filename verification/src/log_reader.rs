//! The log being viewed: its lines, how they are fetched (a local file or a
//! remote `tail`), which of them are kept, and the scroll position.
use vstd::prelude::*;
use vstd::string::*;
use crate::export::texts;
use crate::log_source::{LocationView, LogLocation, LogSource};
use crate::text::{decimal_string, decimal_text, join2, lines_of, text_lines};

verus! {

broadcast use vstd::string::group_string_axioms;

/// How many lines are read when a log is opened.
pub const OPEN_TAIL: usize = 100;

/// How many lines are read when a log is refreshed.
pub const REFRESH_TAIL: usize = 500;

/// An open log: where it comes from, its lines, and how far it is scrolled.
#[derive(Debug)]
pub struct ActiveLog {
    pub source: LogSource,
    pub lines: Vec<String>,
    pub scroll: u16,
}

impl ActiveLog {
    /// A log opened on `lines`, scrolled to the top.
    pub fn open(source: LogSource, lines: Vec<String>) -> (r: ActiveLog)
        ensures
            r.source == source,
            r.lines == lines,
            r.scroll == 0,
    {
        ActiveLog { source, lines, scroll: 0 }
    }

    /// Replaces the lines with freshly read ones and scrolls to the top.
    pub fn refresh(&mut self, lines: Vec<String>)
        ensures
            final(self).source == old(self).source,
            final(self).lines == lines,
            final(self).scroll == 0,
    {
        self.lines = lines;
        self.scroll = 0;
    }

    /// Scrolls up by `n` lines, stopping at the top.
    pub fn scroll_up(&mut self, n: u16)
        ensures
            final(self).source == old(self).source,
            final(self).lines == old(self).lines,
            final(self).scroll == if old(self).scroll >= n {
                (old(self).scroll - n) as u16
            } else {
                0
            },
    {
        self.scroll = self.scroll.saturating_sub(n);
    }

    /// Scrolls down by `n` lines, stopping at the largest position.
    pub fn scroll_down(&mut self, n: u16)
        ensures
            final(self).source == old(self).source,
            final(self).lines == old(self).lines,
            final(self).scroll == if old(self).scroll + n <= u16::MAX {
                (old(self).scroll + n) as u16
            } else {
                u16::MAX
            },
    {
        self.scroll = self.scroll.saturating_add(n);
    }

    /// Scrolls to the top.
    pub fn scroll_to_top(&mut self)
        ensures
            final(self).source == old(self).source,
            final(self).lines == old(self).lines,
            final(self).scroll == 0,
    {
        self.scroll = 0;
    }

    /// Scrolls to the last line: the line count, taken to 16 bits, less one
    /// (0 when that is 0).
    pub fn scroll_to_end(&mut self)
        ensures
            final(self).source == old(self).source,
            final(self).lines == old(self).lines,
            final(self).scroll == if old(self).lines@.len() % 65536 == 0 {
                0
            } else {
                (old(self).lines@.len() % 65536 - 1) as u16
            },
    {
        let len = self.lines.len();
        let total = len as u16;
        assert(total == len % 65536) by (bit_vector)
            requires
                total == len as u16,
        ;
        self.scroll = total.saturating_sub(1);
    }
}

/// Scrolling down and back up by the same amount returns to the same line
/// when the first move did not stop at the largest position.
pub proof fn lemma_scroll_round_trip(start: u16, n: u16)
    requires
        start + n <= u16::MAX,
    ensures
        ({
            let down = (start + n) as u16;
            (if down >= n {
                (down - n) as u16
            } else {
                0u16
            }) == start
        }),
{
}

// ---------------------------------------------------------------------------
// Fetching lines
// ---------------------------------------------------------------------------

/// How the lines of a log are fetched.
#[derive(Debug)]
pub enum LoadPlan {
    /// Read the last `tail` lines of a local file.
    ReadFile { path: String, tail: usize },
    /// Run a command on the connected remote host; its output lines are the log.
    RunRemote { command: String },
    /// A remote log with no connection open.
    NoConnection,
}

/// The command that prints the last `tail` lines of the remote file `path`.
pub open spec fn tail_command_text(tail: nat, path: Seq<char>) -> Seq<char> {
    "tail -n "@ + decimal_text(tail) + " "@ + path
}

/// Decides how to fetch the last `tail` lines of `source`, given whether a
/// remote connection is open.
pub fn load_plan(source: &LogSource, tail: usize, connected: bool) -> (r: LoadPlan)
    ensures
        match source.location@ {
            LocationView::Local => r matches LoadPlan::ReadFile { path, tail: t } && path@
                == source.path@ && t == tail,
            LocationView::Remote(_) => if connected {
                r matches LoadPlan::RunRemote { command } && command@ == tail_command_text(
                    tail as nat,
                    source.path@,
                )
            } else {
                r is NoConnection
            },
        },
{
    match &source.location {
        LogLocation::Local => LoadPlan::ReadFile { path: source.path.clone(), tail },
        LogLocation::Remote(_) => {
            if connected {
                let n = decimal_string(tail as u64);
                let a = join2("tail -n ", n.as_str());
                let b = join2(a.as_str(), " ");
                let command = join2(b.as_str(), source.path.as_str());
                LoadPlan::RunRemote { command }
            } else {
                LoadPlan::NoConnection
            }
        },
    }
}

/// The single line shown for a remote log when no connection is open.
pub open spec fn no_connection_text() -> Seq<char> {
    "Error: No SSH connection active for remote log"@
}

/// The lines shown for a remote log when no connection is open.
pub fn no_connection_lines() -> (r: Vec<String>)
    ensures
        texts(r@) == seq![no_connection_text()],
{
    let mut r: Vec<String> = Vec::new();
    r.push(String::from_str("Error: No SSH connection active for remote log"));
    proof {
        assert(texts(r@) =~= seq![no_connection_text()]);
    }
    r
}

/// The lines of a remote command's output; a failed command gives none.
pub fn remote_output_lines(output: Option<String>) -> (r: Vec<String>)
    ensures
        texts(r@) == match output {
            Some(o) => text_lines(o@),
            None => Seq::<Seq<char>>::empty(),
        },
{
    match output {
        Some(o) => lines_of(o.as_str()),
        None => {
            let r: Vec<String> = Vec::new();
            proof {
                assert(texts(r@) =~= Seq::<Seq<char>>::empty());
            }
            r
        },
    }
}

/// The last `n` lines of `all` (all of them when there are fewer).
pub open spec fn last_lines<T>(all: Seq<T>, n: nat) -> Seq<T> {
    if all.len() <= n {
        all
    } else {
        all.subrange(all.len() - n, all.len() as int)
    }
}

/// Keeps the last `n` lines read from a file.
pub fn tail_lines(all: Vec<String>, n: usize) -> (r: Vec<String>)
    ensures
        r@ == last_lines(all@, n as nat),
{
    let start = all.len().saturating_sub(n);
    let mut out: Vec<String> = Vec::new();
    let mut src = all;
    let ghost orig = src@;
    let mut rev: Vec<String> = Vec::new();
    while src.len() > start
        invariant
            start <= orig.len(),
            start <= src.len() <= orig.len(),
            start == if orig.len() >= n {
                orig.len() - n
            } else {
                0
            },
            src@ == orig.subrange(0, src.len() as int),
            rev.len() == orig.len() - src.len(),
            forall|i: int| 0 <= i < rev.len() ==> #[trigger] rev@[i] == orig[orig.len() - 1 - i],
        decreases src.len(),
    {
        let x = src.pop().unwrap();
        rev.push(x);
    }
    while rev.len() > 0
        invariant
            rev.len() + out.len() == orig.len() - start,
            start <= orig.len(),
            forall|i: int| 0 <= i < rev.len() ==> #[trigger] rev@[i] == orig[orig.len() - 1 - i],
            forall|i: int| 0 <= i < out.len() ==> #[trigger] out@[i] == orig[start + i],
        decreases rev.len(),
    {
        let x = rev.pop().unwrap();
        out.push(x);
    }
    proof {
        assert(out@ =~= last_lines(orig, n as nat));
    }
    out
}

} // verus!
