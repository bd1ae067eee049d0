//! The in-memory log: the latest lines the watcher logged.
use vstd::prelude::*;
use crate::text::{views, join, join_seq};

verus! {

/// How many lines the log keeps.
pub const LOG_CAPACITY: usize = 2000;

/// The log after a line is added: the line at the end, the oldest lines dropped
/// beyond the capacity.
pub open spec fn log_push(s: Seq<Seq<char>>, line: Seq<char>) -> Seq<Seq<char>> {
    let t = s.push(line);
    if t.len() > LOG_CAPACITY {
        t.subrange(t.len() - LOG_CAPACITY, t.len() as int)
    } else {
        t
    }
}

/// The log after adding lines in order.
pub open spec fn log_push_all(s: Seq<Seq<char>>, lines: Seq<Seq<char>>) -> Seq<Seq<char>>
    decreases lines.len(),
{
    if lines.len() == 0 {
        s
    } else {
        log_push(log_push_all(s, lines.drop_last()), lines.last())
    }
}

/// The last `n` lines of `s` (all of them when there are fewer).
pub open spec fn last_lines(s: Seq<Seq<char>>, n: nat) -> Seq<Seq<char>> {
    if s.len() > n { s.subrange(s.len() - n, s.len() as int) } else { s }
}

/// Starting from an empty log, the log holds exactly the last 2000 lines added,
/// in the order they were added.
pub proof fn lemma_log_keeps_latest(lines: Seq<Seq<char>>)
    ensures
        log_push_all(seq![], lines) == last_lines(lines, LOG_CAPACITY as nat),
    decreases lines.len(),
{
    if lines.len() > 0 {
        lemma_log_keeps_latest(lines.drop_last());
        let prev = last_lines(lines.drop_last(), LOG_CAPACITY as nat);
        assert(log_push(prev, lines.last()) =~= last_lines(lines, LOG_CAPACITY as nat));
    } else {
        assert(last_lines(lines, LOG_CAPACITY as nat) =~= lines);
    }
}

/// The latest log lines, at most 2000.
pub struct LogBuffer {
    lines: Vec<String>,
}

impl View for LogBuffer {
    type V = Seq<Seq<char>>;

    closed spec fn view(&self) -> Seq<Seq<char>> {
        views(self.lines@)
    }
}

impl LogBuffer {
    #[verifier::type_invariant]
    closed spec fn bounded(self) -> bool {
        self.lines@.len() <= LOG_CAPACITY
    }

    /// An empty log.
    pub fn new() -> (r: Self)
        ensures
            r@ == Seq::<Seq<char>>::empty(),
    {
        let r = LogBuffer { lines: Vec::new() };
        assert(r@ =~= Seq::<Seq<char>>::empty());
        r
    }

    /// Number of lines kept.
    pub fn len(&self) -> (n: usize)
        ensures
            n == self@.len(),
            n <= LOG_CAPACITY,
    {
        proof {
            use_type_invariant(self);
        }
        self.lines.len()
    }

    /// Adds a line, dropping the oldest beyond the capacity.
    pub fn push(&mut self, message: &str)
        ensures
            final(self)@ == log_push(old(self)@, message@),
    {
        proof {
            use_type_invariant(&*self);
        }
        let mut lines = Vec::new();
        std::mem::swap(&mut lines, &mut self.lines);
        let ghost before = views(lines@);
        lines.push(String::from_str(message));
        proof {
            assert(views(lines@) =~= before.push(message@));
        }
        if lines.len() > LOG_CAPACITY {
            let excess = lines.len() - LOG_CAPACITY;
            let ghost full = views(lines@);
            let kept = lines.split_off(excess);
            proof {
                assert(views(kept@) =~= full.subrange(full.len() - LOG_CAPACITY, full.len() as int));
            }
            self.lines = kept;
        } else {
            self.lines = lines;
        }
    }

    /// The lines joined with line breaks.
    pub fn joined(&self) -> (s: String)
        ensures
            s@ == join_seq(self@, "\n"@),
    {
        join(&self.lines, "\n")
    }
}

/// What the log export writes: the live log file when it has content, else the
/// in-memory lines, else an error.
pub open spec fn log_export_contents(live_log: Option<Seq<char>>, buffer: Seq<Seq<char>>) -> Result<Seq<char>, Seq<char>> {
    match live_log {
        Some(s) => if s.len() > 0 {
            Ok(s)
        } else if buffer.len() == 0 {
            Err("No logs available"@)
        } else {
            Ok(join_seq(buffer, "\n"@))
        },
        None => if buffer.len() == 0 {
            Err("No logs available"@)
        } else {
            Ok(join_seq(buffer, "\n"@))
        },
    }
}

/// Chooses what the log export writes, from the live log file (if it could be read) and the buffer.
pub fn log_export(live_log: Option<String>, buffer: &LogBuffer) -> (r: Result<String, String>)
    ensures
        match r {
            Ok(s) => log_export_contents(match live_log { Some(l) => Some(l@), None => None }, buffer@) == Ok::<Seq<char>, Seq<char>>(s@),
            Err(e) => log_export_contents(match live_log { Some(l) => Some(l@), None => None }, buffer@) == Err::<Seq<char>, Seq<char>>(e@),
        },
{
    if let Some(s) = live_log {
        if s.as_str().unicode_len() > 0 {
            return Ok(s);
        }
    }
    if buffer.len() == 0 {
        return Err(String::from_str("No logs available"));
    }
    Ok(buffer.joined())
}

} // verus!
