//! The bounded log of a backend: the most recent lines, oldest first.

use vstd::prelude::*;
use crate::json::views;

verus! {

/// How many lines a backend log keeps.
pub const MAX_LOG_LINES: usize = 1000;

/// The last `n` elements of `s` (all of them when there are fewer).
pub open spec fn last_n<A>(s: Seq<A>, n: nat) -> Seq<A> {
    if s.len() <= n {
        s
    } else {
        s.skip(s.len() - n)
    }
}

/// The lines that a log holds after `lines` were appended one by one to a
/// log holding `start`.
pub open spec fn append_all(start: Seq<Seq<char>>, lines: Seq<Seq<char>>) -> Seq<Seq<char>>
    decreases lines.len(),
{
    if lines.len() == 0 {
        start
    } else {
        append_all(last_n(start.push(lines[0]), MAX_LOG_LINES as nat), lines.drop_first())
    }
}

/// The most recent lines of a backend's output and events.
pub struct LogBuffer {
    lines: Vec<String>,
}

impl View for LogBuffer {
    type V = Seq<Seq<char>>;

    closed spec fn view(&self) -> Seq<Seq<char>> {
        views(self.lines@)
    }
}

/// Copies a list of strings.
pub fn clone_strings(v: &Vec<String>) -> (r: Vec<String>)
    ensures
        r@ == v@,
{
    let mut r: Vec<String> = Vec::new();
    let mut i: usize = 0;
    while i < v.len()
        invariant
            i <= v@.len(),
            r@ == v@.take(i as int),
        decreases v@.len() - i,
    {
        r.push(v[i].clone());
        i = i + 1;
        assert(r@ =~= v@.take(i as int));
    }
    assert(v@.take(v@.len() as int) =~= v@);
    r
}

impl LogBuffer {
    #[verifier::type_invariant]
    spec fn bounded(&self) -> bool {
        self.lines@.len() <= MAX_LOG_LINES
    }

    /// An empty log.
    pub fn new() -> (r: LogBuffer)
        ensures
            r@ == Seq::<Seq<char>>::empty(),
    {
        let r = LogBuffer { lines: Vec::new() };
        assert(r@ =~= Seq::<Seq<char>>::empty());
        r
    }

    /// Appends a line, dropping the oldest one when the log is full.
    pub fn push(&mut self, line: String)
        ensures
            final(self)@ == last_n(old(self)@.push(line@), MAX_LOG_LINES as nat),
    {
        proof {
            use_type_invariant(&*self);
        }
        let mut lines: Vec<String> = Vec::new();
        std::mem::swap(&mut lines, &mut self.lines);
        let ghost before = lines@;
        lines.push(line);
        if lines.len() > MAX_LOG_LINES {
            lines.remove(0);
            assert(views(lines@) =~= views(before.push(line)).skip(1));
        } else {
            assert(views(lines@) =~= views(before).push(line@));
        }
        self.lines = lines;
        assert(self@ =~= last_n(old(self)@.push(line@), MAX_LOG_LINES as nat));
    }

    /// The lines held, oldest first.
    pub fn lines(&self) -> (r: Vec<String>)
        ensures
            views(r@) == self@,
    {
        clone_strings(&self.lines)
    }

    /// The number of lines held.
    pub fn len(&self) -> (r: usize)
        ensures
            r == self@.len(),
            r <= MAX_LOG_LINES,
    {
        proof {
            use_type_invariant(self);
        }
        self.lines.len()
    }
}

proof fn lemma_last_n_append(s: Seq<Seq<char>>, t: Seq<Seq<char>>, n: nat)
    ensures
        last_n(last_n(s, n) + t, n) == last_n(s + t, n),
{
    let a = last_n(s, n) + t;
    let b = s + t;
    let la = last_n(a, n);
    let lb = last_n(b, n);
    assert(la.len() == lb.len());
    assert forall|i: int| 0 <= i < la.len() implies la[i] == lb[i] by {
        if i + (a.len() - la.len()) < last_n(s, n).len() {
            assert(la[i] == last_n(s, n)[i + (a.len() - la.len())]);
        }
    }
    assert(la =~= lb);
}

/// Appending lines one at a time to a log leaves exactly the most recent
/// `MAX_LOG_LINES` of all lines: the log is a sliding window over its history.
pub proof fn lemma_log_window(start: Seq<Seq<char>>, lines: Seq<Seq<char>>)
    requires
        start.len() <= MAX_LOG_LINES,
    ensures
        append_all(start, lines) == last_n(start + lines, MAX_LOG_LINES as nat),
        append_all(start, lines).len() <= MAX_LOG_LINES,
    decreases lines.len(),
{
    if lines.len() == 0 {
        assert(start + lines =~= start);
    } else {
        let next = last_n(start.push(lines[0]), MAX_LOG_LINES as nat);
        lemma_log_window(next, lines.drop_first());
        lemma_last_n_append(start.push(lines[0]), lines.drop_first(), MAX_LOG_LINES as nat);
        assert(start.push(lines[0]) + lines.drop_first() =~= start + lines);
    }
}

} // verus!
