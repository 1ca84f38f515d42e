use vstd::prelude::*;
use crate::decimal::{decimal, push_decimal};
use crate::wrap::push_char;

verus! {

/// A named stopwatch for profiling, counting microseconds, with nested timers for the parts of
/// what it measures. The clock is read by the caller and passed in.
pub struct Timer {
    pub name: String,
    pub elapsed: u64,
    pub current_start: Option<u64>,
    pub subtimers: Vec<Timer>,
}

/// The lines that show timer `t` and, below it, its subtimers: each line is two spaces per level
/// of `indent`, the timer's name, a colon, a space, the microseconds it has measured in decimal
/// and a newline; each subtimer is one level further in.
pub open spec fn timer_text(t: Timer, indent: nat) -> Seq<char>
    decreases t, 0int,
{
    Seq::new(2 * indent, |i: int| ' ') + t.name@ + seq![':', ' '] + decimal(t.elapsed as nat) + seq!['\n']
        + subtimers_text(t.subtimers@, indent + 1, t.subtimers@.len() as int)
}

/// The lines of the first `n` of the timers `ts`, in order, at level `indent`.
pub open spec fn subtimers_text(ts: Seq<Timer>, indent: nat, n: int) -> Seq<char>
    decreases ts, n,
{
    if n <= 0 || n > ts.len() {
        Seq::empty()
    } else {
        subtimers_text(ts, indent, n - 1) + timer_text(ts[n - 1], indent)
    }
}

/// How many levels of timers `t` has, itself included.
pub open spec fn timer_depth(t: Timer) -> nat
    decreases t, 0int,
{
    1 + subtimers_depth(t.subtimers@, t.subtimers@.len() as int)
}

/// The most levels any of the first `n` of the timers `ts` has.
pub open spec fn subtimers_depth(ts: Seq<Timer>, n: int) -> nat
    decreases ts, n,
{
    if n <= 0 || n > ts.len() {
        0
    } else {
        let rest = subtimers_depth(ts, n - 1);
        let here = timer_depth(ts[n - 1]);
        if here > rest { here } else { rest }
    }
}

proof fn lemma_subtimers_depth(ts: Seq<Timer>, n: int, i: int)
    requires
        0 <= i < n <= ts.len(),
    ensures
        timer_depth(ts[i]) <= subtimers_depth(ts, n),
    decreases n,
{
    if i < n - 1 {
        lemma_subtimers_depth(ts, n - 1, i);
    }
}

impl Timer {
    /// A stopped timer named `name` that has measured nothing.
    pub fn new(name: &str) -> (t: Self)
        ensures
            t.name@ == name@,
            t.elapsed == 0,
            t.current_start is None,
            t.subtimers@.len() == 0,
    {
        Timer { name: name.to_owned(), elapsed: 0, current_start: None, subtimers: Vec::new() }
    }

    /// Starts the timer at time `now_us`. The timer must not be running already.
    pub fn start(&mut self, now_us: u64)
        requires
            old(self).current_start is None,
        ensures
            final(self).current_start == Some(now_us),
            final(self).elapsed == old(self).elapsed,
            final(self).name@ == old(self).name@,
            final(self).subtimers@ == old(self).subtimers@,
    {
        self.current_start = Some(now_us);
    }

    /// Stops the timer at time `now_us`, adding the time since it started to `elapsed`. The timer
    /// must be running, and time must not run backwards.
    pub fn stop(&mut self, now_us: u64)
        requires
            old(self).current_start matches Some(s) && s <= now_us && old(self).elapsed + (now_us - s)
                <= u64::MAX,
        ensures
            final(self).elapsed == old(self).elapsed + (now_us - old(self).current_start->0),
            final(self).current_start is None,
            final(self).name@ == old(self).name@,
            final(self).subtimers@ == old(self).subtimers@,
    {
        let start = self.current_start.unwrap();
        let difference = now_us - start;
        self.elapsed = self.elapsed + difference;
        self.current_start = None;
    }

    /// Adds a stopped subtimer named `name` and gives its position among the subtimers.
    pub fn new_subtimer(&mut self, name: &str) -> (i: usize)
        ensures
            i == old(self).subtimers@.len(),
            final(self).subtimers@.len() == old(self).subtimers@.len() + 1,
            final(self).subtimers@.subrange(0, i as int) == old(self).subtimers@,
            final(self).subtimers@[i as int].name@ == name@,
            final(self).subtimers@[i as int].elapsed == 0,
            final(self).subtimers@[i as int].current_start is None,
            final(self).subtimers@[i as int].subtimers@.len() == 0,
            final(self).elapsed == old(self).elapsed,
            final(self).current_start == old(self).current_start,
            final(self).name@ == old(self).name@,
    {
        let i = self.subtimers.len();
        self.subtimers.push(Timer::new(name));
        i
    }
    /// Appends the lines that show this timer and its subtimers (see `timer_text`) to `out`,
    /// `indent` levels in. The levels must be countable in a `usize`.
    pub fn fmt_with_indent_level(&self, out: &mut String, indent: usize)
        requires
            indent + timer_depth(*self) <= usize::MAX,
        ensures
            final(out)@ == old(out)@ + timer_text(*self, indent as nat),
        decreases self,
    {
        let ghost start = out@;
        let mut k: usize = 0;
        while k < indent
            invariant
                k <= indent,
                out@ == start + Seq::new(2 * k as nat, |i: int| ' '),
            decreases indent - k,
        {
            push_char(out, ' ');
            push_char(out, ' ');
            k = k + 1;
            assert(out@ =~= start + Seq::new(2 * k as nat, |i: int| ' '));
        }
        let name = self.name.as_str();
        let n = name.unicode_len();
        let mut j: usize = 0;
        let ghost indented = out@;
        while j < n
            invariant
                n == self.name@.len(),
                name@ == self.name@,
                j <= n,
                out@ == indented + self.name@.subrange(0, j as int),
            decreases n - j,
        {
            push_char(out, name.get_char(j));
            j = j + 1;
            assert(out@ =~= indented + self.name@.subrange(0, j as int));
        }
        push_char(out, ':');
        push_char(out, ' ');
        push_decimal(out, self.elapsed);
        push_char(out, '\n');
        let ghost head = out@;
        assert(head =~= start + Seq::new(2 * indent as nat, |i: int| ' ') + self.name@ + seq![':', ' '] + decimal(self.elapsed as nat) + seq!['\n']);
        let mut i: usize = 0;
        while i < self.subtimers.len()
            invariant
                i <= self.subtimers@.len(),
                indent + timer_depth(*self) <= usize::MAX,
                out@ == head + subtimers_text(self.subtimers@, (indent + 1) as nat, i as int),
            decreases self.subtimers@.len() - i,
        {
            proof {
                lemma_subtimers_depth(self.subtimers@, self.subtimers@.len() as int, i as int);
            }
            self.subtimers[i].fmt_with_indent_level(out, indent + 1);
            i = i + 1;
            assert(out@ =~= head + subtimers_text(self.subtimers@, (indent + 1) as nat, i as int));
        }
        assert(out@ =~= start + timer_text(*self, indent as nat));
    }

    /// The lines that show this timer and its subtimers, as `timer_text` lays them out.
    pub fn to_string(&self) -> (r: String)
        requires
            timer_depth(*self) <= usize::MAX,
        ensures
            r@ == timer_text(*self, 0),
    {
        let mut out = String::new();
        self.fmt_with_indent_level(&mut out, 0);
        assert(out@ =~= timer_text(*self, 0));
        out
    }
}

} // verus!
