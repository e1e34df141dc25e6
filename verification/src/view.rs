//! What the renderer shows of the state that takes some working out: the
//! window of log lines, lines broken to the width of the terminal, and the
//! grouping labels of a container.

use vstd::prelude::*;
use crate::container::Container;
use crate::text::{chars_of, push_char, text_of};

verus! {

/// The place of the first line that shows when the view has room for
/// `height` lines and is scrolled up by `position` lines: the last
/// `height + position` lines are handed to the terminal.
pub open spec fn window_start(len: int, height: int, position: int) -> int {
    if height + position >= len {
        0
    } else {
        len - (height + position)
    }
}

/// The place of the first line to hand to the terminal. See
/// [`window_start`].
pub fn log_window(len: usize, height: usize, position: usize) -> (start: usize)
    ensures
        start == window_start(len as int, height as int, position as int),
{
    if height >= len || position >= len - height {
        0
    } else {
        len - height - position
    }
}

/// The line from `start` on, broken after every `width` characters. A line
/// whose length is a multiple of the width ends with a line break.
pub open spec fn wrap_from(line: Seq<char>, width: int, start: int) -> Seq<char>
    decreases line.len() - start,
{
    if width <= 0 || start < 0 || start > line.len() {
        Seq::empty()
    } else if start + width > line.len() {
        line.subrange(start, line.len() as int)
    } else {
        line.subrange(start, start + width) + seq!['\n'] + wrap_from(line, width, start + width)
    }
}

/// Breaks a line after every `width` characters.
pub fn wrap_line(line: &str, width: usize) -> (r: String)
    requires
        width > 0,
    ensures
        r@ == wrap_from(line@, width as int, 0),
{
    let chars = chars_of(line);
    let n = chars.len();
    let mut out = String::new();
    let mut start: usize = 0;
    loop
        invariant
            width > 0,
            chars@ == line@,
            n == chars@.len(),
            start <= n,
            wrap_from(line@, width as int, 0) == out@ + wrap_from(line@, width as int, start as int),
        decreases n - start,
    {
        let last = width > n - start;
        let end: usize = if last {
            n
        } else {
            start + width
        };
        let ghost base = out@;
        let mut k: usize = start;
        while k < end
            invariant
                start <= k <= end <= n,
                n == chars@.len(),
                chars@ == line@,
                out@ == base + line@.subrange(start as int, k as int),
            decreases end - k,
        {
            push_char(&mut out, chars[k]);
            assert(line@.subrange(start as int, k + 1) =~= line@.subrange(
                start as int,
                k as int,
            ).push(line@[k as int]));
            k += 1;
        }
        if last {
            assert(out@ + Seq::<char>::empty() =~= out@);
            return out;
        }
        push_char(&mut out, '\n');
        assert(out@ =~= base + (line@.subrange(start as int, end as int) + seq!['\n']));
        assert(base + (line@.subrange(start as int, end as int) + seq!['\n'] + wrap_from(
            line@,
            width as int,
            end as int,
        )) =~= out@ + wrap_from(line@, width as int, end as int));
        start = end;
    }
}

/// The text without any occurrence of `pattern`, taken out from left to
/// right.
pub open spec fn without_all(s: Seq<char>, pattern: Seq<char>) -> Seq<char>
    decreases s.len(),
{
    if s.len() == 0 {
        Seq::empty()
    } else if 0 < pattern.len() <= s.len() && s.subrange(0, pattern.len() as int) == pattern {
        without_all(s.subrange(pattern.len() as int, s.len() as int), pattern)
    } else {
        seq![s[0]] + without_all(s.drop_first(), pattern)
    }
}

fn starts_at(text: &Vec<char>, at: usize, pattern: &Vec<char>) -> (r: bool)
    requires
        at <= text@.len(),
    ensures
        r == (pattern@.len() <= text@.len() - at && text@.subrange(
            at as int,
            at + pattern@.len(),
        ) == pattern@),
{
    let n = text.len();
    if pattern.len() > n - at {
        return false;
    }
    let mut k: usize = 0;
    while k < pattern.len()
        invariant
            n == text@.len(),
            at + pattern@.len() <= n,
            k <= pattern@.len(),
            forall|j: int| 0 <= j < k ==> text@[at + j] == pattern@[j],
        decreases pattern@.len() - k,
    {
        if text[at + k] != pattern[k] {
            assert(text@.subrange(at as int, at + pattern@.len())[k as int] != pattern@[k as int]);
            return false;
        }
        k += 1;
    }
    assert(text@.subrange(at as int, at + pattern@.len()) =~= pattern@);
    true
}

/// Takes every occurrence of `pattern` out of the text, from left to right.
pub fn remove_all(text: &str, pattern: &str) -> (r: String)
    ensures
        r@ == without_all(text@, pattern@),
{
    let chars = chars_of(text);
    let pat = chars_of(pattern);
    let n = chars.len();
    let mut out = String::new();
    let mut i: usize = 0;
    assert(text@.subrange(0, n as int) =~= text@);
    while i < n
        invariant
            chars@ == text@,
            pat@ == pattern@,
            n == chars@.len(),
            i <= n,
            without_all(text@, pattern@) == out@ + without_all(
                text@.subrange(i as int, n as int),
                pattern@,
            ),
        decreases n - i,
    {
        let ghost rest = text@.subrange(i as int, n as int);
        let ghost before = out@;
        if pat.len() > 0 && starts_at(&chars, i, &pat) {
            assert(rest.subrange(0, pat@.len() as int) =~= text@.subrange(
                i as int,
                i + pat@.len(),
            ));
            assert(rest.subrange(pat@.len() as int, rest.len() as int) =~= text@.subrange(
                i + pat@.len(),
                n as int,
            ));
            i = i + pat.len();
        } else {
            assert(pat@.len() <= rest.len() ==> rest.subrange(0, pat@.len() as int)
                =~= text@.subrange(i as int, i + pat@.len()));
            assert(rest.drop_first() =~= text@.subrange(i + 1, n as int));
            push_char(&mut out, chars[i]);
            assert(out@ + without_all(rest.drop_first(), pattern@) =~= before + (seq![rest[0]]
                + without_all(rest.drop_first(), pattern@)));
            i += 1;
        }
    }
    assert(out@ + Seq::<char>::empty() =~= out@);
    out
}

/// The first text if there is one, else the second, else the empty text.
pub open spec fn first_of(first: Option<Seq<char>>, second: Option<Seq<char>>) -> Seq<char> {
    match first {
        Some(s) => s,
        None => match second {
            Some(s) => s,
            None => Seq::empty(),
        },
    }
}

fn pick(first: &Option<String>, second: &Option<String>) -> (r: String)
    ensures
        r@ == first_of(text_of(*first), text_of(*second)),
{
    match first {
        Some(s) => s.clone(),
        None => match second {
            Some(s) => s.clone(),
            None => String::new(),
        },
    }
}

impl Container {
    /// The stack under which the container shows: that of the swarm, else
    /// the compose project, else none.
    pub open spec fn stack_text(self) -> Seq<char> {
        first_of(text_of(self.swarm_stack), text_of(self.compose_project))
    }

    /// The service under which the container shows: that of the swarm, else
    /// that of the compose file, without the stack's name and an underscore
    /// wherever they occur in it.
    pub open spec fn service_text(self) -> Seq<char> {
        without_all(
            first_of(text_of(self.swarm_service), text_of(self.compose_service)),
            self.stack_text() + "_"@,
        )
    }

    /// The stack under which the container shows.
    pub fn stack(&self) -> (r: String)
        ensures
            r@ == self.stack_text(),
    {
        pick(&self.swarm_stack, &self.compose_project)
    }

    /// The service under which the container shows.
    pub fn service(&self) -> (r: String)
        ensures
            r@ == self.service_text(),
    {
        let mut prefix = self.stack();
        prefix.append("_");
        let full = pick(&self.swarm_service, &self.compose_service);
        remove_all(full.as_str(), prefix.as_str())
    }
}

} // verus!
