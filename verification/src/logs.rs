//! The scroll-back buffer of the log and shell views: lines, scroll
//! position, search needle and fetch watermark.

use vstd::prelude::*;
use crate::clock::unix_now;
use crate::text::{is_infix, lowercase, pop_char, push_char, str_contains, to_lowercase, views_of};

verus! {

/// The mathematical content of a [`LogBuffer`].
pub struct LogModel {
    /// The lines, oldest first.
    pub lines: Seq<Seq<char>>,
    /// How many lines the view is scrolled up from the newest line.
    pub position: nat,
    /// The search needle, while a search is active.
    pub search: Option<Seq<char>>,
    /// The time, in seconds since the epoch, up to which lines were fetched.
    pub watermark: int,
}

/// The first reverse offset at or after `r` whose line contains `needle`.
/// Reverse offset 0 is the newest line.
pub open spec fn scan_from(lines: Seq<Seq<char>>, needle: Seq<char>, r: int) -> Option<int>
    decreases lines.len() - r,
{
    if r < 0 || r >= lines.len() {
        None
    } else if is_infix(needle, lines[lines.len() - 1 - r]) {
        Some(r)
    } else {
        scan_from(lines, needle, r + 1)
    }
}

/// The lower-case forms of a list of lines.
pub open spec fn folded(lines: Seq<Seq<char>>) -> Seq<Seq<char>> {
    lines.map_values(|l: Seq<char>| lowercase(l))
}

impl LogModel {
    /// The scroll position never leaves the buffer.
    pub open spec fn wf(self) -> bool {
        self.position <= self.lines.len()
    }

    /// An empty buffer that follows the tail, with no search and the
    /// watermark at the epoch.
    pub open spec fn empty() -> LogModel {
        LogModel { lines: Seq::empty(), position: 0, search: None, watermark: 0 }
    }

    /// New lines arrive: the window that is showing stays where it is.
    pub open spec fn appended(self, more: Seq<Seq<char>>) -> LogModel {
        LogModel {
            lines: self.lines + more,
            position: if self.position != 0 {
                self.position + more.len()
            } else {
                0
            },
            ..self
        }
    }

    /// One line of shell output arrives.
    pub open spec fn pushed(self, line: Seq<char>) -> LogModel {
        LogModel { lines: self.lines.push(line), ..self }
    }

    /// Text is written behind the newest line, if there is a line.
    pub open spec fn echoed(self, text: Seq<char>) -> LogModel {
        if self.lines.len() == 0 {
            self
        } else {
            LogModel {
                lines: self.lines.update(self.lines.len() - 1, self.lines.last() + text),
                ..self
            }
        }
    }

    /// One line up, but never past the oldest line.
    pub open spec fn scrolled_up(self) -> LogModel {
        LogModel {
            position: if self.position + 1 < self.lines.len() {
                self.position + 1
            } else {
                self.position
            },
            ..self
        }
    }

    /// One line down, but never past the newest line.
    pub open spec fn scrolled_down(self) -> LogModel {
        LogModel {
            position: if self.position > 0 {
                (self.position - 1) as nat
            } else {
                0
            },
            ..self
        }
    }

    /// The reverse offset of the next line above the position that contains
    /// the needle, both taken in lower case.
    pub open spec fn next_match(self, needle: Seq<char>) -> Option<int> {
        scan_from(folded(self.lines), lowercase(needle), (self.position + 1) as int)
    }

    /// The search action: it opens a search with an empty needle, or, in an
    /// open search, scrolls to the next match if there is one.
    pub open spec fn searched(self) -> LogModel {
        match self.search {
            None => LogModel { search: Some(Seq::empty()), ..self },
            Some(needle) => match self.next_match(needle) {
                Some(r) => LogModel { position: r as nat, ..self },
                None => self,
            },
        }
    }

    /// A character is typed into an open search.
    pub open spec fn typed(self, c: char) -> LogModel {
        match self.search {
            None => self,
            Some(needle) => LogModel { search: Some(needle.push(c)), ..self },
        }
    }

    /// The last character of the needle is taken back.
    pub open spec fn erased(self) -> LogModel {
        match self.search {
            None => self,
            Some(needle) => if needle.len() == 0 {
                self
            } else {
                LogModel { search: Some(needle.drop_last()), ..self }
            },
        }
    }

    /// The search is closed.
    pub open spec fn search_cancelled(self) -> LogModel {
        LogModel { search: None, ..self }
    }

    /// All lines are dropped and the view follows the tail again.
    pub open spec fn cleared(self) -> LogModel {
        LogModel { lines: Seq::empty(), position: 0, ..self }
    }

    /// The watermark goes back to the epoch, so that the next fetch brings
    /// the whole backlog.
    pub open spec fn rewound(self) -> LogModel {
        LogModel { watermark: 0, ..self }
    }

    /// The watermark moves to `now`, unless that would move it back.
    pub open spec fn fetched_at(self, now: int) -> LogModel {
        LogModel {
            watermark: if now > self.watermark {
                now
            } else {
                self.watermark
            },
            ..self
        }
    }
}

/// Where a scan finds a line, that line is the first at or after the start
/// that contains the needle; where it finds none, no line from the start on
/// contains it.
pub proof fn lemma_scan_from(lines: Seq<Seq<char>>, needle: Seq<char>, start: int)
    requires
        0 <= start,
    ensures
        match scan_from(lines, needle, start) {
            Some(r) => start <= r < lines.len() && is_infix(needle, lines[lines.len() - 1 - r])
                && forall|x: int|
                start <= x < r ==> !is_infix(needle, #[trigger] lines[lines.len() - 1 - x]),
            None => forall|x: int|
                start <= x < lines.len() ==> !is_infix(needle, #[trigger] lines[lines.len() - 1 - x]),
        },
    decreases lines.len() - start,
{
    if start < lines.len() && !is_infix(needle, lines[lines.len() - 1 - start]) {
        lemma_scan_from(lines, needle, start + 1);
    }
}

/// Lines that arrive while the view is scrolled up move the position by
/// their number, and the view keeps showing the same lines; a view that
/// follows the tail keeps following it.
pub proof fn lemma_append_keeps_window(m: LogModel, more: Seq<Seq<char>>)
    requires
        m.wf(),
    ensures
        m.appended(more).wf(),
        m.position > 0 ==> m.appended(more).position == m.position + more.len(),
        m.position == 0 ==> m.appended(more).position == 0,
        m.position > 0 ==> forall|r: int|
            m.position <= r < m.lines.len() ==> #[trigger] m.lines[m.lines.len() - 1 - r]
                == m.appended(more).lines[m.appended(more).lines.len() - 1 - (r + more.len())],
{
}

/// Every operation on the buffer keeps the scroll position inside it.
pub proof fn lemma_position_stays_inside(
    m: LogModel,
    more: Seq<Seq<char>>,
    line: Seq<char>,
    c: char,
    now: int,
)
    requires
        m.wf(),
    ensures
        m.appended(more).wf(),
        m.pushed(line).wf(),
        m.echoed(line).wf(),
        m.scrolled_up().wf(),
        m.scrolled_down().wf(),
        m.searched().wf(),
        m.typed(c).wf(),
        m.erased().wf(),
        m.search_cancelled().wf(),
        m.cleared().wf(),
        m.rewound().wf(),
        m.fetched_at(now).wf(),
{
    if let Some(needle) = m.search {
        lemma_scan_from(folded(m.lines), lowercase(needle), (m.position + 1) as int);
    }
}

/// Scrolling up stops at the oldest line and scrolling down at the newest.
pub proof fn lemma_scroll_saturates(m: LogModel)
    ensures
        m.position + 1 < m.lines.len() ==> m.scrolled_up().position == m.position + 1,
        m.position + 1 >= m.lines.len() ==> m.scrolled_up() == m,
        m.position > 0 ==> m.scrolled_down().position == m.position - 1,
        m.position == 0 ==> m.scrolled_down() == m,
{
}

/// A search that finds no further line leaves the buffer as it is; one that
/// finds a line moves up to the nearest such line.
pub proof fn lemma_search_moves_to_nearest_match(m: LogModel, needle: Seq<char>)
    requires
        m.wf(),
        m.search == Some(needle),
    ensures
        m.next_match(needle) is None ==> m.searched() == m,
        m.next_match(needle) matches Some(r) ==> {
            &&& m.position < r < m.lines.len()
            &&& m.searched().position == r
            &&& is_infix(lowercase(needle), lowercase(m.lines[m.lines.len() - 1 - r]))
            &&& forall|x: int|
                m.position < x < r ==> !is_infix(
                    lowercase(needle),
                    lowercase(#[trigger] m.lines[m.lines.len() - 1 - x]),
                )
        },
{
    let low = folded(m.lines);
    lemma_scan_from(low, lowercase(needle), (m.position + 1) as int);
    if let Some(r) = m.next_match(needle) {
        assert forall|x: int| m.position < x < r implies !is_infix(
            lowercase(needle),
            lowercase(#[trigger] m.lines[m.lines.len() - 1 - x]),
        ) by {
            assert(!is_infix(lowercase(needle), low[low.len() - 1 - x]));
        }
    }
}

/// The watermark never moves back, and moves to any later time it is given.
pub proof fn lemma_watermark_never_moves_back(m: LogModel, now: int)
    ensures
        m.fetched_at(now).watermark >= m.watermark,
        m.fetched_at(now).watermark >= now,
        now >= m.watermark ==> m.fetched_at(now).watermark == now,
{
}

/// The scroll-back buffer.
#[derive(Debug)]
pub struct LogBuffer {
    lines: Vec<String>,
    position: usize,
    search: Option<String>,
    watermark: i64,
}

impl View for LogBuffer {
    type V = LogModel;

    closed spec fn view(&self) -> LogModel {
        LogModel {
            lines: views_of(self.lines@),
            position: self.position as nat,
            search: match self.search {
                Some(s) => Some(s@),
                None => None,
            },
            watermark: self.watermark as int,
        }
    }
}

/// The reverse offset of the first line above `position` that contains
/// `needle`. Reverse offset 0 is the last line of `lines`.
pub fn first_match_after(lines: &Vec<String>, needle: &str, position: usize) -> (r: Option<usize>)
    ensures
        r.is_some() == scan_from(views_of(lines@), needle@, position + 1).is_some(),
        r matches Some(x) ==> scan_from(views_of(lines@), needle@, position + 1) == Some(x as int),
        r matches Some(x) ==> position < x < lines@.len(),
{
    let n = lines.len();
    if position >= n {
        return None;
    }
    let mut r: usize = position + 1;
    while r < n
        invariant
            n == lines@.len(),
            position < r <= n,
            scan_from(views_of(lines@), needle@, position + 1) == scan_from(
                views_of(lines@),
                needle@,
                r as int,
            ),
        decreases n - r,
    {
        if str_contains(lines[n - 1 - r].as_str(), needle) {
            return Some(r);
        }
        r += 1;
    }
    None
}

impl LogBuffer {
    /// The buffer's invariant: the scroll position never leaves the buffer.
    pub open spec fn wf(&self) -> bool {
        self@.wf()
    }

    /// An empty buffer.
    pub fn new() -> (r: LogBuffer)
        ensures
            r@ == LogModel::empty(),
            r.wf(),
    {
        let r = LogBuffer { lines: Vec::new(), position: 0, search: None, watermark: 0 };
        assert(views_of(r.lines@) =~= Seq::empty());
        r
    }

    /// The lines, oldest first.
    pub fn lines(&self) -> (r: &Vec<String>)
        ensures
            views_of(r@) == self@.lines,
    {
        &self.lines
    }

    /// How many lines the view is scrolled up from the newest line.
    pub fn position(&self) -> (r: usize)
        ensures
            r == self@.position,
    {
        self.position
    }

    /// The search needle, while a search is active.
    pub fn search(&self) -> (r: &Option<String>)
        ensures
            r.is_some() == self@.search.is_some(),
            r matches Some(s) ==> self@.search == Some(s@),
    {
        &self.search
    }

    /// The time, in seconds since the epoch, up to which lines were fetched.
    pub fn watermark(&self) -> (r: i64)
        ensures
            r == self@.watermark,
    {
        self.watermark
    }

    /// Appends fetched lines. A view that is scrolled up keeps showing the
    /// same lines.
    pub fn append(&mut self, more: Vec<String>)
        requires
            old(self).wf(),
        ensures
            final(self)@ == old(self)@.appended(views_of(more@)),
            final(self).wf(),
    {
        let mut more = more;
        let count = more.len();
        let ghost before = self.lines@;
        let ghost added = more@;
        self.lines.append(&mut more);
        assert(views_of(self.lines@) =~= views_of(before) + views_of(added));
        let total = self.lines.len();
        assert(self.position <= views_of(before).len() == before.len());
        assert(total == before.len() + count);
        if self.position != 0 {
            self.position = self.position + count;
        }
    }

    /// Appends one line and leaves the scroll position alone.
    pub fn push_line(&mut self, line: String)
        requires
            old(self).wf(),
        ensures
            final(self)@ == old(self)@.pushed(line@),
            final(self).wf(),
    {
        let ghost before = self.lines@;
        self.lines.push(line);
        assert(views_of(self.lines@) =~= views_of(before).push(line@));
    }

    /// Writes `text` behind the newest line, if there is a line.
    pub fn echo(&mut self, text: &str)
        requires
            old(self).wf(),
        ensures
            final(self)@ == old(self)@.echoed(text@),
            final(self).wf(),
    {
        let ghost before = self.lines@;
        match self.lines.pop() {
            Some(last) => {
                let mut last = last;
                last.append(text);
                self.lines.push(last);
                assert(views_of(self.lines@) =~= views_of(before).update(
                    before.len() - 1,
                    views_of(before).last() + text@,
                ));
            },
            None => {},
        }
    }

    /// Scrolls one line up, and stays at the oldest line.
    pub fn scroll_up(&mut self)
        requires
            old(self).wf(),
        ensures
            final(self)@ == old(self)@.scrolled_up(),
            final(self).wf(),
    {
        if self.position < self.lines.len() && self.position + 1 < self.lines.len() {
            self.position = self.position + 1;
        }
    }

    /// Scrolls one line down, and stays at the newest line.
    pub fn scroll_down(&mut self)
        requires
            old(self).wf(),
        ensures
            final(self)@ == old(self)@.scrolled_down(),
            final(self).wf(),
    {
        if self.position > 0 {
            self.position = self.position - 1;
        }
    }

    /// The search action: opens a search with an empty needle, or, in an open
    /// search, scrolls up to the next line that contains the needle, letter
    /// case aside. Without such a line the position stays.
    pub fn search_next(&mut self)
        requires
            old(self).wf(),
        ensures
            final(self)@ == old(self)@.searched(),
            final(self).wf(),
    {
        match &self.search {
            None => {
                self.search = Some(String::new());
            },
            Some(needle) => {
                let low_needle = to_lowercase(needle.as_str());
                let low_lines = self.folded_lines();
                match first_match_after(&low_lines, low_needle.as_str(), self.position) {
                    Some(r) => {
                        self.position = r;
                    },
                    None => {},
                }
            },
        }
    }

    fn folded_lines(&self) -> (r: Vec<String>)
        ensures
            views_of(r@) == folded(self@.lines),
    {
        let mut out: Vec<String> = Vec::new();
        let mut i: usize = 0;
        while i < self.lines.len()
            invariant
                i <= self.lines@.len(),
                out@.len() == i,
                forall|j: int| 0 <= j < i ==> (#[trigger] out@[j])@ == lowercase(self.lines@[j]@),
            decreases self.lines@.len() - i,
        {
            out.push(to_lowercase(self.lines[i].as_str()));
            i += 1;
        }
        assert(views_of(out@) =~= folded(views_of(self.lines@)));
        out
    }

    /// Types a character into the needle of an open search.
    pub fn type_char(&mut self, c: char)
        requires
            old(self).wf(),
        ensures
            final(self)@ == old(self)@.typed(c),
            final(self).wf(),
    {
        match self.search.take() {
            Some(needle) => {
                let mut needle = needle;
                push_char(&mut needle, c);
                self.search = Some(needle);
            },
            None => {},
        }
    }

    /// Takes the last character of the needle back.
    pub fn erase_char(&mut self)
        requires
            old(self).wf(),
        ensures
            final(self)@ == old(self)@.erased(),
            final(self).wf(),
    {
        match self.search.take() {
            Some(needle) => {
                let mut needle = needle;
                let _ = pop_char(&mut needle);
                self.search = Some(needle);
            },
            None => {},
        }
    }

    /// Closes the search.
    pub fn cancel_search(&mut self)
        requires
            old(self).wf(),
        ensures
            final(self)@ == old(self)@.search_cancelled(),
            final(self).wf(),
    {
        self.search = None;
    }

    /// Drops all lines; the view follows the tail again.
    pub fn clear(&mut self)
        requires
            old(self).wf(),
        ensures
            final(self)@ == old(self)@.cleared(),
            final(self).wf(),
    {
        self.lines.clear();
        self.position = 0;
        assert(views_of(self.lines@) =~= Seq::empty());
    }

    /// Moves the watermark back to the epoch.
    pub fn rewind(&mut self)
        requires
            old(self).wf(),
        ensures
            final(self)@ == old(self)@.rewound(),
            final(self).wf(),
    {
        self.watermark = 0;
    }

    /// Records that lines were fetched up to `now`; the watermark never
    /// moves back.
    pub fn advance_watermark(&mut self, now: i64)
        requires
            old(self).wf(),
        ensures
            final(self)@ == old(self)@.fetched_at(now as int),
            final(self).wf(),
    {
        if now > self.watermark {
            self.watermark = now;
        }
    }

    /// Records that lines were fetched up to the present moment, whatever the
    /// clock says that is.
    pub fn mark_fetched(&mut self)
        requires
            old(self).wf(),
        ensures
            exists|now: int| final(self)@ == old(self)@.fetched_at(now),
            final(self).wf(),
    {
        let now = unix_now();
        self.advance_watermark(now);
    }
}

} // verus!
