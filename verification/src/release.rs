//! Release names of the form `v1.2.3`, and the choice of the newest among
//! them.

use vstd::prelude::*;
use crate::text::{chars_of, str_eq, views_of};

verus! {

/// The three numbers of a release.
#[derive(Clone, Copy, Debug, PartialEq, Eq, Structural)]
pub struct Version {
    pub major: i32,
    pub minor: i32,
    pub patch: i32,
}

/// Whether the character is one of the ten decimal digits.
pub open spec fn is_digit(c: char) -> bool {
    '0' as int <= c as int <= '9' as int
}

/// Whether the text is made of decimal digits only.
pub open spec fn all_digits(s: Seq<char>) -> bool {
    forall|i: int| 0 <= i < s.len() ==> is_digit(#[trigger] s[i])
}

/// The number that a run of decimal digits denotes.
pub open spec fn decimal(s: Seq<char>) -> int
    decreases s.len(),
{
    if s.len() == 0 {
        0
    } else {
        decimal(s.drop_last()) * 10 + (s.last() as int - '0' as int)
    }
}

/// The number that a text denotes: an optional sign and at least one digit,
/// within the range of `i32`.
pub open spec fn number_of(s: Seq<char>) -> Option<int> {
    let signed = s.len() > 0 && (s[0] == '-' || s[0] == '+');
    let digits = if signed {
        s.drop_first()
    } else {
        s
    };
    let value = if signed && s[0] == '-' {
        -decimal(digits)
    } else {
        decimal(digits)
    };
    if digits.len() > 0 && all_digits(digits) && i32::MIN <= value <= i32::MAX {
        Some(value)
    } else {
        None
    }
}

/// The place of the first `sep` in the text at or after `from`, or the
/// length of the text where there is none.
pub open spec fn next_sep(s: Seq<char>, sep: char, from: int) -> int
    decreases s.len() - from,
{
    if from < 0 || from >= s.len() {
        s.len() as int
    } else if s[from] == sep {
        from
    } else {
        next_sep(s, sep, from + 1)
    }
}

/// The bounds of the `n`-th piece, counted from 0, into which `sep` cuts the
/// part of the text that starts at `from` and ends at `to`.
pub open spec fn piece(s: Seq<char>, sep: char, from: int, to: int, n: nat) -> Option<(int, int)>
    decreases n,
{
    let cut = next_sep(s.subrange(0, to), sep, from);
    if !(0 <= from <= to <= s.len()) {
        None
    } else if n == 0 {
        Some((from, cut))
    } else if cut < to {
        piece(s, sep, cut + 1, to, (n - 1) as nat)
    } else {
        None
    }
}

/// The number that the piece within the given bounds denotes.
pub open spec fn number_in(s: Seq<char>, bounds: Option<(int, int)>) -> Option<int> {
    match bounds {
        Some((from, to)) => number_of(s.subrange(from, to)),
        None => None,
    }
}

/// The version that a release name denotes. Dots cut the name into pieces.
/// The first piece holds the major number behind its first `v`, up to the
/// next `v` if there is one; the second and third piece are the minor number
/// and the patch number. Further pieces do not count.
pub open spec fn version_of(name: Seq<char>) -> Option<(int, int, int)> {
    let n = name.len() as int;
    let head = piece(name, '.', 0, n, 0);
    let major = match head {
        Some((from, to)) => number_in(name, piece(name, 'v', from, to, 1)),
        None => None,
    };
    let minor = number_in(name, piece(name, '.', 0, n, 1));
    let patch = number_in(name, piece(name, '.', 0, n, 2));
    if major is Some && minor is Some && patch is Some {
        Some((major->0, minor->0, patch->0))
    } else {
        None
    }
}

/// `a` is older than `b`.
pub open spec fn older(a: (int, int, int), b: (int, int, int)) -> bool {
    a.0 < b.0 || (a.0 == b.0 && (a.1 < b.1 || (a.1 == b.1 && a.2 < b.2)))
}

impl Version {
    /// The three numbers as integers.
    pub open spec fn triple(self) -> (int, int, int) {
        (self.major as int, self.minor as int, self.patch as int)
    }

    /// Whether this version is older than `other`.
    pub fn is_older_than(&self, other: &Version) -> (r: bool)
        ensures
            r == older(self.triple(), other.triple()),
    {
        self.major < other.major || (self.major == other.major && (self.minor < other.minor || (
        self.minor == other.minor && self.patch < other.patch)))
    }
}

fn find_sep(text: &Vec<char>, sep: char, from: usize, to: usize) -> (r: usize)
    requires
        from <= to <= text@.len(),
    ensures
        r == next_sep(text@.subrange(0, to as int), sep, from as int),
        from <= r <= to,
{
    let mut i: usize = from;
    while i < to
        invariant
            from <= i <= to <= text@.len(),
            next_sep(text@.subrange(0, to as int), sep, from as int) == next_sep(
                text@.subrange(0, to as int),
                sep,
                i as int,
            ),
        decreases to - i,
    {
        assert(text@.subrange(0, to as int)[i as int] == text@[i as int]);
        if text[i] == sep {
            return i;
        }
        i += 1;
    }
    i
}

fn find_piece(text: &Vec<char>, sep: char, from: usize, to: usize, n: usize) -> (r: Option<
    (usize, usize),
>)
    requires
        from <= to <= text@.len(),
    ensures
        match r {
            Some((a, b)) => piece(text@, sep, from as int, to as int, n as nat) == Some(
                (a as int, b as int),
            ) && from <= a <= b <= to,
            None => piece(text@, sep, from as int, to as int, n as nat) is None,
        },
{
    let mut start: usize = from;
    let mut left: usize = n;
    loop
        invariant
            from <= start <= to <= text@.len(),
            piece(text@, sep, from as int, to as int, n as nat) == piece(
                text@,
                sep,
                start as int,
                to as int,
                left as nat,
            ),
        decreases left,
    {
        let cut = find_sep(text, sep, start, to);
        if left == 0 {
            return Some((start, cut));
        }
        if cut >= to {
            return None;
        }
        start = cut + 1;
        left = left - 1;
    }
}

fn parse_number(text: &Vec<char>, from: usize, to: usize) -> (r: Option<i32>)
    requires
        from <= to <= text@.len(),
    ensures
        match r {
            Some(v) => number_of(text@.subrange(from as int, to as int)) == Some(v as int),
            None => number_of(text@.subrange(from as int, to as int)) is None,
        },
{
    let ghost s = text@.subrange(from as int, to as int);
    if from == to {
        return None;
    }
    assert(s[0] == text@[from as int]);
    let negative = text[from] == '-';
    let signed = negative || text[from] == '+';
    let first: usize = if signed {
        from + 1
    } else {
        from
    };
    let ghost digits = text@.subrange(first as int, to as int);
    assert(digits =~= if signed {
        s.drop_first()
    } else {
        s
    });
    if first == to {
        return None;
    }
    let mut value: i64 = 0;
    let mut too_big = false;
    let mut i: usize = first;
    while i < to
        invariant
            from <= first <= i <= to <= text@.len(),
            from < to,
            s == text@.subrange(from as int, to as int),
            signed == (s[0] == '-' || s[0] == '+'),
            digits == text@.subrange(first as int, to as int),
            digits == if signed {
                s.drop_first()
            } else {
                s
            },
            all_digits(digits.subrange(0, i - first)),
            0 <= value <= 0x8000_0000,
            !too_big ==> value == decimal(digits.subrange(0, i - first)),
            too_big ==> decimal(digits.subrange(0, i - first)) > 0x8000_0000,
        decreases to - i,
    {
        let c = text[i];
        let ghost seen = digits.subrange(0, i - first);
        let ghost more = digits.subrange(0, i + 1 - first);
        assert(digits[i - first] == c);
        assert(more.drop_last() =~= seen);
        assert(more.last() == c);
        if !(c >= '0' && c <= '9') {
            assert(!is_digit(digits[i - first]));
            assert(!all_digits(digits));
            return None;
        }
        assert forall|k: int| 0 <= k < more.len() implies is_digit(#[trigger] more[k]) by {
            if k < seen.len() {
                assert(more[k] == seen[k]);
            }
        }
        let d: i64 = (c as u32 - '0' as u32) as i64;
        if !too_big {
            value = value * 10 + d;
            if value > 0x8000_0000 {
                too_big = true;
                value = 0x8000_0000;
            }
        }
        i += 1;
    }
    assert(digits.subrange(0, to - first) =~= digits);
    if too_big {
        None
    } else if negative {
        Some((-value) as i32)
    } else if value > 0x7fff_ffff {
        None
    } else {
        Some(value as i32)
    }
}

/// Reads a release name. See [`version_of`].
pub fn parse_version(name: &str) -> (r: Option<Version>)
    ensures
        match r {
            Some(v) => version_of(name@) == Some(v.triple()),
            None => version_of(name@) is None,
        },
{
    let text = chars_of(name);
    let n = text.len();
    let major = match find_piece(&text, '.', 0, n, 0) {
        Some((from, to)) => match find_piece(&text, 'v', from, to, 1) {
            Some((a, b)) => parse_number(&text, a, b),
            None => None,
        },
        None => None,
    };
    let minor = match find_piece(&text, '.', 0, n, 1) {
        Some((a, b)) => parse_number(&text, a, b),
        None => None,
    };
    let patch = match find_piece(&text, '.', 0, n, 2) {
        Some((a, b)) => parse_number(&text, a, b),
        None => None,
    };
    match (major, minor, patch) {
        (Some(major), Some(minor), Some(patch)) => Some(Version { major, minor, patch }),
        _ => None,
    }
}

/// Every name of the list denotes a version.
pub open spec fn all_parse(names: Seq<Seq<char>>) -> bool {
    forall|i: int| 0 <= i < names.len() ==> version_of(#[trigger] names[i]) is Some
}

/// `best` is the place of the newest release of the list, and of the first
/// one among several that are equally new.
pub open spec fn is_newest(names: Seq<Seq<char>>, best: int) -> bool {
    &&& 0 <= best < names.len()
    &&& forall|i: int|
        0 <= i < names.len() ==> !older(
            version_of(names[best])->0,
            version_of(#[trigger] names[i])->0,
        )
    &&& forall|i: int|
        0 <= i < best ==> older(version_of(#[trigger] names[i])->0, version_of(names[best])->0)
}

/// Whether every name of the list denotes a version.
pub fn all_versions_parse(names: &Vec<String>) -> (r: bool)
    ensures
        r == all_parse(views_of(names@)),
{
    let mut i: usize = 0;
    while i < names.len()
        invariant
            i <= names@.len(),
            forall|j: int| 0 <= j < i ==> version_of(#[trigger] views_of(names@)[j]) is Some,
        decreases names@.len() - i,
    {
        if parse_version(names[i].as_str()).is_none() {
            assert(version_of(views_of(names@)[i as int]) is None);
            return false;
        }
        i += 1;
    }
    true
}

/// The place of the newest release of the list; the first one among several
/// that are equally new. A list of one release is not read. An empty list
/// has no newest release.
pub fn newest_release(names: &Vec<String>) -> (r: Option<usize>)
    requires
        names@.len() >= 2 ==> all_parse(views_of(names@)),
    ensures
        names@.len() == 0 <==> r is None,
        names@.len() == 1 ==> r == Some(0usize),
        names@.len() >= 2 ==> r is Some && is_newest(views_of(names@), r->0 as int),
{
    if names.len() == 0 {
        return None;
    }
    if names.len() == 1 {
        return Some(0);
    }
    let ghost texts = views_of(names@);
    let mut best: usize = 0;
    assert(version_of(texts[0]) is Some);
    let mut best_version = match parse_version(names[0].as_str()) {
        Some(v) => v,
        None => Version { major: 0, minor: 0, patch: 0 },
    };
    let mut i: usize = 1;
    while i < names.len()
        invariant
            1 <= i <= names@.len(),
            texts == views_of(names@),
            all_parse(texts),
            best < i,
            version_of(texts[best as int]) == Some(best_version.triple()),
            forall|j: int|
                0 <= j < i ==> !older(best_version.triple(), version_of(#[trigger] texts[j])->0),
            forall|j: int|
                0 <= j < best ==> older(version_of(#[trigger] texts[j])->0, best_version.triple()),
        decreases names@.len() - i,
    {
        assert(version_of(texts[i as int]) is Some);
        let candidate = match parse_version(names[i].as_str()) {
            Some(v) => v,
            None => Version { major: 0, minor: 0, patch: 0 },
        };
        if best_version.is_older_than(&candidate) {
            best = i;
            best_version = candidate;
        }
        i += 1;
    }
    Some(best)
}

/// Whether a release of this name is another one than the version that is
/// running: the name is not `v` followed by that version.
pub fn is_other_release(name: &str, running: &str) -> (r: bool)
    ensures
        r == (name@ != "v"@ + running@),
{
    let mut expected = String::from_str("v");
    expected.append(running);
    !str_eq(name, expected.as_str())
}

} // verus!
