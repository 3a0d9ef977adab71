//! The mailmap line grammar:
//! `[<real-name>] <real-email> [[<replace-name>] <replace-email>]`.
use vstd::prelude::*;
use crate::mailmap::{Entry, EntryModel};

verus! {

/// Whitespace that is trimmed around a field.
pub open spec fn is_blank(c: char) -> bool {
    c == ' ' || c == '\t' || c == '\r'
}

/// The first index in `i..hi` that holds `c`, or -1.
pub open spec fn find_from(t: Seq<char>, c: char, i: int, hi: int) -> int
    decreases hi - i,
{
    if i >= hi {
        -1
    } else if t[i] == c {
        i
    } else {
        find_from(t, c, i + 1, hi)
    }
}

/// The first index in `i..hi` that is not blank, or `hi`.
pub open spec fn skip_blank(t: Seq<char>, i: int, hi: int) -> int
    decreases hi - i,
{
    if i < hi && is_blank(t[i]) {
        skip_blank(t, i + 1, hi)
    } else {
        i
    }
}

/// The end of `lo..j` once trailing blanks are dropped.
pub open spec fn back_blank(t: Seq<char>, lo: int, j: int) -> int
    decreases j - lo,
{
    if lo < j && is_blank(t[j - 1]) {
        back_blank(t, lo, j - 1)
    } else {
        j
    }
}

/// The text of `lo..hi` with surrounding blanks trimmed.
pub open spec fn field(t: Seq<char>, lo: int, hi: int) -> Seq<char> {
    let a = skip_blank(t, lo, hi);
    t.subrange(a, back_blank(t, a, hi))
}

/// An empty field counts as absent.
pub open spec fn present(s: Seq<char>) -> Option<Seq<char>> {
    if s.len() == 0 {
        None
    } else {
        Some(s)
    }
}

/// The rule that the line `lo..hi` of `t` states, if it states one.
/// Comment lines, lines without a complete `<...>` email and lines whose
/// email to match on is empty state none; text after the last `>` is
/// ignored. A line with one email gives the name for that email.
pub open spec fn parse_line(t: Seq<char>, lo: int, hi: int) -> Option<EntryModel> {
    let first = skip_blank(t, lo, hi);
    let lt1 = find_from(t, '<', lo, hi);
    let gt1 = find_from(t, '>', lt1 + 1, hi);
    let lt2 = find_from(t, '<', gt1 + 1, hi);
    let gt2 = find_from(t, '>', lt2 + 1, hi);
    let name1 = field(t, lo, lt1);
    let email1 = field(t, lt1 + 1, gt1);
    if first < hi && t[first] == '#' {
        None
    } else if lt1 < 0 || gt1 < 0 {
        None
    } else if lt2 < 0 {
        if email1.len() == 0 {
            None
        } else {
            Some(
                EntryModel {
                    real_name: present(name1),
                    real_email: None,
                    replace_name: None,
                    replace_email: email1,
                },
            )
        }
    } else if gt2 < 0 {
        None
    } else {
        let email2 = field(t, lt2 + 1, gt2);
        if email2.len() == 0 {
            None
        } else {
            Some(
                EntryModel {
                    real_name: present(name1),
                    real_email: present(email1),
                    replace_name: present(field(t, gt1 + 1, lt2)),
                    replace_email: email2,
                },
            )
        }
    }
}

/// Where the line that starts at `start` ends.
pub open spec fn line_end(t: Seq<char>, start: int) -> int {
    let nl = find_from(t, '\n', start, t.len() as int);
    if nl < 0 {
        t.len() as int
    } else {
        nl
    }
}

/// The rules stated by the lines of `t` from `start` on, in order.
pub open spec fn parse_entries(t: Seq<char>, start: int) -> Seq<EntryModel>
    decreases t.len() - start,
{
    let end = line_end(t, start);
    if start < 0 || start >= t.len() || end < start {
        Seq::empty()
    } else {
        let rest = if end < t.len() {
            parse_entries(t, end + 1)
        } else {
            Seq::empty()
        };
        match parse_line(t, start, end) {
            Some(e) => seq![e] + rest,
            None => rest,
        }
    }
}

/// Exec form of `find_from`.
pub(crate) fn find_char(t: &Vec<char>, c: char, i: usize, hi: usize) -> (r: Option<usize>)
    requires
        i <= hi <= t.len(),
    ensures
        match r {
            Some(k) => k as int == find_from(t@, c, i as int, hi as int) && i <= k < hi,
            None => find_from(t@, c, i as int, hi as int) == -1,
        },
{
    let mut k: usize = i;
    while k < hi
        invariant
            i <= k <= hi <= t.len(),
            find_from(t@, c, i as int, hi as int) == find_from(t@, c, k as int, hi as int),
        decreases hi - k,
    {
        if t[k] == c {
            return Some(k);
        }
        k += 1;
    }
    None
}

/// Exec form of `skip_blank` followed by `back_blank`: the bounds of the
/// trimmed field.
fn trim_bounds(t: &Vec<char>, lo: usize, hi: usize) -> (r: (usize, usize))
    requires
        lo <= hi <= t.len(),
    ensures
        r.0 == skip_blank(t@, lo as int, hi as int),
        r.1 == back_blank(t@, r.0 as int, hi as int),
        lo <= r.0 <= r.1 <= hi,
{
    let mut a: usize = lo;
    while a < hi && (t[a] == ' ' || t[a] == '\t' || t[a] == '\r')
        invariant
            lo <= a <= hi <= t.len(),
            skip_blank(t@, lo as int, hi as int) == skip_blank(t@, a as int, hi as int),
        decreases hi - a,
    {
        a += 1;
    }
    let mut b: usize = hi;
    while a < b && (t[b - 1] == ' ' || t[b - 1] == '\t' || t[b - 1] == '\r')
        invariant
            lo <= a <= b <= hi <= t.len(),
            back_blank(t@, a as int, hi as int) == back_blank(t@, a as int, b as int),
        decreases b,
    {
        b -= 1;
    }
    (a, b)
}

/// The characters of `t` in `a..b`.
fn chars_between(t: &Vec<char>, a: usize, b: usize) -> (r: Vec<char>)
    requires
        a <= b <= t.len(),
    ensures
        r@ == t@.subrange(a as int, b as int),
{
    let mut r: Vec<char> = Vec::new();
    let mut k: usize = a;
    while k < b
        invariant
            a <= k <= b <= t.len(),
            r@ == t@.subrange(a as int, k as int),
        decreases b - k,
    {
        r.push(t[k]);
        k += 1;
        assert(r@ =~= t@.subrange(a as int, k as int));
    }
    r
}

/// Relies on `String`'s `FromIterator<char>`: the string holds the
/// characters in the order given.
#[verifier::external_body]
fn text_between(t: &Vec<char>, a: usize, b: usize) -> (r: String)
    requires
        a <= b <= t.len(),
    ensures
        r@ == t@.subrange(a as int, b as int),
{
    t[a..b].iter().collect()
}

/// The field in `lo..hi` as a string, if it is not empty.
fn text_field(t: &Vec<char>, lo: usize, hi: usize) -> (r: Option<String>)
    requires
        lo <= hi <= t.len(),
    ensures
        match r {
            Some(s) => present(field(t@, lo as int, hi as int)) == Some(s@),
            None => present(field(t@, lo as int, hi as int)) is None,
        },
{
    let (a, b) = trim_bounds(t, lo, hi);
    if a == b {
        None
    } else {
        Some(text_between(t, a, b))
    }
}

/// The field in `lo..hi` as characters, if it is not empty.
fn chars_field(t: &Vec<char>, lo: usize, hi: usize) -> (r: Option<Vec<char>>)
    requires
        lo <= hi <= t.len(),
    ensures
        match r {
            Some(s) => present(field(t@, lo as int, hi as int)) == Some(s@),
            None => present(field(t@, lo as int, hi as int)) is None,
        },
{
    let (a, b) = trim_bounds(t, lo, hi);
    if a == b {
        None
    } else {
        Some(chars_between(t, a, b))
    }
}

/// Parses the line `lo..hi` of `t` into a rule, or skips it.
pub(crate) fn parse_line_exec(t: &Vec<char>, lo: usize, hi: usize) -> (r: Option<Entry>)
    requires
        lo <= hi <= t.len(),
    ensures
        match r {
            Some(e) => parse_line(t@, lo as int, hi as int) == Some(e@),
            None => parse_line(t@, lo as int, hi as int) is None,
        },
{
    let (first, _) = trim_bounds(t, lo, hi);
    if first < hi && t[first] == '#' {
        return None;
    }
    let lt1 = match find_char(t, '<', lo, hi) {
        Some(k) => k,
        None => return None,
    };
    let gt1 = match find_char(t, '>', lt1 + 1, hi) {
        Some(k) => k,
        None => return None,
    };
    let real_name = text_field(t, lo, lt1);
    match find_char(t, '<', gt1 + 1, hi) {
        None => {
            let replace_email = match chars_field(t, lt1 + 1, gt1) {
                Some(e) => e,
                None => return None,
            };
            Some(Entry::from_parts(real_name, None, None, replace_email))
        },
        Some(lt2) => {
            let gt2 = match find_char(t, '>', lt2 + 1, hi) {
                Some(k) => k,
                None => return None,
            };
            let replace_email = match chars_field(t, lt2 + 1, gt2) {
                Some(e) => e,
                None => return None,
            };
            let real_email = text_field(t, lt1 + 1, gt1);
            let replace_name = chars_field(t, gt1 + 1, lt2);
            Some(Entry::from_parts(real_name, real_email, replace_name, replace_email))
        },
    }
}

} // verus!
