//! Text helpers: decimal rendering, comparison, search, cutting and
//! trimming, and the case folding the library relies on.

use vstd::prelude::*;

verus! {

/// The decimal digit character for `d < 10`.
pub open spec fn digit_char(d: nat) -> char {
    if d == 0 { '0' }
    else if d == 1 { '1' }
    else if d == 2 { '2' }
    else if d == 3 { '3' }
    else if d == 4 { '4' }
    else if d == 5 { '5' }
    else if d == 6 { '6' }
    else if d == 7 { '7' }
    else if d == 8 { '8' }
    else { '9' }
}

/// The decimal rendering of `n`, without sign or leading zeros.
pub open spec fn decimal(n: nat) -> Seq<char>
    decreases n,
{
    if n < 10 {
        seq![digit_char(n)]
    } else {
        decimal(n / 10).push(digit_char(n % 10))
    }
}

fn digit_str(d: u64) -> (r: &'static str)
    requires
        d < 10,
    ensures
        r@ == seq![digit_char(d as nat)],
{
    proof {
        reveal_strlit("0");
        reveal_strlit("1");
        reveal_strlit("2");
        reveal_strlit("3");
        reveal_strlit("4");
        reveal_strlit("5");
        reveal_strlit("6");
        reveal_strlit("7");
        reveal_strlit("8");
        reveal_strlit("9");
    }
    match d {
        0 => "0",
        1 => "1",
        2 => "2",
        3 => "3",
        4 => "4",
        5 => "5",
        6 => "6",
        7 => "7",
        8 => "8",
        _ => "9",
    }
}

/// Renders `n` in decimal.
pub fn decimal_string(n: u64) -> (r: String)
    ensures
        r@ == decimal(n as nat),
    decreases n,
{
    if n < 10 {
        String::from_str(digit_str(n))
    } else {
        let head = decimal_string(n / 10);
        let r = head.concat(digit_str(n % 10));
        proof {
            assert(r@ =~= decimal(n as nat));
        }
        r
    }
}

/// Whether two strings hold the same characters.
pub fn same_text(a: &str, b: &str) -> (r: bool)
    ensures
        r == (a@ == b@),
{
    let x = String::from_str(a);
    let y = String::from_str(b);
    x == y
}

/// What `str::to_lowercase` makes of a text.
pub uninterp spec fn lower_of(s: Seq<char>) -> Seq<char>;

/// Relies on `str::to_lowercase`: the result depends on the characters alone.
#[verifier::external_body]
pub(crate) fn lowercase(s: &str) -> (r: String)
    ensures
        r@ == lower_of(s@),
{
    s.to_lowercase()
}

/// The index of the first `c` in `s` at or after `i`, or the length of `s`.
pub open spec fn index_from(s: Seq<char>, c: char, i: int) -> int
    decreases s.len() - i,
{
    if i < 0 || i >= s.len() {
        s.len() as int
    } else if s[i] == c {
        i
    } else {
        index_from(s, c, i + 1)
    }
}

/// The index of the first `c` in `s` at or after `from`, or `n`, the length
/// of `s`.
pub fn find_char(s: &str, c: char, from: usize, n: usize) -> (r: usize)
    requires
        n == s@.len(),
        from <= n,
    ensures
        r as int == index_from(s@, c, from as int),
        from <= r <= n,
{
    let mut i = from;
    while i < n
        invariant
            from <= i <= n,
            n == s@.len(),
            index_from(s@, c, i as int) == index_from(s@, c, from as int),
        decreases n - i,
    {
        if s.get_char(i) == c {
            return i;
        }
        i = i + 1;
    }
    i
}

/// What `str::trim` leaves of a text.
pub uninterp spec fn trim_of(s: Seq<char>) -> Seq<char>;

/// Relies on `str::trim`: the result depends on the characters alone.
#[verifier::external_body]
pub(crate) fn trim_text(s: &str) -> (r: String)
    ensures
        r@ == trim_of(s@),
{
    s.trim().to_string()
}

/// The pieces of `s` from index `i` on, cut at each `c`.
pub open spec fn pieces_from(s: Seq<char>, c: char, i: int) -> Seq<Seq<char>>
    decreases s.len() - i,
{
    if i < 0 || i > s.len() {
        Seq::empty()
    } else {
        let j = index_from(s, c, i);
        if j >= s.len() || j < i {
            seq![s.subrange(i, s.len() as int)]
        } else {
            seq![s.subrange(i, j)] + pieces_from(s, c, j + 1)
        }
    }
}

/// Cuts `s` at each `c`, as `str::split` does: `n + 1` pieces for `n` cuts.
pub fn split_at_char(s: &str, c: char) -> (r: Vec<String>)
    ensures
        r.deep_view() == pieces_from(s@, c, 0),
{
    let n = s.unicode_len();
    let mut out: Vec<String> = Vec::new();
    let mut i: usize = 0;
    loop
        invariant
            i <= n,
            n == s@.len(),
            out.deep_view() + pieces_from(s@, c, i as int) == pieces_from(s@, c, 0),
        decreases n - i,
    {
        let j = find_char(s, c, i, n);
        let ghost before = out.deep_view();
        out.push(String::from_str(s.substring_char(i, j)));
        if j >= n {
            proof {
                assert(out.deep_view() =~= before + pieces_from(s@, c, i as int));
            }
            return out;
        }
        proof {
            assert(out.deep_view() + pieces_from(s@, c, j + 1) =~= before + pieces_from(
                s@,
                c,
                i as int,
            ));
        }
        i = j + 1;
    }
}

/// The trimmed form of each of the first `n` lines whose trimmed form is not
/// empty.
pub open spec fn trimmed_nonempty(ls: Seq<Seq<char>>, n: int) -> Seq<Seq<char>>
    decreases n,
{
    if n <= 0 {
        Seq::empty()
    } else if trim_of(ls[n - 1]).len() > 0 {
        trimmed_nonempty(ls, n - 1).push(trim_of(ls[n - 1]))
    } else {
        trimmed_nonempty(ls, n - 1)
    }
}

/// Each line trimmed, without those that trim to nothing.
pub fn trim_lines(lines: &[String]) -> (r: Vec<String>)
    ensures
        r.deep_view() == trimmed_nonempty(lines@.map_values(|l: String| l@), lines@.len() as int),
{
    let ghost ls = lines@.map_values(|l: String| l@);
    let mut out: Vec<String> = Vec::new();
    let mut i: usize = 0;
    while i < lines.len()
        invariant
            i <= lines@.len(),
            ls == lines@.map_values(|l: String| l@),
            out.deep_view() == trimmed_nonempty(ls, i as int),
        decreases lines@.len() - i,
    {
        let t = trim_text(lines[i].as_str());
        proof {
            assert(ls[i as int] == lines@[i as int]@);
        }
        if t.unicode_len() > 0 {
            let ghost before = out.deep_view();
            out.push(t);
            proof {
                assert(out.deep_view() =~= before.push(trim_of(ls[i as int])));
            }
        }
        i = i + 1;
    }
    out
}

/// The first `n` lines whose trimmed form is not empty, untrimmed.
pub open spec fn nonblank(ls: Seq<Seq<char>>, n: int) -> Seq<Seq<char>>
    decreases n,
{
    if n <= 0 {
        Seq::empty()
    } else if trim_of(ls[n - 1]).len() > 0 {
        nonblank(ls, n - 1).push(ls[n - 1])
    } else {
        nonblank(ls, n - 1)
    }
}

/// The lines that hold more than white space, as they are.
pub fn nonblank_lines(lines: Vec<String>) -> (r: Vec<String>)
    ensures
        r.deep_view() == nonblank(lines.deep_view(), lines@.len() as int),
{
    let ghost ls = lines.deep_view();
    let mut out: Vec<String> = Vec::new();
    let mut i: usize = 0;
    while i < lines.len()
        invariant
            i <= lines@.len(),
            ls == lines.deep_view(),
            out.deep_view() == nonblank(ls, i as int),
        decreases lines@.len() - i,
    {
        let t = trim_text(lines[i].as_str());
        proof {
            assert(ls[i as int] == lines@[i as int]@);
        }
        if t.unicode_len() > 0 {
            let ghost before = out.deep_view();
            out.push(lines[i].clone());
            proof {
                assert(out.deep_view() =~= before.push(ls[i as int]));
            }
        }
        i = i + 1;
    }
    out
}

/// Whether `p` occurs in `t` at index `i`.
pub open spec fn occurs_at(t: Seq<char>, p: Seq<char>, i: int) -> bool {
    0 <= i && i + p.len() <= t.len() && t.subrange(i, i + p.len()) == p
}

/// Whether `p` occurs somewhere in `t` (an empty `p` always does).
pub open spec fn contains_text(t: Seq<char>, p: Seq<char>) -> bool {
    exists|i: int| occurs_at(t, p, i)
}

/// Whether `p` occurs in `t`.
pub fn text_contains(t: &str, p: &str) -> (r: bool)
    ensures
        r == contains_text(t@, p@),
{
    let n = t.unicode_len();
    let m = p.unicode_len();
    if m > n {
        proof {
            assert forall|i: int| !occurs_at(t@, p@, i) by {}
        }
        return false;
    }
    let limit = n - m;
    let mut i: usize = 0;
    while i < limit
        invariant
            m <= n,
            n == t@.len(),
            m == p@.len(),
            limit == n - m,
            i <= limit,
            forall|k: int| 0 <= k < i ==> !occurs_at(t@, p@, k),
        decreases limit - i,
    {
        if same_text(t.substring_char(i, i + m), p) {
            proof {
                assert(occurs_at(t@, p@, i as int));
            }
            return true;
        }
        i = i + 1;
    }
    if same_text(t.substring_char(limit, n), p) {
        proof {
            assert(occurs_at(t@, p@, limit as int));
        }
        return true;
    }
    proof {
        assert forall|k: int| !occurs_at(t@, p@, k) by {
            if 0 <= k < limit {
            } else if k == limit {
            }
        }
    }
    false
}

} // verus!
