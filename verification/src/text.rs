//! Character-level toolkit: searching, splitting, line scanning and trimming
//! over `&str`, each proved against a mathematical model on `Seq<char>`.

use vstd::prelude::*;

verus! {

// ---------------------------------------------------------------------------
// Whitespace
// ---------------------------------------------------------------------------

/// The Unicode white-space code points: the characters that trimming removes.
pub open spec fn is_space(c: char) -> bool {
    let u = c as u32;
    u == 0x09 || u == 0x0A || u == 0x0B || u == 0x0C || u == 0x0D || u == 0x20 || u == 0x85
        || u == 0xA0 || u == 0x1680 || (0x2000 <= u && u <= 0x200A) || u == 0x2028 || u == 0x2029
        || u == 0x202F || u == 0x205F || u == 0x3000
}

fn is_space_char(c: char) -> (r: bool)
    ensures
        r == is_space(c),
{
    let u: u32 = c as u32;
    u == 0x09 || u == 0x0A || u == 0x0B || u == 0x0C || u == 0x0D || u == 0x20 || u == 0x85
        || u == 0xA0 || u == 0x1680 || (0x2000 <= u && u <= 0x200A) || u == 0x2028 || u == 0x2029
        || u == 0x202F || u == 0x205F || u == 0x3000
}

// ---------------------------------------------------------------------------
// Searching for a pattern
// ---------------------------------------------------------------------------

/// The pattern `pat` occurs in `s` at position `i`.
pub open spec fn match_at(s: Seq<char>, pat: Seq<char>, i: int) -> bool {
    0 <= i && i + pat.len() <= s.len() && s.subrange(i, i + pat.len() as int) == pat
}

/// The first position at or after `from` where `pat` occurs in `s`, if any.
pub open spec fn find_from(s: Seq<char>, pat: Seq<char>, from: int) -> Option<int>
    decreases s.len() - from
        when 1 <= pat.len() && 0 <= from
{
    if from + pat.len() > s.len() {
        None
    } else if match_at(s, pat, from) {
        Some(from)
    } else {
        find_from(s, pat, from + 1)
    }
}

pub proof fn lemma_find_from_bounds(s: Seq<char>, pat: Seq<char>, from: int)
    requires
        1 <= pat.len(),
        0 <= from,
    ensures
        match find_from(s, pat, from) {
            Some(i) => from <= i && i + pat.len() <= s.len() && match_at(s, pat, i) && (forall|
                j: int,
            |
                from <= j < i ==> !match_at(s, pat, j)),
            None => forall|j: int| from <= j ==> !match_at(s, pat, j),
        },
    decreases s.len() - from,
{
    if from + pat.len() > s.len() {
    } else if match_at(s, pat, from) {
    } else {
        lemma_find_from_bounds(s, pat, from + 1);
    }
}

// ---------------------------------------------------------------------------
// Splitting
// ---------------------------------------------------------------------------

/// Split `s` at the first occurrence of `pat` into the text before and after it.
pub open spec fn split_once_at(s: Seq<char>, pat: Seq<char>) -> Option<(Seq<char>, Seq<char>)> {
    match find_from(s, pat, 0) {
        None => None,
        Some(i) => Some((s.take(i), s.skip(i + pat.len() as int))),
    }
}

/// The pieces of `s` between the occurrences of `pat`, starting at `from`.
/// There is always at least one piece; a separator at either end or two
/// adjacent separators yield empty pieces.
pub open spec fn split_from(s: Seq<char>, pat: Seq<char>, from: int) -> Seq<Seq<char>>
    decreases s.len() - from
        when 1 <= pat.len() && 0 <= from <= s.len()
        via split_from_decreases
{
    match find_from(s, pat, from) {
        None => seq![s.skip(from)],
        Some(i) => seq![s.subrange(from, i)] + split_from(s, pat, i + pat.len() as int),
    }
}

#[via_fn]
proof fn split_from_decreases(s: Seq<char>, pat: Seq<char>, from: int) {
    lemma_find_from_bounds(s, pat, from);
}

/// The pieces of a sequence of pieces that are not empty, in order.
pub open spec fn keep_nonempty(ts: Seq<Seq<char>>) -> Seq<Seq<char>>
    decreases ts.len(),
{
    if ts.len() == 0 {
        Seq::empty()
    } else if ts.first().len() > 0 {
        seq![ts.first()] + keep_nonempty(ts.drop_first())
    } else {
        keep_nonempty(ts.drop_first())
    }
}

/// The pieces of `ts` that are not empty, in order.
#[verifier::loop_isolation(false)]
pub fn keep_nonempty_vec(ts: &Vec<String>) -> (r: Vec<String>)
    ensures
        r.deep_view() == keep_nonempty(ts.deep_view()),
{
    let ghost full = ts.deep_view();
    let mut out: Vec<String> = Vec::new();
    proof {
        assert(full.skip(0) =~= full);
        assert(out.deep_view() =~= Seq::<Seq<char>>::empty());
        assert(out.deep_view() + keep_nonempty(full) =~= keep_nonempty(full));
    }
    let mut i: usize = 0;
    while i < ts.len()
        invariant
            0 <= i <= ts.len(),
            keep_nonempty(full) == out.deep_view() + keep_nonempty(full.skip(i as int)),
        decreases ts.len() - i,
    {
        let ghost prev = out.deep_view();
        proof {
            assert(full.skip(i as int).first() == full[i as int]);
            assert(full.skip(i as int).drop_first() =~= full.skip(i + 1));
            assert(full[i as int] == ts@[i as int]@);
        }
        if ts[i].as_str().unicode_len() > 0 {
            let piece = ts[i].clone();
            out.push(piece);
            proof {
                assert(out.deep_view() =~= prev.push(full[i as int]));
                assert(out.deep_view() + keep_nonempty(full.skip(i + 1)) =~= prev + keep_nonempty(
                    full.skip(i as int),
                ));
            }
        } else {
            proof {
                assert(keep_nonempty(full.skip(i as int)) == keep_nonempty(full.skip(i + 1)));
            }
        }
        i = i + 1;
    }
    proof {
        assert(full.skip(i as int) =~= Seq::<Seq<char>>::empty());
        assert(keep_nonempty(full) =~= out.deep_view());
    }
    out
}

// ---------------------------------------------------------------------------
// Lines
// ---------------------------------------------------------------------------

/// A line piece with a trailing carriage return removed, as the line splitter
/// does for lines that ended in a carriage return plus line feed.
pub open spec fn strip_cr(t: Seq<char>) -> Seq<char> {
    if t.len() > 0 && t.last() == '\r' {
        t.drop_last()
    } else {
        t
    }
}

/// The lines of `s` from position `from` on: pieces split at each line feed,
/// a carriage return before the line feed dropped, and no final empty piece
/// after a terminating line feed.
pub open spec fn lines_from(s: Seq<char>, from: int) -> Seq<Seq<char>>
    decreases s.len() - from
        when 0 <= from
        via lines_from_decreases
{
    if from >= s.len() {
        Seq::empty()
    } else {
        match find_from(s, seq!['\n'], from) {
            None => seq![s.skip(from)],
            Some(i) => seq![strip_cr(s.subrange(from, i))] + lines_from(s, i + 1),
        }
    }
}

#[via_fn]
proof fn lines_from_decreases(s: Seq<char>, from: int) {
    if from < s.len() {
        lemma_find_from_bounds(s, seq!['\n'], from);
    }
}

/// The lines of a text.
pub open spec fn spec_lines(s: Seq<char>) -> Seq<Seq<char>> {
    lines_from(s, 0)
}

// ---------------------------------------------------------------------------
// Prefixes and trimming
// ---------------------------------------------------------------------------

/// `p` is a prefix of `s`.
pub open spec fn has_prefix(s: Seq<char>, p: Seq<char>) -> bool {
    p.len() <= s.len() && s.take(p.len() as int) == p
}

pub open spec fn trim_start(s: Seq<char>) -> Seq<char>
    decreases s.len(),
{
    if s.len() > 0 && is_space(s.first()) {
        trim_start(s.drop_first())
    } else {
        s
    }
}

pub open spec fn trim_end(s: Seq<char>) -> Seq<char>
    decreases s.len(),
{
    if s.len() > 0 && is_space(s.last()) {
        trim_end(s.drop_last())
    } else {
        s
    }
}

/// `s` with every leading and trailing white-space character removed.
pub open spec fn spec_trim(s: Seq<char>) -> Seq<char> {
    trim_end(trim_start(s))
}

// ---------------------------------------------------------------------------
// Executable searching
// ---------------------------------------------------------------------------

/// First occurrence of the single character `c` in `s` at or after `from`.
#[verifier::loop_isolation(false)]
pub fn find_char(s: &str, n: usize, from: usize, c: char) -> (r: Option<usize>)
    requires
        n == s@.len(),
        from <= n,
    ensures
        match r {
            Some(i) => find_from(s@, seq![c], from as int) == Some(i as int) && from <= i < n
                && s@[i as int] == c,
            None => find_from(s@, seq![c], from as int) is None,
        },
{
    let mut i: usize = from;
    while i < n
        invariant
            from <= i <= n,
            find_from(s@, seq![c], from as int) == find_from(s@, seq![c], i as int),
        decreases n - i,
    {
        let ch = s.get_char(i);
        if ch == c {
            proof {
                assert(s@.subrange(i as int, i + 1) =~= seq![c]);
                assert(match_at(s@, seq![c], i as int));
            }
            return Some(i);
        }
        proof {
            if match_at(s@, seq![c], i as int) {
                assert(s@.subrange(i as int, i + 1)[0] == c);
                assert(s@[i as int] == c);
            }
        }
        i = i + 1;
    }
    None
}

/// First occurrence of the pattern `pat` in `s` at or after `from`.
#[verifier::loop_isolation(false)]
pub fn find_pat(s: &str, n: usize, from: usize, pat: &Vec<char>) -> (r: Option<usize>)
    requires
        n == s@.len(),
        from <= n,
        1 <= pat@.len(),
    ensures
        match r {
            Some(i) => find_from(s@, pat@, from as int) == Some(i as int) && from <= i
                && i + pat@.len() <= n,
            None => find_from(s@, pat@, from as int) is None,
        },
{
    let plen: usize = pat.len();
    if plen > n || from > n - plen {
        return None;
    }
    let mut i: usize = from;
    while i <= n - plen
        invariant
            from <= i,
            i <= n - plen + 1,
            find_from(s@, pat@, from as int) == find_from(s@, pat@, i as int),
        decreases n - i,
    {
        proof {
            assert(i + plen <= n);
        }
        let mut k: usize = 0;
        let mut matched: bool = true;
        while k < plen
            invariant
                0 <= k <= plen,
                i + plen <= n,
                matched ==> forall|l: int| 0 <= l < k ==> s@[i + l] == pat@[l],
                !matched ==> !match_at(s@, pat@, i as int),
            decreases plen - k,
        {
            if s.get_char(i + k) != pat[k] {
                matched = false;
                proof {
                    assert(s@.subrange(i as int, i + plen)[k as int] != pat@[k as int]);
                    assert(!match_at(s@, pat@, i as int));
                }
                break ;
            }
            k = k + 1;
        }
        if matched {
            proof {
                assert(s@.subrange(i as int, i + plen) =~= pat@);
                assert(match_at(s@, pat@, i as int));
            }
            return Some(i);
        }
        i = i + 1;
    }
    proof {
        assert(find_from(s@, pat@, i as int) is None);
    }
    None
}

// ---------------------------------------------------------------------------
// Executable extraction and comparison
// ---------------------------------------------------------------------------

/// A freshly owned copy of the characters of `s` from `a` to `b`.
pub fn sub_string(s: &str, a: usize, b: usize) -> (r: String)
    requires
        a <= b <= s@.len(),
    ensures
        r@ == s@.subrange(a as int, b as int),
{
    s.substring_char(a, b).to_owned()
}

/// Character-for-character equality of two strings.
#[verifier::loop_isolation(false)]
pub fn str_eq(a: &str, b: &str) -> (r: bool)
    ensures
        r == (a@ == b@),
{
    let na: usize = a.unicode_len();
    let nb: usize = b.unicode_len();
    if na != nb {
        return false;
    }
    let mut k: usize = 0;
    while k < na
        invariant
            0 <= k <= na,
            na == a@.len() && na == b@.len(),
            forall|l: int| 0 <= l < k ==> a@[l] == b@[l],
        decreases na - k,
    {
        if a.get_char(k) != b.get_char(k) {
            return false;
        }
        k = k + 1;
    }
    proof {
        assert(a@ =~= b@);
    }
    true
}

/// Does `s` start with the prefix `p`?
#[verifier::loop_isolation(false)]
pub fn str_has_prefix(s: &str, p: &str) -> (r: bool)
    ensures
        r == has_prefix(s@, p@),
{
    let ns: usize = s.unicode_len();
    let np: usize = p.unicode_len();
    if np > ns {
        return false;
    }
    let mut k: usize = 0;
    while k < np
        invariant
            0 <= k <= np,
            ns == s@.len() && np == p@.len() && np <= ns,
            forall|l: int| 0 <= l < k ==> s@[l] == p@[l],
        decreases np - k,
    {
        if s.get_char(k) != p.get_char(k) {
            proof {
                assert(s@.take(np as int)[k as int] != p@[k as int]);
            }
            return false;
        }
        k = k + 1;
    }
    proof {
        assert(s@.take(np as int) =~= p@);
    }
    true
}

// ---------------------------------------------------------------------------
// Executable splitting
// ---------------------------------------------------------------------------

/// Split `s` on every occurrence of the character `c`.
#[verifier::loop_isolation(false)]
pub fn split_all_char(s: &str, n: usize, c: char) -> (r: Vec<String>)
    requires
        n == s@.len(),
    ensures
        r.deep_view() == split_from(s@, seq![c], 0),
        r.len() >= 1,
{
    let mut pieces: Vec<String> = Vec::new();
    let mut pos: usize = 0;
    loop
        invariant
            pos <= n,
            split_from(s@, seq![c], 0) == pieces.deep_view() + split_from(s@, seq![c], pos as int),
        decreases n - pos,
    {
        let ghost prev = pieces.deep_view();
        match find_char(s, n, pos, c) {
            None => {
                let piece = sub_string(s, pos, n);
                pieces.push(piece);
                proof {
                    assert(s@.skip(pos as int) =~= s@.subrange(pos as int, n as int));
                    assert(split_from(s@, seq![c], pos as int) =~= seq![s@.skip(pos as int)]);
                    assert(pieces.deep_view() =~= prev.push(s@.subrange(pos as int, n as int)));
                    assert(pieces.deep_view() =~= prev + seq![s@.skip(pos as int)]);
                    assert(split_from(s@, seq![c], 0) =~= pieces.deep_view());
                }
                return pieces;
            },
            Some(i) => {
                let piece = sub_string(s, pos, i);
                pieces.push(piece);
                proof {
                    assert(split_from(s@, seq![c], pos as int) =~= seq![
                        s@.subrange(pos as int, i as int),
                    ] + split_from(s@, seq![c], i + 1));
                    assert(pieces.deep_view() =~= prev.push(s@.subrange(pos as int, i as int)));
                    assert(pieces.deep_view() + split_from(s@, seq![c], i + 1) =~= prev
                        + split_from(s@, seq![c], pos as int));
                }
                pos = i + 1;
            },
        }
    }
}

/// Split `s` on every occurrence of the pattern `pat`.
#[verifier::loop_isolation(false)]
pub fn split_all_pat(s: &str, n: usize, pat: &Vec<char>) -> (r: Vec<String>)
    requires
        n == s@.len(),
        1 <= pat@.len(),
    ensures
        r.deep_view() == split_from(s@, pat@, 0),
        r.len() >= 1,
{
    let plen: usize = pat.len();
    let mut pieces: Vec<String> = Vec::new();
    let mut pos: usize = 0;
    loop
        invariant
            pos <= n,
            plen == pat@.len(),
            split_from(s@, pat@, 0) == pieces.deep_view() + split_from(s@, pat@, pos as int),
        decreases n - pos,
    {
        let ghost prev = pieces.deep_view();
        match find_pat(s, n, pos, pat) {
            None => {
                let piece = sub_string(s, pos, n);
                pieces.push(piece);
                proof {
                    assert(s@.skip(pos as int) =~= s@.subrange(pos as int, n as int));
                    assert(split_from(s@, pat@, pos as int) =~= seq![s@.skip(pos as int)]);
                    assert(pieces.deep_view() =~= prev.push(s@.subrange(pos as int, n as int)));
                    assert(pieces.deep_view() =~= prev + seq![s@.skip(pos as int)]);
                    assert(split_from(s@, pat@, 0) =~= pieces.deep_view());
                }
                return pieces;
            },
            Some(i) => {
                let piece = sub_string(s, pos, i);
                pieces.push(piece);
                proof {
                    assert(split_from(s@, pat@, pos as int) =~= seq![
                        s@.subrange(pos as int, i as int),
                    ] + split_from(s@, pat@, i + plen));
                    assert(pieces.deep_view() =~= prev.push(s@.subrange(pos as int, i as int)));
                    assert(pieces.deep_view() + split_from(s@, pat@, i + plen) =~= prev
                        + split_from(s@, pat@, pos as int));
                }
                pos = i + plen;
            },
        }
    }
}

/// The lines of `s`, as the model `spec_lines` gives them.
#[verifier::loop_isolation(false)]
pub fn lines_of(s: &str, n: usize) -> (r: Vec<String>)
    requires
        n == s@.len(),
    ensures
        r.deep_view() == spec_lines(s@),
{
    let mut out: Vec<String> = Vec::new();
    let mut pos: usize = 0;
    while pos < n
        invariant
            pos <= n,
            spec_lines(s@) == out.deep_view() + lines_from(s@, pos as int),
        decreases n - pos,
    {
        let ghost prev = out.deep_view();
        match find_char(s, n, pos, '\n') {
            None => {
                let piece = sub_string(s, pos, n);
                out.push(piece);
                proof {
                    assert(s@.skip(pos as int) =~= s@.subrange(pos as int, n as int));
                    assert(lines_from(s@, pos as int) =~= seq![s@.skip(pos as int)]);
                    assert(out.deep_view() =~= prev + lines_from(s@, pos as int));
                    assert(spec_lines(s@) =~= out.deep_view());
                }
                return out;
            },
            Some(i) => {
                let end: usize = if i > pos && s.get_char(i - 1) == '\r' {
                    i - 1
                } else {
                    i
                };
                let piece = sub_string(s, pos, end);
                out.push(piece);
                proof {
                    let line = s@.subrange(pos as int, i as int);
                    if i > pos && s@[i - 1] == '\r' {
                        assert(line.len() > 0 && line.last() == '\r');
                        assert(line.drop_last() =~= s@.subrange(pos as int, end as int));
                    } else {
                        assert(line.len() == 0 || line.last() != '\r');
                    }
                    assert(strip_cr(line) == s@.subrange(pos as int, end as int));
                    assert(lines_from(s@, pos as int) =~= seq![strip_cr(line)] + lines_from(
                        s@,
                        i + 1,
                    ));
                    assert(out.deep_view() =~= prev.push(strip_cr(line)));
                    assert(out.deep_view() + lines_from(s@, i + 1) =~= prev + lines_from(
                        s@,
                        pos as int,
                    ));
                }
                pos = i + 1;
            },
        }
    }
    proof {
        assert(lines_from(s@, pos as int) =~= Seq::<Seq<char>>::empty());
        assert(spec_lines(s@) =~= out.deep_view());
    }
    out
}

// ---------------------------------------------------------------------------
// Executable trimming
// ---------------------------------------------------------------------------

/// The bounds of the trimmed core of `s`: `spec_trim(s@)` is exactly
/// `s@.subrange(r.0, r.1)`.
#[verifier::loop_isolation(false)]
pub fn trimmed_bounds(s: &str, n: usize) -> (r: (usize, usize))
    requires
        n == s@.len(),
    ensures
        r.0 <= r.1 <= n,
        spec_trim(s@) == s@.subrange(r.0 as int, r.1 as int),
{
    proof {
        assert(s@.skip(0) =~= s@);
    }
    let mut i: usize = 0;
    while i < n && is_space_char(s.get_char(i))
        invariant
            0 <= i <= n,
            trim_start(s@) == trim_start(s@.skip(i as int)),
        decreases n - i,
    {
        proof {
            assert(s@.skip(i as int).drop_first() =~= s@.skip(i + 1));
        }
        i = i + 1;
    }
    let ghost t = s@.skip(i as int);
    proof {
        assert(trim_start(s@) == t);
    }
    proof {
        assert(t.take((n - i) as int) =~= t);
    }
    let mut j: usize = n - i;
    while j > 0 && is_space_char(s.get_char(i + j - 1))
        invariant
            0 <= j <= n - i,
            t == s@.skip(i as int),
            trim_end(t) == trim_end(t.take(j as int)),
        decreases j,
    {
        proof {
            assert(t.take(j as int).last() == s@[i + j - 1]);
            assert(t.take(j as int).drop_last() =~= t.take(j - 1));
        }
        j = j - 1;
    }
    proof {
        assert(trim_end(t.take(j as int)) == t.take(j as int));
        assert(t.take(j as int) =~= s@.subrange(i as int, (i + j) as int));
    }
    (i, i + j)
}

} // verus!
