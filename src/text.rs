//! Text over characters: whitespace, trimming, searching and splitting, as
//! mathematical functions on `Seq<char>` and as executable code on a
//! `Vec<char>` and a span `[lo, hi)` of it.
use vstd::prelude::*;

verus! {

/// Unicode white space, the characters for which `char::is_whitespace` holds.
pub open spec fn is_ws(c: char) -> bool {
    ||| c == '\t'
    ||| c == '\n'
    ||| c == '\x0B'
    ||| c == '\x0C'
    ||| c == '\r'
    ||| c == ' '
    ||| c == '\u{85}'
    ||| c == '\u{A0}'
    ||| c == '\u{1680}'
    ||| (0x2000 <= (c as u32) <= 0x200A)
    ||| c == '\u{2028}'
    ||| c == '\u{2029}'
    ||| c == '\u{202F}'
    ||| c == '\u{205F}'
    ||| c == '\u{3000}'
}

/// `s` without its leading white space.
pub open spec fn trim_start(s: Seq<char>) -> Seq<char>
    decreases s.len(),
{
    if s.len() > 0 && is_ws(s[0]) {
        trim_start(s.drop_first())
    } else {
        s
    }
}

/// `s` without its trailing white space.
pub open spec fn trim_end(s: Seq<char>) -> Seq<char>
    decreases s.len(),
{
    if s.len() > 0 && is_ws(s.last()) {
        trim_end(s.drop_last())
    } else {
        s
    }
}

/// `s` without leading and trailing white space.
pub open spec fn trim(s: Seq<char>) -> Seq<char> {
    trim_end(trim_start(s))
}

/// `s` begins with `p`.
pub open spec fn starts_with(s: Seq<char>, p: Seq<char>) -> bool {
    p.len() <= s.len() && s.take(p.len() as int) == p
}

/// `p` occurs in `s` at position `i`.
pub open spec fn occurs_at(s: Seq<char>, p: Seq<char>, i: int) -> bool {
    0 <= i && i + p.len() <= s.len() && s.subrange(i, i + p.len()) == p
}

/// `i` is the first position at which `p` occurs in `s`.
pub open spec fn is_first(s: Seq<char>, p: Seq<char>, i: int) -> bool {
    occurs_at(s, p, i) && forall|j: int| 0 <= j < i ==> !occurs_at(s, p, j)
}

/// The first position at which `p` occurs in `s`.
pub open spec fn find(s: Seq<char>, p: Seq<char>) -> Option<int> {
    if exists|i: int| is_first(s, p, i) {
        Some(choose|i: int| is_first(s, p, i))
    } else {
        None
    }
}

/// `i` is the last position of the character `c` in `s`.
pub open spec fn is_last_char(s: Seq<char>, c: char, i: int) -> bool {
    0 <= i < s.len() && s[i] == c && forall|j: int| i < j < s.len() ==> s[j] != c
}

/// The last position of the character `c` in `s`.
pub open spec fn rfind_char(s: Seq<char>, c: char) -> Option<int> {
    if exists|i: int| is_last_char(s, c, i) {
        Some(choose|i: int| is_last_char(s, c, i))
    } else {
        None
    }
}

/// `p` occurs in `s`.
pub open spec fn contains(s: Seq<char>, p: Seq<char>) -> bool {
    find(s, p) is Some
}

/// The pieces of `s` between occurrences of the character `c`.
pub open spec fn split(s: Seq<char>, c: char) -> Seq<Seq<char>>
    decreases s.len(),
{
    match find(s, seq![c]) {
        Some(i) => if 0 <= i < s.len() {
            seq![s.take(i)] + split(s.skip(i + 1), c)
        } else {
            seq![s]
        },
        None => seq![s],
    }
}

/// The lines of `s`: the pieces between line feeds, without the empty piece
/// after a final line feed. A carriage return before a line feed stays in its
/// line.
pub open spec fn lines(s: Seq<char>) -> Seq<Seq<char>> {
    let p = split(s, '\n');
    if p.last().len() == 0 {
        p.drop_last()
    } else {
        p
    }
}

pub proof fn lemma_find_is(s: Seq<char>, p: Seq<char>, i: int)
    requires
        is_first(s, p, i),
    ensures
        find(s, p) == Some(i),
{
    let k = choose|k: int| is_first(s, p, k);
    assert(is_first(s, p, k));
    if k < i {
        assert(!occurs_at(s, p, k));
    } else if i < k {
        assert(!occurs_at(s, p, i));
    }
}

pub proof fn lemma_find_none(s: Seq<char>, p: Seq<char>)
    requires
        forall|j: int| !occurs_at(s, p, j),
    ensures
        find(s, p) is None,
{
}

pub proof fn lemma_rfind_is(s: Seq<char>, c: char, i: int)
    requires
        is_last_char(s, c, i),
    ensures
        rfind_char(s, c) == Some(i),
{
    let k = choose|k: int| is_last_char(s, c, k);
    assert(is_last_char(s, c, k));
}

/// Relies on `String::push`: appends one character at the end.
#[verifier::external_body]
pub(crate) fn push_char(s: &mut String, c: char)
    ensures
        final(s)@ == old(s)@.push(c),
{
    s.push(c);
}

/// The characters of `s`, in order.
pub fn chars_of(s: &str) -> (v: Vec<char>)
    ensures
        v@ == s@,
{
    let mut v: Vec<char> = Vec::new();
    for c in it: s.chars()
        invariant
            v@ == it.seq().take(it.index() as int),
    {
        v.push(c);
    }
    assert(v@ =~= s@);
    v
}

/// Appends the characters `v[lo..hi]` to `out`.
pub fn append_span(out: &mut String, v: &Vec<char>, lo: usize, hi: usize)
    requires
        lo <= hi <= v.len(),
    ensures
        final(out)@ == old(out)@ + v@.subrange(lo as int, hi as int),
{
    let ghost start = out@;
    for i in lo..hi
        invariant
            hi <= v.len(),
            out@ == start + v@.subrange(lo as int, i as int),
    {
        push_char(out, v[i]);
        assert(v@.subrange(lo as int, i + 1) =~= v@.subrange(lo as int, i as int).push(v@[i as int]));
    }
}

/// A new string holding the characters `v[lo..hi]`.
pub fn string_of(v: &Vec<char>, lo: usize, hi: usize) -> (r: String)
    requires
        lo <= hi <= v.len(),
    ensures
        r@ == v@.subrange(lo as int, hi as int),
{
    let mut r = String::new();
    append_span(&mut r, v, lo, hi);
    assert(Seq::<char>::empty() + v@.subrange(lo as int, hi as int) =~= v@.subrange(lo as int, hi as int));
    r
}

/// Appends the characters of `s` to `out`.
pub fn append_str(out: &mut String, s: &str)
    ensures
        final(out)@ == old(out)@ + s@,
{
    let v = chars_of(s);
    append_span(out, &v, 0, v.len());
    assert(v@.subrange(0, v.len() as int) =~= v@);
}

/// Whether `c` is white space.
pub fn is_space(c: char) -> (r: bool)
    ensures
        r == is_ws(c),
{
    let u = c as u32;
    c == '\t' || c == '\n' || c == '\x0B' || c == '\x0C' || c == '\r' || c == ' ' || c == '\u{85}'
        || c == '\u{A0}' || c == '\u{1680}' || (0x2000 <= u && u <= 0x200A) || c == '\u{2028}'
        || c == '\u{2029}' || c == '\u{202F}' || c == '\u{205F}' || c == '\u{3000}'
}

/// The span of `v[lo..hi]` without leading white space.
pub fn trim_start_span(v: &Vec<char>, lo: usize, hi: usize) -> (r: usize)
    requires
        lo <= hi <= v.len(),
    ensures
        lo <= r <= hi,
        v@.subrange(r as int, hi as int) == trim_start(v@.subrange(lo as int, hi as int)),
{
    let mut i = lo;
    while i < hi && is_space(v[i])
        invariant
            lo <= i <= hi <= v.len(),
            trim_start(v@.subrange(lo as int, hi as int)) == trim_start(v@.subrange(i as int, hi as int)),
        decreases hi - i,
    {
        assert(v@.subrange(i as int, hi as int).drop_first() =~= v@.subrange(i + 1, hi as int));
        i = i + 1;
    }
    i
}

/// The span of `v[lo..hi]` without leading and trailing white space.
pub fn trim_span(v: &Vec<char>, lo: usize, hi: usize) -> (r: (usize, usize))
    requires
        lo <= hi <= v.len(),
    ensures
        lo <= r.0 <= r.1 <= hi,
        v@.subrange(r.0 as int, r.1 as int) == trim(v@.subrange(lo as int, hi as int)),
{
    let i = trim_start_span(v, lo, hi);
    let mut j = hi;
    while j > i && is_space(v[j - 1])
        invariant
            lo <= i <= j <= hi <= v.len(),
            trim_end(v@.subrange(i as int, hi as int)) == trim_end(v@.subrange(i as int, j as int)),
        decreases j,
    {
        assert(v@.subrange(i as int, j as int).drop_last() =~= v@.subrange(i as int, j - 1));
        j = j - 1;
    }
    (i, j)
}

/// Whether `p` occurs in `v[lo..hi]` at offset `i` from `lo`.
pub fn occurs_at_span(v: &Vec<char>, lo: usize, hi: usize, p: &Vec<char>, i: usize) -> (r: bool)
    requires
        lo <= hi <= v.len(),
    ensures
        r == occurs_at(v@.subrange(lo as int, hi as int), p@, i as int),
{
    let ghost s = v@.subrange(lo as int, hi as int);
    if p.len() > hi - lo || i > hi - lo - p.len() {
        return false;
    }
    let mut k: usize = 0;
    while k < p.len()
        invariant
            lo <= hi <= v.len(),
            s == v@.subrange(lo as int, hi as int),
            i + p.len() <= hi - lo,
            k <= p.len(),
            forall|m: int| 0 <= m < k ==> v@[lo + i + m] == p@[m],
        decreases p.len() - k,
    {
        if v[lo + i + k] != p[k] {
            assert(s.subrange(i as int, i + p.len())[k as int] != p@[k as int]);
            return false;
        }
        k = k + 1;
    }
    assert(s.subrange(i as int, i + p.len()) =~= p@);
    true
}

/// The first position, counted from `lo`, at which `p` occurs in `v[lo..hi]`.
pub fn find_span(v: &Vec<char>, lo: usize, hi: usize, p: &Vec<char>) -> (r: Option<usize>)
    requires
        lo <= hi <= v.len(),
    ensures
        r == (match find(v@.subrange(lo as int, hi as int), p@) {
            Some(i) => Some(i as usize),
            None => None,
        }),
        r matches Some(i) ==> i + p.len() <= hi - lo,
{
    let ghost s = v@.subrange(lo as int, hi as int);
    let mut i: usize = 0;
    while i < hi - lo
        invariant
            lo <= hi <= v.len(),
            i <= hi - lo,
            s == v@.subrange(lo as int, hi as int),
            forall|j: int| 0 <= j < i ==> !occurs_at(s, p@, j),
        decreases hi - lo - i,
    {
        if occurs_at_span(v, lo, hi, p, i) {
            proof { lemma_find_is(s, p@, i as int); }
            return Some(i);
        }
        i = i + 1;
    }
    if occurs_at_span(v, lo, hi, p, i) {
        proof { lemma_find_is(s, p@, i as int); }
        return Some(i);
    }
    proof {
        assert forall|j: int| !occurs_at(s, p@, j) by {
            if j > i {
                assert(!(j + p@.len() <= s.len()));
            }
        }
        lemma_find_none(s, p@);
    }
    None
}

/// The first position, counted from `lo`, of the character `c` in `v[lo..hi]`.
pub fn find_char_span(v: &Vec<char>, lo: usize, hi: usize, c: char) -> (r: Option<usize>)
    requires
        lo <= hi <= v.len(),
    ensures
        r == (match find(v@.subrange(lo as int, hi as int), seq![c]) {
            Some(i) => Some(i as usize),
            None => None,
        }),
        r matches Some(i) ==> lo + i < hi && v@[lo + i] == c,
{
    let ghost s = v@.subrange(lo as int, hi as int);
    let mut i: usize = lo;
    while i < hi
        invariant
            lo <= i <= hi <= v.len(),
            s == v@.subrange(lo as int, hi as int),
            forall|j: int| 0 <= j < i - lo ==> !occurs_at(s, seq![c], j),
        decreases hi - i,
    {
        if v[i] == c {
            proof {
                assert(s.subrange(i - lo, i - lo + 1) =~= seq![c]);
                lemma_find_is(s, seq![c], i - lo);
            }
            return Some(i - lo);
        }
        assert(!occurs_at(s, seq![c], i - lo)) by {
            if occurs_at(s, seq![c], i - lo) {
                assert(s.subrange(i - lo, i - lo + 1)[0] == c);
            }
        }
        i = i + 1;
    }
    proof {
        assert forall|j: int| !occurs_at(s, seq![c], j) by {
            if j >= i - lo {
                assert(!(j + 1 <= s.len()));
            }
        }
        lemma_find_none(s, seq![c]);
    }
    None
}

/// The last position, counted from `lo`, of the character `c` in `v[lo..hi]`.
pub fn rfind_char_span(v: &Vec<char>, lo: usize, hi: usize, c: char) -> (r: Option<usize>)
    requires
        lo <= hi <= v.len(),
    ensures
        r == (match rfind_char(v@.subrange(lo as int, hi as int), c) {
            Some(i) => Some(i as usize),
            None => None,
        }),
        r matches Some(i) ==> lo + i < hi,
{
    let ghost s = v@.subrange(lo as int, hi as int);
    let mut j: usize = hi;
    while j > lo
        invariant
            lo <= j <= hi <= v.len(),
            s == v@.subrange(lo as int, hi as int),
            forall|k: int| j - lo <= k < s.len() ==> s[k] != c,
        decreases j,
    {
        if v[j - 1] == c {
            proof { lemma_rfind_is(s, c, j - 1 - lo); }
            return Some(j - 1 - lo);
        }
        j = j - 1;
    }
    None
}

/// The pieces that spans `r` mark out of `v`.
pub open spec fn spans_view(v: Seq<char>, r: Seq<(usize, usize)>) -> Seq<Seq<char>> {
    r.map_values(|p: (usize, usize)| v.subrange(p.0 as int, p.1 as int))
}

/// Every span of `r` lies inside `v`.
pub open spec fn spans_in(v: Seq<char>, r: Seq<(usize, usize)>) -> bool {
    forall|k: int| 0 <= k < r.len() ==> (#[trigger] r[k]).0 <= r[k].1 <= v.len()
}

pub proof fn lemma_split_nonempty(s: Seq<char>, c: char)
    ensures
        split(s, c).len() >= 1,
{
    reveal_with_fuel(split, 1);
}

/// The pieces of `v[lo..hi]` between occurrences of `c`, as spans of `v`.
pub fn split_span(v: &Vec<char>, lo: usize, hi: usize, c: char) -> (r: Vec<(usize, usize)>)
    requires
        lo <= hi <= v.len(),
    ensures
        spans_in(v@, r@),
        spans_view(v@, r@) == split(v@.subrange(lo as int, hi as int), c),
{
    let ghost whole = split(v@.subrange(lo as int, hi as int), c);
    let mut pieces: Vec<(usize, usize)> = Vec::new();
    let mut start = lo;
    loop
        invariant_except_break
            whole == spans_view(v@, pieces@) + split(v@.subrange(start as int, hi as int), c),
        invariant
            lo <= start <= hi <= v.len(),
            spans_in(v@, pieces@),
            whole == split(v@.subrange(lo as int, hi as int), c),
        ensures
            whole == spans_view(v@, pieces@),
        decreases hi - start,
    {
        let ghost sub = v@.subrange(start as int, hi as int);
        match find_char_span(v, start, hi, c) {
            Some(i) => {
                proof {
                    assert(sub.take(i as int) =~= v@.subrange(start as int, start + i));
                    assert(sub.skip(i + 1) =~= v@.subrange(start + i + 1, hi as int));
                    assert(split(sub, c) == seq![sub.take(i as int)] + split(sub.skip(i + 1), c));
                }
                let ghost before = pieces@;
                pieces.push((start, start + i));
                proof {
                    assert(spans_view(v@, pieces@) =~= spans_view(v@, before).push(
                        v@.subrange(start as int, start + i),
                    ));
                    assert(whole =~= spans_view(v@, pieces@) + split(
                        v@.subrange(start + i + 1, hi as int),
                        c,
                    ));
                }
                start = start + i + 1;
            },
            None => {
                proof {
                    assert(split(sub, c) == seq![sub]);
                }
                let ghost before = pieces@;
                pieces.push((start, hi));
                proof {
                    assert(spans_view(v@, pieces@) =~= spans_view(v@, before).push(sub));
                    assert(whole =~= spans_view(v@, pieces@));
                }
                break ;
            },
        }
    }
    pieces
}

/// The lines of `v`, as spans of `v`.
pub fn lines_span(v: &Vec<char>) -> (r: Vec<(usize, usize)>)
    ensures
        spans_in(v@, r@),
        spans_view(v@, r@) == lines(v@),
{
    let mut pieces = split_span(v, 0, v.len(), '\n');
    proof {
        assert(v@.subrange(0, v.len() as int) =~= v@);
        lemma_split_nonempty(v@, '\n');
    }
    let last = pieces[pieces.len() - 1];
    if last.0 == last.1 {
        let ghost before = pieces@;
        pieces.pop();
        proof {
            assert(spans_view(v@, pieces@) =~= spans_view(v@, before).drop_last());
        }
    }
    pieces
}

/// Whether `v[lo..hi]` begins with `p`.
pub fn span_starts_with(v: &Vec<char>, lo: usize, hi: usize, p: &str) -> (r: bool)
    requires
        lo <= hi <= v.len(),
    ensures
        r == starts_with(v@.subrange(lo as int, hi as int), p@),
{
    let pv = chars_of(p);
    let r = occurs_at_span(v, lo, hi, &pv, 0);
    assert(v@.subrange(lo as int, hi as int).take(p@.len() as int) =~= v@.subrange(lo as int, hi as int).subrange(0, p@.len() as int));
    r
}

/// The values of a sequence of strings.
pub open spec fn strings_view(v: Seq<String>) -> Seq<Seq<char>> {
    v.map_values(|s: String| s@)
}

/// A vector of owned copies of `words`, in order.
pub fn to_strings(words: &[&str]) -> (r: Vec<String>)
    ensures
        r.len() == words@.len(),
        forall|i: int| 0 <= i < words@.len() ==> (#[trigger] r@[i])@ == words@[i]@,
{
    let mut r: Vec<String> = Vec::new();
    for i in 0..words.len()
        invariant
            r.len() == i,
            forall|k: int| 0 <= k < i ==> (#[trigger] r@[k])@ == words@[k]@,
    {
        r.push(words[i].to_string());
    }
    r
}

} // verus!
