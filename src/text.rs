//! Character-sequence helpers shared by the renderer, the config checks and
//! the path arithmetic.
use vstd::prelude::*;

verus! {

/// Index of the first position `i >= from` with `t[i] == a` and `t[i + 1] == b`.
pub open spec fn find_pair(t: Seq<char>, a: char, b: char, from: int) -> Option<int>
    decreases t.len() - from,
{
    if from < 0 || from + 1 >= t.len() {
        None
    } else if t[from] == a && t[from + 1] == b {
        Some(from)
    } else {
        find_pair(t, a, b, from + 1)
    }
}

/// `s` holds the two-character sequence `a b` somewhere.
pub open spec fn has_pair(s: Seq<char>, a: char, b: char) -> bool {
    exists|i: int| 0 <= i && i + 1 < s.len() && #[trigger] s[i] == a && s[i + 1] == b
}

pub proof fn lemma_find_pair_bounds(t: Seq<char>, a: char, b: char, from: int)
    requires
        0 <= from,
    ensures
        find_pair(t, a, b, from) matches Some(i) ==> {
            &&& from <= i
            &&& i + 1 < t.len()
            &&& t[i] == a
            &&& t[i + 1] == b
            &&& forall|k: int| from <= k < i ==> !(#[trigger] t[k] == a && t[k + 1] == b)
        },
        find_pair(t, a, b, from) is None ==> forall|k: int|
            from <= k && k + 1 < t.len() ==> !(#[trigger] t[k] == a && t[k + 1] == b),
    decreases t.len() - from,
{
    if from + 1 < t.len() && !(t[from] == a && t[from + 1] == b) {
        lemma_find_pair_bounds(t, a, b, from + 1);
    }
}

/// First position at or after `from` where the pair `a b` starts.
pub fn find_pair_in(t: &Vec<char>, a: char, b: char, from: usize) -> (r: Option<usize>)
    ensures
        match r {
            Some(i) => find_pair(t@, a, b, from as int) == Some(i as int),
            None => find_pair(t@, a, b, from as int) is None,
        },
{
    let mut i: usize = from;
    while t.len() > 1 && i < t.len() - 1
        invariant
            from <= i,
            find_pair(t@, a, b, from as int) == find_pair(t@, a, b, i as int),
        decreases t.len() - i,
    {
        if t[i] == a && t[i + 1] == b {
            return Some(i);
        }
        i = i + 1;
    }
    None
}

/// Number of `' '` characters that start `s` at or after `i`, plus `i`.
pub open spec fn skip_spaces(s: Seq<char>, i: int) -> int
    decreases s.len() - i,
{
    if 0 <= i < s.len() && s[i] == ' ' {
        skip_spaces(s, i + 1)
    } else {
        i
    }
}

/// A whitespace character: space, tab, line feed or carriage return.
pub open spec fn is_blank_char(c: char) -> bool {
    c == ' ' || c == '\t' || c == '\n' || c == '\r'
}

/// First position at or after `i` that is not whitespace, or the length.
pub open spec fn skip_blank(s: Seq<char>, i: int) -> int
    decreases s.len() - i,
{
    if 0 <= i < s.len() && is_blank_char(s[i]) {
        skip_blank(s, i + 1)
    } else {
        i
    }
}

/// End of `s.subrange(lo, j)` once trailing whitespace is dropped.
pub open spec fn back_blank(s: Seq<char>, lo: int, j: int) -> int
    decreases j - lo,
{
    if lo < j && is_blank_char(s[j - 1]) {
        back_blank(s, lo, j - 1)
    } else {
        j
    }
}

/// `s` without its leading and trailing whitespace.
pub open spec fn trim_blank(s: Seq<char>) -> Seq<char> {
    let lo = skip_blank(s, 0);
    s.subrange(lo, back_blank(s, lo, s.len() as int))
}

/// Copy of `t[lo..hi]` without its leading and trailing whitespace.
pub fn trimmed_slice(t: &Vec<char>, lo: usize, hi: usize) -> (r: Vec<char>)
    requires
        lo <= hi <= t.len(),
    ensures
        r@ == trim_blank(t@.subrange(lo as int, hi as int)),
{
    let ghost s = t@.subrange(lo as int, hi as int);
    let mut a: usize = lo;
    while a < hi && blank_char(t[a])
        invariant
            lo <= a <= hi <= t.len(),
            s == t@.subrange(lo as int, hi as int),
            skip_blank(s, 0) == skip_blank(s, a - lo),
        decreases hi - a,
    {
        a = a + 1;
    }
    let mut b: usize = hi;
    while b > a && blank_char(t[b - 1])
        invariant
            lo <= a <= b <= hi <= t.len(),
            s == t@.subrange(lo as int, hi as int),
            skip_blank(s, 0) == a - lo,
            back_blank(s, a - lo, s.len() as int) == back_blank(s, a - lo, b - lo),
        decreases b - a,
    {
        b = b - 1;
    }
    let r = copy_range(t, a, b);
    assert(r@ =~= s.subrange(a - lo, b - lo));
    r
}

/// Whether `c` is whitespace.
pub fn blank_char(c: char) -> (r: bool)
    ensures
        r == is_blank_char(c),
{
    c == ' ' || c == '\t' || c == '\n' || c == '\r'
}

/// Copy of `t[lo..hi]`.
pub fn copy_range(t: &Vec<char>, lo: usize, hi: usize) -> (r: Vec<char>)
    requires
        lo <= hi <= t.len(),
    ensures
        r@ == t@.subrange(lo as int, hi as int),
{
    let mut r: Vec<char> = Vec::new();
    let mut i: usize = lo;
    while i < hi
        invariant
            lo <= i <= hi <= t.len(),
            r@ == t@.subrange(lo as int, i as int),
        decreases hi - i,
    {
        r.push(t[i]);
        i = i + 1;
        assert(r@ =~= t@.subrange(lo as int, i as int));
    }
    r
}

/// Appends `t[lo..hi]` to `out`.
pub fn append_range(out: &mut Vec<char>, t: &Vec<char>, lo: usize, hi: usize)
    requires
        lo <= hi <= t.len(),
    ensures
        final(out)@ == old(out)@ + t@.subrange(lo as int, hi as int),
{
    let ghost start = out@;
    let mut i: usize = lo;
    while i < hi
        invariant
            lo <= i <= hi <= t.len(),
            out@ == start + t@.subrange(lo as int, i as int),
        decreases hi - i,
    {
        out.push(t[i]);
        i = i + 1;
        assert(out@ =~= start + t@.subrange(lo as int, i as int));
    }
}

/// Appends all of `t` to `out`.
pub fn append_all(out: &mut Vec<char>, t: &Vec<char>)
    ensures
        final(out)@ == old(out)@ + t@,
{
    append_range(out, t, 0, t.len());
    assert(t@.subrange(0, t@.len() as int) =~= t@);
}

/// The characters of `s`, in order.
pub fn chars_of(s: &str) -> (r: Vec<char>)
    ensures
        r@ == s@,
{
    let mut out: Vec<char> = Vec::new();
    for c in it: s.chars()
        invariant
            it.seq() == s@,
            out@ == s@.take(it.index() as int),
    {
        out.push(c);
        proof {
            assert(out@ =~= s@.take(it.index() as int + 1));
        }
    }
    assert(out@ =~= s@);
    out
}

/// Relies on `String`'s `FromIterator<&char>`: the string holds the characters in order.
#[verifier::external_body]
pub(crate) fn string_of(v: &Vec<char>) -> (r: String)
    ensures
        r@ == v@,
{
    v.iter().collect()
}

/// Whether `a` and `b` hold the same characters.
pub fn same_chars(a: &Vec<char>, b: &Vec<char>) -> (r: bool)
    ensures
        r == (a@ == b@),
{
    if a.len() != b.len() {
        return false;
    }
    let mut i: usize = 0;
    while i < a.len()
        invariant
            a.len() == b.len(),
            i <= a.len(),
            forall|k: int| 0 <= k < i ==> a@[k] == b@[k],
        decreases a.len() - i,
    {
        if a[i] != b[i] {
            return false;
        }
        i = i + 1;
    }
    assert(a@ =~= b@);
    true
}

/// First position `i >= from` at which `p` occurs in `t`.
pub open spec fn find_sub(t: Seq<char>, p: Seq<char>, from: int) -> Option<int>
    decreases t.len() + 1 - from,
{
    if from < 0 || from + p.len() > t.len() {
        None
    } else if t.subrange(from, from + p.len()) == p {
        Some(from)
    } else {
        find_sub(t, p, from + 1)
    }
}

pub proof fn lemma_find_sub_bounds(t: Seq<char>, p: Seq<char>, from: int)
    requires
        0 <= from,
    ensures
        find_sub(t, p, from) matches Some(i) ==> from <= i && i + p.len() <= t.len(),
    decreases t.len() + 1 - from,
{
    if from + p.len() <= t.len() && t.subrange(from, from + p.len()) != p {
        lemma_find_sub_bounds(t, p, from + 1);
    }
}

/// Whether `p` occurs in `t` at `i`.
pub fn occurs_at(t: &Vec<char>, p: &Vec<char>, i: usize) -> (r: bool)
    requires
        i <= t.len(),
    ensures
        r == (i + p.len() <= t.len() && t@.subrange(i as int, i + p.len()) == p@),
{
    if p.len() > t.len() - i {
        return false;
    }
    let mut j: usize = 0;
    while j < p.len()
        invariant
            i + p.len() <= t.len(),
            j <= p.len(),
            forall|k: int| 0 <= k < j ==> t@[i + k] == p@[k],
        decreases p.len() - j,
    {
        if t[i + j] != p[j] {
            assert(t@.subrange(i as int, i + p.len())[j as int] != p@[j as int]);
            return false;
        }
        j = j + 1;
    }
    assert(t@.subrange(i as int, i + p.len()) =~= p@);
    true
}

/// First position at or after `from` at which `p` occurs in `t`.
pub fn find_sub_in(t: &Vec<char>, p: &Vec<char>, from: usize) -> (r: Option<usize>)
    ensures
        match r {
            Some(i) => find_sub(t@, p@, from as int) == Some(i as int),
            None => find_sub(t@, p@, from as int) is None,
        },
{
    if from > t.len() {
        return None;
    }
    let mut i: usize = from;
    loop
        invariant
            from <= i <= t.len(),
            find_sub(t@, p@, from as int) == find_sub(t@, p@, i as int),
        decreases t.len() - i,
    {
        if p.len() > t.len() - i {
            return None;
        }
        if occurs_at(t, p, i) {
            return Some(i);
        }
        if i == t.len() {
            assert(find_sub(t@, p@, i + 1) is None);
            return None;
        }
        i = i + 1;
    }
}

/// `s` without its leading and trailing whitespace.
pub fn trim(s: &str) -> (r: Vec<char>)
    ensures
        r@ == trim_blank(s@),
{
    let cs = chars_of(s);
    let r = trimmed_slice(&cs, 0, cs.len());
    assert(cs@.subrange(0, cs@.len() as int) =~= s@);
    r
}

} // verus!
