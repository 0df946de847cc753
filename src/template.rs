//! Flat placeholder substitution over template text, with at most one
//! removable block per template.
//!
//! A placeholder is `{{` followed by a name and `}}`; whitespace around the
//! name is ignored. A removable block is a marker line followed by the contiguous
//! lines indented deeper than the marker.
use vstd::prelude::*;
use crate::text::{
    append_all, append_range, chars_of, find_pair, find_pair_in, has_pair,
    lemma_find_pair_bounds, same_chars, skip_spaces, string_of, trim_blank, trimmed_slice,
};

verus! {

/// A value for the placeholder named `key`.
pub struct Binding {
    pub key: String,
    pub value: String,
}

/// Whether the removable block named `name` is kept.
pub struct BlockFlag {
    pub name: String,
    pub enabled: bool,
}

/// A block of a template that can be cut out: its marker line and the lines
/// below it that are indented deeper. `flag` names the switch that keeps it.
pub struct RemovableBlock {
    pub flag: String,
    pub marker: String,
}

/// Static text with placeholders and at most one removable block.
pub struct Template {
    pub text: String,
    pub block: Option<RemovableBlock>,
}

#[derive(Debug, Clone, PartialEq, Eq)]
pub enum RenderError {
    /// A placeholder whose name no binding provides.
    UnboundPlaceholder(String),
    /// A `{{` with no `}}` after it.
    UnclosedPlaceholder,
}

/// What a rendering failure says, as plain values.
pub enum RenderFault {
    Unbound(Seq<char>),
    Unclosed,
}

pub open spec fn fault_of(e: RenderError) -> RenderFault {
    match e {
        RenderError::UnboundPlaceholder(k) => RenderFault::Unbound(k@),
        RenderError::UnclosedPlaceholder => RenderFault::Unclosed,
    }
}

pub open spec fn rendered(r: Result<String, RenderError>) -> Result<Seq<char>, RenderFault> {
    match r {
        Ok(s) => Ok(s@),
        Err(e) => Err(fault_of(e)),
    }
}

/// Value of the first entry at or after `i` whose key is `key`.
pub open spec fn lookup_from<V>(kvs: Seq<(Seq<char>, V)>, key: Seq<char>, i: int) -> Option<V>
    decreases kvs.len() - i,
{
    if i < 0 || i >= kvs.len() {
        None
    } else if kvs[i].0 == key {
        Some(kvs[i].1)
    } else {
        lookup_from(kvs, key, i + 1)
    }
}

/// Value of the first entry whose key is `key`.
pub open spec fn lookup<V>(kvs: Seq<(Seq<char>, V)>, key: Seq<char>) -> Option<V> {
    lookup_from(kvs, key, 0)
}

pub open spec fn binding_pairs(bs: Seq<Binding>) -> Seq<(Seq<char>, Seq<char>)> {
    Seq::new(bs.len(), |i: int| (bs[i].key@, bs[i].value@))
}

pub open spec fn flag_pairs(fs: Seq<BlockFlag>) -> Seq<(Seq<char>, bool)> {
    Seq::new(fs.len(), |i: int| (fs[i].name@, fs[i].enabled))
}

pub open spec fn block_view(b: Option<RemovableBlock>) -> Option<(Seq<char>, Seq<char>)> {
    match b {
        Some(rb) => Some((rb.flag@, rb.marker@)),
        None => None,
    }
}

/// Substitution of every placeholder of `t` that starts at or after `from`.
pub open spec fn substitute_from(
    t: Seq<char>,
    bs: Seq<(Seq<char>, Seq<char>)>,
    from: int,
) -> Result<Seq<char>, RenderFault>
    decreases t.len() - from,
{
    if from < 0 || from > t.len() {
        Ok(Seq::empty())
    } else {
        match find_pair(t, '{', '{', from) {
            None => Ok(t.subrange(from, t.len() as int)),
            Some(i) => match find_pair(t, '}', '}', i + 2) {
                None => Err(RenderFault::Unclosed),
                Some(j) => {
                    let key = trim_blank(t.subrange(i + 2, j));
                    match lookup(bs, key) {
                        None => Err(RenderFault::Unbound(key)),
                        Some(v) => {
                            proof {
                                lemma_find_pair_bounds(t, '{', '{', from);
                                lemma_find_pair_bounds(t, '}', '}', i + 2);
                            }
                            match substitute_from(t, bs, j + 2) {
                                Ok(rest) => Ok(t.subrange(from, i) + v + rest),
                                Err(e) => Err(e),
                            }
                        },
                    }
                },
            },
        }
    }
}

/// `t` with every placeholder replaced by its binding.
pub open spec fn substitute(t: Seq<char>, bs: Seq<(Seq<char>, Seq<char>)>) -> Result<
    Seq<char>,
    RenderFault,
> {
    substitute_from(t, bs, 0)
}

/// Line `m` stands whole in `t` at `p`.
pub open spec fn is_line_at(t: Seq<char>, p: int, m: Seq<char>) -> bool {
    &&& 0 <= p
    &&& p + m.len() <= t.len()
    &&& p == 0 || t[p - 1] == '\n'
    &&& t.subrange(p, p + m.len()) == m
    &&& p + m.len() == t.len() || t[p + m.len()] == '\n'
}

/// Start of the first line at or after `from` that reads `m`.
pub open spec fn find_line(t: Seq<char>, m: Seq<char>, from: int) -> Option<int>
    decreases t.len() + 1 - from,
{
    if from < 0 || from > t.len() {
        None
    } else if is_line_at(t, from, m) {
        Some(from)
    } else {
        find_line(t, m, from + 1)
    }
}

/// Position of the first `'\n'` at or after `q`, or the length of `t`.
pub open spec fn line_end(t: Seq<char>, q: int) -> int
    decreases t.len() - q,
{
    if q < 0 || q >= t.len() {
        t.len() as int
    } else if t[q] == '\n' {
        q
    } else {
        line_end(t, q + 1)
    }
}

/// The line that starts at `q` begins with more than `k` spaces.
pub open spec fn indented_deeper(t: Seq<char>, q: int, k: int) -> bool {
    &&& 0 <= q
    &&& q + k < t.len()
    &&& forall|j: int| q <= j <= q + k ==> t[j] == ' '
}

/// End of the run of lines, from `q` on, that are indented deeper than `k`.
pub open spec fn body_end(t: Seq<char>, q: int, k: int) -> int
    decreases t.len() - q,
{
    if indented_deeper(t, q, k) {
        let e = line_end(t, q);
        if e < t.len() {
            proof {
                lemma_line_end_bounds(t, q);
            }
            body_end(t, e + 1, k)
        } else {
            t.len() as int
        }
    } else {
        q
    }
}

/// Where the block whose marker line starts at `p` ends.
pub open spec fn block_stop(t: Seq<char>, p: int, m: Seq<char>) -> int {
    let e = line_end(t, p);
    if e < t.len() {
        body_end(t, e + 1, skip_spaces(m, 0))
    } else {
        t.len() as int
    }
}

/// `t` without the first block whose marker line reads `m`.
pub open spec fn excise(t: Seq<char>, m: Seq<char>) -> Seq<char> {
    match find_line(t, m, 0) {
        None => t,
        Some(p) => t.subrange(0, p) + t.subrange(block_stop(t, p, m), t.len() as int),
    }
}

/// The block, if any, is cut out only where its flag is bound to `false`.
pub open spec fn apply_block(
    t: Seq<char>,
    block: Option<(Seq<char>, Seq<char>)>,
    fs: Seq<(Seq<char>, bool)>,
) -> Seq<char> {
    match block {
        Some((flag, marker)) => if lookup(fs, flag) == Some(false) {
            excise(t, marker)
        } else {
            t
        },
        None => t,
    }
}

/// The text a template renders to, or why it cannot.
pub open spec fn render_spec(
    t: Seq<char>,
    block: Option<(Seq<char>, Seq<char>)>,
    bs: Seq<(Seq<char>, Seq<char>)>,
    fs: Seq<(Seq<char>, bool)>,
) -> Result<Seq<char>, RenderFault> {
    substitute(apply_block(t, block, fs), bs)
}

pub proof fn lemma_line_end_bounds(t: Seq<char>, q: int)
    requires
        0 <= q,
    ensures
        q <= line_end(t, q) <= t.len() || (q > t.len() && line_end(t, q) == t.len()),
        line_end(t, q) < t.len() ==> t[line_end(t, q)] == '\n',
    decreases t.len() - q,
{
    if q < t.len() && t[q] != '\n' {
        lemma_line_end_bounds(t, q + 1);
    }
}

pub proof fn lemma_body_end_bounds(t: Seq<char>, q: int, k: int)
    requires
        0 <= q <= t.len(),
    ensures
        q <= body_end(t, q, k) <= t.len(),
    decreases t.len() - q,
{
    if indented_deeper(t, q, k) {
        lemma_line_end_bounds(t, q);
        let e = line_end(t, q);
        if e < t.len() {
            lemma_body_end_bounds(t, e + 1, k);
        }
    }
}

pub proof fn lemma_find_line_bounds(t: Seq<char>, m: Seq<char>, from: int)
    requires
        0 <= from,
    ensures
        find_line(t, m, from) matches Some(p) ==> from <= p && is_line_at(t, p, m),
    decreases t.len() + 1 - from,
{
    if from <= t.len() && !is_line_at(t, from, m) {
        lemma_find_line_bounds(t, m, from + 1);
    }
}

/// Index of the first binding whose key is `key`.
fn find_binding(bs: &Vec<Binding>, key: &Vec<char>) -> (r: Option<usize>)
    ensures
        match r {
            Some(i) => i < bs.len() && lookup(binding_pairs(bs@), key@) == Some(bs@[i as int].value@),
            None => lookup(binding_pairs(bs@), key@) is None,
        },
{
    let ghost kvs = binding_pairs(bs@);
    let mut i: usize = 0;
    while i < bs.len()
        invariant
            i <= bs.len(),
            kvs == binding_pairs(bs@),
            lookup(kvs, key@) == lookup_from(kvs, key@, i as int),
        decreases bs.len() - i,
    {
        let k = chars_of(bs[i].key.as_str());
        if same_chars(&k, key) {
            return Some(i);
        }
        i = i + 1;
    }
    None
}

/// Value of the first flag named `name`.
fn find_flag(fs: &Vec<BlockFlag>, name: &String) -> (r: Option<bool>)
    ensures
        r == lookup(flag_pairs(fs@), name@),
{
    let ghost kvs = flag_pairs(fs@);
    let mut i: usize = 0;
    while i < fs.len()
        invariant
            i <= fs.len(),
            kvs == flag_pairs(fs@),
            lookup(kvs, name@) == lookup_from(kvs, name@, i as int),
        decreases fs.len() - i,
    {
        if fs[i].name == *name {
            return Some(fs[i].enabled);
        }
        i = i + 1;
    }
    None
}

/// Replaces every placeholder of `t` by its binding.
pub fn substitute_placeholders(t: &Vec<char>, bindings: &Vec<Binding>) -> (r: Result<
    Vec<char>,
    RenderError,
>)
    ensures
        match r {
            Ok(s) => substitute(t@, binding_pairs(bindings@)) == Ok::<Seq<char>, RenderFault>(s@),
            Err(e) => substitute(t@, binding_pairs(bindings@)) == Err::<Seq<char>, RenderFault>(
                fault_of(e),
            ),
        },
{
    let ghost bs = binding_pairs(bindings@);
    let mut out: Vec<char> = Vec::new();
    let mut pos: usize = 0;
    loop
        invariant
            pos <= t.len(),
            bs == binding_pairs(bindings@),
            substitute(t@, bs) == (match substitute_from(t@, bs, pos as int) {
                Ok(rest) => Ok(out@ + rest),
                Err(e) => Err(e),
            }),
        decreases t.len() - pos,
    {
        match find_pair_in(t, '{', '{', pos) {
            None => {
                append_range(&mut out, t, pos, t.len());
                return Ok(out);
            },
            Some(i) => {
                proof {
                    lemma_find_pair_bounds(t@, '{', '{', pos as int);
                }
                match find_pair_in(t, '}', '}', i + 2) {
                    None => {
                        return Err(RenderError::UnclosedPlaceholder);
                    },
                    Some(j) => {
                        proof {
                            lemma_find_pair_bounds(t@, '}', '}', i + 2);
                        }
                        let key = trimmed_slice(t, i + 2, j);
                        match find_binding(bindings, &key) {
                            None => {
                                return Err(RenderError::UnboundPlaceholder(string_of(&key)));
                            },
                            Some(b) => {
                                let ghost before = out@;
                                let value = chars_of(bindings[b].value.as_str());
                                append_range(&mut out, t, pos, i);
                                append_all(&mut out, &value);
                                let ghost piece = t@.subrange(pos as int, i as int) + value@;
                                assert(out@ == before + piece);
                                assert forall|rest: Seq<char>|
                                    before + (t@.subrange(pos as int, i as int) + value@ + rest)
                                        == #[trigger] (out@ + rest) by {
                                    assert(before + (t@.subrange(pos as int, i as int) + value@
                                        + rest) =~= out@ + rest);
                                }
                                pos = j + 2;
                            },
                        }
                    },
                }
            },
        }
    }
}

/// Whether line `m` stands whole in `t` at `p`.
fn line_at(t: &Vec<char>, p: usize, m: &Vec<char>) -> (r: bool)
    requires
        p <= t.len(),
    ensures
        r == is_line_at(t@, p as int, m@),
{
    if m.len() > t.len() - p {
        return false;
    }
    if p > 0 && t[p - 1] != '\n' {
        return false;
    }
    let mut j: usize = 0;
    while j < m.len()
        invariant
            p + m.len() <= t.len(),
            j <= m.len(),
            forall|k: int| 0 <= k < j ==> t@[p + k] == m@[k],
        decreases m.len() - j,
    {
        if t[p + j] != m[j] {
            assert(t@.subrange(p as int, p + m.len())[j as int] != m@[j as int]);
            return false;
        }
        j = j + 1;
    }
    assert(t@.subrange(p as int, p + m.len()) =~= m@);
    p + m.len() == t.len() || t[p + m.len()] == '\n'
}

/// Start of the first line of `t` that reads `m`.
fn find_line_in(t: &Vec<char>, m: &Vec<char>) -> (r: Option<usize>)
    ensures
        match r {
            Some(p) => find_line(t@, m@, 0) == Some(p as int),
            None => find_line(t@, m@, 0) is None,
        },
{
    let mut p: usize = 0;
    loop
        invariant
            p <= t.len(),
            find_line(t@, m@, 0) == find_line(t@, m@, p as int),
        decreases t.len() - p,
    {
        if line_at(t, p, m) {
            return Some(p);
        }
        if p == t.len() {
            assert(find_line(t@, m@, p + 1) is None);
            return None;
        }
        p = p + 1;
    }
}

/// Position of the first `'\n'` at or after `q`, or the length of `t`.
fn line_end_in(t: &Vec<char>, q: usize) -> (r: usize)
    requires
        q <= t.len(),
    ensures
        r == line_end(t@, q as int),
        q <= r <= t.len(),
{
    proof {
        lemma_line_end_bounds(t@, q as int);
    }
    let mut e: usize = q;
    while e < t.len() && t[e] != '\n'
        invariant
            q <= e <= t.len(),
            line_end(t@, q as int) == line_end(t@, e as int),
        decreases t.len() - e,
    {
        e = e + 1;
    }
    e
}

/// Whether the line at `q` begins with more than `k` spaces.
fn deeper_at(t: &Vec<char>, q: usize, k: usize) -> (r: bool)
    requires
        q <= t.len(),
    ensures
        r == indented_deeper(t@, q as int, k as int),
{
    if k >= t.len() - q {
        return false;
    }
    let mut j: usize = q;
    while j <= q + k
        invariant
            q + k < t.len(),
            q <= j <= q + k + 1,
            forall|i: int| q <= i < j ==> t@[i] == ' ',
        decreases q + k + 1 - j,
    {
        if t[j] != ' ' {
            return false;
        }
        j = j + 1;
    }
    true
}

/// Number of spaces that start `m`.
fn leading_spaces(m: &Vec<char>) -> (r: usize)
    ensures
        r == skip_spaces(m@, 0),
{
    let mut i: usize = 0;
    while i < m.len() && m[i] == ' '
        invariant
            i <= m.len(),
            skip_spaces(m@, 0) == skip_spaces(m@, i as int),
        decreases m.len() - i,
    {
        i = i + 1;
    }
    i
}

/// `t` without the first block whose marker line reads `m`.
pub fn excise_block(t: &Vec<char>, m: &Vec<char>) -> (r: Vec<char>)
    ensures
        r@ == excise(t@, m@),
{
    match find_line_in(t, m) {
        None => t.clone(),
        Some(p) => {
            proof {
                lemma_find_line_bounds(t@, m@, 0);
            }
            let k = leading_spaces(m);
            let e = line_end_in(t, p);
            let mut stop: usize = t.len();
            if e < t.len() {
                let ghost q0 = e + 1;
                let mut q: usize = e + 1;
                proof {
                    lemma_body_end_bounds(t@, q0, k as int);
                }
                loop
                    invariant
                        q0 <= q <= t.len(),
                        q0 == e + 1,
                        body_end(t@, q0, k as int) == body_end(t@, q as int, k as int),
                    ensures
                        stop == body_end(t@, q0, k as int),
                    decreases t.len() - q,
                {
                    if !deeper_at(t, q, k) {
                        stop = q;
                        break;
                    }
                    let qe = line_end_in(t, q);
                    if qe < t.len() {
                        q = qe + 1;
                    } else {
                        stop = t.len();
                        break;
                    }
                }
                assert(stop == block_stop(t@, p as int, m@));
            }
            proof {
                lemma_body_end_bounds(t@, p as int, k as int);
            }
            let mut out: Vec<char> = Vec::new();
            append_range(&mut out, t, 0, p);
            append_range(&mut out, t, stop, t.len());
            assert(out@ =~= t@.subrange(0, p as int) + t@.subrange(stop as int, t.len() as int));
            out
        },
    }
}

/// Renders `template`: its block is cut out where `flags` binds the block's
/// flag to `false`, then every placeholder is replaced by its binding.
pub fn render(template: &Template, bindings: &Vec<Binding>, flags: &Vec<BlockFlag>) -> (r: Result<
    String,
    RenderError,
>)
    ensures
        rendered(r) == render_spec(
            template.text@,
            block_view(template.block),
            binding_pairs(bindings@),
            flag_pairs(flags@),
        ),
{
    let text = chars_of(template.text.as_str());
    let body = match &template.block {
        Some(block) => {
            if find_flag(flags, &block.flag) == Some(false) {
                excise_block(&text, &chars_of(block.marker.as_str()))
            } else {
                text
            }
        },
        None => text,
    };
    match substitute_placeholders(&body, bindings) {
        Ok(out) => Ok(string_of(&out)),
        Err(e) => Err(e),
    }
}

/// `s` holds no `{{`.
pub open spec fn no_open_pair(s: Seq<char>) -> bool {
    !has_pair(s, '{', '{')
}

/// A value that cannot open a placeholder in rendered text: it holds no `{{`
/// and does not end with `{`.
pub open spec fn inert_value(v: Seq<char>) -> bool {
    &&& no_open_pair(v)
    &&& v.len() == 0 || v.last() != '{'
}

/// Every value bound in `bs` is inert.
pub open spec fn inert_bindings(bs: Seq<(Seq<char>, Seq<char>)>) -> bool {
    forall|i: int| 0 <= i < bs.len() ==> inert_value(#[trigger] bs[i].1)
}

proof fn lemma_lookup_in(kvs: Seq<(Seq<char>, Seq<char>)>, key: Seq<char>, i: int)
    requires
        0 <= i,
    ensures
        lookup_from(kvs, key, i) matches Some(v) ==> exists|j: int|
            0 <= j < kvs.len() && #[trigger] kvs[j].1 == v,
    decreases kvs.len() - i,
{
    if i < kvs.len() && kvs[i].0 != key {
        lemma_lookup_in(kvs, key, i + 1);
    }
}

proof fn lemma_concat_no_open(a: Seq<char>, b: Seq<char>)
    requires
        no_open_pair(a),
        no_open_pair(b),
        a.len() == 0 || a.last() != '{',
    ensures
        no_open_pair(a + b),
{
    let s = a + b;
    assert forall|i: int| 0 <= i && i + 1 < s.len() && #[trigger] s[i] == '{' implies s[i + 1]
        != '{' by {
        if i + 1 < a.len() {
            assert(a[i] == s[i] && a[i + 1] == s[i + 1]);
        } else if i >= a.len() {
            assert(b[i - a.len()] == s[i] && b[i - a.len() + 1] == s[i + 1]);
        } else {
            assert(a.last() == s[i]);
        }
    }
}

proof fn lemma_substitute_no_open(t: Seq<char>, bs: Seq<(Seq<char>, Seq<char>)>, from: int)
    requires
        0 <= from <= t.len(),
        inert_bindings(bs),
    ensures
        substitute_from(t, bs, from) matches Ok(s) ==> no_open_pair(s),
    decreases t.len() - from,
{
    lemma_find_pair_bounds(t, '{', '{', from);
    match find_pair(t, '{', '{', from) {
        None => {
            let lit = t.subrange(from, t.len() as int);
            assert forall|k: int| 0 <= k && k + 1 < lit.len() && #[trigger] lit[k] == '{'
                implies lit[k + 1] != '{' by {
                assert(t[from + k] == lit[k] && t[from + k + 1] == lit[k + 1]);
            }
        },
        Some(i) => {
            lemma_find_pair_bounds(t, '}', '}', i + 2);
            match find_pair(t, '}', '}', i + 2) {
                None => {},
                Some(j) => {
                    let key = trim_blank(t.subrange(i + 2, j));
                    lemma_lookup_in(bs, key, 0);
                    match lookup(bs, key) {
                        None => {},
                        Some(v) => {
                            lemma_substitute_no_open(t, bs, j + 2);
                            match substitute_from(t, bs, j + 2) {
                                Ok(rest) => {
                                    let lit = t.subrange(from, i);
                                    assert forall|k: int|
                                        0 <= k && k + 1 < lit.len() && #[trigger] lit[k] == '{'
                                        implies lit[k + 1] != '{' by {
                                        assert(t[from + k] == lit[k] && t[from + k + 1] == lit[k
                                            + 1]);
                                    }
                                    if lit.len() > 0 {
                                        assert(lit.last() == t[i - 1]);
                                    }
                                    let jw = choose|jw: int| 0 <= jw < bs.len() && bs[jw].1 == v;
                                    assert(inert_value(bs[jw].1));
                                    lemma_concat_no_open(lit, v);
                                    let pre = lit + v;
                                    if v.len() > 0 {
                                        assert(pre.last() == v.last());
                                    } else if lit.len() > 0 {
                                        assert(pre.last() == lit.last());
                                    }
                                    lemma_concat_no_open(pre, rest);
                                },
                                Err(_) => {},
                            }
                        },
                    }
                },
            }
        },
    }
}

/// No placeholder leaks: when every bound value is inert, a successful
/// rendering holds no `{{`, whatever the template and the block flags.
pub proof fn lemma_rendered_has_no_placeholder(
    t: Seq<char>,
    block: Option<(Seq<char>, Seq<char>)>,
    bs: Seq<(Seq<char>, Seq<char>)>,
    fs: Seq<(Seq<char>, bool)>,
)
    requires
        inert_bindings(bs),
    ensures
        render_spec(t, block, bs, fs) matches Ok(s) ==> no_open_pair(s),
{
    lemma_substitute_no_open(apply_block(t, block, fs), bs, 0);
}

proof fn lemma_substitute_agree(
    t: Seq<char>,
    bs1: Seq<(Seq<char>, Seq<char>)>,
    bs2: Seq<(Seq<char>, Seq<char>)>,
    from: int,
)
    requires
        0 <= from <= t.len(),
        forall|k: Seq<char>| #[trigger] lookup(bs1, k) == lookup(bs2, k),
    ensures
        substitute_from(t, bs1, from) == substitute_from(t, bs2, from),
    decreases t.len() - from,
{
    lemma_find_pair_bounds(t, '{', '{', from);
    if let Some(i) = find_pair(t, '{', '{', from) {
        lemma_find_pair_bounds(t, '}', '}', i + 2);
        if let Some(j) = find_pair(t, '}', '}', i + 2) {
            let key = trim_blank(t.subrange(i + 2, j));
            assert(lookup(bs1, key) == lookup(bs2, key));
            lemma_substitute_agree(t, bs1, bs2, j + 2);
        }
    }
}

/// Rendering is a function of the template and of what the bindings and
/// flags look up to: two renderings with the same template and the same
/// lookups, in particular two renderings with the same arguments, give the
/// same text or the same error.
pub proof fn lemma_render_depends_on_lookups(
    t: Seq<char>,
    block: Option<(Seq<char>, Seq<char>)>,
    bs1: Seq<(Seq<char>, Seq<char>)>,
    bs2: Seq<(Seq<char>, Seq<char>)>,
    fs1: Seq<(Seq<char>, bool)>,
    fs2: Seq<(Seq<char>, bool)>,
)
    requires
        forall|k: Seq<char>| #[trigger] lookup(bs1, k) == lookup(bs2, k),
        forall|k: Seq<char>| #[trigger] lookup(fs1, k) == lookup(fs2, k),
    ensures
        render_spec(t, block, bs1, fs1) == render_spec(t, block, bs2, fs2),
{
    if let Some((flag, marker)) = block {
        assert(lookup(fs1, flag) == lookup(fs2, flag));
    }
    let body = apply_block(t, block, fs1);
    assert(body == apply_block(t, block, fs2));
    lemma_substitute_agree(body, bs1, bs2, 0);
}

} // verus!
