//! Characters and lines: the vocabulary that the grammar is stated in, and the
//! executable scans that compute it.
use vstd::prelude::*;
use vstd::string::*;

verus! {

/// A line terminator character.
pub open spec fn is_eol(c: char) -> bool {
    c == '\n' || c == '\r'
}

/// A lowercase ASCII letter.
pub open spec fn is_lower(c: char) -> bool {
    'a' <= c && c <= 'z'
}

/// The index of the first line terminator at or after `p`, or the end of `s`.
pub open spec fn line_end(s: Seq<char>, p: int) -> int
    decreases s.len() - p,
{
    if p >= s.len() {
        s.len() as int
    } else if is_eol(s[p]) {
        p
    } else {
        line_end(s, p + 1)
    }
}

/// The length of the line ending (`"\n"` or `"\r\n"`) that starts at `q`; 0 where none does.
pub open spec fn ending_len(s: Seq<char>, q: int) -> int {
    if 0 <= q < s.len() && s[q] == '\n' {
        1
    } else if 0 <= q && q + 1 < s.len() && s[q] == '\r' && s[q + 1] == '\n' {
        2
    } else {
        0
    }
}

/// The line that starts at `p` is terminated by a line ending.
pub open spec fn has_line(s: Seq<char>, p: int) -> bool {
    ending_len(s, line_end(s, p)) > 0
}

/// The text of the line that starts at `p`, without its terminator.
pub open spec fn line_text(s: Seq<char>, p: int) -> Seq<char> {
    s.subrange(p, line_end(s, p))
}

/// Where the line after the one that starts at `p` begins.
pub open spec fn next_line(s: Seq<char>, p: int) -> int {
    line_end(s, p) + ending_len(s, line_end(s, p))
}

pub proof fn lemma_line_end(s: Seq<char>, p: int)
    requires
        0 <= p <= s.len(),
    ensures
        p <= line_end(s, p) <= s.len(),
        forall|i: int| p <= i < line_end(s, p) ==> !is_eol(s[i]),
        line_end(s, p) < s.len() ==> is_eol(s[line_end(s, p)]),
    decreases s.len() - p,
{
    if p < s.len() && !is_eol(s[p]) {
        lemma_line_end(s, p + 1);
    }
}

pub proof fn lemma_line_end_at(s: Seq<char>, p: int, k: int)
    requires
        0 <= p <= k <= s.len(),
        forall|i: int| p <= i < k ==> !is_eol(s[i]),
        k == s.len() || is_eol(s[k]),
    ensures
        line_end(s, p) == k,
    decreases k - p,
{
    if p < k {
        lemma_line_end_at(s, p + 1, k);
    }
}

/// Relies on `String::push`: appends one character at the end.
#[verifier::external_body]
fn push_char(s: &mut String, c: char)
    ensures
        final(s)@ == old(s)@.push(c),
{
    s.push(c);
}

/// The characters of `text`, in order.
pub fn chars_of(text: &str) -> (cs: Vec<char>)
    ensures
        cs@ == text@,
{
    let mut cs: Vec<char> = Vec::new();
    for c in it: text.chars()
        invariant
            cs@ == it.seq().take(it.index() as int),
    {
        cs.push(c);
    }
    cs
}

/// The characters `cs[from..to]` as a string.
pub fn string_of(cs: &Vec<char>, from: usize, to: usize) -> (r: String)
    requires
        from <= to <= cs.len(),
    ensures
        r@ == cs@.subrange(from as int, to as int),
{
    let mut r = String::new();
    let mut i = from;
    while i < to
        invariant
            from <= i <= to <= cs.len(),
            r@ == cs@.subrange(from as int, i as int),
        decreases to - i,
    {
        push_char(&mut r, cs[i]);
        i = i + 1;
        assert(r@ =~= cs@.subrange(from as int, i as int));
    }
    r
}

/// The index of the first line terminator at or after `p`, or the end of `cs`.
pub fn line_end_at(cs: &Vec<char>, p: usize) -> (r: usize)
    requires
        p <= cs.len(),
    ensures
        r == line_end(cs@, p as int),
{
    let mut i = p;
    while i < cs.len() && cs[i] != '\n' && cs[i] != '\r'
        invariant
            p <= i <= cs.len(),
            line_end(cs@, i as int) == line_end(cs@, p as int),
        decreases cs.len() - i,
    {
        i = i + 1;
    }
    i
}

/// The length of the line ending that starts at `q`; 0 where none does.
pub fn ending_len_at(cs: &Vec<char>, q: usize) -> (r: usize)
    requires
        q <= cs.len(),
    ensures
        r == ending_len(cs@, q as int),
        r <= 2,
{
    if q < cs.len() && cs[q] == '\n' {
        1
    } else if q < cs.len() && q + 1 < cs.len() && cs[q] == '\r' && cs[q + 1] == '\n' {
        2
    } else {
        0
    }
}

/// `parts` with `sep` between each two of them.
pub open spec fn join(parts: Seq<Seq<char>>, sep: Seq<char>) -> Seq<char>
    decreases parts.len(),
{
    if parts.len() == 0 {
        seq![]
    } else if parts.len() == 1 {
        parts[0]
    } else {
        join(parts.drop_last(), sep) + sep + parts.last()
    }
}

/// The values of a sequence of strings.
pub open spec fn strings_view(v: Seq<String>) -> Seq<Seq<char>> {
    v.map_values(|s: String| s@)
}

/// `parts` with `sep` between each two of them.
pub fn join_with(parts: &Vec<String>, sep: &str) -> (r: String)
    ensures
        r@ == join(strings_view(parts@), sep@),
{
    let mut r = String::new();
    if parts.len() == 0 {
        return r;
    }
    r.append(parts[0].as_str());
    assert(strings_view(parts@).take(1).drop_last() =~= seq![]);
    let mut i: usize = 1;
    while i < parts.len()
        invariant
            1 <= i <= parts.len(),
            r@ == join(strings_view(parts@).take(i as int), sep@),
        decreases parts.len() - i,
    {
        r.append(sep);
        r.append(parts[i].as_str());
        assert(strings_view(parts@).take(i + 1).drop_last() =~= strings_view(parts@).take(i as int));
        i = i + 1;
    }
    assert(strings_view(parts@).take(i as int) =~= strings_view(parts@));
    r
}


} // verus!
