//! The parser: executable rules over the input's characters, each proved to compute
//! the rule of the same name in `grammar`.
use vstd::prelude::*;
use vstd::string::*;
use crate::data::{Document, Line, LineView, TitlePage, empty_title_page, lines_view};
use crate::error::{ParseError, Rule, fatal, fatal_of, mismatch, mismatch_of};
use crate::grammar::{
    Outcome, action_spec, block_spec, blocks_after, blocks_from, body_start, close_end,
    dialogue_placed, dialogue_spec, document_spec, dual_marker, ends_with, in_parens_spec, key_end,
    lemma_close_end, lemma_document_invariants, lemma_no_lower_end, lemma_prepend_prepend, lemma_upper_line, no_lower_end,
    other_keys_plain, parenthetical_spec, prepend, scene_spec, sd_block_spec, space_end, spd_block_spec,
    speaker_spec, starts_with, strip_suffix_spec, title_page_of, titlepage_end,
    titlepage_item_spec, titlepage_items, transition_forced_spec, transition_to_spec,
    upper_line,
};
use crate::text::{
    chars_of, ending_len_at, has_line, lemma_line_end, line_end, line_end_at, line_text,
    next_line, string_of,
};

verus! {

/// The executable outcome of a rule that did not match.
#[derive(Clone, Copy, PartialEq, Eq, Debug, Structural)]
pub enum Failure {
    /// Another alternative may be tried.
    Mismatch,
    /// The parse stops at this position.
    Fatal(usize),
}

/// `r` is what the line rule `o` gives.
pub open spec fn line_result(r: Option<(Line, usize)>, o: Option<(LineView, int)>) -> bool {
    match r {
        Some((l, e)) => o == Some((l@, e as int)),
        None => o is None,
    }
}

/// `r` is what the block rule `o` gives.
pub open spec fn block_result(r: Result<(Vec<Line>, usize), Failure>, o: Outcome<Seq<LineView>>) -> bool {
    match r {
        Ok((ls, e)) => o == Outcome::Matched(lines_view(ls@), e as int),
        Err(Failure::Mismatch) => o is Mismatch,
        Err(Failure::Fatal(x)) => o == Outcome::<Seq<LineView>>::Fatal(x as int),
    }
}

/// `r` is what the parenthetical rule `o` gives.
pub open spec fn paren_result(r: Result<(Line, usize), Failure>, o: Outcome<LineView>) -> bool {
    match r {
        Ok((l, e)) => o == Outcome::Matched(l@, e as int),
        Err(Failure::Mismatch) => o is Mismatch,
        Err(Failure::Fatal(x)) => o == Outcome::<LineView>::Fatal(x as int),
    }
}

/// Whether `cs[from..to]` begins with `w`.
fn starts_with_at(cs: &Vec<char>, from: usize, to: usize, w: &str) -> (r: bool)
    requires
        from <= to <= cs.len(),
    ensures
        r == starts_with(cs@.subrange(from as int, to as int), w@),
{
    let wc = chars_of(w);
    if wc.len() > to - from {
        return false;
    }
    let mut i: usize = 0;
    while i < wc.len()
        invariant
            from <= to <= cs.len(),
            wc@ == w@,
            wc.len() <= to - from,
            i <= wc.len(),
            forall|j: int| 0 <= j < i ==> cs@[from + j] == wc@[j],
        decreases wc.len() - i,
    {
        if cs[from + i] != wc[i] {
            assert(cs@.subrange(from as int, to as int).subrange(0, wc.len() as int)[i as int] != w@[i as int]);
            return false;
        }
        i = i + 1;
    }
    assert(cs@.subrange(from as int, to as int).subrange(0, wc.len() as int) =~= w@);
    true
}

/// Whether `cs[from..to]` ends with `w`.
fn ends_with_at(cs: &Vec<char>, from: usize, to: usize, w: &str) -> (r: bool)
    requires
        from <= to <= cs.len(),
    ensures
        r == ends_with(cs@.subrange(from as int, to as int), w@),
{
    let wc = chars_of(w);
    if wc.len() > to - from {
        return false;
    }
    let start = to - wc.len();
    let mut i: usize = 0;
    while i < wc.len()
        invariant
            from <= start <= to <= cs.len(),
            start + wc.len() == to,
            wc@ == w@,
            i <= wc.len(),
            forall|j: int| 0 <= j < i ==> cs@[start + j] == wc@[j],
        decreases wc.len() - i,
    {
        if cs[start + i] != wc[i] {
            assert(cs@.subrange(from as int, to as int).subrange(start - from, to - from)[i as int] != w@[i as int]);
            return false;
        }
        i = i + 1;
    }
    assert(cs@.subrange(from as int, to as int).subrange(start - from, to - from) =~= w@);
    true
}

/// The end of the line that starts at `p`, and where the next one begins, if a line
/// ending terminates it.
fn line_at(cs: &Vec<char>, p: usize) -> (r: Option<(usize, usize)>)
    requires
        p <= cs.len(),
    ensures
        match r {
            Some((e, n)) => has_line(cs@, p as int) && e == line_end(cs@, p as int) && n == next_line(
                cs@,
                p as int,
            ) && p <= e < n <= cs.len(),
            None => !has_line(cs@, p as int),
        },
{
    let e = line_end_at(cs, p);
    proof {
        lemma_line_end(cs@, p as int);
    }
    let k = ending_len_at(cs, e);
    if k > 0 {
        Some((e, e + k))
    } else {
        None
    }
}

/// The end of the run from `p` on without lowercase letters and line terminators.
fn no_lower_end_at(cs: &Vec<char>, p: usize) -> (r: usize)
    requires
        p <= cs.len(),
    ensures
        r == no_lower_end(cs@, p as int),
{
    let mut i = p;
    while i < cs.len() && !('a' <= cs[i] && cs[i] <= 'z') && cs[i] != '\n' && cs[i] != '\r'
        invariant
            p <= i <= cs.len(),
            no_lower_end(cs@, i as int) == no_lower_end(cs@, p as int),
        decreases cs.len() - i,
    {
        i = i + 1;
    }
    i
}

/// The line at `p` if it has no lowercase letters: where its text ends, and where the
/// next line begins.
fn upper_line_at(cs: &Vec<char>, p: usize) -> (r: Option<(usize, usize)>)
    requires
        p <= cs.len(),
    ensures
        match r {
            Some((e, n)) => upper_line(cs@, p as int) && e == line_end(cs@, p as int) && n == next_line(
                cs@,
                p as int,
            ) && p < e < n <= cs.len(),
            None => !upper_line(cs@, p as int),
        },
{
    let k = no_lower_end_at(cs, p);
    proof {
        lemma_no_lower_end(cs@, p as int);
    }
    let n = ending_len_at(cs, k);
    if k > p && n > 0 {
        proof {
            lemma_upper_line(cs@, p as int);
        }
        Some((k, k + n))
    } else {
        None
    }
}

fn transition_forced_at(cs: &Vec<char>, p: usize) -> (r: Option<(Line, usize)>)
    requires
        p <= cs.len(),
    ensures
        line_result(r, transition_forced_spec(cs@, p as int)),
        r matches Some((_, e)) ==> p < e <= cs.len(),
{
    match line_at(cs, p) {
        None => None,
        Some((e, n)) => {
            if starts_with_at(cs, p, e, "> ") {
                proof {
                    reveal_strlit("> ");
                }
                let t = string_of(cs, p + 2, e);
                assert(t@ =~= line_text(cs@, p as int).skip("> "@.len() as int));
                Some((Line::Transition(t), n))
            } else {
                None
            }
        },
    }
}

fn transition_to_at(cs: &Vec<char>, p: usize) -> (r: Option<(Line, usize)>)
    requires
        p <= cs.len(),
    ensures
        line_result(r, transition_to_spec(cs@, p as int)),
        r matches Some((_, e)) ==> p < e <= cs.len(),
{
    match upper_line_at(cs, p) {
        None => None,
        Some((e, n)) => {
            if ends_with_at(cs, p, e, "TO:") {
                Some((Line::Transition(string_of(cs, p, e)), n))
            } else {
                None
            }
        },
    }
}

fn scene_at(cs: &Vec<char>, p: usize) -> (r: Option<(Line, usize)>)
    requires
        p <= cs.len(),
    ensures
        line_result(r, scene_spec(cs@, p as int)),
        r matches Some((_, e)) ==> p < e <= cs.len(),
{
    match line_at(cs, p) {
        None => None,
        Some((e, n)) => {
            if starts_with_at(cs, p, e, "INT. ") || starts_with_at(cs, p, e, "EXT. ") {
                Some((Line::Scene(string_of(cs, p, e)), n))
            } else {
                None
            }
        },
    }
}

fn speaker_at(cs: &Vec<char>, p: usize) -> (r: Option<(Line, usize)>)
    requires
        p <= cs.len(),
    ensures
        line_result(r, speaker_spec(cs@, p as int)),
        r matches Some((_, e)) ==> p < e <= cs.len(),
{
    match upper_line_at(cs, p) {
        None => None,
        Some((e, n)) => {
            let is_dual = ends_with_at(cs, p, e, " ^");
            let name = if is_dual {
                proof {
                    reveal_strlit(" ^");
                }
                let name = string_of(cs, p, e - 2);
                assert(name@ =~= strip_suffix_spec(dual_marker(), line_text(cs@, p as int)));
                name
            } else {
                string_of(cs, p, e)
            };
            Some((Line::Speaker { name, is_dual }, n))
        },
    }
}

fn dialogue_at(cs: &Vec<char>, p: usize) -> (r: Option<(Line, usize)>)
    requires
        p <= cs.len(),
    ensures
        line_result(r, dialogue_spec(cs@, p as int)),
        r matches Some((_, e)) ==> p < e <= cs.len(),
{
    match line_at(cs, p) {
        None => None,
        Some((e, n)) => Some((Line::Dialogue(string_of(cs, p, e)), n)),
    }
}

fn action_at(cs: &Vec<char>, p: usize) -> (r: Option<(Line, usize)>)
    requires
        p <= cs.len(),
    ensures
        line_result(r, action_spec(cs@, p as int)),
        r matches Some((_, e)) ==> p < e <= cs.len(),
{
    match line_at(cs, p) {
        None => None,
        Some((e, n)) => Some((Line::Action(string_of(cs, p, e)), n)),
    }
}

/// The first position at or after `p` that holds `)` or a line terminator, or the end.
fn close_end_at(cs: &Vec<char>, p: usize) -> (r: usize)
    requires
        p <= cs.len(),
    ensures
        r == close_end(cs@, p as int),
        p <= r <= cs.len(),
{
    let mut i = p;
    while i < cs.len() && cs[i] != ')' && cs[i] != '\n' && cs[i] != '\r'
        invariant
            p <= i <= cs.len(),
            close_end(cs@, i as int) == close_end(cs@, p as int),
        decreases cs.len() - i,
    {
        i = i + 1;
    }
    i
}

fn in_parens_at(cs: &Vec<char>, p: usize) -> (r: Option<(String, usize)>)
    requires
        p <= cs.len(),
    ensures
        match r {
            Some((t, q)) => in_parens_spec(cs@, p as int) == Some((t@, q as int)) && q <= cs.len(),
            None => in_parens_spec(cs@, p as int) is None,
        },
{
    if p < cs.len() && cs[p] == '(' {
        let c = close_end_at(cs, p + 1);
        proof {
            lemma_close_end(cs@, p + 1);
        }
        if c > p + 1 && c < cs.len() && cs[c] == ')' {
            Some((string_of(cs, p + 1, c), c + 1))
        } else {
            None
        }
    } else {
        None
    }
}

fn parenthetical_at(cs: &Vec<char>, p: usize) -> (r: Result<(Line, usize), Failure>)
    requires
        p <= cs.len(),
    ensures
        paren_result(r, parenthetical_spec(cs@, p as int)),
        r matches Err(Failure::Fatal(x)) ==> x <= cs.len(),
        r matches Ok((_, e)) ==> p < e <= cs.len(),
{
    if !(p < cs.len() && cs[p] == '(') || (p + 1 < cs.len() && cs[p + 1] == ')') {
        return Err(Failure::Mismatch);
    }
    match in_parens_at(cs, p) {
        None => Err(Failure::Fatal(close_end_at(cs, p + 1))),
        Some((t, q)) => {
            let k = ending_len_at(cs, q);
            if k > 0 {
                Ok((Line::Parenthetical(t), q + k))
            } else {
                Err(Failure::Fatal(q))
            }
        },
    }
}

fn spd_block_at(cs: &Vec<char>, p: usize) -> (r: Result<(Vec<Line>, usize), Failure>)
    requires
        p <= cs.len(),
    ensures
        block_result(r, spd_block_spec(cs@, p as int)),
        r matches Err(Failure::Fatal(x)) ==> x <= cs.len(),
        r matches Ok((_, e)) ==> p < e <= cs.len(),
{
    match speaker_at(cs, p) {
        None => Err(Failure::Mismatch),
        Some((sp, q)) => {
            let (pa, r) = parenthetical_at(cs, q)?;
            match dialogue_at(cs, r) {
                None => Err(Failure::Mismatch),
                Some((d, e)) => {
                    let ghost g = seq![sp@, pa@, d@];
                    let v = vec![sp, pa, d];
                    assert(lines_view(v@) =~= g);
                    Ok((v, e))
                },
            }
        },
    }
}

fn sd_block_at(cs: &Vec<char>, p: usize) -> (r: Option<(Vec<Line>, usize)>)
    requires
        p <= cs.len(),
    ensures
        match r {
            Some((ls, e)) => sd_block_spec(cs@, p as int) == Some((lines_view(ls@), e as int)) && p < e <= cs.len(),
            None => sd_block_spec(cs@, p as int) is None,
        },
{
    match speaker_at(cs, p) {
        None => None,
        Some((sp, q)) => match dialogue_at(cs, q) {
            None => None,
            Some((d, e)) => {
                let ghost g = seq![sp@, d@];
                let v = vec![sp, d];
                assert(lines_view(v@) =~= g);
                Some((v, e))
            },
        },
    }
}

/// The line `o` as a block of its own.
fn singleton(o: Option<(Line, usize)>) -> (r: Result<(Vec<Line>, usize), Failure>)
    ensures
        match o {
            Some((l, e)) => r matches Ok((ls, f)) && lines_view(ls@) == seq![l@] && f == e,
            None => r == Err::<(Vec<Line>, usize), Failure>(Failure::Mismatch),
        },
{
    match o {
        Some((l, e)) => {
            let ghost g = seq![l@];
            let v = vec![l];
            assert(lines_view(v@) =~= g);
            Ok((v, e))
        },
        None => Err(Failure::Mismatch),
    }
}

fn block_at(cs: &Vec<char>, p: usize) -> (r: Result<(Vec<Line>, usize), Failure>)
    requires
        p <= cs.len(),
    ensures
        block_result(r, block_spec(cs@, p as int)),
        r matches Err(Failure::Fatal(x)) ==> x <= cs.len(),
        r matches Ok((_, e)) ==> p < e <= cs.len(),
{
    let forced = transition_forced_at(cs, p);
    if forced.is_some() {
        return singleton(forced);
    }
    let to = transition_to_at(cs, p);
    if to.is_some() {
        return singleton(to);
    }
    let scene = scene_at(cs, p);
    if scene.is_some() {
        return singleton(scene);
    }
    match spd_block_at(cs, p) {
        Err(Failure::Mismatch) => {},
        other => return other,
    }
    match sd_block_at(cs, p) {
        Some((ls, e)) => Ok((ls, e)),
        None => singleton(action_at(cs, p)),
    }
}

/// Whether `cs[from..to]` is `w`.
fn equals_at(cs: &Vec<char>, from: usize, to: usize, w: &str) -> (r: bool)
    requires
        from <= to <= cs.len(),
    ensures
        r == (cs@.subrange(from as int, to as int) == w@),
{
    let n = chars_of(w).len();
    if to - from != n {
        return false;
    }
    let r = starts_with_at(cs, from, to, w);
    assert(cs@.subrange(from as int, to as int).subrange(0, n as int) =~= cs@.subrange(from as int, to as int));
    r
}

fn key_end_at(cs: &Vec<char>, p: usize) -> (r: usize)
    requires
        p <= cs.len(),
    ensures
        r == key_end(cs@, p as int),
        p <= r <= cs.len(),
{
    let mut i = p;
    while i < cs.len() && cs[i] != ':' && cs[i] != '\n' && cs[i] != '\r'
        invariant
            p <= i <= cs.len(),
            key_end(cs@, i as int) == key_end(cs@, p as int),
        decreases cs.len() - i,
    {
        i = i + 1;
    }
    i
}

fn space_end_at(cs: &Vec<char>, p: usize) -> (r: usize)
    requires
        p <= cs.len(),
    ensures
        r == space_end(cs@, p as int),
        p <= r <= cs.len(),
{
    let mut i = p;
    while i < cs.len() && (cs[i] == ' ' || cs[i] == '\t' || cs[i] == '\r' || cs[i] == '\n')
        invariant
            p <= i <= cs.len(),
            space_end(cs@, i as int) == space_end(cs@, p as int),
        decreases cs.len() - i,
    {
        i = i + 1;
    }
    i
}

/// One title page item at `p`: where its key ends, where its value starts and ends,
/// and where the next item may begin.
fn titlepage_item_at(cs: &Vec<char>, p: usize) -> (r: Option<(usize, usize, usize, usize)>)
    requires
        p <= cs.len(),
    ensures
        match r {
            Some((k, m, v, e)) => titlepage_item_spec(cs@, p as int) == Some(
                ((cs@.subrange(p as int, k as int), cs@.subrange(m as int, v as int)), e as int),
            ) && p <= k <= m <= v <= cs.len() && p < e <= cs.len(),
            None => titlepage_item_spec(cs@, p as int) is None,
        },
{
    let k = key_end_at(cs, p);
    if !(k > p && k < cs.len() && cs[k] == ':') {
        return None;
    }
    let m = space_end_at(cs, k + 1);
    if m <= k + 1 {
        return None;
    }
    match line_at(cs, m) {
        None => None,
        Some((v, e)) => Some((k, m, v, e)),
    }
}

/// The title page at the start of `cs`, and where it ends.
fn titlepage_at(cs: &Vec<char>) -> (r: (TitlePage, usize))
    ensures
        r.0@ == title_page_of(titlepage_items(cs@, 0)),
        r.1 == titlepage_end(cs@, 0),
        r.1 <= cs.len(),
{
    let mut tp = TitlePage { author: None, title: None, other: Vec::new() };
    let mut pos: usize = 0;
    let ghost mut done: Seq<(Seq<char>, Seq<char>)> = seq![];
    assert(tp@.other =~= empty_title_page().other);
    loop
        invariant
            pos <= cs.len(),
            titlepage_items(cs@, 0) == done + titlepage_items(cs@, pos as int),
            titlepage_end(cs@, 0) == titlepage_end(cs@, pos as int),
            tp@ == title_page_of(done),
        ensures
            titlepage_items(cs@, 0) == done,
            titlepage_end(cs@, 0) == pos,
            tp@ == title_page_of(done),
            pos <= cs.len(),
        decreases cs.len() - pos,
    {
        match titlepage_item_at(cs, pos) {
            None => {
                assert(done + titlepage_items(cs@, pos as int) =~= done);
                break;
            },
            Some((k, m, v, e)) => {
                let ghost kv = (cs@.subrange(pos as int, k as int), cs@.subrange(m as int, v as int));
                let ghost old_other = tp@.other;
                assert(done.push(kv) + titlepage_items(cs@, e as int) =~= done + titlepage_items(cs@, pos as int));
                assert(done.push(kv).drop_last() =~= done);
                let value = string_of(cs, m, v);
                if equals_at(cs, pos, k, "Title") {
                    tp.title = Some(value);
                } else if equals_at(cs, pos, k, "Author") {
                    tp.author = Some(value);
                } else {
                    let key = string_of(cs, pos, k);
                    tp.other.push((key, value));
                    assert(tp@.other =~= old_other.push(kv));
                }
                proof {
                    done = done.push(kv);
                }
                pos = e;
            },
        }
    }
    (tp, pos)
}

/// The document in `cs`, and where it stops; or the position of a fatal failure.
fn document_at(cs: &Vec<char>) -> (r: Result<(Document, usize), usize>)
    ensures
        match document_spec(cs@) {
            Outcome::Matched(d, f) => r matches Ok((doc, g)) && doc@ == d && g == f && g <= cs.len(),
            Outcome::Fatal(x) => r matches Err(y) && y == x && y <= cs.len(),
            Outcome::Mismatch => false,
        },
{
    let (titlepage, t) = titlepage_at(cs);
    let b = t + ending_len_at(cs, t);
    let (mut lines, mut pos) = match block_at(cs, b) {
        Err(Failure::Fatal(x)) => return Err(x),
        Err(Failure::Mismatch) => {
            let doc = Document { lines: Vec::new(), titlepage };
            assert(doc@.lines =~= seq![]);
            return Ok((doc, b));
        },
        Ok((ls, e)) => (ls, e),
    };
    loop
        invariant
            b <= pos <= cs.len(),
            b == body_start(cs@),
            titlepage@ == title_page_of(titlepage_items(cs@, 0)),
            blocks_from(cs@, b as int) == prepend(lines_view(lines@), blocks_after(cs@, pos as int)),
        ensures
            blocks_from(cs@, b as int) == Outcome::Matched(lines_view(lines@), pos as int),
            pos <= cs.len(),
        decreases cs.len() - pos,
    {
        let k = ending_len_at(cs, pos);
        if k == 0 {
            assert(lines_view(lines@) + seq![] =~= lines_view(lines@));
            break;
        }
        match block_at(cs, pos + k) {
            Err(Failure::Fatal(x)) => {
                assert(blocks_after(cs@, pos as int) == Outcome::<Seq<LineView>>::Fatal(x as int));
                return Err(x);
            },
            Err(Failure::Mismatch) => {
                assert(lines_view(lines@) + seq![] =~= lines_view(lines@));
                break;
            },
            Ok((more, e)) => {
                let ghost before = lines@;
                let mut more = more;
                let ghost added = more@;
                lines.append(&mut more);
                assert(lines_view(lines@) =~= lines_view(before) + lines_view(added));
                proof {
                    lemma_prepend_prepend(lines_view(before), lines_view(added), blocks_after(cs@, e as int));
                }
                pos = e;
            },
        }
    }
    Ok((Document { lines, titlepage }, pos))
}

/// `r` is what the line rule `o` gives on `s`, reported as `rule` where it does not match.
pub open spec fn line_parsed(
    s: Seq<char>,
    r: Result<(&str, Line), ParseError>,
    o: Option<(LineView, int)>,
    rule: Rule,
) -> bool {
    match o {
        Some((l, e)) => r matches Ok((rest, line)) && line@ == l && rest@ == s.subrange(e, s.len() as int),
        None => r matches Err(err) && mismatch_of(err, s, rule),
    }
}

/// The result of a line rule `o` that was run on the characters `cs` of `i`.
fn finish_line<'a>(i: &'a str, cs: &Vec<char>, o: Option<(Line, usize)>, rule: Rule) -> (r: Result<(&'a str, Line), ParseError>)
    requires
        cs@ == i@,
        o matches Some((_, e)) ==> e <= cs.len(),
    ensures
        match o {
            Some((l, e)) => r matches Ok((rest, line)) && line == l && rest@ == i@.subrange(e as int, i@.len() as int),
            None => r matches Err(err) && mismatch_of(err, i@, rule),
        },
{
    match o {
        Some((l, e)) => Ok((i.substring_char(e, cs.len()), l)),
        None => Err(mismatch(i, rule)),
    }
}

/// Parses an action: any line, up to its line ending.
pub fn action(i: &str) -> (r: Result<(&str, Line), ParseError>)
    ensures
        line_parsed(i@, r, action_spec(i@, 0), Rule::Action),
{
    let cs = chars_of(i);
    finish_line(i, &cs, action_at(&cs, 0), Rule::Action)
}

/// Parses a speaker: a line without lowercase letters. A trailing ` ^` marks dual
/// dialogue and is not part of the name.
pub fn speaker(i: &str) -> (r: Result<(&str, Line), ParseError>)
    ensures
        line_parsed(i@, r, speaker_spec(i@, 0), Rule::Speaker),
        r matches Ok((_, l)) ==> l matches Line::Speaker { name, is_dual } && is_dual == ends_with(
            line_text(i@, 0),
            " ^"@,
        ) && (is_dual ==> name@ + " ^"@ == line_text(i@, 0)) && (!is_dual ==> name@ == line_text(i@, 0)),
{
    let cs = chars_of(i);
    let r = finish_line(i, &cs, speaker_at(&cs, 0), Rule::Speaker);
    proof {
        if let Ok((_, Line::Speaker { ref name, is_dual })) = r {
            if is_dual {
                assert(name@ + " ^"@ =~= line_text(i@, 0));
            }
        }
    }
    r
}

/// Parses a transition that ends with `TO:` on a line without lowercase letters.
pub fn transition_to(i: &str) -> (r: Result<(&str, Line), ParseError>)
    ensures
        line_parsed(i@, r, transition_to_spec(i@, 0), Rule::TransitionTo),
{
    let cs = chars_of(i);
    finish_line(i, &cs, transition_to_at(&cs, 0), Rule::TransitionTo)
}

/// Parses a forced transition: a line that begins with `> `, which is dropped.
pub fn transition_forced(i: &str) -> (r: Result<(&str, Line), ParseError>)
    ensures
        line_parsed(i@, r, transition_forced_spec(i@, 0), Rule::TransitionForced),
{
    let cs = chars_of(i);
    finish_line(i, &cs, transition_forced_at(&cs, 0), Rule::TransitionForced)
}

/// Parses a scene heading: a line that begins with `INT. ` or `EXT. `.
pub fn scene(i: &str) -> (r: Result<(&str, Line), ParseError>)
    ensures
        line_parsed(i@, r, scene_spec(i@, 0), Rule::Scene),
{
    let cs = chars_of(i);
    finish_line(i, &cs, scene_at(&cs, 0), Rule::Scene)
}

/// Parses a parenthetical: `(`, text, `)`, and the line ending. Once the `(` is seen, a
/// `)` missing before the line ends, or not followed by the line ending, is fatal.
pub fn parenthetical(i: &str) -> (r: Result<(&str, Line), ParseError>)
    ensures
        match parenthetical_spec(i@, 0) {
            Outcome::Matched(l, e) => r matches Ok((rest, line)) && line@ == l && rest@ == i@.subrange(e, i@.len() as int),
            Outcome::Mismatch => r matches Err(err) && mismatch_of(err, i@, Rule::Parenthetical),
            Outcome::Fatal(x) => r matches Err(err) && fatal_of(err, i@, x, seq![Rule::Parenthetical]),
        },
{
    let cs = chars_of(i);
    match parenthetical_at(&cs, 0) {
        Ok((l, e)) => Ok((i.substring_char(e, cs.len()), l)),
        Err(Failure::Mismatch) => Err(mismatch(i, Rule::Parenthetical)),
        Err(Failure::Fatal(x)) => {
            let rules = vec![Rule::Parenthetical];
            assert(rules@ =~= seq![Rule::Parenthetical]);
            Err(fatal(i, x, rules))
        },
    }
}

/// Matches the longest non-empty start of `i` without lowercase letters and line
/// terminators.
pub fn no_lower(i: &str) -> (r: Result<(&str, &str), ParseError>)
    ensures
        no_lower_end(i@, 0) > 0 ==> (r matches Ok((rest, run)) && run@ == i@.subrange(0, no_lower_end(i@, 0))
            && rest@ == i@.subrange(no_lower_end(i@, 0), i@.len() as int)),
        no_lower_end(i@, 0) == 0 ==> (r matches Err(err) && mismatch_of(err, i@, Rule::NoLower)),
{
    let cs = chars_of(i);
    let k = no_lower_end_at(&cs, 0);
    proof {
        lemma_no_lower_end(cs@, 0);
    }
    if k > 0 {
        Ok((i.substring_char(k, cs.len()), i.substring_char(0, k)))
    } else {
        Err(mismatch(i, Rule::NoLower))
    }
}

/// Matches a terminated line and gives its text.
pub fn some_line(i: &str) -> (r: Result<(&str, &str), ParseError>)
    ensures
        has_line(i@, 0) ==> (r matches Ok((rest, text)) && text@ == line_text(i@, 0) && rest@ == i@.subrange(
            next_line(i@, 0),
            i@.len() as int,
        )),
        !has_line(i@, 0) ==> (r matches Err(err) && mismatch_of(err, i@, Rule::SomeLine)),
{
    let cs = chars_of(i);
    match line_at(&cs, 0) {
        Some((e, n)) => Ok((i.substring_char(n, cs.len()), i.substring_char(0, e))),
        None => Err(mismatch(i, Rule::SomeLine)),
    }
}

/// Matches `(`, text without `)` or line terminators, and `)`; gives the text.
pub fn in_parens(i: &str) -> (r: Result<(&str, &str), ParseError>)
    ensures
        match in_parens_spec(i@, 0) {
            Some((t, q)) => r matches Ok((rest, text)) && text@ == t && rest@ == i@.subrange(q, i@.len() as int),
            None => r matches Err(err) && mismatch_of(err, i@, Rule::InParens),
        },
{
    let cs = chars_of(i);
    match in_parens_at(&cs, 0) {
        Some((_, q)) => {
            proof {
                lemma_close_end(cs@, 1);
            }
            Ok((i.substring_char(q, cs.len()), i.substring_char(1, q - 1)))
        },
        None => Err(mismatch(i, Rule::InParens)),
    }
}

/// Parses a speaker and the dialogue on the next line.
pub fn sd_block(i: &str) -> (r: Result<(&str, Vec<Line>), ParseError>)
    ensures
        match sd_block_spec(i@, 0) {
            Some((ls, e)) => r matches Ok((rest, lines)) && lines_view(lines@) == ls && rest@ == i@.subrange(e, i@.len() as int),
            None => r matches Err(err) && mismatch_of(err, i@, Rule::SdBlock),
        },
{
    let cs = chars_of(i);
    match sd_block_at(&cs, 0) {
        Some((ls, e)) => Ok((i.substring_char(e, cs.len()), ls)),
        None => Err(mismatch(i, Rule::SdBlock)),
    }
}

/// Parses a speaker, a parenthetical and dialogue on three lines.
pub fn spd_block(i: &str) -> (r: Result<(&str, Vec<Line>), ParseError>)
    ensures
        match spd_block_spec(i@, 0) {
            Outcome::Matched(ls, e) => r matches Ok((rest, lines)) && lines_view(lines@) == ls && rest@ == i@.subrange(e, i@.len() as int),
            Outcome::Mismatch => r matches Err(err) && mismatch_of(err, i@, Rule::SpdBlock),
            Outcome::Fatal(x) => r matches Err(err) && fatal_of(err, i@, x, seq![Rule::Parenthetical, Rule::SpdBlock]),
        },
{
    let cs = chars_of(i);
    match spd_block_at(&cs, 0) {
        Ok((ls, e)) => Ok((i.substring_char(e, cs.len()), ls)),
        Err(Failure::Mismatch) => Err(mismatch(i, Rule::SpdBlock)),
        Err(Failure::Fatal(x)) => {
            let rules = vec![Rule::Parenthetical, Rule::SpdBlock];
            assert(rules@ =~= seq![Rule::Parenthetical, Rule::SpdBlock]);
            Err(fatal(i, x, rules))
        },
    }
}

/// Parses the title page items at the start of `i`, while they match. `Title` and
/// `Author` fill their fields (the last one of each wins); every other item is kept in
/// order. This always succeeds, possibly with an empty title page.
pub fn titlepage(i: &str) -> (r: Result<(&str, TitlePage), ParseError>)
    ensures
        r matches Ok((rest, tp)) && tp@ == title_page_of(titlepage_items(i@, 0)) && rest@ == i@.subrange(
            titlepage_end(i@, 0),
            i@.len() as int,
        ),
{
    let cs = chars_of(i);
    let (tp, e) = titlepage_at(&cs);
    Ok((i.substring_char(e, cs.len()), tp))
}

/// Parses a whole screenplay: an optional title page, then blocks separated by line
/// endings. The parse may stop before the end of the text; what is left over is given
/// back. It fails only where a parenthetical fails fatally.
pub fn document(text: &str) -> (r: Result<(&str, Document), ParseError>)
    ensures
        match document_spec(text@) {
            Outcome::Matched(d, f) => r matches Ok((rest, doc)) && doc@ == d && 0 <= f <= text@.len() && rest@ == text@.subrange(f, text@.len() as int),
            Outcome::Fatal(x) => r matches Err(err) && fatal_of(err, text@, x, seq![Rule::Parenthetical, Rule::SpdBlock, Rule::Block]),
            Outcome::Mismatch => false,
        },
        r matches Ok((_, doc)) ==> dialogue_placed(doc@.lines) && other_keys_plain(doc@.titlepage),
{
    proof {
        lemma_document_invariants(text@);
    }
    let cs = chars_of(text);
    match document_at(&cs) {
        Ok((doc, f)) => Ok((text.substring_char(f, cs.len()), doc)),
        Err(x) => {
            let rules = vec![Rule::Parenthetical, Rule::SpdBlock, Rule::Block];
            assert(rules@ =~= seq![Rule::Parenthetical, Rule::SpdBlock, Rule::Block]);
            Err(fatal(text, x, rules))
        },
    }
}

/// `string` without the suffix `suffix`, where it ends with it; else `string` itself.
pub fn strip_suffix(suffix: &str, string: &str) -> (r: String)
    ensures
        r@ == strip_suffix_spec(suffix@, string@),
{
    let cs = chars_of(string);
    let n = cs.len();
    if ends_with_at(&cs, 0, n, suffix) {
        let k = chars_of(suffix).len();
        assert(cs@.subrange(0, n as int) =~= cs@);
        string_of(&cs, 0, n - k)
    } else {
        assert(cs@.subrange(0, n as int) =~= cs@);
        string_of(&cs, 0, n)
    }
}

} // verus!
