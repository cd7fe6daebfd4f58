//! The screenplay grammar, stated over the input's characters and positions in it.
//!
//! Each rule is tried at a position `p` of the input `s` and either matches, giving what
//! it recognised and the position after it, or does not. The parenthetical rule alone
//! can also fail fatally: once its `(` is seen, a missing `)` or a `)` that does not end
//! the line stops the whole parse.
use vstd::prelude::*;
use crate::data::{DocumentView, LineView, TitlePageView, empty_title_page};
use crate::text::{ending_len, has_line, is_eol, is_lower, lemma_line_end_at, line_end, line_text, next_line};

verus! {

/// The outcome of a rule that can fail fatally.
pub enum Outcome<T> {
    /// The rule matched; what follows it starts at the given position.
    Matched(T, int),
    /// The rule does not match here; the next alternative may be tried.
    Mismatch,
    /// The rule failed at the given position; no alternative may be tried.
    Fatal(int),
}

/// `t` begins with `w`.
pub open spec fn starts_with(t: Seq<char>, w: Seq<char>) -> bool {
    w.len() <= t.len() && t.subrange(0, w.len() as int) == w
}

/// `t` ends with `w`.
pub open spec fn ends_with(t: Seq<char>, w: Seq<char>) -> bool {
    w.len() <= t.len() && t.subrange(t.len() - w.len(), t.len() as int) == w
}

/// `t` without the suffix `w`, where it ends with it.
pub open spec fn strip_suffix_spec(w: Seq<char>, t: Seq<char>) -> Seq<char> {
    if ends_with(t, w) {
        t.subrange(0, t.len() - w.len())
    } else {
        t
    }
}

/// The end of the run of characters from `p` on that are neither lowercase letters nor
/// line terminators.
pub open spec fn no_lower_end(s: Seq<char>, p: int) -> int
    decreases s.len() - p,
{
    if p >= s.len() {
        s.len() as int
    } else if is_lower(s[p]) || is_eol(s[p]) {
        p
    } else {
        no_lower_end(s, p + 1)
    }
}

/// A non-empty run without lowercase letters starts at `p` and is ended by a line ending.
pub open spec fn upper_line(s: Seq<char>, p: int) -> bool {
    no_lower_end(s, p) > p && ending_len(s, no_lower_end(s, p)) > 0
}

/// The marker of dual dialogue at the end of a speaker line.
pub open spec fn dual_marker() -> Seq<char> {
    " ^"@
}

/// The speaker that the text `t` of a speaker line names.
pub open spec fn speaker_of(t: Seq<char>) -> LineView {
    LineView::Speaker { name: strip_suffix_spec(dual_marker(), t), is_dual: ends_with(t, dual_marker()) }
}

/// A line that begins with `> `: a transition of any text.
pub open spec fn transition_forced_spec(s: Seq<char>, p: int) -> Option<(LineView, int)> {
    if has_line(s, p) && starts_with(line_text(s, p), "> "@) {
        Some((LineView::Transition(line_text(s, p).skip("> "@.len() as int)), next_line(s, p)))
    } else {
        None
    }
}

/// A line without lowercase letters that ends with `TO:`.
pub open spec fn transition_to_spec(s: Seq<char>, p: int) -> Option<(LineView, int)> {
    if upper_line(s, p) && ends_with(line_text(s, p), "TO:"@) {
        Some((LineView::Transition(line_text(s, p)), next_line(s, p)))
    } else {
        None
    }
}

/// A line that begins with `INT. ` or `EXT. `.
pub open spec fn scene_spec(s: Seq<char>, p: int) -> Option<(LineView, int)> {
    if has_line(s, p) && (starts_with(line_text(s, p), "INT. "@)
        || starts_with(line_text(s, p), "EXT. "@)) {
        Some((LineView::Scene(line_text(s, p)), next_line(s, p)))
    } else {
        None
    }
}

/// A line without lowercase letters.
pub open spec fn speaker_spec(s: Seq<char>, p: int) -> Option<(LineView, int)> {
    if upper_line(s, p) {
        Some((speaker_of(line_text(s, p)), next_line(s, p)))
    } else {
        None
    }
}

/// Any terminated line, as dialogue.
pub open spec fn dialogue_spec(s: Seq<char>, p: int) -> Option<(LineView, int)> {
    if has_line(s, p) {
        Some((LineView::Dialogue(line_text(s, p)), next_line(s, p)))
    } else {
        None
    }
}

/// Any terminated line, as action.
pub open spec fn action_spec(s: Seq<char>, p: int) -> Option<(LineView, int)> {
    if has_line(s, p) {
        Some((LineView::Action(line_text(s, p)), next_line(s, p)))
    } else {
        None
    }
}

/// The first position at or after `p` that holds `)` or a line terminator, or the end.
pub open spec fn close_end(s: Seq<char>, p: int) -> int
    decreases s.len() - p,
{
    if p >= s.len() {
        s.len() as int
    } else if s[p] == ')' || is_eol(s[p]) {
        p
    } else {
        close_end(s, p + 1)
    }
}

/// `(`, then at least one character that is neither `)` nor a line terminator, then `)`:
/// the text between the parentheses and the position after them.
pub open spec fn in_parens_spec(s: Seq<char>, p: int) -> Option<(Seq<char>, int)> {
    let c = close_end(s, p + 1);
    if 0 <= p < s.len() && s[p] == '(' && c > p + 1 && c < s.len() && s[c] == ')' {
        Some((s.subrange(p + 1, c), c + 1))
    } else {
        None
    }
}

/// A parenthetical. It does not match where the line does not begin with `(` or begins
/// with `()`. Past that, a `)` missing before the line ends, or one that the line ending
/// does not follow, is fatal.
pub open spec fn parenthetical_spec(s: Seq<char>, p: int) -> Outcome<LineView> {
    if !(0 <= p < s.len() && s[p] == '(') || (p + 1 < s.len() && s[p + 1] == ')') {
        Outcome::Mismatch
    } else {
        match in_parens_spec(s, p) {
            None => Outcome::Fatal(close_end(s, p + 1)),
            Some((t, q)) => if ending_len(s, q) > 0 {
                Outcome::Matched(LineView::Parenthetical(t), q + ending_len(s, q))
            } else {
                Outcome::Fatal(q)
            },
        }
    }
}

/// Speaker, parenthetical, dialogue.
pub open spec fn spd_block_spec(s: Seq<char>, p: int) -> Outcome<Seq<LineView>> {
    match speaker_spec(s, p) {
        None => Outcome::Mismatch,
        Some((sp, q)) => match parenthetical_spec(s, q) {
            Outcome::Mismatch => Outcome::Mismatch,
            Outcome::Fatal(x) => Outcome::Fatal(x),
            Outcome::Matched(pa, r) => match dialogue_spec(s, r) {
                None => Outcome::Mismatch,
                Some((d, e)) => Outcome::Matched(seq![sp, pa, d], e),
            },
        },
    }
}

/// Speaker, dialogue.
pub open spec fn sd_block_spec(s: Seq<char>, p: int) -> Option<(Seq<LineView>, int)> {
    match speaker_spec(s, p) {
        None => None,
        Some((sp, q)) => match dialogue_spec(s, q) {
            None => None,
            Some((d, e)) => Some((seq![sp, d], e)),
        },
    }
}

/// One line as a block of its own.
pub open spec fn single(o: Option<(LineView, int)>) -> Outcome<Seq<LineView>> {
    match o {
        Some((l, e)) => Outcome::Matched(seq![l], e),
        None => Outcome::Mismatch,
    }
}

/// A block: the first of these alternatives that matches, in this order: forced
/// transition, transition, scene, speaker-parenthetical-dialogue, speaker-dialogue, action.
pub open spec fn block_spec(s: Seq<char>, p: int) -> Outcome<Seq<LineView>> {
    if transition_forced_spec(s, p) is Some {
        single(transition_forced_spec(s, p))
    } else if transition_to_spec(s, p) is Some {
        single(transition_to_spec(s, p))
    } else if scene_spec(s, p) is Some {
        single(scene_spec(s, p))
    } else if !(spd_block_spec(s, p) is Mismatch) {
        spd_block_spec(s, p)
    } else if sd_block_spec(s, p) is Some {
        let (ls, e) = sd_block_spec(s, p)->0;
        Outcome::Matched(ls, e)
    } else {
        single(action_spec(s, p))
    }
}

/// A character that the title page accepts between a key's `:` and its value.
pub open spec fn is_space(c: char) -> bool {
    c == ' ' || c == '\t' || c == '\r' || c == '\n'
}

/// The end of the run from `p` on of characters that are neither `:` nor line terminators.
pub open spec fn key_end(s: Seq<char>, p: int) -> int
    decreases s.len() - p,
{
    if p >= s.len() {
        s.len() as int
    } else if s[p] == ':' || is_eol(s[p]) {
        p
    } else {
        key_end(s, p + 1)
    }
}

/// The end of the run of whitespace (line breaks included) from `p` on.
pub open spec fn space_end(s: Seq<char>, p: int) -> int
    decreases s.len() - p,
{
    if p >= s.len() {
        s.len() as int
    } else if !is_space(s[p]) {
        p
    } else {
        space_end(s, p + 1)
    }
}

/// One title page item: a non-empty key, `:`, at least one whitespace character (line
/// breaks and indentation included), and the terminated line that follows as the value.
pub open spec fn titlepage_item_spec(s: Seq<char>, p: int) -> Option<((Seq<char>, Seq<char>), int)> {
    let k = key_end(s, p);
    let m = space_end(s, k + 1);
    if k > p && k < s.len() && s[k] == ':' && m > k + 1 && has_line(s, space_end(s, k + 1)) {
        Some(((s.subrange(p, k), line_text(s, m)), next_line(s, m)))
    } else {
        None
    }
}

/// The title page items from `p` on, taken while they match.
pub open spec fn titlepage_items(s: Seq<char>, p: int) -> Seq<(Seq<char>, Seq<char>)>
    decreases s.len() - p,
{
    match titlepage_item_spec(s, p) {
        Some((kv, e)) => if p < e <= s.len() {
            seq![kv] + titlepage_items(s, e)
        } else {
            seq![]
        },
        None => seq![],
    }
}

/// Where the title page items from `p` on end.
pub open spec fn titlepage_end(s: Seq<char>, p: int) -> int
    decreases s.len() - p,
{
    match titlepage_item_spec(s, p) {
        Some((kv, e)) => if p < e <= s.len() {
            titlepage_end(s, e)
        } else {
            p
        },
        None => p,
    }
}

/// The title page that `items` describe: the last `Title` and the last `Author` value,
/// and every other item in order.
pub open spec fn title_page_of(items: Seq<(Seq<char>, Seq<char>)>) -> TitlePageView
    decreases items.len(),
{
    if items.len() == 0 {
        empty_title_page()
    } else {
        let tp = title_page_of(items.drop_last());
        let (k, v) = items.last();
        if k == "Title"@ {
            TitlePageView { author: tp.author, title: Some(v), other: tp.other }
        } else if k == "Author"@ {
            TitlePageView { author: Some(v), title: tp.title, other: tp.other }
        } else {
            TitlePageView { author: tp.author, title: tp.title, other: tp.other.push((k, v)) }
        }
    }
}

/// `ls` followed by the lines of `o`, where `o` matched.
pub open spec fn prepend(ls: Seq<LineView>, o: Outcome<Seq<LineView>>) -> Outcome<Seq<LineView>> {
    match o {
        Outcome::Matched(rest, f) => Outcome::Matched(ls + rest, f),
        Outcome::Mismatch => Outcome::Mismatch,
        Outcome::Fatal(x) => Outcome::Fatal(x),
    }
}

/// The blocks after one that ended at `p`: each is preceded by a line ending. The list
/// ends before a line ending that no block follows.
pub open spec fn blocks_after(s: Seq<char>, p: int) -> Outcome<Seq<LineView>>
    decreases s.len() - p,
{
    if ending_len(s, p) == 0 {
        Outcome::Matched(seq![], p)
    } else {
        match block_spec(s, p + ending_len(s, p)) {
            Outcome::Matched(ls, e) => if p < e <= s.len() {
                prepend(ls, blocks_after(s, e))
            } else {
                Outcome::Matched(seq![], p)
            },
            Outcome::Mismatch => Outcome::Matched(seq![], p),
            Outcome::Fatal(x) => Outcome::Fatal(x),
        }
    }
}

/// The blocks from `p` on, flattened in source order.
pub open spec fn blocks_from(s: Seq<char>, p: int) -> Outcome<Seq<LineView>> {
    match block_spec(s, p) {
        Outcome::Matched(ls, e) => prepend(ls, blocks_after(s, e)),
        Outcome::Mismatch => Outcome::Matched(seq![], p),
        Outcome::Fatal(x) => Outcome::Fatal(x),
    }
}

/// Where the blocks of a document begin: after the title page and an optional line ending.
pub open spec fn body_start(s: Seq<char>) -> int {
    titlepage_end(s, 0) + ending_len(s, titlepage_end(s, 0))
}

/// A whole document: the title page, then the blocks. What it does not consume is left
/// over, and only a fatal failure stops it.
pub open spec fn document_spec(s: Seq<char>) -> Outcome<DocumentView> {
    match blocks_from(s, body_start(s)) {
        Outcome::Matched(lines, f) => Outcome::Matched(
            DocumentView { lines, titlepage: title_page_of(titlepage_items(s, 0)) },
            f,
        ),
        Outcome::Mismatch => Outcome::Mismatch,
        Outcome::Fatal(x) => Outcome::Fatal(x),
    }
}

pub proof fn lemma_prepend_prepend(a: Seq<LineView>, b: Seq<LineView>, o: Outcome<Seq<LineView>>)
    ensures
        prepend(a, prepend(b, o)) == prepend(a + b, o),
{
    if let Outcome::Matched(rest, f) = o {
        assert(a + (b + rest) =~= (a + b) + rest);
    }
}

pub proof fn lemma_no_lower_end(s: Seq<char>, p: int)
    requires
        0 <= p <= s.len(),
    ensures
        p <= no_lower_end(s, p) <= s.len(),
        forall|i: int| p <= i < no_lower_end(s, p) ==> !is_lower(#[trigger] s[i]) && !is_eol(s[i]),
        no_lower_end(s, p) < s.len() ==> is_lower(s[no_lower_end(s, p)]) || is_eol(s[no_lower_end(s, p)]),
    decreases s.len() - p,
{
    if p < s.len() && !is_lower(s[p]) && !is_eol(s[p]) {
        lemma_no_lower_end(s, p + 1);
    }
}

/// A line that passes [`upper_line`] is the whole line that starts at `p`.
pub proof fn lemma_upper_line(s: Seq<char>, p: int)
    requires
        0 <= p <= s.len(),
        upper_line(s, p),
    ensures
        no_lower_end(s, p) == line_end(s, p),
        has_line(s, p),
        forall|i: int| 0 <= i < line_text(s, p).len() ==> !is_lower(#[trigger] line_text(s, p)[i]),
{
    lemma_no_lower_end(s, p);
    lemma_line_end_at(s, p, no_lower_end(s, p));
}

pub proof fn lemma_close_end(s: Seq<char>, p: int)
    requires
        0 <= p <= s.len(),
    ensures
        p <= close_end(s, p) <= s.len(),
        forall|i: int| p <= i < close_end(s, p) ==> #[trigger] s[i] != ')' && !is_eol(s[i]),
        close_end(s, p) < s.len() ==> s[close_end(s, p)] == ')' || is_eol(s[close_end(s, p)]),
    decreases s.len() - p,
{
    if p < s.len() && s[p] != ')' && !is_eol(s[p]) {
        lemma_close_end(s, p + 1);
    }
}

/// A line without lowercase letters that is neither a transition nor a scene heading is
/// read as a speaker, and the block that starts there begins with that speaker, provided
/// another terminated line follows it and that line is not a malformed parenthetical.
pub proof fn upper_line_is_speaker(s: Seq<char>, p: int)
    requires
        0 <= p <= s.len(),
        upper_line(s, p),
        transition_forced_spec(s, p) is None,
        transition_to_spec(s, p) is None,
        scene_spec(s, p) is None,
        has_line(s, next_line(s, p)),
        !(parenthetical_spec(s, next_line(s, p)) is Fatal),
    ensures
        speaker_spec(s, p) == Some((speaker_of(line_text(s, p)), next_line(s, p))),
        block_spec(s, p) matches Outcome::Matched(ls, _) && ls.len() > 0 && ls[0] == speaker_of(line_text(s, p)),
{
}

/// A speaker line, a parenthetical line and any third line form one block of exactly
/// three elements: the speaker, the parenthetical and the dialogue.
pub proof fn speaker_parenthetical_dialogue(s: Seq<char>, p: int)
    requires
        0 <= p <= s.len(),
        upper_line(s, p),
        transition_forced_spec(s, p) is None,
        transition_to_spec(s, p) is None,
        scene_spec(s, p) is None,
        parenthetical_spec(s, next_line(s, p)) is Matched,
        has_line(s, parenthetical_spec(s, next_line(s, p))->Matched_1),
    ensures
        ({
            let pa = parenthetical_spec(s, next_line(s, p));
            let r = pa->Matched_1;
            block_spec(s, p) == Outcome::Matched(
                seq![speaker_of(line_text(s, p)), pa->Matched_0, LineView::Dialogue(line_text(s, r))],
                next_line(s, r),
            )
        }),
{
}


/// Every dialogue follows a speaker, directly or after a parenthetical that follows one.
pub open spec fn dialogue_placed(lines: Seq<LineView>) -> bool {
    forall|i: int|
        0 <= i < lines.len() && (#[trigger] lines[i]) is Dialogue ==> i >= 1 && (lines[i - 1] is Speaker || (
        i >= 2 && lines[i - 1] is Parenthetical && lines[i - 2] is Speaker))
}

/// No item of the title page's other items has the key `Title` or `Author`.
pub open spec fn other_keys_plain(tp: TitlePageView) -> bool {
    forall|i: int| 0 <= i < tp.other.len() ==> (#[trigger] tp.other[i]).0 != "Title"@ && tp.other[i].0 != "Author"@
}

proof fn lemma_block_placed(s: Seq<char>, p: int)
    ensures
        block_spec(s, p) matches Outcome::Matched(ls, _) ==> dialogue_placed(ls) && ls.len() > 0 && !(
        ls[0] is Dialogue),
{
    if let Outcome::Matched(ls, _) = block_spec(s, p) {
        assert forall|i: int| 0 <= i < ls.len() && (#[trigger] ls[i]) is Dialogue implies i >= 1 && (
        ls[i - 1] is Speaker || (i >= 2 && ls[i - 1] is Parenthetical && ls[i - 2] is Speaker)) by {
            if !(spd_block_spec(s, p) is Mismatch) && transition_forced_spec(s, p) is None
                && transition_to_spec(s, p) is None && scene_spec(s, p) is None {
                assert(ls.len() == 3);
            }
        }
    }
}

proof fn lemma_placed_concat(a: Seq<LineView>, b: Seq<LineView>)
    requires
        dialogue_placed(a),
        dialogue_placed(b),
        b.len() > 0 ==> !(b[0] is Dialogue),
    ensures
        dialogue_placed(a + b),
{
    let c = a + b;
    assert forall|i: int| 0 <= i < c.len() && (#[trigger] c[i]) is Dialogue implies i >= 1 && (c[i - 1] is Speaker
        || (i >= 2 && c[i - 1] is Parenthetical && c[i - 2] is Speaker)) by {
        if i >= a.len() {
            let j = i - a.len();
            assert(b[j] is Dialogue);
            assert(j >= 1);
            assert(c[i - 1] == b[j - 1]);
            if j >= 2 {
                assert(c[i - 2] == b[j - 2]);
            }
        } else {
            assert(a[i] is Dialogue);
        }
    }
}

proof fn lemma_blocks_after_placed(s: Seq<char>, p: int)
    ensures
        blocks_after(s, p) matches Outcome::Matched(ls, _) ==> dialogue_placed(ls) && (ls.len() > 0 ==> !(
        ls[0] is Dialogue)),
    decreases s.len() - p,
{
    if ending_len(s, p) > 0 {
        let q = p + ending_len(s, p);
        lemma_block_placed(s, q);
        if let Outcome::Matched(ls, e) = block_spec(s, q) {
            if p < e <= s.len() {
                lemma_blocks_after_placed(s, e);
                if let Outcome::Matched(rest, _) = blocks_after(s, e) {
                    lemma_placed_concat(ls, rest);
                    assert((ls + rest)[0] == ls[0]);
                }
            }
        }
    }
}

proof fn lemma_title_page_plain(items: Seq<(Seq<char>, Seq<char>)>)
    ensures
        other_keys_plain(title_page_of(items)),
    decreases items.len(),
{
    if items.len() > 0 {
        lemma_title_page_plain(items.drop_last());
    }
}

/// What a document that parses holds: every dialogue follows a speaker, directly or
/// after a parenthetical that follows one; and the title page's other items hold
/// neither the title nor the author.
pub proof fn lemma_document_invariants(s: Seq<char>)
    ensures
        document_spec(s) matches Outcome::Matched(d, _) ==> dialogue_placed(d.lines) && other_keys_plain(
        d.titlepage),
{
    let b = body_start(s);
    lemma_block_placed(s, b);
    lemma_title_page_plain(titlepage_items(s, 0));
    if let Outcome::Matched(ls, e) = block_spec(s, b) {
        lemma_blocks_after_placed(s, e);
        if let Outcome::Matched(rest, _) = blocks_after(s, e) {
            lemma_placed_concat(ls, rest);
        }
    }
}

} // verus!
