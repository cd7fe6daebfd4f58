//! HTML rendering of a document, with dual dialogue bracketed by a wrapper.
use vstd::prelude::*;
use vstd::string::*;
use crate::data::{Document, DocumentView, Line, LineView, TitlePage, TitlePageView, empty_title_page, lines_view};
use crate::text::{join, join_with, strings_view};
use crate::utils::{position_after, position_before};

verus! {

/// The fragment that opens a dual dialogue.
pub const DD_START: &'static str = "<div class='dual-dialogue'>";

/// The fragment that closes a dual dialogue.
pub const DD_END: &'static str = "</div> <!-- end dual dialogue -->";

/// The HTML fragment of one line.
pub open spec fn line_html(l: LineView) -> Seq<char> {
    match l {
        LineView::Scene(s) => "<p class='scene'>"@ + s + "</p>"@,
        LineView::Action(s) => "<p class='action'>"@ + s + "</p>"@,
        LineView::Dialogue(s) => "<p class='dialogue'>"@ + s + "</p>"@,
        LineView::Speaker { name, .. } => "<p class='speaker'>"@ + name + "</p>"@,
        LineView::Parenthetical(s) => "<p class='parenthetical'>("@ + s + ")</p>"@,
        LineView::Transition(s) => "<p class='parenthetical'>("@ + s + ")</p>"@,
    }
}

/// A speaker that marks dual dialogue.
pub open spec fn is_dual_speaker(l: LineView) -> bool {
    l matches LineView::Speaker { is_dual, .. } && is_dual
}

/// The index of the nearest speaker before `i`.
pub open spec fn speaker_before(lines: Seq<LineView>, i: int) -> Option<int>
    decreases i,
{
    if i <= 0 {
        None
    } else if lines[i - 1] is Speaker {
        Some(i - 1)
    } else {
        speaker_before(lines, i - 1)
    }
}

/// The index of the nearest dialogue after `i`.
pub open spec fn dialogue_after(lines: Seq<LineView>, i: int) -> Option<int>
    decreases lines.len() - i,
{
    if i + 1 >= lines.len() {
        None
    } else if lines[i + 1] is Dialogue {
        Some(i + 1)
    } else {
        dialogue_after(lines, i + 1)
    }
}

/// The first and the last line of the dual dialogue that the speaker at `i` closes: from
/// the speaker before it to the dialogue after it, where both exist.
pub open spec fn dual_bounds(lines: Seq<LineView>, i: int) -> Option<(int, int)> {
    match (speaker_before(lines, i), dialogue_after(lines, i)) {
        (Some(first), Some(last)) => Some((first, last)),
        _ => None,
    }
}

/// The line at `i` is a dual speaker whose dual dialogue begins at line `k`.
pub open spec fn opens_at(lines: Seq<LineView>, i: int, k: int) -> bool {
    is_dual_speaker(lines[i]) && dual_bounds(lines, i) is Some && (dual_bounds(lines, i)->0).0 == k
}

/// The line at `i` is a dual speaker whose dual dialogue ends at line `k`.
pub open spec fn closes_at(lines: Seq<LineView>, i: int, k: int) -> bool {
    is_dual_speaker(lines[i]) && dual_bounds(lines, i) is Some && (dual_bounds(lines, i)->0).1 == k
}

/// How many of the lines before `upto` open a dual dialogue at line `k`.
pub open spec fn count_opens(lines: Seq<LineView>, k: int, upto: int) -> nat
    decreases upto,
{
    if upto <= 0 {
        0
    } else {
        count_opens(lines, k, upto - 1) + if opens_at(lines, upto - 1, k) { 1nat } else { 0nat }
    }
}

/// How many of the lines before `upto` close a dual dialogue at line `k`.
pub open spec fn count_closes(lines: Seq<LineView>, k: int, upto: int) -> nat
    decreases upto,
{
    if upto <= 0 {
        0
    } else {
        count_closes(lines, k, upto - 1) + if closes_at(lines, upto - 1, k) { 1nat } else { 0nat }
    }
}

/// The fragments of line `k`: an opening wrapper for each dual dialogue that begins
/// there, the line itself, and a closing wrapper for each dual dialogue that ends there.
pub open spec fn fragments_of(lines: Seq<LineView>, k: int) -> Seq<Seq<char>> {
    Seq::new(count_opens(lines, k, lines.len() as int), |_j: int| DD_START@) + seq![line_html(lines[k])]
        + Seq::new(count_closes(lines, k, lines.len() as int), |_j: int| DD_END@)
}

/// The fragments of the lines before `m`, in order.
pub open spec fn nodes_upto(lines: Seq<LineView>, m: int) -> Seq<Seq<char>>
    decreases m,
{
    if m <= 0 {
        seq![]
    } else {
        nodes_upto(lines, m - 1) + fragments_of(lines, m - 1)
    }
}

/// The fragments of all the lines.
pub open spec fn nodes(lines: Seq<LineView>) -> Seq<Seq<char>> {
    nodes_upto(lines, lines.len() as int)
}

pub proof fn lemma_speaker_before(lines: Seq<LineView>, i: int)
    requires
        0 <= i <= lines.len(),
    ensures
        match speaker_before(lines, i) {
            Some(k) => 0 <= k < i && lines[k] is Speaker && forall|j: int| k < j < i ==> !(#[trigger] lines[j] is Speaker),
            None => forall|j: int| 0 <= j < i ==> !(#[trigger] lines[j] is Speaker),
        },
    decreases i,
{
    if i > 0 {
        lemma_speaker_before(lines, i - 1);
    }
}

pub proof fn lemma_dialogue_after(lines: Seq<LineView>, i: int)
    requires
        0 <= i < lines.len(),
    ensures
        match dialogue_after(lines, i) {
            Some(k) => i < k < lines.len() && lines[k] is Dialogue && forall|j: int| i < j < k ==> !(#[trigger] lines[j] is Dialogue),
            None => forall|j: int| i < j < lines.len() ==> !(#[trigger] lines[j] is Dialogue),
        },
    decreases lines.len() - i,
{
    if i + 1 < lines.len() {
        lemma_dialogue_after(lines, i + 1);
    }
}

/// `o`'s text, or `fallback` where there is none.
pub open spec fn or_else(o: Option<Seq<char>>, fallback: Seq<char>) -> Seq<char> {
    match o {
        Some(t) => t,
        None => fallback,
    }
}

/// The fragment of one title page item other than the title and the author.
pub open spec fn item_html(kv: (Seq<char>, Seq<char>)) -> Seq<char> {
    "<h5>"@ + kv.0 + ": "@ + kv.1
}

/// The HTML of a title page: the title, the author, the other items, and a page break.
pub open spec fn title_page_html(tp: TitlePageView) -> Seq<char> {
    "<h1 class='titlepage'>"@ + or_else(tp.title, "Untitled"@) + "</h1>"@ + "\n"@
        + "<h3 class='titlepage'>By "@ + or_else(tp.author, "Author unknown"@) + "</h3>"@ + "\n"@
        + join(tp.other.map_values(|kv: (Seq<char>, Seq<char>)| item_html(kv)), "\n"@) + "\n"@
        + "<p class='page-break'></p>"@ + "\n"@
}

/// The HTML of a document: a root `div` that holds the title page, where it is not
/// empty, and then the fragments of the lines, one per line.
pub open spec fn document_html(d: DocumentView) -> Seq<char> {
    "<div>\n"@ + (if d.titlepage == empty_title_page() {
        Seq::<char>::empty()
    } else {
        title_page_html(d.titlepage)
    }) + "\n"@ + join(nodes(d.lines), "\n"@) + "\n</div>\n"@
}

/// A full HTML page around the rendering of a document, with `style` as its stylesheet.
pub open spec fn page_html(style: Seq<char>, d: DocumentView) -> Seq<char> {
    "\n<html>\n    <head>\n        <style>\n"@ + style + "\n        </style>\n    </head>\n    <body>\n"@
        + document_html(d) + "\n    </body>\n</html>\n"@
}

fn line_as_html(line: &Line) -> (r: String)
    ensures
        r@ == line_html(line@),
{
    let (open, text, close) = match line {
        Line::Scene(s) => ("<p class='scene'>", s, "</p>"),
        Line::Action(s) => ("<p class='action'>", s, "</p>"),
        Line::Dialogue(s) => ("<p class='dialogue'>", s, "</p>"),
        Line::Speaker { name, .. } => ("<p class='speaker'>", name, "</p>"),
        Line::Parenthetical(s) => ("<p class='parenthetical'>(", s, ")</p>"),
        Line::Transition(s) => ("<p class='parenthetical'>(", s, ")</p>"),
    };
    let mut r = open.to_owned();
    r.append(text.as_str());
    r.append(close);
    r
}

/// The bounds of a dual dialogue: `start` is its first line, `end` is one past its last.
struct DualDialogue {
    start: usize,
    end: usize,
}

/// The bounds of the dual dialogue that the dual speaker at `i` closes.
fn dual_dialogue_bounds(lines: &[Line], i: usize) -> (r: Option<DualDialogue>)
    requires
        i < lines@.len(),
    ensures
        match dual_bounds(lines_view(lines@), i as int) {
            Some((first, last)) => r matches Some(dd) && dd.start == first && dd.end == last + 1 && dd.end
                <= lines@.len(),
            None => r is None,
        },
        r matches Some(dd) ==> dd.start < i < dd.end <= lines@.len(),
{
    let is_speaker = |line: &Line| -> (b: bool)
        ensures
            b == line@ is Speaker,
        { line.is_speaker() };
    let is_dialogue = |line: &Line| -> (b: bool)
        ensures
            b == line@ is Dialogue,
        { line.is_dialogue() };
    let start = position_before(lines, i, is_speaker);
    let end = position_after(lines, i, is_dialogue);
    let n = lines.len();
    proof {
        let lv = lines_view(lines@);
        assert(forall|j: int| 0 <= j < lines@.len() ==> #[trigger] lv[j] == lines@[j]@);
        lemma_speaker_before(lv, i as int);
        lemma_dialogue_after(lv, i as int);
        assert(forall|x: &Line, b: bool| is_speaker.ensures((x,), b) ==> b == (x@ is Speaker));
        assert(forall|x: &Line, b: bool| is_dialogue.ensures((x,), b) ==> b == (x@ is Dialogue));
        if let Some(k) = start {
            assert(lv[k as int] is Speaker);
            assert(forall|j: int| k < j < i ==> !(#[trigger] lv[j] is Speaker));
        } else {
            assert(forall|j: int| 0 <= j < i ==> !(#[trigger] lv[j] is Speaker));
        }
        if let Some(k) = end {
            assert(lv[k as int] is Dialogue);
            assert(forall|j: int| i < j < k ==> !(#[trigger] lv[j] is Dialogue));
        } else {
            assert(forall|j: int| i < j < n ==> !(#[trigger] lv[j] is Dialogue));
        }
    }
    match (start, end) {
        (Some(start), Some(end)) => Some(DualDialogue { start, end: end + 1 }),
        _ => None,
    }
}

/// The fragments of `lines`, with dual dialogue bracketed.
fn as_nodes(lines: &[Line]) -> (r: Vec<String>)
    ensures
        strings_view(r@) == nodes(lines_view(lines@)),
{
    let n = lines.len();
    let ghost lv = lines_view(lines@);
    assert(forall|j: int| 0 <= j < lines@.len() ==> #[trigger] lv[j] == lines@[j]@);
    let mut opens: Vec<usize> = Vec::new();
    let mut closes: Vec<usize> = Vec::new();
    let mut k: usize = 0;
    while k < n
        invariant
            k <= n,
            n == lines@.len(),
            opens.len() == k,
            closes.len() == k,
            forall|j: int| 0 <= j < k ==> opens@[j] == 0 && closes@[j] == 0,
        decreases n - k,
    {
        opens.push(0);
        closes.push(0);
        k = k + 1;
    }
    // Count, for each line, the dual dialogues that begin and end there.
    let mut i: usize = 0;
    while i < n
        invariant
            i <= n,
            n == lines@.len(),
            lv == lines_view(lines@),
            forall|j: int| 0 <= j < lines@.len() ==> #[trigger] lv[j] == lines@[j]@,
            opens.len() == n,
            closes.len() == n,
            forall|k: int| 0 <= k < n ==> opens@[k] == count_opens(lv, k, i as int) && opens@[k] <= i,
            forall|k: int| 0 <= k < n ==> closes@[k] == count_closes(lv, k, i as int) && closes@[k] <= i,
        decreases n - i,
    {
        if let Line::Speaker { is_dual: true, .. } = &lines[i] {
            if let Some(dd) = dual_dialogue_bounds(lines, i) {
                let first = dd.start;
                let last = dd.end - 1;
                let o = opens[first];
                opens.set(first, o + 1);
                let c = closes[last];
                closes.set(last, c + 1);
            }
        }
        i = i + 1;
    }
    let mut nodes: Vec<String> = Vec::new();
    let mut k: usize = 0;
    while k < n
        invariant
            k <= n,
            n == lines@.len(),
            lv == lines_view(lines@),
            forall|j: int| 0 <= j < lines@.len() ==> #[trigger] lv[j] == lines@[j]@,
            opens.len() == n,
            closes.len() == n,
            forall|k: int| 0 <= k < n ==> opens@[k] == count_opens(lv, k, n as int),
            forall|k: int| 0 <= k < n ==> closes@[k] == count_closes(lv, k, n as int),
            strings_view(nodes@) == nodes_upto(lv, k as int),
        decreases n - k,
    {
        let ghost before = strings_view(nodes@);
        let mut j: usize = 0;
        while j < opens[k]
            invariant
                k < n,
                opens.len() == n,
                j <= opens@[k as int],
                strings_view(nodes@) == before + Seq::new(j as nat, |_j: int| DD_START@),
            decreases opens@[k as int] - j,
        {
            let ghost prev = nodes@;
            nodes.push(DD_START.to_owned());
            assert(strings_view(nodes@) =~= strings_view(prev).push(DD_START@));
            assert(Seq::new((j + 1) as nat, |_j: int| DD_START@) =~= Seq::new(j as nat, |_j: int| DD_START@).push(DD_START@));
            j = j + 1;
        }
        let ghost prev = nodes@;
        nodes.push(line_as_html(&lines[k]));
        assert(strings_view(nodes@) =~= strings_view(prev).push(line_html(lv[k as int])));
        let ghost middle = strings_view(nodes@);
        let mut j: usize = 0;
        while j < closes[k]
            invariant
                k < n,
                closes.len() == n,
                j <= closes@[k as int],
                strings_view(nodes@) == middle + Seq::new(j as nat, |_j: int| DD_END@),
            decreases closes@[k as int] - j,
        {
            let ghost prev = nodes@;
            nodes.push(DD_END.to_owned());
            assert(strings_view(nodes@) =~= strings_view(prev).push(DD_END@));
            assert(Seq::new((j + 1) as nat, |_j: int| DD_END@) =~= Seq::new(j as nat, |_j: int| DD_END@).push(DD_END@));
            j = j + 1;
        }
        assert(strings_view(nodes@) =~= nodes_upto(lv, k + 1));
        k = k + 1;
    }
    nodes
}

impl TitlePage {
    fn as_html(&self) -> (r: String)
        ensures
            r@ == title_page_html(self@),
    {
        let mut r = "<h1 class='titlepage'>".to_owned();
        match &self.title {
            Some(t) => r.append(t.as_str()),
            None => r.append("Untitled"),
        }
        r.append("</h1>");
        r.append("\n");
        r.append("<h3 class='titlepage'>By ");
        match &self.author {
            Some(a) => r.append(a.as_str()),
            None => r.append("Author unknown"),
        }
        r.append("</h3>");
        r.append("\n");
        let mut items: Vec<String> = Vec::new();
        let mut i: usize = 0;
        while i < self.other.len()
            invariant
                i <= self.other@.len(),
                strings_view(items@) == self@.other.take(i as int).map_values(
                    |kv: (Seq<char>, Seq<char>)| item_html(kv),
                ),
            decreases self.other@.len() - i,
        {
            let (k, v) = &self.other[i];
            let mut item = "<h5>".to_owned();
            item.append(k.as_str());
            item.append(": ");
            item.append(v.as_str());
            assert(self@.other[i as int] == (k@, v@));
            assert(item@ == item_html(self@.other[i as int]));
            let ghost prev = items@;
            items.push(item);
            assert(strings_view(items@) =~= strings_view(prev).push(item@));
            assert(strings_view(items@) =~= self@.other.take(i + 1).map_values(
                |kv: (Seq<char>, Seq<char>)| item_html(kv),
            ));
            i = i + 1;
        }
        assert(self@.other.take(i as int) =~= self@.other);
        r.append(join_with(&items, "\n").as_str());
        r.append("\n");
        r.append("<p class='page-break'></p>");
        r.append("\n");
        r
    }
}

impl Document {
    /// Renders the document as HTML, rooted in a `div`.
    pub fn as_html(&self) -> (r: String)
        ensures
            r@ == document_html(self@),
    {
        let mut r = "<div>\n".to_owned();
        if !self.titlepage.is_empty() {
            r.append(self.titlepage.as_html().as_str());
        } else {
            assert(r@ + Seq::<char>::empty() =~= r@);
        }
        r.append("\n");
        let nodes = as_nodes(self.lines.as_slice());
        r.append(join_with(&nodes, "\n").as_str());
        r.append("\n</div>\n");
        r
    }
}

/// A full HTML page that shows `parsed`, with `style` as its stylesheet.
pub fn in_html(parsed: &Document, style: &str) -> (r: String)
    ensures
        r@ == page_html(style@, parsed@),
{
    let mut r = "\n<html>\n    <head>\n        <style>\n".to_owned();
    r.append(style);
    r.append("\n        </style>\n    </head>\n    <body>\n");
    r.append(parsed.as_html().as_str());
    r.append("\n    </body>\n</html>\n");
    r
}

/// Where no dual speaker has both a speaker before it and a dialogue after it, the
/// bracketing adds no wrapper: the fragments are those of the lines, one for each.
pub proof fn bracketing_without_bounds_adds_nothing(lines: Seq<LineView>)
    requires
        forall|i: int|
            0 <= i < lines.len() && is_dual_speaker(#[trigger] lines[i]) ==> speaker_before(lines, i) is None
                || dialogue_after(lines, i) is None,
    ensures
        nodes(lines) == lines.map_values(|l: LineView| line_html(l)),
{
    assert forall|k: int, upto: int| upto <= lines.len() implies count_opens(lines, k, upto) == 0
        && count_closes(lines, k, upto) == 0 by {
        lemma_no_wrappers(lines, k, upto);
    }
    lemma_nodes_plain(lines, lines.len() as int);
    assert(lines.take(lines.len() as int) =~= lines);
}

proof fn lemma_no_wrappers(lines: Seq<LineView>, k: int, upto: int)
    requires
        upto <= lines.len(),
        forall|i: int|
            0 <= i < lines.len() && is_dual_speaker(#[trigger] lines[i]) ==> speaker_before(lines, i) is None
                || dialogue_after(lines, i) is None,
    ensures
        count_opens(lines, k, upto) == 0,
        count_closes(lines, k, upto) == 0,
    decreases upto,
{
    if upto > 0 {
        lemma_no_wrappers(lines, k, upto - 1);
    }
}

proof fn lemma_nodes_plain(lines: Seq<LineView>, m: int)
    requires
        0 <= m <= lines.len(),
        forall|k: int| 0 <= k < lines.len() ==> count_opens(lines, k, lines.len() as int) == 0
            && count_closes(lines, k, lines.len() as int) == 0,
    ensures
        nodes_upto(lines, m) == lines.take(m).map_values(|l: LineView| line_html(l)),
    decreases m,
{
    if m > 0 {
        lemma_nodes_plain(lines, m - 1);
        assert(Seq::new(0, |_j: int| DD_START@) =~= Seq::<Seq<char>>::empty());
        assert(Seq::new(0, |_j: int| DD_END@) =~= Seq::<Seq<char>>::empty());
        assert(fragments_of(lines, m - 1) =~= seq![line_html(lines[m - 1])]);
        assert(lines.take(m).map_values(|l: LineView| line_html(l)) =~= lines.take(m - 1).map_values(
            |l: LineView| line_html(l),
        ).push(line_html(lines[m - 1])));
    }
}

/// Rendering depends on the value of a document alone: two documents with the same value
/// render to the same text, however often they are rendered.
pub proof fn rendering_is_deterministic(a: Document, b: Document)
    requires
        a@ == b@,
    ensures
        document_html(a@) == document_html(b@),
{
}

} // verus!
