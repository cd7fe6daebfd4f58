//! The document model: typed screenplay lines, the title page, and the whole document,
//! each with a mathematical view over `Seq<char>`.
use vstd::prelude::*;

verus! {

/// One typed line of a screenplay.
#[derive(PartialEq, Eq, Clone, Debug)]
pub enum Line {
    /// A scene heading: a line that begins with `INT. ` or `EXT. `.
    Scene(String),
    /// Action, the fallback for any line that is no other element.
    Action(String),
    /// Dialogue: the line that follows a speaker or a parenthetical.
    Dialogue(String),
    /// A line with no lowercase letters. `is_dual` marks simultaneous dialogue,
    /// written as a trailing ` ^`, which is not part of `name`.
    Speaker { name: String, is_dual: bool },
    /// Text wrapped in one pair of parentheses that ends the line.
    Parenthetical(String),
    /// A line ending in `TO:`, or one forced with a leading `> `.
    Transition(String),
}

/// The value of a [`Line`]: the same variants, over character sequences.
pub enum LineView {
    Scene(Seq<char>),
    Action(Seq<char>),
    Dialogue(Seq<char>),
    Speaker { name: Seq<char>, is_dual: bool },
    Parenthetical(Seq<char>),
    Transition(Seq<char>),
}

impl View for Line {
    type V = LineView;

    open spec fn view(&self) -> LineView {
        match self {
            Line::Scene(s) => LineView::Scene(s@),
            Line::Action(s) => LineView::Action(s@),
            Line::Dialogue(s) => LineView::Dialogue(s@),
            Line::Speaker { name, is_dual } => LineView::Speaker { name: name@, is_dual: *is_dual },
            Line::Parenthetical(s) => LineView::Parenthetical(s@),
            Line::Transition(s) => LineView::Transition(s@),
        }
    }
}

/// The values of a sequence of lines.
pub open spec fn lines_view(lines: Seq<Line>) -> Seq<LineView> {
    lines.map_values(|l: Line| l@)
}

impl Line {
    pub fn is_scene(&self) -> (r: bool)
        ensures
            r == self@ is Scene,
    {
        if let Line::Scene(_) = self {
            true
        } else {
            false
        }
    }

    pub fn is_dialogue(&self) -> (r: bool)
        ensures
            r == self@ is Dialogue,
    {
        if let Line::Dialogue(_) = self {
            true
        } else {
            false
        }
    }

    pub fn is_action(&self) -> (r: bool)
        ensures
            r == self@ is Action,
    {
        if let Line::Action(_) = self {
            true
        } else {
            false
        }
    }

    pub fn is_speaker(&self) -> (r: bool)
        ensures
            r == self@ is Speaker,
    {
        if let Line::Speaker { .. } = self {
            true
        } else {
            false
        }
    }

    pub fn is_parenthetical(&self) -> (r: bool)
        ensures
            r == self@ is Parenthetical,
    {
        if let Line::Parenthetical(_) = self {
            true
        } else {
            false
        }
    }

    pub fn is_transition(&self) -> (r: bool)
        ensures
            r == self@ is Transition,
    {
        if let Line::Transition(_) = self {
            true
        } else {
            false
        }
    }
}

/// The optional key-value block at the start of a screenplay.
#[derive(PartialEq, Eq, Clone, Debug, Default)]
pub struct TitlePage {
    /// Document author
    pub author: Option<String>,
    /// Document title
    pub title: Option<String>,
    /// Every other item, as key-value pairs in the order they were written.
    pub other: Vec<(String, String)>,
}

/// The value of a [`TitlePage`].
pub struct TitlePageView {
    pub author: Option<Seq<char>>,
    pub title: Option<Seq<char>>,
    pub other: Seq<(Seq<char>, Seq<char>)>,
}

pub open spec fn opt_view(o: Option<String>) -> Option<Seq<char>> {
    match o {
        Some(s) => Some(s@),
        None => None,
    }
}

pub open spec fn pairs_view(v: Seq<(String, String)>) -> Seq<(Seq<char>, Seq<char>)> {
    v.map_values(|p: (String, String)| (p.0@, p.1@))
}

impl View for TitlePage {
    type V = TitlePageView;

    open spec fn view(&self) -> TitlePageView {
        TitlePageView {
            author: opt_view(self.author),
            title: opt_view(self.title),
            other: pairs_view(self.other@),
        }
    }
}

/// The title page that a screenplay without one has.
pub open spec fn empty_title_page() -> TitlePageView {
    TitlePageView { author: None, title: None, other: Seq::empty() }
}

impl TitlePage {
    /// Whether this title page holds nothing.
    pub fn is_empty(&self) -> (r: bool)
        ensures
            r == (self@ == empty_title_page()),
    {
        let r = self.author.is_none() && self.title.is_none() && self.other.len() == 0;
        proof {
            if r {
                assert(self@.other =~= Seq::<(Seq<char>, Seq<char>)>::empty());
            } else {
                assert(self@.other.len() == self.other@.len());
            }
        }
        r
    }
}

/// A whole screenplay: its title page and its lines in source order.
#[derive(PartialEq, Eq, Clone, Debug, Default)]
pub struct Document {
    pub lines: Vec<Line>,
    pub titlepage: TitlePage,
}

/// The value of a [`Document`].
pub struct DocumentView {
    pub lines: Seq<LineView>,
    pub titlepage: TitlePageView,
}

impl View for Document {
    type V = DocumentView;

    open spec fn view(&self) -> DocumentView {
        DocumentView { lines: lines_view(self.lines@), titlepage: self.titlepage@ }
    }
}

} // verus!
