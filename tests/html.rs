use fountain::data::{Document, Line, TitlePage};
use fountain::error::FountainError;
use fountain::html::in_html;
use fountain::parse::document;
use fountain::report::parse;

fn doc(lines: Vec<Line>) -> Document {
    Document { lines, titlepage: TitlePage::default() }
}

fn speaker(name: &str, is_dual: bool) -> Line {
    Line::Speaker { name: name.to_owned(), is_dual }
}

#[test]
fn each_line_renders_to_its_fragment() {
    let d = doc(vec![
        Line::Scene("INT. HOUSE".to_owned()),
        Line::Action("It rains.".to_owned()),
        speaker("BOB", false),
        Line::Parenthetical("quietly".to_owned()),
        Line::Dialogue("Hello.".to_owned()),
        Line::Transition("CUT TO:".to_owned()),
    ]);
    assert_eq!(
        d.as_html(),
        "<div>\n\n<p class='scene'>INT. HOUSE</p>\n<p class='action'>It rains.</p>\n\
<p class='speaker'>BOB</p>\n<p class='parenthetical'>(quietly)</p>\n\
<p class='dialogue'>Hello.</p>\n<p class='parenthetical'>(CUT TO:)</p>\n</div>\n"
    );
}

#[test]
fn empty_document_renders_an_empty_root() {
    assert_eq!(Document::default().as_html(), "<div>\n\n\n</div>\n");
}

#[test]
fn title_page_renders_with_fallbacks() {
    let d = Document {
        lines: vec![],
        titlepage: TitlePage {
            title: Some("T".to_owned()),
            author: None,
            other: vec![("Pages".to_owned(), "223".to_owned()), ("Draft".to_owned(), "2".to_owned())],
        },
    };
    assert_eq!(
        d.as_html(),
        "<div>\n<h1 class='titlepage'>T</h1>\n<h3 class='titlepage'>By Author unknown</h3>\n\
<h5>Pages: 223\n<h5>Draft: 2\n<p class='page-break'></p>\n\n\n</div>\n"
    );
    let d = Document {
        lines: vec![],
        titlepage: TitlePage { title: None, author: Some("A".to_owned()), other: vec![] },
    };
    assert_eq!(
        d.as_html(),
        "<div>\n<h1 class='titlepage'>Untitled</h1>\n<h3 class='titlepage'>By A</h3>\n\n\
<p class='page-break'></p>\n\n\n</div>\n"
    );
}

#[test]
fn dual_dialogue_is_wrapped_once() {
    let d = doc(vec![
        Line::Action("They speak at once.".to_owned()),
        speaker("BRICK", false),
        Line::Dialogue("Screw retirement.".to_owned()),
        speaker("STEEL", true),
        Line::Dialogue("Screw retirement.".to_owned()),
        Line::Action("Silence.".to_owned()),
    ]);
    let html = d.as_html();
    assert_eq!(
        html,
        "<div>\n\n<p class='action'>They speak at once.</p>\n<div class='dual-dialogue'>\n\
<p class='speaker'>BRICK</p>\n<p class='dialogue'>Screw retirement.</p>\n\
<p class='speaker'>STEEL</p>\n<p class='dialogue'>Screw retirement.</p>\n\
</div> <!-- end dual dialogue -->\n<p class='action'>Silence.</p>\n</div>\n"
    );
    assert_eq!(html.matches("<div class='dual-dialogue'>").count(), 1);
    assert_eq!(html.matches("</div> <!-- end dual dialogue -->").count(), 1);
}

#[test]
fn parsed_dual_dialogue_is_wrapped() {
    let (rest, d) = document("BRICK\nScrew retirement.\n\nSTEEL ^\nScrew retirement.\n").unwrap();
    assert_eq!(rest, "");
    assert_eq!(d.lines[2], speaker("STEEL", true));
    assert_eq!(
        d.as_html(),
        "<div>\n\n<div class='dual-dialogue'>\n<p class='speaker'>BRICK</p>\n\
<p class='dialogue'>Screw retirement.</p>\n<p class='speaker'>STEEL</p>\n\
<p class='dialogue'>Screw retirement.</p>\n</div> <!-- end dual dialogue -->\n</div>\n"
    );
}

#[test]
fn two_dual_speakers_share_their_end() {
    let d = doc(vec![
        speaker("A", false),
        speaker("B", true),
        speaker("C", true),
        Line::Dialogue("Now!".to_owned()),
    ]);
    assert_eq!(
        d.as_html(),
        "<div>\n\n<div class='dual-dialogue'>\n<p class='speaker'>A</p>\n\
<div class='dual-dialogue'>\n<p class='speaker'>B</p>\n<p class='speaker'>C</p>\n\
<p class='dialogue'>Now!</p>\n</div> <!-- end dual dialogue -->\n\
</div> <!-- end dual dialogue -->\n</div>\n"
    );
}

#[test]
fn dual_speaker_without_bounds_adds_no_wrapper() {
    let no_partner = doc(vec![speaker("STEEL", true), Line::Dialogue("Hi.".to_owned())]);
    let html = no_partner.as_html();
    assert!(!html.contains("dual-dialogue"));
    assert_eq!(html, "<div>\n\n<p class='speaker'>STEEL</p>\n<p class='dialogue'>Hi.</p>\n</div>\n");
    let no_dialogue = doc(vec![
        speaker("BRICK", false),
        Line::Dialogue("Hi.".to_owned()),
        speaker("STEEL", true),
        Line::Action("Nothing.".to_owned()),
    ]);
    assert!(!no_dialogue.as_html().contains("dual-dialogue"));
}

#[test]
fn rendering_twice_gives_the_same_text() {
    let (_, d) = document("INT. ROOM\n\nBRICK\nHi.\n\nSTEEL ^\nHi.\n").unwrap();
    let copy = d.clone();
    assert_eq!(d.as_html(), d.as_html());
    assert_eq!(d.as_html(), copy.as_html());
}

#[test]
fn page_wraps_the_rendering() {
    let d = doc(vec![Line::Action("x".to_owned())]);
    assert_eq!(
        in_html(&d, "p {}"),
        "\n<html>\n    <head>\n        <style>\np {}\n        </style>\n    </head>\n    <body>\n\
<div>\n\n<p class='action'>x</p>\n</div>\n\n    </body>\n</html>\n"
    );
}

#[test]
fn report_of_a_complete_parse_is_the_rendering() {
    assert_eq!(parse("FADE TO:\n"), "<div>\n\n<p class='parenthetical'>(FADE TO:)</p>\n</div>\n");
}

#[test]
fn report_shows_left_over_text() {
    assert_eq!(
        parse("one\ntwo\n"),
        "<h1 class='fountain-unparsed-title'>Unparsed</h1>\n<p class='fountain-unparsed-body'>'two\n'</p>\n\
<div>\n\n<p class='action'>one</p>\n</div>\n"
    );
}

#[test]
fn report_shows_the_error() {
    assert_eq!(
        parse("BOB\n(oops\n"),
        "<h1 class='fountain-parse-error-title'>Error</h1>\n<p class='fountain-parse-error-body'>\
fatal parse error in parenthetical < spd block < block at: \n</p>"
    );
}

#[test]
fn io_errors_convert() {
    let e = FountainError::from(std::io::Error::new(std::io::ErrorKind::NotFound, "missing"));
    assert!(matches!(e, FountainError::IOError(_)));
}
