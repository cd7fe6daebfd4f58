use fountain::data::{Document, Line, TitlePage};
use fountain::error::{ParseError, Rule};
use fountain::parse::{
    action, document, in_parens, no_lower, parenthetical, scene, sd_block, some_line, spd_block,
    speaker, strip_suffix, titlepage, transition_forced, transition_to,
};

#[test]
fn test_strip_suffix() {
    assert_eq!(strip_suffix(" ^", "Adam ^"), "Adam");
    assert_eq!(strip_suffix(" ^", "Adam"), "Adam");
}

#[test]
fn test_titlepage() {
    let input_text = "\
Title: MUPPET TREASURE ISLAND
Author:
    Jerry Juhl
Pages:
    223
";
    let output = titlepage(input_text);
    let expected = TitlePage {
        title: Some("MUPPET TREASURE ISLAND".to_string()),
        author: Some("Jerry Juhl".to_string()),
        other: vec![("Pages".to_string(), "223".to_string())],
    };
    let expected = Ok(("", expected));
    assert_eq!(output, expected)
}

#[test]
fn test_no_lower() {
    let input_text = "ADAM CHALMERS";
    let output = no_lower(input_text);
    let expected = Ok(("", "ADAM CHALMERS"));
    assert_eq!(output, expected);
}

#[test]
fn test_speaker() {
    let input_text = "MRS. THOMPSON\nWhat really caused the fall of Rome?\n";
    let output = speaker(input_text);
    let expected = Ok((
        "What really caused the fall of Rome?\n",
        Line::Speaker {
            name: "MRS. THOMPSON".to_owned(),
            is_dual: false,
        },
    ));
    assert_eq!(output, expected);
}

#[test]
fn test_transition() {
    let input_text = "FADE TO:\n";
    let output = transition_to(input_text);
    let expected = Ok(("", Line::Transition("FADE TO:".to_owned())));
    assert_eq!(output, expected);
}

#[test]
fn test_forced_transition() {
    let input_text = "> Burn to white.\n";
    let output = transition_forced(input_text);
    let expected = Ok(("", Line::Transition("Burn to white.".to_owned())));
    assert_eq!(output, expected);
}

#[test]
fn test_int_scene() {
    let input_text = "INT. Michael's house\n";
    let output = scene(input_text);
    let expected = Ok(("", Line::Scene("INT. Michael's house".to_owned())));
    assert_eq!(output, expected);
}

#[test]
fn test_ext_scene() {
    let input_text = "EXT. Michael's garden\n";
    let output = scene(input_text);
    let expected = Ok(("", Line::Scene("EXT. Michael's garden".to_owned())));
    assert_eq!(output, expected);
}

#[test]
fn test_action() {
    let input_text = "MICHAEL drops the plate.\n";
    let output = action(input_text);
    let expected = Ok(("", Line::Action("MICHAEL drops the plate.".to_owned())));
    assert_eq!(output, expected);
}

#[test]
fn test_some_line() {
    let input_text = "MICHAEL drops the glass\n";
    let output = some_line(input_text);
    let expected = Ok(("", "MICHAEL drops the glass"));
    assert_eq!(output, expected);
}

#[test]
fn test_in_parens() {
    let input_text = "(gasping)";
    let output = in_parens(input_text);
    assert_eq!(output, Ok(("", "gasping")));
}

#[test]
fn test_sd_block() {
    let input_text = "LIBRARIAN\nIs anyone there?\n";
    let output = sd_block(input_text);
    let expected = vec![
        Line::Speaker {
            name: "LIBRARIAN".to_string(),
            is_dual: false,
        },
        Line::Dialogue("Is anyone there?".to_string()),
    ];
    assert_eq!(output, Ok(("", expected)));
}

#[test]
fn test_spd_block() {
    let input_text = "LIBRARIAN\n(scared)\nIs anyone there?\n";
    let output = spd_block(input_text);
    let expected = vec![
        Line::Speaker {
            name: "LIBRARIAN".to_string(),
            is_dual: false,
        },
        Line::Parenthetical("scared".to_string()),
        Line::Dialogue("Is anyone there?".to_string()),
    ];
    assert_eq!(output, Ok(("", expected)));
}

#[test]
fn test_parenthetical() {
    let input_text = "(gasping)\n";
    let output = parenthetical(input_text);
    let expected = Ok(("", Line::Parenthetical("gasping".to_owned())));
    assert_eq!(output, expected);
}

#[test]
fn test_document_tiny() {
    let input_text = "INT. Public library

Lights up on a table, totally empty except for a book.
";
    let output = document(input_text);
    assert!(output.is_ok());
    let (unparsed, output) = output.unwrap();
    assert_eq!(unparsed, "");
    assert_eq!(output.lines.len(), 2);
}

#[test]
fn test_document_small() {
    let input_text = "INT. Public library

Lights up on a table, totally empty except for a book.

LIBRARIAN
(scared)
Is anyone there?

CUT TO:

EXT. YOGA RETREAT

> Fade out
";
    let output = document(input_text);
    assert!(output.is_ok());
    let (_unparsed, output) = output.unwrap();
    assert_eq!(
        output.lines,
        vec![
            Line::Scene("INT. Public library".to_owned()),
            Line::Action("Lights up on a table, totally empty except for a book.".to_owned(),),
            Line::Speaker {
                name: "LIBRARIAN".to_owned(),
                is_dual: false
            },
            Line::Parenthetical("scared".to_owned(),),
            Line::Dialogue("Is anyone there?".to_owned(),),
            Line::Transition("CUT TO:".to_owned(),),
            Line::Scene("EXT. YOGA RETREAT".to_owned(),),
            Line::Transition("Fade out".to_owned(),),
        ]
    );
}

#[test]
fn test_alien() {
    let input_text = "\
INT. MESS

The entire crew is seated. Hungrily swallowing huge portions of artificial food. The cat eats from a dish on the table.

KANE
First thing I'm going to do when we get back is eat some decent food.
";
    let output = document(input_text);
    assert!(output.is_ok());
    let (_unparsed, output) = output.unwrap();
    assert_eq!(output.lines.len(), 4);
}

#[test]
fn test_document() {
    let input_text = "\
Title:
    Stephen King Interview

INT. Set of some morning TV show.

PAULINE
(cheerily)
Welcome back to In Conversation, I'm your host Pauline Rogers and today we're talking to renowned horror writer Stephen King. Great to have you here, Stephen.

STEPHEN KING
Thanks for having me, Pauline.

PAULINE
My pleasure. Now, I'm sure you get asked this all the time, but, where do you get your ideas from?
";
    let output = document(input_text);
    let expected_lines = vec![
        Line::Scene("INT. Set of some morning TV show.".to_string()),
        Line::Speaker{name: "PAULINE".to_string(), is_dual: false},
        Line::Parenthetical("cheerily".to_string()),
        Line::Dialogue("Welcome back to In Conversation, I'm your host Pauline Rogers and today we're talking to renowned horror writer Stephen King. Great to have you here, Stephen.".to_string()),
        Line::Speaker{name: "STEPHEN KING".to_string(), is_dual: false},
        Line::Dialogue("Thanks for having me, Pauline.".to_string()),
        Line::Speaker{name: "PAULINE".to_string(), is_dual: false},
        Line::Dialogue("My pleasure. Now, I'm sure you get asked this all the time, but, where do you get your ideas from?".to_string()),
    ];
    let expected_titlepage = TitlePage {
        title: Some("Stephen King Interview".to_string()),
        ..Default::default()
    };
    let expected = Document {
        lines: expected_lines,
        titlepage: expected_titlepage,
    };
    assert!(output.is_ok());
    let (_unparsed, output) = output.unwrap();
    assert_eq!(output, expected);
}

fn speaker_line(name: &str, is_dual: bool) -> Line {
    Line::Speaker { name: name.to_owned(), is_dual }
}

#[test]
fn upper_case_line_is_a_speaker() {
    assert_eq!(speaker("BOB 2\n"), Ok(("", speaker_line("BOB 2", false))));
    let (rest, doc) = document("ANNA-MARIA (V.O.)\nWe were young.\n").unwrap();
    assert_eq!(rest, "");
    assert_eq!(doc.lines[0], speaker_line("ANNA-MARIA (V.O.)", false));
    assert_eq!(doc.lines[1], Line::Dialogue("We were young.".to_owned()));
}

#[test]
fn upper_case_line_without_following_line_is_action() {
    let (rest, doc) = document("BOB\n").unwrap();
    assert_eq!(rest, "");
    assert_eq!(doc.lines, vec![Line::Action("BOB".to_owned())]);
}

#[test]
fn dual_marker_is_stripped() {
    assert_eq!(speaker("STEEL ^\n"), Ok(("", speaker_line("STEEL", true))));
    assert_eq!(speaker("STEEL^\n"), Ok(("", speaker_line("STEEL^", false))));
    assert_eq!(speaker("STEEL\n"), Ok(("", speaker_line("STEEL", false))));
    assert_eq!(speaker("A ^ ^\n"), Ok(("", speaker_line("A ^", true))));
}

#[test]
fn three_lines_make_one_block() {
    let (rest, doc) = document("LIBRARIAN\n(scared)\nIs anyone there?\n").unwrap();
    assert_eq!(rest, "");
    assert_eq!(
        doc.lines,
        vec![
            speaker_line("LIBRARIAN", false),
            Line::Parenthetical("scared".to_owned()),
            Line::Dialogue("Is anyone there?".to_owned()),
        ]
    );
}

#[test]
fn document_tiny_exact_lines() {
    let (rest, doc) =
        document("INT. Public library\n\nLights up on a table, totally empty except for a book.\n").unwrap();
    assert_eq!(rest, "");
    assert_eq!(
        doc.lines,
        vec![
            Line::Scene("INT. Public library".to_owned()),
            Line::Action("Lights up on a table, totally empty except for a book.".to_owned()),
        ]
    );
    assert_eq!(doc.titlepage, TitlePage::default());
}

#[test]
fn transitions_as_documents() {
    let (_, doc) = document("FADE TO:\n").unwrap();
    assert_eq!(doc.lines, vec![Line::Transition("FADE TO:".to_owned())]);
    let (_, doc) = document("> Burn to white.\n").unwrap();
    assert_eq!(doc.lines, vec![Line::Transition("Burn to white.".to_owned())]);
}

#[test]
fn lowercase_line_ending_in_to_is_no_transition() {
    assert!(transition_to("Fade to:\n").is_err());
    let (_, doc) = document("Fade TO:\n").unwrap();
    assert_eq!(doc.lines, vec![Line::Action("Fade TO:".to_owned())]);
}

#[test]
fn crlf_line_endings() {
    assert_eq!(transition_to("FADE TO:\r\nX\r\n"), Ok(("X\r\n", Line::Transition("FADE TO:".to_owned()))));
    assert_eq!(some_line("abc\rdef\n"), Err(ParseError {
        fatal: false,
        rest: "abc\rdef\n".to_owned(),
        context: vec![Rule::SomeLine],
    }));
}

#[test]
fn title_page_keeps_duplicates_and_order() {
    let input = "Draft: 1\nTitle: A\nDraft: 2\nTitle: B\n\nINT. ROOM\n";
    let (rest, doc) = document(input).unwrap();
    assert_eq!(rest, "");
    assert_eq!(doc.titlepage.title, Some("B".to_owned()));
    assert_eq!(doc.titlepage.author, None);
    assert_eq!(
        doc.titlepage.other,
        vec![("Draft".to_owned(), "1".to_owned()), ("Draft".to_owned(), "2".to_owned())]
    );
    assert_eq!(doc.lines, vec![Line::Scene("INT. ROOM".to_owned())]);
}

#[test]
fn empty_input_is_an_empty_document() {
    assert_eq!(document(""), Ok(("", Document::default())));
}

#[test]
fn parse_stops_where_no_block_follows() {
    let (rest, doc) = document("a\n\n\nb\n").unwrap();
    assert_eq!(rest, "b\n");
    assert_eq!(doc.lines, vec![Line::Action("a".to_owned()), Line::Action("".to_owned())]);
    let (rest, doc) = document("one\ntwo\n").unwrap();
    assert_eq!(rest, "two\n");
    assert_eq!(doc.lines, vec![Line::Action("one".to_owned())]);
}

#[test]
fn unclosed_parenthetical_is_fatal() {
    let err = document("BOB\n(whispers\nHi\n").unwrap_err();
    assert_eq!(
        err,
        ParseError {
            fatal: true,
            rest: "\nHi\n".to_owned(),
            context: vec![Rule::Parenthetical, Rule::SpdBlock, Rule::Block],
        }
    );
    assert_eq!(err.describe(), "fatal parse error in parenthetical < spd block < block at: \nHi\n");
}

#[test]
fn text_after_closing_parenthesis_is_fatal() {
    let err = spd_block("BOB\n(aside) more\nHi\n").unwrap_err();
    assert_eq!(
        err,
        ParseError {
            fatal: true,
            rest: " more\nHi\n".to_owned(),
            context: vec![Rule::Parenthetical, Rule::SpdBlock],
        }
    );
    assert!(parenthetical("(aside)").unwrap_err().fatal);
}

#[test]
fn empty_parentheses_are_no_parenthetical() {
    let err = parenthetical("()\n").unwrap_err();
    assert!(!err.fatal);
    let (_, doc) = document("BOB\n()\n").unwrap();
    assert_eq!(doc.lines, vec![speaker_line("BOB", false), Line::Dialogue("()".to_owned())]);
}

#[test]
fn mismatches_name_their_rule() {
    let expect = |rule: Rule, input: &str| ParseError { fatal: false, rest: input.to_owned(), context: vec![rule] };
    assert_eq!(speaker("hello\n"), Err(expect(Rule::Speaker, "hello\n")));
    assert_eq!(scene("INT.\n"), Err(expect(Rule::Scene, "INT.\n")));
    assert_eq!(transition_forced(">no space\n"), Err(expect(Rule::TransitionForced, ">no space\n")));
    assert_eq!(action("no ending"), Err(expect(Rule::Action, "no ending")));
    assert_eq!(no_lower("abc"), Err(expect(Rule::NoLower, "abc")));
    assert_eq!(in_parens("()"), Err(expect(Rule::InParens, "()")));
    assert_eq!(sd_block("BOB\n"), Err(expect(Rule::SdBlock, "BOB\n")));
    assert_eq!(spd_block("BOB\nHi\n"), Err(expect(Rule::SpdBlock, "BOB\nHi\n")));
    assert_eq!(expect(Rule::Speaker, "x").describe(), "parse error in speaker at: x");
}

#[test]
fn strip_suffix_keeps_other_strings() {
    assert_eq!(strip_suffix("TO:", "CUT TO:"), "CUT ");
    assert_eq!(strip_suffix("long suffix", "short"), "short");
    assert_eq!(strip_suffix("", "same"), "same");
}
