//! Errors: where and in which rules the parser stopped.
use vstd::prelude::*;
use vstd::string::*;
use crate::text::{join, join_with, strings_view};

verus! {

/// A rule of the grammar, as named in an error's context.
#[derive(Clone, Copy, PartialEq, Eq, Debug, Structural)]
pub enum Rule {
    NoLower,
    SomeLine,
    InParens,
    Action,
    Parenthetical,
    Speaker,
    TransitionTo,
    TransitionForced,
    Scene,
    SdBlock,
    SpdBlock,
    Block,
}

/// Why a parse stopped.
#[derive(Clone, PartialEq, Eq, Debug)]
pub struct ParseError {
    /// The failure was fatal: no alternative rule was to be tried.
    pub fatal: bool,
    /// The input from the position of the failure on.
    pub rest: String,
    /// The rules that were being tried, innermost first.
    pub context: Vec<Rule>,
}

/// `err` reports that `rule` does not match at the start of `s`.
pub open spec fn mismatch_of(err: ParseError, s: Seq<char>, rule: Rule) -> bool {
    !err.fatal && err.rest@ == s && err.context@ == seq![rule]
}

/// `err` reports a fatal failure at position `x` of `s`, inside `rules`.
pub open spec fn fatal_of(err: ParseError, s: Seq<char>, x: int, rules: Seq<Rule>) -> bool {
    err.fatal && err.rest@ == s.subrange(x, s.len() as int) && err.context@ == rules
}

/// The error that `rule` does not match at the start of `i`.
pub(crate) fn mismatch(i: &str, rule: Rule) -> (err: ParseError)
    ensures
        mismatch_of(err, i@, rule),
{
    let context = vec![rule];
    assert(context@ =~= seq![rule]);
    ParseError { fatal: false, rest: i.to_owned(), context }
}

/// The fatal error at character `x` of `i`, inside `rules`.
pub(crate) fn fatal(i: &str, x: usize, rules: Vec<Rule>) -> (err: ParseError)
    requires
        x <= i@.len(),
    ensures
        fatal_of(err, i@, x as int, rules@),
{
    let rest = i.substring_char(x, i.unicode_len()).to_owned();
    ParseError { fatal: true, rest, context: rules }
}

/// The name of a rule, as an error shows it.
pub open spec fn rule_name(r: Rule) -> Seq<char> {
    match r {
        Rule::NoLower => "no_lower"@,
        Rule::SomeLine => "some_line"@,
        Rule::InParens => "in_parens"@,
        Rule::Action => "action"@,
        Rule::Parenthetical => "parenthetical"@,
        Rule::Speaker => "speaker"@,
        Rule::TransitionTo => "transition_to"@,
        Rule::TransitionForced => "transition_forced"@,
        Rule::Scene => "scene"@,
        Rule::SdBlock => "sd block"@,
        Rule::SpdBlock => "spd block"@,
        Rule::Block => "block"@,
    }
}

/// How an error reads: whether it was fatal, the rules it arose in from the innermost
/// out, and the input from where it arose.
pub open spec fn error_text(fatal: bool, rest: Seq<char>, context: Seq<Rule>) -> Seq<char> {
    (if fatal {
        "fatal parse error"@
    } else {
        "parse error"@
    }) + " in "@ + join(context.map_values(|r: Rule| rule_name(r)), " < "@) + " at: "@ + rest
}

impl Rule {
    /// The name of this rule.
    pub fn name(&self) -> (r: &'static str)
        ensures
            r@ == rule_name(*self),
    {
        match self {
            Rule::NoLower => "no_lower",
            Rule::SomeLine => "some_line",
            Rule::InParens => "in_parens",
            Rule::Action => "action",
            Rule::Parenthetical => "parenthetical",
            Rule::Speaker => "speaker",
            Rule::TransitionTo => "transition_to",
            Rule::TransitionForced => "transition_forced",
            Rule::Scene => "scene",
            Rule::SdBlock => "sd block",
            Rule::SpdBlock => "spd block",
            Rule::Block => "block",
        }
    }
}

impl ParseError {
    /// The error as text.
    pub fn describe(&self) -> (r: String)
        ensures
            r@ == error_text(self.fatal, self.rest@, self.context@),
    {
        let mut r = if self.fatal {
            "fatal parse error".to_owned()
        } else {
            "parse error".to_owned()
        };
        r.append(" in ");
        let mut names: Vec<String> = Vec::new();
        let mut i: usize = 0;
        while i < self.context.len()
            invariant
                i <= self.context@.len(),
                strings_view(names@) == self.context@.take(i as int).map_values(|r: Rule| rule_name(r)),
            decreases self.context@.len() - i,
        {
            let ghost prev = names@;
            let name = self.context[i].name().to_owned();
            names.push(name);
            assert(strings_view(names@) =~= strings_view(prev).push(rule_name(self.context@[i as int])));
            assert(strings_view(names@) =~= self.context@.take(i + 1).map_values(|r: Rule| rule_name(r)));
            i = i + 1;
        }
        assert(self.context@.take(i as int) =~= self.context@);
        r.append(join_with(&names, " < ").as_str());
        r.append(" at: ");
        r.append(self.rest.as_str());
        r
    }
}

#[verifier::external_type_specification]
#[verifier::external_body]
pub struct ExIoError(std::io::Error);

/// What can go wrong when a screenplay is read and parsed.
#[derive(Debug)]
pub enum FountainError {
    /// The screenplay does not parse; the text describes why.
    ParseError(String),
    /// The screenplay could not be read.
    IOError(std::io::Error),
}

impl From<std::io::Error> for FountainError {
    fn from(err: std::io::Error) -> (r: FountainError)
        ensures
            r == FountainError::IOError(err),
    {
        FountainError::IOError(err)
    }
}

impl vstd::std_specs::convert::FromSpecImpl<std::io::Error> for FountainError {
    open spec fn obeys_from_spec() -> bool {
        true
    }

    open spec fn from_spec(v: std::io::Error) -> FountainError {
        FountainError::IOError(v)
    }
}

} // verus!
