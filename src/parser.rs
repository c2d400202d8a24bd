//! The grammar of a Rhizfile and a recursive-descent parser for it.
//!
//! A file is a sequence of calls separated by optional whitespace. A call is
//! `(` followed by values and a closing `)`; a value is a call, a symbol or a
//! string. A symbol is made of ASCII letters, digits and hyphens and does not
//! start with a digit. A string is `"` followed by any characters but `"` and
//! a closing `"`; there are no escapes.
use vstd::prelude::*;

use crate::ast::{lemma_sexpr_view, trees, RhizValue, Tree};
use crate::text::{decimal, decimal_text};

verus! {

/// Why a text was rejected; each variant carries a character offset.
#[derive(Debug, Clone, Copy, PartialEq, Eq, Structural)]
pub enum ParseError {
    /// This character cannot stand here.
    UnexpectedChar(usize),
    /// The text ended where a value was expected.
    UnexpectedEnd(usize),
    /// The text ended before the parenthesis opened here was closed.
    UnclosedParen(usize),
    /// The text ended inside the string that starts here.
    UnterminatedString(usize),
}

/// The forms that [`RhizParser::parse`] can recognise.
#[derive(Debug, Clone, Copy, PartialEq, Eq, Structural)]
pub enum Rule {
    /// A whole file: calls and whitespace up to the end of the text.
    File,
    /// A call at the start of the text.
    SExpr,
    /// A symbol at the start of the text.
    Symbol,
    /// A string at the start of the text.
    String,
}

/// The parser for Rhizfiles.
pub struct RhizParser;

pub open spec fn is_space(c: char) -> bool {
    c == ' ' || c == '\t' || c == '\n' || c == '\r'
}

pub open spec fn is_symbol_start(c: char) -> bool {
    ('a' <= c && c <= 'z') || ('A' <= c && c <= 'Z') || c == '-'
}

pub open spec fn is_symbol_char(c: char) -> bool {
    is_symbol_start(c) || ('0' <= c && c <= '9')
}

/// The offset of the first character at or after `i` that does not continue a symbol.
pub open spec fn symbol_end(s: Seq<char>, i: nat) -> nat
    decreases s.len() - i,
{
    if i < s.len() && is_symbol_char(s[i as int]) {
        symbol_end(s, i + 1)
    } else {
        i
    }
}

/// The offset of the first `"` at or after `i`, or the length of `s` if none follows.
pub open spec fn quote_end(s: Seq<char>, i: nat) -> nat
    decreases s.len() - i,
{
    if i < s.len() && s[i as int] != '"' {
        quote_end(s, i + 1)
    } else {
        i
    }
}

/// The value that starts at offset `i` of `s`, with the offset just past it.
pub open spec fn value_at(s: Seq<char>, i: nat) -> Result<(Tree, nat), ParseError>
    decreases s.len() - i, 0int,
{
    if i >= s.len() {
        Err(ParseError::UnexpectedEnd(i as usize))
    } else if s[i as int] == '(' {
        match items_at(s, i + 1, i) {
            Ok((items, j)) => Ok((Tree::SExpr(items), j)),
            Err(e) => Err(e),
        }
    } else if s[i as int] == '"' {
        let j = quote_end(s, i + 1);
        if j < s.len() {
            Ok((Tree::Text(s.subrange(i + 1 as int, j as int)), j + 1))
        } else {
            Err(ParseError::UnterminatedString(i as usize))
        }
    } else if is_symbol_start(s[i as int]) {
        Ok((Tree::Symbol(s.subrange(i as int, symbol_end(s, i + 1) as int)), symbol_end(s, i + 1)))
    } else {
        Err(ParseError::UnexpectedChar(i as usize))
    }
}

/// The values of the call opened at offset `open`, read from offset `i` up to
/// and including its closing parenthesis, with the offset just past that.
pub open spec fn items_at(s: Seq<char>, i: nat, open: nat) -> Result<(Seq<Tree>, nat), ParseError>
    decreases s.len() - i, 1int,
{
    if i >= s.len() {
        Err(ParseError::UnclosedParen(open as usize))
    } else if is_space(s[i as int]) {
        items_at(s, i + 1, open)
    } else if s[i as int] == ')' {
        Ok((Seq::empty(), i + 1))
    } else {
        match value_at(s, i) {
            Ok((v, j)) => {
                // A value always ends past its start (`lemma_value_end`); the test
                // makes that visible to the termination check.
                if i < j <= s.len() {
                    prepend(seq![v], items_at(s, j, open))
                } else {
                    Err(ParseError::UnexpectedChar(i as usize))
                }
            },
            Err(e) => Err(e),
        }
    }
}

/// The calls of a file from offset `i` to its end.
pub open spec fn program_at(s: Seq<char>, i: nat) -> Result<Seq<Tree>, ParseError>
    decreases s.len() - i,
{
    if i >= s.len() {
        Ok(Seq::empty())
    } else if is_space(s[i as int]) {
        program_at(s, i + 1)
    } else if s[i as int] != '(' {
        Err(ParseError::UnexpectedChar(i as usize))
    } else {
        match value_at(s, i) {
            Ok((v, j)) => {
                if i < j <= s.len() {
                    match program_at(s, j) {
                        Ok(rest) => Ok(seq![v] + rest),
                        Err(e) => Err(e),
                    }
                } else {
                    Err(ParseError::UnexpectedChar(i as usize))
                }
            },
            Err(e) => Err(e),
        }
    }
}

/// `pre` put before the values of a successful read.
pub open spec fn prepend(pre: Seq<Tree>, r: Result<(Seq<Tree>, nat), ParseError>) -> Result<
    (Seq<Tree>, nat),
    ParseError,
> {
    match r {
        Ok((rest, k)) => Ok((pre + rest, k)),
        Err(e) => Err(e),
    }
}

/// The value at the start of `s`, where `starts` says whether the first
/// character may begin the form asked for; what follows the value is ignored.
pub open spec fn leading(s: Seq<char>, starts: bool) -> Result<Tree, ParseError> {
    if s.len() > 0 && !starts {
        Err(ParseError::UnexpectedChar(0))
    } else {
        match value_at(s, 0) {
            Ok((v, _)) => Ok(v),
            Err(e) => Err(e),
        }
    }
}

/// What parsing `s` by `rule` gives.
pub open spec fn rule_parse(rule: Rule, s: Seq<char>) -> Result<Tree, ParseError> {
    match rule {
        Rule::File => match program_at(s, 0) {
            Ok(items) => Ok(Tree::Program(items)),
            Err(e) => Err(e),
        },
        Rule::SExpr => leading(s, s.len() > 0 && s[0] == '('),
        Rule::Symbol => leading(s, s.len() > 0 && is_symbol_start(s[0])),
        Rule::String => leading(s, s.len() > 0 && s[0] == '"'),
    }
}

pub open spec fn parsed_view(r: Result<RhizValue, ParseError>) -> Result<Tree, ParseError> {
    match r {
        Ok(v) => Ok(v@),
        Err(e) => Err(e),
    }
}

pub open spec fn value_view(r: Result<(RhizValue, usize), ParseError>) -> Result<(Tree, nat), ParseError> {
    match r {
        Ok((v, j)) => Ok((v@, j as nat)),
        Err(e) => Err(e),
    }
}

pub open spec fn items_view(r: Result<(Vec<RhizValue>, usize), ParseError>) -> Result<(Seq<Tree>, nat), ParseError> {
    match r {
        Ok((items, j)) => Ok((trees(items@), j as nat)),
        Err(e) => Err(e),
    }
}

fn space(c: char) -> (r: bool)
    ensures
        r == is_space(c),
{
    c == ' ' || c == '\t' || c == '\n' || c == '\r'
}

fn symbol_start(c: char) -> (r: bool)
    ensures
        r == is_symbol_start(c),
{
    ('a' <= c && c <= 'z') || ('A' <= c && c <= 'Z') || c == '-'
}

fn symbol_char(c: char) -> (r: bool)
    ensures
        r == is_symbol_char(c),
{
    symbol_start(c) || ('0' <= c && c <= '9')
}

/// The characters of `s`, for constant-time access by offset.
fn chars_of(s: &str) -> (r: Vec<char>)
    ensures
        r@ == s@,
{
    let mut out: Vec<char> = Vec::new();
    for c in it: s.chars()
        invariant
            out@ == it.seq().take(it.index() as int),
    {
        out.push(c);
    }
    assert(out@ =~= s@);
    out
}

/// The characters of `s` from offset `from` to offset `to`, as a new string.
fn text_between(s: &str, from: usize, to: usize) -> (r: String)
    requires
        from <= to <= s@.len(),
    ensures
        r@ == s@.subrange(from as int, to as int),
{
    s.substring_char(from, to).to_owned()
}

proof fn lemma_symbol_end(s: Seq<char>, i: nat)
    requires
        i <= s.len(),
    ensures
        i <= symbol_end(s, i) <= s.len(),
    decreases s.len() - i,
{
    if i < s.len() && is_symbol_char(s[i as int]) {
        lemma_symbol_end(s, i + 1);
    }
}

proof fn lemma_quote_end(s: Seq<char>, i: nat)
    requires
        i <= s.len(),
    ensures
        i <= quote_end(s, i) <= s.len(),
    decreases s.len() - i,
{
    if i < s.len() && s[i as int] != '"' {
        lemma_quote_end(s, i + 1);
    }
}

/// A value read at `i` ends past `i` and within the text.
pub proof fn lemma_value_end(s: Seq<char>, i: nat)
    ensures
        value_at(s, i) matches Ok((_, j)) ==> i < j <= s.len(),
    decreases s.len() - i, 0int,
{
    if i < s.len() {
        if s[i as int] == '(' {
            lemma_items_end(s, i + 1, i);
        } else if s[i as int] == '"' {
            lemma_quote_end(s, i + 1);
        } else {
            lemma_symbol_end(s, i + 1);
        }
    }
}

/// The items of a call read from `i` end past `i` and within the text.
pub proof fn lemma_items_end(s: Seq<char>, i: nat, open: nat)
    ensures
        items_at(s, i, open) matches Ok((_, j)) ==> i < j <= s.len(),
    decreases s.len() - i, 1int,
{
    if i < s.len() {
        if is_space(s[i as int]) {
            lemma_items_end(s, i + 1, open);
        } else if s[i as int] != ')' {
            lemma_value_end(s, i);
            if let Ok((_, j)) = value_at(s, i) {
                if i < j <= s.len() {
                    lemma_items_end(s, j, open);
                }
            }
        }
    }
}

proof fn lemma_trees_push(items: Seq<RhizValue>, v: RhizValue)
    ensures
        trees(items.push(v)) == trees(items) + seq![v@],
{
    assert(trees(items.push(v)) =~= trees(items) + seq![v@]);
}

proof fn lemma_prepend_assoc(a: Seq<Tree>, v: Tree, r: Result<(Seq<Tree>, nat), ParseError>)
    ensures
        prepend(a, prepend(seq![v], r)) == prepend(a + seq![v], r),
{
    match r {
        Ok((rest, k)) => {
            assert(a + (seq![v] + rest) =~= (a + seq![v]) + rest);
        },
        Err(_) => {},
    }
}

/// Parse the value that starts at offset `i`.
fn parse_value(s: &str, c: &Vec<char>, i: usize) -> (r: Result<(RhizValue, usize), ParseError>)
    requires
        c@ == s@,
        i <= c@.len(),
    ensures
        value_view(r) == value_at(c@, i as nat),
    decreases c@.len() - i, 0int,
{
    if i >= c.len() {
        return Err(ParseError::UnexpectedEnd(i));
    }
    let ch = c[i];
    if ch == '(' {
        match parse_items(s, c, i + 1, i) {
            Ok((items, j)) => {
                proof {
                    lemma_sexpr_view(items);
                }
                Ok((RhizValue::SExpr(items), j))
            },
            Err(e) => Err(e),
        }
    } else if ch == '"' {
        let mut j: usize = i + 1;
        while j < c.len() && c[j] != '"'
            invariant
                c@ == s@,
                i < j <= c@.len(),
                quote_end(c@, (i + 1) as nat) == quote_end(c@, j as nat),
            decreases c@.len() - j,
        {
            j = j + 1;
        }
        if j < c.len() {
            Ok((RhizValue::String(text_between(s, i + 1, j)), j + 1))
        } else {
            Err(ParseError::UnterminatedString(i))
        }
    } else if symbol_start(ch) {
        let mut j: usize = i + 1;
        while j < c.len() && symbol_char(c[j])
            invariant
                c@ == s@,
                i < j <= c@.len(),
                symbol_end(c@, (i + 1) as nat) == symbol_end(c@, j as nat),
            decreases c@.len() - j,
        {
            j = j + 1;
        }
        Ok((RhizValue::Symbol(text_between(s, i, j)), j))
    } else {
        Err(ParseError::UnexpectedChar(i))
    }
}

/// Parse the values of the call opened at `open`, from offset `start` up to
/// and including its closing parenthesis.
fn parse_items(s: &str, c: &Vec<char>, start: usize, open: usize) -> (r: Result<
    (Vec<RhizValue>, usize),
    ParseError,
>)
    requires
        c@ == s@,
        start <= c@.len(),
    ensures
        items_view(r) == items_at(c@, start as nat, open as nat),
    decreases c@.len() - start, 1int,
{
    let mut items: Vec<RhizValue> = Vec::new();
    let mut i: usize = start;
    loop
        invariant
            c@ == s@,
            start <= i <= c@.len(),
            items_at(c@, start as nat, open as nat) == prepend(trees(items@), items_at(c@, i as nat, open as nat)),
        decreases c@.len() - i,
    {
        if i >= c.len() {
            return Err(ParseError::UnclosedParen(open));
        }
        if space(c[i]) {
            i = i + 1;
        } else if c[i] == ')' {
            assert(trees(items@) + Seq::<Tree>::empty() =~= trees(items@));
            return Ok((items, i + 1));
        } else {
            match parse_value(s, c, i) {
                Ok((v, j)) => {
                    proof {
                        lemma_value_end(c@, i as nat);
                        lemma_trees_push(items@, v);
                        lemma_prepend_assoc(trees(items@), v@, items_at(c@, j as nat, open as nat));
                    }
                    items.push(v);
                    i = j;
                },
                Err(e) => {
                    return Err(e);
                },
            }
        }
    }
}

/// Parse the calls of a whole file.
fn parse_program(s: &str, c: &Vec<char>) -> (r: Result<RhizValue, ParseError>)
    requires
        c@ == s@,
    ensures
        parsed_view(r) == rule_parse(Rule::File, c@),
{
    let mut items: Vec<RhizValue> = Vec::new();
    let mut i: usize = 0;
    loop
        invariant
            c@ == s@,
            i <= c@.len(),
            program_at(c@, 0) == match program_at(c@, i as nat) {
                Ok(rest) => Ok(trees(items@) + rest),
                Err(e) => Err(e),
            },
        decreases c@.len() - i,
    {
        if i >= c.len() {
            assert(trees(items@) + Seq::<Tree>::empty() =~= trees(items@));
            proof {
                lemma_sexpr_view(items);
            }
            return Ok(RhizValue::Program(items));
        }
        if space(c[i]) {
            i = i + 1;
        } else if c[i] != '(' {
            return Err(ParseError::UnexpectedChar(i));
        } else {
            match parse_value(s, c, i) {
                Ok((v, j)) => {
                    proof {
                        lemma_value_end(c@, i as nat);
                        lemma_trees_push(items@, v);
                        match program_at(c@, j as nat) {
                            Ok(rest) => {
                                assert(trees(items@) + (seq![v@] + rest) =~= (trees(items@) + seq![v@]) + rest);
                            },
                            Err(_) => {},
                        }
                    }
                    items.push(v);
                    i = j;
                },
                Err(e) => {
                    return Err(e);
                },
            }
        }
    }
}

impl RhizParser {
    /// Parse `src` as the form that `rule` names. Only `Rule::File` asks that
    /// the whole text be consumed; the other rules read one value at its start.
    pub fn parse(rule: Rule, src: &str) -> (r: Result<RhizValue, ParseError>)
        ensures
            parsed_view(r) == rule_parse(rule, src@),
    {
        let c = chars_of(src);
        match rule {
            Rule::File => parse_program(src, &c),
            _ => {
                let starts = match rule {
                    Rule::SExpr => c.len() > 0 && c[0] == '(',
                    Rule::Symbol => c.len() > 0 && symbol_start(c[0]),
                    _ => c.len() > 0 && c[0] == '"',
                };
                if c.len() > 0 && !starts {
                    return Err(ParseError::UnexpectedChar(0));
                }
                match parse_value(src, &c, 0) {
                    Ok((v, _)) => Ok(v),
                    Err(e) => Err(e),
                }
            },
        }
    }
}

/// The description of a parse error.
pub open spec fn parse_error_text(e: ParseError) -> Seq<char> {
    match e {
        ParseError::UnexpectedChar(at) => "unexpected character at offset "@ + decimal(at as nat),
        ParseError::UnexpectedEnd(at) => "unexpected end of input at offset "@ + decimal(at as nat),
        ParseError::UnclosedParen(at) => "unclosed parenthesis opened at offset "@ + decimal(at as nat),
        ParseError::UnterminatedString(at) => "unterminated string starting at offset "@ + decimal(at as nat),
    }
}

impl ParseError {
    /// A description of the error, with the offset where it was found.
    pub fn message(&self) -> (r: String)
        ensures
            r@ == parse_error_text(*self),
    {
        let (lead, at) = match self {
            ParseError::UnexpectedChar(at) => ("unexpected character at offset ", *at),
            ParseError::UnexpectedEnd(at) => ("unexpected end of input at offset ", *at),
            ParseError::UnclosedParen(at) => ("unclosed parenthesis opened at offset ", *at),
            ParseError::UnterminatedString(at) => ("unterminated string starting at offset ", *at),
        };
        let mut r = lead.to_owned();
        let n = decimal_text(at as u64);
        r.append(n.as_str());
        r
    }
}

} // verus!
