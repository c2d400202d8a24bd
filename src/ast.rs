//! The value tree produced by the parser.
use vstd::prelude::*;

use crate::parser::{parsed_view, rule_parse, ParseError, RhizParser, Rule};

verus! {

/// Elements of a Rhizfile.
#[derive(Debug, PartialEq, Eq)]
pub enum RhizValue {
    /// The whole file: a sequence of top-level forms.
    Program(Vec<RhizValue>),
    /// A parenthesised form: an operator followed by its arguments.
    SExpr(Vec<RhizValue>),
    /// A bare identifier.
    Symbol(String),
    /// A quoted literal, without its quotes.
    String(String),
}

/// The mathematical shape of a [`RhizValue`].
pub enum Tree {
    Program(Seq<Tree>),
    SExpr(Seq<Tree>),
    Symbol(Seq<char>),
    Text(Seq<char>),
}

impl View for RhizValue {
    type V = Tree;

    open spec fn view(&self) -> Tree
        decreases self,
    {
        match self {
            RhizValue::Program(items) => Tree::Program(
                Seq::new(
                    items.len() as nat,
                    |i: int|
                        if 0 <= i < items.len() {
                            items[i]@
                        } else {
                            Tree::Text(Seq::empty())
                        },
                ),
            ),
            RhizValue::SExpr(items) => Tree::SExpr(
                Seq::new(
                    items.len() as nat,
                    |i: int|
                        if 0 <= i < items.len() {
                            items[i]@
                        } else {
                            Tree::Text(Seq::empty())
                        },
                ),
            ),
            RhizValue::Symbol(s) => Tree::Symbol(s@),
            RhizValue::String(s) => Tree::Text(s@),
        }
    }
}

/// The shapes of a sequence of values.
pub open spec fn trees(items: Seq<RhizValue>) -> Seq<Tree> {
    Seq::new(items.len(), |i: int| items[i]@)
}

/// The shape of a call holding `items` is the call of their shapes.
pub proof fn lemma_sexpr_view(items: Vec<RhizValue>)
    ensures
        RhizValue::SExpr(items)@ == Tree::SExpr(trees(items@)),
        RhizValue::Program(items)@ == Tree::Program(trees(items@)),
{
    assert(RhizValue::SExpr(items)@->SExpr_0 =~= trees(items@));
    assert(RhizValue::Program(items)@->Program_0 =~= trees(items@));
}

/// The source-like text of a value: a string between quotes, a symbol as it
/// stands, and each value of a call or program followed by a space.
pub open spec fn rendered(v: RhizValue) -> Seq<char>
    decreases v, 1int, 0int,
{
    match v {
        RhizValue::String(s) => "\""@ + s@ + "\""@,
        RhizValue::Symbol(s) => s@,
        RhizValue::SExpr(items) => rendered_items(v, items.len() as int),
        RhizValue::Program(items) => rendered_items(v, items.len() as int),
    }
}

/// The rendering of the first `n` values inside the call or program `v`.
pub open spec fn rendered_items(v: RhizValue, n: int) -> Seq<char>
    decreases v, 0int, n,
{
    match v {
        RhizValue::SExpr(items) => if 0 < n <= items.len() {
            rendered_items(v, n - 1) + rendered(items@[n - 1]) + " "@
        } else {
            Seq::empty()
        },
        RhizValue::Program(items) => if 0 < n <= items.len() {
            rendered_items(v, n - 1) + rendered(items@[n - 1]) + " "@
        } else {
            Seq::empty()
        },
        _ => Seq::empty(),
    }
}

impl RhizValue {
    /// The source-like text of this value (see [`rendered`]).
    pub fn render(&self) -> (r: String)
        ensures
            r@ == rendered(*self),
        decreases self, 1int,
    {
        match self {
            RhizValue::String(s) => {
                let mut out = String::new();
                out.append("\"");
                out.append(s.as_str());
                out.append("\"");
                assert(out@ =~= rendered(*self));
                out
            },
            RhizValue::Symbol(s) => s.as_str().to_owned(),
            RhizValue::SExpr(items) => Self::render_items(self, items),
            RhizValue::Program(items) => Self::render_items(self, items),
        }
    }

    fn render_items(v: &RhizValue, items: &Vec<RhizValue>) -> (r: String)
        requires
            *v == RhizValue::SExpr(*items) || *v == RhizValue::Program(*items),
        ensures
            r@ == rendered_items(*v, items.len() as int),
        decreases v, 0int,
    {
        let mut out = String::new();
        let mut i: usize = 0;
        while i < items.len()
            invariant
                i <= items.len(),
                *v == RhizValue::SExpr(*items) || *v == RhizValue::Program(*items),
                out@ == rendered_items(*v, i as int),
            decreases items.len() - i,
        {
            proof {
                assert(decreases_to!(*v => items@[i as int]));
            }
            let part = items[i].render();
            out.append(part.as_str());
            out.append(" ");
            i = i + 1;
        }
        out
    }
}

/// Parse the text of a whole Rhizfile into a [`RhizValue::Program`].
pub fn parse_rhiz_program(src: &str) -> (r: Result<RhizValue, ParseError>)
    ensures
        parsed_view(r) == rule_parse(Rule::File, src@),
{
    RhizParser::parse(Rule::File, src)
}

} // verus!
