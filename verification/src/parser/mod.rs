use crate::ast::Node;
use crate::lexer::views;
use crate::parser::grammar::{end_error, syn_expect, syn_item, syn_items, syn_program, tok_at, Parsed, ParsedList};
use crate::ast::{node_views, NodeV};
use crate::parser::parse_class::parse_class;
use crate::parser::parse_func::{parse_function, parse_procedure};
use crate::parser::parse_stmt::parse_line;
use crate::tokens::{K_CLASS, K_FUNCTION, K_PROCEDURE};
use crate::tokens::token_kind;
use crate::position::Position;
use crate::tokens::{Token, TokenV};
use vstd::prelude::*;

pub mod grammar;
pub mod parse_expr;
pub mod parse_identifier;
pub mod parse_declare;
pub mod parse_selection;
pub mod parse_io;
pub mod parse_loop;
pub mod parse_stmt;
pub mod parse_func;
pub mod parse_class;

verus! {

/// Why the parser rejected its input; each kind stands for one diagnostic.
#[derive(Clone, Copy, Debug, PartialEq, Eq, Structural)]
pub enum ParseErrorKind {
    /// The tokens ran out before the construct was complete.
    UnexpectedEnd,
    ExpectIdentifier,
    ExpectDeclareOrEquals,
    ExpectDeclare,
    ExpectEndType,
    ExpectParenOrCaret,
    ExpectDataType,
    ExpectEqualsQuoted,
    ExpectLeftBracket,
    ExpectInteger,
    ExpectColon,
    ExpectOf,
    ExpectRightParen,
    ExpectFunctionName,
    ExpectReturns,
    ExpectType,
    ExpectProcedureName,
    ExpectLeftParen,
    ExpectFor,
    ExpectFileMode,
    ExpectComma,
    ExpectArrow,
    ExpectTo,
    ExpectThen,
    ExpectColonQuoted,
    ExpectedEqualsSign,
    EnumValueExpected,
    RightParenExpected,
    LiteralValueExpected,
    EqualsExpected,
    IdentifierExpected,
    ColonExpected,
    TypeExpected,
    BracketOrCommaExpected,
    EndClassExpected,
    EndFunctionExpected,
    EndProcedureExpected,
    ExpectedStatement,
    RoutineNotGlobal,
    ClassNotGlobal,
    ProcedureExpected,
    ExpectedExpression,
    ConstructorCallExpected,
    ExpectedIdentifier,
    ExpectedComma,
    EndWhileExpected,
    UntilExpected,
    NextExpected,
    /// The identifier after `NEXT` differs from the loop variable (`found` is the loop
    /// variable's token).
    IdentifierMustMatch,
    EndIfExpected,
    EndCaseExpected,
    ExpectedLiteral,
    /// A `CASE` branch holds no statement.
    EmptyCaseBranch,
    /// A `CASE` branch ends with a statement that has no source span.
    CaseBranchWithoutSpan,
}

/// A syntax error: its kind, the span it concerns and, where the diagnostic shows the
/// offending token, that token's index.
#[derive(Clone, Copy, Debug, PartialEq, Eq, Structural)]
pub struct ParseError {
    pub kind: ParseErrorKind,
    pub pos: Position,
    pub found: Option<usize>,
}

/// The token stream being parsed and the index of the next token.
pub struct Lexer {
    pub tokens: Vec<Token>,
    pub pos: usize,
}

impl Lexer {
    pub open spec fn ts(&self) -> Seq<TokenV> {
        views(self.tokens@)
    }

    pub fn new(tokens: Vec<Token>) -> (l: Lexer)
        ensures
            l.tokens == tokens,
            l.pos == 0,
    {
        Lexer { tokens, pos: 0 }
    }
}

impl Lexer {
    /// The next token, not consumed.
    pub fn peek(&self) -> (r: Result<&Token, ParseError>)
        ensures
            match tok_at(self.ts(), self.pos as int) {
                Ok(t) => r matches Ok(x) && x@ == t,
                Err(e) => r == Err::<&Token, ParseError>(e),
            },
    {
        if self.pos < self.tokens.len() {
            Ok(&self.tokens[self.pos])
        } else {
            Err(self.end_error())
        }
    }

    /// The next token, consumed.
    pub fn next_token(&mut self) -> (r: Result<Token, ParseError>)
        ensures
            final(self).tokens == old(self).tokens,
            match tok_at(old(self).ts(), old(self).pos as int) {
                Ok(t) => r matches Ok(x) && x@ == t && final(self).pos == old(self).pos + 1,
                Err(e) => r == Err::<Token, ParseError>(e) && final(self).pos == old(self).pos,
            },
    {
        if self.pos < self.tokens.len() {
            let t = self.tokens[self.pos].clone();
            self.pos = self.pos + 1;
            Ok(t)
        } else {
            Err(self.end_error())
        }
    }

    /// The error for running out of tokens.
    pub fn end_error(&self) -> (e: ParseError)
        ensures
            e == end_error(self.ts()),
    {
        let pos = if self.tokens.len() > 0 {
            self.tokens[self.tokens.len() - 1].pos
        } else {
            Position::invalid()
        };
        ParseError { kind: ParseErrorKind::UnexpectedEnd, pos, found: None }
    }
}

/// The parse `r` of a node, which moved the stream from `old` to `new`, is the one `s`
/// that the grammar gives.
pub open spec fn parsed_as(old: Lexer, new: Lexer, r: Result<Box<Node>, ParseError>, s: Parsed) -> bool {
    &&& new.tokens == old.tokens
    &&& match s {
        Ok((n, j)) => {
            &&& r matches Ok(x) && x@ == n
            &&& new.pos == j
            &&& old.pos <= j <= old.tokens.len()
        },
        Err(e) => r == Err::<Box<Node>, ParseError>(e),
    }
}

/// The same for a parse of a list of nodes.
pub open spec fn parsed_list_as(
    old: Lexer,
    new: Lexer,
    r: Result<Vec<Box<Node>>, ParseError>,
    s: ParsedList,
) -> bool {
    &&& new.tokens == old.tokens
    &&& match s {
        Ok((n, j)) => {
            &&& r matches Ok(x) && crate::ast::node_views(x@) == n
            &&& new.pos == j
            &&& old.pos <= j <= old.tokens.len()
        },
        Err(e) => r == Err::<Vec<Box<Node>>, ParseError>(e),
    }
}

/// Consumes the next token if it is of one of the `kinds`; otherwise reports `what`
/// (showing the token found unless it is `EOF`).
pub fn expect_token(lexer: &mut Lexer, kinds: &Vec<u8>, what: ParseErrorKind) -> (r: Result<
    Token,
    ParseError,
>)
    ensures
        final(lexer).tokens == old(lexer).tokens,
        match syn_expect(old(lexer).ts(), old(lexer).pos as int, kinds@, what) {
            Ok((t, j)) => r matches Ok(x) && x@ == t && final(lexer).pos == j,
            Err(e) => r == Err::<Token, ParseError>(e),
        },
{
    let pos = lexer.pos;
    if pos >= lexer.tokens.len() {
        return Err(lexer.end_error());
    }
    let k = token_kind(&lexer.tokens[pos].t);
    if k == crate::tokens::K_EOF {
        return Err(ParseError { kind: what, pos: lexer.tokens[pos].pos, found: None });
    }
    let mut j: usize = 0;
    while j < kinds.len()
        invariant
            j <= kinds.len(),
            pos < lexer.tokens.len(),
            lexer.pos == pos,
            lexer.tokens == old(lexer).tokens,
            pos == old(lexer).pos,
            k == crate::tokens::kind_of(old(lexer).ts()[pos as int].t),
            k != crate::tokens::K_EOF,
            forall|q: int| 0 <= q < j ==> kinds@[q] as int != k as int,
        decreases kinds.len() - j,
    {
        if kinds[j] == k {
            proof {
                assert(kinds@[j as int] as int == k as int);
                assert(old(lexer).ts()[pos as int] == lexer.tokens@[pos as int]@);
                assert(!(old(lexer).ts()[pos as int].t is EOF));
                assert(crate::parser::grammar::kind_in(
                    kinds@,
                    crate::tokens::kind_of(old(lexer).ts()[pos as int].t),
                ));
            }
            let t = lexer.tokens[pos].clone();
            lexer.pos = pos + 1;
            return Ok(t);
        }
        j = j + 1;
    }
    Err(ParseError { kind: what, pos: lexer.tokens[pos].pos, found: Some(pos) })
}

/// One top-level item: a procedure, function, class or statement.
fn parse_item(lexer: &mut Lexer) -> (r: Result<Box<Node>, ParseError>)
    requires
        old(lexer).pos <= old(lexer).tokens.len(),
    ensures
        parsed_as(*old(lexer), *final(lexer), r, syn_item(old(lexer).ts(), old(lexer).pos as int)),
{
    let kind = match lexer.peek() {
        Ok(t) => token_kind(&t.t),
        Err(e) => return Err(e),
    };
    if kind == K_PROCEDURE {
        parse_procedure(lexer, false)
    } else if kind == K_FUNCTION {
        parse_function(lexer, false)
    } else if kind == K_CLASS {
        parse_class(lexer)
    } else {
        parse_line(lexer)
    }
}

/// Top-level items appended to `acc`, up to the end of the tokens.
fn parse_items(lexer: &mut Lexer, acc: Vec<Box<Node>>) -> (r: Result<Vec<Box<Node>>, ParseError>)
    requires
        old(lexer).pos <= old(lexer).tokens.len(),
    ensures
        match syn_items(old(lexer).ts(), old(lexer).pos as int, node_views(acc@)) {
            Ok(items) => r matches Ok(x) && node_views(x@) == items,
            Err(e) => r == Err::<Vec<Box<Node>>, ParseError>(e),
        },
    decreases old(lexer).tokens.len() - old(lexer).pos,
{
    if lexer.pos >= lexer.tokens.len() {
        return Ok(acc);
    }
    let start = lexer.pos;
    let n = match parse_item(lexer) {
        Ok(x) => x,
        Err(e) => return Err(e),
    };
    if lexer.pos <= start || lexer.pos > lexer.tokens.len() {
        return Err(lexer.end_error());
    }
    let mut acc = acc;
    proof {
        crate::ast::lemma_node_views_push(acc@, n);
    }
    acc.push(n);
    parse_items(lexer, acc)
}

/// The program from the current token to the end: a list holding one `Main` node with
/// the top-level items, or the first syntax error.
pub fn parse_file(lexer: &mut Lexer) -> (r: Result<Vec<Box<Node>>, ParseError>)
    requires
        old(lexer).pos <= old(lexer).tokens.len(),
    ensures
        match syn_items(old(lexer).ts(), old(lexer).pos as int, Seq::empty()) {
            Ok(items) => r matches Ok(v) && v.len() == 1 && v[0]@ == NodeV::Main { children: items },
            Err(e) => r == Err::<Vec<Box<Node>>, ParseError>(e),
        },
        old(lexer).pos == 0 ==> match syn_program(old(lexer).ts()) {
            Ok(m) => r matches Ok(v) && v.len() == 1 && v[0]@ == m,
            Err(e) => r == Err::<Vec<Box<Node>>, ParseError>(e),
        },
{
    let none: Vec<Box<Node>> = Vec::new();
    proof {
        assert(node_views(none@) =~= Seq::<NodeV>::empty());
    }
    let children = match parse_items(lexer, none) {
        Ok(x) => x,
        Err(e) => return Err(e),
    };
    let main = Node::Main { children };
    proof {
        assert(main@ == NodeV::Main { children: node_views(children@) });
    }
    Ok(vec![Box::new(main)])
}

} // verus!
