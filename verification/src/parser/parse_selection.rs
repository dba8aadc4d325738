use crate::ast::{has_pos, node_pos, node_views, Node, NodeV};
use crate::parser::grammar::{
    error_at, span, stalled, syn_branch_body, syn_case, syn_case_branch, syn_case_label, syn_case_loop,
    syn_if, syn_if_body, syn_literal, syn_otherwise_body, syn_parse_literal, tok_at, trim_nulls,
};
use crate::parser::parse_expr::parse_expression;
use crate::parser::parse_identifier::parse_identifier;
use crate::parser::parse_stmt::parse_line;
use crate::parser::{expect_token, parsed_as, parsed_list_as, Lexer, ParseError, ParseErrorKind};
use crate::position::Position;
use crate::tokens::{token_kind, TToken, Token, K_COLON, K_END_CASE, K_END_IF, K_ELSE, K_EOF, K_OF, K_OTHERWISE, K_THEN, K_TO};
use vstd::prelude::*;

verus! {

/// The literal node of a literal token, if it is one.
pub fn literal_of(token: &Token) -> (r: Option<Box<Node>>)
    ensures
        match syn_literal(token@) {
            Some(n) => r matches Some(x) && x@ == n,
            None => r is None,
        },
{
    let pos = token.pos;
    match &token.t {
        TToken::StringLit(val) => Some(Box::new(Node::String { val: val.clone(), pos })),
        TToken::IntegerLit(val) => Some(Box::new(Node::Int { val: *val, pos })),
        TToken::RealLit(val) => Some(Box::new(Node::Real { val: val.clone(), pos })),
        TToken::BoolLit(val) => Some(Box::new(Node::Boolean { val: *val, pos })),
        TToken::DateLit(val) => Some(Box::new(Node::Date { val: *val, pos })),
        _ => None,
    }
}

/// The next token as a literal, not consumed.
pub fn try_parse_literal(lexer: &Lexer) -> (r: Result<Option<Box<Node>>, ParseError>)
    ensures
        match crate::parser::grammar::tok_at(lexer.ts(), lexer.pos as int) {
            Ok(t) => r matches Ok(o) && match syn_literal(t) {
                Some(n) => o matches Some(x) && x@ == n,
                None => o is None,
            },
            Err(e) => r == Err::<Option<Box<Node>>, ParseError>(e),
        },
{
    match lexer.peek() {
        Ok(t) => Ok(literal_of(t)),
        Err(e) => Err(e),
    }
}

/// A literal, consumed.
pub fn parse_literal(lexer: &mut Lexer) -> (r: Result<Box<Node>, ParseError>)
    requires
        old(lexer).pos <= old(lexer).tokens.len(),
    ensures
        parsed_as(*old(lexer), *final(lexer), r, syn_parse_literal(old(lexer).ts(), old(lexer).pos as int)),
        r matches Ok(x) ==> has_pos(x@) && final(lexer).pos > old(lexer).pos,
{
    let token_pos = match lexer.peek() {
        Ok(t) => t.pos,
        Err(e) => return Err(e),
    };
    match try_parse_literal(lexer) {
        Ok(Some(n)) => {
            lexer.pos = lexer.pos + 1;
            Ok(n)
        },
        Ok(None) => Err(ParseError { kind: ParseErrorKind::ExpectedLiteral, pos: token_pos, found: None }),
        Err(e) => Err(e),
    }
}

/// The statements of an `IF` up to `ENDIF`, split at `ELSE`: the two bodies and the span of
/// `ENDIF`.
fn parse_if_body(lexer: &mut Lexer, tb: Vec<Box<Node>>, fb: Vec<Box<Node>>, els: bool) -> (r: Result<
    (Vec<Box<Node>>, Vec<Box<Node>>, Position),
    ParseError,
>)
    requires
        old(lexer).pos <= old(lexer).tokens.len(),
    ensures
        final(lexer).tokens == old(lexer).tokens,
        match syn_if_body(old(lexer).ts(), old(lexer).pos as int, node_views(tb@), node_views(fb@), els) {
            Ok((t, f, p, j)) => r matches Ok((a, b, c)) && node_views(a@) == t && node_views(b@) == f
                && c == p && final(lexer).pos == j && old(lexer).pos <= j <= old(lexer).tokens.len(),
            Err(e) => r matches Err(x) && x == e,
        },
    decreases old(lexer).tokens.len() - old(lexer).pos, 2int,
{
    let (kind, tpos) = match lexer.peek() {
        Ok(t) => (token_kind(&t.t), t.pos),
        Err(e) => return Err(e),
    };
    if kind == K_EOF {
        return Err(ParseError { kind: ParseErrorKind::EndIfExpected, pos: tpos, found: None });
    }
    if kind == K_END_IF {
        lexer.pos = lexer.pos + 1;
        return Ok((tb, fb, tpos));
    }
    if kind == K_ELSE {
        lexer.pos = lexer.pos + 1;
        return parse_if_body(lexer, tb, fb, true);
    }
    let start = lexer.pos;
    let n = match parse_line(lexer) {
        Ok(x) => x,
        Err(e) => return Err(e),
    };
    if lexer.pos <= start || lexer.pos > lexer.tokens.len() {
        return Err(lexer.end_error());
    }
    if els {
        let mut fb = fb;
        proof {
            crate::ast::lemma_node_views_push(fb@, n);
        }
        fb.push(n);
        parse_if_body(lexer, tb, fb, els)
    } else {
        let mut tb = tb;
        proof {
            crate::ast::lemma_node_views_push(tb@, n);
        }
        tb.push(n);
        parse_if_body(lexer, tb, fb, els)
    }
}

/// `IF condition THEN` statements [`ELSE` statements] `ENDIF`.
pub fn parse_if(lexer: &mut Lexer) -> (r: Result<Box<Node>, ParseError>)
    requires
        old(lexer).pos <= old(lexer).tokens.len(),
    ensures
        r is Ok ==> final(lexer).pos > old(lexer).pos,
        parsed_as(*old(lexer), *final(lexer), r, syn_if(old(lexer).ts(), old(lexer).pos as int)),
    decreases old(lexer).tokens.len() - old(lexer).pos, 0int,
{
    proof {
        reveal(syn_if);
    }
    let i = lexer.pos;
    let token = match lexer.next_token() {
        Ok(t) => t,
        Err(e) => return Err(e),
    };
    let cond = match parse_expression(lexer) {
        Ok(x) => x,
        Err(e) => return Err(e),
    };
    let kt = vec![K_THEN];
    proof {
        assert(kt@ =~= seq![K_THEN]);
    }
    match expect_token(lexer, &kt, ParseErrorKind::ExpectThen) {
        Ok(_) => {},
        Err(e) => return Err(e),
    }
    if lexer.pos <= i || lexer.pos > lexer.tokens.len() {
        return Err(lexer.end_error());
    }
    let tb: Vec<Box<Node>> = Vec::new();
    let fb: Vec<Box<Node>> = Vec::new();
    proof {
        assert(node_views(tb@) =~= Seq::<NodeV>::empty());
        assert(node_views(fb@) =~= Seq::<NodeV>::empty());
    }
    let (true_body, false_body, end) = match parse_if_body(lexer, tb, fb, false) {
        Ok(x) => x,
        Err(e) => return Err(e),
    };
    let pos = Position::range(token.pos, end);
    Ok(Box::new(Node::If { cond, true_body, false_body, pos }))
}

/// The label of a `CASE` branch: a literal, or a range `literal TO literal`.
fn parse_case_label(lexer: &mut Lexer) -> (r: Result<Box<Node>, ParseError>)
    requires
        old(lexer).pos <= old(lexer).tokens.len(),
    ensures
        parsed_as(*old(lexer), *final(lexer), r, syn_case_label(old(lexer).ts(), old(lexer).pos as int)),
{
    let first = match parse_literal(lexer) {
        Ok(x) => x,
        Err(e) => return Err(e),
    };
    let label_pos = lexer.tokens[lexer.pos - 1].pos;
    let is_to = match lexer.peek() {
        Ok(t) => token_kind(&t.t) == K_TO,
        Err(e) => return Err(e),
    };
    if !is_to {
        return Ok(first);
    }
    lexer.pos = lexer.pos + 1;
    let last = match parse_literal(lexer) {
        Ok(x) => x,
        Err(e) => return Err(e),
    };
    let pos = Position::range(label_pos, last.pos());
    Ok(Box::new(Node::Range { start: first, end: last, pos }))
}

/// The statements of a `CASE` branch appended to `acc`: up to the next literal,
/// `OTHERWISE` or `ENDCASE`.
fn parse_branch_body(lexer: &mut Lexer, acc: Vec<Box<Node>>) -> (r: Result<Vec<Box<Node>>, ParseError>)
    requires
        old(lexer).pos <= old(lexer).tokens.len(),
    ensures
        parsed_list_as(
            *old(lexer),
            *final(lexer),
            r,
            syn_branch_body(old(lexer).ts(), old(lexer).pos as int, node_views(acc@)),
        ),
    decreases old(lexer).tokens.len() - old(lexer).pos, 2int,
{
    let is_literal = match try_parse_literal(lexer) {
        Ok(o) => o.is_some(),
        Err(e) => return Err(e),
    };
    let stop = match lexer.peek() {
        Ok(t) => {
            let k = token_kind(&t.t);
            is_literal || k == K_END_CASE || k == K_OTHERWISE
        },
        Err(e) => return Err(e),
    };
    if stop {
        return Ok(acc);
    }
    let start = lexer.pos;
    let n = match parse_line(lexer) {
        Ok(x) => x,
        Err(e) => return Err(e),
    };
    if lexer.pos <= start || lexer.pos > lexer.tokens.len() {
        return Err(lexer.end_error());
    }
    let mut acc = acc;
    proof {
        crate::ast::lemma_node_views_push(acc@, n);
    }
    acc.push(n);
    parse_branch_body(lexer, acc)
}

/// The statements of an `OTHERWISE` branch appended to `acc`, up to `ENDCASE` or `EOF`.
fn parse_otherwise_body(lexer: &mut Lexer, acc: Vec<Box<Node>>) -> (r: Result<Vec<Box<Node>>, ParseError>)
    requires
        old(lexer).pos <= old(lexer).tokens.len(),
    ensures
        parsed_list_as(
            *old(lexer),
            *final(lexer),
            r,
            syn_otherwise_body(old(lexer).ts(), old(lexer).pos as int, node_views(acc@)),
        ),
    decreases old(lexer).tokens.len() - old(lexer).pos, 2int,
{
    let stop = match lexer.peek() {
        Ok(t) => {
            let k = token_kind(&t.t);
            k == K_END_CASE || k == K_EOF
        },
        Err(e) => return Err(e),
    };
    if stop {
        return Ok(acc);
    }
    let start = lexer.pos;
    let n = match parse_line(lexer) {
        Ok(x) => x,
        Err(e) => return Err(e),
    };
    if lexer.pos <= start || lexer.pos > lexer.tokens.len() {
        return Err(lexer.end_error());
    }
    let mut acc = acc;
    proof {
        crate::ast::lemma_node_views_push(acc@, n);
    }
    acc.push(n);
    parse_otherwise_body(lexer, acc)
}

/// Removes the trailing empty statements.
fn trim_trailing_nulls(children: &mut Vec<Box<Node>>)
    ensures
        node_views(final(children)@) == trim_nulls(node_views(old(children)@)),
{
    proof {
        crate::ast::lemma_node_views(children@);
    }
    while children.len() > 0 && matches!(*children[children.len() - 1], Node::Null)
        invariant
            trim_nulls(node_views(children@)) == trim_nulls(node_views(old(children)@)),
        decreases children.len(),
    {
        let ghost before = children@;
        proof {
            crate::ast::lemma_node_views(before);
            crate::ast::lemma_node_views(before.drop_last());
            assert(node_views(before.drop_last()) =~= node_views(before).drop_last());
        }
        children.pop();
        proof {
            assert(children@ =~= before.drop_last());
        }
    }
    proof {
        crate::ast::lemma_node_views(children@);
    }
}

/// One `CASE` branch: `label :` statements.
#[verifier::rlimit(40)]
fn parse_case_branch(lexer: &mut Lexer) -> (r: Result<Box<Node>, ParseError>)
    requires
        old(lexer).pos <= old(lexer).tokens.len(),
    ensures
        parsed_as(*old(lexer), *final(lexer), r, syn_case_branch(old(lexer).ts(), old(lexer).pos as int)),
    decreases old(lexer).tokens.len() - old(lexer).pos, 3int,
{
    let j = lexer.pos;
    let expr = match parse_case_label(lexer) {
        Ok(x) => x,
        Err(e) => return Err(e),
    };
    let branch_pos = lexer.tokens[j].pos;
    let kc = vec![K_COLON];
    proof {
        assert(kc@ =~= seq![K_COLON]);
    }
    match expect_token(lexer, &kc, ParseErrorKind::ExpectColonQuoted) {
        Ok(_) => {},
        Err(e) => return Err(e),
    }
    if lexer.pos <= j || lexer.pos > lexer.tokens.len() {
        return Err(lexer.end_error());
    }
    let none: Vec<Box<Node>> = Vec::new();
    proof {
        assert(node_views(none@) =~= Seq::<NodeV>::empty());
    }
    let mut children = match parse_branch_body(lexer, none) {
        Ok(x) => x,
        Err(e) => return Err(e),
    };
    trim_trailing_nulls(&mut children);
    proof {
        crate::ast::lemma_node_views(children@);
    }
    if children.len() == 0 {
        return Err(ParseError { kind: ParseErrorKind::EmptyCaseBranch, pos: branch_pos, found: None });
    }
    if !children[children.len() - 1].has_span() {
        return Err(ParseError { kind: ParseErrorKind::CaseBranchWithoutSpan, pos: branch_pos, found: None });
    }
    let last = children[children.len() - 1].pos();
    let pos = Position::range(branch_pos, last);
    Ok(Box::new(Node::Case { expr, children, pos }))
}

/// The branches of a `CASE` up to `ENDCASE` (consumed), appended to `cases` and
/// `otherwise`; also the span of `ENDCASE`.
fn parse_case_loop(lexer: &mut Lexer, cases: Vec<Box<Node>>, otherwise: Vec<Box<Node>>) -> (r: Result<
    (Vec<Box<Node>>, Vec<Box<Node>>, Position),
    ParseError,
>)
    requires
        old(lexer).pos <= old(lexer).tokens.len(),
    ensures
        final(lexer).tokens == old(lexer).tokens,
        match syn_case_loop(old(lexer).ts(), old(lexer).pos as int, node_views(cases@), node_views(otherwise@)) {
            Ok((c, o, p, j)) => r matches Ok((a, b, d)) && node_views(a@) == c && node_views(b@) == o
                && d == p && final(lexer).pos == j && old(lexer).pos <= j <= old(lexer).tokens.len(),
            Err(e) => r matches Err(x) && x == e,
        },
    decreases old(lexer).tokens.len() - old(lexer).pos, 4int,
{
    let j = lexer.pos;
    let (kind, tpos) = match lexer.peek() {
        Ok(t) => (token_kind(&t.t), t.pos),
        Err(e) => return Err(e),
    };
    if kind == K_END_CASE {
        lexer.pos = lexer.pos + 1;
        return Ok((cases, otherwise, tpos));
    }
    if kind == K_EOF {
        return Err(ParseError { kind: ParseErrorKind::EndCaseExpected, pos: tpos, found: None });
    }
    if kind == K_OTHERWISE {
        lexer.pos = lexer.pos + 1;
        let kc = vec![K_COLON];
        proof {
            assert(kc@ =~= seq![K_COLON]);
        }
        match expect_token(lexer, &kc, ParseErrorKind::ExpectColonQuoted) {
            Ok(_) => {},
            Err(e) => return Err(e),
        }
        if lexer.pos <= j || lexer.pos > lexer.tokens.len() {
            return Err(lexer.end_error());
        }
        let ow = match parse_otherwise_body(lexer, otherwise) {
            Ok(x) => x,
            Err(e) => return Err(e),
        };
        if lexer.pos <= j || lexer.pos > lexer.tokens.len() {
            return Err(lexer.end_error());
        }
        return parse_case_loop(lexer, cases, ow);
    }
    let c = match parse_case_branch(lexer) {
        Ok(x) => x,
        Err(e) => return Err(e),
    };
    if lexer.pos <= j || lexer.pos > lexer.tokens.len() {
        return Err(lexer.end_error());
    }
    let mut cases = cases;
    proof {
        crate::ast::lemma_node_views_push(cases@, c);
    }
    cases.push(c);
    parse_case_loop(lexer, cases, otherwise)
}

/// `CASE OF variable` branches [`OTHERWISE :` statements] `ENDCASE`.
pub fn parse_case(lexer: &mut Lexer) -> (r: Result<Box<Node>, ParseError>)
    requires
        old(lexer).pos <= old(lexer).tokens.len(),
    ensures
        r is Ok ==> final(lexer).pos > old(lexer).pos,
        parsed_as(*old(lexer), *final(lexer), r, syn_case(old(lexer).ts(), old(lexer).pos as int)),
    decreases old(lexer).tokens.len() - old(lexer).pos, 0int,
{
    proof {
        reveal(syn_case);
    }
    let i = lexer.pos;
    let token = match lexer.next_token() {
        Ok(t) => t,
        Err(e) => return Err(e),
    };
    let ko = vec![K_OF];
    proof {
        assert(ko@ =~= seq![K_OF]);
    }
    match expect_token(lexer, &ko, ParseErrorKind::ExpectOf) {
        Ok(_) => {},
        Err(e) => return Err(e),
    }
    let subject = match parse_identifier(lexer) {
        Ok(x) => x,
        Err(e) => return Err(e),
    };
    match lexer.peek() {
        Ok(_) => {},
        Err(e) => return Err(e),
    }
    lexer.pos = lexer.pos + 1;
    let cases: Vec<Box<Node>> = Vec::new();
    let otherwise: Vec<Box<Node>> = Vec::new();
    proof {
        assert(node_views(cases@) =~= Seq::<NodeV>::empty());
        assert(node_views(otherwise@) =~= Seq::<NodeV>::empty());
    }
    let (cases, otherwise, end) = match parse_case_loop(lexer, cases, otherwise) {
        Ok(x) => x,
        Err(e) => return Err(e),
    };
    let pos = Position::range(token.pos, end);
    Ok(Box::new(Node::Switch { subject, cases, otherwise, pos }))
}

} // verus!
