use crate::ast::{has_pos, node_pos, node_views, Node, NodeV};
use crate::parser::grammar::{ident_of, span, syn_for, syn_repeat, syn_step, syn_while};
use crate::parser::parse_expr::parse_expression;
use crate::parser::parse_stmt::parse_block;
use crate::parser::{expect_token, parsed_as, Lexer, ParseError, ParseErrorKind};
use crate::position::Position;
use crate::text::str_eq;
use crate::tokens::{token_kind, TToken, K_ASSIGNMENT, K_END_WHILE, K_IDENTIFIER, K_NEXT, K_STEP, K_TO, K_UNTIL};
use vstd::prelude::*;

verus! {

/// `WHILE condition` statements `ENDWHILE`.
pub fn parse_while(lexer: &mut Lexer) -> (r: Result<Box<Node>, ParseError>)
    requires
        old(lexer).pos <= old(lexer).tokens.len(),
    ensures
        r is Ok ==> final(lexer).pos > old(lexer).pos,
        parsed_as(*old(lexer), *final(lexer), r, syn_while(old(lexer).ts(), old(lexer).pos as int)),
    decreases old(lexer).tokens.len() - old(lexer).pos, 0int,
{
    proof {
        reveal(syn_while);
    }
    let start = lexer.pos;
    let token = match lexer.next_token() {
        Ok(t) => t,
        Err(e) => return Err(e),
    };
    let cond = match parse_expression(lexer) {
        Ok(x) => x,
        Err(e) => return Err(e),
    };
    if lexer.pos <= start || lexer.pos > lexer.tokens.len() {
        return Err(lexer.end_error());
    }
    let none: Vec<Box<Node>> = Vec::new();
    proof {
        assert(node_views(none@) =~= Seq::<NodeV>::empty());
    }
    let (body, end) = match parse_block(lexer, none, K_END_WHILE, ParseErrorKind::EndWhileExpected) {
        Ok(x) => x,
        Err(e) => return Err(e),
    };
    let pos = Position::range(token.pos, end);
    Ok(Box::new(Node::While { cond, body, pos }))
}

/// `REPEAT` statements `UNTIL condition`.
pub fn parse_repeat(lexer: &mut Lexer) -> (r: Result<Box<Node>, ParseError>)
    requires
        old(lexer).pos <= old(lexer).tokens.len(),
    ensures
        r is Ok ==> final(lexer).pos > old(lexer).pos,
        parsed_as(*old(lexer), *final(lexer), r, syn_repeat(old(lexer).ts(), old(lexer).pos as int)),
    decreases old(lexer).tokens.len() - old(lexer).pos, 0int,
{
    proof {
        reveal(syn_repeat);
    }
    let token = match lexer.next_token() {
        Ok(t) => t,
        Err(e) => return Err(e),
    };
    let none: Vec<Box<Node>> = Vec::new();
    proof {
        assert(node_views(none@) =~= Seq::<NodeV>::empty());
    }
    let (body, _) = match parse_block(lexer, none, K_UNTIL, ParseErrorKind::UntilExpected) {
        Ok(x) => x,
        Err(e) => return Err(e),
    };
    let cond = match parse_expression(lexer) {
        Ok(x) => x,
        Err(e) => return Err(e),
    };
    let pos = Position::range(token.pos, cond.pos());
    Ok(Box::new(Node::Repeat { cond, body, pos }))
}

/// The optional `STEP expression` of a `FOR` loop (`Null` when absent).
fn parse_step(lexer: &mut Lexer) -> (r: Result<Box<Node>, ParseError>)
    requires
        old(lexer).pos <= old(lexer).tokens.len(),
    ensures
        parsed_as(*old(lexer), *final(lexer), r, syn_step(old(lexer).ts(), old(lexer).pos as int)),
{
    let is_step = match lexer.peek() {
        Ok(t) => token_kind(&t.t) == K_STEP,
        Err(e) => return Err(e),
    };
    if is_step {
        lexer.pos = lexer.pos + 1;
        parse_expression(lexer)
    } else {
        Ok(Box::new(Node::Null))
    }
}

/// `FOR name <- start TO end [STEP step]` statements `NEXT [name]`.
#[verifier::rlimit(40)]
pub fn parse_for(lexer: &mut Lexer) -> (r: Result<Box<Node>, ParseError>)
    requires
        old(lexer).pos <= old(lexer).tokens.len(),
    ensures
        r is Ok ==> final(lexer).pos > old(lexer).pos,
        parsed_as(*old(lexer), *final(lexer), r, syn_for(old(lexer).ts(), old(lexer).pos as int)),
    decreases old(lexer).tokens.len() - old(lexer).pos, 0int,
{
    proof {
        reveal(syn_for);
    }
    let i = lexer.pos;
    let token = match lexer.next_token() {
        Ok(t) => t,
        Err(e) => return Err(e),
    };
    let kid = vec![K_IDENTIFIER];
    let kas = vec![K_ASSIGNMENT];
    let kto = vec![K_TO];
    proof {
        assert(kid@ =~= seq![K_IDENTIFIER]);
        assert(kas@ =~= seq![K_ASSIGNMENT]);
        assert(kto@ =~= seq![K_TO]);
    }
    let it = match expect_token(lexer, &kid, ParseErrorKind::ExpectIdentifier) {
        Ok(t) => t,
        Err(e) => return Err(e),
    };
    match expect_token(lexer, &kas, ParseErrorKind::ExpectArrow) {
        Ok(_) => {},
        Err(e) => return Err(e),
    }
    let start = match parse_expression(lexer) {
        Ok(x) => x,
        Err(e) => return Err(e),
    };
    match expect_token(lexer, &kto, ParseErrorKind::ExpectTo) {
        Ok(_) => {},
        Err(e) => return Err(e),
    }
    let end = match parse_expression(lexer) {
        Ok(x) => x,
        Err(e) => return Err(e),
    };
    let step = match parse_step(lexer) {
        Ok(x) => x,
        Err(e) => return Err(e),
    };
    if lexer.pos <= i || lexer.pos > lexer.tokens.len() {
        return Err(lexer.end_error());
    }
    let none: Vec<Box<Node>> = Vec::new();
    proof {
        assert(node_views(none@) =~= Seq::<NodeV>::empty());
    }
    let (body, _) = match parse_block(lexer, none, K_NEXT, ParseErrorKind::NextExpected) {
        Ok(x) => x,
        Err(e) => return Err(e),
    };
    let ident = match lexer.peek() {
        Ok(t) => t.clone(),
        Err(e) => return Err(e),
    };
    let name = match &it.t {
        TToken::Identifier(n) => n.clone(),
        _ => String::new(),
    };
    let consume = match &ident.t {
        TToken::Identifier(n) => {
            if !str_eq(n.as_str(), name.as_str()) {
                return Err(
                    ParseError { kind: ParseErrorKind::IdentifierMustMatch, pos: ident.pos, found: Some(i + 1) },
                );
            }
            true
        },
        _ => false,
    };
    if consume {
        lexer.pos = lexer.pos + 1;
    }
    let iter = Node::Var { name, pos: it.pos };
    proof {
        assert(iter@ == NodeV::Var { name: ident_of(it@), pos: it@.pos });
    }
    let range_pos = Position::range(start.pos(), end.pos());
    let ghost sv = (*start)@;
    let ghost ev = (*end)@;
    let range = Node::Range { start, end, pos: range_pos };
    proof {
        assert(range@ == NodeV::Range { start: Box::new(sv), end: Box::new(ev), pos: range_pos });
    }
    let pos = Position::range(token.pos, ident.pos);
    Ok(Box::new(Node::For { iter: Box::new(iter), range: Box::new(range), step, body, pos }))
}

} // verus!
