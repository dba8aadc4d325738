use crate::ast::{has_pos, node_pos, Node, NodeV};
use crate::parser::grammar::{
    is_unary_op, op_prec, op_text, syn_derefs, syn_expression, syn_group, syn_inner, syn_new,
    span, syn_prec, syn_primary, syn_unary,
};
use crate::parser::parse_identifier::parse_identifier;
use crate::parser::{expect_token, parsed_as, Lexer, ParseError, ParseErrorKind};
use crate::position::Position;
use crate::text::str_eq;
use crate::tokens::{TToken, Token, TokenV, K_R_PAREN};
use vstd::prelude::*;

verus! {

/// An expression: a unary operand followed by binary operators and their operands.
pub fn parse_expression(lexer: &mut Lexer) -> (r: Result<Box<Node>, ParseError>)
    requires
        old(lexer).pos <= old(lexer).tokens.len(),
    ensures
        parsed_as(*old(lexer), *final(lexer), r, syn_expression(old(lexer).ts(), old(lexer).pos as int)),
        r matches Ok(x) ==> has_pos(x@) && final(lexer).pos > old(lexer).pos,
    decreases old(lexer).tokens.len() - old(lexer).pos, 17int,
{
    let lhs = match parse_unary(lexer) {
        Ok(x) => x,
        Err(e) => return Err(e),
    };
    parse_expr_precedence(lexer, lhs, 0)
}

/// A prefix operator (`NOT`, and the signs `_+`, `_-`) or reference `^` applied to an
/// operand, or an operand followed by dereferences `^`.
fn parse_unary(lexer: &mut Lexer) -> (r: Result<Box<Node>, ParseError>)
    requires
        old(lexer).pos <= old(lexer).tokens.len(),
    ensures
        parsed_as(*old(lexer), *final(lexer), r, syn_unary(old(lexer).ts(), old(lexer).pos as int)),
        r matches Ok(x) ==> has_pos(x@) && final(lexer).pos > old(lexer).pos,
    decreases old(lexer).tokens.len() - old(lexer).pos, 16int,
{
    let token = match lexer.peek() {
        Ok(t) => t.clone(),
        Err(e) => return Err(e),
    };
    if is_unary(&token) {
        let op = get_op(&token);
        lexer.pos = lexer.pos + 1;
        let expr = match parse_unary(lexer) {
            Ok(x) => x,
            Err(e) => return Err(e),
        };
        let pos = Position::range(token.pos, expr.pos());
        return Ok(Box::new(Node::Unary { op, expr, pos }));
    }
    if let TToken::Caret = token.t {
        lexer.pos = lexer.pos + 1;
        let expr = match parse_unary(lexer) {
            Ok(x) => x,
            Err(e) => return Err(e),
        };
        let pos = Position::range(token.pos, expr.pos());
        return Ok(Box::new(Node::Reference { expr, pos }));
    }
    let expr = match parse_primary(lexer) {
        Ok(x) => x,
        Err(e) => return Err(e),
    };
    parse_derefs(lexer, expr)
}

/// Postfix dereferences `^` after an operand.
fn parse_derefs(lexer: &mut Lexer, expr: Box<Node>) -> (r: Result<Box<Node>, ParseError>)
    requires
        old(lexer).pos <= old(lexer).tokens.len(),
        has_pos(expr@),
    ensures
        parsed_as(*old(lexer), *final(lexer), r, syn_derefs(old(lexer).ts(), expr@, old(lexer).pos as int)),
        r matches Ok(x) ==> has_pos(x@),
    decreases old(lexer).tokens.len() - old(lexer).pos, 0int,
{
    let is_caret = match lexer.peek() {
        Ok(t) => match t.t {
            TToken::Caret => true,
            _ => false,
        },
        Err(e) => return Err(e),
    };
    if is_caret {
        let token = lexer.tokens[lexer.pos].clone();
        lexer.pos = lexer.pos + 1;
        let pos = Position::range(expr.pos(), token.pos);
        parse_derefs(lexer, Box::new(Node::Dereference { expr, pos }))
    } else {
        Ok(expr)
    }
}

/// Binary operators of strength at least `precedence` and their right operands.
fn parse_expr_precedence(lexer: &mut Lexer, lhs: Box<Node>, precedence: i8) -> (r: Result<
    Box<Node>,
    ParseError,
>)
    requires
        old(lexer).pos <= old(lexer).tokens.len(),
        0 <= precedence <= 4,
        has_pos(lhs@),
    ensures
        parsed_as(
            *old(lexer),
            *final(lexer),
            r,
            syn_prec(old(lexer).ts(), lhs@, precedence as int, old(lexer).pos as int),
        ),
        r matches Ok(x) ==> has_pos(x@),
    decreases old(lexer).tokens.len() - old(lexer).pos, 10 - 2 * precedence,
{
    if lexer.pos >= lexer.tokens.len() {
        return Ok(lhs);
    }
    let prec = op_precedence(&lexer.tokens[lexer.pos]);
    if prec >= precedence {
        let op = get_op(&lexer.tokens[lexer.pos]);
        lexer.pos = lexer.pos + 1;
        let rhs = match parse_unary(lexer) {
            Ok(x) => x,
            Err(e) => return Err(e),
        };
        let rhs = match parse_inner(lexer, rhs, precedence) {
            Ok(x) => x,
            Err(e) => return Err(e),
        };
        let pos = Position::range(lhs.pos(), rhs.pos());
        let node = Box::new(Node::Binary { op, lhs, rhs, pos });
        if lexer.pos >= lexer.tokens.len() {
            Ok(node)
        } else {
            parse_expr_precedence(lexer, node, precedence)
        }
    } else {
        Ok(lhs)
    }
}

/// Extends a right operand by the operators stronger than `precedence` that follow it.
fn parse_inner(lexer: &mut Lexer, rhs: Box<Node>, precedence: i8) -> (r: Result<
    Box<Node>,
    ParseError,
>)
    requires
        old(lexer).pos <= old(lexer).tokens.len(),
        0 <= precedence <= 4,
        has_pos(rhs@),
    ensures
        parsed_as(
            *old(lexer),
            *final(lexer),
            r,
            syn_inner(old(lexer).ts(), rhs@, precedence as int, old(lexer).pos as int),
        ),
        r matches Ok(x) ==> has_pos(x@),
    decreases old(lexer).tokens.len() - old(lexer).pos, 11 - 2 * precedence,
{
    if lexer.pos >= lexer.tokens.len() {
        return Ok(rhs);
    }
    let prec = op_precedence(&lexer.tokens[lexer.pos]);
    if prec > precedence {
        let start = lexer.pos;
        let r2 = match parse_expr_precedence(lexer, rhs, prec) {
            Ok(x) => x,
            Err(e) => return Err(e),
        };
        if lexer.pos <= start {
            return Err(lexer.end_error());
        }
        parse_inner(lexer, r2, precedence)
    } else {
        Ok(rhs)
    }
}

/// A literal, a parenthesised expression, an object creation, or a name.
#[verifier::rlimit(60)]
fn parse_primary(lexer: &mut Lexer) -> (r: Result<Box<Node>, ParseError>)
    requires
        old(lexer).pos <= old(lexer).tokens.len(),
    ensures
        parsed_as(*old(lexer), *final(lexer), r, syn_primary(old(lexer).ts(), old(lexer).pos as int)),
        r matches Ok(x) ==> has_pos(x@) && final(lexer).pos > old(lexer).pos,
    decreases old(lexer).tokens.len() - old(lexer).pos, 15int,
{
    let token = match lexer.peek() {
        Ok(t) => t.clone(),
        Err(e) => return Err(e),
    };
    let pos = token.pos;
    match token.t {
        TToken::StringLit(val) => {
            lexer.pos = lexer.pos + 1;
            Ok(Box::new(Node::String { val, pos }))
        },
        TToken::IntegerLit(val) => {
            lexer.pos = lexer.pos + 1;
            Ok(Box::new(Node::Int { val, pos }))
        },
        TToken::RealLit(val) => {
            lexer.pos = lexer.pos + 1;
            Ok(Box::new(Node::Real { val, pos }))
        },
        TToken::BoolLit(val) => {
            lexer.pos = lexer.pos + 1;
            Ok(Box::new(Node::Boolean { val, pos }))
        },
        TToken::DateLit(val) => {
            lexer.pos = lexer.pos + 1;
            Ok(Box::new(Node::Date { val, pos }))
        },
        TToken::LParen => parse_group(lexer),
        TToken::New => parse_new(lexer),
        TToken::Identifier(_) => parse_identifier(lexer),
        _ => Err(ParseError { kind: ParseErrorKind::ExpectedExpression, pos, found: None }),
    }
}

/// `( expression )`: the expression.
fn parse_group(lexer: &mut Lexer) -> (r: Result<Box<Node>, ParseError>)
    requires
        old(lexer).pos <= old(lexer).tokens.len(),
    ensures
        parsed_as(*old(lexer), *final(lexer), r, syn_group(old(lexer).ts(), old(lexer).pos as int)),
        r matches Ok(x) ==> has_pos(x@) && final(lexer).pos > old(lexer).pos,
    decreases old(lexer).tokens.len() - old(lexer).pos, 12int,
{
    if lexer.pos >= lexer.tokens.len() {
        return Err(lexer.end_error());
    }
    lexer.pos = lexer.pos + 1;
    let expr = match parse_expression(lexer) {
        Ok(x) => x,
        Err(e) => return Err(e),
    };
    let kinds = vec![K_R_PAREN];
    proof {
        assert(kinds@ =~= seq![K_R_PAREN]);
    }
    match expect_token(lexer, &kinds, ParseErrorKind::ExpectRightParen) {
        Ok(_) => Ok(expr),
        Err(e) => Err(e),
    }
}

/// `NEW` followed by a constructor call.
fn parse_new(lexer: &mut Lexer) -> (r: Result<Box<Node>, ParseError>)
    requires
        old(lexer).pos <= old(lexer).tokens.len(),
    ensures
        parsed_as(*old(lexer), *final(lexer), r, syn_new(old(lexer).ts(), old(lexer).pos as int)),
        r matches Ok(x) ==> has_pos(x@) && final(lexer).pos > old(lexer).pos,
    decreases old(lexer).tokens.len() - old(lexer).pos, 12int,
{
    if lexer.pos >= lexer.tokens.len() {
        return Err(lexer.end_error());
    }
    let new_pos = lexer.tokens[lexer.pos].pos;
    lexer.pos = lexer.pos + 1;
    let call = match parse_identifier(lexer) {
        Ok(x) => x,
        Err(e) => return Err(e),
    };
    let is_call = match *call {
        Node::FunctionCall { .. } => true,
        _ => false,
    };
    if !is_call {
        return Err(
            ParseError { kind: ParseErrorKind::ConstructorCallExpected, pos: call.pos(), found: None },
        );
    }
    let pos = Position::range(new_pos, call.pos());
    Ok(Box::new(Node::CreateObject { call, pos }))
}

/// The binding strength of an operator token (see `op_prec`).
pub fn op_precedence(op: &Token) -> (p: i8)
    ensures
        p == op_prec(op.t@),
{
    if let TToken::Operator(op) = &op.t {
        let s = op.as_str();
        if str_eq(s, "&&") || str_eq(s, "||") {
            1
        } else if str_eq(s, "=") || str_eq(s, "!=") || str_eq(s, ">=") || str_eq(s, ">") || str_eq(
            s,
            "<",
        ) || str_eq(s, "<=") {
            2
        } else if str_eq(s, "+") || str_eq(s, "-") {
            3
        } else if str_eq(s, "*") || str_eq(s, "/") || str_eq(s, "//") || str_eq(s, "%") || str_eq(
            s,
            "&",
        ) {
            4
        } else {
            -1
        }
    } else {
        -1
    }
}

/// Whether a token is a prefix operator.
pub fn is_unary(op: &Token) -> (b: bool)
    ensures
        b == is_unary_op(op.t@),
{
    if let TToken::Operator(op) = &op.t {
        let s = op.as_str();
        str_eq(s, "_+") || str_eq(s, "_-") || str_eq(s, "!")
    } else {
        false
    }
}

/// The text of an operator token.
pub fn get_op(op: &Token) -> (s: String)
    requires
        op.t@ is Operator,
    ensures
        s@ == op_text(op.t@),
{
    if let TToken::Operator(op) = &op.t {
        op.clone()
    } else {
        String::new()
    }
}

/// The operand an integer literal token reads as.
pub open spec fn int_operand(t: TokenV) -> NodeV {
    NodeV::Int { val: t.t->IntegerLit_0, pos: t.pos }
}

/// Binary operators group to the right, whatever their strengths: `a o1 b o2 c` reads as
/// `a o1 (b o2 c)`, so `2 * 3 + 1` is `2 * (3 + 1)` and `8 - 2 - 1` is `8 - (2 - 1)`. Stated
/// for integer literal operands followed by a token that continues no expression.
pub proof fn law_binary_operators_group_to_the_right(ts: Seq<TokenV>, i: int)
    requires
        0 <= i,
        i + 6 <= ts.len(),
        ts[i].t is IntegerLit,
        ts[i + 2].t is IntegerLit,
        ts[i + 4].t is IntegerLit,
        op_prec(ts[i + 1].t) >= 1,
        op_prec(ts[i + 3].t) >= 1,
        op_prec(ts[i + 5].t) < 0,
        !(ts[i + 5].t is Caret),
    ensures
        ({
            let a = int_operand(ts[i]);
            let b = int_operand(ts[i + 2]);
            let c = int_operand(ts[i + 4]);
            let bc = NodeV::Binary {
                op: op_text(ts[i + 3].t),
                lhs: Box::new(b),
                rhs: Box::new(c),
                pos: span(node_pos(b), node_pos(c)),
            };
            syn_expression(ts, i) == Ok::<(NodeV, int), ParseError>(
                (
                    NodeV::Binary {
                        op: op_text(ts[i + 1].t),
                        lhs: Box::new(a),
                        rhs: Box::new(bc),
                        pos: span(node_pos(a), node_pos(bc)),
                    },
                    i + 5,
                ),
            )
        }),
{
    let a = int_operand(ts[i]);
    let b = int_operand(ts[i + 2]);
    let c = int_operand(ts[i + 4]);
    let p2 = op_prec(ts[i + 3].t);
    let bc = NodeV::Binary {
        op: op_text(ts[i + 3].t),
        lhs: Box::new(b),
        rhs: Box::new(c),
        pos: span(node_pos(b), node_pos(c)),
    };
    let abc = NodeV::Binary {
        op: op_text(ts[i + 1].t),
        lhs: Box::new(a),
        rhs: Box::new(bc),
        pos: span(node_pos(a), node_pos(bc)),
    };
    assert(p2 <= 4);
    assert(syn_primary(ts, i) == Ok::<(NodeV, int), ParseError>((a, i + 1)));
    assert(syn_derefs(ts, a, i + 1) == Ok::<(NodeV, int), ParseError>((a, i + 1)));
    assert(syn_unary(ts, i) == Ok::<(NodeV, int), ParseError>((a, i + 1)));
    assert(syn_primary(ts, i + 2) == Ok::<(NodeV, int), ParseError>((b, i + 3)));
    assert(syn_derefs(ts, b, i + 3) == Ok::<(NodeV, int), ParseError>((b, i + 3)));
    assert(syn_unary(ts, i + 2) == Ok::<(NodeV, int), ParseError>((b, i + 3)));
    assert(syn_primary(ts, i + 4) == Ok::<(NodeV, int), ParseError>((c, i + 5)));
    assert(syn_derefs(ts, c, i + 5) == Ok::<(NodeV, int), ParseError>((c, i + 5)));
    assert(syn_unary(ts, i + 4) == Ok::<(NodeV, int), ParseError>((c, i + 5)));
    assert(syn_inner(ts, c, p2, i + 5) == Ok::<(NodeV, int), ParseError>((c, i + 5)));
    assert(syn_prec(ts, bc, p2, i + 5) == Ok::<(NodeV, int), ParseError>((bc, i + 5)));
    assert(syn_prec(ts, b, p2, i + 3) == Ok::<(NodeV, int), ParseError>((bc, i + 5)));
    assert(syn_inner(ts, bc, 0, i + 5) == Ok::<(NodeV, int), ParseError>((bc, i + 5)));
    assert(syn_inner(ts, b, 0, i + 3) == Ok::<(NodeV, int), ParseError>((bc, i + 5)));
    assert(syn_prec(ts, abc, 0, i + 5) == Ok::<(NodeV, int), ParseError>((abc, i + 5)));
    assert(syn_prec(ts, a, 0, i + 1) == Ok::<(NodeV, int), ParseError>((abc, i + 5)));
}

} // verus!
