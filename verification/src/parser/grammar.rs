//! What each parsing function returns, stated over the token sequence: the result node and
//! the index of the first token after it, or the syntax error.
use crate::ast::{has_pos, node_pos, NodeV};
use crate::parser::{ParseError, ParseErrorKind};
use crate::position::Position;
use crate::tokens::{
    kind_of, TTokenV, TokenV, K_ARRAY, K_ASSIGNMENT, K_CARET, K_COLON, K_COMMA, K_DECLARE, K_END_FUNCTION,
    K_END_PROCEDURE, K_END_TYPE, K_END_WHILE, K_FILE_MODE, K_FOR, K_IDENTIFIER, K_INTEGER_LIT, K_L_PAREN,
    K_L_SQR_BRACKET, K_NEW, K_NEWLINE, K_NEXT, K_OF, K_OPERATOR, K_R_PAREN, K_R_SQR_BRACKET,
    K_RETURN_TYPE, K_THEN, K_TO, K_UNTIL, K_VAR_TYPE, K_END_CASE,
};
use crate::types::Index;
use crate::types::TypeV;
use vstd::prelude::*;

verus! {

pub type Parsed = Result<(NodeV, int), ParseError>;

pub type ParsedList = Result<(Seq<NodeV>, int), ParseError>;

pub open spec fn span(a: Position, b: Position) -> Position {
    Position {
        line_start: a.line_start,
        line_end: b.line_end,
        pos_start: a.pos_start,
        pos_end: b.pos_end,
    }
}

pub open spec fn no_pos() -> Position {
    Position { line_start: 0, line_end: 0, pos_start: 0, pos_end: 0 }
}

pub open spec fn error_at(kind: ParseErrorKind, pos: Position) -> ParseError {
    ParseError { kind, pos, found: None }
}

/// The error for running out of tokens: it points at the last token.
pub open spec fn end_error(ts: Seq<TokenV>) -> ParseError {
    error_at(ParseErrorKind::UnexpectedEnd, if ts.len() > 0 { ts.last().pos } else { no_pos() })
}

/// An index `j` reached from `i` that is not strictly later and within the tokens.
pub open spec fn stalled(ts: Seq<TokenV>, i: int, j: int) -> bool {
    j <= i || j > ts.len()
}

pub open spec fn tok_at(ts: Seq<TokenV>, i: int) -> Result<TokenV, ParseError> {
    if 0 <= i < ts.len() {
        Ok(ts[i])
    } else {
        Err(end_error(ts))
    }
}

pub open spec fn kind_in(kinds: Seq<u8>, k: int) -> bool {
    exists|j: int| 0 <= j < kinds.len() && kinds[j] as int == k
}

/// The next token if it is of one of `kinds`; at `EOF` the error `what`, otherwise the
/// error `what` that also shows the token found.
pub open spec fn syn_expect(ts: Seq<TokenV>, i: int, kinds: Seq<u8>, what: ParseErrorKind) -> Result<
    (TokenV, int),
    ParseError,
> {
    if !(0 <= i < ts.len()) {
        Err(end_error(ts))
    } else if ts[i].t is EOF {
        Err(error_at(what, ts[i].pos))
    } else if kind_in(kinds, kind_of(ts[i].t)) {
        Ok((ts[i], i + 1))
    } else {
        Err(ParseError { kind: what, pos: ts[i].pos, found: Some(i as usize) })
    }
}

// ----- expressions -----

/// Binding strength of an operator token: logical 1, comparison 2, additive 3,
/// multiplicative and `&` 4; -1 for anything else.
pub open spec fn op_prec(t: TTokenV) -> int {
    match t {
        TTokenV::Operator(op) => {
            if op == "&&"@ || op == "||"@ {
                1
            } else if op == "="@ || op == "!="@ || op == ">="@ || op == ">"@ || op == "<"@ || op
                == "<="@ {
                2
            } else if op == "+"@ || op == "-"@ {
                3
            } else if op == "*"@ || op == "/"@ || op == "//"@ || op == "%"@ || op == "&"@ {
                4
            } else {
                -1
            }
        },
        _ => -1,
    }
}

pub open spec fn is_unary_op(t: TTokenV) -> bool {
    match t {
        TTokenV::Operator(op) => op == "_+"@ || op == "_-"@ || op == "!"@,
        _ => false,
    }
}

pub open spec fn op_text(t: TTokenV) -> Seq<char> {
    match t {
        TTokenV::Operator(op) => op,
        _ => Seq::empty(),
    }
}

pub open spec fn syn_expression(ts: Seq<TokenV>, i: int) -> Parsed
    decreases ts.len() - i, 17int,
{
    match syn_unary(ts, i) {
        Err(e) => Err(e),
        Ok((lhs, j)) => if stalled(ts, i, j) {
            Err(end_error(ts))
        } else {
            syn_prec(ts, lhs, 0, j)
        },
    }
}

/// Operators and their right operands, read while their strength is at least `p`; an
/// operand is extended by the operators stronger than `p` that follow it.
pub open spec fn syn_prec(ts: Seq<TokenV>, lhs: NodeV, p: int, i: int) -> Parsed
    decreases ts.len() - i, 10 - 2 * p,
{
    if !(0 <= i < ts.len()) || !(0 <= p <= 4) {
        Ok((lhs, i))
    } else if op_prec(ts[i].t) >= p {
        let op = ts[i];
        match syn_unary(ts, i + 1) {
            Err(e) => Err(e),
            Ok((rhs, j)) => if stalled(ts, i + 1, j) {
                Err(end_error(ts))
            } else {
                match syn_inner(ts, rhs, p, j) {
                    Err(e) => Err(e),
                    Ok((rhs2, k)) => if k < j || k > ts.len() {
                        Err(end_error(ts))
                    } else if !(0 <= k < ts.len()) {
                        Ok(
                            (
                                NodeV::Binary {
                                    op: op_text(op.t),
                                    lhs: Box::new(lhs),
                                    rhs: Box::new(rhs2),
                                    pos: span(node_pos(lhs), node_pos(rhs2)),
                                },
                                k,
                            ),
                        )
                    } else {
                        syn_prec(
                            ts,
                            NodeV::Binary {
                                op: op_text(op.t),
                                lhs: Box::new(lhs),
                                rhs: Box::new(rhs2),
                                pos: span(node_pos(lhs), node_pos(rhs2)),
                            },
                            p,
                            k,
                        )
                    },
                }
            },
        }
    } else {
        Ok((lhs, i))
    }
}

pub open spec fn syn_inner(ts: Seq<TokenV>, rhs: NodeV, p: int, j: int) -> Parsed
    decreases ts.len() - j, 11 - 2 * p,
{
    if !(0 <= j < ts.len()) || !(0 <= p <= 4) {
        Ok((rhs, j))
    } else if op_prec(ts[j].t) > p {
        match syn_prec(ts, rhs, op_prec(ts[j].t), j) {
            Err(e) => Err(e),
            Ok((r2, j2)) => if stalled(ts, j, j2) {
                Err(end_error(ts))
            } else {
                syn_inner(ts, r2, p, j2)
            },
        }
    } else {
        Ok((rhs, j))
    }
}

pub open spec fn syn_unary(ts: Seq<TokenV>, i: int) -> Parsed
    decreases ts.len() - i, 16int,
{
    match tok_at(ts, i) {
        Err(e) => Err(e),
        Ok(t) => if is_unary_op(t.t) {
            match syn_unary(ts, i + 1) {
                Err(e) => Err(e),
                Ok((e, j)) => Ok(
                    (
                        NodeV::Unary {
                            op: op_text(t.t),
                            expr: Box::new(e),
                            pos: span(t.pos, node_pos(e)),
                        },
                        j,
                    ),
                ),
            }
        } else if t.t is Caret {
            match syn_unary(ts, i + 1) {
                Err(e) => Err(e),
                Ok((e, j)) => Ok(
                    (NodeV::Reference { expr: Box::new(e), pos: span(t.pos, node_pos(e)) }, j),
                ),
            }
        } else {
            match syn_primary(ts, i) {
                Err(e) => Err(e),
                Ok((e, j)) => if stalled(ts, i, j) {
                    Err(end_error(ts))
                } else {
                    syn_derefs(ts, e, j)
                },
            }
        },
    }
}

/// Postfix `^` operators after an operand.
pub open spec fn syn_derefs(ts: Seq<TokenV>, e: NodeV, j: int) -> Parsed
    decreases ts.len() - j, 0int,
{
    match tok_at(ts, j) {
        Err(x) => Err(x),
        Ok(t) => if t.t is Caret {
            syn_derefs(
                ts,
                NodeV::Dereference { expr: Box::new(e), pos: span(node_pos(e), t.pos) },
                j + 1,
            )
        } else {
            Ok((e, j))
        },
    }
}

pub open spec fn syn_primary(ts: Seq<TokenV>, i: int) -> Parsed
    decreases ts.len() - i, 15int,
{
    match tok_at(ts, i) {
        Err(e) => Err(e),
        Ok(t) => match t.t {
            TTokenV::StringLit(val) => Ok((NodeV::String { val, pos: t.pos }, i + 1)),
            TTokenV::IntegerLit(val) => Ok((NodeV::Int { val, pos: t.pos }, i + 1)),
            TTokenV::RealLit(val) => Ok((NodeV::Real { val, pos: t.pos }, i + 1)),
            TTokenV::BoolLit(val) => Ok((NodeV::Boolean { val, pos: t.pos }, i + 1)),
            TTokenV::DateLit(val) => Ok((NodeV::Date { val, pos: t.pos }, i + 1)),
            TTokenV::LParen => syn_group(ts, i),
            TTokenV::New => syn_new(ts, i),
            TTokenV::Identifier(_) => syn_identifier(ts, i),
            _ => Err(error_at(ParseErrorKind::ExpectedExpression, t.pos)),
        },
    }
}

/// A parenthesised expression: the expression itself.
pub open spec fn syn_group(ts: Seq<TokenV>, i: int) -> Parsed
    decreases ts.len() - i, 12int,
{
    if !(0 <= i < ts.len()) {
        Err(end_error(ts))
    } else {
    match syn_expression(ts, i + 1) {
        Err(e) => Err(e),
        Ok((e, j)) => match syn_expect(ts, j, seq![K_R_PAREN], ParseErrorKind::ExpectRightParen) {
            Err(x) => Err(x),
            Ok((_, k)) => Ok((e, k)),
        },
    }
    }
}

/// `NEW` followed by a constructor call.
pub open spec fn syn_new(ts: Seq<TokenV>, i: int) -> Parsed
    decreases ts.len() - i, 12int,
{
    if !(0 <= i < ts.len()) {
        Err(end_error(ts))
    } else {
    match syn_identifier(ts, i + 1) {
        Err(e) => Err(e),
        Ok((call, j)) => if call is FunctionCall {
            Ok((NodeV::CreateObject { call: Box::new(call), pos: span(ts[i].pos, node_pos(call)) }, j))
        } else {
            Err(error_at(ParseErrorKind::ConstructorCallExpected, node_pos(call)))
        },
    }
    }
}

/// Comma-separated expressions up to (not including) a token of kind `close`.
pub open spec fn syn_expr_list(ts: Seq<TokenV>, i: int, acc: Seq<NodeV>, close: u8) -> ParsedList
    decreases ts.len() - i, 18int,
{
    match syn_expression(ts, i) {
        Err(e) => Err(e),
        Ok((e, j)) => if stalled(ts, i, j) {
            Err(end_error(ts))
        } else {
            match tok_at(ts, j) {
                Err(x) => Err(x),
                Ok(t) => if kind_of(t.t) == close as int {
                    Ok((acc.push(e), j))
                } else if t.t is Comma {
                    syn_expr_list(ts, j + 1, acc.push(e), close)
                } else {
                    Err(error_at(ParseErrorKind::ExpectedComma, t.pos))
                },
            }
        },
    }
}

/// One name, possibly indexed (`a[i, j]`) or called (`f(x, y)`).
pub open spec fn syn_ident_part(ts: Seq<TokenV>, i: int) -> Parsed
    decreases ts.len() - i, 12int,
{
    match tok_at(ts, i) {
        Err(e) => Err(e),
        Ok(ident) => match ident.t {
            TTokenV::Identifier(name) => match tok_at(ts, i + 1) {
                Err(e) => Err(e),
                Ok(t) => if t.t is LSqrBracket {
                    match syn_expr_list(ts, i + 2, Seq::empty(), K_R_SQR_BRACKET) {
                        Err(e) => Err(e),
                        Ok((indices, j)) => match tok_at(ts, j) {
                            Err(e) => Err(e),
                            Ok(end) => Ok(
                                (NodeV::ArrayVar { name, indices, pos: span(ident.pos, end.pos) }, j + 1),
                            ),
                        },
                    }
                } else if t.t is LParen {
                    match tok_at(ts, i + 2) {
                        Err(e) => Err(e),
                        Ok(t2) => if t2.t is RParen {
                            Ok(
                                (
                                    NodeV::FunctionCall {
                                        name,
                                        params: Seq::empty(),
                                        pos: span(ident.pos, t2.pos),
                                    },
                                    i + 3,
                                ),
                            )
                        } else {
                            match syn_expr_list(ts, i + 2, Seq::empty(), K_R_PAREN) {
                                Err(e) => Err(e),
                                Ok((params, j)) => match tok_at(ts, j) {
                                    Err(e) => Err(e),
                                    Ok(end) => Ok(
                                        (
                                            NodeV::FunctionCall {
                                                name,
                                                params,
                                                pos: span(ident.pos, end.pos),
                                            },
                                            j + 1,
                                        ),
                                    ),
                                },
                            }
                        },
                    }
                } else {
                    Ok((NodeV::Var { name, pos: ident.pos }, i + 1))
                },
            },
            _ => Err(error_at(ParseErrorKind::ExpectedIdentifier, ident.pos)),
        },
    }
}

/// Parts separated by `.`.
pub open spec fn syn_ident_chain(ts: Seq<TokenV>, i: int, acc: Seq<NodeV>) -> ParsedList
    decreases ts.len() - i, 13int,
{
    match syn_ident_part(ts, i) {
        Err(e) => Err(e),
        Ok((part, j)) => if stalled(ts, i, j) {
            Err(end_error(ts))
        } else {
            match tok_at(ts, j) {
                Err(e) => Err(e),
                Ok(t) => if t.t is Period {
                    syn_ident_chain(ts, j + 1, acc.push(part))
                } else {
                    Ok((acc.push(part), j))
                },
            }
        },
    }
}

/// A variable, array element or call, or a `.`-separated chain of them (a composite).
pub open spec fn syn_identifier(ts: Seq<TokenV>, i: int) -> Parsed
    decreases ts.len() - i, 14int,
{
    match syn_ident_chain(ts, i, Seq::empty()) {
        Err(e) => Err(e),
        Ok((parts, j)) => if parts.len() > 1 {
            Ok(
                (
                    NodeV::Composite {
                        children: parts,
                        pos: span(node_pos(parts[0]), node_pos(parts.last())),
                    },
                    j,
                ),
            )
        } else if parts.len() == 1 {
            Ok((parts[0], j))
        } else {
            Err(end_error(ts))
        },
    }
}


// ----- literals and declarations -----

/// The literal node of a literal token.
pub open spec fn syn_literal(t: TokenV) -> Option<NodeV> {
    match t.t {
        TTokenV::StringLit(val) => Some(NodeV::String { val, pos: t.pos }),
        TTokenV::IntegerLit(val) => Some(NodeV::Int { val, pos: t.pos }),
        TTokenV::RealLit(val) => Some(NodeV::Real { val, pos: t.pos }),
        TTokenV::BoolLit(val) => Some(NodeV::Boolean { val, pos: t.pos }),
        TTokenV::DateLit(val) => Some(NodeV::Date { val, pos: t.pos }),
        _ => None,
    }
}

pub open spec fn syn_parse_literal(ts: Seq<TokenV>, i: int) -> Parsed {
    match tok_at(ts, i) {
        Err(e) => Err(e),
        Ok(t) => match syn_literal(t) {
            Some(n) => Ok((n, i + 1)),
            None => Err(error_at(ParseErrorKind::ExpectedLiteral, t.pos)),
        },
    }
}

pub open spec fn int_of(t: TokenV) -> i64 {
    match t.t {
        TTokenV::IntegerLit(v) => v,
        _ => 0,
    }
}

pub open spec fn ident_of(t: TokenV) -> Seq<char> {
    match t.t {
        TTokenV::Identifier(v) => v,
        _ => Seq::empty(),
    }
}

/// Dimensions `lower : upper` separated by commas, up to `]`.
pub open spec fn syn_array_dims(ts: Seq<TokenV>, i: int, shape: Seq<Index>) -> Result<
    (Seq<Index>, int),
    ParseError,
>
    decreases ts.len() - i,
{
    match syn_expect(ts, i, seq![K_INTEGER_LIT], ParseErrorKind::ExpectInteger) {
        Err(e) => Err(e),
        Ok((lo, j1)) => match syn_expect(ts, j1, seq![K_COLON], ParseErrorKind::ExpectColon) {
            Err(e) => Err(e),
            Ok((_, j2)) => match syn_expect(ts, j2, seq![K_INTEGER_LIT], ParseErrorKind::ExpectInteger) {
                Err(e) => Err(e),
                Ok((hi, j3)) => {
                    let idx = Index { lower: int_of(lo), upper: int_of(hi) };
                    match tok_at(ts, j3) {
                        Err(e) => Err(e),
                        Ok(t) => if t.t is Comma {
                            if stalled(ts, i, j3 + 1) {
                                Err(end_error(ts))
                            } else {
                                syn_array_dims(ts, j3 + 1, shape.push(idx))
                            }
                        } else if t.t is RSqrBracket {
                            Ok((shape.push(idx), j3 + 1))
                        } else {
                            Err(error_at(ParseErrorKind::BracketOrCommaExpected, t.pos))
                        },
                    }
                },
            },
        },
    }
}

/// `[ dimensions ] OF type`.
pub open spec fn syn_array(ts: Seq<TokenV>, i: int) -> Result<(TypeV, int), ParseError> {
    match syn_expect(ts, i, seq![K_L_SQR_BRACKET], ParseErrorKind::ExpectLeftBracket) {
        Err(e) => Err(e),
        Ok((_, j)) => match syn_array_dims(ts, j, Seq::empty()) {
            Err(e) => Err(e),
            Ok((shape, k)) => match syn_expect(ts, k, seq![K_OF], ParseErrorKind::ExpectOf) {
                Err(e) => Err(e),
                Ok((_, m)) => match tok_at(ts, m) {
                    Err(e) => Err(e),
                    Ok(t) => match t.t {
                        TTokenV::VarType(vt) => Ok((TypeV::Array { shape, t: Box::new(vt) }, m + 1)),
                        _ => Err(error_at(ParseErrorKind::TypeExpected, t.pos)),
                    },
                },
            },
        },
    }
}

/// Comma-separated names; returns the first name's span, the names, whether a name was
/// still owed, the token that ended the list (consumed) and the index after it.
pub open spec fn syn_names(
    ts: Seq<TokenV>,
    i: int,
    start: Position,
    vars: Seq<Seq<char>>,
    expect_ident: bool,
    missing: ParseErrorKind,
) -> Result<(Position, Seq<Seq<char>>, bool, TokenV, int), ParseError>
    decreases ts.len() - i,
{
    match tok_at(ts, i) {
        Err(e) => Err(e),
        Ok(t) => match t.t {
            TTokenV::Identifier(id) => syn_names(
                ts,
                i + 1,
                if start == no_pos() { t.pos } else { start },
                vars.push(id),
                false,
                missing,
            ),
            TTokenV::Comma => if expect_ident {
                Err(error_at(missing, t.pos))
            } else {
                syn_names(ts, i + 1, start, vars, true, missing)
            },
            _ => Ok((start, vars, expect_ident, t, i + 1)),
        },
    }
}

/// `names : type`, the body of a declaration or parameter.
pub open spec fn syn_declaration(ts: Seq<TokenV>, i: int, byref: bool, private: bool) -> Parsed {
    match syn_names(ts, i, no_pos(), Seq::empty(), false, ParseErrorKind::IdentifierExpected) {
        Err(e) => Err(e),
        Ok((start, vars, ei, cur, j)) => if ei {
            Err(error_at(ParseErrorKind::IdentifierExpected, cur.pos))
        } else if !(cur.t is Colon) {
            Err(error_at(ParseErrorKind::ColonExpected, cur.pos))
        } else {
            match tok_at(ts, j) {
                Err(e) => Err(e),
                Ok(vt) => {
                    let tres: Result<(TypeV, int), ParseError> = match vt.t {
                        TTokenV::VarType(v) => Ok((v, j + 1)),
                        TTokenV::Array => syn_array(ts, j + 1),
                        TTokenV::Identifier(n) => Ok((TypeV::Custom(n), j + 1)),
                        _ => Err(error_at(ParseErrorKind::TypeExpected, vt.pos)),
                    };
                    match tres {
                        Err(e) => Err(e),
                        Ok((ty, k)) => Ok(
                            (
                                NodeV::Declare {
                                    t: ty,
                                    children: vars,
                                    byref,
                                    private,
                                    pos: span(start, vt.pos),
                                },
                                k,
                            ),
                        ),
                    }
                },
            }
        },
    }
}

/// `DECLARE names : type`; the span runs from `DECLARE`.
#[verifier::opaque]
pub open spec fn syn_declare(ts: Seq<TokenV>, i: int) -> Parsed {
    if !(0 <= i < ts.len()) {
        Err(end_error(ts))
    } else {
        match syn_declaration(ts, i + 1, false, false) {
            Err(e) => Err(e),
            Ok((n, j)) => Ok(
                (
                    match n {
                        NodeV::Declare { t, children, byref, private, pos } => NodeV::Declare {
                            t,
                            children,
                            byref,
                            private,
                            pos: span(ts[i].pos, pos),
                        },
                        other => other,
                    },
                    j,
                ),
            ),
        }
    }
}

/// `CONSTANT name = literal`.
#[verifier::opaque]
pub open spec fn syn_constant(ts: Seq<TokenV>, i: int) -> Parsed {
    if !(0 <= i < ts.len()) {
        Err(end_error(ts))
    } else {
        match syn_expect(ts, i + 1, seq![K_IDENTIFIER], ParseErrorKind::ExpectIdentifier) {
            Err(e) => Err(e),
            Ok((nt, j)) => match syn_expect(ts, j, seq![K_OPERATOR], ParseErrorKind::ExpectEqualsQuoted) {
                Err(e) => Err(e),
                Ok((op, k)) => if op_text(op.t) != "="@ {
                    Err(error_at(ParseErrorKind::EqualsExpected, op.pos))
                } else {
                    match tok_at(ts, k) {
                        Err(e) => Err(e),
                        Ok(t) => match syn_literal(t) {
                            Some(v) => Ok(
                                (NodeV::Const { name: ident_of(nt), val: Box::new(v), pos: no_pos() }, k + 1),
                            ),
                            None => Err(error_at(ParseErrorKind::LiteralValueExpected, t.pos)),
                        },
                    }
                },
            },
        }
    }
}

pub open spec fn variant_nodes(vars: Seq<Seq<char>>) -> Seq<NodeV> {
    vars.map_values(|v: Seq<char>| NodeV::String { val: v, pos: no_pos() })
}

/// The states of an enumeration after `(`, up to `)`.
pub open spec fn syn_enum(ts: Seq<TokenV>, i: int, start: TokenV, name: Seq<char>) -> Parsed {
    match syn_names(ts, i, no_pos(), Seq::empty(), false, ParseErrorKind::EnumValueExpected) {
        Err(e) => Err(e),
        Ok((_, vars, ei, cur, j)) => if ei {
            Err(error_at(ParseErrorKind::EnumValueExpected, cur.pos))
        } else if !(cur.t is RParen) {
            Err(error_at(ParseErrorKind::RightParenExpected, cur.pos))
        } else {
            Ok((NodeV::Enum { name, variants: variant_nodes(vars), pos: span(start.pos, cur.pos) }, j))
        },
    }
}

/// The type a pointer type refers to.
pub open spec fn syn_pointer(ts: Seq<TokenV>, i: int, start: TokenV, name: Seq<char>) -> Parsed {
    match syn_expect(ts, i, seq![K_IDENTIFIER, K_VAR_TYPE], ParseErrorKind::ExpectDataType) {
        Err(e) => Err(e),
        Ok((vt, j)) => {
            let r = match vt.t {
                TTokenV::Identifier(n) => TypeV::Custom(n),
                TTokenV::VarType(v) => v,
                _ => TypeV::Custom(Seq::empty()),
            };
            Ok((NodeV::PointerDef { name, ref_to: r, pos: span(start.pos, vt.pos) }, j))
        },
    }
}

/// Field declarations of a record, up to `ENDTYPE`.
pub open spec fn syn_record_fields(ts: Seq<TokenV>, i: int, fields: Seq<NodeV>) -> Result<
    (Seq<NodeV>, Position, int),
    ParseError,
>
    decreases ts.len() - i,
{
    match syn_declaration(ts, i, false, false) {
        Err(e) => Err(e),
        Ok((f, j)) => if stalled(ts, i, j) {
            Err(end_error(ts))
        } else {
            match tok_at(ts, j) {
                Err(e) => Err(e),
                Ok(t) => {
                    let k = if t.t is Newline { j + 1 } else { j };
                    match syn_expect(ts, k, seq![K_DECLARE, K_END_TYPE], ParseErrorKind::ExpectEndType) {
                        Err(e) => Err(e),
                        Ok((e, m)) => if e.t is EndType {
                            Ok((fields.push(f), e.pos, m))
                        } else if stalled(ts, i, m) {
                            Err(end_error(ts))
                        } else {
                            syn_record_fields(ts, m, fields.push(f))
                        },
                    }
                },
            }
        },
    }
}

/// `TYPE name` followed by a record body, `= ( states )` or `= ^ type`.
#[verifier::opaque]
pub open spec fn syn_user_defined(ts: Seq<TokenV>, i: int) -> Parsed {
    if !(0 <= i < ts.len()) {
        Err(end_error(ts))
    } else {
        let token = ts[i];
        match syn_expect(ts, i + 1, seq![K_IDENTIFIER], ParseErrorKind::ExpectIdentifier) {
            Err(e) => Err(e),
            Ok((nt, j)) => match syn_expect(
                ts,
                j,
                seq![K_NEWLINE, K_OPERATOR],
                ParseErrorKind::ExpectDeclareOrEquals,
            ) {
                Err(e) => Err(e),
                Ok((nx, k)) => if nx.t is Newline {
                    match syn_expect(ts, k, seq![K_DECLARE], ParseErrorKind::ExpectDeclare) {
                        Err(e) => Err(e),
                        Ok((_, m)) => match syn_record_fields(ts, m, Seq::empty()) {
                            Err(e) => Err(e),
                            Ok((fields, end, m2)) => Ok(
                                (
                                    NodeV::Record {
                                        name: Box::new(NodeV::String { val: ident_of(nt), pos: nt.pos }),
                                        children: fields,
                                        pos: span(token.pos, end),
                                    },
                                    m2,
                                ),
                            ),
                        },
                    }
                } else if op_text(nx.t) != "="@ {
                    Err(error_at(ParseErrorKind::ExpectedEqualsSign, nx.pos))
                } else {
                    match syn_expect(ts, k, seq![K_L_PAREN, K_CARET], ParseErrorKind::ExpectParenOrCaret) {
                        Err(e) => Err(e),
                        Ok((b, m)) => if b.t is LParen {
                            syn_enum(ts, m, token, ident_of(nt))
                        } else {
                            syn_pointer(ts, m, token, ident_of(nt))
                        },
                    }
                },
            },
        }
    }
}

// ----- simple statements -----

#[verifier::opaque]
pub open spec fn syn_input(ts: Seq<TokenV>, i: int) -> Parsed {
    if !(0 <= i < ts.len()) {
        Err(end_error(ts))
    } else {
        match syn_expect(ts, i + 1, seq![K_IDENTIFIER], ParseErrorKind::ExpectIdentifier) {
            Err(e) => Err(e),
            Ok((it, j)) => Ok(
                (
                    NodeV::Input {
                        child: Box::new(NodeV::Var { name: ident_of(it), pos: it.pos }),
                        pos: span(ts[i].pos, it.pos),
                    },
                    j,
                ),
            ),
        }
    }
}

/// Comma-separated expressions.
pub open spec fn syn_output_list(ts: Seq<TokenV>, i: int, acc: Seq<NodeV>) -> ParsedList
    decreases ts.len() - i,
{
    match syn_expression(ts, i) {
        Err(e) => Err(e),
        Ok((e, j)) => if stalled(ts, i, j) {
            Err(end_error(ts))
        } else {
            match tok_at(ts, j) {
                Err(x) => Err(x),
                Ok(t) => if t.t is Comma {
                    syn_output_list(ts, j + 1, acc.push(e))
                } else {
                    Ok((acc.push(e), j))
                },
            }
        },
    }
}

#[verifier::opaque]
pub open spec fn syn_output(ts: Seq<TokenV>, i: int) -> Parsed {
    if !(0 <= i < ts.len()) {
        Err(end_error(ts))
    } else {
        match syn_output_list(ts, i + 1, Seq::empty()) {
            Err(e) => Err(e),
            Ok((children, j)) => Ok(
                (NodeV::Output { children, pos: span(ts[i].pos, node_pos(children.last())) }, j),
            ),
        }
    }
}

/// `OPENFILE filename FOR mode`.
#[verifier::opaque]
pub open spec fn syn_open_file(ts: Seq<TokenV>, i: int) -> Parsed {
    if !(0 <= i < ts.len()) {
        Err(end_error(ts))
    } else {
        match syn_expression(ts, i + 1) {
            Err(e) => Err(e),
            Ok((f, j)) => match syn_expect(ts, j, seq![K_FOR], ParseErrorKind::ExpectFor) {
                Err(e) => Err(e),
                Ok((_, k)) => match syn_expect(ts, k, seq![K_FILE_MODE], ParseErrorKind::ExpectFileMode) {
                    Err(e) => Err(e),
                    Ok((m, k2)) => Ok(
                        (NodeV::OpenFile { filename: Box::new(f), mode: m.t, pos: span(ts[i].pos, m.pos) }, k2),
                    ),
                },
            },
        }
    }
}

#[verifier::opaque]
pub open spec fn syn_close_file(ts: Seq<TokenV>, i: int) -> Parsed {
    if !(0 <= i < ts.len()) {
        Err(end_error(ts))
    } else {
        match syn_expression(ts, i + 1) {
            Err(e) => Err(e),
            Ok((f, j)) => Ok((NodeV::CloseFile { filename: Box::new(f), pos: span(ts[i].pos, node_pos(f)) }, j)),
        }
    }
}

/// `keyword filename , variable`: the file, the variable, the span and the next index.
pub open spec fn syn_file_var_parts(ts: Seq<TokenV>, i: int) -> Result<
    (NodeV, NodeV, Position, int),
    ParseError,
> {
    if !(0 <= i < ts.len()) {
        Err(end_error(ts))
    } else {
        match syn_expression(ts, i + 1) {
            Err(e) => Err(e),
            Ok((f, j)) => match syn_expect(ts, j, seq![K_COMMA], ParseErrorKind::ExpectComma) {
                Err(e) => Err(e),
                Ok((_, k)) => match syn_identifier(ts, k) {
                    Err(e) => Err(e),
                    Ok((v, m)) => if !(v is Var || v is ArrayVar) {
                        Err(error_at(ParseErrorKind::IdentifierExpected, node_pos(v)))
                    } else {
                        Ok((f, v, span(ts[i].pos, node_pos(v)), m))
                    },
                },
            },
        }
    }
}

/// `keyword filename , expression`: the file, the expression, the span and the next index.
pub open spec fn syn_file_expr_parts(ts: Seq<TokenV>, i: int) -> Result<
    (NodeV, NodeV, Position, int),
    ParseError,
> {
    if !(0 <= i < ts.len()) {
        Err(end_error(ts))
    } else {
        match syn_expression(ts, i + 1) {
            Err(e) => Err(e),
            Ok((f, j)) => match syn_expect(ts, j, seq![K_COMMA], ParseErrorKind::ExpectComma) {
                Err(e) => Err(e),
                Ok((_, k)) => match syn_expression(ts, k) {
                    Err(e) => Err(e),
                    Ok((x, m)) => Ok((f, x, span(ts[i].pos, node_pos(x)), m)),
                },
            },
        }
    }
}

#[verifier::opaque]
pub open spec fn syn_read_file(ts: Seq<TokenV>, i: int) -> Parsed {
    match syn_file_var_parts(ts, i) {
        Err(e) => Err(e),
        Ok((f, v, p, m)) => Ok((NodeV::ReadFile { filename: Box::new(f), var: Box::new(v), pos: p }, m)),
    }
}

#[verifier::opaque]
pub open spec fn syn_get_record(ts: Seq<TokenV>, i: int) -> Parsed {
    match syn_file_var_parts(ts, i) {
        Err(e) => Err(e),
        Ok((f, v, p, m)) => Ok((NodeV::GetRecord { filename: Box::new(f), var: Box::new(v), pos: p }, m)),
    }
}

#[verifier::opaque]
pub open spec fn syn_put_record(ts: Seq<TokenV>, i: int) -> Parsed {
    match syn_file_var_parts(ts, i) {
        Err(e) => Err(e),
        Ok((f, v, p, m)) => Ok((NodeV::PutRecord { filename: Box::new(f), var: Box::new(v), pos: p }, m)),
    }
}

#[verifier::opaque]
pub open spec fn syn_write_file(ts: Seq<TokenV>, i: int) -> Parsed {
    match syn_file_expr_parts(ts, i) {
        Err(e) => Err(e),
        Ok((f, x, p, m)) => Ok((NodeV::WriteFile { filename: Box::new(f), expr: Box::new(x), pos: p }, m)),
    }
}

#[verifier::opaque]
pub open spec fn syn_seek_file(ts: Seq<TokenV>, i: int) -> Parsed {
    match syn_file_expr_parts(ts, i) {
        Err(e) => Err(e),
        Ok((f, x, p, m)) => Ok((NodeV::SeekFile { filename: Box::new(f), expr: Box::new(x), pos: p }, m)),
    }
}

#[verifier::opaque]
pub open spec fn syn_return(ts: Seq<TokenV>, i: int) -> Parsed {
    if !(0 <= i < ts.len()) {
        Err(end_error(ts))
    } else {
        match syn_expression(ts, i + 1) {
            Err(e) => Err(e),
            Ok((x, j)) => Ok((NodeV::Return { expr: Box::new(x), pos: span(ts[i].pos, node_pos(x)) }, j)),
        }
    }
}

/// `CALL name(arguments)`, or `CALL name` for a call without arguments.
#[verifier::opaque]
pub open spec fn syn_call(ts: Seq<TokenV>, i: int) -> Parsed {
    match syn_identifier(ts, i + 1) {
        Err(e) => Err(e),
        Ok((c, j)) => match c {
            NodeV::FunctionCall { .. } => Ok((c, j)),
            NodeV::Var { name, pos } => Ok((NodeV::FunctionCall { name, params: Seq::empty(), pos }, j)),
            _ => match tok_at(ts, j) {
                Err(e) => Err(e),
                Ok(t) => Err(error_at(ParseErrorKind::ProcedureExpected, t.pos)),
            },
        },
    }
}

/// After an expression statement: `<- expression` makes an assignment; otherwise the
/// token after the expression is passed over.
#[verifier::opaque]
pub open spec fn syn_try_assign(ts: Seq<TokenV>, lhs: NodeV, j: int) -> Parsed {
    match tok_at(ts, j) {
        Err(e) => Err(e),
        Ok(t) => if t.t is Assignment {
            match syn_expression(ts, j + 1) {
                Err(e) => Err(e),
                Ok((rhs, k)) => Ok(
                    (
                        NodeV::Assignment {
                            lhs: Box::new(lhs),
                            rhs: Box::new(rhs),
                            pos: span(node_pos(lhs), node_pos(rhs)),
                        },
                        k,
                    ),
                ),
            }
        } else {
            Ok((lhs, j + 1))
        },
    }
}


// ----- statements -----

/// One statement.
pub open spec fn syn_line(ts: Seq<TokenV>, i: int) -> Parsed
    decreases ts.len() - i, 1int,
{
    match tok_at(ts, i) {
        Err(e) => Err(e),
        Ok(t) => match t.t {
            TTokenV::Declare => syn_declare(ts, i),
            TTokenV::Constant => syn_constant(ts, i),
            TTokenV::While => syn_while(ts, i),
            TTokenV::For => syn_for(ts, i),
            TTokenV::Repeat => syn_repeat(ts, i),
            TTokenV::Input => syn_input(ts, i),
            TTokenV::Output => syn_output(ts, i),
            TTokenV::OpenFile => syn_open_file(ts, i),
            TTokenV::CloseFile => syn_close_file(ts, i),
            TTokenV::ReadFile => syn_read_file(ts, i),
            TTokenV::WriteFile => syn_write_file(ts, i),
            TTokenV::Seek => syn_seek_file(ts, i),
            TTokenV::GetRecord => syn_get_record(ts, i),
            TTokenV::PutRecord => syn_put_record(ts, i),
            TTokenV::If => syn_if(ts, i),
            TTokenV::Type => syn_user_defined(ts, i),
            TTokenV::Case => syn_case(ts, i),
            TTokenV::Return => syn_return(ts, i),
            TTokenV::Identifier(_) => match syn_expression(ts, i) {
                Err(e) => Err(e),
                Ok((lhs, j)) => syn_try_assign(ts, lhs, j),
            },
            TTokenV::Call => syn_call(ts, i),
            TTokenV::Newline => Ok((NodeV::Null, i + 1)),
            TTokenV::EOF => Ok((NodeV::Null, i + 1)),
            TTokenV::Procedure => Err(error_at(ParseErrorKind::RoutineNotGlobal, t.pos)),
            TTokenV::Function => Err(error_at(ParseErrorKind::RoutineNotGlobal, t.pos)),
            TTokenV::Class => Err(error_at(ParseErrorKind::ClassNotGlobal, t.pos)),
            _ => Err(error_at(ParseErrorKind::ExpectedStatement, t.pos)),
        },
    }
}

/// Statements up to a token of kind `end` (consumed); `EOF` first raises `missing`.
/// Returns the statements, the span of the closing token and the index after it.
pub open spec fn syn_block(
    ts: Seq<TokenV>,
    j: int,
    acc: Seq<NodeV>,
    end: u8,
    missing: ParseErrorKind,
) -> Result<(Seq<NodeV>, Position, int), ParseError>
    decreases ts.len() - j, 2int,
{
    match tok_at(ts, j) {
        Err(e) => Err(e),
        Ok(t) => if t.t is EOF {
            Err(error_at(missing, t.pos))
        } else if kind_of(t.t) == end as int {
            Ok((acc, t.pos, j + 1))
        } else {
            match syn_line(ts, j) {
                Err(e) => Err(e),
                Ok((n, k)) => if stalled(ts, j, k) {
                    Err(end_error(ts))
                } else {
                    syn_block(ts, k, acc.push(n), end, missing)
                },
            }
        },
    }
}

/// `WHILE condition` statements `ENDWHILE`.
#[verifier::opaque]
pub open spec fn syn_while(ts: Seq<TokenV>, i: int) -> Parsed
    decreases ts.len() - i, 0int,
{
    if !(0 <= i < ts.len()) {
        Err(end_error(ts))
    } else {
        match syn_expression(ts, i + 1) {
            Err(e) => Err(e),
            Ok((cond, j)) => if stalled(ts, i, j) {
                Err(end_error(ts))
            } else {
                match syn_block(ts, j, Seq::empty(), K_END_WHILE, ParseErrorKind::EndWhileExpected) {
                    Err(e) => Err(e),
                    Ok((body, end, k)) => Ok(
                        (NodeV::While { cond: Box::new(cond), body, pos: span(ts[i].pos, end) }, k),
                    ),
                }
            },
        }
    }
}

/// `REPEAT` statements `UNTIL condition`.
#[verifier::opaque]
pub open spec fn syn_repeat(ts: Seq<TokenV>, i: int) -> Parsed
    decreases ts.len() - i, 0int,
{
    if !(0 <= i < ts.len()) {
        Err(end_error(ts))
    } else {
        match syn_block(ts, i + 1, Seq::empty(), K_UNTIL, ParseErrorKind::UntilExpected) {
            Err(e) => Err(e),
            Ok((body, _, j)) => match syn_expression(ts, j) {
                Err(e) => Err(e),
                Ok((cond, k)) => Ok(
                    (NodeV::Repeat { cond: Box::new(cond), body, pos: span(ts[i].pos, node_pos(cond)) }, k),
                ),
            },
        }
    }
}

/// The optional `STEP expression` of a `FOR` loop (`Null` when absent).
pub open spec fn syn_step(ts: Seq<TokenV>, j: int) -> Parsed {
    match tok_at(ts, j) {
        Err(e) => Err(e),
        Ok(t) => if t.t is Step {
            syn_expression(ts, j + 1)
        } else {
            Ok((NodeV::Null, j))
        },
    }
}

/// `FOR name <- start TO end [STEP step]` statements `NEXT [name]`.
#[verifier::opaque]
pub open spec fn syn_for(ts: Seq<TokenV>, i: int) -> Parsed
    decreases ts.len() - i, 0int,
{
    if !(0 <= i < ts.len()) {
        Err(end_error(ts))
    } else {
        match syn_expect(ts, i + 1, seq![K_IDENTIFIER], ParseErrorKind::ExpectIdentifier) {
            Err(e) => Err(e),
            Ok((it, j1)) => match syn_expect(ts, j1, seq![K_ASSIGNMENT], ParseErrorKind::ExpectArrow) {
                Err(e) => Err(e),
                Ok((_, j2)) => match syn_expression(ts, j2) {
                    Err(e) => Err(e),
                    Ok((start, j3)) => match syn_expect(ts, j3, seq![K_TO], ParseErrorKind::ExpectTo) {
                        Err(e) => Err(e),
                        Ok((_, j4)) => match syn_expression(ts, j4) {
                            Err(e) => Err(e),
                            Ok((end, j5)) => match syn_step(ts, j5) {
                                Err(e) => Err(e),
                                Ok((step, j6)) => if stalled(ts, i, j6) {
                                    Err(end_error(ts))
                                } else {
                                    match syn_block(ts, j6, Seq::empty(), K_NEXT, ParseErrorKind::NextExpected) {
                                        Err(e) => Err(e),
                                        Ok((body, _, j7)) => match tok_at(ts, j7) {
                                            Err(e) => Err(e),
                                            Ok(ident) => {
                                                let iter = NodeV::Var { name: ident_of(it), pos: it.pos };
                                                let range = NodeV::Range {
                                                    start: Box::new(start),
                                                    end: Box::new(end),
                                                    pos: span(node_pos(start), node_pos(end)),
                                                };
                                                let node = NodeV::For {
                                                    iter: Box::new(iter),
                                                    range: Box::new(range),
                                                    step: Box::new(step),
                                                    body,
                                                    pos: span(ts[i].pos, ident.pos),
                                                };
                                                match ident.t {
                                                    TTokenV::Identifier(name) => if name != ident_of(it) {
                                                        Err(
                                                            ParseError {
                                                                kind: ParseErrorKind::IdentifierMustMatch,
                                                                pos: ident.pos,
                                                                found: Some((i + 1) as usize),
                                                            },
                                                        )
                                                    } else {
                                                        Ok((node, j7 + 1))
                                                    },
                                                    _ => Ok((node, j7)),
                                                }
                                            },
                                        },
                                    }
                                },
                            },
                        },
                    },
                },
            },
        }
    }
}

/// The statements of an `IF` up to `ENDIF`, split at `ELSE`: the two bodies, the span of
/// `ENDIF` and the index after it.
pub open spec fn syn_if_body(
    ts: Seq<TokenV>,
    j: int,
    tb: Seq<NodeV>,
    fb: Seq<NodeV>,
    els: bool,
) -> Result<(Seq<NodeV>, Seq<NodeV>, Position, int), ParseError>
    decreases ts.len() - j, 2int,
{
    match tok_at(ts, j) {
        Err(e) => Err(e),
        Ok(t) => if t.t is EOF {
            Err(error_at(ParseErrorKind::EndIfExpected, t.pos))
        } else if t.t is EndIf {
            Ok((tb, fb, t.pos, j + 1))
        } else if t.t is Else {
            syn_if_body(ts, j + 1, tb, fb, true)
        } else {
            match syn_line(ts, j) {
                Err(e) => Err(e),
                Ok((n, k)) => if stalled(ts, j, k) {
                    Err(end_error(ts))
                } else if els {
                    syn_if_body(ts, k, tb, fb.push(n), els)
                } else {
                    syn_if_body(ts, k, tb.push(n), fb, els)
                },
            }
        },
    }
}

/// `IF condition THEN` statements [`ELSE` statements] `ENDIF`.
#[verifier::opaque]
pub open spec fn syn_if(ts: Seq<TokenV>, i: int) -> Parsed
    decreases ts.len() - i, 0int,
{
    if !(0 <= i < ts.len()) {
        Err(end_error(ts))
    } else {
        match syn_expression(ts, i + 1) {
            Err(e) => Err(e),
            Ok((cond, j)) => match syn_expect(ts, j, seq![K_THEN], ParseErrorKind::ExpectThen) {
                Err(e) => Err(e),
                Ok((_, k)) => if stalled(ts, i, k) {
                    Err(end_error(ts))
                } else {
                    match syn_if_body(ts, k, Seq::empty(), Seq::empty(), false) {
                        Err(e) => Err(e),
                        Ok((tb, fb, end, m)) => Ok(
                            (
                                NodeV::If {
                                    cond: Box::new(cond),
                                    true_body: tb,
                                    false_body: fb,
                                    pos: span(ts[i].pos, end),
                                },
                                m,
                            ),
                        ),
                    }
                },
            },
        }
    }
}

/// The statements of a `CASE` branch: up to the next literal, `OTHERWISE` or `ENDCASE`.
pub open spec fn syn_branch_body(ts: Seq<TokenV>, k: int, acc: Seq<NodeV>) -> ParsedList
    decreases ts.len() - k, 2int,
{
    match tok_at(ts, k) {
        Err(e) => Err(e),
        Ok(t) => if syn_literal(t) is Some || t.t is EndCase || t.t is Otherwise {
            Ok((acc, k))
        } else {
            match syn_line(ts, k) {
                Err(e) => Err(e),
                Ok((n, m)) => if stalled(ts, k, m) {
                    Err(end_error(ts))
                } else {
                    syn_branch_body(ts, m, acc.push(n))
                },
            }
        },
    }
}

/// The statements of an `OTHERWISE` branch, up to `ENDCASE` or `EOF`.
pub open spec fn syn_otherwise_body(ts: Seq<TokenV>, k: int, acc: Seq<NodeV>) -> ParsedList
    decreases ts.len() - k, 2int,
{
    match tok_at(ts, k) {
        Err(e) => Err(e),
        Ok(t) => if t.t is EndCase || t.t is EOF {
            Ok((acc, k))
        } else {
            match syn_line(ts, k) {
                Err(e) => Err(e),
                Ok((n, m)) => if stalled(ts, k, m) {
                    Err(end_error(ts))
                } else {
                    syn_otherwise_body(ts, m, acc.push(n))
                },
            }
        },
    }
}

/// `s` without its trailing empty statements.
pub open spec fn trim_nulls(s: Seq<NodeV>) -> Seq<NodeV>
    decreases s.len(),
{
    if s.len() > 0 && s.last() is Null {
        trim_nulls(s.drop_last())
    } else {
        s
    }
}

/// The label of a `CASE` branch: a literal, or a range `literal TO literal`.
pub open spec fn syn_case_label(ts: Seq<TokenV>, j: int) -> Parsed {
    match syn_parse_literal(ts, j) {
        Err(e) => Err(e),
        Ok((start, k)) => match tok_at(ts, k) {
            Err(e) => Err(e),
            Ok(tk) => if tk.t is To {
                match syn_parse_literal(ts, k + 1) {
                    Err(e) => Err(e),
                    Ok((end, m)) => Ok(
                        (
                            NodeV::Range {
                                start: Box::new(start),
                                end: Box::new(end),
                                pos: span(ts[j].pos, node_pos(end)),
                            },
                            m,
                        ),
                    ),
                }
            } else {
                Ok((start, k))
            },
        },
    }
}

/// One `CASE` branch: `label :` statements.
pub open spec fn syn_case_branch(ts: Seq<TokenV>, j: int) -> Parsed
    decreases ts.len() - j, 3int,
{
    match syn_case_label(ts, j) {
        Err(e) => Err(e),
        Ok((expr, m)) => match syn_expect(ts, m, seq![K_COLON], ParseErrorKind::ExpectColonQuoted) {
            Err(e) => Err(e),
            Ok((_, m2)) => if stalled(ts, j, m2) {
                Err(end_error(ts))
            } else {
                match syn_branch_body(ts, m2, Seq::empty()) {
                    Err(e) => Err(e),
                    Ok((children, m3)) => {
                        let trimmed = trim_nulls(children);
                        if trimmed.len() == 0 {
                            Err(error_at(ParseErrorKind::EmptyCaseBranch, ts[j].pos))
                        } else if !has_pos(trimmed.last()) {
                            Err(error_at(ParseErrorKind::CaseBranchWithoutSpan, ts[j].pos))
                        } else {
                            Ok(
                                (
                                    NodeV::Case {
                                        expr: Box::new(expr),
                                        children: trimmed,
                                        pos: span(ts[j].pos, node_pos(trimmed.last())),
                                    },
                                    m3,
                                ),
                            )
                        }
                    },
                }
            },
        },
    }
}

/// The branches of a `CASE` up to `ENDCASE` (consumed): the branches, the `OTHERWISE`
/// statements, the span of `ENDCASE` and the index after it.
pub open spec fn syn_case_loop(
    ts: Seq<TokenV>,
    j: int,
    cases: Seq<NodeV>,
    otherwise: Seq<NodeV>,
) -> Result<(Seq<NodeV>, Seq<NodeV>, Position, int), ParseError>
    decreases ts.len() - j, 4int,
{
    match tok_at(ts, j) {
        Err(e) => Err(e),
        Ok(t) => if t.t is EndCase {
            Ok((cases, otherwise, t.pos, j + 1))
        } else if t.t is EOF {
            Err(error_at(ParseErrorKind::EndCaseExpected, t.pos))
        } else if t.t is Otherwise {
            match syn_expect(ts, j + 1, seq![K_COLON], ParseErrorKind::ExpectColonQuoted) {
                Err(e) => Err(e),
                Ok((_, k)) => if stalled(ts, j, k) {
                    Err(end_error(ts))
                } else {
                    match syn_otherwise_body(ts, k, otherwise) {
                        Err(e) => Err(e),
                        Ok((ow, m)) => if stalled(ts, j, m) {
                            Err(end_error(ts))
                        } else {
                            syn_case_loop(ts, m, cases, ow)
                        },
                    }
                },
            }
        } else {
            match syn_case_branch(ts, j) {
                Err(e) => Err(e),
                Ok((c, m)) => if stalled(ts, j, m) {
                    Err(end_error(ts))
                } else {
                    syn_case_loop(ts, m, cases.push(c), otherwise)
                },
            }
        },
    }
}

/// `CASE OF variable` branches [`OTHERWISE :` statements] `ENDCASE`.
#[verifier::opaque]
pub open spec fn syn_case(ts: Seq<TokenV>, i: int) -> Parsed
    decreases ts.len() - i, 0int,
{
    if !(0 <= i < ts.len()) {
        Err(end_error(ts))
    } else {
        match syn_expect(ts, i + 1, seq![K_OF], ParseErrorKind::ExpectOf) {
            Err(e) => Err(e),
            Ok((_, j)) => match syn_identifier(ts, j) {
                Err(e) => Err(e),
                Ok((subject, k)) => match tok_at(ts, k) {
                    Err(e) => Err(e),
                    Ok(_) => if stalled(ts, i, k + 1) {
                        Err(end_error(ts))
                    } else {
                        match syn_case_loop(ts, k + 1, Seq::empty(), Seq::empty()) {
                            Err(e) => Err(e),
                            Ok((cases, otherwise, end, m)) => Ok(
                                (
                                    NodeV::Switch {
                                        subject: Box::new(subject),
                                        cases,
                                        otherwise,
                                        pos: span(ts[i].pos, end),
                                    },
                                    m,
                                ),
                            ),
                        }
                    },
                },
            },
        }
    }
}

// ----- routines, classes and the program -----

/// Parameter declarations after `(`, up to `)` (consumed).
pub open spec fn syn_params(ts: Seq<TokenV>, i: int, acc: Seq<NodeV>) -> ParsedList
    decreases ts.len() - i,
{
    match tok_at(ts, i) {
        Err(e) => Err(e),
        Ok(t) => if t.t is RParen {
            Ok((acc, i + 1))
        } else if t.t is Comma {
            syn_params(ts, i + 1, acc)
        } else {
            let (byref, from) = match t.t {
                TTokenV::PassBy(by) => (by == "BYREF"@, i + 1),
                _ => (false, i),
            };
            match syn_declaration(ts, from, byref, false) {
                Err(e) => Err(e),
                Ok((d, j)) => if stalled(ts, i, j) {
                    Err(end_error(ts))
                } else {
                    syn_params(ts, j, acc.push(d))
                },
            }
        },
    }
}

/// The name of a routine: an identifier, or `NEW` for a constructor (named `new`).
pub open spec fn routine_name(nt: TokenV) -> NodeV {
    match nt.t {
        TTokenV::Identifier(v) => NodeV::String { val: v, pos: nt.pos },
        _ => NodeV::String { val: "new"@, pos: nt.pos },
    }
}

/// The return type after `RETURNS`.
pub open spec fn syn_return_type(ts: Seq<TokenV>, j: int) -> Result<(TypeV, int), ParseError> {
    match syn_expect(ts, j, seq![K_VAR_TYPE, K_IDENTIFIER, K_ARRAY], ParseErrorKind::ExpectType) {
        Err(e) => Err(e),
        Ok((rt, k)) => match rt.t {
            TTokenV::VarType(v) => Ok((v, k)),
            TTokenV::Identifier(n) => Ok((TypeV::Custom(n), k)),
            _ => syn_array(ts, k),
        },
    }
}

/// `FUNCTION name(parameters) RETURNS type` statements `ENDFUNCTION`.
pub open spec fn syn_function(ts: Seq<TokenV>, i: int, private: bool) -> Parsed {
    if !(0 <= i < ts.len()) {
        Err(end_error(ts))
    } else {
        match syn_expect(ts, i + 1, seq![K_IDENTIFIER, K_NEW], ParseErrorKind::ExpectFunctionName) {
            Err(e) => Err(e),
            Ok((nt, j)) => match syn_expect(ts, j, seq![K_L_PAREN], ParseErrorKind::ExpectLeftParen) {
                Err(e) => Err(e),
                Ok((_, j2)) => match syn_params(ts, j2, Seq::empty()) {
                    Err(e) => Err(e),
                    Ok((params, j3)) => match syn_expect(ts, j3, seq![K_RETURN_TYPE], ParseErrorKind::ExpectReturns) {
                        Err(e) => Err(e),
                        Ok((_, j4)) => match syn_return_type(ts, j4) {
                            Err(e) => Err(e),
                            Ok((ty, j6)) => match syn_block(ts, j6, Seq::empty(), K_END_FUNCTION, ParseErrorKind::EndFunctionExpected) {
                                Err(e) => Err(e),
                                Ok((body, end, j7)) => Ok(
                                    (
                                        NodeV::Function {
                                            name: Box::new(routine_name(nt)),
                                            private,
                                            params,
                                            return_type: ty,
                                            children: body,
                                            pos: span(ts[i].pos, end),
                                        },
                                        j7,
                                    ),
                                ),
                            },
                        },
                    },
                },
            },
        }
    }
}

/// `PROCEDURE name(parameters)` (or `PROCEDURE name` without parameters) statements
/// `ENDPROCEDURE`.
pub open spec fn syn_procedure(ts: Seq<TokenV>, i: int, private: bool) -> Parsed {
    if !(0 <= i < ts.len()) {
        Err(end_error(ts))
    } else {
        match syn_expect(ts, i + 1, seq![K_IDENTIFIER, K_NEW], ParseErrorKind::ExpectProcedureName) {
            Err(e) => Err(e),
            Ok((nt, j)) => match syn_proc_params(ts, j) {
                Err(e) => Err(e),
                Ok((params, j3)) => match syn_block(ts, j3, Seq::empty(), K_END_PROCEDURE, ParseErrorKind::EndProcedureExpected) {
                    Err(e) => Err(e),
                    Ok((body, end, j7)) => Ok(
                        (
                            NodeV::Procedure {
                                name: Box::new(routine_name(nt)),
                                private,
                                params,
                                children: body,
                                pos: span(ts[i].pos, end),
                            },
                            j7,
                        ),
                    ),
                },
            },
        }
    }
}

/// The parameter list of a procedure: `(parameters)`, or nothing for a procedure without
/// parameters.
pub open spec fn syn_proc_params(ts: Seq<TokenV>, j: int) -> ParsedList {
    match tok_at(ts, j) {
        Err(e) => Err(e),
        Ok(t) => if t.t is LParen {
            syn_params(ts, j + 1, Seq::empty())
        } else {
            Ok((Seq::empty(), j))
        },
    }
}

/// One member of a class after `PRIVATE` or `PUBLIC` at `k`.
pub open spec fn syn_member(ts: Seq<TokenV>, k: int, private: bool) -> Parsed {
    match tok_at(ts, k + 1) {
        Ok(t2) => if t2.t is Procedure {
            syn_procedure(ts, k + 1, private)
        } else if t2.t is Function {
            syn_function(ts, k + 1, private)
        } else {
            syn_declaration(ts, k + 1, false, private)
        },
        Err(_) => syn_declaration(ts, k + 1, false, private),
    }
}

/// The members of a class up to `ENDCLASS` (consumed).
pub open spec fn syn_class_members(ts: Seq<TokenV>, k: int, acc: Seq<NodeV>) -> Result<
    (Seq<NodeV>, Position, int),
    ParseError,
>
    decreases ts.len() - k,
{
    match tok_at(ts, k) {
        Err(e) => Err(e),
        Ok(t) => if t.t is EOF {
            Err(error_at(ParseErrorKind::EndClassExpected, t.pos))
        } else if t.t is EndClass {
            Ok((acc, t.pos, k + 1))
        } else {
            let m = if t.t is Private || t.t is Public {
                syn_member(ts, k, t.t is Private)
            } else {
                syn_line(ts, k)
            };
            match m {
                Err(e) => Err(e),
                Ok((n, j)) => if stalled(ts, k, j) {
                    Err(end_error(ts))
                } else {
                    syn_class_members(ts, j, acc.push(n))
                },
            }
        },
    }
}

/// `CLASS name [INHERITS base]` members `ENDCLASS`.
pub open spec fn syn_class(ts: Seq<TokenV>, i: int) -> Parsed {
    if !(0 <= i < ts.len()) {
        Err(end_error(ts))
    } else {
        match syn_expect(ts, i + 1, seq![K_IDENTIFIER], ParseErrorKind::ExpectIdentifier) {
            Err(e) => Err(e),
            Ok((nt, j)) => {
                let base_res: Parsed = match tok_at(ts, j) {
                    Ok(t) => if t.t is Inherits {
                        match syn_expect(ts, j + 1, seq![K_IDENTIFIER], ParseErrorKind::ExpectIdentifier) {
                            Err(e) => Err(e),
                            Ok((bt, k)) => Ok((NodeV::String { val: ident_of(bt), pos: bt.pos }, k)),
                        }
                    } else {
                        Ok((NodeV::Null, j))
                    },
                    Err(_) => Ok((NodeV::Null, j)),
                };
                match base_res {
                    Err(e) => Err(e),
                    Ok((base, k)) => match syn_class_members(ts, k, Seq::empty()) {
                        Err(e) => Err(e),
                        Ok((children, end, m)) => Ok(
                            (
                                NodeV::Class {
                                    name: Box::new(NodeV::String { val: ident_of(nt), pos: nt.pos }),
                                    base: Box::new(base),
                                    children,
                                    pos: span(ts[i].pos, end),
                                },
                                m,
                            ),
                        ),
                    },
                }
            },
        }
    }
}

/// One top-level item: a procedure, function, class or statement.
pub open spec fn syn_item(ts: Seq<TokenV>, i: int) -> Parsed {
    match tok_at(ts, i) {
        Err(e) => Err(e),
        Ok(t) => if t.t is Procedure {
            syn_procedure(ts, i, false)
        } else if t.t is Function {
            syn_function(ts, i, false)
        } else if t.t is Class {
            syn_class(ts, i)
        } else {
            syn_line(ts, i)
        },
    }
}

/// Top-level items up to the end of the tokens.
pub open spec fn syn_items(ts: Seq<TokenV>, i: int, acc: Seq<NodeV>) -> Result<Seq<NodeV>, ParseError>
    decreases ts.len() - i,
{
    if !(0 <= i < ts.len()) {
        Ok(acc)
    } else {
        match syn_item(ts, i) {
            Err(e) => Err(e),
            Ok((n, j)) => if stalled(ts, i, j) {
                Err(end_error(ts))
            } else {
                syn_items(ts, j, acc.push(n))
            },
        }
    }
}

/// The program: one `Main` node holding the top-level items.
pub open spec fn syn_program(ts: Seq<TokenV>) -> Result<NodeV, ParseError> {
    match syn_items(ts, 0, Seq::empty()) {
        Err(e) => Err(e),
        Ok(items) => Ok(NodeV::Main { children: items }),
    }
}

} // verus!
