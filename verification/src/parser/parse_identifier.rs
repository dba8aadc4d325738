use crate::ast::{has_pos, node_views, Node};
use crate::parser::grammar::{syn_expr_list, syn_ident_chain, syn_ident_part, syn_identifier};
use crate::parser::parse_expr::parse_expression;
use crate::parser::{parsed_as, parsed_list_as, Lexer, ParseError, ParseErrorKind};
use crate::position::Position;
use crate::tokens::{token_kind, TToken, K_R_PAREN, K_R_SQR_BRACKET};
use vstd::prelude::*;

verus! {

/// Comma-separated expressions, appended to `acc`, up to a token of kind `close`, which is
/// left in place.
fn parse_expr_list(lexer: &mut Lexer, acc: Vec<Box<Node>>, close: u8) -> (r: Result<
    Vec<Box<Node>>,
    ParseError,
>)
    requires
        old(lexer).pos <= old(lexer).tokens.len(),
        forall|k: int| 0 <= k < acc.len() ==> has_pos(#[trigger] node_views(acc@)[k]),
    ensures
        parsed_list_as(
            *old(lexer),
            *final(lexer),
            r,
            syn_expr_list(old(lexer).ts(), old(lexer).pos as int, node_views(acc@), close),
        ),
        r matches Ok(x) ==> forall|k: int|
            0 <= k < x.len() ==> has_pos(#[trigger] node_views(x@)[k]),
    decreases old(lexer).tokens.len() - old(lexer).pos, 18int,
{
    let start = lexer.pos;
    let e = match parse_expression(lexer) {
        Ok(x) => x,
        Err(e) => return Err(e),
    };
    let mut acc = acc;
    let ghost old_acc = acc@;
    acc.push(e);
    proof {
        assert(acc@ =~= old_acc.push(acc@.last()));
        crate::ast::lemma_node_views_push(old_acc, acc@.last());
        crate::ast::lemma_node_views(acc@);
        crate::ast::lemma_node_views(old_acc);
        assert forall|k: int| 0 <= k < acc.len() implies has_pos(#[trigger] node_views(acc@)[k]) by {
            if k < acc.len() - 1 {
                assert(node_views(acc@)[k] == node_views(old_acc)[k]);
            }
        }
    }
    let t = match lexer.peek() {
        Ok(t) => token_kind(&t.t),
        Err(e) => return Err(e),
    };
    if t == close {
        Ok(acc)
    } else if t == crate::tokens::K_COMMA {
        lexer.pos = lexer.pos + 1;
        parse_expr_list(lexer, acc, close)
    } else {
        Err(
            ParseError {
                kind: ParseErrorKind::ExpectedComma,
                pos: lexer.tokens[lexer.pos].pos,
                found: None,
            },
        )
    }
}

/// One name, possibly indexed or called.
#[verifier::rlimit(80)]
fn parse_ident_part(lexer: &mut Lexer) -> (r: Result<Box<Node>, ParseError>)
    requires
        old(lexer).pos <= old(lexer).tokens.len(),
    ensures
        parsed_as(*old(lexer), *final(lexer), r, syn_ident_part(old(lexer).ts(), old(lexer).pos as int)),
        r matches Ok(x) ==> has_pos(x@) && final(lexer).pos > old(lexer).pos,
    decreases old(lexer).tokens.len() - old(lexer).pos, 12int,
{
    let ident = match lexer.peek() {
        Ok(t) => t.clone(),
        Err(e) => return Err(e),
    };
    let name = match ident.t {
        TToken::Identifier(name) => name,
        _ => {
            return Err(
                ParseError { kind: ParseErrorKind::ExpectedIdentifier, pos: ident.pos, found: None },
            )
        },
    };
    lexer.pos = lexer.pos + 1;
    let next_kind = match lexer.peek() {
        Ok(t) => token_kind(&t.t),
        Err(e) => return Err(e),
    };
    if next_kind == crate::tokens::K_L_SQR_BRACKET {
        lexer.pos = lexer.pos + 1;
        let indices = match parse_expr_list(lexer, Vec::new(), K_R_SQR_BRACKET) {
            Ok(x) => x,
            Err(e) => return Err(e),
        };
        let end = match lexer.next_token() {
            Ok(t) => t,
            Err(e) => return Err(e),
        };
        let pos = Position::range(ident.pos, end.pos);
        Ok(Box::new(Node::ArrayVar { name, indices, pos }))
    } else if next_kind == crate::tokens::K_L_PAREN {
        lexer.pos = lexer.pos + 1;
        let is_close = match lexer.peek() {
            Ok(t) => match t.t {
                TToken::RParen => true,
                _ => false,
            },
            Err(e) => return Err(e),
        };
        if is_close {
            let end = lexer.tokens[lexer.pos].pos;
            lexer.pos = lexer.pos + 1;
            let pos = Position::range(ident.pos, end);
            let params: Vec<Box<Node>> = Vec::new();
            proof {
                assert(node_views(params@) =~= Seq::<crate::ast::NodeV>::empty());
            }
            return Ok(Box::new(Node::FunctionCall { name, params, pos }));
        }
        let params = match parse_expr_list(lexer, Vec::new(), K_R_PAREN) {
            Ok(x) => x,
            Err(e) => return Err(e),
        };
        let end = match lexer.next_token() {
            Ok(t) => t,
            Err(e) => return Err(e),
        };
        let pos = Position::range(ident.pos, end.pos);
        Ok(Box::new(Node::FunctionCall { name, params, pos }))
    } else {
        Ok(Box::new(Node::Var { name, pos: ident.pos }))
    }
}

/// Parts separated by `.`, appended to `acc`.
fn parse_ident_chain(lexer: &mut Lexer, acc: Vec<Box<Node>>) -> (r: Result<
    Vec<Box<Node>>,
    ParseError,
>)
    requires
        old(lexer).pos <= old(lexer).tokens.len(),
        forall|k: int| 0 <= k < acc.len() ==> has_pos(#[trigger] node_views(acc@)[k]),
    ensures
        parsed_list_as(
            *old(lexer),
            *final(lexer),
            r,
            syn_ident_chain(old(lexer).ts(), old(lexer).pos as int, node_views(acc@)),
        ),
        r matches Ok(x) ==> x.len() > acc.len() && final(lexer).pos > old(lexer).pos && forall|k: int|
            0 <= k < x.len() ==> has_pos(#[trigger] node_views(x@)[k]),
    decreases old(lexer).tokens.len() - old(lexer).pos, 13int,
{
    let part = match parse_ident_part(lexer) {
        Ok(x) => x,
        Err(e) => return Err(e),
    };
    let mut acc = acc;
    let ghost old_acc = acc@;
    acc.push(part);
    proof {
        assert(acc@ =~= old_acc.push(acc@.last()));
        crate::ast::lemma_node_views_push(old_acc, acc@.last());
        crate::ast::lemma_node_views(acc@);
        crate::ast::lemma_node_views(old_acc);
        assert forall|k: int| 0 <= k < acc.len() implies has_pos(#[trigger] node_views(acc@)[k]) by {
            if k < acc.len() - 1 {
                assert(node_views(acc@)[k] == node_views(old_acc)[k]);
            }
        }
    }
    let is_period = match lexer.peek() {
        Ok(t) => match t.t {
            TToken::Period => true,
            _ => false,
        },
        Err(e) => return Err(e),
    };
    if is_period {
        lexer.pos = lexer.pos + 1;
        parse_ident_chain(lexer, acc)
    } else {
        Ok(acc)
    }
}

/// A variable, array element or call, or a `.`-separated chain of them (a composite).
pub fn parse_identifier(lexer: &mut Lexer) -> (r: Result<Box<Node>, ParseError>)
    requires
        old(lexer).pos <= old(lexer).tokens.len(),
    ensures
        parsed_as(*old(lexer), *final(lexer), r, syn_identifier(old(lexer).ts(), old(lexer).pos as int)),
        r matches Ok(x) ==> has_pos(x@) && final(lexer).pos > old(lexer).pos,
    decreases old(lexer).tokens.len() - old(lexer).pos, 14int,
{
    let mut children = match parse_ident_chain(lexer, Vec::new()) {
        Ok(x) => x,
        Err(e) => return Err(e),
    };
    proof {
        assert(node_views(Seq::<Box<Node>>::empty()) =~= Seq::<crate::ast::NodeV>::empty());
        crate::ast::lemma_node_views(children@);
    }
    if children.len() > 1 {
        let first = children[0].pos();
        let last = children[children.len() - 1].pos();
        let pos = Position::range(first, last);
        Ok(Box::new(Node::Composite { children, pos }))
    } else {
        Ok(children.pop().unwrap())
    }
}

} // verus!
