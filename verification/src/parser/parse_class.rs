use crate::ast::{node_views, Node, NodeV};
use crate::parser::grammar::{ident_of, syn_class, syn_class_members, syn_member};
use crate::parser::parse_declare::parse_declaration;
use crate::parser::parse_func::{parse_function, parse_procedure};
use crate::parser::parse_stmt::parse_line;
use crate::parser::{expect_token, parsed_as, Lexer, ParseError, ParseErrorKind};
use crate::position::Position;
use crate::tokens::{token_kind, TToken, K_END_CLASS, K_EOF, K_FUNCTION, K_IDENTIFIER, K_INHERITS, K_PRIVATE, K_PROCEDURE, K_PUBLIC};
use vstd::prelude::*;

verus! {

/// One member of a class after the `PRIVATE` or `PUBLIC` at the current token: a procedure,
/// a function or a declaration.
fn parse_member(lexer: &mut Lexer, private: bool) -> (r: Result<Box<Node>, ParseError>)
    requires
        old(lexer).pos < old(lexer).tokens.len(),
    ensures
        parsed_as(*old(lexer), *final(lexer), r, syn_member(old(lexer).ts(), old(lexer).pos as int, private)),
{
    lexer.pos = lexer.pos + 1;
    let kind = match lexer.peek() {
        Ok(t) => token_kind(&t.t),
        Err(_) => K_EOF,
    };
    if kind == K_PROCEDURE {
        parse_procedure(lexer, private)
    } else if kind == K_FUNCTION {
        parse_function(lexer, private)
    } else {
        parse_declaration(lexer, false, private)
    }
}

/// The members of a class appended to `acc`, up to `ENDCLASS` (consumed); also the span
/// of `ENDCLASS`.
fn parse_class_members(lexer: &mut Lexer, acc: Vec<Box<Node>>) -> (r: Result<
    (Vec<Box<Node>>, Position),
    ParseError,
>)
    requires
        old(lexer).pos <= old(lexer).tokens.len(),
    ensures
        final(lexer).tokens == old(lexer).tokens,
        match syn_class_members(old(lexer).ts(), old(lexer).pos as int, node_views(acc@)) {
            Ok((ms, p, j)) => r matches Ok((a, b)) && node_views(a@) == ms && b == p
                && final(lexer).pos == j && old(lexer).pos <= j <= old(lexer).tokens.len(),
            Err(e) => r matches Err(x) && x == e,
        },
    decreases old(lexer).tokens.len() - old(lexer).pos,
{
    let (kind, tpos) = match lexer.peek() {
        Ok(t) => (token_kind(&t.t), t.pos),
        Err(e) => return Err(e),
    };
    if kind == K_EOF {
        return Err(ParseError { kind: ParseErrorKind::EndClassExpected, pos: tpos, found: None });
    }
    if kind == K_END_CLASS {
        lexer.pos = lexer.pos + 1;
        return Ok((acc, tpos));
    }
    let start = lexer.pos;
    let m = if kind == K_PRIVATE || kind == K_PUBLIC {
        parse_member(lexer, kind == K_PRIVATE)
    } else {
        parse_line(lexer)
    };
    let n = match m {
        Ok(x) => x,
        Err(e) => return Err(e),
    };
    if lexer.pos <= start || lexer.pos > lexer.tokens.len() {
        return Err(lexer.end_error());
    }
    let mut acc = acc;
    proof {
        crate::ast::lemma_node_views_push(acc@, n);
    }
    acc.push(n);
    parse_class_members(lexer, acc)
}

/// `CLASS name [INHERITS base]` members `ENDCLASS`.
pub fn parse_class(lexer: &mut Lexer) -> (r: Result<Box<Node>, ParseError>)
    requires
        old(lexer).pos <= old(lexer).tokens.len(),
    ensures
        parsed_as(*old(lexer), *final(lexer), r, syn_class(old(lexer).ts(), old(lexer).pos as int)),
{
    let token = match lexer.next_token() {
        Ok(t) => t,
        Err(e) => return Err(e),
    };
    let kid = vec![K_IDENTIFIER];
    proof {
        assert(kid@ =~= seq![K_IDENTIFIER]);
    }
    let nt = match expect_token(lexer, &kid, ParseErrorKind::ExpectIdentifier) {
        Ok(t) => t,
        Err(e) => return Err(e),
    };
    let inherits = match lexer.peek() {
        Ok(t) => token_kind(&t.t) == K_INHERITS,
        Err(_) => false,
    };
    let base = if inherits {
        lexer.pos = lexer.pos + 1;
        let bt = match expect_token(lexer, &kid, ParseErrorKind::ExpectIdentifier) {
            Ok(t) => t,
            Err(e) => return Err(e),
        };
        let bname = match &bt.t {
            TToken::Identifier(v) => v.clone(),
            _ => String::new(),
        };
        let b = Node::String { val: bname, pos: bt.pos };
        proof {
            assert(b@ == NodeV::String { val: ident_of(bt@), pos: bt@.pos });
        }
        b
    } else {
        let b = Node::Null;
        proof {
            assert(b@ == NodeV::Null);
        }
        b
    };
    let none: Vec<Box<Node>> = Vec::new();
    proof {
        assert(node_views(none@) =~= Seq::<NodeV>::empty());
    }
    let (children, end) = match parse_class_members(lexer, none) {
        Ok(x) => x,
        Err(e) => return Err(e),
    };
    let name_text = match &nt.t {
        TToken::Identifier(v) => v.clone(),
        _ => String::new(),
    };
    let name = Node::String { val: name_text, pos: nt.pos };
    proof {
        assert(name@ == NodeV::String { val: ident_of(nt@), pos: nt@.pos });
    }
    let pos = Position::range(token.pos, end);
    Ok(Box::new(Node::Class { name: Box::new(name), base: Box::new(base), children, pos }))
}

} // verus!
