use crate::ast::{node_views, Node, NodeV};
use crate::parser::grammar::{routine_name, syn_function, syn_params, syn_procedure, syn_return_type};
use crate::parser::parse_declare::{parse_array, parse_declaration};
use crate::parser::parse_stmt::parse_block;
use crate::parser::{expect_token, parsed_as, parsed_list_as, Lexer, ParseError, ParseErrorKind};
use crate::position::Position;
use crate::text::str_eq;
use crate::tokens::{
    token_kind, TToken, Token, K_ARRAY, K_COMMA, K_END_FUNCTION, K_END_PROCEDURE, K_IDENTIFIER, K_L_PAREN,
    K_NEW, K_RETURN_TYPE, K_R_PAREN, K_VAR_TYPE,
};
use crate::types::VariableType;
use vstd::prelude::*;

verus! {

/// Parameter declarations after `(`, appended to `acc`, up to `)` (consumed). A parameter
/// may be preceded by `BYVAL` or `BYREF`.
fn parse_params(lexer: &mut Lexer, acc: Vec<Box<Node>>) -> (r: Result<Vec<Box<Node>>, ParseError>)
    requires
        old(lexer).pos <= old(lexer).tokens.len(),
    ensures
        parsed_list_as(*old(lexer), *final(lexer), r, syn_params(old(lexer).ts(), old(lexer).pos as int, node_views(acc@))),
    decreases old(lexer).tokens.len() - old(lexer).pos,
{
    let token = match lexer.peek() {
        Ok(t) => t.clone(),
        Err(e) => return Err(e),
    };
    let kind = token_kind(&token.t);
    if kind == K_R_PAREN {
        lexer.pos = lexer.pos + 1;
        return Ok(acc);
    }
    if kind == K_COMMA {
        lexer.pos = lexer.pos + 1;
        return parse_params(lexer, acc);
    }
    let start = lexer.pos;
    let byref = match &token.t {
        TToken::PassBy(by) => {
            lexer.pos = lexer.pos + 1;
            str_eq(by.as_str(), "BYREF")
        },
        _ => false,
    };
    let d = match parse_declaration(lexer, byref, false) {
        Ok(x) => x,
        Err(e) => return Err(e),
    };
    if lexer.pos <= start || lexer.pos > lexer.tokens.len() {
        return Err(lexer.end_error());
    }
    let mut acc = acc;
    proof {
        crate::ast::lemma_node_views_push(acc@, d);
    }
    acc.push(d);
    parse_params(lexer, acc)
}

/// The name node of a routine: an identifier, or `new` for a constructor.
fn routine_name_node(nt: &Token) -> (n: Node)
    ensures
        n@ == routine_name(nt@),
{
    match &nt.t {
        TToken::Identifier(v) => Node::String { val: v.clone(), pos: nt.pos },
        _ => Node::String { val: String::from_str("new"), pos: nt.pos },
    }
}

/// The return type after `RETURNS`.
fn parse_return_type(lexer: &mut Lexer) -> (r: Result<Box<VariableType>, ParseError>)
    requires
        old(lexer).pos <= old(lexer).tokens.len(),
    ensures
        final(lexer).tokens == old(lexer).tokens,
        match syn_return_type(old(lexer).ts(), old(lexer).pos as int) {
            Ok((t, j)) => r matches Ok(x) && (*x)@ == t && final(lexer).pos == j && old(lexer).pos
                <= j <= old(lexer).tokens.len(),
            Err(e) => r == Err::<Box<VariableType>, ParseError>(e),
        },
{
    let k = vec![K_VAR_TYPE, K_IDENTIFIER, K_ARRAY];
    proof {
        assert(k@ =~= seq![K_VAR_TYPE, K_IDENTIFIER, K_ARRAY]);
    }
    let rt = match expect_token(lexer, &k, ParseErrorKind::ExpectType) {
        Ok(t) => t,
        Err(e) => return Err(e),
    };
    match rt.t {
        TToken::VarType(v) => Ok(Box::new(v)),
        TToken::Identifier(n) => Ok(Box::new(VariableType::Custom(n))),
        _ => parse_array(lexer),
    }
}

/// `FUNCTION name(parameters) RETURNS type` statements `ENDFUNCTION`; `private` marks a
/// private class member.
pub fn parse_function(lexer: &mut Lexer, private: bool) -> (r: Result<Box<Node>, ParseError>)
    requires
        old(lexer).pos <= old(lexer).tokens.len(),
    ensures
        parsed_as(*old(lexer), *final(lexer), r, syn_function(old(lexer).ts(), old(lexer).pos as int, private)),
{
    let token = match lexer.next_token() {
        Ok(t) => t,
        Err(e) => return Err(e),
    };
    let kn = vec![K_IDENTIFIER, K_NEW];
    let kl = vec![K_L_PAREN];
    let kr = vec![K_RETURN_TYPE];
    proof {
        assert(kn@ =~= seq![K_IDENTIFIER, K_NEW]);
        assert(kl@ =~= seq![K_L_PAREN]);
        assert(kr@ =~= seq![K_RETURN_TYPE]);
    }
    let nt = match expect_token(lexer, &kn, ParseErrorKind::ExpectFunctionName) {
        Ok(t) => t,
        Err(e) => return Err(e),
    };
    match expect_token(lexer, &kl, ParseErrorKind::ExpectLeftParen) {
        Ok(_) => {},
        Err(e) => return Err(e),
    }
    let none: Vec<Box<Node>> = Vec::new();
    proof {
        assert(node_views(none@) =~= Seq::<NodeV>::empty());
    }
    let params = match parse_params(lexer, none) {
        Ok(x) => x,
        Err(e) => return Err(e),
    };
    match expect_token(lexer, &kr, ParseErrorKind::ExpectReturns) {
        Ok(_) => {},
        Err(e) => return Err(e),
    }
    let return_type = match parse_return_type(lexer) {
        Ok(x) => x,
        Err(e) => return Err(e),
    };
    let body_start: Vec<Box<Node>> = Vec::new();
    proof {
        assert(node_views(body_start@) =~= Seq::<NodeV>::empty());
    }
    let (children, end) = match parse_block(lexer, body_start, K_END_FUNCTION, ParseErrorKind::EndFunctionExpected) {
        Ok(x) => x,
        Err(e) => return Err(e),
    };
    let name = routine_name_node(&nt);
    let pos = Position::range(token.pos, end);
    Ok(Box::new(Node::Function { name: Box::new(name), private, params, return_type, children, pos }))
}

/// `PROCEDURE name(parameters)`, or `PROCEDURE name` without parameters, then statements
/// `ENDPROCEDURE`; `private` marks a private class member.
pub fn parse_procedure(lexer: &mut Lexer, private: bool) -> (r: Result<Box<Node>, ParseError>)
    requires
        old(lexer).pos <= old(lexer).tokens.len(),
    ensures
        parsed_as(*old(lexer), *final(lexer), r, syn_procedure(old(lexer).ts(), old(lexer).pos as int, private)),
{
    let token = match lexer.next_token() {
        Ok(t) => t,
        Err(e) => return Err(e),
    };
    let kn = vec![K_IDENTIFIER, K_NEW];
    proof {
        assert(kn@ =~= seq![K_IDENTIFIER, K_NEW]);
    }
    let nt = match expect_token(lexer, &kn, ParseErrorKind::ExpectProcedureName) {
        Ok(t) => t,
        Err(e) => return Err(e),
    };
    let opens = match lexer.peek() {
        Ok(t) => token_kind(&t.t) == K_L_PAREN,
        Err(e) => return Err(e),
    };
    let none: Vec<Box<Node>> = Vec::new();
    proof {
        assert(node_views(none@) =~= Seq::<NodeV>::empty());
    }
    let params = if opens {
        lexer.pos = lexer.pos + 1;
        match parse_params(lexer, none) {
            Ok(x) => x,
            Err(e) => return Err(e),
        }
    } else {
        none
    };
    let body_start: Vec<Box<Node>> = Vec::new();
    proof {
        assert(node_views(body_start@) =~= Seq::<NodeV>::empty());
    }
    let (children, end) = match parse_block(lexer, body_start, K_END_PROCEDURE, ParseErrorKind::EndProcedureExpected) {
        Ok(x) => x,
        Err(e) => return Err(e),
    };
    let name = routine_name_node(&nt);
    let pos = Position::range(token.pos, end);
    Ok(Box::new(Node::Procedure { name: Box::new(name), private, params, children, pos }))
}

} // verus!
