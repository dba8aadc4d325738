use crate::ast::{has_pos, node_pos, node_views, Node, NodeV};
use crate::parser::grammar::{
    error_at, span, stalled, syn_block, syn_call, syn_line, syn_return, syn_try_assign, tok_at,
};
use crate::parser::parse_declare::{parse_constant, parse_declare, parse_user_defined_data};
use crate::parser::parse_expr::parse_expression;
use crate::parser::parse_identifier::parse_identifier;
use crate::parser::parse_io::{
    parse_close_file, parse_get_record, parse_input, parse_open_file, parse_output, parse_put_record,
    parse_read_file, parse_seek_file, parse_write_file,
};
use crate::parser::parse_loop::{parse_for, parse_repeat, parse_while};
use crate::parser::parse_selection::{parse_case, parse_if};
use crate::parser::{parsed_as, Lexer, ParseError, ParseErrorKind};
use crate::position::Position;
use crate::tokens::{kind_of, token_kind, TToken, TTokenV};
use vstd::prelude::*;

verus! {

/// `RETURN expression`.
pub fn parse_return(lexer: &mut Lexer) -> (r: Result<Box<Node>, ParseError>)
    requires
        old(lexer).pos <= old(lexer).tokens.len(),
    ensures
        r is Ok ==> final(lexer).pos > old(lexer).pos,
        parsed_as(*old(lexer), *final(lexer), r, syn_return(old(lexer).ts(), old(lexer).pos as int)),
{
    proof {
        reveal(syn_return);
    }
    let token = match lexer.next_token() {
        Ok(t) => t,
        Err(e) => return Err(e),
    };
    let expr = match parse_expression(lexer) {
        Ok(x) => x,
        Err(e) => return Err(e),
    };
    let pos = Position::range(token.pos, expr.pos());
    Ok(Box::new(Node::Return { expr, pos }))
}

/// `CALL name(arguments)`, or `CALL name` for a call without arguments.
pub fn parse_call(lexer: &mut Lexer) -> (r: Result<Box<Node>, ParseError>)
    requires
        old(lexer).pos < old(lexer).tokens.len(),
    ensures
        r is Ok ==> final(lexer).pos > old(lexer).pos,
        parsed_as(*old(lexer), *final(lexer), r, syn_call(old(lexer).ts(), old(lexer).pos as int)),
{
    proof {
        reveal(syn_call);
    }
    lexer.pos = lexer.pos + 1;
    let call = match parse_identifier(lexer) {
        Ok(x) => x,
        Err(e) => return Err(e),
    };
    match *call {
        Node::FunctionCall { name, params, pos } => Ok(Box::new(Node::FunctionCall { name, params, pos })),
        Node::Var { name, pos } => {
            let params: Vec<Box<Node>> = Vec::new();
            proof {
                assert(node_views(params@) =~= Seq::<NodeV>::empty());
            }
            Ok(Box::new(Node::FunctionCall { name, params, pos }))
        },
        _ => match lexer.peek() {
            Ok(t) => Err(error_at_exec(ParseErrorKind::ProcedureExpected, t.pos)),
            Err(e) => Err(e),
        },
    }
}

fn error_at_exec(kind: ParseErrorKind, pos: Position) -> (e: ParseError)
    ensures
        e == error_at(kind, pos),
{
    ParseError { kind, pos, found: None }
}

/// After an expression statement: `<- expression` makes an assignment; otherwise the
/// token after the expression is passed over.
fn try_parse_assign(lexer: &mut Lexer, lhs: Box<Node>) -> (r: Result<Box<Node>, ParseError>)
    requires
        old(lexer).pos <= old(lexer).tokens.len(),
        has_pos(lhs@),
    ensures
        r is Ok ==> final(lexer).pos > old(lexer).pos,
        parsed_as(*old(lexer), *final(lexer), r, syn_try_assign(old(lexer).ts(), lhs@, old(lexer).pos as int)),
{
    proof {
        reveal(syn_try_assign);
    }
    let is_assign = match lexer.peek() {
        Ok(t) => token_kind(&t.t) == crate::tokens::K_ASSIGNMENT,
        Err(e) => return Err(e),
    };
    lexer.pos = lexer.pos + 1;
    if is_assign {
        let rhs = match parse_expression(lexer) {
            Ok(x) => x,
            Err(e) => return Err(e),
        };
        let pos = Position::range(lhs.pos(), rhs.pos());
        Ok(Box::new(Node::Assignment { lhs, rhs, pos }))
    } else {
        Ok(lhs)
    }
}

/// Whether a token starts a file or console statement.
pub open spec fn io_keyword(t: TTokenV) -> bool {
    ||| t is Input
    ||| t is Output
    ||| t is OpenFile
    ||| t is CloseFile
    ||| t is ReadFile
    ||| t is WriteFile
    ||| t is Seek
    ||| t is GetRecord
    ||| t is PutRecord
}

/// Whether a token starts a loop or a selection.
pub open spec fn block_keyword(t: TTokenV) -> bool {
    t is While || t is For || t is Repeat || t is If || t is Case
}

/// One statement. Every statement read consumes at least one token, so a sequence of
/// statements is read to its end.
pub fn parse_line(lexer: &mut Lexer) -> (r: Result<Box<Node>, ParseError>)
    requires
        old(lexer).pos <= old(lexer).tokens.len(),
    ensures
        r is Ok ==> final(lexer).pos > old(lexer).pos,
        parsed_as(*old(lexer), *final(lexer), r, syn_line(old(lexer).ts(), old(lexer).pos as int)),
    decreases old(lexer).tokens.len() - old(lexer).pos, 1int,
{
    let token = match lexer.peek() {
        Ok(t) => t.clone(),
        Err(e) => return Err(e),
    };
    match token.t {
        TToken::While => parse_while(lexer),
        TToken::For => parse_for(lexer),
        TToken::Repeat => parse_repeat(lexer),
        TToken::If => parse_if(lexer),
        TToken::Case => parse_case(lexer),
        TToken::Input | TToken::Output | TToken::OpenFile | TToken::CloseFile | TToken::ReadFile
        | TToken::WriteFile | TToken::Seek | TToken::GetRecord | TToken::PutRecord => parse_io_line(lexer),
        _ => parse_simple_line(lexer),
    }
}

/// A file or console statement.
fn parse_io_line(lexer: &mut Lexer) -> (r: Result<Box<Node>, ParseError>)
    requires
        old(lexer).pos < old(lexer).tokens.len(),
        io_keyword(old(lexer).ts()[old(lexer).pos as int].t),
    ensures
        r is Ok ==> final(lexer).pos > old(lexer).pos,
        parsed_as(*old(lexer), *final(lexer), r, syn_line(old(lexer).ts(), old(lexer).pos as int)),
{
    let token = lexer.tokens[lexer.pos].clone();
    match token.t {
        TToken::Input => parse_input(lexer),
        TToken::Output => parse_output(lexer),
        TToken::OpenFile => parse_open_file(lexer),
        TToken::CloseFile => parse_close_file(lexer),
        TToken::ReadFile => parse_read_file(lexer),
        TToken::WriteFile => parse_write_file(lexer),
        TToken::Seek => parse_seek_file(lexer),
        TToken::GetRecord => parse_get_record(lexer),
        _ => parse_put_record(lexer),
    }
}

/// A statement that holds no statement of its own and is no file or console statement.
#[verifier::rlimit(40)]
fn parse_simple_line(lexer: &mut Lexer) -> (r: Result<Box<Node>, ParseError>)
    requires
        old(lexer).pos < old(lexer).tokens.len(),
        !io_keyword(old(lexer).ts()[old(lexer).pos as int].t),
        !block_keyword(old(lexer).ts()[old(lexer).pos as int].t),
    ensures
        r is Ok ==> final(lexer).pos > old(lexer).pos,
        parsed_as(*old(lexer), *final(lexer), r, syn_line(old(lexer).ts(), old(lexer).pos as int)),
{
    let token = lexer.tokens[lexer.pos].clone();
    match token.t {
        TToken::Declare => parse_declare(lexer),
        TToken::Constant => parse_constant(lexer),
        TToken::Type => parse_user_defined_data(lexer),
        TToken::Return => parse_return(lexer),
        TToken::Identifier(_) => {
            let lhs = match parse_expression(lexer) {
                Ok(x) => x,
                Err(e) => return Err(e),
            };
            try_parse_assign(lexer, lhs)
        },
        TToken::Call => parse_call(lexer),
        TToken::Newline | TToken::EOF => {
            lexer.pos = lexer.pos + 1;
            Ok(Box::new(Node::Null))
        },
        TToken::Procedure | TToken::Function => Err(
            error_at_exec(ParseErrorKind::RoutineNotGlobal, token.pos),
        ),
        TToken::Class => Err(error_at_exec(ParseErrorKind::ClassNotGlobal, token.pos)),
        _ => Err(error_at_exec(ParseErrorKind::ExpectedStatement, token.pos)),
    }
}

/// Statements appended to `acc` up to a token of kind `end` (consumed); `EOF` first raises
/// `missing`. Returns the statements and the span of the closing token.
pub fn parse_block(lexer: &mut Lexer, acc: Vec<Box<Node>>, end: u8, missing: ParseErrorKind) -> (r: Result<
    (Vec<Box<Node>>, Position),
    ParseError,
>)
    requires
        old(lexer).pos <= old(lexer).tokens.len(),
    ensures
        final(lexer).tokens == old(lexer).tokens,
        match syn_block(old(lexer).ts(), old(lexer).pos as int, node_views(acc@), end, missing) {
            Ok((body, p, j)) => r matches Ok((a, b)) && node_views(a@) == body && b == p
                && final(lexer).pos == j && old(lexer).pos <= j <= old(lexer).tokens.len(),
            Err(e) => r matches Err(x) && x == e,
        },
    decreases old(lexer).tokens.len() - old(lexer).pos, 2int,
{
    let (kind, tpos) = match lexer.peek() {
        Ok(t) => (token_kind(&t.t), t.pos),
        Err(e) => return Err(e),
    };
    if kind == crate::tokens::K_EOF {
        return Err(error_at_exec(missing, tpos));
    }
    if kind == end {
        lexer.pos = lexer.pos + 1;
        return Ok((acc, tpos));
    }
    let start = lexer.pos;
    let n = match parse_line(lexer) {
        Ok(x) => x,
        Err(e) => return Err(e),
    };
    if lexer.pos <= start || lexer.pos > lexer.tokens.len() {
        return Err(lexer.end_error());
    }
    let mut acc = acc;
    proof {
        crate::ast::lemma_node_views_push(acc@, n);
    }
    acc.push(n);
    parse_block(lexer, acc, end, missing)
}

} // verus!
