use crate::ast::{has_pos, node_pos, node_views, Node, NodeV};
use crate::parser::grammar::{
    ident_of, span, syn_close_file, syn_expression, syn_file_expr_parts, syn_file_var_parts,
    syn_get_record, syn_input, syn_open_file, syn_output, syn_output_list, syn_put_record,
    syn_read_file, syn_seek_file, syn_write_file,
};
use crate::parser::parse_expr::parse_expression;
use crate::parser::parse_identifier::parse_identifier;
use crate::parser::{expect_token, parsed_as, parsed_list_as, Lexer, ParseError, ParseErrorKind};
use crate::position::Position;
use crate::tokens::{token_kind, TToken, TokenV, K_COMMA, K_FILE_MODE, K_FOR, K_IDENTIFIER};
use vstd::prelude::*;

verus! {

/// `INPUT name`.
pub fn parse_input(lexer: &mut Lexer) -> (r: Result<Box<Node>, ParseError>)
    requires
        old(lexer).pos <= old(lexer).tokens.len(),
    ensures
        r is Ok ==> final(lexer).pos > old(lexer).pos,
        parsed_as(*old(lexer), *final(lexer), r, syn_input(old(lexer).ts(), old(lexer).pos as int)),
{
    proof {
        reveal(syn_input);
    }
    let token = match lexer.next_token() {
        Ok(t) => t,
        Err(e) => return Err(e),
    };
    let k = vec![K_IDENTIFIER];
    proof {
        assert(k@ =~= seq![K_IDENTIFIER]);
    }
    let it = match expect_token(lexer, &k, ParseErrorKind::ExpectIdentifier) {
        Ok(t) => t,
        Err(e) => return Err(e),
    };
    let name = match &it.t {
        TToken::Identifier(n) => n.clone(),
        _ => String::new(),
    };
    let child = Node::Var { name, pos: it.pos };
    proof {
        assert(child@ == NodeV::Var { name: ident_of(it@), pos: it@.pos });
    }
    let pos = Position::range(token.pos, it.pos);
    Ok(Box::new(Node::Input { child: Box::new(child), pos }))
}

/// Comma-separated expressions appended to `acc`.
fn parse_output_list(lexer: &mut Lexer, acc: Vec<Box<Node>>) -> (r: Result<Vec<Box<Node>>, ParseError>)
    requires
        old(lexer).pos <= old(lexer).tokens.len(),
        forall|k: int| 0 <= k < acc.len() ==> has_pos(#[trigger] node_views(acc@)[k]),
    ensures
        parsed_list_as(
            *old(lexer),
            *final(lexer),
            r,
            syn_output_list(old(lexer).ts(), old(lexer).pos as int, node_views(acc@)),
        ),
        r matches Ok(x) ==> x.len() > 0 && forall|k: int|
            0 <= k < x.len() ==> has_pos(#[trigger] node_views(x@)[k]),
    decreases old(lexer).tokens.len() - old(lexer).pos,
{
    let start = lexer.pos;
    let e = match parse_expression(lexer) {
        Ok(x) => x,
        Err(e) => return Err(e),
    };
    if lexer.pos <= start || lexer.pos > lexer.tokens.len() {
        return Err(lexer.end_error());
    }
    let mut acc = acc;
    let ghost old_acc = acc@;
    acc.push(e);
    proof {
        assert(acc@ =~= old_acc.push(acc@.last()));
        crate::ast::lemma_node_views_push(old_acc, acc@.last());
        crate::ast::lemma_node_views(acc@);
        crate::ast::lemma_node_views(old_acc);
        assert forall|k: int| 0 <= k < acc.len() implies has_pos(#[trigger] node_views(acc@)[k]) by {
            if k < acc.len() - 1 {
                assert(node_views(acc@)[k] == node_views(old_acc)[k]);
            }
        }
    }
    let is_comma = match lexer.peek() {
        Ok(t) => token_kind(&t.t) == K_COMMA,
        Err(e) => return Err(e),
    };
    if is_comma {
        lexer.pos = lexer.pos + 1;
        parse_output_list(lexer, acc)
    } else {
        Ok(acc)
    }
}

/// `OUTPUT expression, ...`.
pub fn parse_output(lexer: &mut Lexer) -> (r: Result<Box<Node>, ParseError>)
    requires
        old(lexer).pos <= old(lexer).tokens.len(),
    ensures
        r is Ok ==> final(lexer).pos > old(lexer).pos,
        parsed_as(*old(lexer), *final(lexer), r, syn_output(old(lexer).ts(), old(lexer).pos as int)),
{
    proof {
        reveal(syn_output);
    }
    let token = match lexer.next_token() {
        Ok(t) => t,
        Err(e) => return Err(e),
    };
    let none: Vec<Box<Node>> = Vec::new();
    proof {
        assert(node_views(none@) =~= Seq::<NodeV>::empty());
    }
    let children = match parse_output_list(lexer, none) {
        Ok(x) => x,
        Err(e) => return Err(e),
    };
    proof {
        crate::ast::lemma_node_views(children@);
        assert(has_pos(node_views(children@)[children.len() - 1]));
    }
    let last = children[children.len() - 1].pos();
    let pos = Position::range(token.pos, last);
    Ok(Box::new(Node::Output { children, pos }))
}

/// `OPENFILE filename FOR mode`.
pub fn parse_open_file(lexer: &mut Lexer) -> (r: Result<Box<Node>, ParseError>)
    requires
        old(lexer).pos <= old(lexer).tokens.len(),
    ensures
        r is Ok ==> final(lexer).pos > old(lexer).pos,
        parsed_as(*old(lexer), *final(lexer), r, syn_open_file(old(lexer).ts(), old(lexer).pos as int)),
{
    proof {
        reveal(syn_open_file);
    }
    let token = match lexer.next_token() {
        Ok(t) => t,
        Err(e) => return Err(e),
    };
    let filename = match parse_expression(lexer) {
        Ok(x) => x,
        Err(e) => return Err(e),
    };
    let kf = vec![K_FOR];
    let km = vec![K_FILE_MODE];
    proof {
        assert(kf@ =~= seq![K_FOR]);
        assert(km@ =~= seq![K_FILE_MODE]);
    }
    match expect_token(lexer, &kf, ParseErrorKind::ExpectFor) {
        Ok(_) => {},
        Err(e) => return Err(e),
    }
    let mode = match expect_token(lexer, &km, ParseErrorKind::ExpectFileMode) {
        Ok(t) => t,
        Err(e) => return Err(e),
    };
    let pos = Position::range(token.pos, mode.pos);
    Ok(Box::new(Node::OpenFile { filename, mode: mode.t, pos }))
}

/// `CLOSEFILE filename`.
pub fn parse_close_file(lexer: &mut Lexer) -> (r: Result<Box<Node>, ParseError>)
    requires
        old(lexer).pos <= old(lexer).tokens.len(),
    ensures
        r is Ok ==> final(lexer).pos > old(lexer).pos,
        parsed_as(*old(lexer), *final(lexer), r, syn_close_file(old(lexer).ts(), old(lexer).pos as int)),
{
    proof {
        reveal(syn_close_file);
    }
    let token = match lexer.next_token() {
        Ok(t) => t,
        Err(e) => return Err(e),
    };
    let filename = match parse_expression(lexer) {
        Ok(x) => x,
        Err(e) => return Err(e),
    };
    let pos = Position::range(token.pos, filename.pos());
    Ok(Box::new(Node::CloseFile { filename, pos }))
}

/// `keyword filename , variable`: the file, the variable and the span.
fn parse_file_var_parts(lexer: &mut Lexer) -> (r: Result<(Box<Node>, Box<Node>, Position), ParseError>)
    requires
        old(lexer).pos <= old(lexer).tokens.len(),
    ensures
        r is Ok ==> final(lexer).pos > old(lexer).pos,
        final(lexer).tokens == old(lexer).tokens,
        match syn_file_var_parts(old(lexer).ts(), old(lexer).pos as int) {
            Ok((f, v, p, m)) => r matches Ok((a, b, c)) && a@ == f && b@ == v && c == p
                && final(lexer).pos == m && old(lexer).pos <= m <= old(lexer).tokens.len(),
            Err(e) => r matches Err(x) && x == e,
        },
{
    let token = match lexer.next_token() {
        Ok(t) => t,
        Err(e) => return Err(e),
    };
    let filename = match parse_expression(lexer) {
        Ok(x) => x,
        Err(e) => return Err(e),
    };
    let kc = vec![K_COMMA];
    proof {
        assert(kc@ =~= seq![K_COMMA]);
    }
    match expect_token(lexer, &kc, ParseErrorKind::ExpectComma) {
        Ok(_) => {},
        Err(e) => return Err(e),
    }
    let var = match parse_identifier(lexer) {
        Ok(x) => x,
        Err(e) => return Err(e),
    };
    if !matches!(*var, Node::Var { .. } | Node::ArrayVar { .. }) {
        return Err(ParseError { kind: ParseErrorKind::IdentifierExpected, pos: var.pos(), found: None });
    }
    let pos = Position::range(token.pos, var.pos());
    Ok((filename, var, pos))
}

/// `keyword filename , expression`: the file, the expression and the span.
fn parse_file_expr_parts(lexer: &mut Lexer) -> (r: Result<(Box<Node>, Box<Node>, Position), ParseError>)
    requires
        old(lexer).pos <= old(lexer).tokens.len(),
    ensures
        r is Ok ==> final(lexer).pos > old(lexer).pos,
        final(lexer).tokens == old(lexer).tokens,
        match syn_file_expr_parts(old(lexer).ts(), old(lexer).pos as int) {
            Ok((f, x, p, m)) => r matches Ok((a, b, c)) && a@ == f && b@ == x && c == p
                && final(lexer).pos == m && old(lexer).pos <= m <= old(lexer).tokens.len(),
            Err(e) => r matches Err(x) && x == e,
        },
{
    let token = match lexer.next_token() {
        Ok(t) => t,
        Err(e) => return Err(e),
    };
    let filename = match parse_expression(lexer) {
        Ok(x) => x,
        Err(e) => return Err(e),
    };
    let kc = vec![K_COMMA];
    proof {
        assert(kc@ =~= seq![K_COMMA]);
    }
    match expect_token(lexer, &kc, ParseErrorKind::ExpectComma) {
        Ok(_) => {},
        Err(e) => return Err(e),
    }
    let expr = match parse_expression(lexer) {
        Ok(x) => x,
        Err(e) => return Err(e),
    };
    let pos = Position::range(token.pos, expr.pos());
    Ok((filename, expr, pos))
}

/// `READFILE filename, variable`.
pub fn parse_read_file(lexer: &mut Lexer) -> (r: Result<Box<Node>, ParseError>)
    requires
        old(lexer).pos <= old(lexer).tokens.len(),
    ensures
        r is Ok ==> final(lexer).pos > old(lexer).pos,
        parsed_as(*old(lexer), *final(lexer), r, syn_read_file(old(lexer).ts(), old(lexer).pos as int)),
{
    proof {
        reveal(syn_read_file);
    }
    match parse_file_var_parts(lexer) {
        Ok((filename, var, pos)) => Ok(Box::new(Node::ReadFile { filename, var, pos })),
        Err(e) => Err(e),
    }
}

/// `GETRECORD filename, variable`.
pub fn parse_get_record(lexer: &mut Lexer) -> (r: Result<Box<Node>, ParseError>)
    requires
        old(lexer).pos <= old(lexer).tokens.len(),
    ensures
        r is Ok ==> final(lexer).pos > old(lexer).pos,
        parsed_as(*old(lexer), *final(lexer), r, syn_get_record(old(lexer).ts(), old(lexer).pos as int)),
{
    proof {
        reveal(syn_get_record);
    }
    match parse_file_var_parts(lexer) {
        Ok((filename, var, pos)) => Ok(Box::new(Node::GetRecord { filename, var, pos })),
        Err(e) => Err(e),
    }
}

/// `PUTRECORD filename, variable`.
pub fn parse_put_record(lexer: &mut Lexer) -> (r: Result<Box<Node>, ParseError>)
    requires
        old(lexer).pos <= old(lexer).tokens.len(),
    ensures
        r is Ok ==> final(lexer).pos > old(lexer).pos,
        parsed_as(*old(lexer), *final(lexer), r, syn_put_record(old(lexer).ts(), old(lexer).pos as int)),
{
    proof {
        reveal(syn_put_record);
    }
    match parse_file_var_parts(lexer) {
        Ok((filename, var, pos)) => Ok(Box::new(Node::PutRecord { filename, var, pos })),
        Err(e) => Err(e),
    }
}

/// `WRITEFILE filename, expression`.
pub fn parse_write_file(lexer: &mut Lexer) -> (r: Result<Box<Node>, ParseError>)
    requires
        old(lexer).pos <= old(lexer).tokens.len(),
    ensures
        r is Ok ==> final(lexer).pos > old(lexer).pos,
        parsed_as(*old(lexer), *final(lexer), r, syn_write_file(old(lexer).ts(), old(lexer).pos as int)),
{
    proof {
        reveal(syn_write_file);
    }
    match parse_file_expr_parts(lexer) {
        Ok((filename, expr, pos)) => Ok(Box::new(Node::WriteFile { filename, expr, pos })),
        Err(e) => Err(e),
    }
}

/// `SEEK filename, position`.
pub fn parse_seek_file(lexer: &mut Lexer) -> (r: Result<Box<Node>, ParseError>)
    requires
        old(lexer).pos <= old(lexer).tokens.len(),
    ensures
        r is Ok ==> final(lexer).pos > old(lexer).pos,
        parsed_as(*old(lexer), *final(lexer), r, syn_seek_file(old(lexer).ts(), old(lexer).pos as int)),
{
    proof {
        reveal(syn_seek_file);
    }
    match parse_file_expr_parts(lexer) {
        Ok((filename, expr, pos)) => Ok(Box::new(Node::SeekFile { filename, expr, pos })),
        Err(e) => Err(e),
    }
}

/// `OUTPUT e1, e2, ..., en` keeps every expression: where the n expressions are read at
/// their places (each after the comma that ends the one before, the last followed by no
/// comma), the list read is exactly those n expressions in order, after what came before
/// (`acc`), and reading stops where the last one ends.
pub proof fn law_output_list_keeps_every_expression(
    ts: Seq<TokenV>,
    starts: Seq<int>,
    es: Seq<NodeV>,
    ends: Seq<int>,
    acc: Seq<NodeV>,
)
    requires
        es.len() >= 1,
        starts.len() == es.len(),
        ends.len() == es.len(),
        forall|k: int|
            0 <= k < es.len() ==> syn_expression(ts, starts[k]) == Ok::<(NodeV, int), ParseError>(
                (#[trigger] es[k], ends[k]),
            ),
        forall|k: int| 0 <= k < es.len() ==> starts[k] < #[trigger] ends[k] < ts.len(),
        forall|k: int|
            0 <= k < es.len() - 1 ==> (#[trigger] ts[ends[k]]).t is Comma && starts[k + 1] == ends[k] + 1,
        !(ts[ends.last()].t is Comma),
    ensures
        syn_output_list(ts, starts[0], acc) == Ok::<(Seq<NodeV>, int), ParseError>((acc + es, ends.last())),
    decreases es.len(),
{
    assert(syn_expression(ts, starts[0]) == Ok::<(NodeV, int), ParseError>((es[0], ends[0])));
    assert(starts[0] < ends[0] < ts.len());
    if es.len() == 1 {
        assert(acc + es =~= acc.push(es[0]));
    } else {
        assert(ts[ends[0]].t is Comma);
        let s2 = starts.drop_first();
        let e2 = es.drop_first();
        let n2 = ends.drop_first();
        assert forall|k: int| 0 <= k < e2.len() implies syn_expression(ts, s2[k]) == Ok::<
            (NodeV, int),
            ParseError,
        >((#[trigger] e2[k], n2[k])) by {
            assert(es[k + 1] == e2[k]);
        }
        assert forall|k: int| 0 <= k < e2.len() implies s2[k] < #[trigger] n2[k] < ts.len() by {
            assert(ends[k + 1] == n2[k]);
        }
        assert forall|k: int| 0 <= k < e2.len() - 1 implies (#[trigger] ts[n2[k]]).t is Comma && s2[k + 1]
            == n2[k] + 1 by {
            assert(ends[k + 1] == n2[k]);
        }
        assert(n2.last() == ends.last());
        assert(s2[0] == ends[0] + 1);
        law_output_list_keeps_every_expression(ts, s2, e2, n2, acc.push(es[0]));
        assert(acc.push(es[0]) + e2 =~= acc + es);
    }
}

/// `OUTPUT e1, e2, ..., en` is an `OUTPUT` node whose children are exactly the n
/// expressions read at their places, in order.
pub proof fn law_output_children_are_the_expressions(
    ts: Seq<TokenV>,
    i: int,
    starts: Seq<int>,
    es: Seq<NodeV>,
    ends: Seq<int>,
)
    requires
        0 <= i < ts.len(),
        es.len() >= 1,
        starts.len() == es.len(),
        ends.len() == es.len(),
        starts[0] == i + 1,
        forall|k: int|
            0 <= k < es.len() ==> syn_expression(ts, starts[k]) == Ok::<(NodeV, int), ParseError>(
                (#[trigger] es[k], ends[k]),
            ),
        forall|k: int| 0 <= k < es.len() ==> starts[k] < #[trigger] ends[k] < ts.len(),
        forall|k: int|
            0 <= k < es.len() - 1 ==> (#[trigger] ts[ends[k]]).t is Comma && starts[k + 1] == ends[k] + 1,
        !(ts[ends.last()].t is Comma),
    ensures
        syn_output(ts, i) matches Ok((NodeV::Output { children, .. }, j)) && children == es && j
            == ends.last(),
{
    law_output_list_keeps_every_expression(ts, starts, es, ends, Seq::empty());
    assert(Seq::<NodeV>::empty() + es =~= es);
    reveal(syn_output);
}

} // verus!
