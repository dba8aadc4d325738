use crate::ast::{has_pos, names_view, node_pos, node_views, Node, NodeV};
use crate::parser::grammar::{
    ident_of, int_of, no_pos, op_text, span, syn_array, syn_array_dims, syn_constant, syn_declaration,
    syn_declare, syn_enum, syn_literal, syn_names, syn_pointer, syn_record_fields, syn_user_defined,
    syn_expect, tok_at, variant_nodes,
};
use crate::parser::parse_selection::literal_of;
use crate::parser::{expect_token, parsed_as, Lexer, ParseError, ParseErrorKind};
use crate::position::Position;
use crate::text::str_eq;
use crate::tokens::{
    kind_of, TToken, Token, TokenV, K_CARET, K_COLON, K_DECLARE, K_END_TYPE, K_IDENTIFIER, K_INTEGER_LIT, K_L_PAREN,
    K_L_SQR_BRACKET, K_NEWLINE, K_OF, K_OPERATOR, K_VAR_TYPE,
};
use crate::types::{Index, TypeV, VariableType};
use vstd::prelude::*;

verus! {

/// `[ dimensions ] OF type`: an array type.
pub fn parse_array(lexer: &mut Lexer) -> (r: Result<Box<VariableType>, ParseError>)
    requires
        old(lexer).pos <= old(lexer).tokens.len(),
    ensures
        final(lexer).tokens == old(lexer).tokens,
        match syn_array(old(lexer).ts(), old(lexer).pos as int) {
            Ok((t, j)) => r matches Ok(x) && (*x)@ == t && final(lexer).pos == j && old(lexer).pos
                <= j <= old(lexer).tokens.len(),
            Err(e) => r == Err::<Box<VariableType>, ParseError>(e),
        },
{
    let k1 = vec![K_L_SQR_BRACKET];
    proof {
        assert(k1@ =~= seq![K_L_SQR_BRACKET]);
    }
    match expect_token(lexer, &k1, ParseErrorKind::ExpectLeftBracket) {
        Ok(_) => {},
        Err(e) => return Err(e),
    }
    parse_array_dimension(lexer)
}

/// The dimensions of an array type, then `OF` and the element type.
fn parse_array_dimension(lexer: &mut Lexer) -> (r: Result<Box<VariableType>, ParseError>)
    requires
        old(lexer).pos <= old(lexer).tokens.len(),
    ensures
        final(lexer).tokens == old(lexer).tokens,
        match syn_array_dims(old(lexer).ts(), old(lexer).pos as int, Seq::empty()) {
            Ok((shape, k)) => match crate::parser::grammar::syn_expect(
                old(lexer).ts(),
                k,
                seq![K_OF],
                ParseErrorKind::ExpectOf,
            ) {
                Ok((_, m)) => match tok_at(old(lexer).ts(), m) {
                    Ok(t) => match t.t {
                        crate::tokens::TTokenV::VarType(vt) => r matches Ok(x) && (*x)@
                            == TypeV::Array { shape, t: Box::new(vt) } && final(lexer).pos == m + 1
                            && old(lexer).pos <= m + 1 <= old(lexer).tokens.len(),
                        _ => r == Err::<Box<VariableType>, ParseError>(
                            crate::parser::grammar::error_at(ParseErrorKind::TypeExpected, t.pos),
                        ),
                    },
                    Err(e) => r == Err::<Box<VariableType>, ParseError>(e),
                },
                Err(e) => r == Err::<Box<VariableType>, ParseError>(e),
            },
            Err(e) => r == Err::<Box<VariableType>, ParseError>(e),
        },
{
    let shape = match parse_dims(lexer, Vec::new()) {
        Ok(x) => x,
        Err(e) => return Err(e),
    };
    let k = vec![K_OF];
    proof {
        assert(k@ =~= seq![K_OF]);
    }
    match expect_token(lexer, &k, ParseErrorKind::ExpectOf) {
        Ok(_) => {},
        Err(e) => return Err(e),
    }
    let token = match lexer.next_token() {
        Ok(t) => t,
        Err(e) => return Err(e),
    };
    match token.t {
        TToken::VarType(t) => Ok(Box::new(VariableType::Array { shape, t: Box::new(t) })),
        _ => Err(ParseError { kind: ParseErrorKind::TypeExpected, pos: token.pos, found: None }),
    }
}

/// `lower : upper` dimensions separated by commas up to `]`, appended to `shape`.
fn parse_dims(lexer: &mut Lexer, shape: Vec<Index>) -> (r: Result<Vec<Index>, ParseError>)
    requires
        old(lexer).pos <= old(lexer).tokens.len(),
    ensures
        final(lexer).tokens == old(lexer).tokens,
        match syn_array_dims(old(lexer).ts(), old(lexer).pos as int, shape@) {
            Ok((s, j)) => r matches Ok(x) && x@ == s && final(lexer).pos == j && old(lexer).pos <= j
                <= old(lexer).tokens.len(),
            Err(e) => r == Err::<Vec<Index>, ParseError>(e),
        },
    decreases old(lexer).tokens.len() - old(lexer).pos,
{
    let start = lexer.pos;
    let ki = vec![K_INTEGER_LIT];
    let kc = vec![K_COLON];
    proof {
        assert(ki@ =~= seq![K_INTEGER_LIT]);
        assert(kc@ =~= seq![K_COLON]);
    }
    let lo = match expect_token(lexer, &ki, ParseErrorKind::ExpectInteger) {
        Ok(t) => t,
        Err(e) => return Err(e),
    };
    match expect_token(lexer, &kc, ParseErrorKind::ExpectColon) {
        Ok(_) => {},
        Err(e) => return Err(e),
    }
    let hi = match expect_token(lexer, &ki, ParseErrorKind::ExpectInteger) {
        Ok(t) => t,
        Err(e) => return Err(e),
    };
    let mut index = Index { lower: 0, upper: 0 };
    if let TToken::IntegerLit(v) = lo.t {
        index.lower = v;
    }
    if let TToken::IntegerLit(v) = hi.t {
        index.upper = v;
    }
    let mut shape = shape;
    shape.push(index);
    let token = match lexer.next_token() {
        Ok(t) => t,
        Err(e) => return Err(e),
    };
    match token.t {
        TToken::Comma => {
            if lexer.pos <= start || lexer.pos > lexer.tokens.len() {
                return Err(lexer.end_error());
            }
            parse_dims(lexer, shape)
        },
        TToken::RSqrBracket => Ok(shape),
        _ => Err(ParseError { kind: ParseErrorKind::BracketOrCommaExpected, pos: token.pos, found: None }),
    }
}

/// Comma-separated names, appended to `vars`, up to the first other token (consumed).
fn parse_names(
    lexer: &mut Lexer,
    start: Position,
    vars: Vec<String>,
    expect_ident: bool,
    missing: ParseErrorKind,
) -> (r: Result<(Position, Vec<String>, bool, Token), ParseError>)
    requires
        old(lexer).pos <= old(lexer).tokens.len(),
    ensures
        final(lexer).tokens == old(lexer).tokens,
        match syn_names(old(lexer).ts(), old(lexer).pos as int, start, names_view(vars@), expect_ident, missing) {
            Ok((st, vs, ei, cur, j)) => r matches Ok((a, b, c, d)) && a == st && names_view(b@) == vs
                && c == ei && d@ == cur && final(lexer).pos == j && old(lexer).pos < j
                <= old(lexer).tokens.len(),
            Err(e) => r matches Err(x) && x == e,
        },
    decreases old(lexer).tokens.len() - old(lexer).pos,
{
    let current = match lexer.next_token() {
        Ok(t) => t,
        Err(e) => return Err(e),
    };
    match current.t {
        TToken::Identifier(ident) => {
            let start = if start == Position::invalid() {
                current.pos
            } else {
                start
            };
            let mut vars = vars;
            let ghost old_vars = vars@;
            vars.push(ident);
            proof {
                assert(names_view(vars@) =~= names_view(old_vars).push(vars@.last()@));
            }
            parse_names(lexer, start, vars, false, missing)
        },
        TToken::Comma => {
            if expect_ident {
                return Err(ParseError { kind: missing, pos: current.pos, found: None });
            }
            parse_names(lexer, start, vars, true, missing)
        },
        _ => Ok((start, vars, expect_ident, current)),
    }
}

/// `names : type`: a declaration, or a parameter with its passing mode.
pub fn parse_declaration(lexer: &mut Lexer, byref: bool, private: bool) -> (r: Result<
    Box<Node>,
    ParseError,
>)
    requires
        old(lexer).pos <= old(lexer).tokens.len(),
    ensures
        parsed_as(
            *old(lexer),
            *final(lexer),
            r,
            syn_declaration(old(lexer).ts(), old(lexer).pos as int, byref, private),
        ),
        r matches Ok(x) ==> (x@ is Declare) && final(lexer).pos > old(lexer).pos,
{
    let none: Vec<String> = Vec::new();
    proof {
        assert(names_view(none@) =~= Seq::<Seq<char>>::empty());
    }
    let (start, vars, expect_ident, current) = match parse_names(
        lexer,
        Position::invalid(),
        none,
        false,
        ParseErrorKind::IdentifierExpected,
    ) {
        Ok(x) => x,
        Err(e) => return Err(e),
    };
    if expect_ident {
        return Err(ParseError { kind: ParseErrorKind::IdentifierExpected, pos: current.pos, found: None });
    }
    match current.t {
        TToken::Colon => {},
        _ => {
            return Err(ParseError { kind: ParseErrorKind::ColonExpected, pos: current.pos, found: None });
        },
    }
    let vtype = match lexer.next_token() {
        Ok(t) => t,
        Err(e) => return Err(e),
    };
    let t = match vtype.t {
        TToken::VarType(vt) => Box::new(vt),
        TToken::Array => match parse_array(lexer) {
            Ok(x) => x,
            Err(e) => return Err(e),
        },
        TToken::Identifier(name) => Box::new(VariableType::Custom(name)),
        _ => return Err(ParseError { kind: ParseErrorKind::TypeExpected, pos: vtype.pos, found: None }),
    };
    let pos = Position::range(start, vtype.pos);
    Ok(Box::new(Node::Declare { t, byref, private, children: vars, pos }))
}

/// `DECLARE names : type`.
pub fn parse_declare(lexer: &mut Lexer) -> (r: Result<Box<Node>, ParseError>)
    requires
        old(lexer).pos <= old(lexer).tokens.len(),
    ensures
        r is Ok ==> final(lexer).pos > old(lexer).pos,
        parsed_as(*old(lexer), *final(lexer), r, syn_declare(old(lexer).ts(), old(lexer).pos as int)),
{
    proof {
        reveal(syn_declare);
    }
    let token = match lexer.next_token() {
        Ok(t) => t,
        Err(e) => return Err(e),
    };
    let node = match parse_declaration(lexer, false, false) {
        Ok(x) => x,
        Err(e) => return Err(e),
    };
    match *node {
        Node::Declare { t, children, byref, private, pos } => {
            let pos = Position::range(token.pos, pos);
            Ok(Box::new(Node::Declare { t, children, byref, private, pos }))
        },
        other => Ok(Box::new(other)),
    }
}

/// `CONSTANT name = literal`.
pub fn parse_constant(lexer: &mut Lexer) -> (r: Result<Box<Node>, ParseError>)
    requires
        old(lexer).pos <= old(lexer).tokens.len(),
    ensures
        r is Ok ==> final(lexer).pos > old(lexer).pos,
        parsed_as(*old(lexer), *final(lexer), r, syn_constant(old(lexer).ts(), old(lexer).pos as int)),
{
    proof {
        reveal(syn_constant);
    }
    if lexer.pos >= lexer.tokens.len() {
        return Err(lexer.end_error());
    }
    lexer.pos = lexer.pos + 1;
    let kid = vec![K_IDENTIFIER];
    let kop = vec![K_OPERATOR];
    proof {
        assert(kid@ =~= seq![K_IDENTIFIER]);
        assert(kop@ =~= seq![K_OPERATOR]);
    }
    let name_token = match expect_token(lexer, &kid, ParseErrorKind::ExpectIdentifier) {
        Ok(t) => t,
        Err(e) => return Err(e),
    };
    let name = match name_token.t {
        TToken::Identifier(n) => n,
        _ => String::new(),
    };
    let op = match expect_token(lexer, &kop, ParseErrorKind::ExpectEqualsQuoted) {
        Ok(t) => t,
        Err(e) => return Err(e),
    };
    let is_eq = match &op.t {
        TToken::Operator(o) => str_eq(o.as_str(), "="),
        _ => false,
    };
    if !is_eq {
        return Err(ParseError { kind: ParseErrorKind::EqualsExpected, pos: op.pos, found: None });
    }
    let token = match lexer.next_token() {
        Ok(t) => t,
        Err(e) => return Err(e),
    };
    match literal_of(&token) {
        Some(val) => Ok(Box::new(Node::Const { name, val, pos: Position::invalid() })),
        None => Err(ParseError { kind: ParseErrorKind::LiteralValueExpected, pos: token.pos, found: None }),
    }
}

/// The states of an enumeration, after `(`.
fn parse_enum(lexer: &mut Lexer, start: &Token, name: String) -> (r: Result<Box<Node>, ParseError>)
    requires
        old(lexer).pos <= old(lexer).tokens.len(),
    ensures
        parsed_as(*old(lexer), *final(lexer), r, syn_enum(old(lexer).ts(), old(lexer).pos as int, start@, name@)),
{
    let none: Vec<String> = Vec::new();
    proof {
        assert(names_view(none@) =~= Seq::<Seq<char>>::empty());
    }
    let (_, vars, expect_ident, current) = match parse_names(
        lexer,
        Position::invalid(),
        none,
        false,
        ParseErrorKind::EnumValueExpected,
    ) {
        Ok(x) => x,
        Err(e) => return Err(e),
    };
    if expect_ident {
        return Err(ParseError { kind: ParseErrorKind::EnumValueExpected, pos: current.pos, found: None });
    }
    match current.t {
        TToken::RParen => {},
        _ => {
            return Err(ParseError { kind: ParseErrorKind::RightParenExpected, pos: current.pos, found: None });
        },
    }
    let pos = Position::range(start.pos, current.pos);
    let variants = variant_list(vars);
    Ok(Box::new(Node::Enum { name, variants, pos }))
}

/// The states of an enumeration as string nodes without a span.
fn variant_list(vars: Vec<String>) -> (v: Vec<Box<Node>>)
    ensures
        node_views(v@) == variant_nodes(names_view(vars@)),
{
    let mut v: Vec<Box<Node>> = Vec::new();
    let mut vars = vars;
    let ghost all = vars@;
    let mut out: Vec<String> = Vec::new();
    let mut k: usize = 0;
    let n = vars.len();
    proof {
        crate::ast::lemma_node_views(v@);
    }
    while k < n
        invariant
            n == all.len(),
            k <= n,
            v.len() == k,
            vars@ == all,
            forall|q: int| 0 <= q < k ==> #[trigger] node_views(v@)[q] == (NodeV::String {
                val: all[q]@,
                pos: no_pos(),
            }),
            node_views(v@).len() == k,
        decreases n - k,
    {
        let s = vars[k].clone();
        let ghost old_v = v@;
        v.push(Box::new(Node::String { val: s, pos: Position::invalid() }));
        proof {
            crate::ast::lemma_node_views(old_v);
            crate::ast::lemma_node_views(v@);
            assert forall|q: int| 0 <= q < k + 1 implies #[trigger] node_views(v@)[q] == (NodeV::String {
                val: all[q]@,
                pos: no_pos(),
            }) by {
                if q < k {
                    assert(v@[q] == old_v[q]);
                    assert(node_views(old_v)[q] == (NodeV::String { val: all[q]@, pos: no_pos() }));
                }
            }
        }
        k = k + 1;
    }
    proof {
        assert(node_views(v@) =~= variant_nodes(names_view(all)));
    }
    v
}

/// The referenced type of a pointer type.
fn parse_pointer(lexer: &mut Lexer, start: &Token, name: String) -> (r: Result<Box<Node>, ParseError>)
    requires
        old(lexer).pos <= old(lexer).tokens.len(),
    ensures
        parsed_as(*old(lexer), *final(lexer), r, syn_pointer(old(lexer).ts(), old(lexer).pos as int, start@, name@)),
{
    let k = vec![K_IDENTIFIER, K_VAR_TYPE];
    proof {
        assert(k@ =~= seq![K_IDENTIFIER, K_VAR_TYPE]);
    }
    let vtype = match expect_token(lexer, &k, ParseErrorKind::ExpectDataType) {
        Ok(t) => t,
        Err(e) => return Err(e),
    };
    let ref_to = Box::new(
        match vtype.t {
            TToken::Identifier(n) => VariableType::Custom(n),
            TToken::VarType(vt) => vt,
            _ => VariableType::Custom(String::new()),
        },
    );
    let pos = Position::range(start.pos, vtype.pos);
    Ok(Box::new(Node::PointerDef { name, ref_to, pos }))
}

/// Field declarations of a record up to `ENDTYPE`, appended to `fields`.
fn parse_record_fields(lexer: &mut Lexer, fields: Vec<Box<Node>>) -> (r: Result<
    (Vec<Box<Node>>, Position),
    ParseError,
>)
    requires
        old(lexer).pos <= old(lexer).tokens.len(),
    ensures
        final(lexer).tokens == old(lexer).tokens,
        match syn_record_fields(old(lexer).ts(), old(lexer).pos as int, node_views(fields@)) {
            Ok((fs, end, j)) => r matches Ok((a, b)) && node_views(a@) == fs && b == end
                && final(lexer).pos == j && old(lexer).pos <= j <= old(lexer).tokens.len(),
            Err(e) => r matches Err(x) && x == e,
        },
    decreases old(lexer).tokens.len() - old(lexer).pos,
{
    let start = lexer.pos;
    let f = match parse_declaration(lexer, false, false) {
        Ok(x) => x,
        Err(e) => return Err(e),
    };
    if lexer.pos <= start || lexer.pos > lexer.tokens.len() {
        return Err(lexer.end_error());
    }
    let is_nl = match lexer.peek() {
        Ok(t) => match t.t {
            TToken::Newline => true,
            _ => false,
        },
        Err(e) => return Err(e),
    };
    if is_nl {
        lexer.pos = lexer.pos + 1;
    }
    let k = vec![K_DECLARE, K_END_TYPE];
    proof {
        assert(k@ =~= seq![K_DECLARE, K_END_TYPE]);
    }
    let end = match expect_token(lexer, &k, ParseErrorKind::ExpectEndType) {
        Ok(t) => t,
        Err(e) => return Err(e),
    };
    let mut fields = fields;
    let ghost old_f = fields@;
    fields.push(f);
    proof {
        crate::ast::lemma_node_views_push(old_f, fields@.last());
        assert(fields@ =~= old_f.push(fields@.last()));
    }
    match end.t {
        TToken::EndType => Ok((fields, end.pos)),
        _ => {
            if lexer.pos <= start || lexer.pos > lexer.tokens.len() {
                return Err(lexer.end_error());
            }
            parse_record_fields(lexer, fields)
        },
    }
}

/// `TYPE name` followed by a record body (`DECLARE` fields `ENDTYPE`), an enumeration
/// `= (states)` or a pointer type `= ^type`.
pub fn parse_user_defined_data(lexer: &mut Lexer) -> (r: Result<Box<Node>, ParseError>)
    requires
        old(lexer).pos <= old(lexer).tokens.len(),
    ensures
        r is Ok ==> final(lexer).pos > old(lexer).pos,
        parsed_as(*old(lexer), *final(lexer), r, syn_user_defined(old(lexer).ts(), old(lexer).pos as int)),
{
    proof {
        reveal(syn_user_defined);
    }
    let token = match lexer.next_token() {
        Ok(t) => t,
        Err(e) => return Err(e),
    };
    let kid = vec![K_IDENTIFIER];
    let knx = vec![K_NEWLINE, K_OPERATOR];
    proof {
        assert(kid@ =~= seq![K_IDENTIFIER]);
        assert(knx@ =~= seq![K_NEWLINE, K_OPERATOR]);
    }
    let name_token = match expect_token(lexer, &kid, ParseErrorKind::ExpectIdentifier) {
        Ok(t) => t,
        Err(e) => return Err(e),
    };
    let name = match &name_token.t {
        TToken::Identifier(n) => n.clone(),
        _ => String::new(),
    };
    let next_token = match expect_token(lexer, &knx, ParseErrorKind::ExpectDeclareOrEquals) {
        Ok(t) => t,
        Err(e) => return Err(e),
    };
    match next_token.t {
        TToken::Newline => {
            let kd = vec![K_DECLARE];
            proof {
                assert(kd@ =~= seq![K_DECLARE]);
            }
            match expect_token(lexer, &kd, ParseErrorKind::ExpectDeclare) {
                Ok(_) => {},
                Err(e) => return Err(e),
            }
            let none: Vec<Box<Node>> = Vec::new();
            proof {
                assert(node_views(none@) =~= Seq::<NodeV>::empty());
            }
            let (fields, end) = match parse_record_fields(lexer, none) {
                Ok(x) => x,
                Err(e) => return Err(e),
            };
            let pos = Position::range(token.pos, end);
            let name_node = Node::String { val: name, pos: name_token.pos };
            proof {
                assert(name_node@ == NodeV::String { val: ident_of(name_token@), pos: name_token@.pos });
            }
            Ok(Box::new(Node::Record { name: Box::new(name_node), children: fields, pos }))
        },
        TToken::Operator(op) => {
            if !str_eq(op.as_str(), "=") {
                return Err(
                    ParseError { kind: ParseErrorKind::ExpectedEqualsSign, pos: next_token.pos, found: None },
                );
            }
            let kb = vec![K_L_PAREN, K_CARET];
            proof {
                assert(kb@ =~= seq![K_L_PAREN, K_CARET]);
            }
            let b = match expect_token(lexer, &kb, ParseErrorKind::ExpectParenOrCaret) {
                Ok(t) => t,
                Err(e) => return Err(e),
            };
            match b.t {
                TToken::LParen => parse_enum(lexer, &token, name),
                _ => parse_pointer(lexer, &token, name),
            }
        },
        _ => {
            proof {
                reveal_strlit("=");
            }
            Err(ParseError { kind: ParseErrorKind::ExpectedEqualsSign, pos: next_token.pos, found: None })
        },
    }
}

/// Dimension `d` of a list of `k` dimensions that starts at token `i`: the tokens
/// `lower : upper` and then `,`, or `]` after the last one.
pub open spec fn dimension_tokens(ts: Seq<TokenV>, i: int, k: int, d: int) -> bool {
    let p = i + 4 * d;
    &&& 0 <= p
    &&& p + 4 <= ts.len()
    &&& ts[p].t is IntegerLit
    &&& ts[p + 1].t is Colon
    &&& ts[p + 2].t is IntegerLit
    &&& if d < k - 1 { ts[p + 3].t is Comma } else { ts[p + 3].t is RSqrBracket }
}

/// The bounds written for dimension `d`: the integer before the colon and the one after it.
pub open spec fn written_bounds(ts: Seq<TokenV>, i: int, d: int) -> Index {
    let p = i + 4 * d;
    Index { lower: ts[p].t->IntegerLit_0, upper: ts[p + 2].t->IntegerLit_0 }
}

/// `ARRAY[l1:u1, ..., lk:uk]`: the shape read has exactly the `k` dimensions written, in
/// order, dimension `d` from `ld` to `ud`, after those read before (`shape`); reading stops
/// after the `]`.
pub proof fn law_array_dims_are_the_written_bounds(ts: Seq<TokenV>, i: int, k: int, shape: Seq<Index>)
    requires
        k >= 1,
        forall|d: int| 0 <= d < k ==> #[trigger] dimension_tokens(ts, i, k, d),
    ensures
        syn_array_dims(ts, i, shape) matches Ok((r, j)) && j == i + 4 * k && r.len() == shape.len() + k
            && r.subrange(0, shape.len() as int) == shape && forall|d: int|
            0 <= d < k ==> r[shape.len() + d] == #[trigger] written_bounds(ts, i, d),
    decreases k,
{
    assert(dimension_tokens(ts, i, k, 0));
    assert(seq![K_INTEGER_LIT][0] as int == kind_of(ts[i].t));
    assert(seq![K_COLON][0] as int == kind_of(ts[i + 1].t));
    assert(seq![K_INTEGER_LIT][0] as int == kind_of(ts[i + 2].t));
    assert(syn_expect(ts, i, seq![K_INTEGER_LIT], ParseErrorKind::ExpectInteger) == Ok::<
        (TokenV, int),
        ParseError,
    >((ts[i], i + 1)));
    assert(syn_expect(ts, i + 1, seq![K_COLON], ParseErrorKind::ExpectColon) == Ok::<
        (TokenV, int),
        ParseError,
    >((ts[i + 1], i + 2)));
    assert(syn_expect(ts, i + 2, seq![K_INTEGER_LIT], ParseErrorKind::ExpectInteger) == Ok::<
        (TokenV, int),
        ParseError,
    >((ts[i + 2], i + 3)));
    let idx = written_bounds(ts, i, 0);
    let sh = shape.push(idx);
    if k == 1 {
        assert(syn_array_dims(ts, i, shape) == Ok::<(Seq<Index>, int), ParseError>((sh, i + 4)));
        assert(sh.subrange(0, shape.len() as int) =~= shape);
    } else {
        assert forall|d: int| 0 <= d < k - 1 implies #[trigger] dimension_tokens(ts, i + 4, k - 1, d) by {
            assert(dimension_tokens(ts, i, k, d + 1));
            assert(i + 4 + 4 * d == i + 4 * (d + 1));
        }
        law_array_dims_are_the_written_bounds(ts, i + 4, k - 1, sh);
        assert(syn_array_dims(ts, i, shape) == syn_array_dims(ts, i + 4, sh));
        let r = syn_array_dims(ts, i + 4, sh)->Ok_0.0;
        assert(r.subrange(0, sh.len() as int) == sh);
        assert(r[shape.len() as int] == sh[shape.len() as int]);
        assert(r.subrange(0, shape.len() as int) =~= shape) by {
            assert forall|m: int| 0 <= m < shape.len() implies r[m] == shape[m] by {
                assert(r.subrange(0, sh.len() as int)[m] == sh[m]);
            }
        }
        assert forall|d: int| 0 <= d < k implies r[shape.len() + d] == #[trigger] written_bounds(ts, i, d) by {
            if d > 0 {
                assert(r[sh.len() + (d - 1)] == written_bounds(ts, i + 4, d - 1));
                assert(i + 4 + 4 * (d - 1) == i + 4 * d);
            }
        }
    }
}

} // verus!
