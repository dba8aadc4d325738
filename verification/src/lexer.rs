use crate::position::Position;
use crate::text::{
    all_ascii, chars_eq, chars_width, string_from_chars, text_width, to_lowercase, unicode_alphanumeric,
    unicode_lowercase, is_alphanumeric, char_width_exec, lemma_text_width_bounds, char_width,
};
use chrono::Datelike;
use crate::tokens::{TToken, TTokenV, Token, TokenV};
use crate::types::{chrono_has_ymd, Date, TypeV, VariableType};
use vstd::prelude::*;
use vstd::string::StringExecFns;

verus! {

/// Why the lexer rejected its input.
#[derive(Clone, Copy, Debug, PartialEq, Eq, Structural)]
pub enum LexErrorKind {
    /// A literal of the shape `d/m/y` that is not a valid `dd/mm/yyyy` date.
    InvalidDate,
    /// A number with more than one decimal point.
    MultipleDecimalPoints,
    /// An empty number between slashes, or a lone `.`, which no number syntax accepts.
    MalformedNumber,
    /// An integer literal above `i64::MAX`.
    IntegerTooLarge,
}

/// A lexical error and the span it concerns.
#[derive(Clone, Copy, Debug, PartialEq, Eq, Structural)]
pub struct LexError {
    pub kind: LexErrorKind,
    pub pos: Position,
}

/// `chrono::NaiveDate::parse_from_str` with the format `%d/%m/%Y`, read back into a `Date`.
/// Claimed, for a text of digits, `/` and `.`: the result is `dmy_date` of the text. Chrono
/// reads day and month in one or two digits and a year without sign in one to four, each
/// followed by the `/` or the end the format asks for, and then wants the date to exist.
/// Nothing is claimed of other texts.
#[verifier::external_body]
fn parse_dmy(text: &Vec<char>) -> (d: Option<Date>)
    ensures
        (forall|k: int| 0 <= k < text@.len() ==> is_number_char(#[trigger] text@[k])) ==> d == dmy_date(
            text@,
        ),
{
    let s = String::from_iter(text.iter());
    match chrono::NaiveDate::parse_from_str(&s, "%d/%m/%Y") {
        Ok(nd) => Some(Date { year: nd.year(), month: nd.month(), day: nd.day() }),
        Err(_) => None,
    }
}

/// Whether a text is made of decimal digits alone.
pub open spec fn all_digits(t: Seq<char>) -> bool {
    forall|k: int| 0 <= k < t.len() ==> is_digit(#[trigger] t[k])
}

/// The date that a text `day/month/year` of digits denotes: three parts of one or two, one
/// or two, and one to four digits that make a date of chrono's calendar.
pub open spec fn dmy_date(text: Seq<char>) -> Option<Date> {
    let parts = split_slash(text);
    if parts.len() == 3 && all_digits(parts[0]) && all_digits(parts[1]) && all_digits(parts[2]) && 1
        <= parts[0].len() <= 2 && 1 <= parts[1].len() <= 2 && 1 <= parts[2].len() <= 4
        && chrono_has_ymd(decimal(parts[2]), decimal(parts[1]), decimal(parts[0])) {
        Some(
            Date {
                year: decimal(parts[2]) as i32,
                month: decimal(parts[1]) as u32,
                day: decimal(parts[0]) as u32,
            },
        )
    } else {
        None
    }
}

pub open spec fn views(v: Seq<Token>) -> Seq<TokenV> {
    v.map_values(|t: Token| t@)
}

pub open spec fn is_digit(c: char) -> bool {
    48 <= (c as u32) <= 57
}

pub open spec fn is_word_start(c: char) -> bool {
    let u = c as u32;
    (65 <= u <= 90) || (97 <= u <= 122) || c == '_'
}

pub open spec fn is_number_char(c: char) -> bool {
    is_digit(c) || c == '/' || c == '.'
}

pub open spec fn is_word_char(c: char) -> bool {
    unicode_alphanumeric(c) || c == '_'
}

pub open spec fn is_symbol_tail(c: char) -> bool {
    c == '-' || c == '=' || c == '>'
}

/// The end of the run of digits, `/` and `.` that starts at `j`.
pub open spec fn number_end(s: Seq<char>, j: int) -> int
    decreases s.len() - j,
{
    if 0 <= j < s.len() && is_number_char(s[j]) {
        number_end(s, j + 1)
    } else {
        j
    }
}

/// The end of the run of alphanumeric characters and `_` that starts at `j`.
pub open spec fn word_end(s: Seq<char>, j: int) -> int
    decreases s.len() - j,
{
    if 0 <= j < s.len() && is_word_char(s[j]) {
        word_end(s, j + 1)
    } else {
        j
    }
}

/// The end of the run of characters other than a newline that starts at `j`.
pub open spec fn comment_end(s: Seq<char>, j: int) -> int
    decreases s.len() - j,
{
    if 0 <= j < s.len() && s[j] != '\n' {
        comment_end(s, j + 1)
    } else {
        j
    }
}

/// The end of the run of characters other than `"` that starts at `j`.
pub open spec fn quote_end(s: Seq<char>, j: int) -> int
    decreases s.len() - j,
{
    if 0 <= j < s.len() && s[j] != '"' {
        quote_end(s, j + 1)
    } else {
        j
    }
}

/// The end of the run of `-`, `=` and `>` that starts at `j`.
pub open spec fn symbol_end(s: Seq<char>, j: int) -> int
    decreases s.len() - j,
{
    if 0 <= j < s.len() && is_symbol_tail(s[j]) {
        symbol_end(s, j + 1)
    } else {
        j
    }
}

/// Number of occurrences of `c` in `s`.
pub open spec fn count_char(s: Seq<char>, c: char) -> nat
    decreases s.len(),
{
    if s.len() == 0 {
        0
    } else {
        count_char(s.drop_last(), c) + if s.last() == c { 1nat } else { 0nat }
    }
}

/// A number literal reads as a date when, at its last `/`, exactly two slashes have been
/// seen and no decimal point came before that slash.
pub open spec fn date_flag(text: Seq<char>) -> bool
    decreases text.len(),
{
    if text.len() == 0 {
        false
    } else if text.last() == '/' {
        count_char(text, '/') == 2 && count_char(text.drop_last(), '.') == 0
    } else {
        date_flag(text.drop_last())
    }
}

/// The pieces of `t` between slashes (always at least one piece).
pub open spec fn split_slash(t: Seq<char>) -> Seq<Seq<char>>
    decreases t.len(),
{
    if t.len() == 0 {
        seq![Seq::<char>::empty()]
    } else {
        let r = split_slash(t.drop_last());
        if t.last() == '/' {
            r.push(Seq::<char>::empty())
        } else {
            r.update(r.len() - 1, r.last().push(t.last()))
        }
    }
}

pub proof fn lemma_split_slash_nonempty(t: Seq<char>)
    ensures
        split_slash(t).len() >= 1,
    decreases t.len(),
{
    if t.len() > 0 {
        lemma_split_slash_nonempty(t.drop_last());
    }
}

/// The value of a string of decimal digits.
pub open spec fn decimal(s: Seq<char>) -> int
    decreases s.len(),
{
    if s.len() == 0 {
        0
    } else {
        decimal(s.drop_last()) * 10 + ((s.last() as u32) - 48)
    }
}

pub open spec fn pos_from(line: int, col: int, len: int) -> Position {
    Position {
        line_start: line as usize,
        line_end: line as usize,
        pos_start: col as usize,
        pos_end: (col + len) as usize,
    }
}

/// The token kind of one piece of a number literal, or the error it raises.
pub open spec fn piece_literal(seg: Seq<char>, pos: Position) -> Result<TTokenV, LexError> {
    let dots = count_char(seg, '.');
    if dots == 0 {
        if seg.len() == 0 {
            Err(LexError { kind: LexErrorKind::MalformedNumber, pos })
        } else if decimal(seg) > i64::MAX {
            Err(LexError { kind: LexErrorKind::IntegerTooLarge, pos })
        } else {
            Ok(TTokenV::IntegerLit(decimal(seg) as i64))
        }
    } else if dots == 1 {
        if seg.len() == 1 {
            Err(LexError { kind: LexErrorKind::MalformedNumber, pos })
        } else {
            Ok(TTokenV::RealLit(seg))
        }
    } else {
        Err(LexError { kind: LexErrorKind::MultipleDecimalPoints, pos })
    }
}

/// The tokens of the pieces of a number, each followed by a `/` operator, and the column
/// reached; the first failing piece decides the error.
pub open spec fn pieces_tokens(segs: Seq<Seq<char>>, line: int, col: int) -> Result<
    (Seq<TokenV>, int),
    LexError,
>
    decreases segs.len(),
{
    if segs.len() == 0 {
        Ok((Seq::empty(), col))
    } else {
        let seg = segs[0];
        let pos = pos_from(line, col, seg.len() as int);
        match piece_literal(seg, pos) {
            Err(e) => Err(e),
            Ok(t) => {
                let slash = TokenV {
                    t: TTokenV::Operator("/"@),
                    pos: pos_from(line, col + seg.len(), 1),
                };
                match pieces_tokens(segs.drop_first(), line, col + seg.len() + 1) {
                    Err(e) => Err(e),
                    Ok((r, c2)) => Ok((seq![TokenV { t, pos }, slash] + r, c2)),
                }
            },
        }
    }
}

/// The column reached after the characters `lit` of a string literal, starting at `col`
/// on line `line`: a newline moves to column 0 of the next line.
pub open spec fn advance(lit: Seq<char>, line: int, col: int) -> (int, int)
    decreases lit.len(),
{
    if lit.len() == 0 {
        (line, col)
    } else {
        let (l, c) = advance(lit.drop_last(), line, col);
        if lit.last() == '\n' {
            (l + 1, 0)
        } else {
            (l, c + 1)
        }
    }
}

/// The lexing of one number literal starting at `i`.
pub open spec fn number_step(s: Seq<char>, i: int, line: int, col: int) -> Result<
    (Seq<TokenV>, int, int, int),
    LexError,
> {
    let e = number_end(s, i + 1);
    let text = s.subrange(i, e);
    if date_flag(text) {
        let pos = pos_from(line, col, text.len() as int);
        match dmy_date(text) {
            Some(d) => Ok((seq![TokenV { t: TTokenV::DateLit(d), pos }], e, line, col + text.len())),
            None => Err(LexError { kind: LexErrorKind::InvalidDate, pos }),
        }
    } else {
        match pieces_tokens(split_slash(text), line, col) {
            Err(er) => Err(er),
            Ok((ts, c2)) => Ok(
                (if text.last() != '/' { ts.drop_last() } else { ts }, e, line, c2),
            ),
        }
    }
}

/// One step of the lexer at index `i`: the tokens read there, and the index, line and
/// column where reading goes on.
pub open spec fn lex_step(s: Seq<char>, i: int, line: int, col: int) -> Result<
    (Seq<TokenV>, int, int, int),
    LexError,
> {
    let c = s[i];
    if c == ' ' || c == '\t' || c == '\r' {
        Ok((Seq::empty(), i + 1, line, col + 1))
    } else if c == '\n' {
        Ok((seq![TokenV { t: TTokenV::Newline, pos: pos_from(line, col, 1) }], i + 1, line + 1, 0))
    } else if is_digit(c) {
        number_step(s, i, line, col)
    } else if is_word_start(c) {
        let e = word_end(s, i + 1);
        let w = s.subrange(i, e);
        Ok(
            (
                seq![TokenV { t: word_token(w), pos: pos_from(line, col, text_width(w) as int) }],
                e,
                line,
                col + text_width(w),
            ),
        )
    } else if c == '/' {
        if i + 1 < s.len() && s[i + 1] == '/' {
            Ok((Seq::empty(), comment_end(s, i + 1), line, col))
        } else {
            Ok(
                (
                    seq![TokenV { t: TTokenV::Operator("/"@), pos: pos_from(line, col, 1) }],
                    i + 1,
                    line,
                    col + 1,
                ),
            )
        }
    } else if c == '"' {
        let q = quote_end(s, i + 1);
        let lit = s.subrange(i + 1, q);
        let (l2, c2) = advance(lit, line, col + 1);
        let pos = Position {
            line_start: line as usize,
            line_end: l2 as usize,
            pos_start: col as usize,
            pos_end: (c2 + 1) as usize,
        };
        Ok(
            (
                seq![TokenV { t: TTokenV::StringLit(lit), pos }],
                if q < s.len() { q + 1 } else { q },
                l2,
                c2 + 1,
            ),
        )
    } else {
        let e = if c == '<' || c == '>' {
            symbol_end(s, i + 1)
        } else {
            i + 1
        };
        let sym = s.subrange(i, e);
        Ok(
            (
                seq![TokenV { t: symbol_token(sym), pos: pos_from(line, col, text_width(sym) as int) }],
                e,
                line,
                col + text_width(sym),
            ),
        )
    }
}

/// The tokens read from index `i` to the end, closed by an `EOF` token; the first error
/// stops the reading.
pub open spec fn scan(s: Seq<char>, i: int, line: int, col: int) -> Result<Seq<TokenV>, LexError>
    decreases s.len() - i,
{
    if i < 0 || i >= s.len() {
        Ok(seq![TokenV { t: TTokenV::EOF, pos: pos_from(line, col, 1) }])
    } else {
        match lex_step(s, i, line, col) {
            Err(e) => Err(e),
            Ok((ts, i2, l2, c2)) => {
                if i2 <= i || i2 > s.len() {
                    Err(LexError { kind: LexErrorKind::MalformedNumber, pos: pos_from(line, col, 0) })
                } else {
                    match scan(s, i2, l2, c2) {
                        Err(e) => Err(e),
                        Ok(r) => Ok(ts + r),
                    }
                }
            },
        }
    }
}

/// `ts` with every newline that directly follows another newline left out.
pub open spec fn collapse_newlines(ts: Seq<TokenV>) -> Seq<TokenV>
    decreases ts.len(),
{
    if ts.len() == 0 {
        ts
    } else {
        let c = collapse_newlines(ts.drop_last());
        if ts.len() >= 2 && ts.last().t is Newline && ts[ts.len() - 2].t is Newline {
            c
        } else {
            c.push(ts.last())
        }
    }
}

/// The token stream of a source text.
pub open spec fn lex_spec(s: Seq<char>) -> Result<Seq<TokenV>, LexError> {
    match scan(s, 0, 1, 0) {
        Ok(ts) => Ok(collapse_newlines(ts)),
        Err(e) => Err(e),
    }
}

pub open spec fn prepend(a: Seq<TokenV>, r: Result<Seq<TokenV>, LexError>) -> Result<
    Seq<TokenV>,
    LexError,
> {
    match r {
        Ok(b) => Ok(a + b),
        Err(e) => Err(e),
    }
}

/// The token kind of a word: a keyword, a file mode, a passing mode, a boolean literal,
/// a word operator, a primitive type name, or else an identifier, which is lower-cased.
pub open spec fn word_token(w: Seq<char>) -> TTokenV {
    if w == "APPEND"@ || w == "WRITE"@ || w == "READ"@ || w == "RANDOM"@ {
        TTokenV::FileMode(w)
    } else if w == "BYREF"@ || w == "BYVAL"@ {
        TTokenV::PassBy(w)
    } else if w == "ARRAY"@ {
        TTokenV::Array
    } else if w == "CALL"@ {
        TTokenV::Call
    } else if w == "CASE"@ {
        TTokenV::Case
    } else if w == "CLASS"@ {
        TTokenV::Class
    } else if w == "CLOSEFILE"@ {
        TTokenV::CloseFile
    } else if w == "CONSTANT"@ {
        TTokenV::Constant
    } else if w == "DECLARE"@ {
        TTokenV::Declare
    } else if w == "DEFINE"@ {
        TTokenV::Define
    } else if w == "ELSE"@ {
        TTokenV::Else
    } else if w == "ENDCASE"@ {
        TTokenV::EndCase
    } else if w == "ENDCLASS"@ {
        TTokenV::EndClass
    } else if w == "ENDFUNCTION"@ {
        TTokenV::EndFunction
    } else if w == "ENDIF"@ {
        TTokenV::EndIf
    } else if w == "ENDPROCEDURE"@ {
        TTokenV::EndProcedure
    } else if w == "ENDTYPE"@ {
        TTokenV::EndType
    } else if w == "ENDWHILE"@ {
        TTokenV::EndWhile
    } else if w == "FOR"@ {
        TTokenV::For
    } else if w == "FUNCTION"@ {
        TTokenV::Function
    } else if w == "GETRECORD"@ {
        TTokenV::GetRecord
    } else if w == "IF"@ {
        TTokenV::If
    } else if w == "INHERITS"@ {
        TTokenV::Inherits
    } else if w == "INPUT"@ {
        TTokenV::Input
    } else if w == "NEXT"@ {
        TTokenV::Next
    } else if w == "NEW"@ {
        TTokenV::New
    } else if w == "OPENFILE"@ {
        TTokenV::OpenFile
    } else if w == "OTHERWISE"@ {
        TTokenV::Otherwise
    } else if w == "OUTPUT"@ {
        TTokenV::Output
    } else if w == "OF"@ {
        TTokenV::Of
    } else if w == "PROCEDURE"@ {
        TTokenV::Procedure
    } else if w == "PRIVATE"@ {
        TTokenV::Private
    } else if w == "PUBLIC"@ {
        TTokenV::Public
    } else if w == "PUTRECORD"@ {
        TTokenV::PutRecord
    } else if w == "READFILE"@ {
        TTokenV::ReadFile
    } else if w == "REPEAT"@ {
        TTokenV::Repeat
    } else if w == "RETURN"@ {
        TTokenV::Return
    } else if w == "RETURNS"@ {
        TTokenV::ReturnType
    } else if w == "TO"@ {
        TTokenV::To
    } else if w == "SEEK"@ {
        TTokenV::Seek
    } else if w == "STEP"@ {
        TTokenV::Step
    } else if w == "THEN"@ {
        TTokenV::Then
    } else if w == "TYPE"@ {
        TTokenV::Type
    } else if w == "UNTIL"@ {
        TTokenV::Until
    } else if w == "WHILE"@ {
        TTokenV::While
    } else if w == "WRITEFILE"@ {
        TTokenV::WriteFile
    } else if w == "TRUE"@ {
        TTokenV::BoolLit(true)
    } else if w == "FALSE"@ {
        TTokenV::BoolLit(false)
    } else if w == "DIV"@ {
        TTokenV::Operator("//"@)
    } else if w == "MOD"@ {
        TTokenV::Operator("%"@)
    } else if w == "AND"@ {
        TTokenV::Operator("&&"@)
    } else if w == "OR"@ {
        TTokenV::Operator("||"@)
    } else if w == "NOT"@ {
        TTokenV::Operator("!"@)
    } else if w == "INTEGER"@ {
        TTokenV::VarType(TypeV::Integer)
    } else if w == "REAL"@ {
        TTokenV::VarType(TypeV::Real)
    } else if w == "STRING"@ {
        TTokenV::VarType(TypeV::String)
    } else if w == "BOOLEAN"@ {
        TTokenV::VarType(TypeV::Boolean)
    } else if w == "DATE"@ {
        TTokenV::VarType(TypeV::Date)
    } else {
        TTokenV::Identifier(unicode_lowercase(w))
    }
}

/// Classifies a word read by the lexer.
pub fn match_word(word: &Vec<char>) -> (t: TToken)
    ensures
        t@ == word_token(word@),
{
    if chars_eq(word, "APPEND") || chars_eq(word, "WRITE") || chars_eq(word, "READ") || chars_eq(word, "RANDOM") {
        TToken::FileMode(string_from_chars(word))
    } else if chars_eq(word, "BYREF") || chars_eq(word, "BYVAL") {
        TToken::PassBy(string_from_chars(word))
    } else if chars_eq(word, "ARRAY") {
        TToken::Array
    } else if chars_eq(word, "CALL") {
        TToken::Call
    } else if chars_eq(word, "CASE") {
        TToken::Case
    } else if chars_eq(word, "CLASS") {
        TToken::Class
    } else if chars_eq(word, "CLOSEFILE") {
        TToken::CloseFile
    } else if chars_eq(word, "CONSTANT") {
        TToken::Constant
    } else if chars_eq(word, "DECLARE") {
        TToken::Declare
    } else if chars_eq(word, "DEFINE") {
        TToken::Define
    } else if chars_eq(word, "ELSE") {
        TToken::Else
    } else if chars_eq(word, "ENDCASE") {
        TToken::EndCase
    } else if chars_eq(word, "ENDCLASS") {
        TToken::EndClass
    } else if chars_eq(word, "ENDFUNCTION") {
        TToken::EndFunction
    } else if chars_eq(word, "ENDIF") {
        TToken::EndIf
    } else if chars_eq(word, "ENDPROCEDURE") {
        TToken::EndProcedure
    } else if chars_eq(word, "ENDTYPE") {
        TToken::EndType
    } else if chars_eq(word, "ENDWHILE") {
        TToken::EndWhile
    } else if chars_eq(word, "FOR") {
        TToken::For
    } else if chars_eq(word, "FUNCTION") {
        TToken::Function
    } else if chars_eq(word, "GETRECORD") {
        TToken::GetRecord
    } else if chars_eq(word, "IF") {
        TToken::If
    } else if chars_eq(word, "INHERITS") {
        TToken::Inherits
    } else if chars_eq(word, "INPUT") {
        TToken::Input
    } else if chars_eq(word, "NEXT") {
        TToken::Next
    } else if chars_eq(word, "NEW") {
        TToken::New
    } else if chars_eq(word, "OPENFILE") {
        TToken::OpenFile
    } else if chars_eq(word, "OTHERWISE") {
        TToken::Otherwise
    } else if chars_eq(word, "OUTPUT") {
        TToken::Output
    } else if chars_eq(word, "OF") {
        TToken::Of
    } else if chars_eq(word, "PROCEDURE") {
        TToken::Procedure
    } else if chars_eq(word, "PRIVATE") {
        TToken::Private
    } else if chars_eq(word, "PUBLIC") {
        TToken::Public
    } else if chars_eq(word, "PUTRECORD") {
        TToken::PutRecord
    } else if chars_eq(word, "READFILE") {
        TToken::ReadFile
    } else if chars_eq(word, "REPEAT") {
        TToken::Repeat
    } else if chars_eq(word, "RETURN") {
        TToken::Return
    } else if chars_eq(word, "RETURNS") {
        TToken::ReturnType
    } else if chars_eq(word, "TO") {
        TToken::To
    } else if chars_eq(word, "SEEK") {
        TToken::Seek
    } else if chars_eq(word, "STEP") {
        TToken::Step
    } else if chars_eq(word, "THEN") {
        TToken::Then
    } else if chars_eq(word, "TYPE") {
        TToken::Type
    } else if chars_eq(word, "UNTIL") {
        TToken::Until
    } else if chars_eq(word, "WHILE") {
        TToken::While
    } else if chars_eq(word, "WRITEFILE") {
        TToken::WriteFile
    } else if chars_eq(word, "TRUE") {
        TToken::BoolLit(true)
    } else if chars_eq(word, "FALSE") {
        TToken::BoolLit(false)
    } else if chars_eq(word, "DIV") {
        TToken::Operator(String::from_str("//"))
    } else if chars_eq(word, "MOD") {
        TToken::Operator(String::from_str("%"))
    } else if chars_eq(word, "AND") {
        TToken::Operator(String::from_str("&&"))
    } else if chars_eq(word, "OR") {
        TToken::Operator(String::from_str("||"))
    } else if chars_eq(word, "NOT") {
        TToken::Operator(String::from_str("!"))
    } else if chars_eq(word, "INTEGER") {
        TToken::VarType(VariableType::Integer)
    } else if chars_eq(word, "REAL") {
        TToken::VarType(VariableType::Real)
    } else if chars_eq(word, "STRING") {
        TToken::VarType(VariableType::String)
    } else if chars_eq(word, "BOOLEAN") {
        TToken::VarType(VariableType::Boolean)
    } else if chars_eq(word, "DATE") {
        TToken::VarType(VariableType::Date)
    } else {
        let s = string_from_chars(word);
        TToken::Identifier(to_lowercase(s.as_str()))
    }
}

/// The token kind of a symbol: an arithmetic, comparison or concatenation operator
/// (`<>` is read as `!=`), a bracket, `<-` or `\u{2190}` (assignment), `:`, `,`, `^` or `.`, or else `Unknown`.
pub open spec fn symbol_token(s: Seq<char>) -> TTokenV {
    if s == "+"@ || s == "-"@ || s == "*"@ || s == "/"@ {
        TTokenV::Operator(s)
    } else if s == "<>"@ {
        TTokenV::Operator("!="@)
    } else if s == "="@ || s == ">="@ || s == ">"@ || s == "<"@ || s == "<="@ || s == "&"@ {
        TTokenV::Operator(s)
    } else if s == "("@ {
        TTokenV::LParen
    } else if s == ")"@ {
        TTokenV::RParen
    } else if s == "["@ {
        TTokenV::LSqrBracket
    } else if s == "]"@ {
        TTokenV::RSqrBracket
    } else if s == "<-"@ || s == "\u{2190}"@ {
        TTokenV::Assignment
    } else if s == ":"@ {
        TTokenV::Colon
    } else if s == ","@ {
        TTokenV::Comma
    } else if s == "^"@ {
        TTokenV::Caret
    } else if s == "."@ {
        TTokenV::Period
    } else {
        TTokenV::Unknown
    }
}

/// Classifies a symbol read by the lexer.
pub fn match_symbol(sym: &Vec<char>) -> (t: TToken)
    ensures
        t@ == symbol_token(sym@),
{
    if chars_eq(sym, "+") || chars_eq(sym, "-") || chars_eq(sym, "*") || chars_eq(sym, "/") {
        TToken::Operator(string_from_chars(sym))
    } else if chars_eq(sym, "<>") {
        TToken::Operator(String::from_str("!="))
    } else if chars_eq(sym, "=") || chars_eq(sym, ">=") || chars_eq(sym, ">") || chars_eq(sym, "<") || chars_eq(sym, "<=") || chars_eq(sym, "&") {
        TToken::Operator(string_from_chars(sym))
    } else if chars_eq(sym, "(") {
        TToken::LParen
    } else if chars_eq(sym, ")") {
        TToken::RParen
    } else if chars_eq(sym, "[") {
        TToken::LSqrBracket
    } else if chars_eq(sym, "]") {
        TToken::RSqrBracket
    } else if chars_eq(sym, "<-") || chars_eq(sym, "\u{2190}") {
        TToken::Assignment
    } else if chars_eq(sym, ":") {
        TToken::Colon
    } else if chars_eq(sym, ",") {
        TToken::Comma
    } else if chars_eq(sym, "^") {
        TToken::Caret
    } else if chars_eq(sym, ".") {
        TToken::Period
    } else {
        TToken::Unknown
    }
}

pub fn is_digit_exec(c: char) -> (b: bool)
    ensures
        b == is_digit(c),
{
    let u = c as u32;
    48 <= u && u <= 57
}

fn push_token(acc: &mut Vec<Token>, t: TToken, pos: Position)
    ensures
        views(final(acc)@) == views(old(acc)@).push(TokenV { t: t@, pos }),
{
    let ghost tv = t@;
    acc.push(Token { t, pos });
    proof {
        assert(views(acc@) =~= views(old(acc)@).push(TokenV { t: tv, pos }));
    }
}

pub open spec fn piece_views(v: Seq<Vec<char>>) -> Seq<Seq<char>> {
    v.map_values(|p: Vec<char>| p@)
}

/// Total length of the pieces, each counted with one separator after it.
pub open spec fn pieces_total(segs: Seq<Seq<char>>) -> int
    decreases segs.len(),
{
    if segs.len() == 0 {
        0
    } else {
        pieces_total(segs.drop_last()) + segs.last().len() + 1
    }
}

proof fn lemma_pieces_total_prefix(segs: Seq<Seq<char>>, k: int)
    requires
        0 <= k <= segs.len(),
    ensures
        0 <= pieces_total(segs.take(k)) <= pieces_total(segs),
    decreases segs.len() - k,
{
    if k < segs.len() {
        lemma_pieces_total_prefix(segs, k + 1);
        assert(segs.take(k + 1).drop_last() =~= segs.take(k));
    } else {
        assert(segs.take(k) =~= segs);
    }
    lemma_pieces_total_nonneg(segs.take(k));
}

proof fn lemma_pieces_total_nonneg(segs: Seq<Seq<char>>)
    ensures
        pieces_total(segs) >= 0,
    decreases segs.len(),
{
    if segs.len() > 0 {
        lemma_pieces_total_nonneg(segs.drop_last());
    }
}

proof fn lemma_count_zero(s: Seq<char>, c: char)
    requires
        count_char(s, c) == 0,
    ensures
        forall|k: int| 0 <= k < s.len() ==> s[k] != c,
    decreases s.len(),
{
    if s.len() > 0 {
        lemma_count_zero(s.drop_last(), c);
        assert forall|k: int| 0 <= k < s.len() implies s[k] != c by {
            if k < s.len() - 1 {
                assert(s[k] == s.drop_last()[k]);
            }
        }
    }
}

proof fn lemma_decimal_prefix(s: Seq<char>, k: int)
    requires
        0 <= k <= s.len(),
        forall|j: int| 0 <= j < s.len() ==> is_digit(#[trigger] s[j]),
    ensures
        0 <= decimal(s.take(k)) <= decimal(s),
    decreases s.len() - k,
{
    if k < s.len() {
        lemma_decimal_prefix(s, k + 1);
        let t = s.take(k + 1);
        assert(t.drop_last() =~= s.take(k));
        assert(t.last() == s[k]);
    } else {
        assert(s.take(k) =~= s);
        lemma_decimal_nonneg(s);
    }
}

proof fn lemma_decimal_nonneg(s: Seq<char>)
    requires
        forall|j: int| 0 <= j < s.len() ==> is_digit(#[trigger] s[j]),
    ensures
        decimal(s) >= 0,
    decreases s.len(),
{
    if s.len() > 0 {
        let p = s.drop_last();
        assert forall|j: int| 0 <= j < p.len() implies is_digit(#[trigger] p[j]) by {
            assert(p[j] == s[j]);
        }
        lemma_decimal_nonneg(p);
        assert(is_digit(s[s.len() - 1]));
    }
}

/// The token kind of one piece of a number literal.
fn piece_literal_exec(seg: &Vec<char>, pos: Position) -> (r: Result<TToken, LexError>)
    requires
        forall|j: int| 0 <= j < seg.len() ==> is_digit(#[trigger] seg@[j]) || seg@[j] == '.',
    ensures
        match piece_literal(seg@, pos) {
            Ok(t) => r matches Ok(x) && x@ == t,
            Err(e) => r == Err::<TToken, LexError>(e),
        },
{
    let mut dots: usize = 0;
    let mut k: usize = 0;
    while k < seg.len()
        invariant
            k <= seg.len(),
            dots == count_char(seg@.take(k as int), '.'),
            dots <= k,
        decreases seg.len() - k,
    {
        proof {
            assert(seg@.take(k + 1).drop_last() =~= seg@.take(k as int));
        }
        if seg[k] == '.' {
            dots = dots + 1;
        }
        k = k + 1;
    }
    proof {
        assert(seg@.take(k as int) =~= seg@);
    }
    if dots == 0 {
        if seg.len() == 0 {
            return Err(LexError { kind: LexErrorKind::MalformedNumber, pos });
        }
        proof {
            lemma_count_zero(seg@, '.');
        }
        let mut v: i64 = 0;
        let mut k: usize = 0;
        while k < seg.len()
            invariant
                k <= seg.len(),
                forall|j: int| 0 <= j < seg.len() ==> is_digit(#[trigger] seg@[j]),
                v == decimal(seg@.take(k as int)),
                count_char(seg@, '.') == 0,
                seg.len() > 0,
            decreases seg.len() - k,
        {
            let ghost t = seg@.take(k + 1);
            proof {
                assert(t.drop_last() =~= seg@.take(k as int));
                assert(t.last() == seg@[k as int]);
            }
            let d = (seg[k] as u32 - 48) as i64;
            proof {
                lemma_decimal_prefix(seg@, k as int);
                assert(is_digit(seg@[k as int]));
                assert(decimal(t) == v * 10 + d);
            }
            match v.checked_mul(10) {
                None => {
                    proof {
                        lemma_decimal_prefix(seg@, k + 1);
                    }
                    return Err(LexError { kind: LexErrorKind::IntegerTooLarge, pos });
                },
                Some(m) => match m.checked_add(d) {
                    None => {
                        proof {
                            lemma_decimal_prefix(seg@, k + 1);
                        }
                        return Err(LexError { kind: LexErrorKind::IntegerTooLarge, pos });
                    },
                    Some(x) => {
                        v = x;
                    },
                },
            }
            k = k + 1;
        }
        proof {
            assert(seg@.take(k as int) =~= seg@);
        }
        Ok(TToken::IntegerLit(v))
    } else if dots == 1 {
        if seg.len() == 1 {
            return Err(LexError { kind: LexErrorKind::MalformedNumber, pos });
        }
        Ok(TToken::RealLit(string_from_chars(seg)))
    } else {
        Err(LexError { kind: LexErrorKind::MultipleDecimalPoints, pos })
    }
}


pub open spec fn prepend_pieces(a: Seq<TokenV>, r: Result<(Seq<TokenV>, int), LexError>) -> Result<
    (Seq<TokenV>, int),
    LexError,
> {
    match r {
        Ok((b, c)) => Ok((a + b, c)),
        Err(e) => Err(e),
    }
}

/// Splits the text of a number literal at its slashes.
fn split_pieces(text: &Vec<char>) -> (segs: Vec<Vec<char>>)
    requires
        forall|j: int| 0 <= j < text.len() ==> is_number_char(#[trigger] text@[j]),
    ensures
        piece_views(segs@) == split_slash(text@),
        pieces_total(piece_views(segs@)) == text.len() + 1,
        forall|p: int, j: int|
            0 <= p < segs.len() && 0 <= j < segs@[p].len() ==> is_digit(#[trigger] segs@[p]@[j])
                || segs@[p]@[j] == '.',
{
    let mut segs: Vec<Vec<char>> = Vec::new();
    segs.push(Vec::new());
    let mut k: usize = 0;
    proof {
        assert(piece_views(segs@) =~= split_slash(text@.take(0)));
        assert(piece_views(segs@).drop_last() =~= Seq::<Seq<char>>::empty());
        assert(piece_views(segs@).last() =~= Seq::<char>::empty());
        assert(pieces_total(Seq::<Seq<char>>::empty()) == 0);
    }
    while k < text.len()
        invariant
            k <= text.len(),
            segs.len() >= 1,
            forall|j: int| 0 <= j < text.len() ==> is_number_char(#[trigger] text@[j]),
            piece_views(segs@) == split_slash(text@.take(k as int)),
            pieces_total(piece_views(segs@)) == k + 1,
            forall|p: int, j: int|
                0 <= p < segs.len() && 0 <= j < segs@[p].len() ==> is_digit(
                    #[trigger] segs@[p]@[j],
                ) || segs@[p]@[j] == '.',
        decreases text.len() - k,
    {
        let c = text[k];
        let ghost t = text@.take(k + 1);
        let ghost old_views = piece_views(segs@);
        let ghost old_segs = segs@;
        proof {
            assert(t.drop_last() =~= text@.take(k as int));
            assert(t.last() == c);
        }
        if c == '/' {
            segs.push(Vec::new());
            proof {
                assert(piece_views(segs@) =~= old_views.push(Seq::<char>::empty()));
                assert(piece_views(segs@).drop_last() =~= old_views);
            }
        } else {
            let mut cur = segs.pop().unwrap();
            let ghost before = segs@;
            cur.push(c);
            segs.push(cur);
            proof {
                assert(piece_views(segs@) =~= old_views.update(
                    old_views.len() - 1,
                    old_views.last().push(c),
                ));
                assert(piece_views(segs@).drop_last() =~= old_views.drop_last());
                assert forall|p: int, j: int|
                    0 <= p < segs.len() && 0 <= j < segs@[p].len() implies is_digit(
                        #[trigger] segs@[p]@[j],
                    ) || segs@[p]@[j] == '.' by {
                    if p < segs.len() - 1 {
                        assert(segs@[p] == old_segs[p]);
                    } else if j < segs@[p].len() - 1 {
                        assert(segs@[p]@[j] == old_views.last()[j]);
                    }
                }
            }
        }
        k = k + 1;
    }
    proof {
        assert(text@.take(k as int) =~= text@);
    }
    segs
}

/// Lexes the number literal that starts at `i` (a digit).
fn lex_number(s: &Vec<char>, i: usize, line: usize, col: usize, acc: &mut Vec<Token>) -> (res:
    Result<(usize, usize, usize), LexError>)
    requires
        i < s.len(),
        is_digit(s@[i as int]),
        s.len() <= usize::MAX / 8,
        col <= 4 * i,
    ensures
        match number_step(s@, i as int, line as int, col as int) {
            Ok((ts, i2, l2, c2)) => {
                &&& res == Ok::<(usize, usize, usize), LexError>(
                    (i2 as usize, l2 as usize, c2 as usize),
                )
                &&& views(final(acc)@) == views(old(acc)@) + ts
                &&& i < i2 <= s.len()
                &&& l2 == line
                &&& 0 <= c2 <= col + 4 * (i2 - i)
            },
            Err(e) => res == Err::<(usize, usize, usize), LexError>(e),
        },
{
    let n = s.len();
    let mut text: Vec<char> = Vec::new();
    text.push(s[i]);
    let mut j = i + 1;
    let mut slash_count: usize = 0;
    let mut dot_count: usize = 0;
    let mut possible_date = false;
    proof {
        assert(text@ =~= s@.subrange(i as int, j as int));
        assert(text@.drop_last() =~= Seq::<char>::empty());
        assert(text@.last() == s@[i as int]);
        assert(count_char(Seq::<char>::empty(), '/') == 0);
        assert(count_char(Seq::<char>::empty(), '.') == 0);
        assert(count_char(text@, '/') == 0);
        assert(count_char(text@, '.') == 0);
        assert(date_flag(Seq::<char>::empty()) == false);
    }
    while j < n && (s[j] == '/' || s[j] == '.' || is_digit_exec(s[j]))
        invariant
            i < j <= n,
            n == s.len(),
            n <= usize::MAX / 8,
            text@ == s@.subrange(i as int, j as int),
            slash_count == count_char(text@, '/'),
            dot_count == count_char(text@, '.'),
            slash_count <= j - i,
            dot_count <= j - i,
            possible_date == date_flag(text@),
            number_end(s@, i + 1) == number_end(s@, j as int),
            forall|k: int| 0 <= k < text.len() ==> is_number_char(#[trigger] text@[k]),
        decreases n - j,
    {
        let c = s[j];
        let ghost old_text = text@;
        if c == '/' {
            slash_count = slash_count + 1;
            possible_date = slash_count == 2 && dot_count == 0;
        } else if c == '.' {
            dot_count = dot_count + 1;
        }
        text.push(c);
        proof {
            assert(text@.drop_last() =~= old_text);
            assert(text@ =~= s@.subrange(i as int, j + 1));
        }
        j = j + 1;
    }
    proof {
        assert(number_end(s@, j as int) == j);
    }
    let len = j - i;
    if possible_date {
        let pos = Position::from(line, col, len);
        match parse_dmy(&text) {
            Some(d) => {
                push_token(acc, TToken::DateLit(d), pos);
                Ok((j, line, col + len))
            },
            None => Err(LexError { kind: LexErrorKind::InvalidDate, pos }),
        }
    } else {
        let segs = split_pieces(&text);
        let ghost sv = piece_views(segs@);
        let ghost acc0 = views(acc@);
        let ghost mut here: Seq<TokenV> = Seq::empty();
        let mut c2 = col;
        let mut k: usize = 0;
        proof {
            lemma_split_slash_nonempty(text@);
            assert(sv.skip(0) =~= sv);
            assert(sv.take(0) =~= Seq::<Seq<char>>::empty());
        }
        while k < segs.len()
            invariant
                k <= segs.len(),
                sv == piece_views(segs@),
                sv == split_slash(text@),
                text@ == s@.subrange(i as int, j as int),
                !date_flag(text@),
                number_end(s@, i + 1) == j,
                n == s.len(),
                i < j,
                pieces_total(sv) == len + 1,
                len == j - i,
                j <= n,
                n <= usize::MAX / 8,
                col <= 4 * i,
                forall|p: int, q: int|
                    0 <= p < segs.len() && 0 <= q < segs@[p].len() ==> is_digit(
                        #[trigger] segs@[p]@[q],
                    ) || segs@[p]@[q] == '.',
                views(acc@) == acc0 + here,
                here.len() == 2 * k,
                c2 == col + pieces_total(sv.take(k as int)),
                pieces_tokens(sv, line as int, col as int) == prepend_pieces(
                    here,
                    pieces_tokens(sv.skip(k as int), line as int, c2 as int),
                ),
            decreases segs.len() - k,
        {
            proof {
                lemma_pieces_total_prefix(sv, k + 1);
                assert(sv.take(k + 1).drop_last() =~= sv.take(k as int));
                assert(sv[k as int] == segs@[k as int]@);
            }
            let seg = &segs[k];
            let sl = seg.len();
            let pos = Position::from(line, c2, sl);
            let ghost rest = sv.skip(k as int);
            proof {
                assert(rest[0] == sv[k as int]);
                assert(rest.drop_first() =~= sv.skip(k + 1));
            }
            match piece_literal_exec(seg, pos) {
                Err(e) => {
                    proof {
                        assert(pieces_tokens(rest, line as int, c2 as int) == Err::<
                            (Seq<TokenV>, int),
                            LexError,
                        >(e));
                    }
                    return Err(e);
                },
                Ok(t) => {
                    let ghost tv = t@;
                    push_token(acc, t, pos);
                    let spos = Position::from(line, c2 + sl, 1);
                    push_token(acc, TToken::Operator(String::from_str("/")), spos);
                    proof {
                        let slash = TokenV { t: TTokenV::Operator("/"@), pos: spos };
                        assert(views(acc@) =~= acc0 + (here + seq![TokenV { t: tv, pos }, slash]));
                        assert(pieces_tokens(rest, line as int, c2 as int) == prepend_pieces(
                            seq![TokenV { t: tv, pos }, slash],
                            pieces_tokens(sv.skip(k + 1), line as int, c2 + sl + 1),
                        ));
                        match pieces_tokens(sv.skip(k + 1), line as int, c2 + sl + 1) {
                            Ok((b, cc)) => {
                                assert(here + (seq![TokenV { t: tv, pos }, slash] + b) =~= (here
                                    + seq![TokenV { t: tv, pos }, slash]) + b);
                            },
                            Err(_) => {},
                        }
                        here = here + seq![TokenV { t: tv, pos }, slash];
                    }
                    c2 = c2 + sl + 1;
                },
            }
            k = k + 1;
        }
        proof {
            assert(sv.skip(k as int) =~= Seq::<Seq<char>>::empty());
            assert(sv.take(k as int) =~= sv);
            assert(here + Seq::<TokenV>::empty() =~= here);
        }
        if text[text.len() - 1] != '/' {
            let ghost before = acc@;
            proof {
                lemma_split_slash_nonempty(text@);
                assert(here.len() >= 2);
                assert(views(before) == acc0 + here);
            }
            acc.pop();
            proof {
                assert(acc@ =~= before.drop_last());
                assert(views(acc@) =~= views(before).drop_last());
                assert(views(acc@) =~= acc0 + here.drop_last());
            }
        }
        Ok((j, line, c2))
    }
}


pub open spec fn step_ok(
    s: Seq<char>,
    i: int,
    line: int,
    col: int,
    res: Result<(usize, usize, usize), LexError>,
    before: Seq<Token>,
    after: Seq<Token>,
) -> bool {
    match lex_step(s, i, line, col) {
        Ok((ts, i2, l2, c2)) => {
            &&& res == Ok::<(usize, usize, usize), LexError>((i2 as usize, l2 as usize, c2 as usize))
            &&& views(after) == views(before) + ts
            &&& i < i2 <= s.len()
            &&& line <= l2 <= line + (i2 - i)
            &&& 0 <= c2 <= col + 4 * (i2 - i)
        },
        Err(e) => res == Err::<(usize, usize, usize), LexError>(e),
    }
}

/// Lexes one word (keyword or identifier) starting at `i`.
fn lex_word(s: &Vec<char>, i: usize, line: usize, col: usize, acc: &mut Vec<Token>) -> (res:
    Result<(usize, usize, usize), LexError>)
    requires
        i < s.len(),
        is_word_start(s@[i as int]),
        s.len() <= usize::MAX / 8,
        col <= 4 * i,
    ensures
        step_ok(s@, i as int, line as int, col as int, res, old(acc)@, final(acc)@),
{
    let n = s.len();
    let mut w: Vec<char> = Vec::new();
    w.push(s[i]);
    let mut j = i + 1;
    proof {
        assert(w@ =~= s@.subrange(i as int, j as int));
    }
    while j < n && (is_alphanumeric(s[j]) || s[j] == '_')
        invariant
            i < j <= n,
            n == s.len(),
            w@ == s@.subrange(i as int, j as int),
            word_end(s@, i + 1) == word_end(s@, j as int),
        decreases n - j,
    {
        w.push(s[j]);
        proof {
            assert(w@ =~= s@.subrange(i as int, j + 1));
        }
        j = j + 1;
    }
    proof {
        assert(word_end(s@, j as int) == j);
        lemma_text_width_bounds(w@);
    }
    let width = chars_width(&w);
    let t = match_word(&w);
    let pos = Position::from(line, col, width);
    let ghost tv = t@;
    push_token(acc, t, pos);
    proof {
        assert(views(acc@) =~= views(old(acc)@) + seq![TokenV { t: tv, pos }]);
        assert(pos == pos_from(line as int, col as int, text_width(w@) as int));
    }
    Ok((j, line, col + width))
}

/// Lexes a symbol starting at `i`: `<` and `>` absorb following `-`, `=` and `>`.
fn lex_symbol(s: &Vec<char>, i: usize, line: usize, col: usize, acc: &mut Vec<Token>) -> (res:
    Result<(usize, usize, usize), LexError>)
    requires
        i < s.len(),
        s.len() <= usize::MAX / 8,
        col <= 4 * i,
        !(s@[i as int] == ' ' || s@[i as int] == '\t' || s@[i as int] == '\r'),
        s@[i as int] != '\n',
        !is_digit(s@[i as int]),
        !is_word_start(s@[i as int]),
        s@[i as int] != '/',
        s@[i as int] != '"',
    ensures
        step_ok(s@, i as int, line as int, col as int, res, old(acc)@, final(acc)@),
{
    let n = s.len();
    let c = s[i];
    let mut sym: Vec<char> = Vec::new();
    sym.push(c);
    let mut j = i + 1;
    proof {
        assert(sym@ =~= s@.subrange(i as int, j as int));
    }
    if c == '<' || c == '>' {
        while j < n && (s[j] == '-' || s[j] == '=' || s[j] == '>')
            invariant
                i < j <= n,
                n == s.len(),
                sym@ == s@.subrange(i as int, j as int),
                symbol_end(s@, i + 1) == symbol_end(s@, j as int),
            decreases n - j,
        {
            sym.push(s[j]);
            proof {
                assert(sym@ =~= s@.subrange(i as int, j + 1));
            }
            j = j + 1;
        }
        proof {
            assert(symbol_end(s@, j as int) == j);
        }
    }
    proof {
        lemma_text_width_bounds(sym@);
    }
    let width = chars_width(&sym);
    let t = match_symbol(&sym);
    let pos = Position::from(line, col, width);
    let ghost tv = t@;
    push_token(acc, t, pos);
    proof {
        assert(views(acc@) =~= views(old(acc)@) + seq![TokenV { t: tv, pos }]);
        assert(pos == pos_from(line as int, col as int, text_width(sym@) as int));
        if c == '<' || c == '>' {
            assert(sym@ == s@.subrange(i as int, symbol_end(s@, i + 1)));
        } else {
            assert(sym@ == s@.subrange(i as int, i + 1));
        }
    }
    Ok((j, line, col + width))
}

/// Lexes a string literal whose opening quote is at `i`.
fn lex_string(s: &Vec<char>, i: usize, line: usize, col: usize, acc: &mut Vec<Token>) -> (res:
    Result<(usize, usize, usize), LexError>)
    requires
        i < s.len(),
        s@[i as int] == '"',
        s.len() <= usize::MAX / 8,
        col <= 4 * i,
        line <= i + 1,
    ensures
        step_ok(s@, i as int, line as int, col as int, res, old(acc)@, final(acc)@),
{
    let n = s.len();
    let mut lit: Vec<char> = Vec::new();
    let mut j = i + 1;
    let mut l = line;
    let mut c2 = col + 1;
    proof {
        assert(lit@ =~= s@.subrange(i + 1, j as int));
    }
    while j < n && s[j] != '"'
        invariant
            i < j <= n,
            n == s.len(),
            n <= usize::MAX / 8,
            col <= 4 * i,
            line <= i + 1,
            lit@ == s@.subrange(i + 1, j as int),
            (l as int, c2 as int) == advance(lit@, line as int, col + 1),
            line <= l <= line + lit.len(),
            c2 <= col + 1 + lit.len(),
            quote_end(s@, i + 1) == quote_end(s@, j as int),
        decreases n - j,
    {
        let ch = s[j];
        let ghost old_lit = lit@;
        if ch == '\n' {
            c2 = 0;
            l = l + 1;
        } else {
            c2 = c2 + 1;
        }
        lit.push(ch);
        proof {
            assert(lit@ =~= s@.subrange(i + 1, j + 1));
            assert(lit@.drop_last() =~= old_lit);
        }
        j = j + 1;
    }
    proof {
        assert(quote_end(s@, j as int) == j);
    }
    let i2 = if j < n {
        j + 1
    } else {
        j
    };
    let pos = Position::new(line, l, col, c2 + 1);
    let st = string_from_chars(&lit);
    push_token(acc, TToken::StringLit(st), pos);
    proof {
        assert(views(acc@) =~= views(old(acc)@) + seq![
            TokenV { t: TTokenV::StringLit(lit@), pos },
        ]);
    }
    Ok((i2, l, c2 + 1))
}

/// Skips a comment whose `//` starts at `i`, up to (not including) the end of the line.
fn lex_comment(s: &Vec<char>, i: usize, line: usize, col: usize, acc: &mut Vec<Token>) -> (res:
    Result<(usize, usize, usize), LexError>)
    requires
        i + 1 < s.len(),
        s@[i as int] == '/',
        s@[i + 1] == '/',
    ensures
        step_ok(s@, i as int, line as int, col as int, res, old(acc)@, final(acc)@),
{
    let n = s.len();
    let mut j = i + 1;
    while j < n && s[j] != '\n'
        invariant
            i < j <= n,
            n == s.len(),
            comment_end(s@, i + 1) == comment_end(s@, j as int),
        decreases n - j,
    {
        j = j + 1;
    }
    proof {
        assert(comment_end(s@, j as int) == j);
        assert(views(acc@) =~= views(acc@) + Seq::<TokenV>::empty());
    }
    Ok((j, line, col))
}

pub fn is_word_start_exec(c: char) -> (b: bool)
    ensures
        b == is_word_start(c),
{
    let u = c as u32;
    (65 <= u && u <= 90) || (97 <= u && u <= 122) || c == '_'
}

/// Lexes whatever starts at index `i`.
fn lex_one(s: &Vec<char>, i: usize, line: usize, col: usize, acc: &mut Vec<Token>) -> (res:
    Result<(usize, usize, usize), LexError>)
    requires
        i < s.len(),
        s.len() <= usize::MAX / 8,
        col <= 4 * i,
        line <= i + 1,
    ensures
        step_ok(s@, i as int, line as int, col as int, res, old(acc)@, final(acc)@),
{
    let c = s[i];
    if c == ' ' || c == '\t' || c == '\r' {
        proof {
            assert(views(acc@) =~= views(acc@) + Seq::<TokenV>::empty());
        }
        Ok((i + 1, line, col + 1))
    } else if c == '\n' {
        push_token(acc, TToken::Newline, Position::from(line, col, 1));
        proof {
            assert(views(acc@) =~= views(old(acc)@) + seq![
                TokenV { t: TTokenV::Newline, pos: pos_from(line as int, col as int, 1) },
            ]);
        }
        Ok((i + 1, line + 1, 0))
    } else if is_digit_exec(c) {
        lex_number(s, i, line, col, acc)
    } else if is_word_start_exec(c) {
        lex_word(s, i, line, col, acc)
    } else if c == '/' {
        if i + 1 < s.len() && s[i + 1] == '/' {
            lex_comment(s, i, line, col, acc)
        } else {
            push_token(acc, TToken::Operator(String::from_str("/")), Position::from(line, col, 1));
            proof {
                assert(views(acc@) =~= views(old(acc)@) + seq![
                    TokenV { t: TTokenV::Operator("/"@), pos: pos_from(line as int, col as int, 1) },
                ]);
            }
            Ok((i + 1, line, col + 1))
        }
    } else if c == '"' {
        lex_string(s, i, line, col, acc)
    } else {
        lex_symbol(s, i, line, col, acc)
    }
}


fn is_newline(t: &TToken) -> (b: bool)
    ensures
        b == (t@ is Newline),
{
    match t {
        TToken::Newline => true,
        _ => false,
    }
}

/// Drops every newline token that directly follows another newline token.
fn collapse(ts: &Vec<Token>) -> (out: Vec<Token>)
    ensures
        views(out@) == collapse_newlines(views(ts@)),
{
    let mut out: Vec<Token> = Vec::new();
    let mut k: usize = 0;
    proof {
        assert(views(ts@).take(0) =~= Seq::<TokenV>::empty());
        assert(views(out@) =~= Seq::<TokenV>::empty());
    }
    while k < ts.len()
        invariant
            k <= ts.len(),
            views(out@) == collapse_newlines(views(ts@).take(k as int)),
        decreases ts.len() - k,
    {
        let ghost pre = views(ts@).take(k + 1);
        proof {
            assert(pre.drop_last() =~= views(ts@).take(k as int));
            assert(pre.last() == ts@[k as int]@);
            if k >= 1 {
                assert(pre[pre.len() - 2] == ts@[k - 1]@);
            }
        }
        let skip = k >= 1 && is_newline(&ts[k].t) && is_newline(&ts[k - 1].t);
        if !skip {
            let t = ts[k].clone();
            let ghost o = out@;
            out.push(t);
            proof {
                assert(views(out@) =~= views(o).push(ts@[k as int]@));
            }
        }
        k = k + 1;
    }
    proof {
        assert(views(ts@).take(k as int) =~= views(ts@));
    }
    out
}

proof fn lemma_prepend_assoc(a: Seq<TokenV>, b: Seq<TokenV>, r: Result<Seq<TokenV>, LexError>)
    ensures
        prepend(a, prepend(b, r)) == prepend(a + b, r),
{
    match r {
        Ok(x) => {
            assert(a + (b + x) =~= (a + b) + x);
        },
        Err(_) => {},
    }
}

/// Reads the tokens of a source text: literals, keywords, identifiers (lower-cased),
/// operators and symbols, one newline token for each run of line ends, and a closing
/// `EOF` token. Comments (`//` to the end of the line) and blanks produce no token.
pub fn lexer(buf: &Vec<char>) -> (res: Result<Vec<Token>, LexError>)
    requires
        buf.len() <= usize::MAX / 8,
    ensures
        match lex_spec(buf@) {
            Ok(ts) => res matches Ok(v) && views(v@) == ts,
            Err(e) => res == Err::<Vec<Token>, LexError>(e),
        },
{
    let n = buf.len();
    let mut acc: Vec<Token> = Vec::new();
    let mut i: usize = 0;
    let mut line: usize = 1;
    let mut col: usize = 0;
    proof {
        assert(views(acc@) =~= Seq::<TokenV>::empty());
        assert(scan(buf@, 0, 1, 0) == prepend(Seq::<TokenV>::empty(), scan(buf@, 0, 1, 0))) by {
            match scan(buf@, 0, 1, 0) {
                Ok(x) => {
                    assert(Seq::<TokenV>::empty() + x =~= x);
                },
                Err(_) => {},
            }
        }
    }
    while i < n
        invariant
            i <= n,
            n == buf.len(),
            n <= usize::MAX / 8,
            col <= 4 * i,
            line <= i + 1,
            scan(buf@, 0, 1, 0) == prepend(views(acc@), scan(buf@, i as int, line as int, col as int)),
        decreases n - i,
    {
        let ghost before = acc@;
        let r = lex_one(buf, i, line, col, &mut acc);
        match r {
            Err(e) => {
                proof {
                    assert(scan(buf@, i as int, line as int, col as int) == Err::<Seq<TokenV>, LexError>(e));
                }
                return Err(e);
            },
            Ok((i2, l2, c2)) => {
                proof {
                    match lex_step(buf@, i as int, line as int, col as int) {
                        Ok((ts, i2s, l2s, c2s)) => {
                            assert(i2s == i2 && l2s == l2 && c2s == c2);
                            assert(scan(buf@, i as int, line as int, col as int) == prepend(
                                ts,
                                scan(buf@, i2 as int, l2 as int, c2 as int),
                            ));
                            lemma_prepend_assoc(
                                views(before),
                                ts,
                                scan(buf@, i2 as int, l2 as int, c2 as int),
                            );
                        },
                        Err(_) => {},
                    }
                }
                i = i2;
                line = l2;
                col = c2;
            },
        }
    }
    let ghost before = acc@;
    push_token(&mut acc, TToken::EOF, Position::from(line, col, 1));
    proof {
        assert(views(acc@) =~= views(before) + seq![
            TokenV { t: TTokenV::EOF, pos: pos_from(line as int, col as int, 1) },
        ]);
    }
    Ok(collapse(&acc))
}


proof fn lemma_scan_ends_with_eof(s: Seq<char>, i: int, line: int, col: int)
    ensures
        scan(s, i, line, col) matches Ok(ts) ==> ts.len() > 0 && ts.last().t is EOF,
    decreases s.len() - i,
{
    if !(i < 0 || i >= s.len()) {
        match lex_step(s, i, line, col) {
            Ok((ts, i2, l2, c2)) => {
                if !(i2 <= i || i2 > s.len()) {
                    lemma_scan_ends_with_eof(s, i2, l2, c2);
                    match scan(s, i2, l2, c2) {
                        Ok(r) => {
                            assert((ts + r).last() == r.last());
                        },
                        Err(_) => {},
                    }
                }
            },
            Err(_) => {},
        }
    }
}

proof fn lemma_collapse_last(ts: Seq<TokenV>)
    requires
        ts.len() > 0,
    ensures
        collapse_newlines(ts).len() > 0,
        (collapse_newlines(ts).last().t is Newline) == (ts.last().t is Newline),
        !(ts.last().t is Newline) ==> collapse_newlines(ts).last() == ts.last(),
    decreases ts.len(),
{
    if ts.len() >= 2 && ts.last().t is Newline && ts[ts.len() - 2].t is Newline {
        lemma_collapse_last(ts.drop_last());
    }
}

proof fn lemma_collapse_no_double_newline(ts: Seq<TokenV>)
    ensures
        forall|k: int|
            0 <= k < collapse_newlines(ts).len() - 1 ==> !(collapse_newlines(ts)[k].t is Newline
                && #[trigger] collapse_newlines(ts)[k + 1].t is Newline),
    decreases ts.len(),
{
    if ts.len() > 0 {
        let c = collapse_newlines(ts.drop_last());
        lemma_collapse_no_double_newline(ts.drop_last());
        if !(ts.len() >= 2 && ts.last().t is Newline && ts[ts.len() - 2].t is Newline) {
            if ts.len() >= 2 {
                lemma_collapse_last(ts.drop_last());
            }
            let r = c.push(ts.last());
            assert forall|k: int| 0 <= k < r.len() - 1 implies !(r[k].t is Newline
                && #[trigger] r[k + 1].t is Newline) by {
                if k < c.len() - 1 {
                    assert(r[k] == c[k] && r[k + 1] == c[k + 1]);
                }
            }
        }
    }
}

/// Whenever lexing succeeds, the token stream ends with `EOF`, and no newline token directly
/// follows another: any run of blank or comment-only lines yields a single newline.
pub proof fn law_lexer_output_shape(s: Seq<char>)
    ensures
        lex_spec(s) matches Ok(ts) ==> {
            &&& ts.len() > 0
            &&& ts.last().t is EOF
            &&& forall|k: int|
                0 <= k < ts.len() - 1 ==> !(ts[k].t is Newline && #[trigger] ts[k + 1].t is Newline)
        },
{
    lemma_scan_ends_with_eof(s, 0, 1, 0);
    match scan(s, 0, 1, 0) {
        Ok(ts) => {
            lemma_collapse_last(ts);
            lemma_collapse_no_double_newline(ts);
        },
        Err(_) => {},
    }
}

/// A comment runs from `//` to the end of the line: lexing at a `//` reads exactly what
/// lexing from the next line end (or the end of the text) reads, at the same line and column.
pub proof fn law_comment_skipped(s: Seq<char>, i: int, line: int, col: int)
    requires
        0 <= i,
        i + 1 < s.len(),
        s[i] == '/',
        s[i + 1] == '/',
    ensures
        scan(s, i, line, col) == scan(s, comment_end(s, i + 1), line, col),
{
    lemma_comment_end(s, i + 1);
    assert(scan(s, i, line, col) == prepend(Seq::empty(), scan(s, comment_end(s, i + 1), line, col)));
    match scan(s, comment_end(s, i + 1), line, col) {
        Ok(x) => {
            assert(Seq::<TokenV>::empty() + x =~= x);
        },
        Err(_) => {},
    }
}

proof fn lemma_comment_end(s: Seq<char>, j: int)
    requires
        0 <= j <= s.len(),
    ensures
        j <= comment_end(s, j) <= s.len(),
    decreases s.len() - j,
{
    if j < s.len() && s[j] != '\n' {
        lemma_comment_end(s, j + 1);
    }
}

/// The operators a program writes with symbols for arithmetic, comparison and
/// concatenation.
pub open spec fn written_operator(op: Seq<char>) -> bool {
    op == "+"@ || op == "-"@ || op == "*"@ || op == "/"@ || op == "="@ || op == ">="@ || op == ">"@ || op == "<"@
        || op == "<="@ || op == "&"@
}

/// An operator symbol reads as the operator with that same text: `<` is `<`, `<=` is `<=`,
/// and so on, so no two of them read alike. It takes exactly its own characters, when the
/// character after it cannot continue a symbol (nor, after `/`, start a comment).
pub proof fn law_operator_symbol_reads_as_itself(s: Seq<char>, i: int, line: int, col: int, op: Seq<char>)
    requires
        written_operator(op),
        0 <= i,
        i + op.len() <= s.len(),
        s.subrange(i, i + op.len()) == op,
        i + op.len() == s.len() || !is_symbol_tail(s[i + op.len()]),
        op == "/"@ && i + 1 < s.len() ==> s[i + 1] != '/',
    ensures
        symbol_token(op) == TTokenV::Operator(op),
        lex_step(s, i, line, col) matches Ok((ts, e, _, _)) && ts.len() == 1 && ts[0].t == TTokenV::Operator(
            op,
        ) && e == i + op.len(),
{
    reveal_strlit("+");
    reveal_strlit("-");
    reveal_strlit("*");
    reveal_strlit("=");
    reveal_strlit(">=");
    reveal_strlit(">");
    reveal_strlit("<");
    reveal_strlit("<=");
    reveal_strlit("&");
    reveal_strlit("/");
    reveal_strlit("<>");
    reveal_strlit("(");
    reveal_strlit(")");
    reveal_strlit("[");
    reveal_strlit("]");
    reveal_strlit("<-");
    reveal_strlit("\u{2190}");
    reveal_strlit(":");
    reveal_strlit(",");
    reveal_strlit("^");
    reveal_strlit(".");
    assert(s[i] == op[0]);
    let e = if s[i] == '<' || s[i] == '>' {
        symbol_end(s, i + 1)
    } else {
        i + 1
    };
    if op.len() == 2 {
        assert(s[i + 1] == op[1]);
        assert(is_symbol_tail(s[i + 1]));
        assert(symbol_end(s, i + 2) == i + 2);
        assert(symbol_end(s, i + 1) == i + 2);
    } else if s[i] == '<' || s[i] == '>' {
        assert(symbol_end(s, i + 1) == i + 1);
    }
    assert(e == i + op.len());
    assert(s.subrange(i, e) == op);
}

/// `<>` reads as the operator `!=`, taking its two characters, when the character after it
/// cannot continue a symbol.
pub proof fn law_not_equal_symbol_reads_as_inequality(s: Seq<char>, i: int, line: int, col: int)
    requires
        0 <= i,
        i + 2 <= s.len(),
        s[i] == '<',
        s[i + 1] == '>',
        i + 2 == s.len() || !is_symbol_tail(s[i + 2]),
    ensures
        lex_step(s, i, line, col) matches Ok((ts, e, _, _)) && ts.len() == 1 && ts[0].t == TTokenV::Operator(
            "!="@,
        ) && e == i + 2,
{
    reveal_strlit("+");
    reveal_strlit("-");
    reveal_strlit("*");
    reveal_strlit("/");
    reveal_strlit("<>");
    assert(is_symbol_tail(s[i + 1]));
    assert(symbol_end(s, i + 2) == i + 2);
    assert(symbol_end(s, i + 1) == i + 2);
    assert(s.subrange(i, i + 2) =~= "<>"@);
}

} // verus!
