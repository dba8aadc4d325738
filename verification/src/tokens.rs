use crate::types::{Date, TypeV, VariableType};
use crate::position::Position;
use vstd::prelude::*;

verus! {

/// The kinds of token the lexer produces. A real literal keeps the text it was written with.
#[derive(Debug, PartialEq)]
pub enum TToken {
    BoolLit(bool),
    StringLit(String),
    IntegerLit(i64),
    RealLit(String),
    DateLit(Date),
    LParen,
    RParen,
    LSqrBracket,
    RSqrBracket,
    Assignment,
    Colon,
    Comma,
    Caret,
    Period,
    VarType(VariableType),
    Operator(String),
    FileMode(String),
    PassBy(String),
    Array,
    Call,
    Case,
    Class,
    CloseFile,
    Constant,
    Declare,
    Define,
    Else,
    EndCase,
    EndClass,
    EndFunction,
    EndIf,
    EndProcedure,
    EndType,
    EndWhile,
    For,
    Function,
    GetRecord,
    If,
    Inherits,
    Input,
    Next,
    New,
    OpenFile,
    Otherwise,
    Output,
    Of,
    Procedure,
    Private,
    Public,
    PutRecord,
    ReadFile,
    Repeat,
    Return,
    ReturnType,
    To,
    Seek,
    Step,
    Then,
    Type,
    Until,
    While,
    WriteFile,
    Newline,
    Identifier(String),
    EOF,
    Unknown,
}

/// The mathematical value of a token kind: text payloads become character sequences.

pub enum TTokenV {
    BoolLit(bool),
    StringLit(Seq<char>),
    IntegerLit(i64),
    RealLit(Seq<char>),
    DateLit(Date),
    LParen,
    RParen,
    LSqrBracket,
    RSqrBracket,
    Assignment,
    Colon,
    Comma,
    Caret,
    Period,
    VarType(TypeV),
    Operator(Seq<char>),
    FileMode(Seq<char>),
    PassBy(Seq<char>),
    Array,
    Call,
    Case,
    Class,
    CloseFile,
    Constant,
    Declare,
    Define,
    Else,
    EndCase,
    EndClass,
    EndFunction,
    EndIf,
    EndProcedure,
    EndType,
    EndWhile,
    For,
    Function,
    GetRecord,
    If,
    Inherits,
    Input,
    Next,
    New,
    OpenFile,
    Otherwise,
    Output,
    Of,
    Procedure,
    Private,
    Public,
    PutRecord,
    ReadFile,
    Repeat,
    Return,
    ReturnType,
    To,
    Seek,
    Step,
    Then,
    Type,
    Until,
    While,
    WriteFile,
    Newline,
    Identifier(Seq<char>),
    EOF,
    Unknown,
}

impl View for TToken {
    type V = TTokenV;

    open spec fn view(&self) -> TTokenV {
        match self {
            TToken::BoolLit(v) => TTokenV::BoolLit(*v),
            TToken::StringLit(v) => TTokenV::StringLit(v@),
            TToken::IntegerLit(v) => TTokenV::IntegerLit(*v),
            TToken::RealLit(v) => TTokenV::RealLit(v@),
            TToken::DateLit(v) => TTokenV::DateLit(*v),
            TToken::LParen => TTokenV::LParen,
            TToken::RParen => TTokenV::RParen,
            TToken::LSqrBracket => TTokenV::LSqrBracket,
            TToken::RSqrBracket => TTokenV::RSqrBracket,
            TToken::Assignment => TTokenV::Assignment,
            TToken::Colon => TTokenV::Colon,
            TToken::Comma => TTokenV::Comma,
            TToken::Caret => TTokenV::Caret,
            TToken::Period => TTokenV::Period,
            TToken::VarType(v) => TTokenV::VarType(v@),
            TToken::Operator(v) => TTokenV::Operator(v@),
            TToken::FileMode(v) => TTokenV::FileMode(v@),
            TToken::PassBy(v) => TTokenV::PassBy(v@),
            TToken::Array => TTokenV::Array,
            TToken::Call => TTokenV::Call,
            TToken::Case => TTokenV::Case,
            TToken::Class => TTokenV::Class,
            TToken::CloseFile => TTokenV::CloseFile,
            TToken::Constant => TTokenV::Constant,
            TToken::Declare => TTokenV::Declare,
            TToken::Define => TTokenV::Define,
            TToken::Else => TTokenV::Else,
            TToken::EndCase => TTokenV::EndCase,
            TToken::EndClass => TTokenV::EndClass,
            TToken::EndFunction => TTokenV::EndFunction,
            TToken::EndIf => TTokenV::EndIf,
            TToken::EndProcedure => TTokenV::EndProcedure,
            TToken::EndType => TTokenV::EndType,
            TToken::EndWhile => TTokenV::EndWhile,
            TToken::For => TTokenV::For,
            TToken::Function => TTokenV::Function,
            TToken::GetRecord => TTokenV::GetRecord,
            TToken::If => TTokenV::If,
            TToken::Inherits => TTokenV::Inherits,
            TToken::Input => TTokenV::Input,
            TToken::Next => TTokenV::Next,
            TToken::New => TTokenV::New,
            TToken::OpenFile => TTokenV::OpenFile,
            TToken::Otherwise => TTokenV::Otherwise,
            TToken::Output => TTokenV::Output,
            TToken::Of => TTokenV::Of,
            TToken::Procedure => TTokenV::Procedure,
            TToken::Private => TTokenV::Private,
            TToken::Public => TTokenV::Public,
            TToken::PutRecord => TTokenV::PutRecord,
            TToken::ReadFile => TTokenV::ReadFile,
            TToken::Repeat => TTokenV::Repeat,
            TToken::Return => TTokenV::Return,
            TToken::ReturnType => TTokenV::ReturnType,
            TToken::To => TTokenV::To,
            TToken::Seek => TTokenV::Seek,
            TToken::Step => TTokenV::Step,
            TToken::Then => TTokenV::Then,
            TToken::Type => TTokenV::Type,
            TToken::Until => TTokenV::Until,
            TToken::While => TTokenV::While,
            TToken::WriteFile => TTokenV::WriteFile,
            TToken::Newline => TTokenV::Newline,
            TToken::Identifier(v) => TTokenV::Identifier(v@),
            TToken::EOF => TTokenV::EOF,
            TToken::Unknown => TTokenV::Unknown,
        }
    }
}

impl Clone for TToken {
    fn clone(&self) -> (res: Self)
        ensures
            res@ == self@,
    {
        match self {
            TToken::BoolLit(v) => TToken::BoolLit(*v),
            TToken::StringLit(v) => TToken::StringLit(v.clone()),
            TToken::IntegerLit(v) => TToken::IntegerLit(*v),
            TToken::RealLit(v) => TToken::RealLit(v.clone()),
            TToken::DateLit(v) => TToken::DateLit(*v),
            TToken::LParen => TToken::LParen,
            TToken::RParen => TToken::RParen,
            TToken::LSqrBracket => TToken::LSqrBracket,
            TToken::RSqrBracket => TToken::RSqrBracket,
            TToken::Assignment => TToken::Assignment,
            TToken::Colon => TToken::Colon,
            TToken::Comma => TToken::Comma,
            TToken::Caret => TToken::Caret,
            TToken::Period => TToken::Period,
            TToken::VarType(v) => TToken::VarType(v.clone()),
            TToken::Operator(v) => TToken::Operator(v.clone()),
            TToken::FileMode(v) => TToken::FileMode(v.clone()),
            TToken::PassBy(v) => TToken::PassBy(v.clone()),
            TToken::Array => TToken::Array,
            TToken::Call => TToken::Call,
            TToken::Case => TToken::Case,
            TToken::Class => TToken::Class,
            TToken::CloseFile => TToken::CloseFile,
            TToken::Constant => TToken::Constant,
            TToken::Declare => TToken::Declare,
            TToken::Define => TToken::Define,
            TToken::Else => TToken::Else,
            TToken::EndCase => TToken::EndCase,
            TToken::EndClass => TToken::EndClass,
            TToken::EndFunction => TToken::EndFunction,
            TToken::EndIf => TToken::EndIf,
            TToken::EndProcedure => TToken::EndProcedure,
            TToken::EndType => TToken::EndType,
            TToken::EndWhile => TToken::EndWhile,
            TToken::For => TToken::For,
            TToken::Function => TToken::Function,
            TToken::GetRecord => TToken::GetRecord,
            TToken::If => TToken::If,
            TToken::Inherits => TToken::Inherits,
            TToken::Input => TToken::Input,
            TToken::Next => TToken::Next,
            TToken::New => TToken::New,
            TToken::OpenFile => TToken::OpenFile,
            TToken::Otherwise => TToken::Otherwise,
            TToken::Output => TToken::Output,
            TToken::Of => TToken::Of,
            TToken::Procedure => TToken::Procedure,
            TToken::Private => TToken::Private,
            TToken::Public => TToken::Public,
            TToken::PutRecord => TToken::PutRecord,
            TToken::ReadFile => TToken::ReadFile,
            TToken::Repeat => TToken::Repeat,
            TToken::Return => TToken::Return,
            TToken::ReturnType => TToken::ReturnType,
            TToken::To => TToken::To,
            TToken::Seek => TToken::Seek,
            TToken::Step => TToken::Step,
            TToken::Then => TToken::Then,
            TToken::Type => TToken::Type,
            TToken::Until => TToken::Until,
            TToken::While => TToken::While,
            TToken::WriteFile => TToken::WriteFile,
            TToken::Newline => TToken::Newline,
            TToken::Identifier(v) => TToken::Identifier(v.clone()),
            TToken::EOF => TToken::EOF,
            TToken::Unknown => TToken::Unknown,
        }
    }
}

/// The variant of a token kind, ignoring its payload.
pub open spec fn kind_of(t: TTokenV) -> int {
    match t {
        TTokenV::BoolLit(..) => 0,
        TTokenV::StringLit(..) => 1,
        TTokenV::IntegerLit(..) => 2,
        TTokenV::RealLit(..) => 3,
        TTokenV::DateLit(..) => 4,
        TTokenV::LParen => 5,
        TTokenV::RParen => 6,
        TTokenV::LSqrBracket => 7,
        TTokenV::RSqrBracket => 8,
        TTokenV::Assignment => 9,
        TTokenV::Colon => 10,
        TTokenV::Comma => 11,
        TTokenV::Caret => 12,
        TTokenV::Period => 13,
        TTokenV::VarType(..) => 14,
        TTokenV::Operator(..) => 15,
        TTokenV::FileMode(..) => 16,
        TTokenV::PassBy(..) => 17,
        TTokenV::Array => 18,
        TTokenV::Call => 19,
        TTokenV::Case => 20,
        TTokenV::Class => 21,
        TTokenV::CloseFile => 22,
        TTokenV::Constant => 23,
        TTokenV::Declare => 24,
        TTokenV::Define => 25,
        TTokenV::Else => 26,
        TTokenV::EndCase => 27,
        TTokenV::EndClass => 28,
        TTokenV::EndFunction => 29,
        TTokenV::EndIf => 30,
        TTokenV::EndProcedure => 31,
        TTokenV::EndType => 32,
        TTokenV::EndWhile => 33,
        TTokenV::For => 34,
        TTokenV::Function => 35,
        TTokenV::GetRecord => 36,
        TTokenV::If => 37,
        TTokenV::Inherits => 38,
        TTokenV::Input => 39,
        TTokenV::Next => 40,
        TTokenV::New => 41,
        TTokenV::OpenFile => 42,
        TTokenV::Otherwise => 43,
        TTokenV::Output => 44,
        TTokenV::Of => 45,
        TTokenV::Procedure => 46,
        TTokenV::Private => 47,
        TTokenV::Public => 48,
        TTokenV::PutRecord => 49,
        TTokenV::ReadFile => 50,
        TTokenV::Repeat => 51,
        TTokenV::Return => 52,
        TTokenV::ReturnType => 53,
        TTokenV::To => 54,
        TTokenV::Seek => 55,
        TTokenV::Step => 56,
        TTokenV::Then => 57,
        TTokenV::Type => 58,
        TTokenV::Until => 59,
        TTokenV::While => 60,
        TTokenV::WriteFile => 61,
        TTokenV::Newline => 62,
        TTokenV::Identifier(..) => 63,
        TTokenV::EOF => 64,
        TTokenV::Unknown => 65,
    }
}

pub const K_BOOL_LIT: u8 = 0;
pub const K_STRING_LIT: u8 = 1;
pub const K_INTEGER_LIT: u8 = 2;
pub const K_REAL_LIT: u8 = 3;
pub const K_DATE_LIT: u8 = 4;
pub const K_L_PAREN: u8 = 5;
pub const K_R_PAREN: u8 = 6;
pub const K_L_SQR_BRACKET: u8 = 7;
pub const K_R_SQR_BRACKET: u8 = 8;
pub const K_ASSIGNMENT: u8 = 9;
pub const K_COLON: u8 = 10;
pub const K_COMMA: u8 = 11;
pub const K_CARET: u8 = 12;
pub const K_PERIOD: u8 = 13;
pub const K_VAR_TYPE: u8 = 14;
pub const K_OPERATOR: u8 = 15;
pub const K_FILE_MODE: u8 = 16;
pub const K_PASS_BY: u8 = 17;
pub const K_ARRAY: u8 = 18;
pub const K_CALL: u8 = 19;
pub const K_CASE: u8 = 20;
pub const K_CLASS: u8 = 21;
pub const K_CLOSE_FILE: u8 = 22;
pub const K_CONSTANT: u8 = 23;
pub const K_DECLARE: u8 = 24;
pub const K_DEFINE: u8 = 25;
pub const K_ELSE: u8 = 26;
pub const K_END_CASE: u8 = 27;
pub const K_END_CLASS: u8 = 28;
pub const K_END_FUNCTION: u8 = 29;
pub const K_END_IF: u8 = 30;
pub const K_END_PROCEDURE: u8 = 31;
pub const K_END_TYPE: u8 = 32;
pub const K_END_WHILE: u8 = 33;
pub const K_FOR: u8 = 34;
pub const K_FUNCTION: u8 = 35;
pub const K_GET_RECORD: u8 = 36;
pub const K_IF: u8 = 37;
pub const K_INHERITS: u8 = 38;
pub const K_INPUT: u8 = 39;
pub const K_NEXT: u8 = 40;
pub const K_NEW: u8 = 41;
pub const K_OPEN_FILE: u8 = 42;
pub const K_OTHERWISE: u8 = 43;
pub const K_OUTPUT: u8 = 44;
pub const K_OF: u8 = 45;
pub const K_PROCEDURE: u8 = 46;
pub const K_PRIVATE: u8 = 47;
pub const K_PUBLIC: u8 = 48;
pub const K_PUT_RECORD: u8 = 49;
pub const K_READ_FILE: u8 = 50;
pub const K_REPEAT: u8 = 51;
pub const K_RETURN: u8 = 52;
pub const K_RETURN_TYPE: u8 = 53;
pub const K_TO: u8 = 54;
pub const K_SEEK: u8 = 55;
pub const K_STEP: u8 = 56;
pub const K_THEN: u8 = 57;
pub const K_TYPE: u8 = 58;
pub const K_UNTIL: u8 = 59;
pub const K_WHILE: u8 = 60;
pub const K_WRITE_FILE: u8 = 61;
pub const K_NEWLINE: u8 = 62;
pub const K_IDENTIFIER: u8 = 63;
pub const K_EOF: u8 = 64;
pub const K_UNKNOWN: u8 = 65;

/// A token together with the span of source it was read from.
#[derive(Debug, PartialEq)]
pub struct Token {
    pub t: TToken,
    pub pos: Position,
}

pub struct TokenV {
    pub t: TTokenV,
    pub pos: Position,
}

impl View for Token {
    type V = TokenV;

    open spec fn view(&self) -> TokenV {
        TokenV { t: self.t@, pos: self.pos }
    }
}

impl Clone for Token {
    fn clone(&self) -> (res: Self)
        ensures
            res@ == self@,
    {
        Token { t: self.t.clone(), pos: self.pos }
    }
}

/// The variant number of a token kind.
pub fn token_kind(t: &TToken) -> (k: u8)
    ensures
        k == kind_of(t@),
{
    match t {
        TToken::BoolLit(..) => 0,
        TToken::StringLit(..) => 1,
        TToken::IntegerLit(..) => 2,
        TToken::RealLit(..) => 3,
        TToken::DateLit(..) => 4,
        TToken::LParen => 5,
        TToken::RParen => 6,
        TToken::LSqrBracket => 7,
        TToken::RSqrBracket => 8,
        TToken::Assignment => 9,
        TToken::Colon => 10,
        TToken::Comma => 11,
        TToken::Caret => 12,
        TToken::Period => 13,
        TToken::VarType(..) => 14,
        TToken::Operator(..) => 15,
        TToken::FileMode(..) => 16,
        TToken::PassBy(..) => 17,
        TToken::Array => 18,
        TToken::Call => 19,
        TToken::Case => 20,
        TToken::Class => 21,
        TToken::CloseFile => 22,
        TToken::Constant => 23,
        TToken::Declare => 24,
        TToken::Define => 25,
        TToken::Else => 26,
        TToken::EndCase => 27,
        TToken::EndClass => 28,
        TToken::EndFunction => 29,
        TToken::EndIf => 30,
        TToken::EndProcedure => 31,
        TToken::EndType => 32,
        TToken::EndWhile => 33,
        TToken::For => 34,
        TToken::Function => 35,
        TToken::GetRecord => 36,
        TToken::If => 37,
        TToken::Inherits => 38,
        TToken::Input => 39,
        TToken::Next => 40,
        TToken::New => 41,
        TToken::OpenFile => 42,
        TToken::Otherwise => 43,
        TToken::Output => 44,
        TToken::Of => 45,
        TToken::Procedure => 46,
        TToken::Private => 47,
        TToken::Public => 48,
        TToken::PutRecord => 49,
        TToken::ReadFile => 50,
        TToken::Repeat => 51,
        TToken::Return => 52,
        TToken::ReturnType => 53,
        TToken::To => 54,
        TToken::Seek => 55,
        TToken::Step => 56,
        TToken::Then => 57,
        TToken::Type => 58,
        TToken::Until => 59,
        TToken::While => 60,
        TToken::WriteFile => 61,
        TToken::Newline => 62,
        TToken::Identifier(..) => 63,
        TToken::EOF => 64,
        TToken::Unknown => 65,
    }
}

} // verus!
