use pseudo::lexer::{lexer, LexErrorKind};
use pseudo::position::Position;
use pseudo::tokens::{TToken, Token};
use pseudo::types::{Date, Index, VariableType};

fn lex(src: &str) -> Vec<Token> {
    let chars: Vec<char> = src.chars().collect();
    match lexer(&chars) {
        Ok(t) => t,
        Err(e) => panic!("unexpected lexical error {:?}", e),
    }
}

fn kinds(src: &str) -> Vec<TToken> {
    lex(src).into_iter().map(|t| t.t).collect()
}

fn lex_error(src: &str) -> LexErrorKind {
    let chars: Vec<char> = src.chars().collect();
    match lexer(&chars) {
        Ok(_) => panic!("expected a lexical error"),
        Err(e) => e.kind,
    }
}

#[test]
fn declaration_tokens_and_spans() {
    let toks = lex("DECLARE Count : INTEGER\n");
    let expected = vec![
        (TToken::Declare, Position::new(1, 1, 0, 7)),
        (TToken::Identifier("count".to_string()), Position::new(1, 1, 8, 13)),
        (TToken::Colon, Position::new(1, 1, 14, 15)),
        (TToken::VarType(VariableType::Integer), Position::new(1, 1, 16, 23)),
        (TToken::Newline, Position::new(1, 1, 23, 24)),
        (TToken::EOF, Position::new(2, 2, 0, 1)),
    ];
    assert_eq!(toks.len(), expected.len());
    for (tok, (t, p)) in toks.iter().zip(expected.iter()) {
        assert_eq!(&tok.t, t);
        assert_eq!(&tok.pos, p);
    }
}

#[test]
fn keywords_operators_and_case() {
    assert_eq!(
        kinds("x <- a AND b OR NOT c"),
        vec![
            TToken::Identifier("x".to_string()),
            TToken::Assignment,
            TToken::Identifier("a".to_string()),
            TToken::Operator("&&".to_string()),
            TToken::Identifier("b".to_string()),
            TToken::Operator("||".to_string()),
            TToken::Operator("!".to_string()),
            TToken::Identifier("c".to_string()),
            TToken::EOF,
        ]
    );
    assert_eq!(
        kinds("a <> b <= c >= d DIV e MOD f & g"),
        vec![
            TToken::Identifier("a".to_string()),
            TToken::Operator("!=".to_string()),
            TToken::Identifier("b".to_string()),
            TToken::Operator("<=".to_string()),
            TToken::Identifier("c".to_string()),
            TToken::Operator(">=".to_string()),
            TToken::Identifier("d".to_string()),
            TToken::Operator("//".to_string()),
            TToken::Identifier("e".to_string()),
            TToken::Operator("%".to_string()),
            TToken::Identifier("f".to_string()),
            TToken::Operator("&".to_string()),
            TToken::Identifier("g".to_string()),
            TToken::EOF,
        ]
    );
}

#[test]
fn arrow_character_is_assignment() {
    assert_eq!(
        kinds("Name ← 1"),
        vec![TToken::Identifier("name".to_string()), TToken::Assignment, TToken::IntegerLit(1), TToken::EOF]
    );
}

#[test]
fn file_modes_pass_by_and_booleans() {
    assert_eq!(
        kinds("OPENFILE f FOR READ BYREF TRUE FALSE"),
        vec![
            TToken::OpenFile,
            TToken::Identifier("f".to_string()),
            TToken::For,
            TToken::FileMode("READ".to_string()),
            TToken::PassBy("BYREF".to_string()),
            TToken::BoolLit(true),
            TToken::BoolLit(false),
            TToken::EOF,
        ]
    );
}

#[test]
fn numbers_reals_and_dates() {
    assert_eq!(
        kinds("12 3.5 14/03/2020"),
        vec![
            TToken::IntegerLit(12),
            TToken::RealLit("3.5".to_string()),
            TToken::DateLit(Date { year: 2020, month: 3, day: 14 }),
            TToken::EOF,
        ]
    );
}

#[test]
fn a_single_slash_between_numbers_is_division() {
    assert_eq!(
        kinds("6/3"),
        vec![TToken::IntegerLit(6), TToken::Operator("/".to_string()), TToken::IntegerLit(3), TToken::EOF]
    );
}

#[test]
fn string_literal_keeps_its_text() {
    let toks = lex("OUTPUT \"Hi there\"");
    assert_eq!(toks[1].t, TToken::StringLit("Hi there".to_string()));
    assert_eq!(toks[1].pos, Position::new(1, 1, 7, 17));
}

#[test]
fn comments_are_skipped() {
    assert_eq!(kinds("// nothing here\nx"), vec![TToken::Newline, TToken::Identifier("x".to_string()), TToken::EOF]);
    assert_eq!(kinds("a / b"), vec![
        TToken::Identifier("a".to_string()),
        TToken::Operator("/".to_string()),
        TToken::Identifier("b".to_string()),
        TToken::EOF,
    ]);
}

#[test]
fn runs_of_newlines_collapse() {
    let toks = kinds("a\n\n\nb\n");
    assert_eq!(
        toks,
        vec![
            TToken::Identifier("a".to_string()),
            TToken::Newline,
            TToken::Identifier("b".to_string()),
            TToken::Newline,
            TToken::EOF,
        ]
    );
}

#[test]
fn output_always_ends_with_eof_and_no_double_newline() {
    for src in ["", "\n\n", "x <- 1\n\n\n y", "IF a THEN\n\n OUTPUT 1\nENDIF\n\n"] {
        let toks = kinds(src);
        assert_eq!(toks.last(), Some(&TToken::EOF));
        for w in toks.windows(2) {
            assert!(!(w[0] == TToken::Newline && w[1] == TToken::Newline));
        }
    }
}

#[test]
fn lexical_errors() {
    assert_eq!(lex_error("31/02/2020"), LexErrorKind::InvalidDate);
    assert_eq!(lex_error("1.2.3"), LexErrorKind::MultipleDecimalPoints);
    assert_eq!(lex_error("99999999999999999999"), LexErrorKind::IntegerTooLarge);
}

#[test]
fn position_constructors() {
    assert_eq!(Position::from(3, 4, 5), Position::new(3, 3, 4, 9));
    let a = Position::new(1, 1, 2, 3);
    let b = Position::new(4, 5, 6, 7);
    assert_eq!(Position::range(a, b), Position::new(1, 5, 2, 7));
    assert_eq!(Position::invalid(), Position::new(0, 0, 0, 0));
}

#[test]
fn type_names() {
    assert_eq!(VariableType::Integer.str(), "INTEGER");
    assert_eq!(VariableType::Date.str(), "DATE");
    assert_eq!(VariableType::Pointer(Box::new(VariableType::Real)).str(), "^REAL");
    let arr = VariableType::Array { shape: vec![Index { lower: 1, upper: 3 }], t: Box::new(VariableType::String) };
    assert_eq!(arr.str(), "STRING[]");
    assert_eq!(VariableType::Custom("Pet".to_string()).str(), "Pet");
}


#[test]
fn identifiers_take_letters_digits_and_underscores() {
    assert_eq!(kinds("Total_2x"), vec![TToken::Identifier("total_2x".to_string()), TToken::EOF]);
    assert_eq!(
        kinds("a b"),
        vec![TToken::Identifier("a".to_string()), TToken::Identifier("b".to_string()), TToken::EOF]
    );
}

#[test]
fn a_number_ending_in_a_slash_is_malformed() {
    assert_eq!(lex_error("x <- 5/ 2"), LexErrorKind::MalformedNumber);
}

#[test]
fn date_literals_take_one_or_two_digit_days_and_months_and_four_digit_years() {
    assert_eq!(kinds("7/1/2024"), vec![TToken::DateLit(Date { year: 2024, month: 1, day: 7 }), TToken::EOF]);
    assert_eq!(kinds("29/02/2024"), vec![TToken::DateLit(Date { year: 2024, month: 2, day: 29 }), TToken::EOF]);
    assert_eq!(lex_error("29/02/2023"), LexErrorKind::InvalidDate);
    assert_eq!(lex_error("1/2/20245"), LexErrorKind::InvalidDate);
    assert_eq!(lex_error("123/2/2024"), LexErrorKind::InvalidDate);
    assert_eq!(lex_error("1/2/3.5"), LexErrorKind::InvalidDate);
}
