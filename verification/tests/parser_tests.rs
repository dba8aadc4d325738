use pseudo::ast::Node;
use pseudo::lexer::lexer;
use pseudo::parser::{parse_file, Lexer, ParseError, ParseErrorKind};
use pseudo::types::VariableType;

fn parse(src: &str) -> Result<Vec<Box<Node>>, ParseError> {
    let chars: Vec<char> = src.chars().collect();
    let tokens = match lexer(&chars) {
        Ok(t) => t,
        Err(e) => panic!("unexpected lexical error {:?}", e),
    };
    let mut l = Lexer::new(tokens);
    parse_file(&mut l)
}

/// The top-level statements of a program, without the empty ones.
fn items(src: &str) -> Vec<Box<Node>> {
    let nodes = match parse(src) {
        Ok(n) => n,
        Err(e) => panic!("unexpected syntax error {:?}", e),
    };
    assert_eq!(nodes.len(), 1);
    match *nodes.into_iter().next().unwrap() {
        Node::Main { children } => children.into_iter().filter(|n| **n != Node::Null).collect(),
        _ => panic!("the program is not a Main node"),
    }
}

fn error_kind(src: &str) -> ParseErrorKind {
    match parse(src) {
        Ok(_) => panic!("expected a syntax error"),
        Err(e) => e.kind,
    }
}

fn int_of(n: &Node) -> i64 {
    match n {
        Node::Int { val, .. } => *val,
        _ => panic!("not an integer literal: {:?}", n),
    }
}

#[test]
fn declaration_and_assignment_with_precedence() {
    let it = items("DECLARE x : INTEGER\nx <- 1 + 2 * 3\n");
    assert_eq!(it.len(), 2);
    match &*it[0] {
        Node::Declare { t, children, byref, private, .. } => {
            assert_eq!(**t, VariableType::Integer);
            assert_eq!(children, &vec!["x".to_string()]);
            assert!(!*byref);
            assert!(!*private);
        },
        other => panic!("unexpected {:?}", other),
    }
    match &*it[1] {
        Node::Assignment { lhs, rhs, .. } => {
            assert!(matches!(&**lhs, Node::Var { name, .. } if name == "x"));
            match &**rhs {
                Node::Binary { op, lhs, rhs, .. } => {
                    assert_eq!(op, "+");
                    assert_eq!(int_of(lhs), 1);
                    match &**rhs {
                        Node::Binary { op, lhs, rhs, .. } => {
                            assert_eq!(op, "*");
                            assert_eq!(int_of(lhs), 2);
                            assert_eq!(int_of(rhs), 3);
                        },
                        other => panic!("unexpected {:?}", other),
                    }
                },
                other => panic!("unexpected {:?}", other),
            }
        },
        other => panic!("unexpected {:?}", other),
    }
}

#[test]
fn if_with_else() {
    let it = items("IF a > 1 THEN\n  OUTPUT \"big\"\nELSE\n  OUTPUT \"small\"\nENDIF\n");
    assert_eq!(it.len(), 1);
    match &*it[0] {
        Node::If { cond, true_body, false_body, .. } => {
            assert!(matches!(&**cond, Node::Binary { op, .. } if op == ">"));
            let t: Vec<&Box<Node>> = true_body.iter().filter(|n| ***n != Node::Null).collect();
            let f: Vec<&Box<Node>> = false_body.iter().filter(|n| ***n != Node::Null).collect();
            assert_eq!(t.len(), 1);
            assert_eq!(f.len(), 1);
            assert!(matches!(&**t[0], Node::Output { .. }));
            assert!(matches!(&**f[0], Node::Output { .. }));
        },
        other => panic!("unexpected {:?}", other),
    }
}

#[test]
fn for_loop_with_step_and_optional_next_name() {
    let it = items("FOR i <- 1 TO 10 STEP 2\n  OUTPUT i\nNEXT i\n");
    match &*it[0] {
        Node::For { iter, range, step, body, .. } => {
            assert!(matches!(&**iter, Node::Var { name, .. } if name == "i"));
            match &**range {
                Node::Range { start, end, .. } => {
                    assert_eq!(int_of(start), 1);
                    assert_eq!(int_of(end), 10);
                },
                other => panic!("unexpected {:?}", other),
            }
            assert_eq!(int_of(step), 2);
            assert_eq!(body.iter().filter(|n| ***n != Node::Null).count(), 1);
        },
        other => panic!("unexpected {:?}", other),
    }
    let it = items("FOR i <- 1 TO 3\nNEXT\n");
    assert!(matches!(&*it[0], Node::For { step, .. } if **step == Node::Null));
}

#[test]
fn next_must_name_the_loop_variable() {
    assert_eq!(error_kind("FOR i <- 1 TO 3\n  OUTPUT i\nNEXT j\n"), ParseErrorKind::IdentifierMustMatch);
}

#[test]
fn case_with_literal_range_and_otherwise() {
    let it = items("CASE OF x\n  1 : OUTPUT \"a\"\n  2 TO 5 : OUTPUT \"b\"\n  OTHERWISE : OUTPUT \"c\"\nENDCASE\n");
    match &*it[0] {
        Node::Switch { subject, cases, otherwise, .. } => {
            assert!(matches!(&**subject, Node::Var { name, .. } if name == "x"));
            assert_eq!(cases.len(), 2);
            match &*cases[0] {
                Node::Case { expr, children, .. } => {
                    assert_eq!(int_of(expr), 1);
                    assert_eq!(children.len(), 1);
                },
                other => panic!("unexpected {:?}", other),
            }
            match &*cases[1] {
                Node::Case { expr, .. } => assert!(matches!(&**expr, Node::Range { .. })),
                other => panic!("unexpected {:?}", other),
            }
            assert_eq!(otherwise.iter().filter(|n| ***n != Node::Null).count(), 1);
        },
        other => panic!("unexpected {:?}", other),
    }
}

#[test]
fn procedure_with_byref_parameter_and_call_without_parentheses() {
    let it = items("PROCEDURE Swap(BYREF a : INTEGER, b : INTEGER)\n  a <- b\nENDPROCEDURE\nCALL Show\n");
    assert_eq!(it.len(), 2);
    match &*it[0] {
        Node::Procedure { name, private, params, children, .. } => {
            assert!(matches!(&**name, Node::String { val, .. } if val == "swap"));
            assert!(!*private);
            assert_eq!(params.len(), 2);
            assert!(matches!(&*params[0], Node::Declare { byref: true, .. }));
            assert!(matches!(&*params[1], Node::Declare { byref: false, .. }));
            assert_eq!(children.iter().filter(|n| ***n != Node::Null).count(), 1);
        },
        other => panic!("unexpected {:?}", other),
    }
    match &*it[1] {
        Node::FunctionCall { name, params, .. } => {
            assert_eq!(name, "show");
            assert!(params.is_empty());
        },
        other => panic!("unexpected {:?}", other),
    }
}

#[test]
fn function_with_return_type() {
    let it = items("FUNCTION Twice(n : INTEGER) RETURNS INTEGER\n  RETURN n * 2\nENDFUNCTION\n");
    match &*it[0] {
        Node::Function { return_type, params, children, .. } => {
            assert_eq!(**return_type, VariableType::Integer);
            assert_eq!(params.len(), 1);
            assert!(children.iter().any(|n| matches!(&**n, Node::Return { .. })));
        },
        other => panic!("unexpected {:?}", other),
    }
}

#[test]
fn class_with_base_and_members() {
    let it = items(
        "CLASS Cat INHERITS Pet\n  PRIVATE Breed : STRING\n  PUBLIC PROCEDURE NEW(b : STRING)\n    Breed <- b\n  ENDPROCEDURE\nENDCLASS\n",
    );
    match &*it[0] {
        Node::Class { name, base, children, .. } => {
            assert!(matches!(&**name, Node::String { val, .. } if val == "cat"));
            assert!(matches!(&**base, Node::String { val, .. } if val == "pet"));
            let members: Vec<&Box<Node>> = children.iter().filter(|n| ***n != Node::Null).collect();
            assert_eq!(members.len(), 2);
            assert!(matches!(&**members[0], Node::Declare { private: true, .. }));
            assert!(matches!(&**members[1], Node::Procedure { name, .. } if matches!(&**name, Node::String { val, .. } if val == "new")));
        },
        other => panic!("unexpected {:?}", other),
    }
}

#[test]
fn file_statements() {
    let it = items("OPENFILE \"a.txt\" FOR READ\nREADFILE \"a.txt\", line\nCLOSEFILE \"a.txt\"\n");
    assert_eq!(it.len(), 3);
    assert!(matches!(&*it[0], Node::OpenFile { .. }));
    assert!(matches!(&*it[1], Node::ReadFile { var, .. } if matches!(&**var, Node::Var { .. })));
    assert!(matches!(&*it[2], Node::CloseFile { .. }));
}

#[test]
fn user_defined_types() {
    let it = items("TYPE Season = (Spring, Summer)\nTYPE IntPtr = ^INTEGER\nTYPE Pt\n  DECLARE x : INTEGER\nENDTYPE\n");
    assert_eq!(it.len(), 3);
    assert!(matches!(&*it[0], Node::Enum { name, variants, .. } if name == "season" && variants.len() == 2));
    assert!(matches!(&*it[1], Node::PointerDef { ref_to, .. } if **ref_to == VariableType::Integer));
    assert!(matches!(&*it[2], Node::Record { .. }));
}

#[test]
fn syntax_errors() {
    assert_eq!(error_kind("WHILE a < 3\n  a <- a + 1\n"), ParseErrorKind::EndWhileExpected);
    assert_eq!(error_kind("IF a THEN\n  PROCEDURE p()\n  ENDPROCEDURE\nENDIF\n"), ParseErrorKind::RoutineNotGlobal);
    assert_eq!(error_kind("IF a\n OUTPUT 1\nENDIF\n"), ParseErrorKind::ExpectThen);
    assert_eq!(error_kind("DECLARE x, : INTEGER\n"), ParseErrorKind::IdentifierExpected);
    assert_eq!(error_kind("THEN\n"), ParseErrorKind::ExpectedStatement);
}

#[test]
fn empty_program_is_an_empty_main() {
    let nodes = parse("").unwrap();
    assert_eq!(nodes.len(), 1);
    match &*nodes[0] {
        Node::Main { children } => assert!(children.iter().all(|n| **n == Node::Null)),
        other => panic!("unexpected {:?}", other),
    }
}

#[test]
fn procedure_without_parameter_list() {
    let it = items("PROCEDURE Greet\n  OUTPUT \"hi\"\nENDPROCEDURE\nCALL Greet()\n");
    match &*it[0] {
        Node::Procedure { name, params, children, .. } => {
            assert!(matches!(&**name, Node::String { val, .. } if val == "greet"));
            assert!(params.is_empty());
            assert_eq!(children.iter().filter(|n| ***n != Node::Null).count(), 1);
        },
        other => panic!("unexpected {:?}", other),
    }
    assert!(matches!(&*it[1], Node::FunctionCall { name, params, .. } if name == "greet" && params.is_empty()));
}

#[test]
fn more_syntax_errors() {
    assert_eq!(error_kind("CASE x\nENDCASE\n"), ParseErrorKind::ExpectOf);
    assert_eq!(error_kind("FOR i 1 TO 3\nNEXT\n"), ParseErrorKind::ExpectArrow);
    assert_eq!(error_kind("FOR i <- 1 3\nNEXT\n"), ParseErrorKind::ExpectTo);
    assert_eq!(error_kind("CASE OF x\n  1 OUTPUT 2\nENDCASE\n"), ParseErrorKind::ExpectColonQuoted);
    assert_eq!(error_kind("IF a THEN\n  OUTPUT 1\n"), ParseErrorKind::EndIfExpected);
    assert_eq!(error_kind("FOR i <- 1 TO 2\n  OUTPUT i\n"), ParseErrorKind::NextExpected);
    assert_eq!(error_kind("REPEAT\n  a <- 1\n"), ParseErrorKind::UntilExpected);
    assert_eq!(error_kind("IF a THEN\n  CLASS c\n  ENDCLASS\nENDIF\n"), ParseErrorKind::ClassNotGlobal);
    assert_eq!(error_kind("CLASS c\n  PUBLIC PROCEDURE NEW()\n  ENDPROCEDURE\n"), ParseErrorKind::EndClassExpected);
    assert_eq!(error_kind("OPENFILE \"a\" FOR 3\n"), ParseErrorKind::ExpectFileMode);
    assert_eq!(error_kind("READFILE \"a\" x\n"), ParseErrorKind::ExpectComma);
    assert_eq!(error_kind("FUNCTION f() INTEGER\nENDFUNCTION\n"), ParseErrorKind::ExpectReturns);
    assert_eq!(error_kind("FUNCTION f\nENDFUNCTION\n"), ParseErrorKind::ExpectLeftParen);
    assert_eq!(error_kind("TYPE t = (a, )\n"), ParseErrorKind::EnumValueExpected);
    assert_eq!(error_kind("TYPE t < (a)\n"), ParseErrorKind::ExpectedEqualsSign);
    assert_eq!(error_kind("TYPE t DECLARE\n"), ParseErrorKind::ExpectDeclareOrEquals);
    assert_eq!(error_kind("CALL 5\n"), ParseErrorKind::ExpectedIdentifier);
}

fn binary(n: &Node) -> (String, &Node, &Node) {
    match n {
        Node::Binary { op, lhs, rhs, .. } => (op.clone(), &**lhs, &**rhs),
        _ => panic!("not a binary expression: {:?}", n),
    }
}

#[test]
fn binary_operators_group_to_the_right() {
    let nodes = items("OUTPUT 2 * 3 + 1\n");
    let expr = match &*nodes[0] {
        Node::Output { children, .. } => &*children[0],
        other => panic!("not an OUTPUT statement: {:?}", other),
    };
    let (op, lhs, rhs) = binary(expr);
    assert_eq!(op, "*");
    assert_eq!(int_of(lhs), 2);
    let (op2, lhs2, rhs2) = binary(rhs);
    assert_eq!(op2, "+");
    assert_eq!(int_of(lhs2), 3);
    assert_eq!(int_of(rhs2), 1);
}
