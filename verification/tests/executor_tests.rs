use pseudo::executor::arrays::{array_capacity, get_array_index, IndexError};
use pseudo::executor::files::{file_mode, FileError, FileMode, FileTable};
use pseudo::executor::run_builtins::{
    builtin_func_asc, builtin_func_chr, builtin_func_day, builtin_func_day_index, builtin_func_left,
    builtin_func_length, builtin_func_mid, builtin_func_month, builtin_func_right, builtin_func_set_date,
    builtin_func_to_lower, builtin_func_to_upper, builtin_func_year, builtin_param_types, match_builtin,
    types_equal, apply_builtin, check_builtin_argument, check_builtin_arity, Builtin, BuiltinError, Value,
};
use pseudo::executor::run_expr::{call_outcome, check_argument, check_arity, check_pass_by, is_place, CallError};
use pseudo::ast::Node;
use pseudo::position::Position;
use pseudo::executor::run_class::{check_method, ClassError, ClassMembers, MemberKind};
use pseudo::executor::variable::{Executor, ScopeError};
use pseudo::types::{Date, Index, VariableType};

fn name(s: &str) -> String {
    s.to_string()
}

#[test]
fn declared_variable_is_found() {
    let mut e: Executor<i64, String> = Executor::new();
    assert!(!e.var_exist(&name("x")));
    assert_eq!(e.declare_var(&name("x"), 5, &VariableType::Integer, true), Ok(()));
    assert!(e.var_exist(&name("x")));
    let v = e.get_var(&name("x")).unwrap();
    assert_eq!(v.value, 5);
    assert_eq!(v.t, VariableType::Integer);
    assert!(v.mutable);
}

#[test]
fn redeclaration_in_same_scope_is_refused() {
    let mut e: Executor<i64, String> = Executor::new();
    e.declare_var(&name("x"), 1, &VariableType::Integer, true).unwrap();
    assert_eq!(e.declare_var(&name("x"), 2, &VariableType::Integer, true), Err(ScopeError::AlreadyInitialized));
    assert_eq!(e.get_var(&name("x")).unwrap().value, 1);
}

#[test]
fn undeclared_name_is_reported() {
    let e: Executor<i64, String> = Executor::new();
    assert!(matches!(e.get_var(&name("nope")), Err(ScopeError::NotDeclared)));
    assert!(matches!(e.get_def(&name("nope")), Err(ScopeError::NotDeclared)));
}

#[test]
fn constants_cannot_be_assigned() {
    let mut e: Executor<i64, String> = Executor::new();
    e.declare_var(&name("pi"), 3, &VariableType::Integer, false).unwrap();
    assert!(matches!(e.get_var_mut(&name("pi")), Err(ScopeError::Constant)));
    assert_eq!(e.get_var(&name("pi")).unwrap().value, 3);
    e.declare_var(&name("n"), 4, &VariableType::Integer, true).unwrap();
    assert_eq!(e.get_var_mut(&name("n")).unwrap().value, 4);
}

#[test]
fn inner_scope_shadows_and_exit_restores() {
    let mut e: Executor<i64, String> = Executor::new();
    e.declare_var(&name("x"), 1, &VariableType::Integer, true).unwrap();
    e.enter_scope();
    assert_eq!(e.get_var(&name("x")).unwrap().value, 1);
    e.declare_var(&name("x"), 2, &VariableType::Integer, true).unwrap();
    e.declare_var(&name("y"), 3, &VariableType::Integer, true).unwrap();
    assert_eq!(e.get_var(&name("x")).unwrap().value, 2);
    let _ = e.exit_scope();
    assert_eq!(e.get_var(&name("x")).unwrap().value, 1);
    assert!(!e.var_exist(&name("y")));
}

#[test]
fn definitions_are_scoped_too() {
    let mut e: Executor<i64, String> = Executor::new();
    assert_eq!(e.declare_def(&name("point"), name("record")), Ok(()));
    assert_eq!(e.declare_def(&name("point"), name("other")), Err(ScopeError::AlreadyDeclared));
    assert_eq!(e.get_def(&name("point")).unwrap(), "record");
    e.enter_scope();
    assert_eq!(e.get_def(&name("point")).unwrap(), "record");
}

#[test]
fn file_modes_are_named_by_their_keyword() {
    assert_eq!(file_mode("READ"), Some(FileMode::Read));
    assert_eq!(file_mode("WRITE"), Some(FileMode::Write));
    assert_eq!(file_mode("APPEND"), Some(FileMode::Append));
    assert_eq!(file_mode("RANDOM"), Some(FileMode::Random));
    assert_eq!(file_mode("read"), None);
}

#[test]
fn reading_a_file_line_by_line_until_eof() {
    let mut t = FileTable::new();
    t.open(&name("a.txt"), FileMode::Read, vec![name("one"), name("two")]).unwrap();
    assert_eq!(t.eof("a.txt"), Ok(false));
    assert_eq!(t.read_line("a.txt").unwrap(), "one");
    assert_eq!(t.read_line("a.txt").unwrap(), "two");
    assert_eq!(t.eof("a.txt"), Ok(true));
    assert_eq!(t.read_line("a.txt").unwrap(), "");
}

#[test]
fn file_errors() {
    let mut t = FileTable::new();
    assert!(matches!(t.read_line("x"), Err(FileError::NotOpened)));
    assert_eq!(t.eof("x"), Err(FileError::NotOpened));
    assert!(matches!(t.close("x"), Err(FileError::AlreadyClosed)));
    t.open(&name("x"), FileMode::Write, Vec::new()).unwrap();
    assert_eq!(t.open(&name("x"), FileMode::Read, Vec::new()), Err(FileError::AlreadyOpen));
    assert_eq!(t.check_writable("x"), Ok(()));
    assert!(matches!(t.read_line("x"), Err(FileError::WrongMode)));
    assert_eq!(t.eof("x"), Err(FileError::WrongMode));
    assert_eq!(t.seek("x", 1), Err(FileError::WrongMode));
    assert_eq!(t.put_record("x", name("{}")), Err(FileError::WrongMode));
    assert!(matches!(t.get_record("x"), Err(FileError::WrongMode)));
    let closed = t.close("x").unwrap();
    assert_eq!(closed.mode, FileMode::Write);
    assert_eq!(t.mode_of("x"), None);
    assert_eq!(t.open(&name("x"), FileMode::Append, Vec::new()), Ok(()));
}

#[test]
fn put_record_then_get_record_gives_it_back() {
    let mut t = FileTable::new();
    t.open(&name("r.dat"), FileMode::Random, vec![name("a"), name("b")]).unwrap();
    assert_eq!(t.get_record("r.dat").unwrap(), "a");
    t.put_record("r.dat", name("{\"x\":1}")).unwrap();
    assert_eq!(t.get_record("r.dat").unwrap(), "{\"x\":1}");
    assert_eq!(t.seek("r.dat", 0), Err(FileError::InvalidPosition));
    t.seek("r.dat", 2).unwrap();
    assert_eq!(t.get_record("r.dat").unwrap(), "b");
    t.seek("r.dat", 5).unwrap();
    assert!(matches!(t.get_record("r.dat"), Err(FileError::EmptyLine)));
    t.put_record("r.dat", name("z")).unwrap();
    let f = t.close("r.dat").unwrap();
    assert_eq!(f.content, vec![name("{\"x\":1}"), name("b"), name("\n"), name("\n"), name("z")]);
}

#[test]
fn array_index_is_row_major_with_inclusive_bounds() {
    let shape = vec![Index { lower: 1, upper: 3 }, Index { lower: 0, upper: 4 }];
    assert_eq!(get_array_index(&vec![1, 0], &shape), Ok(0));
    assert_eq!(get_array_index(&vec![1, 4], &shape), Ok(4));
    assert_eq!(get_array_index(&vec![2, 0], &shape), Ok(5));
    assert_eq!(get_array_index(&vec![3, 4], &shape), Ok(14));
    assert_eq!(array_capacity(&shape), Some(15));
}

#[test]
fn array_index_errors() {
    let shape = vec![Index { lower: 1, upper: 3 }, Index { lower: 0, upper: 4 }];
    assert_eq!(get_array_index(&vec![1], &shape), Err(IndexError::WrongCount));
    assert_eq!(
        get_array_index(&vec![0, 9], &shape),
        Err(IndexError::OutOfBounds { dim: 1, index: 9, lower: 0, upper: 4 })
    );
    assert_eq!(
        get_array_index(&vec![4, 2], &shape),
        Err(IndexError::OutOfBounds { dim: 0, index: 4, lower: 1, upper: 3 })
    );
    assert_eq!(array_capacity(&vec![Index { lower: 0, upper: i64::MAX }]), None);
}

#[test]
fn builtin_names_any_case() {
    assert_eq!(match_builtin("left"), Some(Builtin::Left));
    assert_eq!(match_builtin("DayIndex"), Some(Builtin::DayIndex));
    assert_eq!(match_builtin("TO_UPPER"), Some(Builtin::ToUpper));
    assert_eq!(match_builtin("eof"), Some(Builtin::Eof));
    assert_eq!(match_builtin("lefty"), None);
}

#[test]
fn builtin_parameter_types() {
    assert_eq!(builtin_param_types(Builtin::Mid, false), vec![VariableType::String, VariableType::Integer, VariableType::Integer]);
    assert_eq!(builtin_param_types(Builtin::Int, true), vec![VariableType::Integer]);
    assert_eq!(builtin_param_types(Builtin::Int, false), vec![VariableType::Real]);
    assert!(builtin_param_types(Builtin::Today, false).is_empty());
    assert!(types_equal(&VariableType::Pointer(Box::new(VariableType::Integer)), &VariableType::Pointer(Box::new(VariableType::Integer))));
    assert!(!types_equal(&VariableType::Integer, &VariableType::Real));
    assert!(!types_equal(&VariableType::Custom(name("a")), &VariableType::Custom(name("b"))));
}

#[test]
fn string_builtins() {
    assert_eq!(builtin_func_left("Hello", 2).unwrap(), "He");
    assert_eq!(builtin_func_left("Hello", 0).unwrap(), "");
    assert_eq!(builtin_func_left("Hello", -1), Err(BuiltinError::NegativeLength));
    assert_eq!(builtin_func_left("Hello", 6), Err(BuiltinError::LengthTooLong));
    assert_eq!(builtin_func_right("Hello", 3).unwrap(), "llo");
    assert_eq!(builtin_func_right("Hello", 9), Err(BuiltinError::LengthTooLong));
    assert_eq!(builtin_func_mid("Hello", 2, 3).unwrap(), "ell");
    assert_eq!(builtin_func_mid("Hello", 5, 1).unwrap(), "o");
    assert_eq!(builtin_func_mid("Hello", 0, 1), Err(BuiltinError::StartTooSmall));
    assert_eq!(builtin_func_mid("Hello", 1, -1), Err(BuiltinError::NegativeLength));
    assert_eq!(builtin_func_mid("Hello", 4, 3), Err(BuiltinError::LengthTooLong));
    assert_eq!(builtin_func_length("Hello"), 5);
    assert_eq!(builtin_func_length("é"), 2);
    assert_eq!(builtin_func_to_upper("MiXed 1"), "MIXED 1");
    assert_eq!(builtin_func_to_lower("MiXed 1"), "mixed 1");
}

#[test]
fn character_builtins() {
    assert_eq!(builtin_func_asc("A"), Ok(65));
    assert_eq!(builtin_func_asc("AB"), Err(BuiltinError::NotOneCharacter));
    assert_eq!(builtin_func_asc(""), Err(BuiltinError::NotOneCharacter));
    assert_eq!(builtin_func_chr(97).unwrap(), "a");
    assert_eq!(builtin_func_chr(256), Err(BuiltinError::CodeOutOfRange));
    assert_eq!(builtin_func_chr(-1), Err(BuiltinError::CodeOutOfRange));
}

#[test]
fn date_builtins() {
    let d = Date { year: 2024, month: 2, day: 29 };
    assert_eq!(builtin_func_day(d), 29);
    assert_eq!(builtin_func_month(d), 2);
    assert_eq!(builtin_func_year(d), 2024);
    // 29 February 2024 was a Thursday: the fifth day counting Sunday as the first.
    assert_eq!(builtin_func_day_index(d), Some(5));
    assert_eq!(builtin_func_day_index(Date { year: 1970, month: 1, day: 1 }), Some(5));
    assert_eq!(builtin_func_day_index(Date { year: 2023, month: 1, day: 1 }), Some(1));
    assert_eq!(builtin_func_day_index(Date { year: 2023, month: 2, day: 29 }), None);
    assert_eq!(builtin_func_day_index(Date { year: 2023, month: 13, day: 1 }), None);
    assert_eq!(builtin_func_day_index(Date { year: 262143, month: 1, day: 1 }), None);
    assert!(builtin_func_day_index(Date { year: 262142, month: 12, day: 31 }).is_some());
    assert!(builtin_func_day_index(Date { year: -262143, month: 1, day: 1 }).is_some());
    assert_eq!(builtin_func_set_date(14, 3, 2020), Ok(Date { year: 2020, month: 3, day: 14 }));
    assert_eq!(builtin_func_set_date(30, 2, 2021), Err(BuiltinError::InvalidDate));
}

#[test]
fn every_element_has_its_own_slot() {
    let shape = vec![Index { lower: -1, upper: 1 }, Index { lower: 2, upper: 3 }, Index { lower: 0, upper: 1 }];
    let mut seen = Vec::new();
    for a in -1..=1 {
        for b in 2..=3 {
            for c in 0..=1 {
                let slot = get_array_index(&vec![a, b, c], &shape).unwrap();
                assert!(slot < 12);
                assert!(!seen.contains(&slot));
                seen.push(slot);
            }
        }
    }
    assert_eq!(seen.len(), 12);
}

#[test]
fn left_and_right_make_up_the_string() {
    let s = "Pseudocode";
    for n in 0..=10i64 {
        let left = builtin_func_left(s, n).unwrap();
        let right = builtin_func_right(s, 10 - n).unwrap();
        assert_eq!(format!("{}{}", left, right), s);
        assert_eq!(builtin_func_mid(s, 1, n).unwrap(), left);
    }
}

#[test]
fn asc_of_chr_gives_the_code_back() {
    for n in 0..128i64 {
        let c = builtin_func_chr(n).unwrap();
        assert_eq!(builtin_func_asc(&c), Ok(n));
    }
}

#[test]
fn class_rules() {
    assert_eq!(check_method("new", true, false), Err(ClassError::PrivateConstructor));
    assert_eq!(check_method("new", false, true), Err(ClassError::ConstructorReturns));
    assert_eq!(check_method("new", false, false), Ok(()));
    assert_eq!(check_method("speak", true, true), Ok(()));
    let mut m = ClassMembers::new();
    assert_eq!(m.check_constructor(), Err(ClassError::NoConstructor));
    assert_eq!(m.add(&name("name"), MemberKind::Property), Ok(()));
    assert_eq!(m.add(&name("name"), MemberKind::Property), Err(ClassError::PropertyExists));
    assert_eq!(m.add(&name("name"), MemberKind::Method { private: false, is_function: false }), Err(ClassError::MethodExists));
    assert_eq!(m.add(&name("new"), MemberKind::Method { private: false, is_function: false }), Ok(()));
    assert_eq!(m.check_constructor(), Ok(()));
    let mut p = ClassMembers::new();
    p.add(&name("new"), MemberKind::Property).unwrap();
    assert_eq!(p.check_constructor(), Err(ClassError::NoConstructor));
}

fn apply(b: Builtin, args: Vec<Value>) -> Result<Value, BuiltinError> {
    apply_builtin(b, &args, &FileTable::new())
}

fn text(r: Result<Value, BuiltinError>) -> String {
    match r {
        Ok(Value::Str(s)) => s,
        other => panic!("expected a string, got {:?}", other),
    }
}

fn number(r: Result<Value, BuiltinError>) -> i64 {
    match r {
        Ok(Value::Int(n)) => n,
        other => panic!("expected an integer, got {:?}", other),
    }
}

#[test]
fn mid_takes_the_substring_from_a_position() {
    let r = apply(Builtin::Mid, vec![Value::Str(name("ABCDE")), Value::Int(4), Value::Int(2)]);
    assert_eq!(text(r), "DE");
    let r = apply(Builtin::Mid, vec![Value::Str(name("ABCDE")), Value::Int(0), Value::Int(2)]);
    assert!(matches!(r, Err(BuiltinError::StartTooSmall)));
    let r = apply(Builtin::Mid, vec![Value::Str(name("ABCDE")), Value::Int(4), Value::Int(3)]);
    assert!(matches!(r, Err(BuiltinError::LengthTooLong)));
}

#[test]
fn applied_string_builtins() {
    let s = name("Hello, World");
    for k in 0..=s.len() as i64 {
        let left = text(apply(Builtin::Left, vec![Value::Str(s.clone()), Value::Int(k)]));
        let right = text(apply(Builtin::Right, vec![Value::Str(s.clone()), Value::Int(s.len() as i64 - k)]));
        assert_eq!(format!("{}{}", left, right), s);
    }
    assert!(matches!(apply(Builtin::Left, vec![Value::Str(s.clone()), Value::Int(-1)]), Err(BuiltinError::NegativeLength)));
    assert_eq!(number(apply(Builtin::Length, vec![Value::Str(s.clone())])), 12);
    assert_eq!(text(apply(Builtin::ToUpper, vec![Value::Str(s.clone())])), "HELLO, WORLD");
    assert_eq!(text(apply(Builtin::ToLower, vec![Value::Str(s.clone())])), "hello, world");
    assert_eq!(number(apply(Builtin::Asc, vec![Value::Str(name("A"))])), 65);
    assert_eq!(text(apply(Builtin::Chr, vec![Value::Int(97)])), "a");
    let code = number(apply(Builtin::Asc, vec![Value::Str(name("z"))]));
    assert_eq!(text(apply(Builtin::Chr, vec![Value::Int(code)])), "z");
    assert!(matches!(apply(Builtin::Chr, vec![Value::Int(256)]), Err(BuiltinError::CodeOutOfRange)));
    assert!(matches!(apply(Builtin::Asc, vec![Value::Str(name("AB"))]), Err(BuiltinError::NotOneCharacter)));
}

#[test]
fn applied_date_builtins() {
    let r = apply(Builtin::SetDate, vec![Value::Int(29), Value::Int(2), Value::Int(2024)]);
    let d = match r {
        Ok(Value::Date(d)) => d,
        other => panic!("expected a date, got {:?}", other),
    };
    assert_eq!(number(apply(Builtin::Day, vec![Value::Date(d)])), 29);
    assert_eq!(number(apply(Builtin::Month, vec![Value::Date(d)])), 2);
    assert_eq!(number(apply(Builtin::Year, vec![Value::Date(d)])), 2024);
    let r = apply(Builtin::SetDate, vec![Value::Int(31), Value::Int(2), Value::Int(2024)]);
    assert!(matches!(r, Err(BuiltinError::InvalidDate)));
    let sunday = Date { year: 2024, month: 1, day: 7 };
    assert_eq!(number(apply(Builtin::DayIndex, vec![Value::Date(sunday)])), 1);
    let r = apply(Builtin::DayIndex, vec![Value::Date(Date { year: 2024, month: 2, day: 30 })]);
    assert!(matches!(r, Err(BuiltinError::InvalidDate)));
}

#[test]
fn applied_eof_reads_the_file_table() {
    let mut files = FileTable::new();
    let r = apply_builtin(Builtin::Eof, &vec![Value::Str(name("a.txt"))], &files);
    assert!(matches!(r, Err(BuiltinError::File(FileError::NotOpened))));
    assert_eq!(files.open(&name("a.txt"), FileMode::Read, vec![]), Ok(()));
    let r = apply_builtin(Builtin::Eof, &vec![Value::Str(name("a.txt"))], &files);
    assert!(matches!(r, Ok(Value::Bool(true))));
    assert_eq!(files.open(&name("b.txt"), FileMode::Write, vec![]), Ok(()));
    let r = apply_builtin(Builtin::Eof, &vec![Value::Str(name("b.txt"))], &files);
    assert!(matches!(r, Err(BuiltinError::File(FileError::WrongMode))));
}

#[test]
fn builtin_argument_checks() {
    assert_eq!(check_builtin_arity(Builtin::Mid, false, 3), Ok(()));
    assert_eq!(check_builtin_arity(Builtin::Mid, false, 2), Err(CallError::ArgumentCount));
    assert_eq!(check_builtin_arity(Builtin::Today, false, 0), Ok(()));
    assert_eq!(check_builtin_argument(Builtin::Mid, false, 1, &VariableType::Integer), Ok(()));
    assert_eq!(check_builtin_argument(Builtin::Mid, false, 0, &VariableType::Integer), Err(CallError::ArgumentType));
    assert_eq!(check_builtin_argument(Builtin::Int, true, 0, &VariableType::Integer), Ok(()));
    assert_eq!(check_builtin_argument(Builtin::Int, false, 0, &VariableType::Integer), Err(CallError::ArgumentType));
}

#[test]
fn call_checks() {
    assert_eq!(check_arity(2, 2), Ok(()));
    assert_eq!(check_arity(2, 1), Err(CallError::ArgumentCount));
    assert_eq!(check_pass_by(true, false), Err(CallError::NotAPlace));
    assert_eq!(check_pass_by(true, true), Ok(()));
    assert_eq!(check_pass_by(false, false), Ok(()));
    assert_eq!(check_argument(true, false, &VariableType::Integer, &VariableType::Integer), Err(CallError::NotAPlace));
    assert_eq!(check_argument(false, false, &VariableType::Integer, &VariableType::Integer), Ok(()));
    assert_eq!(check_argument(true, true, &VariableType::Real, &VariableType::Integer), Err(CallError::ArgumentType));
    assert_eq!(call_outcome(false, true), Err(CallError::ReturnInProcedure));
    assert_eq!(call_outcome(true, false), Err(CallError::MissingReturn));
    assert_eq!(call_outcome(true, true), Ok(()));
    assert_eq!(call_outcome(false, false), Ok(()));
}

#[test]
fn only_names_of_places_pass_by_reference() {
    let var = Node::Var { name: name("x"), pos: Position::invalid() };
    assert!(is_place(&var));
    let deref = Node::Dereference { expr: Box::new(Node::Var { name: name("p"), pos: Position::invalid() }), pos: Position::invalid() };
    assert!(is_place(&deref));
    let literal = Node::Int { val: 1, pos: Position::invalid() };
    assert!(!is_place(&literal));
}
