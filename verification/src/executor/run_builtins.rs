//! The built-in functions: which name denotes which function, the parameter types each
//! expects and the checks of a call's arguments against them, the functions that compute on
//! strings, characters and dates, and the dispatch that applies a built-in to its arguments.
use crate::text::{str_eq, string_from_chars, to_lowercase, to_uppercase, unicode_lowercase, unicode_uppercase};
use crate::executor::files::{FileError, FileMode, FileTable, XFileV};
use crate::executor::run_expr::CallError;
use crate::types::{chrono_has_date, chrono_has_ymd, Date, TypeV, VariableType};
use chrono::Datelike;
use vstd::prelude::*;
use vstd::utf8::{decode_utf8, encode_utf8, is_char_boundary};

verus! {

/// The built-in functions.
#[derive(Clone, Copy, Debug, PartialEq, Eq, Structural)]
pub enum Builtin {
    Left,
    Right,
    Mid,
    Length,
    ToUpper,
    ToLower,
    NumToStr,
    StrToNum,
    IsNum,
    Asc,
    Chr,
    Int,
    Rand,
    Day,
    Month,
    Year,
    DayIndex,
    SetDate,
    Today,
    Eof,
}

/// The built-in function that an upper-cased name denotes.
pub open spec fn builtin_named(n: Seq<char>) -> Option<Builtin> {
    if n == "LEFT"@ {
        Some(Builtin::Left)
    } else if n == "RIGHT"@ {
        Some(Builtin::Right)
    } else if n == "MID"@ {
        Some(Builtin::Mid)
    } else if n == "LENGTH"@ {
        Some(Builtin::Length)
    } else if n == "TO_UPPER"@ {
        Some(Builtin::ToUpper)
    } else if n == "TO_LOWER"@ {
        Some(Builtin::ToLower)
    } else if n == "NUM_TO_STR"@ {
        Some(Builtin::NumToStr)
    } else if n == "STR_TO_NUM"@ {
        Some(Builtin::StrToNum)
    } else if n == "IS_NUM"@ {
        Some(Builtin::IsNum)
    } else if n == "ASC"@ {
        Some(Builtin::Asc)
    } else if n == "CHR"@ {
        Some(Builtin::Chr)
    } else if n == "INT"@ {
        Some(Builtin::Int)
    } else if n == "RAND"@ {
        Some(Builtin::Rand)
    } else if n == "DAY"@ {
        Some(Builtin::Day)
    } else if n == "MONTH"@ {
        Some(Builtin::Month)
    } else if n == "YEAR"@ {
        Some(Builtin::Year)
    } else if n == "DAYINDEX"@ {
        Some(Builtin::DayIndex)
    } else if n == "SETDATE"@ {
        Some(Builtin::SetDate)
    } else if n == "TODAY"@ {
        Some(Builtin::Today)
    } else if n == "EOF"@ {
        Some(Builtin::Eof)
    } else {
        None
    }
}

/// The built-in function that a called name denotes, whatever its letter case.
pub fn match_builtin(name: &str) -> (r: Option<Builtin>)
    ensures
        r == builtin_named(unicode_uppercase(name@)),
{
    let upper = to_uppercase(name);
    let n = upper.as_str();
    if str_eq(n, "LEFT") {
        Some(Builtin::Left)
    } else if str_eq(n, "RIGHT") {
        Some(Builtin::Right)
    } else if str_eq(n, "MID") {
        Some(Builtin::Mid)
    } else if str_eq(n, "LENGTH") {
        Some(Builtin::Length)
    } else if str_eq(n, "TO_UPPER") {
        Some(Builtin::ToUpper)
    } else if str_eq(n, "TO_LOWER") {
        Some(Builtin::ToLower)
    } else if str_eq(n, "NUM_TO_STR") {
        Some(Builtin::NumToStr)
    } else if str_eq(n, "STR_TO_NUM") {
        Some(Builtin::StrToNum)
    } else if str_eq(n, "IS_NUM") {
        Some(Builtin::IsNum)
    } else if str_eq(n, "ASC") {
        Some(Builtin::Asc)
    } else if str_eq(n, "CHR") {
        Some(Builtin::Chr)
    } else if str_eq(n, "INT") {
        Some(Builtin::Int)
    } else if str_eq(n, "RAND") {
        Some(Builtin::Rand)
    } else if str_eq(n, "DAY") {
        Some(Builtin::Day)
    } else if str_eq(n, "MONTH") {
        Some(Builtin::Month)
    } else if str_eq(n, "YEAR") {
        Some(Builtin::Year)
    } else if str_eq(n, "DAYINDEX") {
        Some(Builtin::DayIndex)
    } else if str_eq(n, "SETDATE") {
        Some(Builtin::SetDate)
    } else if str_eq(n, "TODAY") {
        Some(Builtin::Today)
    } else if str_eq(n, "EOF") {
        Some(Builtin::Eof)
    } else {
        None
    }
}

/// The parameter types of a built-in function. `NUM_TO_STR` and `INT` take an `INTEGER`
/// where the first argument is one (`first_is_integer`), a `REAL` otherwise.
pub open spec fn builtin_params(b: Builtin, first_is_integer: bool) -> Seq<TypeV> {
    match b {
        Builtin::Left | Builtin::Right => seq![TypeV::String, TypeV::Integer],
        Builtin::Mid => seq![TypeV::String, TypeV::Integer, TypeV::Integer],
        Builtin::Length | Builtin::ToUpper | Builtin::ToLower | Builtin::StrToNum | Builtin::IsNum
        | Builtin::Asc | Builtin::Eof => seq![TypeV::String],
        Builtin::NumToStr | Builtin::Int => if first_is_integer {
            seq![TypeV::Integer]
        } else {
            seq![TypeV::Real]
        },
        Builtin::Chr | Builtin::Rand => seq![TypeV::Integer],
        Builtin::Day | Builtin::Month | Builtin::Year | Builtin::DayIndex => seq![TypeV::Date],
        Builtin::SetDate => seq![TypeV::Integer, TypeV::Integer, TypeV::Integer],
        Builtin::Today => Seq::empty(),
    }
}

/// The parameter types of a built-in function (see `builtin_params`).
pub fn builtin_param_types(b: Builtin, first_is_integer: bool) -> (r: Vec<VariableType>)
    ensures
        r@.map_values(|t: VariableType| t@) == builtin_params(b, first_is_integer),
{
    let r = match b {
        Builtin::Left | Builtin::Right => vec![VariableType::String, VariableType::Integer],
        Builtin::Mid => vec![VariableType::String, VariableType::Integer, VariableType::Integer],
        Builtin::Length | Builtin::ToUpper | Builtin::ToLower | Builtin::StrToNum | Builtin::IsNum
        | Builtin::Asc | Builtin::Eof => vec![VariableType::String],
        Builtin::NumToStr | Builtin::Int => if first_is_integer {
            vec![VariableType::Integer]
        } else {
            vec![VariableType::Real]
        },
        Builtin::Chr | Builtin::Rand => vec![VariableType::Integer],
        Builtin::Day | Builtin::Month | Builtin::Year | Builtin::DayIndex => vec![VariableType::Date],
        Builtin::SetDate => vec![VariableType::Integer, VariableType::Integer, VariableType::Integer],
        Builtin::Today => Vec::new(),
    };
    proof {
        assert(r@.map_values(|t: VariableType| t@) =~= builtin_params(b, first_is_integer));
    }
    r
}

/// Whether two types are the same type.
pub fn types_equal(a: &VariableType, b: &VariableType) -> (r: bool)
    ensures
        r == (a@ == b@),
    decreases a,
{
    match (a, b) {
        (VariableType::Boolean, VariableType::Boolean) => true,
        (VariableType::Integer, VariableType::Integer) => true,
        (VariableType::Real, VariableType::Real) => true,
        (VariableType::Char, VariableType::Char) => true,
        (VariableType::String, VariableType::String) => true,
        (VariableType::Date, VariableType::Date) => true,
        (VariableType::Array { shape: s1, t: t1 }, VariableType::Array { shape: s2, t: t2 }) => {
            if s1.len() != s2.len() {
                proof {
                    assert(s1@.len() != s2@.len());
                }
                return false;
            }
            let mut k: usize = 0;
            while k < s1.len()
                invariant
                    k <= s1.len(),
                    s1.len() == s2.len(),
                    forall|j: int| 0 <= j < k ==> s1@[j] == s2@[j],
                    a@ is Array && a@->Array_shape == s1@,
                    b@ is Array && b@->Array_shape == s2@,
                decreases s1.len() - k,
            {
                if s1[k].lower != s2[k].lower || s1[k].upper != s2[k].upper {
                    proof {
                        assert(s1@[k as int] != s2@[k as int]);
                        assert(s1@ != s2@);
                    }
                    return false;
                }
                k = k + 1;
            }
            proof {
                assert(s1@ =~= s2@);
            }
            types_equal(t1, t2)
        },
        (VariableType::Pointer(t1), VariableType::Pointer(t2)) => types_equal(t1, t2),
        (VariableType::Custom(n1), VariableType::Custom(n2)) => str_eq(n1.as_str(), n2.as_str()),
        _ => false,
    }
}

/// Why a built-in function refused its arguments.
#[derive(Clone, Copy, Debug, PartialEq, Eq, Structural)]
pub enum BuiltinError {
    /// A length below 0.
    NegativeLength,
    /// A length beyond the end of the string.
    LengthTooLong,
    /// A starting position below 1.
    StartTooSmall,
    /// A string of other than one byte for `ASC`.
    NotOneCharacter,
    /// A character code outside 0-255 for `CHR`.
    CodeOutOfRange,
    /// Day, month and year that make no date.
    InvalidDate,
    /// The file operation behind `EOF` was refused.
    File(FileError),
}

/// The number of bytes of the UTF-8 encoding of a string.
pub open spec fn byte_len(s: Seq<char>) -> int {
    encode_utf8(s).len() as int
}

/// `LEFT(s, n)`: the first `n` bytes of `s`.
pub fn builtin_func_left(s: &str, n: i64) -> (r: Result<String, BuiltinError>)
    requires
        byte_len(s@) <= usize::MAX,
        0 <= n <= byte_len(s@) ==> is_char_boundary(encode_utf8(s@), n as int),
    ensures
        n < 0 ==> r == Err::<String, BuiltinError>(BuiltinError::NegativeLength),
        n > byte_len(s@) ==> r == Err::<String, BuiltinError>(BuiltinError::LengthTooLong),
        0 <= n <= byte_len(s@) ==> (r matches Ok(x) && encode_utf8(x@) == encode_utf8(s@).subrange(
            0,
            n as int,
        ) && x@ == decode_utf8(encode_utf8(s@).subrange(0, n as int))),
{
    proof {
        vstd::utf8::encode_utf8_valid_utf8(s@);
    }
    if n < 0 {
        return Err(BuiltinError::NegativeLength);
    }
    if n as u64 > s.len() as u64 {
        return Err(BuiltinError::LengthTooLong);
    }
    let (head, _) = s.split_at(n as usize);
    let x = head.to_owned();
    proof {
        vstd::utf8::encode_utf8_decode_utf8(x@);
    }
    Ok(x)
}

/// `RIGHT(s, n)`: the last `n` bytes of `s`.
pub fn builtin_func_right(s: &str, n: i64) -> (r: Result<String, BuiltinError>)
    requires
        byte_len(s@) <= usize::MAX,
        0 <= n <= byte_len(s@) ==> is_char_boundary(encode_utf8(s@), byte_len(s@) - n),
    ensures
        n < 0 ==> r == Err::<String, BuiltinError>(BuiltinError::NegativeLength),
        n > byte_len(s@) ==> r == Err::<String, BuiltinError>(BuiltinError::LengthTooLong),
        0 <= n <= byte_len(s@) ==> (r matches Ok(x) && encode_utf8(x@) == encode_utf8(s@).subrange(
            byte_len(s@) - n,
            byte_len(s@),
        ) && x@ == decode_utf8(encode_utf8(s@).subrange(byte_len(s@) - n, byte_len(s@)))),
{
    proof {
        vstd::utf8::encode_utf8_valid_utf8(s@);
    }
    if n < 0 {
        return Err(BuiltinError::NegativeLength);
    }
    if n as u64 > s.len() as u64 {
        return Err(BuiltinError::LengthTooLong);
    }
    let (_, tail) = s.split_at(s.len() - n as usize);
    let x = tail.to_owned();
    proof {
        vstd::utf8::encode_utf8_decode_utf8(x@);
    }
    Ok(x)
}

/// A character boundary at or after a boundary `from` is a boundary of the bytes from
/// `from` on.
proof fn lemma_boundary_in_suffix(bytes: Seq<u8>, from: int, n: int)
    requires
        vstd::utf8::valid_utf8(bytes),
        0 <= from,
        0 <= n,
        from + n <= bytes.len(),
        is_char_boundary(bytes, from),
        is_char_boundary(bytes, from + n),
    ensures
        is_char_boundary(bytes.subrange(from, bytes.len() as int), n),
{
    let tail = bytes.subrange(from, bytes.len() as int);
    vstd::utf8::valid_utf8_split(bytes, from);
    if n < tail.len() {
        vstd::utf8::is_char_boundary_iff_not_is_continuation_byte(bytes, from + n);
        vstd::utf8::is_char_boundary_iff_not_is_continuation_byte(tail, n);
        assert(tail[n] == bytes[from + n]);
    } else {
        vstd::utf8::is_char_boundary_start_end_of_seq(tail);
    }
}

/// `MID(s, start, n)`: the `n` bytes of `s` from byte `start` (counted from 1).
pub fn builtin_func_mid(s: &str, start: i64, n: i64) -> (r: Result<String, BuiltinError>)
    requires
        byte_len(s@) <= usize::MAX,
        1 <= start && 0 <= n && start + n <= byte_len(s@) + 1 ==> is_char_boundary(
            encode_utf8(s@),
            start - 1,
        ) && is_char_boundary(encode_utf8(s@), start - 1 + n),
    ensures
        start < 1 ==> r == Err::<String, BuiltinError>(BuiltinError::StartTooSmall),
        start >= 1 && n < 0 ==> r == Err::<String, BuiltinError>(BuiltinError::NegativeLength),
        start >= 1 && n >= 0 && start + n > byte_len(s@) + 1 ==> r == Err::<String, BuiltinError>(
            BuiltinError::LengthTooLong,
        ),
        start >= 1 && n >= 0 && start + n <= byte_len(s@) + 1 ==> (r matches Ok(x) && encode_utf8(x@)
            == encode_utf8(s@).subrange(start - 1, start - 1 + n) && x@ == decode_utf8(
            encode_utf8(s@).subrange(start - 1, start - 1 + n),
        )),
{
    proof {
        vstd::utf8::encode_utf8_valid_utf8(s@);
    }
    if start < 1 {
        return Err(BuiltinError::StartTooSmall);
    }
    if n < 0 {
        return Err(BuiltinError::NegativeLength);
    }
    let len = s.len() as u64;
    if start as u64 - 1 > len || n as u64 > len - (start as u64 - 1) {
        return Err(BuiltinError::LengthTooLong);
    }
    let from = (start - 1) as usize;
    let (_, tail) = s.split_at(from);
    proof {
        lemma_boundary_in_suffix(encode_utf8(s@), from as int, n as int);
    }
    let (mid, _) = tail.split_at(n as usize);
    proof {
        assert(encode_utf8(s@).subrange(from as int, byte_len(s@)).subrange(0, n as int) =~= encode_utf8(
            s@,
        ).subrange(from as int, from + n));
    }
    let x = mid.to_owned();
    proof {
        vstd::utf8::encode_utf8_decode_utf8(x@);
    }
    Ok(x)
}

/// `LENGTH(s)`: the number of bytes of `s`.
pub fn builtin_func_length(s: &str) -> (r: i64)
    requires
        byte_len(s@) <= usize::MAX,
        byte_len(s@) <= i64::MAX,
    ensures
        r == byte_len(s@),
{
    s.len() as i64
}

/// `TO_UPPER(s)`.
pub fn builtin_func_to_upper(s: &str) -> (r: String)
    ensures
        r@ == unicode_uppercase(s@),
{
    to_uppercase(s)
}

/// `TO_LOWER(s)`.
pub fn builtin_func_to_lower(s: &str) -> (r: String)
    ensures
        r@ == unicode_lowercase(s@),
{
    to_lowercase(s)
}

/// `ASC(s)`: the code of the character of a one-byte string.
pub fn builtin_func_asc(s: &str) -> (r: Result<i64, BuiltinError>)
    requires
        byte_len(s@) <= usize::MAX,
    ensures
        byte_len(s@) != 1 ==> r == Err::<i64, BuiltinError>(BuiltinError::NotOneCharacter),
        byte_len(s@) == 1 ==> s@.len() == 1 && (r matches Ok(n) && n == s@[0] as int),
{
    if s.len() != 1 {
        return Err(BuiltinError::NotOneCharacter);
    }
    proof {
        lemma_one_byte(s@);
    }
    let c = s.get_char(0);
    let n = c as u32 as i64;
    proof {
        vstd::utf8::char_u32_cast(c, c as u32);
    }
    Ok(n)
}

/// A string of one byte holds one character.
proof fn lemma_one_byte(s: Seq<char>)
    requires
        encode_utf8(s).len() == 1,
    ensures
        s.len() == 1,
{
    if s.len() == 0 {
        assert(encode_utf8(s) =~= Seq::<u8>::empty());
    } else if s.len() > 1 {
        let rest = s.drop_first();
        vstd::utf8::encode_utf8_first_scalar(s);
        vstd::utf8::encode_utf8_first_scalar(rest);
        assert(encode_utf8(s).len() >= 2);
    }
}

/// `CHR(n)`: the one-character string of the character with code `n` (0-255).
pub fn builtin_func_chr(n: i64) -> (r: Result<String, BuiltinError>)
    ensures
        !(0 <= n <= 255) ==> r == Err::<String, BuiltinError>(BuiltinError::CodeOutOfRange),
        0 <= n <= 255 ==> (r matches Ok(x) && x@ == seq![(n as u8) as char]),
{
    if n < 0 || n > 255 {
        return Err(BuiltinError::CodeOutOfRange);
    }
    let c = (n as u8) as char;
    let v = vec![c];
    Ok(string_from_chars(&v))
}

/// `DAY(d)`: the day of the month.
pub fn builtin_func_day(d: Date) -> (r: i64)
    ensures
        r == d.day,
{
    d.day as i64
}

/// `MONTH(d)`: the month.
pub fn builtin_func_month(d: Date) -> (r: i64)
    ensures
        r == d.month,
{
    d.month as i64
}

/// `YEAR(d)`: the year.
pub fn builtin_func_year(d: Date) -> (r: i64)
    ensures
        r == d.year,
{
    d.year as i64
}

/// The number of days from 1970-01-01 to the date `y`-`m`-`d` of the proleptic Gregorian
/// calendar (negative before it).
pub open spec fn days_from_civil(y: int, m: int, d: int) -> int {
    let y1 = if m <= 2 { y - 1 } else { y };
    let era = y1 / 400;
    let yoe = y1 - era * 400;
    let mp = (m + 9) % 12;
    let doy = (153 * mp + 2) / 5 + d - 1;
    let doe = yoe * 365 + yoe / 4 - yoe / 100 + doy;
    era * 146097 + doe - 719468
}

/// The day of the week of a date, counted from Sunday as 0 (1970-01-01 was a Thursday).
pub open spec fn weekday_from_sunday(d: Date) -> int {
    (days_from_civil(d.year as int, d.month as int, d.day as int) + 4) % 7
}

/// `chrono::NaiveDate::from_ymd_opt` and `Weekday::num_days_from_sunday`. Claimed: chrono
/// has the date exactly where `chrono_has_date` holds (its documented `None` cases: a day
/// or month that does not exist, a year out of range), and then the result is the day of
/// the week counted from Sunday as 0, in the proleptic Gregorian calendar.
#[verifier::external_body]
fn chrono_weekday(d: Date) -> (r: Option<u32>)
    ensures
        r is Some <==> chrono_has_date(d),
        r matches Some(w) ==> w == weekday_from_sunday(d),
{
    match chrono::NaiveDate::from_ymd_opt(d.year, d.month, d.day) {
        Some(nd) => Some(nd.weekday().num_days_from_sunday()),
        None => None,
    }
}

/// `DAYINDEX(d)`: the day of the week, Sunday being 1; `None` for a date that chrono does
/// not have (no date of the language is such).
pub fn builtin_func_day_index(d: Date) -> (r: Option<i64>)
    ensures
        chrono_has_date(d) ==> (r matches Some(x) && x == weekday_from_sunday(d) + 1),
        !chrono_has_date(d) ==> r is None,
{
    match chrono_weekday(d) {
        Some(w) => Some(w as i64 + 1),
        None => None,
    }
}

/// The date that `SETDATE(day, month, year)` makes, if any: chrono reads the year of
/// the text `year/month/day` in at most four digits unless it is signed, and the date must
/// exist.
pub open spec fn ymd_date(year: int, month: int, day: int) -> Option<Date> {
    if year <= 9999 && chrono_has_ymd(year, month, day) {
        Some(Date { year: year as i32, month: month as u32, day: day as u32 })
    } else {
        None
    }
}

/// `chrono::NaiveDate::parse_from_str` on `year/month/day` with the format `%Y/%m/%d`.
/// Claimed: a year without sign is read in at most four digits (a longer one leaves a digit
/// where `/` is due), a signed one in any number; month and day in one or two digits and in
/// 1-12 and 1-31; then the date must exist in chrono's calendar (`chrono_has_ymd`).
#[verifier::external_body]
fn parse_ymd_numbers(year: i64, month: i64, day: i64) -> (r: Option<Date>)
    ensures
        r == ymd_date(year as int, month as int, day as int),
{
    match chrono::NaiveDate::parse_from_str(&format!("{}/{}/{}", year, month, day), "%Y/%m/%d") {
        Ok(nd) => Some(Date { year: nd.year(), month: nd.month(), day: nd.day() }),
        Err(_) => None,
    }
}

/// `SETDATE(day, month, year)`: the date with those numbers, refused where they make no
/// date (or the year has more than four digits).
pub fn builtin_func_set_date(day: i64, month: i64, year: i64) -> (r: Result<Date, BuiltinError>)
    ensures
        match ymd_date(year as int, month as int, day as int) {
            Some(d) => r == Ok::<Date, BuiltinError>(d),
            None => r == Err::<Date, BuiltinError>(BuiltinError::InvalidDate),
        },
        r matches Ok(d) ==> d.year == year && d.month == month && d.day == day,
{
    match parse_ymd_numbers(year, month, day) {
        Some(d) => Ok(d),
        None => Err(BuiltinError::InvalidDate),
    }
}

/// A call of a built-in function takes as many arguments as it has parameters.
pub fn check_builtin_arity(b: Builtin, first_is_integer: bool, n_args: usize) -> (r: Result<(), CallError>)
    ensures
        r is Ok <==> n_args == builtin_params(b, first_is_integer).len(),
        r is Err ==> r == Err::<(), CallError>(CallError::ArgumentCount),
{
    let params = builtin_param_types(b, first_is_integer);
    if n_args == params.len() {
        Ok(())
    } else {
        Err(CallError::ArgumentCount)
    }
}

/// The `k`-th argument of a call of a built-in function is of the `k`-th parameter's type.
pub fn check_builtin_argument(b: Builtin, first_is_integer: bool, k: usize, arg_t: &VariableType) -> (r: Result<
    (),
    CallError,
>)
    requires
        k < builtin_params(b, first_is_integer).len(),
    ensures
        r is Ok <==> arg_t@ == builtin_params(b, first_is_integer)[k as int],
        r is Err ==> r == Err::<(), CallError>(CallError::ArgumentType),
{
    let params = builtin_param_types(b, first_is_integer);
    proof {
        assert(params@.map_values(|t: VariableType| t@)[k as int] == params@[k as int]@);
    }
    if types_equal(arg_t, &params[k]) {
        Ok(())
    } else {
        Err(CallError::ArgumentType)
    }
}

/// A value handed to, or given back by, a built-in function that computes on integers,
/// strings, dates and truth values.
#[derive(Clone, Debug)]
pub enum Value {
    Int(i64),
    Str(String),
    Date(Date),
    Bool(bool),
}

/// The mathematical value of a `Value`.
pub enum ValueV {
    Int(int),
    Str(Seq<char>),
    Date(Date),
    Bool(bool),
}

impl View for Value {
    type V = ValueV;

    open spec fn view(&self) -> ValueV {
        match self {
            Value::Int(n) => ValueV::Int(*n as int),
            Value::Str(s) => ValueV::Str(s@),
            Value::Date(d) => ValueV::Date(*d),
            Value::Bool(b) => ValueV::Bool(*b),
        }
    }
}

/// The views of a list of values.
pub open spec fn values_view(s: Seq<Value>) -> Seq<ValueV> {
    s.map_values(|v: Value| v@)
}

/// The view of a built-in function's outcome.
pub open spec fn outcome_view(r: Result<Value, BuiltinError>) -> Result<ValueV, BuiltinError> {
    match r {
        Ok(v) => Ok(v@),
        Err(e) => Err(e),
    }
}

/// The type of a value.
pub open spec fn value_type(v: ValueV) -> TypeV {
    match v {
        ValueV::Int(_) => TypeV::Integer,
        ValueV::Str(_) => TypeV::String,
        ValueV::Date(_) => TypeV::Date,
        ValueV::Bool(_) => TypeV::Boolean,
    }
}

/// The built-in functions that compute on integers, strings, dates and open files alone
/// (the others read reals, the clock or chance).
pub open spec fn plain_builtin(b: Builtin) -> bool {
    !(b is NumToStr || b is StrToNum || b is IsNum || b is Int || b is Rand || b is Today)
}

/// The arguments are as many as the parameters, each of its parameter's type.
pub open spec fn args_fit(b: Builtin, vals: Seq<ValueV>) -> bool {
    let ps = builtin_params(b, false);
    &&& vals.len() == ps.len()
    &&& forall|k: int| 0 <= k < vals.len() ==> #[trigger] value_type(vals[k]) == ps[k]
}

/// What the string functions need of their arguments beyond their types: a string that
/// fits in memory, and a cut at a character boundary (slicing elsewhere panics).
pub open spec fn builtin_admits(b: Builtin, vals: Seq<ValueV>) -> bool {
    match b {
        Builtin::Left => match (vals[0], vals[1]) {
            (ValueV::Str(s), ValueV::Int(n)) => byte_len(s) <= usize::MAX && (0 <= n <= byte_len(s)
                ==> is_char_boundary(encode_utf8(s), n)),
            _ => true,
        },
        Builtin::Right => match (vals[0], vals[1]) {
            (ValueV::Str(s), ValueV::Int(n)) => byte_len(s) <= usize::MAX && (0 <= n <= byte_len(s)
                ==> is_char_boundary(encode_utf8(s), byte_len(s) - n)),
            _ => true,
        },
        Builtin::Mid => match (vals[0], vals[1], vals[2]) {
            (ValueV::Str(s), ValueV::Int(start), ValueV::Int(n)) => byte_len(s) <= usize::MAX && (1 <= start
                && 0 <= n && start + n <= byte_len(s) + 1 ==> is_char_boundary(encode_utf8(s), start - 1)
                && is_char_boundary(encode_utf8(s), start - 1 + n)),
            _ => true,
        },
        Builtin::Length | Builtin::Asc => match vals[0] {
            ValueV::Str(s) => byte_len(s) <= usize::MAX && byte_len(s) <= i64::MAX,
            _ => true,
        },
        _ => true,
    }
}

/// What a built-in function gives back, or why it refuses, on arguments that fit it.
pub open spec fn builtin_outcome(b: Builtin, vals: Seq<ValueV>, files: Map<Seq<char>, XFileV>) -> Result<
    ValueV,
    BuiltinError,
> {
    match b {
        Builtin::Left => match (vals[0], vals[1]) {
            (ValueV::Str(s), ValueV::Int(n)) => if n < 0 {
                Err(BuiltinError::NegativeLength)
            } else if n > byte_len(s) {
                Err(BuiltinError::LengthTooLong)
            } else {
                Ok(ValueV::Str(decode_utf8(encode_utf8(s).subrange(0, n))))
            },
            _ => arbitrary(),
        },
        Builtin::Right => match (vals[0], vals[1]) {
            (ValueV::Str(s), ValueV::Int(n)) => if n < 0 {
                Err(BuiltinError::NegativeLength)
            } else if n > byte_len(s) {
                Err(BuiltinError::LengthTooLong)
            } else {
                Ok(ValueV::Str(decode_utf8(encode_utf8(s).subrange(byte_len(s) - n, byte_len(s)))))
            },
            _ => arbitrary(),
        },
        Builtin::Mid => match (vals[0], vals[1], vals[2]) {
            (ValueV::Str(s), ValueV::Int(start), ValueV::Int(n)) => if start < 1 {
                Err(BuiltinError::StartTooSmall)
            } else if n < 0 {
                Err(BuiltinError::NegativeLength)
            } else if start + n > byte_len(s) + 1 {
                Err(BuiltinError::LengthTooLong)
            } else {
                Ok(ValueV::Str(decode_utf8(encode_utf8(s).subrange(start - 1, start - 1 + n))))
            },
            _ => arbitrary(),
        },
        Builtin::Length => match vals[0] {
            ValueV::Str(s) => Ok(ValueV::Int(byte_len(s))),
            _ => arbitrary(),
        },
        Builtin::ToUpper => match vals[0] {
            ValueV::Str(s) => Ok(ValueV::Str(unicode_uppercase(s))),
            _ => arbitrary(),
        },
        Builtin::ToLower => match vals[0] {
            ValueV::Str(s) => Ok(ValueV::Str(unicode_lowercase(s))),
            _ => arbitrary(),
        },
        Builtin::Asc => match vals[0] {
            ValueV::Str(s) => if byte_len(s) != 1 {
                Err(BuiltinError::NotOneCharacter)
            } else {
                Ok(ValueV::Int(s[0] as int))
            },
            _ => arbitrary(),
        },
        Builtin::Chr => match vals[0] {
            ValueV::Int(n) => if 0 <= n <= 255 {
                Ok(ValueV::Str(seq![(n as u8) as char]))
            } else {
                Err(BuiltinError::CodeOutOfRange)
            },
            _ => arbitrary(),
        },
        Builtin::Day => match vals[0] {
            ValueV::Date(d) => Ok(ValueV::Int(d.day as int)),
            _ => arbitrary(),
        },
        Builtin::Month => match vals[0] {
            ValueV::Date(d) => Ok(ValueV::Int(d.month as int)),
            _ => arbitrary(),
        },
        Builtin::Year => match vals[0] {
            ValueV::Date(d) => Ok(ValueV::Int(d.year as int)),
            _ => arbitrary(),
        },
        Builtin::DayIndex => match vals[0] {
            ValueV::Date(d) => if chrono_has_date(d) {
                Ok(ValueV::Int(weekday_from_sunday(d) + 1))
            } else {
                Err(BuiltinError::InvalidDate)
            },
            _ => arbitrary(),
        },
        Builtin::SetDate => match (vals[0], vals[1], vals[2]) {
            (ValueV::Int(day), ValueV::Int(month), ValueV::Int(year)) => match ymd_date(year, month, day) {
                Some(d) => Ok(ValueV::Date(d)),
                None => Err(BuiltinError::InvalidDate),
            },
            _ => arbitrary(),
        },
        Builtin::Eof => match vals[0] {
            ValueV::Str(name) => if !files.contains_key(name) {
                Err(BuiltinError::File(FileError::NotOpened))
            } else if files[name].mode != FileMode::Read {
                Err(BuiltinError::File(FileError::WrongMode))
            } else {
                Ok(ValueV::Bool(files[name].cursor > files[name].content.len()))
            },
            _ => arbitrary(),
        },
        _ => arbitrary(),
    }
}

/// The string argument at `k`.
fn str_arg(args: &Vec<Value>, k: usize) -> (s: &String)
    requires
        k < args.len(),
        args@[k as int]@ is Str,
    ensures
        ValueV::Str(s@) == args@[k as int]@,
{
    match &args[k] {
        Value::Str(s) => s,
        _ => unreached(),
    }
}

/// The integer argument at `k`.
fn int_arg(args: &Vec<Value>, k: usize) -> (n: i64)
    requires
        k < args.len(),
        args@[k as int]@ is Int,
    ensures
        ValueV::Int(n as int) == args@[k as int]@,
{
    match &args[k] {
        Value::Int(n) => *n,
        _ => unreached(),
    }
}

/// The date argument at `k`.
fn date_arg(args: &Vec<Value>, k: usize) -> (d: Date)
    requires
        k < args.len(),
        args@[k as int]@ is Date,
    ensures
        ValueV::Date(d) == args@[k as int]@,
{
    match &args[k] {
        Value::Date(d) => *d,
        _ => unreached(),
    }
}

/// A string result as a value.
fn str_value(r: Result<String, BuiltinError>) -> (v: Result<Value, BuiltinError>)
    ensures
        match r {
            Ok(x) => outcome_view(v) == Ok::<ValueV, BuiltinError>(ValueV::Str(x@)),
            Err(e) => v == Err::<Value, BuiltinError>(e),
        },
{
    match r {
        Ok(x) => Ok(Value::Str(x)),
        Err(e) => Err(e),
    }
}

/// Applies a built-in function that computes on integers, strings, dates and open files to
/// arguments that fit it.
pub fn apply_builtin(b: Builtin, args: &Vec<Value>, files: &FileTable) -> (r: Result<Value, BuiltinError>)
    requires
        plain_builtin(b),
        args_fit(b, values_view(args@)),
        builtin_admits(b, values_view(args@)),
        files.wf(),
    ensures
        outcome_view(r) == builtin_outcome(b, values_view(args@), files.map()),
{
    let ghost vals = values_view(args@);
    proof {
        assert forall|k: int| 0 <= k < args@.len() implies #[trigger] vals[k] == args@[k]@ by {}
        assert(vals.len() == args@.len());
        if vals.len() > 0 {
            assert(value_type(vals[0]) == builtin_params(b, false)[0]);
        }
        if vals.len() > 1 {
            assert(value_type(vals[1]) == builtin_params(b, false)[1]);
        }
        if vals.len() > 2 {
            assert(value_type(vals[2]) == builtin_params(b, false)[2]);
        }
    }
    match b {
        Builtin::Left => str_value(builtin_func_left(str_arg(args, 0).as_str(), int_arg(args, 1))),
        Builtin::Right => str_value(builtin_func_right(str_arg(args, 0).as_str(), int_arg(args, 1))),
        Builtin::Mid => str_value(
            builtin_func_mid(str_arg(args, 0).as_str(), int_arg(args, 1), int_arg(args, 2)),
        ),
        Builtin::Length => Ok(Value::Int(builtin_func_length(str_arg(args, 0).as_str()))),
        Builtin::ToUpper => Ok(Value::Str(builtin_func_to_upper(str_arg(args, 0).as_str()))),
        Builtin::ToLower => Ok(Value::Str(builtin_func_to_lower(str_arg(args, 0).as_str()))),
        Builtin::Asc => match builtin_func_asc(str_arg(args, 0).as_str()) {
            Ok(n) => Ok(Value::Int(n)),
            Err(e) => Err(e),
        },
        Builtin::Chr => str_value(builtin_func_chr(int_arg(args, 0))),
        Builtin::Day => Ok(Value::Int(builtin_func_day(date_arg(args, 0)))),
        Builtin::Month => Ok(Value::Int(builtin_func_month(date_arg(args, 0)))),
        Builtin::Year => Ok(Value::Int(builtin_func_year(date_arg(args, 0)))),
        Builtin::DayIndex => match builtin_func_day_index(date_arg(args, 0)) {
            Some(n) => Ok(Value::Int(n)),
            None => Err(BuiltinError::InvalidDate),
        },
        Builtin::SetDate => match builtin_func_set_date(int_arg(args, 0), int_arg(args, 1), int_arg(args, 2)) {
            Ok(d) => Ok(Value::Date(d)),
            Err(e) => Err(e),
        },
        Builtin::Eof => match files.eof(str_arg(args, 0).as_str()) {
            Ok(v) => Ok(Value::Bool(v)),
            Err(e) => Err(BuiltinError::File(e)),
        },
        _ => unreached(),
    }
}

/// `LEFT(s, n) & RIGHT(s, LENGTH(s) - n)` is `s`: the two parts a string is cut into at a
/// character boundary make it up again.
pub proof fn law_left_and_right_make_up_the_string(s: Seq<char>, n: int, files: Map<Seq<char>, XFileV>)
    requires
        0 <= n <= byte_len(s),
        is_char_boundary(encode_utf8(s), n),
    ensures
        match (
            builtin_outcome(Builtin::Left, seq![ValueV::Str(s), ValueV::Int(n)], files),
            builtin_outcome(Builtin::Right, seq![ValueV::Str(s), ValueV::Int(byte_len(s) - n)], files),
        ) {
            (Ok(ValueV::Str(l)), Ok(ValueV::Str(r))) => l + r == s,
            _ => false,
        },
{
    let bytes = encode_utf8(s);
    vstd::utf8::encode_utf8_valid_utf8(s);
    vstd::utf8::decode_utf8_split(bytes, n);
    vstd::utf8::encode_utf8_decode_utf8(s);
    assert(byte_len(s) - (byte_len(s) - n) == n);
}

/// `MID(s, 1, n)` is `LEFT(s, n)`, refusals included.
pub proof fn law_mid_from_first_is_left(s: Seq<char>, n: int, files: Map<Seq<char>, XFileV>)
    ensures
        builtin_outcome(Builtin::Mid, seq![ValueV::Str(s), ValueV::Int(1), ValueV::Int(n)], files)
            == builtin_outcome(Builtin::Left, seq![ValueV::Str(s), ValueV::Int(n)], files),
{
}

/// `ASC(CHR(n))` is `n` for an ASCII code `n`: `CHR` gives a one-byte string, which `ASC`
/// accepts.
pub proof fn law_asc_of_chr(n: int, files: Map<Seq<char>, XFileV>)
    requires
        0 <= n < 128,
    ensures
        match builtin_outcome(Builtin::Chr, seq![ValueV::Int(n)], files) {
            Ok(ValueV::Str(x)) => builtin_outcome(Builtin::Asc, seq![ValueV::Str(x)], files) == Ok::<
                ValueV,
                BuiltinError,
            >(ValueV::Int(n)),
            _ => false,
        },
{
    let x = seq![(n as u8) as char];
    vstd::utf8::encode_utf8_first_scalar(x);
    assert(x.drop_first() =~= Seq::<char>::empty());
    assert(encode_utf8(x.drop_first()) =~= Seq::<u8>::empty());
}

/// `CHR(ASC(c))` is `c` for a one-byte string `c`.
pub proof fn law_chr_of_asc(c: Seq<char>, files: Map<Seq<char>, XFileV>)
    requires
        byte_len(c) == 1,
    ensures
        match builtin_outcome(Builtin::Asc, seq![ValueV::Str(c)], files) {
            Ok(ValueV::Int(n)) => builtin_outcome(Builtin::Chr, seq![ValueV::Int(n)], files) == Ok::<
                ValueV,
                BuiltinError,
            >(ValueV::Str(c)),
            _ => false,
        },
{
    lemma_one_byte(c);
    vstd::utf8::encode_utf8_first_scalar(c);
    assert(c.drop_first() =~= Seq::<char>::empty());
    assert(encode_utf8(c.drop_first()) =~= Seq::<u8>::empty());
    let u = c[0] as u32;
    vstd::utf8::char_is_scalar(c[0]);
    assert(u < 0x80);
    vstd::utf8::char_u32_cast(c[0], u);
    assert(((c[0] as int) as u8) as char == c[0]);
    assert(seq![((c[0] as int) as u8) as char] =~= c);
}

/// `SETDATE(day, month, year)` of numbers that make a date gives a date whose `DAY`,
/// `MONTH` and `YEAR` are those numbers.
pub proof fn law_set_date_then_parts(day: int, month: int, year: int, files: Map<Seq<char>, XFileV>)
    requires
        ymd_date(year, month, day) is Some,
    ensures
        match builtin_outcome(
            Builtin::SetDate,
            seq![ValueV::Int(day), ValueV::Int(month), ValueV::Int(year)],
            files,
        ) {
            Ok(ValueV::Date(d)) => {
                &&& builtin_outcome(Builtin::Day, seq![ValueV::Date(d)], files) == Ok::<ValueV, BuiltinError>(
                    ValueV::Int(day),
                )
                &&& builtin_outcome(Builtin::Month, seq![ValueV::Date(d)], files) == Ok::<
                    ValueV,
                    BuiltinError,
                >(ValueV::Int(month))
                &&& builtin_outcome(Builtin::Year, seq![ValueV::Date(d)], files) == Ok::<ValueV, BuiltinError>(
                    ValueV::Int(year),
                )
            },
            _ => false,
        },
{
}

/// The keyword under which the language documents each built-in function.
pub open spec fn builtin_keyword(b: Builtin) -> Seq<char> {
    match b {
        Builtin::Left => "LEFT"@,
        Builtin::Right => "RIGHT"@,
        Builtin::Mid => "MID"@,
        Builtin::Length => "LENGTH"@,
        Builtin::ToUpper => "TO_UPPER"@,
        Builtin::ToLower => "TO_LOWER"@,
        Builtin::NumToStr => "NUM_TO_STR"@,
        Builtin::StrToNum => "STR_TO_NUM"@,
        Builtin::IsNum => "IS_NUM"@,
        Builtin::Asc => "ASC"@,
        Builtin::Chr => "CHR"@,
        Builtin::Int => "INT"@,
        Builtin::Rand => "RAND"@,
        Builtin::Day => "DAY"@,
        Builtin::Month => "MONTH"@,
        Builtin::Year => "YEAR"@,
        Builtin::DayIndex => "DAYINDEX"@,
        Builtin::SetDate => "SETDATE"@,
        Builtin::Today => "TODAY"@,
        Builtin::Eof => "EOF"@,
    }
}

/// Each built-in function is the one its documented keyword names, so no two keywords
/// name the same built-in.
pub proof fn law_keyword_names_its_builtin(b: Builtin, c: Builtin)
    ensures
        builtin_named(builtin_keyword(b)) == Some(b),
        builtin_named(builtin_keyword(b)) == builtin_named(builtin_keyword(c)) ==> b == c,
{
    lemma_keyword_names(b);
    lemma_keyword_names(c);
}

proof fn lemma_keyword_names(b: Builtin)
    ensures
        builtin_named(builtin_keyword(b)) == Some(b),
{
    reveal_strlit("LEFT");
    reveal_strlit("RIGHT");
    reveal_strlit("MID");
    reveal_strlit("LENGTH");
    reveal_strlit("TO_UPPER");
    reveal_strlit("TO_LOWER");
    reveal_strlit("NUM_TO_STR");
    reveal_strlit("STR_TO_NUM");
    reveal_strlit("IS_NUM");
    reveal_strlit("ASC");
    reveal_strlit("CHR");
    reveal_strlit("INT");
    reveal_strlit("RAND");
    reveal_strlit("DAY");
    reveal_strlit("MONTH");
    reveal_strlit("YEAR");
    reveal_strlit("DAYINDEX");
    reveal_strlit("SETDATE");
    reveal_strlit("TODAY");
    reveal_strlit("EOF");
    assert("LEFT"@.len() == 4 && "LEFT"@[0] == 'L' && "LEFT"@[1] == 'E' && "LEFT"@[2] == 'F');
    assert("RIGHT"@.len() == 5 && "RIGHT"@[0] == 'R' && "RIGHT"@[1] == 'I' && "RIGHT"@[2] == 'G');
    assert("MID"@.len() == 3 && "MID"@[0] == 'M' && "MID"@[1] == 'I' && "MID"@[2] == 'D');
    assert("LENGTH"@.len() == 6 && "LENGTH"@[0] == 'L' && "LENGTH"@[1] == 'E' && "LENGTH"@[2] == 'N');
    assert("TO_UPPER"@.len() == 8 && "TO_UPPER"@[0] == 'T' && "TO_UPPER"@[1] == 'O' && "TO_UPPER"@[2] == '_');
    assert("TO_LOWER"@.len() == 8 && "TO_LOWER"@[0] == 'T' && "TO_LOWER"@[1] == 'O' && "TO_LOWER"@[2] == '_');
    assert("NUM_TO_STR"@.len() == 10 && "NUM_TO_STR"@[0] == 'N' && "NUM_TO_STR"@[1] == 'U' && "NUM_TO_STR"@[2] == 'M');
    assert("STR_TO_NUM"@.len() == 10 && "STR_TO_NUM"@[0] == 'S' && "STR_TO_NUM"@[1] == 'T' && "STR_TO_NUM"@[2] == 'R');
    assert("IS_NUM"@.len() == 6 && "IS_NUM"@[0] == 'I' && "IS_NUM"@[1] == 'S' && "IS_NUM"@[2] == '_');
    assert("ASC"@.len() == 3 && "ASC"@[0] == 'A' && "ASC"@[1] == 'S' && "ASC"@[2] == 'C');
    assert("CHR"@.len() == 3 && "CHR"@[0] == 'C' && "CHR"@[1] == 'H' && "CHR"@[2] == 'R');
    assert("INT"@.len() == 3 && "INT"@[0] == 'I' && "INT"@[1] == 'N' && "INT"@[2] == 'T');
    assert("RAND"@.len() == 4 && "RAND"@[0] == 'R' && "RAND"@[1] == 'A' && "RAND"@[2] == 'N');
    assert("DAY"@.len() == 3 && "DAY"@[0] == 'D' && "DAY"@[1] == 'A' && "DAY"@[2] == 'Y');
    assert("MONTH"@.len() == 5 && "MONTH"@[0] == 'M' && "MONTH"@[1] == 'O' && "MONTH"@[2] == 'N');
    assert("YEAR"@.len() == 4 && "YEAR"@[0] == 'Y' && "YEAR"@[1] == 'E' && "YEAR"@[2] == 'A');
    assert("DAYINDEX"@.len() == 8 && "DAYINDEX"@[0] == 'D' && "DAYINDEX"@[1] == 'A' && "DAYINDEX"@[2] == 'Y');
    assert("SETDATE"@.len() == 7 && "SETDATE"@[0] == 'S' && "SETDATE"@[1] == 'E' && "SETDATE"@[2] == 'T');
    assert("TODAY"@.len() == 5 && "TODAY"@[0] == 'T' && "TODAY"@[1] == 'O' && "TODAY"@[2] == 'D');
    assert("EOF"@.len() == 3 && "EOF"@[0] == 'E' && "EOF"@[1] == 'O' && "EOF"@[2] == 'F');
    assert("TO_UPPER"@[3] == 'U' && "TO_LOWER"@[3] == 'L');
    match b {
        Builtin::Left => {},
        Builtin::Right => {},
        Builtin::Mid => {},
        Builtin::Length => {},
        Builtin::ToUpper => {},
        Builtin::ToLower => {},
        Builtin::NumToStr => {},
        Builtin::StrToNum => {},
        Builtin::IsNum => {},
        Builtin::Asc => {},
        Builtin::Chr => {},
        Builtin::Int => {},
        Builtin::Rand => {},
        Builtin::Day => {},
        Builtin::Month => {},
        Builtin::Year => {},
        Builtin::DayIndex => {},
        Builtin::SetDate => {},
        Builtin::Today => {},
        Builtin::Eof => {},
    }
}

/// The built-in named `LEFT` gives the first `n` bytes of its string: a text of `n` bytes
/// that the rest of the string follows.
pub proof fn law_named_left_takes_a_prefix(s: Seq<char>, n: int, files: Map<Seq<char>, XFileV>)
    requires
        0 <= n <= byte_len(s),
        is_char_boundary(encode_utf8(s), n),
    ensures
        builtin_named("LEFT"@) matches Some(b) && builtin_outcome(
            b,
            seq![ValueV::Str(s), ValueV::Int(n)],
            files,
        ) matches Ok(ValueV::Str(x)) && byte_len(x) == n && x + decode_utf8(
            encode_utf8(s).subrange(n, byte_len(s)),
        ) == s,
{
    reveal_strlit("LEFT");
    assert("LEFT"@.len() == 4);
    let bytes = encode_utf8(s);
    vstd::utf8::encode_utf8_valid_utf8(s);
    vstd::utf8::valid_utf8_split(bytes, n);
    vstd::utf8::decode_utf8_encode_utf8(bytes.subrange(0, n));
    vstd::utf8::decode_utf8_split(bytes, n);
    vstd::utf8::encode_utf8_decode_utf8(s);
}

/// The built-in named `RIGHT` gives the last `n` bytes of its string: a text of `n` bytes
/// that follows the rest of the string.
pub proof fn law_named_right_takes_a_suffix(s: Seq<char>, n: int, files: Map<Seq<char>, XFileV>)
    requires
        0 <= n <= byte_len(s),
        is_char_boundary(encode_utf8(s), byte_len(s) - n),
    ensures
        builtin_named("RIGHT"@) matches Some(b) && builtin_outcome(
            b,
            seq![ValueV::Str(s), ValueV::Int(n)],
            files,
        ) matches Ok(ValueV::Str(x)) && byte_len(x) == n && decode_utf8(
            encode_utf8(s).subrange(0, byte_len(s) - n),
        ) + x == s,
{
    reveal_strlit("LEFT");
    reveal_strlit("RIGHT");
    assert("LEFT"@.len() == 4 && "RIGHT"@.len() == 5);
    let bytes = encode_utf8(s);
    let m = byte_len(s) - n;
    vstd::utf8::encode_utf8_valid_utf8(s);
    vstd::utf8::valid_utf8_split(bytes, m);
    vstd::utf8::decode_utf8_encode_utf8(bytes.subrange(m, byte_len(s)));
    vstd::utf8::decode_utf8_split(bytes, m);
    vstd::utf8::encode_utf8_decode_utf8(s);
}

} // verus!
