use vstd::prelude::*;
use vstd::string::StringExecFns;

verus! {

/// Inclusive bounds of one dimension of an array.
#[derive(Clone, Copy, Debug, PartialEq, Eq, Structural)]
pub struct Index {
    pub lower: i64,
    pub upper: i64,
}

/// One dimension of an array type together with its element type.
#[derive(Debug, PartialEq)]
pub struct Array {
    pub t: Box<VariableType>,
    pub lower: i64,
    pub upper: i64,
}

/// A calendar date as the language sees it: year, month (1-12) and day of month.
#[derive(Clone, Copy, Debug, PartialEq, Eq, Structural)]
pub struct Date {
    pub year: i32,
    pub month: u32,
    pub day: u32,
}

/// The data types of the language.
#[derive(Debug, PartialEq)]
pub enum VariableType {
    Boolean,
    Integer,
    Real,
    Char,
    String,
    Date,
    Array { shape: Vec<Index>, t: Box<VariableType> },
    Pointer(Box<VariableType>),
    Custom(String),
}

/// The mathematical value of a `VariableType`: names become character sequences.
pub enum TypeV {
    Boolean,
    Integer,
    Real,
    Char,
    String,
    Date,
    Array { shape: Seq<Index>, t: Box<TypeV> },
    Pointer(Box<TypeV>),
    Custom(Seq<char>),
}

impl View for VariableType {
    type V = TypeV;

    open spec fn view(&self) -> TypeV
        decreases self,
    {
        match self {
            VariableType::Boolean => TypeV::Boolean,
            VariableType::Integer => TypeV::Integer,
            VariableType::Real => TypeV::Real,
            VariableType::Char => TypeV::Char,
            VariableType::String => TypeV::String,
            VariableType::Date => TypeV::Date,
            VariableType::Array { shape, t } => TypeV::Array { shape: shape@, t: Box::new((**t).view()) },
            VariableType::Pointer(t) => TypeV::Pointer(Box::new((**t).view())),
            VariableType::Custom(name) => TypeV::Custom(name@),
        }
    }
}

impl Clone for VariableType {
    fn clone(&self) -> (res: Self)
        ensures
            res@ == self@,
        decreases self,
    {
        match self {
            VariableType::Boolean => VariableType::Boolean,
            VariableType::Integer => VariableType::Integer,
            VariableType::Real => VariableType::Real,
            VariableType::Char => VariableType::Char,
            VariableType::String => VariableType::String,
            VariableType::Date => VariableType::Date,
            VariableType::Array { shape, t } => {
                let t2 = (**t).clone();
                let shape2 = shape.clone();
                proof {
                    assert(shape2@ =~= shape@);
                }
                VariableType::Array { shape: shape2, t: Box::new(t2) }
            },
            VariableType::Pointer(t) => VariableType::Pointer(Box::new((**t).clone())),
            VariableType::Custom(name) => VariableType::Custom(name.clone()),
        }
    }
}

impl Clone for Array {
    fn clone(&self) -> (res: Self)
        ensures
            res.t@ == self.t@,
            res.lower == self.lower,
            res.upper == self.upper,
    {
        Array { t: Box::new((*self.t).clone()), lower: self.lower, upper: self.upper }
    }
}

/// The name under which a type is shown to the user.
pub open spec fn shown_name(t: TypeV) -> Seq<char>
    decreases t,
{
    match t {
        TypeV::Boolean => "BOOLEAN"@,
        TypeV::Integer => "INTEGER"@,
        TypeV::Real => "REAL"@,
        TypeV::Char => "CHAR"@,
        TypeV::String => "STRING"@,
        TypeV::Date => "DATE"@,
        TypeV::Array { t, .. } => shown_name(*t) + "[]"@,
        TypeV::Pointer(t) => "^"@ + shown_name(*t),
        TypeV::Custom(name) => name,
    }
}

impl VariableType {
    /// The type's name: the keyword of a primitive type, `T[]` for an array of `T`,
    /// `^T` for a pointer to `T`, and its own name for a user-defined type.
    pub fn str(&self) -> (s: String)
        ensures
            s@ == shown_name(self@),
        decreases self,
    {
        match self {
            VariableType::Boolean => String::from_str("BOOLEAN"),
            VariableType::Integer => String::from_str("INTEGER"),
            VariableType::Real => String::from_str("REAL"),
            VariableType::Char => String::from_str("CHAR"),
            VariableType::String => String::from_str("STRING"),
            VariableType::Date => String::from_str("DATE"),
            VariableType::Array { t, .. } => {
                let inner = t.str();
                inner.concat("[]")
            },
            VariableType::Pointer(t) => {
                let inner = t.str();
                String::from_str("^").concat(inner.as_str())
            },
            VariableType::Custom(name) => name.clone(),
        }
    }
}

// ----- the calendar -----

/// Whether `y` is a leap year of the proleptic Gregorian calendar.
pub open spec fn is_leap_year(y: int) -> bool {
    (y % 4 == 0 && y % 100 != 0) || y % 400 == 0
}

/// The number of days of month `m` of year `y`.
pub open spec fn days_in_month(y: int, m: int) -> int {
    if m == 2 {
        if is_leap_year(y) {
            29
        } else {
            28
        }
    } else if m == 4 || m == 6 || m == 9 || m == 11 {
        30
    } else {
        31
    }
}

/// Whether chrono's `NaiveDate` has the date: a day of a month 1-12 that exists in the
/// proleptic Gregorian calendar, in a year from -262143 to 262142.
pub open spec fn chrono_has_date(d: Date) -> bool {
    chrono_has_ymd(d.year as int, d.month as int, d.day as int)
}

/// The same for a year, month and day given as numbers.
pub open spec fn chrono_has_ymd(y: int, m: int, d: int) -> bool {
    &&& -262143 <= y <= 262142
    &&& 1 <= m <= 12
    &&& 1 <= d <= days_in_month(y, m)
}

} // verus!
