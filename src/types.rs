//! Boxed primitive values of the runtime: each holds one value of its kind,
//! knows how many slots it occupies and how it prints.
use vstd::prelude::*;
use vstd::string::StringExecFns;

verus! {

/// What [`decimal`] returns: the decimal text of an integer.
pub uninterp spec fn decimal_of(value: int) -> Seq<char>;

/// Relies on std's `Display` for `i64`, through `ToString::to_string`: the
/// text depends on the value alone.
#[verifier::external_body]
fn decimal(value: i64) -> (r: String)
    ensures
        r@ == decimal_of(value as int),
{
    value.to_string()
}

/// How an integral value prints: its kind, then its decimal text between
/// parentheses.
pub open spec fn rendered(kind: Seq<char>, value: int) -> Seq<char> {
    kind + "("@ + decimal_of(value) + ")"@
}

/// How a truth value prints: its kind, then `true` or `false` between
/// parentheses.
pub open spec fn flag_rendered(kind: Seq<char>, value: bool) -> Seq<char> {
    kind + "("@ + (if value {
        "true"@
    } else {
        "false"@
    }) + ")"@
}

fn render(kind: &str, value: i64) -> (r: String)
    ensures
        r@ == rendered(kind@, value as int),
{
    let mut out = String::from_str(kind);
    out.append("(");
    let digits = decimal(value);
    out.append(digits.as_str());
    out.append(")");
    out
}

fn render_flag(kind: &str, value: bool) -> (r: String)
    ensures
        r@ == flag_rendered(kind@, value),
{
    let mut out = String::from_str(kind);
    out.append("(");
    if value {
        out.append("true");
    } else {
        out.append("false");
    }
    out.append(")");
    out
}

/// A boxed primitive value.
pub trait Type: Sized {
    type T;

    /// The value held.
    spec fn value(&self) -> Self::T;

    /// The value a fresh box holds.
    spec fn initial() -> Self::T;

    /// How many slots a value of this kind occupies.
    spec fn slots() -> u16;

    /// How the value prints.
    spec fn text(&self) -> Seq<char>;

    fn new() -> (r: Self)
        ensures
            r.value() == Self::initial(),
    ;

    fn from_value(value: Self::T) -> (r: Self)
        ensures
            r.value() == value,
    ;

    fn get(&self) -> (r: &Self::T)
        ensures
            *r == self.value(),
    ;

    fn set(&mut self, value: Self::T)
        ensures
            final(self).value() == value,
    ;

    fn width(&self) -> (r: u16)
        ensures
            r == Self::slots(),
    ;

    fn to_string(&self) -> (r: String)
        ensures
            r@ == self.text(),
    ;
}

pub struct Byte {
    value: i8,
}

impl Type for Byte {
    type T = i8;

    closed spec fn value(&self) -> i8 {
        self.value
    }

    open spec fn initial() -> i8 {
        0
    }

    open spec fn slots() -> u16 {
        1
    }

    open spec fn text(&self) -> Seq<char> {
        rendered("byte"@, self.value() as int)
    }

    fn new() -> (r: Self) {
        Byte { value: 0 }
    }

    fn from_value(value: i8) -> (r: Self) {
        Byte { value }
    }

    fn get(&self) -> (r: &i8) {
        &self.value
    }

    fn set(&mut self, value: i8) {
        self.value = value;
    }

    fn width(&self) -> (r: u16) {
        1
    }

    fn to_string(&self) -> (r: String) {
        render("byte", self.value as i64)
    }
}

pub struct Short {
    value: i16,
}

impl Type for Short {
    type T = i16;

    closed spec fn value(&self) -> i16 {
        self.value
    }

    open spec fn initial() -> i16 {
        0
    }

    open spec fn slots() -> u16 {
        1
    }

    open spec fn text(&self) -> Seq<char> {
        rendered("short"@, self.value() as int)
    }

    fn new() -> (r: Self) {
        Short { value: 0 }
    }

    fn from_value(value: i16) -> (r: Self) {
        Short { value }
    }

    fn get(&self) -> (r: &i16) {
        &self.value
    }

    fn set(&mut self, value: i16) {
        self.value = value;
    }

    fn width(&self) -> (r: u16) {
        1
    }

    fn to_string(&self) -> (r: String) {
        render("short", self.value as i64)
    }
}

pub struct Int {
    value: i32,
}

impl Type for Int {
    type T = i32;

    closed spec fn value(&self) -> i32 {
        self.value
    }

    open spec fn initial() -> i32 {
        0
    }

    open spec fn slots() -> u16 {
        1
    }

    open spec fn text(&self) -> Seq<char> {
        rendered("int"@, self.value() as int)
    }

    fn new() -> (r: Self) {
        Int { value: 0 }
    }

    fn from_value(value: i32) -> (r: Self) {
        Int { value }
    }

    fn get(&self) -> (r: &i32) {
        &self.value
    }

    fn set(&mut self, value: i32) {
        self.value = value;
    }

    fn width(&self) -> (r: u16) {
        1
    }

    fn to_string(&self) -> (r: String) {
        render("int", self.value as i64)
    }
}

pub struct Long {
    value: i64,
}

impl Type for Long {
    type T = i64;

    closed spec fn value(&self) -> i64 {
        self.value
    }

    open spec fn initial() -> i64 {
        0
    }

    open spec fn slots() -> u16 {
        2
    }

    open spec fn text(&self) -> Seq<char> {
        rendered("long"@, self.value() as int)
    }

    fn new() -> (r: Self) {
        Long { value: 0 }
    }

    fn from_value(value: i64) -> (r: Self) {
        Long { value }
    }

    fn get(&self) -> (r: &i64) {
        &self.value
    }

    fn set(&mut self, value: i64) {
        self.value = value;
    }

    fn width(&self) -> (r: u16) {
        2
    }

    fn to_string(&self) -> (r: String) {
        render("long", self.value as i64)
    }
}

pub struct Char {
    value: u16,
}

impl Type for Char {
    type T = u16;

    closed spec fn value(&self) -> u16 {
        self.value
    }

    open spec fn initial() -> u16 {
        0
    }

    open spec fn slots() -> u16 {
        1
    }

    open spec fn text(&self) -> Seq<char> {
        rendered("char"@, self.value() as int)
    }

    fn new() -> (r: Self) {
        Char { value: 0 }
    }

    fn from_value(value: u16) -> (r: Self) {
        Char { value }
    }

    fn get(&self) -> (r: &u16) {
        &self.value
    }

    fn set(&mut self, value: u16) {
        self.value = value;
    }

    fn width(&self) -> (r: u16) {
        1
    }

    fn to_string(&self) -> (r: String) {
        render("char", self.value as i64)
    }
}

pub struct Boolean {
    value: bool,
}

impl Type for Boolean {
    type T = bool;

    closed spec fn value(&self) -> bool {
        self.value
    }

    open spec fn initial() -> bool {
        false
    }

    open spec fn slots() -> u16 {
        1
    }

    open spec fn text(&self) -> Seq<char> {
        flag_rendered("boolean"@, self.value())
    }

    fn new() -> (r: Self) {
        Boolean { value: false }
    }

    fn from_value(value: bool) -> (r: Self) {
        Boolean { value }
    }

    fn get(&self) -> (r: &bool) {
        &self.value
    }

    fn set(&mut self, value: bool) {
        self.value = value;
    }

    fn width(&self) -> (r: u16) {
        1
    }

    fn to_string(&self) -> (r: String) {
        render_flag("boolean", self.value)
    }
}

/// The integral kinds.
pub enum IntegralTypes {
    Byte(Byte),
    Short(Short),
    Int(Int),
    Long(Long),
    Char(Char),
}

} // verus!
