use vstd::prelude::*;

use crate::types::{copy_type, Type};

verus! {

/// The base in which an integer literal was written.
#[derive(Clone, Copy, Debug, PartialEq, Eq, Structural)]
pub enum Radix {
    Decimal,
    Octal,
    Hexadecimal,
}

/// A literal value as written in an interface declaration.
#[derive(Debug)]
pub enum Literal {
    Boolean(bool),
    String(String),
    UInt(u64, Radix, Type),
    Int(i64, Radix, Type),
    Float(String, Type),
    Enum(String, Type),
    EmptySequence,
    EmptyMap,
    NoneValue,
}

/// A default value: the type's own zero, or a literal.
#[derive(Debug)]
pub enum DefaultValue {
    Default,
    Literal(Literal),
}

/// Why a literal could not be rendered.
#[derive(Debug)]
pub enum RenderError {
    /// The literal has a shape that has no Swift constant form here; holds
    /// the literal and the code type it was rendered for, if one was named.
    UnsupportedLiteral { literal: Literal, code_type: Option<PrimitiveCodeType> },
    /// A number was written for a type that is not numeric.
    UnexpectedLiteralForType { numeral: String, type_: Type },
}

/// The Swift code type of one primitive kind.
#[derive(Clone, Copy, Debug, PartialEq, Eq, Structural)]
pub enum PrimitiveCodeType {
    Boolean,
    String,
    Bytes,
    Int8,
    Int16,
    Int32,
    Int64,
    UInt8,
    UInt16,
    UInt32,
    UInt64,
    Float32,
    Float64,
}

pub open spec fn digit_chars() -> Seq<char> {
    seq!['0', '1', '2', '3', '4', '5', '6', '7', '8', '9', 'a', 'b', 'c', 'd', 'e', 'f']
}

/// The lowercase character of a digit below sixteen.
pub open spec fn digit_char(d: nat) -> char {
    digit_chars()[d as int]
}

/// The value of a lowercase digit character.
pub open spec fn digit_value(c: char) -> nat {
    if c == '0' { 0 }
    else if c == '1' { 1 }
    else if c == '2' { 2 }
    else if c == '3' { 3 }
    else if c == '4' { 4 }
    else if c == '5' { 5 }
    else if c == '6' { 6 }
    else if c == '7' { 7 }
    else if c == '8' { 8 }
    else if c == '9' { 9 }
    else if c == 'a' { 10 }
    else if c == 'b' { 11 }
    else if c == 'c' { 12 }
    else if c == 'd' { 13 }
    else if c == 'e' { 14 }
    else { 15 }
}

/// The digits of `n` in `base`, most significant first, without leading zeros.
pub open spec fn digits(n: nat, base: nat) -> Seq<char>
    recommends
        2 <= base <= 16,
    decreases n via digits_decreases
{
    if base < 2 || n < base {
        seq![digit_char(n)]
    } else {
        digits(n / base, base) + seq![digit_char(n % base)]
    }
}

#[via_fn]
proof fn digits_decreases(n: nat, base: nat) {
    if !(base < 2 || n < base) {
        assert(n / base < n) by (nonlinear_arith)
            requires
                base >= 2,
                n >= base,
        ;
    }
}

/// The number that a sequence of digits in `base` denotes.
pub open spec fn digits_value(s: Seq<char>, base: nat) -> nat
    decreases s.len(),
{
    if s.len() == 0 {
        0
    } else {
        digits_value(s.drop_last(), base) * base + digit_value(s.last())
    }
}

pub open spec fn radix_base(r: Radix) -> nat {
    match r {
        Radix::Octal => 8,
        Radix::Decimal => 10,
        Radix::Hexadecimal => 16,
    }
}

pub open spec fn radix_prefix(r: Radix) -> Seq<char> {
    match r {
        Radix::Octal => seq!['0', 'o'],
        Radix::Decimal => seq![],
        Radix::Hexadecimal => seq!['0', 'x'],
    }
}

/// A non-negative number written in a radix, with the radix's prefix.
pub open spec fn numeral(r: Radix, n: nat) -> Seq<char> {
    radix_prefix(r) + digits(n, radix_base(r))
}

/// A signed number written in a radix: in decimal with its sign; in octal
/// and hexadecimal as the 64-bit two's complement pattern.
pub open spec fn signed_numeral(r: Radix, i: int) -> Seq<char> {
    if r == Radix::Decimal {
        if i < 0 {
            seq!['-'] + digits((-i) as nat, 10)
        } else {
            digits(i as nat, 10)
        }
    } else if i < 0 {
        numeral(r, (i + u64::MAX + 1) as nat)
    } else {
        numeral(r, i as nat)
    }
}

/// The Swift name of each primitive code type.
pub open spec fn label_of(ct: PrimitiveCodeType) -> Seq<char> {
    match ct {
        PrimitiveCodeType::Boolean => "Bool"@,
        PrimitiveCodeType::String => "String"@,
        PrimitiveCodeType::Bytes => "Data"@,
        PrimitiveCodeType::Int8 => "Int8"@,
        PrimitiveCodeType::Int16 => "Int16"@,
        PrimitiveCodeType::Int32 => "Int32"@,
        PrimitiveCodeType::Int64 => "Int64"@,
        PrimitiveCodeType::UInt8 => "UInt8"@,
        PrimitiveCodeType::UInt16 => "UInt16"@,
        PrimitiveCodeType::UInt32 => "UInt32"@,
        PrimitiveCodeType::UInt64 => "UInt64"@,
        PrimitiveCodeType::Float32 => "Float"@,
        PrimitiveCodeType::Float64 => "Double"@,
    }
}

/// The Swift spelling of each primitive code type's zero or empty value.
pub open spec fn zero_of(ct: PrimitiveCodeType) -> Seq<char> {
    match ct {
        PrimitiveCodeType::Boolean => "false"@,
        PrimitiveCodeType::String => "\"\""@,
        PrimitiveCodeType::Bytes => "Data([])"@,
        PrimitiveCodeType::Int8 => "Int8(0)"@,
        PrimitiveCodeType::Int16 => "Int16(0)"@,
        PrimitiveCodeType::Int32 => "0"@,
        PrimitiveCodeType::Int64 => "Int64(0)"@,
        PrimitiveCodeType::UInt8 => "UInt8(0)"@,
        PrimitiveCodeType::UInt16 => "UInt16(0)"@,
        PrimitiveCodeType::UInt32 => "UInt32(0)"@,
        PrimitiveCodeType::UInt64 => "UInt64(0)"@,
        PrimitiveCodeType::Float32 => "Float(0)"@,
        PrimitiveCodeType::Float64 => "Double(0)"@,
    }
}

/// The primitive code type of a type, if it is primitive.
pub open spec fn code_type_of(t: Type) -> Option<PrimitiveCodeType> {
    match t {
        Type::Boolean => Some(PrimitiveCodeType::Boolean),
        Type::String => Some(PrimitiveCodeType::String),
        Type::Bytes => Some(PrimitiveCodeType::Bytes),
        Type::Int8 => Some(PrimitiveCodeType::Int8),
        Type::Int16 => Some(PrimitiveCodeType::Int16),
        Type::Int32 => Some(PrimitiveCodeType::Int32),
        Type::Int64 => Some(PrimitiveCodeType::Int64),
        Type::UInt8 => Some(PrimitiveCodeType::UInt8),
        Type::UInt16 => Some(PrimitiveCodeType::UInt16),
        Type::UInt32 => Some(PrimitiveCodeType::UInt32),
        Type::UInt64 => Some(PrimitiveCodeType::UInt64),
        Type::Float32 => Some(PrimitiveCodeType::Float32),
        Type::Float64 => Some(PrimitiveCodeType::Float64),
        _ => None,
    }
}

/// The numeric code types other than `Int32`: their literals are boxed.
pub open spec fn is_boxed_numeric(ct: PrimitiveCodeType) -> bool {
    ct != PrimitiveCodeType::Boolean && ct != PrimitiveCodeType::String && ct
        != PrimitiveCodeType::Bytes && ct != PrimitiveCodeType::Int32
}

/// A type with one level of `Optional` taken off.
pub open spec fn unwrap_optional(t: Type) -> Type {
    match t {
        Type::Optional { inner_type } => *inner_type,
        _ => t,
    }
}

/// A numeral as a Swift constant of the declared type: bare for `Int32`,
/// `Label(numeral)` for the other numeric types, nothing for the rest.
pub open spec fn typed_number_text(t: Type, num: Seq<char>) -> Option<Seq<char>> {
    let u = unwrap_optional(t);
    if u is Int32 {
        Some(num)
    } else if code_type_of(u) is Some && is_boxed_numeric(code_type_of(u)->0) {
        Some(label_of(code_type_of(u)->0) + "("@ + num + ")"@)
    } else {
        None
    }
}

/// The literals that have a Swift constant form.
pub open spec fn is_supported(l: Literal) -> bool {
    l is Boolean || l is String || l is UInt || l is Int || l is Float
}

/// The numeral of a numeric literal.
pub open spec fn numeral_of(l: Literal) -> Seq<char> {
    match l {
        Literal::UInt(n, r, _) => numeral(r, n as nat),
        Literal::Int(i, r, _) => signed_numeral(r, i as int),
        Literal::Float(s, _) => s@,
        _ => seq![],
    }
}

/// The Swift text of a supported literal; `None` where a number meets a
/// non-numeric type or the literal is unsupported.
pub open spec fn literal_text(l: Literal) -> Option<Seq<char>> {
    match l {
        Literal::Boolean(b) => Some(if b { "true"@ } else { "false"@ }),
        Literal::String(s) => Some("\""@ + s@ + "\""@),
        Literal::UInt(_, _, t) => typed_number_text(t, numeral_of(l)),
        Literal::Int(_, _, t) => typed_number_text(t, numeral_of(l)),
        Literal::Float(_, t) => typed_number_text(t, numeral_of(l)),
        _ => None,
    }
}

proof fn lemma_digit_value_of_char(d: nat)
    requires
        d < 16,
    ensures
        digit_value(digit_char(d)) == d,
{
    assert(digit_chars()[0] == '0' && digit_chars()[1] == '1' && digit_chars()[2] == '2'
        && digit_chars()[3] == '3' && digit_chars()[4] == '4' && digit_chars()[5] == '5'
        && digit_chars()[6] == '6' && digit_chars()[7] == '7' && digit_chars()[8] == '8'
        && digit_chars()[9] == '9' && digit_chars()[10] == 'a' && digit_chars()[11] == 'b'
        && digit_chars()[12] == 'c' && digit_chars()[13] == 'd' && digit_chars()[14] == 'e'
        && digit_chars()[15] == 'f');
}

/// Reading back the digits of `n` in any base from two to sixteen gives `n`.
pub proof fn lemma_digits_round_trip(n: nat, base: nat)
    requires
        2 <= base <= 16,
    ensures
        digits_value(digits(n, base), base) == n,
    decreases n,
{
    if n < base {
        lemma_digit_value_of_char(n);
        let s = seq![digit_char(n)];
        assert(s.drop_last() =~= Seq::<char>::empty());
        assert(digits_value(s, base) == digits_value(s.drop_last(), base) * base + digit_value(
            s.last(),
        ));
        assert(0 * base == 0);
    } else {
        assert(n / base < n && n % base < base && (n / base) * base + n % base == n)
            by (nonlinear_arith)
            requires
                base >= 2,
                n >= base,
        ;
        lemma_digits_round_trip(n / base, base);
        lemma_digit_value_of_char(n % base);
        let d = digits(n / base, base);
        let s = d + seq![digit_char(n % base)];
        assert(s.drop_last() =~= d);
        assert(s.last() == digit_char(n % base));
        assert(digits(n, base) == s);
        assert(digits_value(s, base) == digits_value(d, base) * base + digit_value(s.last()));
    }
}

/// A number written in any radix reads back, after its prefix, as the same
/// number; so its octal, decimal and hexadecimal forms denote one value.
pub proof fn lemma_numeral_round_trip(r: Radix, n: nat)
    ensures
        numeral(r, n).subrange(0, radix_prefix(r).len() as int) == radix_prefix(r),
        digits_value(numeral(r, n).skip(radix_prefix(r).len() as int), radix_base(r)) == n,
{
    lemma_digits_round_trip(n, radix_base(r));
    assert(numeral(r, n).subrange(0, radix_prefix(r).len() as int) =~= radix_prefix(r));
    assert(numeral(r, n).skip(radix_prefix(r).len() as int) =~= digits(n, radix_base(r)));
}

/// A non-negative `Int32` literal renders as its bare numeral, which reads
/// back as the literal's value by `lemma_numeral_round_trip`.
pub proof fn lemma_int32_renders_numeral(i: i64, r: Radix)
    requires
        i >= 0,
    ensures
        literal_text(Literal::Int(i, r, Type::Int32)) == Some(numeral(r, i as nat)),
{
    assert(radix_prefix(Radix::Decimal) + digits(i as nat, 10) =~= digits(i as nat, 10));
}

/// A number declared against `Optional<T>` renders as it does against `T`.
pub proof fn lemma_optional_unwrap(t: Type, num: Seq<char>)
    requires
        !(t is Optional),
    ensures
        typed_number_text(Type::Optional { inner_type: Box::new(t) }, num)
            == typed_number_text(t, num),
{
}

/// The text of one digit.
fn digit_str(d: u64) -> (r: &'static str)
    requires
        d < 16,
    ensures
        r@ == seq![digit_char(d as nat)],
{
    proof {
        reveal_strlit("0");
        reveal_strlit("1");
        reveal_strlit("2");
        reveal_strlit("3");
        reveal_strlit("4");
        reveal_strlit("5");
        reveal_strlit("6");
        reveal_strlit("7");
        reveal_strlit("8");
        reveal_strlit("9");
        reveal_strlit("a");
        reveal_strlit("b");
        reveal_strlit("c");
        reveal_strlit("d");
        reveal_strlit("e");
        reveal_strlit("f");
    }
    match d {
        0 => "0",
        1 => "1",
        2 => "2",
        3 => "3",
        4 => "4",
        5 => "5",
        6 => "6",
        7 => "7",
        8 => "8",
        9 => "9",
        10 => "a",
        11 => "b",
        12 => "c",
        13 => "d",
        14 => "e",
        _ => "f",
    }
}

/// Appends the digits of `n` in `base` to `out`.
fn push_digits(out: &mut String, n: u64, base: u64)
    requires
        2 <= base <= 16,
    ensures
        final(out)@ == old(out)@ + digits(n as nat, base as nat),
    decreases n,
{
    if n < base {
        out.append(digit_str(n));
    } else {
        let ghost before = out@;
        assert(n / base < n) by (nonlinear_arith)
            requires
                base >= 2,
                n >= base,
        ;
        push_digits(out, n / base, base);
        out.append(digit_str(n % base));
        assert(out@ =~= before + digits(n as nat, base as nat));
    }
}

/// Appends `n` written in radix `r` to `out`.
fn push_numeral(out: &mut String, r: Radix, n: u64)
    ensures
        final(out)@ == old(out)@ + numeral(r, n as nat),
{
    let ghost before = out@;
    match r {
        Radix::Octal => {
            out.append("0o");
            proof { reveal_strlit("0o"); }
            push_digits(out, n, 8);
        },
        Radix::Decimal => {
            push_digits(out, n, 10);
        },
        Radix::Hexadecimal => {
            out.append("0x");
            proof { reveal_strlit("0x"); }
            push_digits(out, n, 16);
        },
    }
    assert(out@ =~= before + numeral(r, n as nat));
}

/// Writes a signed number in radix `r`.
fn signed_numeral_string(r: Radix, i: i64) -> (s: String)
    ensures
        s@ == signed_numeral(r, i as int),
{
    let mut out = String::new();
    match r {
        Radix::Decimal => {
            if i < 0 {
                out.append("-");
                proof { reveal_strlit("-"); }
                let m: u64 = (-(i as i128)) as u64;
                push_digits(&mut out, m, 10);
            } else {
                push_digits(&mut out, i as u64, 10);
            }
            assert(out@ =~= signed_numeral(r, i as int));
        },
        _ => {
            let m: u64 = if i < 0 {
                (u64::MAX as i128 + 1 + i as i128) as u64
            } else {
                i as u64
            };
            push_numeral(&mut out, r, m);
            assert(out@ =~= signed_numeral(r, i as int));
        },
    }
    out
}

/// The primitive code type of a type, if it is primitive.
pub fn find_code_type(t: &Type) -> (r: Option<PrimitiveCodeType>)
    ensures
        r == code_type_of(*t),
{
    match t {
        Type::Boolean => Some(PrimitiveCodeType::Boolean),
        Type::String => Some(PrimitiveCodeType::String),
        Type::Bytes => Some(PrimitiveCodeType::Bytes),
        Type::Int8 => Some(PrimitiveCodeType::Int8),
        Type::Int16 => Some(PrimitiveCodeType::Int16),
        Type::Int32 => Some(PrimitiveCodeType::Int32),
        Type::Int64 => Some(PrimitiveCodeType::Int64),
        Type::UInt8 => Some(PrimitiveCodeType::UInt8),
        Type::UInt16 => Some(PrimitiveCodeType::UInt16),
        Type::UInt32 => Some(PrimitiveCodeType::UInt32),
        Type::UInt64 => Some(PrimitiveCodeType::UInt64),
        Type::Float32 => Some(PrimitiveCodeType::Float32),
        Type::Float64 => Some(PrimitiveCodeType::Float64),
        _ => None,
    }
}

impl PrimitiveCodeType {
    /// The Swift name of the type.
    pub fn type_label(&self) -> (r: String)
        ensures
            r@ == label_of(*self),
    {
        match self {
            PrimitiveCodeType::Boolean => String::from_str("Bool"),
            PrimitiveCodeType::String => String::from_str("String"),
            PrimitiveCodeType::Bytes => String::from_str("Data"),
            PrimitiveCodeType::Int8 => String::from_str("Int8"),
            PrimitiveCodeType::Int16 => String::from_str("Int16"),
            PrimitiveCodeType::Int32 => String::from_str("Int32"),
            PrimitiveCodeType::Int64 => String::from_str("Int64"),
            PrimitiveCodeType::UInt8 => String::from_str("UInt8"),
            PrimitiveCodeType::UInt16 => String::from_str("UInt16"),
            PrimitiveCodeType::UInt32 => String::from_str("UInt32"),
            PrimitiveCodeType::UInt64 => String::from_str("UInt64"),
            PrimitiveCodeType::Float32 => String::from_str("Float"),
            PrimitiveCodeType::Float64 => String::from_str("Double"),
        }
    }

    /// The Swift spelling of the type's zero or empty value.
    pub fn zero(&self) -> (r: String)
        ensures
            r@ == zero_of(*self),
    {
        match self {
            PrimitiveCodeType::Boolean => String::from_str("false"),
            PrimitiveCodeType::String => String::from_str("\"\""),
            PrimitiveCodeType::Bytes => String::from_str("Data([])"),
            PrimitiveCodeType::Int8 => String::from_str("Int8(0)"),
            PrimitiveCodeType::Int16 => String::from_str("Int16(0)"),
            PrimitiveCodeType::Int32 => String::from_str("0"),
            PrimitiveCodeType::Int64 => String::from_str("Int64(0)"),
            PrimitiveCodeType::UInt8 => String::from_str("UInt8(0)"),
            PrimitiveCodeType::UInt16 => String::from_str("UInt16(0)"),
            PrimitiveCodeType::UInt32 => String::from_str("UInt32(0)"),
            PrimitiveCodeType::UInt64 => String::from_str("UInt64(0)"),
            PrimitiveCodeType::Float32 => String::from_str("Float(0)"),
            PrimitiveCodeType::Float64 => String::from_str("Double(0)"),
        }
    }

    /// Renders a default value: the type's zero for `Default`, else the literal.
    pub fn default(&self, default: &DefaultValue) -> (r: Result<String, RenderError>)
        ensures
            default is Default ==> r is Ok && r->Ok_0@ == zero_of(*self),
            default matches DefaultValue::Literal(l) ==> rendered(*l, Some(*self), r),
    {
        match default {
            DefaultValue::Default => Ok(self.zero()),
            DefaultValue::Literal(l) => match render_literal(l) {
                Err(RenderError::UnsupportedLiteral { literal, .. }) => Err(
                    RenderError::UnsupportedLiteral { literal, code_type: Some(*self) },
                ),
                other => other,
            },
        }
    }
}

/// What `render_literal` returns for `l`: the text where there is one, an
/// unsupported-literal error for the unsupported shapes, and an
/// unexpected-type error where a number meets a non-numeric type.
pub open spec fn rendered(
    l: Literal,
    ct: Option<PrimitiveCodeType>,
    r: Result<String, RenderError>,
) -> bool {
    &&& !is_supported(l) ==> r == Err::<String, RenderError>(
        RenderError::UnsupportedLiteral { literal: l, code_type: ct },
    )
    &&& is_supported(l) && literal_text(l) is Some ==> r is Ok && r->Ok_0@ == literal_text(l)->0
    &&& is_supported(l) && literal_text(l) is None ==> (r matches Err(
        RenderError::UnexpectedLiteralForType { numeral, type_ },
    ) && numeral@ == numeral_of(l) && type_ == literal_type(l))
}

/// The declared type of a numeric literal.
pub open spec fn literal_type(l: Literal) -> Type {
    match l {
        Literal::UInt(_, _, t) => t,
        Literal::Int(_, _, t) => t,
        Literal::Float(_, t) => t,
        Literal::Enum(_, t) => t,
        _ => Type::Boolean,
    }
}

/// Writes a numeral as a constant of the declared type.
fn typed_number(t: &Type, num: String) -> (r: Result<String, RenderError>)
    ensures
        typed_number_text(*t, num@) is Some ==> r is Ok && r->Ok_0@ == typed_number_text(
            *t,
            num@,
        )->0,
        typed_number_text(*t, num@) is None ==> (r matches Err(
            RenderError::UnexpectedLiteralForType { numeral, type_ },
        ) && numeral@ == num@ && type_ == *t),
{
    let unwrapped = match t {
        Type::Optional { inner_type } => &**inner_type,
        _ => t,
    };
    if let Type::Int32 = unwrapped {
        return Ok(num);
    }
    match find_code_type(unwrapped) {
        Some(ct) => {
            if ct != PrimitiveCodeType::Boolean && ct != PrimitiveCodeType::String && ct
                != PrimitiveCodeType::Bytes {
                let mut out = ct.type_label();
                out.append("(");
                out.append(num.as_str());
                out.append(")");
                return Ok(out);
            }
        },
        None => {},
    }
    Err(RenderError::UnexpectedLiteralForType { numeral: num, type_: copy_type(t) })
}

/// Copies a literal.
fn copy_literal(l: &Literal) -> (r: Literal)
    ensures
        r == *l,
{
    match l {
        Literal::Boolean(b) => Literal::Boolean(*b),
        Literal::String(s) => Literal::String(s.clone()),
        Literal::UInt(n, r, t) => Literal::UInt(*n, *r, copy_type(t)),
        Literal::Int(i, r, t) => Literal::Int(*i, *r, copy_type(t)),
        Literal::Float(s, t) => Literal::Float(s.clone(), copy_type(t)),
        Literal::Enum(s, t) => Literal::Enum(s.clone(), copy_type(t)),
        Literal::EmptySequence => Literal::EmptySequence,
        Literal::EmptyMap => Literal::EmptyMap,
        Literal::NoneValue => Literal::NoneValue,
    }
}

/// Renders a literal as a Swift constant expression.
pub fn render_literal(literal: &Literal) -> (r: Result<String, RenderError>)
    ensures
        rendered(*literal, None, r),
{
    match literal {
        Literal::Boolean(v) => {
            if *v {
                Ok(String::from_str("true"))
            } else {
                Ok(String::from_str("false"))
            }
        },
        Literal::String(s) => {
            let mut out = String::from_str("\"");
            out.append(s.as_str());
            out.append("\"");
            Ok(out)
        },
        Literal::Int(i, radix, t) => typed_number(t, signed_numeral_string(*radix, *i)),
        Literal::UInt(n, radix, t) => {
            let mut out = String::new();
            push_numeral(&mut out, *radix, *n);
            proof {
                assert(out@ =~= numeral(*radix, *n as nat));
            }
            typed_number(t, out)
        },
        Literal::Float(s, t) => typed_number(t, s.clone()),
        _ => Err(
            RenderError::UnsupportedLiteral { literal: copy_literal(literal), code_type: None },
        ),
    }
}

} // verus!
