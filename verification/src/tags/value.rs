//! The types that a tag can hold.
use vstd::arithmetic::power2::{
    lemma2_to64, lemma2_to64_rest, lemma_pow2_pos, lemma_pow2_strictly_increases,
    lemma_pow2_unfold, pow2,
};
use vstd::prelude::*;

use crate::json::{Json, Number, Value};
use crate::tags::triggers::{bits_of, number_bits};

verus! {

/// The type of a tag.
#[derive(Debug, Clone, Copy, PartialEq, Eq, Structural)]
pub enum TagType {
    Number,
    Integer,
    Boolean,
    Text,
    Object,
}

impl TagType {
    /// The name of the type.
    pub open spec fn name(self) -> Seq<char> {
        match self {
            TagType::Number => "number"@,
            TagType::Integer => "integer"@,
            TagType::Boolean => "boolean"@,
            TagType::Text => "string"@,
            TagType::Object => "object"@,
        }
    }

    /// The name of the type.
    pub fn as_str(self) -> (r: &'static str)
        ensures
            r@ == self.name(),
    {
        match self {
            TagType::Number => "number",
            TagType::Integer => "integer",
            TagType::Boolean => "boolean",
            TagType::Text => "string",
            TagType::Object => "object",
        }
    }
}

// ---- doubles that are whole ------------------------------------------------------------

/// The significand of a double, as an integer.
pub open spec fn significand(bits: u64) -> int {
    let low = bits as int % 0x10_0000_0000_0000;
    if exponent_field(bits) == 0 {
        low
    } else {
        low + 0x10_0000_0000_0000
    }
}

/// The field of a double's bits that holds the exponent.
pub open spec fn exponent_field(bits: u64) -> int {
    bits as int / 0x10_0000_0000_0000 % 2048
}

/// The power of two that the significand is taken by.
pub open spec fn exponent(bits: u64) -> int {
    if exponent_field(bits) == 0 {
        -1074
    } else {
        exponent_field(bits) - 1075
    }
}

/// The size of a double that is whole; nothing for one that is not, or not finite.
pub open spec fn whole_size(bits: u64) -> Option<int> {
    let m = significand(bits);
    let e = exponent(bits);
    if exponent_field(bits) == 2047 {
        None
    } else if e >= 0 {
        Some(m * pow2(e as nat))
    } else if m % pow2((-e) as nat) as int == 0 {
        Some(m / pow2((-e) as nat) as int)
    } else {
        None
    }
}

/// The integer that a double is; nothing if it is none.
pub open spec fn whole(bits: u64) -> Option<int> {
    match whole_size(bits) {
        Some(n) => Some(
            if bits >= 0x8000_0000_0000_0000 {
                -n
            } else {
                n
            },
        ),
        None => None,
    }
}

/// An integer, or the nearest that 64 bits hold.
pub open spec fn clamped(n: int) -> int {
    if n < i64::MIN {
        i64::MIN as int
    } else if n > i64::MAX {
        i64::MAX as int
    } else {
        n
    }
}

fn power(e: u32) -> (p: u64)
    requires
        e < 64,
    ensures
        p == pow2(e as nat),
{
    let mut p: u64 = 1;
    let mut i: u32 = 0;
    proof {
        lemma2_to64();
        lemma2_to64_rest();
    }
    while i < e
        invariant
            i <= e < 64,
            p == pow2(i as nat),
        decreases e - i,
    {
        proof {
            lemma_pow2_unfold((i + 1) as nat);
            lemma2_to64();
            lemma2_to64_rest();
            if i < 63 {
                lemma_pow2_strictly_increases(i as nat, 63);
            }
        }
        p = 2 * p;
        i += 1;
    }
    p
}

/// The integer that a double is, or the nearest that 64 bits hold.
pub fn integer_of_bits(bits: u64) -> (r: Option<i64>)
    ensures
        match (whole(bits), r) {
            (Some(n), Some(i)) => i == clamped(n),
            (None, None) => true,
            _ => false,
        },
{
    let field: u64 = bits / 0x10_0000_0000_0000 % 2048;
    let low: u64 = bits % 0x10_0000_0000_0000;
    let negative: bool = bits >= 0x8000_0000_0000_0000;
    if field == 2047 {
        return None;
    }
    let m: u64 = if field == 0 {
        low
    } else {
        low + 0x10_0000_0000_0000
    };
    proof {
        lemma2_to64();
        lemma2_to64_rest();
    }
    if field >= 1075 {
        let e: u64 = field - 1075;
        let ghost size = m * pow2(e as nat);
        if e > 10 {
            proof {
                if e > 11 {
                    lemma_pow2_strictly_increases(11, e as nat);
                }
                assert(size >= 0x8000_0000_0000_0000) by (nonlinear_arith)
                    requires
                        size == m * pow2(e as nat),
                        m >= 0x10_0000_0000_0000,
                        pow2(e as nat) >= 2048,
                ;
            }
            return Some(
                if negative {
                    i64::MIN
                } else {
                    i64::MAX
                },
            );
        }
        let p: u64 = power(e as u32);
        proof {
            if e < 10 {
                lemma_pow2_strictly_increases(e as nat, 10);
            }
            assert(m * p <= 0x7fff_ffff_ffff_ffff) by (nonlinear_arith)
                requires
                    m < 0x20_0000_0000_0000,
                    p <= 1024,
            ;
        }
        let n: u64 = m * p;
        return Some(
            if negative {
                -(n as i64)
            } else {
                n as i64
            },
        );
    }
    let down: u64 = if field == 0 {
        1074
    } else {
        1075 - field
    };
    if down >= 53 {
        proof {
            lemma_pow2_pos(down as nat);
            if down > 53 {
                lemma_pow2_strictly_increases(53, down as nat);
            }
            vstd::arithmetic::div_mod::lemma_small_mod(m as nat, pow2(down as nat));
            vstd::arithmetic::div_mod::lemma_basic_div(m as int, pow2(down as nat) as int);
        }
        if m == 0 {
            return Some(0);
        }
        return None;
    }
    let p: u64 = power(down as u32);
    if m % p != 0 {
        return None;
    }
    let n: u64 = m / p;
    proof {
        vstd::arithmetic::div_mod::lemma_div_is_ordered_by_denominator(m as int, 1, p as int);
        vstd::arithmetic::div_mod::lemma_div_basics(m as int);
    }
    Some(
        if negative {
            -(n as i64)
        } else {
            n as i64
        },
    )
}

/// The integer that a document is: an integer of 64 bits, or else the nearest to a
/// number that is whole.
pub open spec fn integer_doc(j: Json) -> Option<int> {
    match j {
        Json::Int(i) => if i64::MIN <= i <= i64::MAX {
            Some(i)
        } else {
            whole_number(j)
        },
        _ => whole_number(j),
    }
}

/// The nearest integer of 64 bits to a number that is whole.
pub open spec fn whole_number(j: Json) -> Option<int> {
    match number_bits(j) {
        Some(bits) => match whole(bits) {
            Some(n) => Some(clamped(n)),
            None => None,
        },
        None => None,
    }
}

// ---- values ----------------------------------------------------------------------------

/// A type that a tag can hold.
pub trait TagValue: Sized {
    /// The type of the tag.
    spec fn kind() -> TagType;

    /// The document of a value.
    spec fn doc(&self) -> Json;

    /// Whether a value is what a document stands for.
    spec fn stands_for(&self, j: Json) -> bool;

    /// Whether a document stands for a value.
    spec fn readable(j: Json) -> bool;

    /// The type of the tag.
    fn tag_type() -> (t: TagType)
        ensures
            t == Self::kind(),
    ;

    /// The document of the value.
    fn to_value(&self) -> (v: Value)
        ensures
            v@ == self.doc(),
    ;

    /// The value that a document stands for.
    fn from_value(v: &Value) -> (r: Option<Self>)
        ensures
            match r {
                Some(x) => Self::readable(v@) && x.stands_for(v@),
                None => !Self::readable(v@),
            },
    ;
}

impl TagValue for Number {
    open spec fn kind() -> TagType {
        TagType::Number
    }

    open spec fn doc(&self) -> Json {
        self@
    }

    open spec fn stands_for(&self, j: Json) -> bool {
        self@ == j
    }

    open spec fn readable(j: Json) -> bool {
        j is Int || j is Float
    }

    fn tag_type() -> (t: TagType) {
        TagType::Number
    }

    fn to_value(&self) -> (v: Value) {
        Value::Number(self.clone())
    }

    fn from_value(v: &Value) -> (r: Option<Self>) {
        match v {
            Value::Number(n) => Some(n.clone()),
            _ => None,
        }
    }
}

impl TagValue for i64 {
    open spec fn kind() -> TagType {
        TagType::Integer
    }

    open spec fn doc(&self) -> Json {
        Json::Int(*self as int)
    }

    open spec fn stands_for(&self, j: Json) -> bool {
        integer_doc(j) == Some(*self as int)
    }

    open spec fn readable(j: Json) -> bool {
        integer_doc(j) is Some
    }

    fn tag_type() -> (t: TagType) {
        TagType::Integer
    }

    fn to_value(&self) -> (v: Value) {
        Value::signed(*self)
    }

    fn from_value(v: &Value) -> (r: Option<Self>) {
        if let Some(i) = v.as_i64() {
            return Some(i);
        }
        match bits_of(v) {
            Some(bits) => integer_of_bits(bits),
            None => None,
        }
    }
}

impl TagValue for bool {
    open spec fn kind() -> TagType {
        TagType::Boolean
    }

    open spec fn doc(&self) -> Json {
        Json::Bool(*self)
    }

    open spec fn stands_for(&self, j: Json) -> bool {
        j == Json::Bool(*self)
    }

    open spec fn readable(j: Json) -> bool {
        j is Bool
    }

    fn tag_type() -> (t: TagType) {
        TagType::Boolean
    }

    fn to_value(&self) -> (v: Value) {
        Value::Bool(*self)
    }

    fn from_value(v: &Value) -> (r: Option<Self>) {
        v.as_bool()
    }
}

impl TagValue for String {
    open spec fn kind() -> TagType {
        TagType::Text
    }

    open spec fn doc(&self) -> Json {
        Json::Str(self@)
    }

    open spec fn stands_for(&self, j: Json) -> bool {
        j == Json::Str(self@)
    }

    open spec fn readable(j: Json) -> bool {
        j is Str
    }

    fn tag_type() -> (t: TagType) {
        TagType::Text
    }

    fn to_value(&self) -> (v: Value) {
        Value::text(self.as_str())
    }

    fn from_value(v: &Value) -> (r: Option<Self>) {
        match v.as_str() {
            Some(s) => Some(s.to_owned()),
            None => None,
        }
    }
}

impl TagValue for Value {
    open spec fn kind() -> TagType {
        TagType::Object
    }

    open spec fn doc(&self) -> Json {
        self@
    }

    open spec fn stands_for(&self, j: Json) -> bool {
        self@ == j
    }

    open spec fn readable(j: Json) -> bool {
        true
    }

    fn tag_type() -> (t: TagType) {
        TagType::Object
    }

    fn to_value(&self) -> (v: Value) {
        self.clone()
    }

    fn from_value(v: &Value) -> (r: Option<Self>) {
        Some(v.clone())
    }
}

// ---- laws ------------------------------------------------------------------------------

/// What is written to a tag of any type is read back from it.
pub proof fn law_values_read_back(n: Number, i: i64, b: bool, s: String, v: Value)
    ensures
        Number::readable(n.doc()) && n.stands_for(n.doc()),
        i64::readable(i.doc()) && i.stands_for(i.doc()),
        bool::readable(b.doc()) && b.stands_for(b.doc()),
        String::readable(s.doc()) && s.stands_for(s.doc()),
        Value::readable(v.doc()) && v.stands_for(v.doc()),
        forall|j: i64| #[trigger] j.stands_for(i.doc()) ==> j == i,
        forall|t: String| #[trigger] t.stands_for(s.doc()) ==> t@ == s@,
{
}

/// A double is a whole number exactly if its significand, shifted by its exponent, is: with
/// exponent field `f` and fraction `m` the size of the number is `(2^52 + m) * 2^(f - 1075)`.
pub proof fn law_whole_doubles(bits: u64, f: int, m: int, n: int)
    requires
        bits < 0x8000_0000_0000_0000,
        bits == f * 0x10_0000_0000_0000 + m,
        0 < f < 2047,
        0 <= m < 0x10_0000_0000_0000,
    ensures
        f >= 1075 ==> (whole(bits) == Some(n) <==> n == (0x10_0000_0000_0000 + m) * pow2(
            (f - 1075) as nat,
        )),
        f < 1075 ==> (whole(bits) == Some(n) <==> n * pow2((1075 - f) as nat)
            == 0x10_0000_0000_0000 + m),
{
    assert(bits as int / 0x10_0000_0000_0000 == f && bits as int % 0x10_0000_0000_0000 == m);
    assert(exponent_field(bits) == f);
    assert(significand(bits) == 0x10_0000_0000_0000 + m);
    if f < 1075 {
        let p = pow2((1075 - f) as nat) as int;
        let s = 0x10_0000_0000_0000 + m;
        lemma_pow2_pos((1075 - f) as nat);
        assert(s % p == 0 ==> s / p * p == s) by (nonlinear_arith)
            requires
                p > 0,
                s >= 0,
        ;
        if n * p == s {
            assert(s % p == 0 && s / p == n) by (nonlinear_arith)
                requires
                    p > 0,
                    n * p == s,
            ;
        }
    }
}

/// The sign bit of a double turns the number around, and what is no finite number is no
/// whole one.
pub proof fn law_signs_of_doubles(bits: u64)
    requires
        bits < 0x8000_0000_0000_0000,
    ensures
        whole((bits + 0x8000_0000_0000_0000) as u64) == (match whole(bits) {
            Some(n) => Some(-n),
            None => None,
        }),
        bits >= 0x7ff0_0000_0000_0000 ==> whole(bits) is None,
        whole(0) == Some(0int),
{
    let other = (bits + 0x8000_0000_0000_0000) as u64;
    let a = bits as int;
    assert(other as int == a + 0x800 * 0x10_0000_0000_0000);
    assert((a + 0x800 * 0x10_0000_0000_0000) % 0x10_0000_0000_0000 == a % 0x10_0000_0000_0000);
    assert((a + 0x800 * 0x10_0000_0000_0000) / 0x10_0000_0000_0000 == a / 0x10_0000_0000_0000
        + 0x800);
    assert(significand(0) == 0 && exponent(0) == -1074);
    lemma_pow2_pos(1074);
    assert(0int % pow2(1074) as int == 0 && 0int / pow2(1074) as int == 0) by (nonlinear_arith)
        requires
            pow2(1074) > 0,
    ;
}

/// An integer tag reads an integer as it is and a whole number as that number, at most as
/// far as a signed word goes; it reads nothing else.
pub proof fn law_integers_are_whole_numbers(i: int, t: Seq<char>, j: Json, bits: u64, n: int)
    ensures
        i64::MIN <= i <= i64::MAX ==> integer_doc(Json::Int(i)) == Some(i),
        number_bits(Json::Float(t)) == Some(bits) && whole(bits) == Some(n) ==> integer_doc(
            Json::Float(t),
        ) == Some(
            if n > 0x7fff_ffff_ffff_ffff {
                0x7fff_ffff_ffff_ffff
            } else if n < -0x8000_0000_0000_0000 {
                -0x8000_0000_0000_0000
            } else {
                n
            },
        ),
        number_bits(Json::Float(t)) == Some(bits) && whole(bits) is None ==> integer_doc(
            Json::Float(t),
        ) is None,
        !(j is Int) && !(j is Float) ==> integer_doc(j) is None,
{
}

/// Each type of tag has a name of its own and reads documents of one kind; numbers keep the
/// document that they were read from.
pub proof fn law_tag_types_have_names(j: Json)
    ensures
        Number::kind().name() == "number"@,
        i64::kind().name() == "integer"@,
        bool::kind().name() == "boolean"@,
        String::kind().name() == "string"@,
        Value::kind().name() == "object"@,
        Number::readable(j) <==> j is Int || j is Float,
        bool::readable(j) <==> j is Bool,
        String::readable(j) <==> j is Str,
        Value::readable(j),
        forall|n: Number| #[trigger] n.stands_for(j) <==> n.doc() == j,
{
}

} // verus!
