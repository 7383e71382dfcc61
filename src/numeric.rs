//! 256-bit unsigned integers read from hexadecimal or decimal text and
//! written back as canonical lower-case hexadecimal.
use vstd::prelude::*;
use vstd::string::*;
use vstd::utf8::is_ascii_chars;

verus! {

/// The base of one 64-bit limb.
pub open spec fn limb_base() -> nat {
    0x1_0000_0000_0000_0000
}

/// One past the largest 256-bit value.
pub open spec fn uint_limit() -> nat {
    limb_base() * limb_base() * limb_base() * limb_base()
}

/// A 256-bit unsigned integer, held as four 64-bit limbs, least significant first.
#[derive(Debug, Clone, Copy, PartialEq, Eq, Structural, Default)]
pub struct PermissiveUint {
    pub w0: u64,
    pub w1: u64,
    pub w2: u64,
    pub w3: u64,
}

/// Why a numeric text was refused.
#[derive(Debug, Clone, Copy, PartialEq, Eq, Structural)]
pub enum NumericParseError {
    /// Neither `0x` followed by hex digits, nor decimal digits.
    Malformed,
    /// The digits denote a value of 2^256 or more.
    Overflow,
}

impl PermissiveUint {
    pub open spec fn value(self) -> nat {
        (self.w0 + limb_base() * (self.w1 + limb_base() * (self.w2 + limb_base() * self.w3))) as nat
    }

    /// The value zero.
    pub fn zero() -> (r: PermissiveUint)
        ensures
            r.value() == 0,
    {
        PermissiveUint { w0: 0, w1: 0, w2: 0, w3: 0 }
    }

    /// Builds a value from limbs, least significant first.
    pub fn from_limbs(limbs: [u64; 4]) -> (r: PermissiveUint)
        ensures
            r.w0 == limbs@[0],
            r.w1 == limbs@[1],
            r.w2 == limbs@[2],
            r.w3 == limbs@[3],
    {
        PermissiveUint { w0: limbs[0], w1: limbs[1], w2: limbs[2], w3: limbs[3] }
    }

    /// The limbs, least significant first.
    pub fn to_limbs(&self) -> (r: [u64; 4])
        ensures
            r@ == seq![self.w0, self.w1, self.w2, self.w3],
    {
        [self.w0, self.w1, self.w2, self.w3]
    }

    /// A value below 2^64.
    pub fn from_u64(n: u64) -> (r: PermissiveUint)
        ensures
            r.value() == n,
    {
        PermissiveUint { w0: n, w1: 0, w2: 0, w3: 0 }
    }
}

proof fn lemma_limb_split(a: int, x: int, b: int, y: int)
    requires
        0 <= a < limb_base(),
        0 <= b < limb_base(),
        0 <= x,
        0 <= y,
        a + limb_base() * x == b + limb_base() * y,
    ensures
        a == b,
        x == y,
{
    let n = a + limb_base() * x;
    vstd::arithmetic::div_mod::lemma_fundamental_div_mod_converse(n, limb_base() as int, x, a);
    vstd::arithmetic::div_mod::lemma_fundamental_div_mod_converse(n, limb_base() as int, y, b);
}

/// Every value held fits in 256 bits.
pub proof fn lemma_value_bounded(v: PermissiveUint)
    ensures
        v.value() < uint_limit(),
{
    let b = limb_base() as int;
    let a3 = v.w2 + b * v.w3;
    assert(a3 < b * b) by (nonlinear_arith)
        requires
            0 <= v.w2 < b,
            0 <= v.w3 < b,
            a3 == v.w2 + b * v.w3,
    ;
    let a2 = v.w1 + b * a3;
    assert(a2 < b * b * b) by (nonlinear_arith)
        requires
            0 <= v.w1 < b,
            0 <= a3 < b * b,
            a2 == v.w1 + b * a3,
    ;
    let a1 = v.w0 + b * a2;
    assert(a1 < b * b * b * b) by (nonlinear_arith)
        requires
            0 <= v.w0 < b,
            0 <= a2 < b * b * b,
            a1 == v.w0 + b * a2,
    ;
}

/// Two held values are the same exactly when their values are.
pub proof fn lemma_value_injective(u: PermissiveUint, v: PermissiveUint)
    requires
        u.value() == v.value(),
    ensures
        u == v,
{
    let b = limb_base() as int;
    assert(0 <= u.w1 + b * (u.w2 + b * u.w3)) by (nonlinear_arith)
        requires 0 <= u.w1, 0 <= u.w2, 0 <= u.w3, 0 <= b;
    assert(0 <= v.w1 + b * (v.w2 + b * v.w3)) by (nonlinear_arith)
        requires 0 <= v.w1, 0 <= v.w2, 0 <= v.w3, 0 <= b;
    lemma_limb_split(u.w0 as int, u.w1 + b * (u.w2 + b * u.w3), v.w0 as int, v.w1 + b * (v.w2 + b * v.w3));
    assert(0 <= u.w2 + b * u.w3) by (nonlinear_arith)
        requires 0 <= u.w2, 0 <= u.w3, 0 <= b;
    assert(0 <= v.w2 + b * v.w3) by (nonlinear_arith)
        requires 0 <= v.w2, 0 <= v.w3, 0 <= b;
    lemma_limb_split(u.w1 as int, u.w2 + b * u.w3, v.w1 as int, v.w2 + b * v.w3);
    lemma_limb_split(u.w2 as int, u.w3 as int, v.w2 as int, v.w3 as int);
}

/// The digit that a character stands for; 16 for a character that is no digit.
pub open spec fn digit_value(c: char) -> nat {
    if '0' <= c <= '9' {
        (c as u32 - '0' as u32) as nat
    } else if 'a' <= c <= 'f' {
        (c as u32 - 'a' as u32 + 10) as nat
    } else if 'A' <= c <= 'F' {
        (c as u32 - 'A' as u32 + 10) as nat
    } else {
        16
    }
}

pub open spec fn all_digits(s: Seq<char>, radix: nat) -> bool {
    forall|i: int| 0 <= i < s.len() ==> #[trigger] digit_value(s[i]) < radix
}

/// The number that a string of digits denotes, most significant first.
pub open spec fn digits_value(s: Seq<char>, radix: nat) -> nat
    decreases s.len(),
{
    if s.len() == 0 {
        0
    } else {
        digits_value(s.drop_last(), radix) * radix + digit_value(s.last())
    }
}

pub open spec fn has_hex_prefix(s: Seq<char>) -> bool {
    s.len() >= 2 && s[0] == '0' && s[1] == 'x'
}

/// The number that a numeric text denotes: `0x` followed by one or more hex
/// digits of either case, or one or more decimal digits; `None` for any other text.
pub open spec fn numeric_text_value(s: Seq<char>) -> Option<nat> {
    if has_hex_prefix(s) {
        let d = s.subrange(2, s.len() as int);
        if d.len() > 0 && all_digits(d, 16) {
            Some(digits_value(d, 16))
        } else {
            None
        }
    } else if s.len() > 0 && all_digits(s, 10) {
        Some(digits_value(s, 10))
    } else {
        None
    }
}

/// `r` is what reading the text `s` gives: the value it denotes, `Overflow`
/// when that value needs more than 256 bits, `Malformed` for any other shape.
pub open spec fn parsed_as(s: Seq<char>, r: Result<PermissiveUint, NumericParseError>) -> bool {
    match numeric_text_value(s) {
        None => r == Err::<PermissiveUint, NumericParseError>(NumericParseError::Malformed),
        Some(n) => if n < uint_limit() {
            r is Ok && r->Ok_0.value() == n
        } else {
            r == Err::<PermissiveUint, NumericParseError>(NumericParseError::Overflow)
        },
    }
}

/// The lower-case hex digit for a number below 16.
pub open spec fn hex_char(d: nat) -> char {
    if d < 10 {
        (('0' as u32) + d) as char
    } else {
        (('a' as u32) + d - 10) as char
    }
}

/// The hex digits of a number, most significant first, without leading zeros
/// (a single `0` for zero).
pub open spec fn hex_digits(n: nat) -> Seq<char>
    decreases n,
{
    if n < 16 {
        seq![hex_char(n)]
    } else {
        hex_digits(n / 16).push(hex_char(n % 16))
    }
}

/// The canonical text of a number: `0x` and its lower-case hex digits.
pub open spec fn canonical_text(n: nat) -> Seq<char> {
    seq!['0', 'x'] + hex_digits(n)
}

proof fn lemma_hex_char(d: nat)
    requires
        d < 16,
    ensures
        digit_value(hex_char(d)) == d,
{
}

/// The canonical digits of a number are hex digits, and denote that number.
pub proof fn lemma_hex_digits(n: nat)
    ensures
        hex_digits(n).len() > 0,
        all_digits(hex_digits(n), 16),
        digits_value(hex_digits(n), 16) == n,
    decreases n,
{
    if n < 16 {
        lemma_hex_char(n);
        let s = hex_digits(n);
        assert(s.drop_last() =~= Seq::<char>::empty());
        assert(digits_value(s.drop_last(), 16) == 0);
        assert(s.last() == hex_char(n));
        assert(digits_value(s, 16) == digits_value(s.drop_last(), 16) * 16 + digit_value(s.last()));
    } else {
        lemma_hex_digits(n / 16);
        lemma_hex_char(n % 16);
        let s = hex_digits(n);
        assert(s.drop_last() =~= hex_digits(n / 16));
        assert(s.last() == hex_char(n % 16));
        vstd::arithmetic::div_mod::lemma_fundamental_div_mod(n as int, 16);
        assert(digits_value(s, 16) == digits_value(hex_digits(n / 16), 16) * 16 + n % 16);
        assert forall|i: int| 0 <= i < s.len() implies #[trigger] digit_value(s[i]) < 16 by {
            if i < s.len() - 1 {
                assert(s[i] == hex_digits(n / 16)[i]);
            }
        }
    }
}

/// Relies on ruint's `FromStr` for `Uint<256, 4>` (through alloy-primitives):
/// a `0x` prefix selects radix 16, otherwise radix 10; the digits are read exactly,
/// and the parse fails with an overflow error once the value reaches 2^256.
#[verifier::external_body]
fn uint_from_text(text: &str) -> (r: Option<PermissiveUint>)
    requires
        numeric_text_value(text@) is Some,
    ensures
        r is Some <==> numeric_text_value(text@)->Some_0 < uint_limit(),
        r is Some ==> r->Some_0.value() == numeric_text_value(text@)->Some_0,
{
    match text.parse::<alloy_primitives::U256>() {
        Ok(u) => Some(PermissiveUint::from_limbs(*u.as_limbs())),
        Err(_) => None,
    }
}

/// Relies on ruint's `LowerHex` for `Uint<256, 4>` with the `#` flag: `0x`
/// followed by the lower-case hex digits without leading zeros.
#[verifier::external_body]
fn uint_to_hex(v: PermissiveUint) -> (r: String)
    ensures
        r@ == canonical_text(v.value()),
{
    format!("{:#x}", alloy_primitives::U256::from_limbs(v.to_limbs()))
}

/// The digit that an ASCII byte stands for; 16 for a byte that is no digit.
fn byte_digit(b: u8, Ghost(c): Ghost<char>) -> (r: u8)
    requires
        c <= '\u{7f}',
        b == c as u8,
    ensures
        r as nat == digit_value(c),
{
    if 48u8 <= b && b <= 57u8 {
        b - 48u8
    } else if 97u8 <= b && b <= 102u8 {
        b - 97u8 + 10
    } else if 65u8 <= b && b <= 70u8 {
        b - 65u8 + 10
    } else {
        16
    }
}

/// Whether every character of `text` from `start` on is a digit of `radix`.
fn digits_from(text: &str, bytes: &[u8], start: usize, radix: u8) -> (r: bool)
    requires
        is_ascii_chars(text@),
        bytes@.len() == text@.len(),
        forall|j: int| 0 <= j < bytes@.len() ==> bytes@[j] == #[trigger] text@[j] as u8,
        start <= bytes@.len(),
    ensures
        r == all_digits(text@.subrange(start as int, text@.len() as int), radix as nat),
{
    let ghost d = text@.subrange(start as int, text@.len() as int);
    let mut i: usize = start;
    while i < bytes.len()
        invariant
            start <= i <= bytes@.len(),
            bytes@.len() == text@.len(),
            is_ascii_chars(text@),
            forall|j: int| 0 <= j < bytes@.len() ==> bytes@[j] == #[trigger] text@[j] as u8,
            d == text@.subrange(start as int, text@.len() as int),
            forall|j: int| start <= j < i ==> #[trigger] digit_value(text@[j]) < radix,
        decreases bytes@.len() - i,
    {
        let dv = byte_digit(bytes[i], Ghost(text@[i as int]));
        if dv >= radix {
            assert(d[i - start] == text@[i as int]);
            return false;
        }
        i += 1;
    }
    assert forall|k: int| 0 <= k < d.len() implies #[trigger] digit_value(d[k]) < radix by {
        assert(d[k] == text@[k + start]);
    }
    true
}

/// Whether `text` has the shape of a numeric text.
fn is_numeric_text(text: &str) -> (r: bool)
    ensures
        r == (numeric_text_value(text@) is Some),
{
    if !text.is_ascii() {
        proof {
            let j = choose|j: int| 0 <= j < text@.len() && !('\0' <= #[trigger] text@[j] <= '\u{7f}');
            assert(digit_value(text@[j]) == 16);
            if has_hex_prefix(text@) {
                let d = text@.subrange(2, text@.len() as int);
                assert(d[j - 2] == text@[j]);
            }
        }
        return false;
    }
    let bytes = text.as_bytes();
    proof {
        broadcast use is_ascii_spec_bytes;
    }
    assert(bytes@ =~= Seq::new(text@.len(), |i| text@.index(i) as u8));
    let n = bytes.len();
    if n >= 2 && bytes[0] == 48u8 && bytes[1] == 120u8 {
        assert(text@[0] == '0' && text@[1] == 'x');
        n > 2 && digits_from(text, bytes, 2, 16)
    } else {
        if n >= 2 {
            assert(bytes@[0] == text@[0] as u8 && bytes@[1] == text@[1] as u8);
        }
        if n == 0 {
            return false;
        }
        let r = digits_from(text, bytes, 0, 10);
        assert(text@.subrange(0, text@.len() as int) =~= text@);
        r
    }
}

impl PermissiveUint {
    /// Reads `0x` followed by hex digits (of either case), or plain decimal digits.
    pub fn parse(text: &str) -> (r: Result<PermissiveUint, NumericParseError>)
        ensures
            parsed_as(text@, r),
    {
        if !is_numeric_text(text) {
            return Err(NumericParseError::Malformed);
        }
        match uint_from_text(text) {
            Some(v) => Ok(v),
            None => Err(NumericParseError::Overflow),
        }
    }

    /// The canonical text: `0x` and lower-case hex digits without leading zeros.
    pub fn to_text(&self) -> (r: String)
        ensures
            r@ == canonical_text(self.value()),
    {
        uint_to_hex(*self)
    }
}

/// Reading the canonical text of any value gives back that same value,
/// zero and 2^256 - 1 included.
pub proof fn lemma_round_trip(v: PermissiveUint, r: Result<PermissiveUint, NumericParseError>)
    requires
        parsed_as(canonical_text(v.value()), r),
    ensures
        r == Ok::<PermissiveUint, NumericParseError>(v),
{
    let t = canonical_text(v.value());
    lemma_hex_digits(v.value());
    lemma_value_bounded(v);
    assert(t.subrange(2, t.len() as int) =~= hex_digits(v.value()));
    lemma_value_injective(r->Ok_0, v);
}

/// A hex text and a decimal text that denote the same number read as the same
/// result, whether that is a value or an overflow.
pub proof fn lemma_hex_and_decimal_agree(
    h: Seq<char>,
    d: Seq<char>,
    rh: Result<PermissiveUint, NumericParseError>,
    rd: Result<PermissiveUint, NumericParseError>,
)
    requires
        numeric_text_value(h) is Some,
        numeric_text_value(h) == numeric_text_value(d),
        parsed_as(h, rh),
        parsed_as(d, rd),
    ensures
        rh == rd,
{
    if rh is Ok {
        lemma_value_injective(rh->Ok_0, rd->Ok_0);
    }
}

} // verus!
