//! Numbers written in decimal: the integers that the formats hold, and the
//! literals of real numbers, which are checked here and kept as text.

use vstd::prelude::*;

verus! {

/// The ASCII digits.
pub open spec fn is_digit(c: char) -> bool {
    '0' <= c <= '9'
}

/// The number that a digit stands for.
pub open spec fn digit_value(c: char) -> nat {
    (c as u32 - '0' as u32) as nat
}

/// Whether `s` holds digits only.
pub open spec fn all_digits(s: Seq<char>) -> bool {
    forall|i: int| 0 <= i < s.len() ==> is_digit(#[trigger] s[i])
}

/// The number that a run of digits stands for, most significant digit first.
pub open spec fn digits_value(s: Seq<char>) -> nat
    decreases s.len(),
{
    if s.len() == 0 {
        0
    } else {
        digits_value(s.drop_last()) * 10 + digit_value(s.last())
    }
}

/// The value of a run of one or more digits that does not exceed `max`.
pub open spec fn digits_within(s: Seq<char>, max: u64) -> Option<u64> {
    if s.len() > 0 && all_digits(s) && digits_value(s) <= max {
        Some(digits_value(s) as u64)
    } else {
        None
    }
}

/// An unsigned integer: an optional `+`, then one or more digits, with a
/// value of at most `max`.
pub open spec fn unsigned_within(s: Seq<char>, max: u64) -> Option<u64> {
    if s.len() > 0 && s[0] == '+' {
        digits_within(s.drop_first(), max)
    } else {
        digits_within(s, max)
    }
}

/// A signed integer: an optional `+` or `-`, then one or more digits, with a
/// value from `min` to `max`.
pub open spec fn signed_within(s: Seq<char>, min: i64, max: i64) -> Option<i64>
    recommends
        min <= 0 <= max,
{
    if s.len() > 0 && s[0] == '-' {
        match digits_within(s.drop_first(), (-(min as int)) as u64) {
            Some(m) => Some((-(m as int)) as i64),
            None => None,
        }
    } else {
        match unsigned_within(s, max as u64) {
            Some(m) => Some(m as i64),
            None => None,
        }
    }
}

/// An unsigned integer below 2^8.
pub open spec fn parsed_u8(s: Seq<char>) -> Option<u8> {
    match unsigned_within(s, 0xff) {
        Some(v) => Some(v as u8),
        None => None,
    }
}

/// An unsigned integer below 2^16.
pub open spec fn parsed_u16(s: Seq<char>) -> Option<u16> {
    match unsigned_within(s, 0xffff) {
        Some(v) => Some(v as u16),
        None => None,
    }
}

/// An unsigned integer below 2^32.
pub open spec fn parsed_u32(s: Seq<char>) -> Option<u32> {
    match unsigned_within(s, 0xffff_ffff) {
        Some(v) => Some(v as u32),
        None => None,
    }
}

/// An unsigned integer below 2^64.
pub open spec fn parsed_u64(s: Seq<char>) -> Option<u64> {
    unsigned_within(s, u64::MAX)
}

/// An unsigned integer that fits the machine word.
pub open spec fn parsed_usize(s: Seq<char>) -> Option<usize> {
    match unsigned_within(s, usize::MAX as u64) {
        Some(v) => Some(v as usize),
        None => None,
    }
}

/// A signed integer of 16 bits.
pub open spec fn parsed_i16(s: Seq<char>) -> Option<i16> {
    match signed_within(s, i16::MIN as i64, i16::MAX as i64) {
        Some(v) => Some(v as i16),
        None => None,
    }
}

/// A signed integer of 64 bits.
pub open spec fn parsed_i64(s: Seq<char>) -> Option<i64> {
    signed_within(s, i64::MIN, i64::MAX)
}

/// A run of digits is worth at least as much as any run that it starts with.
proof fn lemma_digits_value_grows(s: Seq<char>, n: int)
    requires
        0 <= n <= s.len(),
    ensures
        digits_value(s.take(n)) <= digits_value(s),
    decreases s.len() - n,
{
    if n == s.len() {
        assert(s.take(n) =~= s);
    } else {
        lemma_digits_value_grows(s.drop_last(), n);
        assert(s.drop_last().take(n) =~= s.take(n));
    }
}

/// The value of the digits of `s` from index `from` on, where it is at most `max`.
pub fn parse_digits(s: &[char], from: usize, max: u64) -> (r: Option<u64>)
    requires
        from <= s.len(),
    ensures
        r == digits_within(s@.skip(from as int), max),
{
    let ghost body = s@.skip(from as int);
    if from == s.len() {
        return None;
    }
    let mut acc: u64 = 0;
    let mut i: usize = from;
    while i < s.len()
        invariant
            from <= i <= s.len(),
            body == s@.skip(from as int),
            all_digits(body.take(i - from)),
            acc == digits_value(body.take(i - from)),
            acc <= max,
        decreases s.len() - i,
    {
        let c = s[i];
        assert(body[i - from] == c);
        if c < '0' || c > '9' {
            return None;
        }
        let d: u64 = (c as u32 - '0' as u32) as u64;
        proof {
            let next = body.take(i - from + 1);
            assert(next.drop_last() =~= body.take(i - from));
            assert(next.last() == c);
            assert(digits_value(next) == acc * 10 + d);
            lemma_digits_value_grows(body, i - from + 1);
        }
        if d > max || acc > (max - d) / 10 {
            return None;
        }
        acc = acc * 10 + d;
        i += 1;
    }
    assert(body.take(s.len() - from) =~= body);
    Some(acc)
}

/// An unsigned integer in decimal, of at most `max`.
pub fn parse_unsigned(s: &[char], max: u64) -> (r: Option<u64>)
    ensures
        r == unsigned_within(s@, max),
{
    if s.len() > 0 && s[0] == '+' {
        assert(s@.skip(1) =~= s@.drop_first());
        parse_digits(s, 1, max)
    } else {
        assert(s@.skip(0) =~= s@);
        parse_digits(s, 0, max)
    }
}

/// A signed integer in decimal, from `min` to `max`.
pub fn parse_signed(s: &[char], min: i64, max: i64) -> (r: Option<i64>)
    requires
        min <= 0 <= max,
    ensures
        r == signed_within(s@, min, max),
{
    if s.len() > 0 && s[0] == '-' {
        assert(s@.skip(1) =~= s@.drop_first());
        let limit: u64 = if min == i64::MIN {
            0x8000_0000_0000_0000
        } else {
            (-min) as u64
        };
        match parse_digits(s, 1, limit) {
            Some(m) => {
                if m == 0 {
                    Some(0)
                } else {
                    Some(-((m - 1) as i64) - 1)
                }
            },
            None => None,
        }
    } else {
        match parse_unsigned(s, max as u64) {
            Some(m) => Some(m as i64),
            None => None,
        }
    }
}

/// The unsigned integer below 2^8 that `s` holds.
pub fn parse_u8(s: &[char]) -> (r: Option<u8>)
    ensures
        r == parsed_u8(s@),
{
    match parse_unsigned(s, 0xff) {
        Some(v) => Some(v as u8),
        None => None,
    }
}

/// The unsigned integer below 2^16 that `s` holds.
pub fn parse_u16(s: &[char]) -> (r: Option<u16>)
    ensures
        r == parsed_u16(s@),
{
    match parse_unsigned(s, 0xffff) {
        Some(v) => Some(v as u16),
        None => None,
    }
}

/// The unsigned integer below 2^32 that `s` holds.
pub fn parse_u32(s: &[char]) -> (r: Option<u32>)
    ensures
        r == parsed_u32(s@),
{
    match parse_unsigned(s, 0xffff_ffff) {
        Some(v) => Some(v as u32),
        None => None,
    }
}

/// The unsigned integer below 2^64 that `s` holds.
pub fn parse_u64(s: &[char]) -> (r: Option<u64>)
    ensures
        r == parsed_u64(s@),
{
    parse_unsigned(s, u64::MAX)
}

/// The unsigned integer of the size of the machine word that `s` holds.
pub fn parse_usize(s: &[char]) -> (r: Option<usize>)
    ensures
        r == parsed_usize(s@),
{
    match parse_unsigned(s, usize::MAX as u64) {
        Some(v) => Some(v as usize),
        None => None,
    }
}

/// The signed integer of 16 bits that `s` holds.
pub fn parse_i16(s: &[char]) -> (r: Option<i16>)
    ensures
        r == parsed_i16(s@),
{
    match parse_signed(s, i16::MIN as i64, i16::MAX as i64) {
        Some(v) => Some(v as i16),
        None => None,
    }
}

/// The signed integer of 64 bits that `s` holds.
pub fn parse_i64(s: &[char]) -> (r: Option<i64>)
    ensures
        r == parsed_i64(s@),
{
    parse_signed(s, i64::MIN, i64::MAX)
}

/// The digit that stands for a number below ten.
pub open spec fn digit_char(d: nat) -> char
    recommends
        d < 10,
{
    (d + '0' as u32) as char
}

/// A number written in decimal, without leading zeros.
pub open spec fn decimal(n: nat) -> Seq<char>
    decreases n,
{
    if n < 10 {
        seq![digit_char(n)]
    } else {
        decimal(n / 10).push(digit_char(n % 10))
    }
}

/// `n` written in decimal.
pub fn decimal_of(n: u64) -> (r: Vec<char>)
    ensures
        r@ == decimal(n as nat),
    decreases n,
{
    let d: u8 = (n % 10) as u8;
    let c: char = (d + 48u8) as char;
    if n < 10 {
        let mut out: Vec<char> = Vec::new();
        out.push(c);
        assert(out@ =~= seq![digit_char(n as nat)]);
        out
    } else {
        let mut out = decimal_of(n / 10);
        out.push(c);
        out
    }
}

/// The index of the first character at or after `from` that is no digit.
pub open spec fn digits_end(s: Seq<char>, from: int) -> int
    decreases s.len() - from,
{
    if 0 <= from < s.len() && is_digit(s[from]) {
        digits_end(s, from + 1)
    } else {
        from
    }
}

/// An ASCII letter in lower case; any other character unchanged.
pub open spec fn lower(c: char) -> char {
    if 'A' <= c <= 'Z' {
        (c as u32 + 32) as char
    } else {
        c
    }
}

/// Whether `s`, from index `from` to its end, spells `word` when case is ignored.
pub open spec fn spells(s: Seq<char>, from: int, word: Seq<char>) -> bool {
    &&& s.len() - from == word.len()
    &&& forall|i: int| 0 <= i < word.len() ==> lower(#[trigger] s[from + i]) == word[i]
}

/// The two signs.
pub open spec fn is_sign(c: char) -> bool {
    c == '+' || c == '-'
}

/// Whether `s`, from index `from` to its end, is an exponent: `e` or `E`, an
/// optional sign, one or more digits.
pub open spec fn is_exponent(s: Seq<char>, from: int) -> bool {
    &&& 0 <= from
    &&& from + 1 < s.len()
    &&& (s[from] == 'e' || s[from] == 'E')
    &&& {
        let first = if is_sign(s[from + 1]) {
            from + 2
        } else {
            from + 1
        };
        first < s.len() && digits_end(s, first) == s.len()
    }
}

/// Whether `s`, from index `from` to its end, is a number: digits with at
/// most one point among them and at least one digit, then an optional exponent.
pub open spec fn is_number(s: Seq<char>, from: int) -> bool {
    let a = digits_end(s, from);
    let point = a < s.len() && s[a] == '.';
    let b = if point {
        digits_end(s, a + 1)
    } else {
        a
    };
    &&& 0 <= from
    &&& (a > from || (point && b > a + 1))
    &&& (b == s.len() || is_exponent(s, b))
}

/// The literals of real numbers: an optional sign, then `inf`, `infinity` or
/// `nan` in any case, or a number.
///
/// ```text
/// Literal ::= Sign? ( 'inf' | 'infinity' | 'nan' | Number )
/// Number  ::= ( Digit+ | Digit+ '.' Digit* | Digit* '.' Digit+ ) Exp?
/// Exp     ::= ( 'e' | 'E' ) Sign? Digit+
/// ```
pub open spec fn is_real_literal(s: Seq<char>) -> bool {
    let from: int = if s.len() > 0 && is_sign(s[0]) {
        1
    } else {
        0
    };
    ||| spells(s, from, seq!['i', 'n', 'f'])
    ||| spells(s, from, seq!['i', 'n', 'f', 'i', 'n', 'i', 't', 'y'])
    ||| spells(s, from, seq!['n', 'a', 'n'])
    ||| is_number(s, from)
}

fn lower_char(c: char) -> (r: char)
    ensures
        r == lower(c),
{
    if 'A' <= c && c <= 'Z' {
        ((c as u8) + 32u8) as char
    } else {
        c
    }
}

fn spells_word(s: &[char], from: usize, word: &[char]) -> (r: bool)
    requires
        from <= s.len(),
    ensures
        r == spells(s@, from as int, word@),
{
    if s.len() - from != word.len() {
        return false;
    }
    let mut i: usize = 0;
    while i < word.len()
        invariant
            from <= s.len(),
            s.len() - from == word.len(),
            i <= word.len(),
            forall|j: int| 0 <= j < i ==> lower(#[trigger] s@[from + j]) == word@[j],
        decreases word.len() - i,
    {
        if lower_char(s[from + i]) != word[i] {
            return false;
        }
        i += 1;
    }
    true
}

fn skip_digits(s: &[char], from: usize) -> (r: usize)
    requires
        from <= s.len(),
    ensures
        r == digits_end(s@, from as int),
        from <= r <= s.len(),
{
    let mut i: usize = from;
    while i < s.len() && '0' <= s[i] && s[i] <= '9'
        invariant
            from <= i <= s.len(),
            digits_end(s@, from as int) == digits_end(s@, i as int),
        decreases s.len() - i,
    {
        i += 1;
    }
    i
}

fn exponent_at(s: &[char], from: usize) -> (r: bool)
    requires
        from <= s.len(),
    ensures
        r == is_exponent(s@, from as int),
{
    if s.len() - from < 2 {
        return false;
    }
    if s[from] != 'e' && s[from] != 'E' {
        return false;
    }
    let first: usize = if s[from + 1] == '+' || s[from + 1] == '-' {
        from + 2
    } else {
        from + 1
    };
    first < s.len() && skip_digits(s, first) == s.len()
}

fn number_at(s: &[char], from: usize) -> (r: bool)
    requires
        from <= s.len(),
    ensures
        r == is_number(s@, from as int),
{
    let a = skip_digits(s, from);
    let point = a < s.len() && s[a] == '.';
    let b = if point {
        skip_digits(s, a + 1)
    } else {
        a
    };
    (a > from || (point && b > a + 1)) && (b == s.len() || exponent_at(s, b))
}

/// Whether `s` is the literal of a real number.
pub fn is_real_text(s: &[char]) -> (r: bool)
    ensures
        r == is_real_literal(s@),
{
    let from: usize = if s.len() > 0 && (s[0] == '+' || s[0] == '-') {
        1
    } else {
        0
    };
    let inf: [char; 3] = ['i', 'n', 'f'];
    let infinity: [char; 8] = ['i', 'n', 'f', 'i', 'n', 'i', 't', 'y'];
    let nan: [char; 3] = ['n', 'a', 'n'];
    assert(inf@ =~= seq!['i', 'n', 'f']);
    assert(infinity@ =~= seq!['i', 'n', 'f', 'i', 'n', 'i', 't', 'y']);
    assert(nan@ =~= seq!['n', 'a', 'n']);
    spells_word(s, from, inf.as_slice()) || spells_word(s, from, infinity.as_slice())
        || spells_word(s, from, nan.as_slice()) || number_at(s, from)
}

/// The literal of a real number, kept as the text that was read.
///
/// The text is known to be a literal, so turning it into a number of any
/// precision cannot fail.
#[derive(Debug)]
pub struct RealLiteral {
    text: String,
}

impl View for RealLiteral {
    type V = Seq<char>;

    closed spec fn view(&self) -> Seq<char> {
        self.text@
    }
}

impl RealLiteral {
    #[verifier::type_invariant]
    closed spec fn wf(self) -> bool {
        is_real_literal(self.text@)
    }

    /// The literal that `s` holds, where it holds one.
    pub fn parse(s: &[char]) -> (r: Option<RealLiteral>)
        ensures
            r is Some <==> is_real_literal(s@),
            r is Some ==> r->0@ == s@,
    {
        if is_real_text(s) {
            Some(RealLiteral { text: crate::text::string_of(s) })
        } else {
            None
        }
    }

    /// The literal `0`.
    pub fn zero() -> (r: RealLiteral)
        ensures
            r@ == seq!['0'],
    {
        let digits: [char; 1] = ['0'];
        assert(digits@ =~= seq!['0']);
        assert(digits_end(digits@, 0) == 1) by {
            assert(digits_end(digits@, 1) == 1);
        }
        assert(is_number(digits@, 0));
        RealLiteral { text: crate::text::string_of(digits.as_slice()) }
    }

    /// The text of the literal.
    pub fn text(&self) -> (r: &str)
        ensures
            r@ == self@,
            is_real_literal(r@),
    {
        proof {
            use_type_invariant(self);
        }
        self.text.as_str()
    }

}

impl Clone for RealLiteral {
    fn clone(&self) -> (r: Self)
        ensures
            r@ == self@,
    {
        proof {
            use_type_invariant(self);
        }
        RealLiteral { text: self.text.clone() }
    }
}

} // verus!
