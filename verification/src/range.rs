//! `RangeInt`: a positive integer bounded to `[1, 255]`, one endpoint of the
//! selectable range, with decimal parsing and formatting.

use vstd::prelude::*;
use vstd::string::StrSliceExecFns;

verus! {

/// The character for a single decimal digit value.
pub open spec fn spec_digit_char(d: nat) -> char {
    ((d + 48) as char)
}

/// The canonical decimal rendering of an integer: most significant digit
/// first, no sign, no leading zeros.
pub open spec fn spec_decimal(v: nat) -> Seq<char>
    decreases v,
{
    if v < 10 {
        seq![spec_digit_char(v)]
    } else {
        spec_decimal(v / 10).push(spec_digit_char(v % 10))
    }
}

/// Whether a character is a decimal digit.
pub open spec fn spec_is_digit(c: char) -> bool {
    '0' <= c && c <= '9'
}

/// The numeric value of a digit character; zero for anything else.
pub open spec fn spec_digit_val(c: char) -> nat {
    if spec_is_digit(c) {
        (c as int - 48) as nat
    } else {
        0
    }
}

/// The integer denoted by a sequence of digit characters, most significant
/// first.
pub open spec fn spec_digits_val(s: Seq<char>) -> nat
    decreases s.len(),
{
    if s.len() == 0 {
        0
    } else {
        spec_digits_val(s.drop_last()) * 10 + spec_digit_val(s.last())
    }
}

/// Whether every character of the sequence is a decimal digit.
pub open spec fn spec_all_digits(s: Seq<char>) -> bool {
    forall|i: int| 0 <= i < s.len() ==> spec_is_digit(#[trigger] s[i])
}

/// The digits of a numeric text: everything after an optional leading '+',
/// the one tolerance a standard integer parser allows.
pub open spec fn spec_digits_part(s: Seq<char>) -> Seq<char> {
    if s.len() > 0 && s[0] == '+' {
        s.drop_first()
    } else {
        s
    }
}

/// Whether a text denotes an integer in `[1, 255]`: an optional leading '+',
/// then one or more digits, whose value is positive and fits in one byte.
pub open spec fn spec_parse_ok(s: Seq<char>) -> bool {
    let d = spec_digits_part(s);
    d.len() > 0 && spec_all_digits(d) && 1 <= spec_digits_val(d) <= 255
}

/// The value a valid numeric text denotes.
pub open spec fn spec_parse_val(s: Seq<char>) -> nat {
    spec_digits_val(spec_digits_part(s))
}

/// The value of a digit prefix never exceeds the value of the whole digit
/// string: appending digits only grows the denoted integer.
proof fn lemma_digits_val_take_le(s: Seq<char>, j: int)
    requires
        0 <= j <= s.len(),
    ensures
        spec_digits_val(s.take(j)) <= spec_digits_val(s),
    decreases s.len() - j,
{
    if j == s.len() {
        assert(s.take(j) =~= s);
    } else {
        assert(s.take(j + 1).drop_last() =~= s.take(j));
        assert(s.take(j + 1).last() == s[j]);
        lemma_digits_val_take_le(s, j + 1);
    }
}

/// The digit string with its leading zeros removed, keeping at least one
/// character.
pub open spec fn spec_strip_zeros(s: Seq<char>) -> Seq<char>
    decreases s.len(),
{
    if s.len() > 1 && s[0] == '0' {
        spec_strip_zeros(s.drop_first())
    } else {
        s
    }
}

/// The canonical decimal form of a numeric text: its digits, sign dropped,
/// leading zeros removed.
pub open spec fn spec_normalized_decimal(t: Seq<char>) -> Seq<char> {
    spec_strip_zeros(spec_digits_part(t))
}

/// A single character denotes its own digit value.
proof fn lemma_digits_val_singleton(s: Seq<char>)
    requires
        s.len() == 1,
    ensures
        spec_digits_val(s) == spec_digit_val(s[0]),
{
    assert(s.drop_last() =~= Seq::<char>::empty());
    assert(spec_digits_val(Seq::<char>::empty()) == 0);
    assert(s.last() == s[0]);
}

/// A leading zero does not change the integer a digit string denotes.
proof fn lemma_digits_val_leading_zero(s: Seq<char>)
    requires
        s.len() >= 1,
        s[0] == '0',
    ensures
        spec_digits_val(s) == spec_digits_val(s.drop_first()),
    decreases s.len(),
{
    if s.len() == 1 {
        lemma_digits_val_singleton(s);
        assert(s.drop_first() =~= Seq::<char>::empty());
        assert(spec_digits_val(Seq::<char>::empty()) == 0);
    } else {
        assert(s.drop_last().len() >= 1 && s.drop_last()[0] == '0');
        lemma_digits_val_leading_zero(s.drop_last());
        assert(s.drop_last().drop_first() =~= s.drop_first().drop_last());
        assert(s.drop_first().last() == s.last());
    }
}

/// Stripping leading zeros keeps the denoted integer, keeps every character
/// a digit, leaves the string nonempty, and leaves no leading zero unless a
/// single character remains.
proof fn lemma_strip_zeros_props(s: Seq<char>)
    requires
        s.len() >= 1,
    ensures
        spec_strip_zeros(s).len() >= 1,
        spec_digits_val(spec_strip_zeros(s)) == spec_digits_val(s),
        spec_all_digits(s) ==> spec_all_digits(spec_strip_zeros(s)),
        spec_strip_zeros(s).len() > 1 ==> spec_strip_zeros(s)[0] != '0',
    decreases s.len(),
{
    if s.len() > 1 && s[0] == '0' {
        lemma_digits_val_leading_zero(s);
        lemma_strip_zeros_props(s.drop_first());
    }
}

/// A nonempty digit string without a leading zero is exactly the decimal
/// rendering of the integer it denotes.
proof fn lemma_decimal_of_digits(s: Seq<char>)
    requires
        s.len() >= 1,
        spec_all_digits(s),
        s.len() > 1 ==> s[0] != '0',
    ensures
        spec_decimal(spec_digits_val(s)) == s,
    decreases s.len(),
{
    if s.len() == 1 {
        let c = s[0];
        lemma_digits_val_singleton(s);
        assert(spec_digit_char(spec_digit_val(c)) == c);
        assert(spec_decimal(spec_digits_val(s)) =~= s);
    } else {
        let p = s.drop_last();
        let c = s.last();
        let pv = spec_digits_val(p);
        let dv = spec_digit_val(c);
        assert(p[0] == s[0] && spec_is_digit(s[0]) && s[0] != '0');
        assert(spec_digit_val(p[0]) >= 1);
        assert(p.take(1) =~= seq![p[0]]);
        lemma_digits_val_singleton(p.take(1));
        lemma_digits_val_take_le(p, 1);
        assert(pv >= 1);
        let v = spec_digits_val(s);
        assert(v == pv * 10 + dv);
        assert(v >= 10 && v / 10 == pv && v % 10 == dv) by (nonlinear_arith)
            requires
                v == pv * 10 + dv,
                pv >= 1,
                dv < 10,
        ;
        lemma_decimal_of_digits(p);
        assert(spec_digit_char(dv) == c);
        assert(spec_decimal(v) == spec_decimal(pv).push(spec_digit_char(dv)));
        assert(p.push(c) =~= s);
    }
}

/// Two bounds with the same underlying integer are the same bound: a
/// `RangeInt` is nothing but its value.
pub proof fn lemma_range_int_eq(a: RangeInt, b: RangeInt)
    requires
        a@ == b@,
    ensures
        a == b,
{
}

/// A bound rebuilt from its own underlying integer is the same bound.
pub proof fn lemma_spec_from_view(a: RangeInt)
    ensures
        RangeInt::spec_from(a@) == a,
{
}

/// Formatting the value a valid text parses to yields that text's canonical
/// decimal form: parse-then-format normalizes, and loses nothing else.
pub proof fn lemma_parse_format_round_trip(t: Seq<char>)
    requires
        spec_parse_ok(t),
    ensures
        spec_decimal(spec_parse_val(t)) == spec_normalized_decimal(t),
{
    let d = spec_digits_part(t);
    let n = spec_strip_zeros(d);
    lemma_strip_zeros_props(d);
    if n.len() == 1 && n[0] == '0' {
        lemma_digits_val_singleton(n);
    }
    lemma_decimal_of_digits(n);
}

/// Relies on itoap::write_to_string: it appends the integer's decimal
/// digits (most significant first, no sign, no leading zeros) to the string.
#[verifier::external_body]
fn push_decimal(buf: &mut String, v: u8)
    ensures
        final(buf)@ == old(buf)@ + spec_decimal(v as nat),
{
    itoap::write_to_string(buf, v);
}

/// Error returned when a text does not denote an integer in `[1, 255]`.
#[derive(Clone, Copy, Debug, PartialEq, Eq, Structural)]
pub struct InvalidRange;

/// One endpoint of the selectable range: an integer in `[1, 255]`.
#[derive(Clone, Copy, Debug, PartialEq, Eq, Structural)]
pub struct RangeInt {
    value: u8,
}

impl View for RangeInt {
    type V = u8;

    closed spec fn view(&self) -> u8 {
        self.value
    }
}

impl RangeInt {
    /// The bound's invariant: the value is never zero.
    pub open spec fn wf(&self) -> bool {
        self@ >= 1
    }

    /// The bound holding the given integer.
    pub closed spec fn spec_from(v: u8) -> RangeInt {
        RangeInt { value: v }
    }

    /// Builds a bound from an integer already known to be positive.
    pub fn new(v: u8) -> (r: RangeInt)
        requires
            v >= 1,
        ensures
            r@ == v,
            r == RangeInt::spec_from(v),
    {
        RangeInt { value: v }
    }

    /// Returns the underlying integer.
    pub fn get(&self) -> (v: u8)
        ensures
            v == self@,
    {
        self.value
    }

    /// Parses a decimal text into a bound: accepted are exactly the texts
    /// denoting an integer in `[1, 255]`, with the optional leading '+' a
    /// standard integer parser allows; everything else is `InvalidRange`.
    pub fn parse(s: &str) -> (r: Result<RangeInt, InvalidRange>)
        ensures
            r is Ok <==> spec_parse_ok(s@),
            r matches Ok(v) ==> v@ as nat == spec_parse_val(s@) && v.wf(),
    {
        let n = s.unicode_len();
        let offset: usize = if n > 0 && s.get_char(0) == '+' {
            1
        } else {
            0
        };
        let ghost d = spec_digits_part(s@);
        proof {
            assert(d =~= s@.subrange(offset as int, n as int));
        }
        if n == offset {
            return Err(InvalidRange);
        }
        let mut acc: u32 = 0;
        let mut i: usize = offset;
        while i < n
            invariant
                offset <= i <= n == s@.len(),
                d == spec_digits_part(s@),
                d =~= s@.subrange(offset as int, n as int),
                spec_all_digits(d.take(i - offset)),
                acc == spec_digits_val(d.take(i - offset)),
                acc <= 255,
            decreases n - i,
        {
            let c = s.get_char(i);
            let cv = c as u32;
            if cv < 48 || cv > 57 {
                proof {
                    assert(d[i - offset] == s@[i as int]);
                    assert(!spec_is_digit(d[i - offset]));
                }
                return Err(InvalidRange);
            }
            proof {
                assert(d.take(i - offset + 1).drop_last() =~= d.take(i - offset));
                assert(d.take(i - offset + 1).last() == s@[i as int]);
            }
            acc = acc * 10 + (cv - 48);
            if acc > 255 {
                proof {
                    lemma_digits_val_take_le(d, i - offset + 1);
                }
                return Err(InvalidRange);
            }
            i = i + 1;
        }
        proof {
            assert(d.take(n - offset) =~= d);
        }
        if acc == 0 {
            return Err(InvalidRange);
        }
        Ok(RangeInt { value: acc as u8 })
    }

    /// Renders the bound in decimal, no leading zeros, no separators.
    pub fn to_string(&self) -> (r: String)
        ensures
            r@ == spec_decimal(self@ as nat),
    {
        let mut buf = String::new();
        push_decimal(&mut buf, self.get());
        proof {
            assert(buf@ =~= spec_decimal(self@ as nat));
        }
        buf
    }
}

} // verus!
