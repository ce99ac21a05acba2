//! Decimal formatting of balances and counters: thousands separators and
//! the fixed two-decimal currency form, specified character by character.

use vstd::prelude::*;

verus! {

/// The decimal digit character for `d` in `0..=9`.
pub open spec fn digit_char(d: int) -> char {
    if d == 0 {
        '0'
    } else if d == 1 {
        '1'
    } else if d == 2 {
        '2'
    } else if d == 3 {
        '3'
    } else if d == 4 {
        '4'
    } else if d == 5 {
        '5'
    } else if d == 6 {
        '6'
    } else if d == 7 {
        '7'
    } else if d == 8 {
        '8'
    } else {
        '9'
    }
}

/// Decimal digits of a non-negative number, most significant first.
pub open spec fn spec_digits(n: int) -> Seq<char>
    decreases n,
{
    if n < 10 {
        seq![digit_char(n)]
    } else {
        spec_digits(n / 10).push(digit_char(n % 10))
    }
}

/// `ds` with `,` inserted before every group of three characters counted
/// from the right.
pub open spec fn spec_grouped(ds: Seq<char>) -> Seq<char>
    decreases ds.len(),
{
    if ds.len() <= 3 {
        ds
    } else {
        spec_grouped(ds.subrange(0, ds.len() - 3)) + seq![','] + ds.subrange(
            ds.len() - 3,
            ds.len() as int,
        )
    }
}

/// A number with thousands separators: an optional minus sign, then the
/// grouped digits of its magnitude.
pub open spec fn spec_ths(v: int) -> Seq<char> {
    if v < 0 {
        seq!['-'] + spec_grouped(spec_digits(-v))
    } else {
        spec_grouped(spec_digits(v))
    }
}

/// A non-negative amount of minor units as currency: `$`, the grouped
/// whole units, `.`, and exactly two cent digits.
pub open spec fn spec_money(v: int) -> Seq<char> {
    seq!['$'] + spec_grouped(spec_digits(v / 100)) + seq!['.'] + seq![
        digit_char((v % 100) / 10),
        digit_char(v % 10),
    ]
}

/// The one-character string for digit `d`.
fn digit_str(d: u8) -> (r: &'static str)
    requires
        d < 10,
    ensures
        r@ =~= seq![digit_char(d as int)],
{
    proof {
        reveal_strlit("0");
        reveal_strlit("1");
        reveal_strlit("2");
        reveal_strlit("3");
        reveal_strlit("4");
        reveal_strlit("5");
        reveal_strlit("6");
        reveal_strlit("7");
        reveal_strlit("8");
        reveal_strlit("9");
    }
    if d == 0 {
        "0"
    } else if d == 1 {
        "1"
    } else if d == 2 {
        "2"
    } else if d == 3 {
        "3"
    } else if d == 4 {
        "4"
    } else if d == 5 {
        "5"
    } else if d == 6 {
        "6"
    } else if d == 7 {
        "7"
    } else if d == 8 {
        "8"
    } else {
        "9"
    }
}

/// The decimal digits of `n`, most significant first.
fn digits_string(n: u64) -> (r: String)
    ensures
        r@ == spec_digits(n as int),
    decreases n,
{
    if n < 10 {
        String::from_str(digit_str(n as u8))
    } else {
        let mut r = digits_string(n / 10);
        let ghost prefix = r@;
        r.append(digit_str((n % 10) as u8));
        proof {
            assert(r@ =~= prefix.push(digit_char(n as int % 10)));
        }
        r
    }
}

/// Insert `,` before every group of three characters counted from the
/// right.
fn grouped_string(s: &str) -> (r: String)
    ensures
        r@ == spec_grouped(s@),
    decreases s@.len(),
{
    let n = s.unicode_len();
    if n <= 3 {
        String::from_str(s)
    } else {
        let head = s.substring_char(0, n - 3);
        let tail = s.substring_char(n - 3, n);
        let mut r = grouped_string(head);
        r.append(",");
        r.append(tail);
        proof {
            reveal_strlit(",");
            assert(","@ =~= seq![',']);
            assert(r@ =~= spec_grouped(s@.subrange(0, s@.len() - 3)) + seq![','] + s@.subrange(
                s@.len() - 3,
                s@.len() as int,
            ));
        }
        r
    }
}

/// Format `v` with thousands separators.
fn ths_i64(v: i64) -> (r: String)
    requires
        v != i64::MIN,
    ensures
        r@ == spec_ths(v as int),
{
    if v >= 0 {
        let digits = digits_string(v as u64);
        grouped_string(digits.as_str())
    } else {
        let magnitude = (-v) as u64;
        let digits = digits_string(magnitude);
        let grouped = grouped_string(digits.as_str());
        let mut r = String::from_str("-");
        r.append(grouped.as_str());
        proof {
            reveal_strlit("-");
            assert(r@ =~= seq!['-'] + spec_grouped(spec_digits(-(v as int))));
        }
        r
    }
}

/// Thousands-separated display of an integer.
pub trait Ths {
    /// The values the formatting is defined on.
    spec fn ths_ok(&self) -> bool;

    /// The value formatted, as a mathematical integer.
    spec fn ths_val(&self) -> int;

    /// Render the value with `,` between each group of three digits.
    fn ths(&self) -> (r: String)
        requires
            self.ths_ok(),
        ensures
            r@ == spec_ths(self.ths_val()),
    ;
}

impl Ths for i64 {
    open spec fn ths_ok(&self) -> bool {
        *self != i64::MIN
    }

    open spec fn ths_val(&self) -> int {
        *self as int
    }

    fn ths(&self) -> (r: String) {
        ths_i64(*self)
    }
}

impl Ths for i32 {
    open spec fn ths_ok(&self) -> bool {
        true
    }

    open spec fn ths_val(&self) -> int {
        *self as int
    }

    fn ths(&self) -> (r: String) {
        ths_i64(*self as i64)
    }
}

impl Ths for i16 {
    open spec fn ths_ok(&self) -> bool {
        true
    }

    open spec fn ths_val(&self) -> int {
        *self as int
    }

    fn ths(&self) -> (r: String) {
        ths_i64(*self as i64)
    }
}

impl Ths for i8 {
    open spec fn ths_ok(&self) -> bool {
        true
    }

    open spec fn ths_val(&self) -> int {
        *self as int
    }

    fn ths(&self) -> (r: String) {
        ths_i64(*self as i64)
    }
}

impl Ths for u64 {
    open spec fn ths_ok(&self) -> bool {
        *self <= i64::MAX as u64
    }

    open spec fn ths_val(&self) -> int {
        *self as int
    }

    fn ths(&self) -> (r: String) {
        ths_i64(*self as i64)
    }
}

impl Ths for u32 {
    open spec fn ths_ok(&self) -> bool {
        true
    }

    open spec fn ths_val(&self) -> int {
        *self as int
    }

    fn ths(&self) -> (r: String) {
        ths_i64(*self as i64)
    }
}

impl Ths for u16 {
    open spec fn ths_ok(&self) -> bool {
        true
    }

    open spec fn ths_val(&self) -> int {
        *self as int
    }

    fn ths(&self) -> (r: String) {
        ths_i64(*self as i64)
    }
}

impl Ths for u8 {
    open spec fn ths_ok(&self) -> bool {
        true
    }

    open spec fn ths_val(&self) -> int {
        *self as int
    }

    fn ths(&self) -> (r: String) {
        ths_i64(*self as i64)
    }
}

impl Ths for isize {
    open spec fn ths_ok(&self) -> bool {
        *self as int > i64::MIN
    }

    open spec fn ths_val(&self) -> int {
        *self as int
    }

    fn ths(&self) -> (r: String) {
        ths_i64(*self as i64)
    }
}

impl Ths for usize {
    open spec fn ths_ok(&self) -> bool {
        *self as int <= i64::MAX
    }

    open spec fn ths_val(&self) -> int {
        *self as int
    }

    fn ths(&self) -> (r: String) {
        ths_i64(*self as i64)
    }
}

/// Render a non-negative amount of minor units as currency, with grouped
/// whole units and exactly two cent digits.
pub fn money(v: i64) -> (r: String)
    requires
        v >= 0,
    ensures
        r@ == spec_money(v as int),
{
    let units = v / 100;
    let cents = v % 100;
    let digits = digits_string(units as u64);
    let grouped = grouped_string(digits.as_str());
    let mut r = String::from_str("$");
    r.append(grouped.as_str());
    r.append(".");
    r.append(digit_str((cents / 10) as u8));
    r.append(digit_str((cents % 10) as u8));
    proof {
        reveal_strlit("$");
        reveal_strlit(".");
        assert("$"@ =~= seq!['$']);
        assert("."@ =~= seq!['.']);
        assert(cents / 10 == (v as int % 100) / 10);
        assert(cents % 10 == v as int % 10);
        assert(r@ =~= spec_money(v as int));
    }
    r
}

} // verus!
