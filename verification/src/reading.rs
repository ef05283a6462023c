//! How the programs on the other side read what this library writes: numerals, and the parts of a
//! line between given characters.

use crate::text::{before, blank, decimal, digit, lex_before, padded, path_in, white};
use crate::text::lemma_decimal_digits;
use vstd::arithmetic::power::pow;
use vstd::prelude::*;
use vstd::utf8::{decode_utf8, encode_utf8, encode_utf8_decode_utf8};

verus! {

/// The character does not occur.
pub open spec fn free_of(s: Seq<char>, c: char) -> bool {
    forall|i: int| 0 <= i < s.len() ==> #[trigger] s[i] != c
}

/// What stands before the first `c`; all of it if there is none.
pub open spec fn until(s: Seq<char>, c: char) -> Seq<char>
    decreases s.len(),
{
    if s.len() == 0 || s[0] == c {
        seq![]
    } else {
        seq![s[0]] + until(s.skip(1), c)
    }
}

/// What stands after the first `c`; nothing if there is none.
pub open spec fn after(s: Seq<char>, c: char) -> Seq<char>
    decreases s.len(),
{
    if s.len() == 0 {
        seq![]
    } else if s[0] == c {
        s.skip(1)
    } else {
        after(s.skip(1), c)
    }
}

/// What stands between the first `open` and the next `close`.
pub open spec fn between(s: Seq<char>, open: char, close: char) -> Seq<char> {
    until(after(s, open), close)
}

/// What stands after that.
pub open spec fn beyond(s: Seq<char>, open: char, close: char) -> Seq<char> {
    after(after(s, open), close)
}

/// The value of a digit, in decimal or hexadecimal.
pub open spec fn digit_value(c: char) -> nat {
    if '0' <= c <= '9' {
        (c as u32 - '0' as u32) as nat
    } else if 'a' <= c <= 'f' {
        (c as u32 - 'a' as u32 + 10) as nat
    } else {
        0
    }
}

/// The number that digits stand for.
pub open spec fn numeral(s: Seq<char>, base: nat) -> nat
    decreases s.len(),
{
    if s.len() == 0 {
        0
    } else {
        numeral(s.drop_last(), base) * base + digit_value(s.last())
    }
}

/// One or more decimal digits, without needless zeros.
pub open spec fn is_numeral(s: Seq<char>) -> bool {
    &&& s.len() >= 1
    &&& s.len() > 1 ==> s[0] != '0'
    &&& forall|i: int| 0 <= i < s.len() ==> '0' <= #[trigger] s[i] <= '9'
}

/// The text is the decimal numeral of `n`.
pub open spec fn reads_as(s: Seq<char>, n: nat) -> bool {
    is_numeral(s) && numeral(s, 10) == n
}

/// The text is the decimal numeral of `n`, followed by `unit`.
pub open spec fn reads_with_unit(s: Seq<char>, n: nat, unit: Seq<char>) -> bool {
    &&& s.len() >= unit.len()
    &&& s.skip(s.len() - unit.len()) == unit
    &&& reads_as(s.take(s.len() - unit.len()), n)
}

/// The bytes are the decimal numeral of `n`.
pub open spec fn bytes_read_as(b: Seq<u8>, n: nat) -> bool {
    reads_as(decode_utf8(b), n)
}

/// Dividing a text at a character that occurs first after `head`.
pub proof fn lemma_divide(head: Seq<char>, c: char, tail: Seq<char>)
    requires
        free_of(head, c),
    ensures
        until(head + seq![c] + tail, c) == head,
        after(head + seq![c] + tail, c) == tail,
    decreases head.len(),
{
    let s = head + seq![c] + tail;
    if head.len() == 0 {
        assert(s[0] == c);
        assert(s.skip(1) =~= tail);
        assert(head =~= seq![]);
    } else {
        let rest = head.skip(1);
        assert(head[0] != c);
        assert(s[0] == head[0]);
        assert(s.skip(1) =~= rest + seq![c] + tail);
        assert forall|i: int| 0 <= i < rest.len() implies #[trigger] rest[i] != c by {
            assert(rest[i] == head[i + 1]);
        }
        lemma_divide(rest, c, tail);
        assert(seq![head[0]] + rest =~= head);
    }
}

/// Reading past a character makes a text shorter.
pub proof fn lemma_after_shorter(s: Seq<char>, c: char)
    ensures
        after(s, c).len() <= s.len(),
        s.len() > 0 ==> after(s, c).len() < s.len(),
    decreases s.len(),
{
    if s.len() > 0 && s[0] != c {
        lemma_after_shorter(s.skip(1), c);
    }
}

/// A digit is read back.
pub proof fn lemma_digit_value(d: nat)
    requires
        d < 16,
    ensures
        digit_value(digit(d)) == d,
        d < 10 ==> '0' <= digit(d) <= '9',
{
}

/// Every number is read back from its decimal, which has no needless zeros; so different numbers
/// are written differently.
pub proof fn law_decimals_are_read_back(n: nat)
    ensures
        reads_as(decimal(n), n),
    decreases n,
{
    lemma_decimal_digits(n);
    let s = decimal(n);
    lemma_digit_value(n % 10);
    if n < 10 {
        assert(s.drop_last() =~= seq![]);
        assert(s.last() == digit(n));
        assert(numeral(s.drop_last(), 10) == 0);
    } else {
        law_decimals_are_read_back(n / 10);
        assert(s.drop_last() =~= decimal(n / 10));
        assert(s.last() == digit(n % 10));
        assert(s[0] == decimal(n / 10)[0]);
        if n / 10 < 10 {
            assert(decimal(n / 10) =~= seq![digit(n / 10)]);
            lemma_digit_value(n / 10);
            assert(digit_value('0') == 0);
            assert(decimal(n / 10)[0] == digit(n / 10));
            assert(n / 10 != 0);
            assert(digit(n / 10) != '0');
        } else {
            lemma_decimal_digits(n / 10 / 10);
            assert(decimal(n / 10).len() > 1);
        }
        assert(numeral(s, 10) == numeral(s.drop_last(), 10) * 10 + digit_value(s.last()));
    }
}

/// A number that fits is read back from its digits in a fixed width.
pub proof fn law_padded_numbers_are_read_back(n: nat, base: nat, width: nat)
    requires
        2 <= base <= 16,
        n < pow(base as int, width),
    ensures
        padded(n, base, width).len() == width,
        numeral(padded(n, base, width), base) == n,
        base == 10 ==> forall|i: int|
            0 <= i < width ==> '0' <= #[trigger] padded(n, base, width)[i] <= '9',
    decreases width,
{
    reveal(pow);
    if width > 0 {
        let w = (width - 1) as nat;
        let p = pow(base as int, w);
        let s = padded(n, base, width);
        assert(n / base < p) by (nonlinear_arith)
            requires
                n < base * p,
                base >= 2,
        ;
        law_padded_numbers_are_read_back(n / base, base, w);
        assert(s.drop_last() =~= padded(n / base, base, w));
        assert(s.last() == digit(n % base));
        lemma_digit_value(n % base);
        assert((n / base) * base + n % base == n) by (nonlinear_arith)
            requires
                base >= 2,
        ;
        assert forall|i: int| 0 <= i < width && base == 10 implies '0' <= #[trigger] s[i] <= '9' by {
            if i < w {
                assert(s[i] == padded(n / base, base, w)[i]);
            }
        }
    }
}

/// A decimal with a unit is read back.
pub proof fn lemma_unit_read_back(n: nat, unit: Seq<char>)
    ensures
        reads_with_unit(decimal(n) + unit, n, unit),
{
    law_decimals_are_read_back(n);
    let s = decimal(n) + unit;
    assert(s.skip(s.len() - unit.len()) =~= unit);
    assert(s.take(s.len() - unit.len()) =~= decimal(n));
}

/// A decimal is read back from its bytes.
pub proof fn lemma_bytes_read_back(n: nat)
    ensures
        bytes_read_as(encode_utf8(decimal(n)), n),
{
    law_decimals_are_read_back(n);
    encode_utf8_decode_utf8(decimal(n));
}

/// No decimal holds a character that is no digit.
pub proof fn lemma_decimal_free_of(n: nat, c: char)
    requires
        !('0' <= c <= '9'),
    ensures
        free_of(decimal(n), c),
{
    lemma_decimal_digits(n);
}

/// The path of a file is that of its directory and the file's name, with one slash between them
/// that is not doubled.
pub proof fn law_paths_lead_into_their_directory(dir: Seq<u8>, name: Seq<char>)
    ensures
        ({
            let p = path_in(dir, name);
            let n = encode_utf8(name);
            let d = p.take(p.len() - n.len());
            &&& p.len() >= n.len()
            &&& p.skip(p.len() - n.len()) == n
            &&& dir.len() == 0 ==> d == dir
            &&& dir.len() > 0 ==> d.last() == 47 && (d == dir || (d.drop_last() == dir && dir.last()
                != 47))
        }),
{
    let p = path_in(dir, name);
    let n = encode_utf8(name);
    let d = p.take(p.len() - n.len());
    assert(p.skip(p.len() - n.len()) =~= n);
    if dir.len() == 0 || dir.last() == 47 {
        assert(d =~= dir);
    } else {
        assert(d =~= dir.push(47));
        assert(d.drop_last() =~= dir);
    }
}

/// A text is blank exactly if its parts are, down to single characters.
pub proof fn law_blank_in_every_part(a: Seq<char>, b: Seq<char>, c: char)
    ensures
        blank(seq![]),
        blank(seq![c]) == white(c),
        blank(a + b) == (blank(a) && blank(b)),
{
    let s = a + b;
    if blank(s) {
        assert forall|i: int| 0 <= i < a.len() implies white(#[trigger] a[i]) by {
            assert(s[i] == a[i]);
        }
        assert forall|i: int| 0 <= i < b.len() implies white(#[trigger] b[i]) by {
            assert(s[a.len() + i] == b[i]);
        }
    }
    let one = seq![c];
    assert(one[0] == c);
}

/// Strings stand in the order of their bytes: one stands before another exactly if it is a proper
/// beginning of it, or has the smaller byte where they first differ.
pub proof fn law_order_of_strings(a: Seq<char>, b: Seq<char>)
    ensures
        before(a, b) <==> first_differs(encode_utf8(a), encode_utf8(b)),
{
    lemma_first_differs(encode_utf8(a), encode_utf8(b));
}

/// `x` is a proper beginning of `y`, or has the smaller byte where they first differ.
pub open spec fn first_differs(x: Seq<u8>, y: Seq<u8>) -> bool {
    exists|n: int| #[trigger] differs_at(x, y, n)
}

/// The first `n` bytes are the same; then `x` ends, or has the smaller byte.
pub open spec fn differs_at(x: Seq<u8>, y: Seq<u8>, n: int) -> bool {
    &&& 0 <= n < y.len() && n <= x.len()
    &&& x.take(n) == y.take(n)
    &&& n == x.len() || x[n] < y[n]
}

proof fn lemma_first_differs(x: Seq<u8>, y: Seq<u8>)
    ensures
        lex_before(x, y) <==> first_differs(x, y),
    decreases x.len(),
{
    if y.len() > 0 {
        if x.len() == 0 || x[0] < y[0] {
            assert(x.take(0) =~= y.take(0));
            assert(differs_at(x, y, 0));
        } else {
            let (p, q) = (x.skip(1), y.skip(1));
            lemma_first_differs(p, q);
            if x[0] == y[0] && first_differs(p, q) {
                let n = choose|n: int| #[trigger] differs_at(p, q, n);
                assert(x.take(n + 1) =~= seq![x[0]] + p.take(n));
                assert(y.take(n + 1) =~= seq![y[0]] + q.take(n));
                assert(differs_at(x, y, n + 1));
            }
            if first_differs(x, y) {
                let n = choose|n: int| #[trigger] differs_at(x, y, n);
                assert(n > 0);
                assert(x.take(n)[0] == x[0] && y.take(n)[0] == y[0]);
                assert(p.take(n - 1) =~= x.take(n).skip(1));
                assert(q.take(n - 1) =~= y.take(n).skip(1));
                assert(differs_at(p, q, n - 1));
            }
        }
    }
}

} // verus!
