//! Text in the forms that kernel tools and the native simulator read and print.

use vstd::arithmetic::power::pow;
use vstd::prelude::*;
use vstd::string::*;
use vstd::utf8::{encode_utf8, encode_utf8_decode_utf8, is_ascii_chars, is_ascii_chars_encode_utf8};
use vstd::utf8::valid_utf8;

verus! {

/// Byte strings in dictionary order: `a` stands strictly before `b`.
pub open spec fn lex_before(a: Seq<u8>, b: Seq<u8>) -> bool
    decreases a.len(),
{
    if b.len() == 0 {
        false
    } else if a.len() == 0 {
        true
    } else {
        a[0] < b[0] || (a[0] == b[0] && lex_before(a.skip(1), b.skip(1)))
    }
}

/// The order of strings: that of their UTF-8 bytes.
pub open spec fn before(a: Seq<char>, b: Seq<char>) -> bool {
    lex_before(encode_utf8(a), encode_utf8(b))
}

proof fn lemma_lex_irreflexive(a: Seq<u8>)
    ensures
        !lex_before(a, a),
    decreases a.len(),
{
    if a.len() > 0 {
        lemma_lex_irreflexive(a.skip(1));
    }
}

proof fn lemma_lex_transitive(a: Seq<u8>, b: Seq<u8>, c: Seq<u8>)
    requires
        lex_before(a, b),
        lex_before(b, c),
    ensures
        lex_before(a, c),
    decreases a.len(),
{
    if a.len() > 0 && a[0] == b[0] && b[0] == c[0] {
        lemma_lex_transitive(a.skip(1), b.skip(1), c.skip(1));
    }
}

proof fn lemma_lex_total(a: Seq<u8>, b: Seq<u8>)
    ensures
        lex_before(a, b) || lex_before(b, a) || a == b,
    decreases a.len(),
{
    if a.len() > 0 && b.len() > 0 {
        if a[0] == b[0] {
            lemma_lex_total(a.skip(1), b.skip(1));
            if a.skip(1) == b.skip(1) {
                assert(a =~= seq![a[0]] + a.skip(1));
                assert(b =~= seq![b[0]] + b.skip(1));
            }
        }
    } else {
        if a.len() == 0 && b.len() == 0 {
            assert(a =~= b);
        }
    }
}

/// Two strings with the same bytes are the same string.
pub proof fn lemma_same_bytes(a: Seq<char>, b: Seq<char>)
    requires
        encode_utf8(a) == encode_utf8(b),
    ensures
        a == b,
{
    encode_utf8_decode_utf8(a);
    encode_utf8_decode_utf8(b);
}

pub proof fn lemma_before_irreflexive(a: Seq<char>)
    ensures
        !before(a, a),
{
    lemma_lex_irreflexive(encode_utf8(a));
}

pub proof fn lemma_before_transitive(a: Seq<char>, b: Seq<char>, c: Seq<char>)
    requires
        before(a, b),
        before(b, c),
    ensures
        before(a, c),
{
    lemma_lex_transitive(encode_utf8(a), encode_utf8(b), encode_utf8(c));
}

pub proof fn lemma_before_total(a: Seq<char>, b: Seq<char>)
    ensures
        before(a, b) || before(b, a) || a == b,
{
    lemma_lex_total(encode_utf8(a), encode_utf8(b));
    if encode_utf8(a) == encode_utf8(b) {
        lemma_same_bytes(a, b);
    }
}

/// Strings strictly in order, so that none occurs twice.
pub open spec fn in_order(s: Seq<Seq<char>>) -> bool {
    forall|i: int, j: int| 0 <= i < j < s.len() ==> before(#[trigger] s[i], #[trigger] s[j])
}

proof fn lemma_same_place(s: Seq<Seq<char>>, t: Seq<Seq<char>>, i: int)
    requires
        in_order(s),
        in_order(t),
        forall|k: Seq<char>| s.contains(k) == t.contains(k),
        0 <= i < s.len(),
        0 <= i < t.len(),
    ensures
        s[i] == t[i],
    decreases i,
{
    assert forall|j: int| 0 <= j < i implies #[trigger] s[j] == t[j] by {
        lemma_same_place(s, t, j);
    }
    assert(t.contains(s[i])) by {
        assert(s.contains(s[i]));
    }
    assert(s.contains(t[i])) by {
        assert(t.contains(t[i]));
    }
    let a = choose|a: int| 0 <= a < t.len() && t[a] == s[i];
    let b = choose|b: int| 0 <= b < s.len() && s[b] == t[i];
    lemma_before_irreflexive(s[i]);
    lemma_before_irreflexive(t[i]);
    if a < i {
        assert(s[a] == t[a]);
        assert(before(s[a], s[i]));
    }
    if b < i {
        assert(s[b] == t[b]);
        assert(before(t[b], t[i]));
    }
    if s[i] != t[i] {
        assert(before(t[i], t[a]));
        assert(before(s[i], s[b]));
        lemma_before_transitive(s[i], t[i], s[i]);
    }
}

/// The order of a set of strings is determined: two ordered listings of the same strings are
/// the same.
pub proof fn lemma_order_unique(s: Seq<Seq<char>>, t: Seq<Seq<char>>)
    requires
        in_order(s),
        in_order(t),
        forall|k: Seq<char>| s.contains(k) == t.contains(k),
    ensures
        s == t,
{
    lemma_order_length(s, t);
    lemma_order_length(t, s);
    assert forall|i: int| 0 <= i < s.len() implies s[i] == t[i] by {
        lemma_same_place(s, t, i);
    }
    assert(s =~= t);
}

proof fn lemma_order_length(s: Seq<Seq<char>>, t: Seq<Seq<char>>)
    requires
        in_order(s),
        in_order(t),
        forall|k: Seq<char>| s.contains(k) == t.contains(k),
    ensures
        s.len() >= t.len(),
{
    if s.len() < t.len() {
        let n = s.len() as int;
        assert(t.contains(t[n]));
        let b = choose|b: int| 0 <= b < s.len() && s[b] == t[n];
        lemma_same_place(s, t, b);
        lemma_before_irreflexive(t[n]);
        assert(before(t[b], t[n]));
    }
}

/// A string can be put in its place among strings in order.
pub proof fn lemma_put_in_order(s: Seq<Seq<char>>, k: Seq<char>) -> (t: Seq<Seq<char>>)
    requires
        in_order(s),
        !s.contains(k),
    ensures
        in_order(t),
        t.len() == s.len() + 1,
        forall|x: Seq<char>| #[trigger] t.contains(x) == (s.contains(x) || x == k),
    decreases s.len(),
{
    if s.len() == 0 {
        let t = seq![k];
        assert(t[0] == k);
        t
    } else {
        let last = s.last();
        let rest = s.drop_last();
        assert(s[s.len() - 1] == last);
        lemma_before_total(last, k);
        if before(last, k) {
            let t = s.push(k);
            assert forall|i: int, j: int| 0 <= i < j < t.len() implies before(
                #[trigger] t[i],
                #[trigger] t[j],
            ) by {
                if j == s.len() && i < s.len() - 1 {
                    lemma_before_transitive(s[i], last, k);
                }
            }
            assert forall|x: Seq<char>| #[trigger] t.contains(x) == (s.contains(x) || x == k) by {
                if s.contains(x) {
                    let i = choose|i: int| 0 <= i < s.len() && s[i] == x;
                    assert(t[i] == x);
                }
                assert(t[s.len() as int] == k);
            }
            t
        } else {
            assert forall|x: Seq<char>| rest.contains(x) implies s.contains(x) by {
                let i = choose|i: int| 0 <= i < rest.len() && rest[i] == x;
                assert(s[i] == x);
            }
            let u = lemma_put_in_order(rest, k);
            let t = u.push(last);
            assert forall|i: int, j: int| 0 <= i < j < t.len() implies before(
                #[trigger] t[i],
                #[trigger] t[j],
            ) by {
                if j == u.len() {
                    assert(u.contains(u[i]));
                    if u[i] != k {
                        let m = choose|m: int| 0 <= m < rest.len() && rest[m] == u[i];
                        assert(before(s[m], s[s.len() - 1]));
                    }
                }
            }
            assert forall|x: Seq<char>| #[trigger] t.contains(x) == (s.contains(x) || x == k) by {
                if u.contains(x) {
                    let i = choose|i: int| 0 <= i < u.len() && u[i] == x;
                    assert(t[i] == x);
                }
                if s.contains(x) {
                    let i = choose|i: int| 0 <= i < s.len() && s[i] == x;
                    if i < rest.len() {
                        assert(rest[i] == x);
                    }
                }
                if t.contains(x) {
                    let i = choose|i: int| 0 <= i < t.len() && t[i] == x;
                    if i < u.len() {
                        assert(u[i] == x);
                    }
                }
                assert(t[u.len() as int] == last);
            }
            t
        }
    }
}

/// How one string stands to another.
pub enum Rank {
    Earlier,
    Same,
    Later,
}

/// Ranks `a` against `b`.
pub fn rank(a: &str, b: &str) -> (r: Rank)
    ensures
        match r {
            Rank::Earlier => before(a@, b@),
            Rank::Same => a@ == b@,
            Rank::Later => before(b@, a@),
        },
{
    let x = a.as_bytes();
    let y = b.as_bytes();
    let mut i: usize = 0;
    proof {
        assert(x@.skip(0) =~= x@);
        assert(y@.skip(0) =~= y@);
    }
    while i < x.len() && i < y.len() && x[i] == y[i]
        invariant
            i <= x@.len(),
            i <= y@.len(),
            x@ == encode_utf8(a@),
            y@ == encode_utf8(b@),
            x@.take(i as int) == y@.take(i as int),
            before(a@, b@) == lex_before(x@.skip(i as int), y@.skip(i as int)),
            before(b@, a@) == lex_before(y@.skip(i as int), x@.skip(i as int)),
        decreases x@.len() - i,
    {
        proof {
            assert(x@.skip(i as int).skip(1) =~= x@.skip(i + 1));
            assert(y@.skip(i as int).skip(1) =~= y@.skip(i + 1));
            assert(x@.take(i + 1) =~= x@.take(i as int).push(x@[i as int]));
            assert(y@.take(i + 1) =~= y@.take(i as int).push(y@[i as int]));
        }
        i = i + 1;
    }
    if i == x.len() && i == y.len() {
        proof {
            assert(x@.take(i as int) =~= x@);
            assert(y@.take(i as int) =~= y@);
            lemma_same_bytes(a@, b@);
        }
        Rank::Same
    } else if i == x.len() {
        Rank::Earlier
    } else if i == y.len() {
        Rank::Later
    } else if x[i] < y[i] {
        Rank::Earlier
    } else {
        Rank::Later
    }
}

/// Whether two strings are the same.
pub fn same_text(a: &str, b: &str) -> (r: bool)
    ensures
        r == (a@ == b@),
{
    match rank(a, b) {
        Rank::Same => true,
        Rank::Earlier => {
            proof {
                lemma_before_irreflexive(a@);
            }
            false
        },
        Rank::Later => {
            proof {
                lemma_before_irreflexive(a@);
            }
            false
        },
    }
}

/// A letter or digit of ASCII, or a hyphen; with `underscore`, that too.
pub open spec fn word_char(c: char, underscore: bool) -> bool {
    ||| 'a' <= c <= 'z'
    ||| 'A' <= c <= 'Z'
    ||| '0' <= c <= '9'
    ||| c == '-'
    ||| underscore && c == '_'
}

/// Text made of word characters alone.
pub open spec fn word(s: Seq<char>, underscore: bool) -> bool {
    forall|i: int| 0 <= i < s.len() ==> word_char(#[trigger] s[i], underscore)
}

/// Words are ASCII: one byte for each character.
pub proof fn lemma_word_bytes(s: Seq<char>, underscore: bool)
    requires
        word(s, underscore),
    ensures
        is_ascii_chars(s),
        encode_utf8(s) == Seq::new(s.len(), |i: int| s[i] as u8),
{
    assert forall|i: int| 0 <= i < s.len() implies '\0' <= #[trigger] s[i] <= '\u{7f}' by {
        assert(word_char(s[i], underscore));
    }
    is_ascii_chars_encode_utf8(s);
}

/// Whether `s` is made of word characters alone.
pub fn is_word(s: &str, underscore: bool) -> (r: bool)
    ensures
        r == word(s@, underscore),
{
    if !s.is_ascii() {
        proof {
            if word(s@, underscore) {
                lemma_word_bytes(s@, underscore);
            }
        }
        return false;
    }
    proof {
        is_ascii_chars_encode_utf8(s@);
    }
    let bytes = s.as_bytes();
    let mut i: usize = 0;
    while i < bytes.len()
        invariant
            i <= bytes@.len(),
            is_ascii_chars(s@),
            bytes@ == Seq::new(s@.len(), |k: int| s@[k] as u8),
            forall|k: int| 0 <= k < i ==> word_char(#[trigger] s@[k], underscore),
        decreases bytes@.len() - i,
    {
        let b: u8 = bytes[i];
        assert(b == s@[i as int] as u8);
        assert('\0' <= s@[i as int] <= '\u{7f}');
        let fits = (b >= 97 && b <= 122) || (b >= 65 && b <= 90) || (b >= 48 && b <= 57) || b == 45
            || (underscore && b == 95);
        if !fits {
            assert(!word_char(s@[i as int], underscore));
            return false;
        }
        i = i + 1;
    }
    true
}

/// The digit for `d`, in decimal or lower-case hexadecimal.
pub open spec fn digit(d: nat) -> char {
    if d < 10 {
        ('0' as u32 + d) as char
    } else {
        ('a' as u32 + d - 10) as char
    }
}

/// `n` in decimal, without leading zeros.
pub open spec fn decimal(n: nat) -> Seq<char>
    decreases n,
{
    if n < 10 {
        seq![digit(n)]
    } else {
        decimal(n / 10).push(digit(n % 10))
    }
}

/// The last `width` digits of `n` in base `base`, with leading zeros.
pub open spec fn padded(n: nat, base: nat, width: nat) -> Seq<char>
    decreases width,
{
    if width == 0 {
        seq![]
    } else {
        padded(n / base, base, (width - 1) as nat).push(digit(n % base))
    }
}

pub proof fn lemma_digit_injective(a: nat, b: nat)
    requires
        a < 16,
        b < 16,
        digit(a) == digit(b),
    ensures
        a == b,
{
}

/// A decimal is one or more digits.
pub proof fn lemma_decimal_digits(n: nat)
    ensures
        decimal(n).len() >= 1,
        forall|i: int| 0 <= i < decimal(n).len() ==> '0' <= #[trigger] decimal(n)[i] <= '9',
    decreases n,
{
    if n >= 10 {
        lemma_decimal_digits(n / 10);
    }
}

/// Different numbers have different decimals.
pub proof fn lemma_decimal_injective(a: nat, b: nat)
    requires
        decimal(a) == decimal(b),
    ensures
        a == b,
    decreases a,
{
    lemma_decimal_digits(a / 10);
    lemma_decimal_digits(b / 10);
    assert(decimal(a).last() == digit(a % 10));
    assert(decimal(b).last() == digit(b % 10));
    lemma_digit_injective(a % 10, b % 10);
    if a >= 10 && b >= 10 {
        assert(decimal(a).drop_last() =~= decimal(a / 10));
        assert(decimal(b).drop_last() =~= decimal(b / 10));
        lemma_decimal_injective(a / 10, b / 10);
    }
}

/// Numbers that fit into `width` digits and have the same digits are the same.
pub proof fn lemma_padded_injective(a: nat, b: nat, base: nat, width: nat)
    requires
        2 <= base <= 16,
        a < pow(base as int, width),
        b < pow(base as int, width),
        padded(a, base, width) == padded(b, base, width),
    ensures
        a == b,
    decreases width,
{
    reveal(pow);
    if width > 0 {
        let w = (width - 1) as nat;
        assert(padded(a, base, width).last() == digit(a % base));
        assert(padded(b, base, width).last() == digit(b % base));
        assert(padded(a, base, width).drop_last() =~= padded(a / base, base, w));
        assert(padded(b, base, width).drop_last() =~= padded(b / base, base, w));
        lemma_digit_injective(a % base, b % base);
        let p = pow(base as int, w);
        assert(a / base < p) by (nonlinear_arith)
            requires
                a < base * p,
                base >= 2,
        ;
        assert(b / base < p) by (nonlinear_arith)
            requires
                b < base * p,
                base >= 2,
        ;
        lemma_padded_injective(a / base, b / base, base, w);
        assert(a == base * (a / base) + a % base) by (nonlinear_arith)
            requires
                base >= 2,
        ;
        assert(b == base * (b / base) + b % base) by (nonlinear_arith)
            requires
                base >= 2,
        ;
    }
}

fn digit_text(d: u64) -> (r: &'static str)
    requires
        d < 16,
    ensures
        r@ == seq![digit(d as nat)],
{
    proof {
        reveal_strlit("0");
        reveal_strlit("1");
        reveal_strlit("2");
        reveal_strlit("3");
        reveal_strlit("4");
        reveal_strlit("5");
        reveal_strlit("6");
        reveal_strlit("7");
        reveal_strlit("8");
        reveal_strlit("9");
        reveal_strlit("a");
        reveal_strlit("b");
        reveal_strlit("c");
        reveal_strlit("d");
        reveal_strlit("e");
        reveal_strlit("f");
    }
    match d {
        0 => "0",
        1 => "1",
        2 => "2",
        3 => "3",
        4 => "4",
        5 => "5",
        6 => "6",
        7 => "7",
        8 => "8",
        9 => "9",
        10 => "a",
        11 => "b",
        12 => "c",
        13 => "d",
        14 => "e",
        _ => "f",
    }
}

/// Appends `n` in decimal.
pub fn push_decimal(out: &mut String, n: u64)
    ensures
        final(out)@ == old(out)@ + decimal(n as nat),
    decreases n,
{
    if n < 10 {
        out.append(digit_text(n));
    } else {
        let ghost start = out@;
        push_decimal(out, n / 10);
        out.append(digit_text(n % 10));
        assert(out@ =~= start + decimal(n as nat));
    }
}

/// Appends the last `width` digits of `n` in base `base`.
pub fn push_padded(out: &mut String, n: u64, base: u64, width: u8)
    requires
        2 <= base <= 16,
    ensures
        final(out)@ == old(out)@ + padded(n as nat, base as nat, width as nat),
    decreases width,
{
    let ghost start = out@;
    if width > 0 {
        push_padded(out, n / base, base, width - 1);
        out.append(digit_text(n % base));
    }
    assert(out@ =~= start + padded(n as nat, base as nat, width as nat));
}

/// `n` in decimal.
pub fn decimal_text(n: u64) -> (r: String)
    ensures
        r@ == decimal(n as nat),
{
    let mut out = String::new();
    push_decimal(&mut out, n);
    assert(out@ =~= decimal(n as nat));
    out
}

/// The bytes of a string.
pub fn bytes_of(s: &str) -> (r: Vec<u8>)
    ensures
        r@ == encode_utf8(s@),
{
    s.as_bytes_vec()
}

/// What `String::from_utf8_lossy` makes of bytes.
pub uninterp spec fn lossy(bytes: Seq<u8>) -> Seq<char>;

/// Calls `String::from_utf8_lossy`: the bytes alone decide the text, and bytes that are valid UTF-8
/// are the text that they encode.
#[verifier::external_body]
pub(crate) fn lossy_text(bytes: &[u8]) -> (r: String)
    ensures
        r@ == lossy(bytes@),
        valid_utf8(bytes@) ==> encode_utf8(r@) == bytes@,
{
    String::from_utf8_lossy(bytes).into_owned()
}

/// The path of the file `name` in the directory `dir`.
pub open spec fn path_in(dir: Seq<u8>, name: Seq<char>) -> Seq<u8> {
    if dir.len() == 0 || dir.last() == 47 {
        dir + encode_utf8(name)
    } else {
        dir.push(47) + encode_utf8(name)
    }
}

/// The path of the file `name` in the directory `dir`.
pub fn path_to(dir: &Vec<u8>, name: &str) -> (r: Vec<u8>)
    ensures
        r@ == path_in(dir@, name@),
{
    let mut out = copy_bytes(dir.as_slice());
    if dir.len() > 0 && dir[dir.len() - 1] != 47 {
        out.push(47);
    }
    let mut name = bytes_of(name);
    out.append(&mut name);
    out
}

pub fn copy_bytes(bytes: &[u8]) -> (r: Vec<u8>)
    ensures
        r@ == bytes@,
{
    vstd::slice::slice_to_vec(bytes)
}

/// Whether two byte strings are the same.
pub fn same_bytes(a: &[u8], b: &[u8]) -> (r: bool)
    ensures
        r == (a@ == b@),
{
    if a.len() != b.len() {
        return false;
    }
    let mut i: usize = 0;
    while i < a.len()
        invariant
            i <= a@.len(),
            a@.len() == b@.len(),
            forall|k: int| 0 <= k < i ==> a@[k] == b@[k],
        decreases a@.len() - i,
    {
        if a[i] != b[i] {
            return false;
        }
        i = i + 1;
    }
    assert(a@ =~= b@);
    true
}

/// The characters that Unicode counts as white space.
pub open spec fn white(c: char) -> bool {
    ||| '\u{9}' <= c <= '\u{d}'
    ||| c == ' '
    ||| c == '\u{85}'
    ||| c == '\u{a0}'
    ||| c == '\u{1680}'
    ||| '\u{2000}' <= c <= '\u{200a}'
    ||| c == '\u{2028}'
    ||| c == '\u{2029}'
    ||| c == '\u{202f}'
    ||| c == '\u{205f}'
    ||| c == '\u{3000}'
}

/// Nothing but white space.
pub open spec fn blank(s: Seq<char>) -> bool {
    forall|i: int| 0 <= i < s.len() ==> white(#[trigger] s[i])
}

/// Whether nothing is left of `s` once white space is trimmed.
pub fn is_blank(s: &str) -> (r: bool)
    ensures
        r == blank(s@),
{
    for c in it: s.chars()
        invariant
            it.seq() == s@,
            forall|i: int| 0 <= i < it.index() ==> white(#[trigger] s@[i]),
    {
        assert(c == s@[it.index() as int]);
        let fits = (c >= '\u{9}' && c <= '\u{d}') || c == ' ' || c == '\u{85}' || c == '\u{a0}' || c
            == '\u{1680}' || (c >= '\u{2000}' && c <= '\u{200a}') || c == '\u{2028}' || c
            == '\u{2029}' || c == '\u{202f}' || c == '\u{205f}' || c == '\u{3000}';
        if !fits {
            assert(!white(s@[it.index() as int]));
            return false;
        }
    }
    true
}

} // verus!
