//! Decimal numerals and whitespace tokenization.
//!
//! The dialogue grammar splits a command line on single spaces and reads
//! indices and message ids as decimal numerals; the subscription listing
//! prints indices back. Both directions are verified against the spec
//! functions below.

use vstd::prelude::*;

verus! {

// ---------------------------------------------------------------------------
// Decimal numerals
// ---------------------------------------------------------------------------

/// The character for one decimal digit.
pub open spec fn digit_char(d: int) -> char {
    if d == 0 {
        '0'
    } else if d == 1 {
        '1'
    } else if d == 2 {
        '2'
    } else if d == 3 {
        '3'
    } else if d == 4 {
        '4'
    } else if d == 5 {
        '5'
    } else if d == 6 {
        '6'
    } else if d == 7 {
        '7'
    } else if d == 8 {
        '8'
    } else {
        '9'
    }
}

pub open spec fn is_digit(c: char) -> bool {
    '0' as int <= c as int && c as int <= '9' as int
}

pub open spec fn digit_val(c: char) -> int {
    c as int - '0' as int
}

/// The decimal numeral of a non-negative integer, most significant digit
/// first and without leading zeros (`0` itself prints as "0").
pub open spec fn dec_digits(n: int) -> Seq<char>
    decreases n,
{
    if n < 10 {
        seq![digit_char(n)]
    } else {
        dec_digits(n / 10).push(digit_char(n % 10))
    }
}

pub open spec fn all_digits(s: Seq<char>) -> bool {
    forall|i: int| 0 <= i < s.len() ==> is_digit(#[trigger] s[i])
}

/// The value of a digit string, most significant digit first.
pub open spec fn digits_val(s: Seq<char>) -> int
    decreases s.len(),
{
    if s.len() == 0 {
        0
    } else {
        digits_val(s.drop_last()) * 10 + digit_val(s.last())
    }
}

/// What a string parses to as an unsigned 64-bit decimal numeral: defined
/// exactly on the non-empty all-digit strings whose value fits, with
/// leading zeros accepted.
pub open spec fn parse_u64_spec(s: Seq<char>) -> Option<u64> {
    if s.len() > 0 && all_digits(s) && digits_val(s) <= u64::MAX {
        Some(digits_val(s) as u64)
    } else {
        None
    }
}

pub proof fn lemma_digits_val_extend(s: Seq<char>, k: int)
    requires
        0 <= k < s.len(),
    ensures
        digits_val(s.subrange(0, k + 1)) == 10 * digits_val(s.subrange(0, k)) + digit_val(s[k]),
{
    let t = s.subrange(0, k + 1);
    assert(t.drop_last() =~= s.subrange(0, k));
    assert(t.last() == s[k]);
}

/// Once the value of a prefix exceeds a bound, the value of the whole
/// all-digit string exceeds it too: appending digits never shrinks it.
pub proof fn lemma_digits_val_overflow(s: Seq<char>, k: int, m: int)
    requires
        all_digits(s),
        0 <= k <= s.len(),
        m >= 0,
        digits_val(s.subrange(0, k)) > m,
    ensures
        digits_val(s) > m,
    decreases s.len() - k,
{
    if k == s.len() {
        assert(s.subrange(0, k) =~= s);
    } else {
        lemma_digits_val_extend(s, k);
        assert(is_digit(s[k]));
        lemma_digits_val_overflow(s, k + 1, m);
    }
}

/// Small digit strings have small values: at most three digits stay below
/// a thousand.
pub proof fn lemma_digits_val_bounds(s: Seq<char>)
    requires
        all_digits(s),
    ensures
        digits_val(s) >= 0,
        s.len() <= 1 ==> digits_val(s) <= 9,
        s.len() <= 2 ==> digits_val(s) <= 99,
        s.len() <= 3 ==> digits_val(s) <= 999,
    decreases s.len(),
{
    if s.len() > 0 {
        assert(all_digits(s.drop_last()));
        lemma_digits_val_bounds(s.drop_last());
        assert(is_digit(s.last()));
    }
}

/// The printed numeral of `n` is all digits and evaluates back to `n`.
pub proof fn lemma_dec_digits_val(n: int)
    requires
        n >= 0,
    ensures
        all_digits(dec_digits(n)),
        digits_val(dec_digits(n)) == n,
        dec_digits(n).len() >= 1,
    decreases n,
{
    if n < 10 {
        let s = dec_digits(n);
        assert(s =~= seq![digit_char(n)]);
        assert(s.len() == 1);
        assert(s.last() == digit_char(n));
        assert(s.drop_last() =~= Seq::<char>::empty());
        assert(digits_val(Seq::<char>::empty()) == 0);
        assert(digits_val(s) == digits_val(s.drop_last()) * 10 + digit_val(s.last()));
        assert(digits_val(s) == digit_val(digit_char(n)));
    } else {
        lemma_dec_digits_val(n / 10);
        let x = dec_digits(n / 10);
        let s = x.push(digit_char(n % 10));
        assert(s.drop_last() =~= x);
        assert(s.last() == digit_char(n % 10));
        assert(digit_val(digit_char(n % 10)) == n % 10);
        assert forall|i: int| 0 <= i < s.len() implies is_digit(#[trigger] s[i]) by {
            if i < x.len() {
                assert(s[i] == x[i]);
            }
        }
    }
}

/// Printing then parsing a `u64` gives it back.
pub proof fn lemma_dec_digits_roundtrip(n: u64)
    ensures
        parse_u64_spec(dec_digits(n as int)) == Some(n),
{
    lemma_dec_digits_val(n as int);
}

/// Parse a string as an unsigned decimal numeral, rejecting anything that is
/// empty, holds a non-digit, or exceeds `u64::MAX`.
pub fn parse_u64(s: &str) -> (r: Option<u64>)
    ensures
        r == parse_u64_spec(s@),
{
    let len = s.unicode_len();
    if len == 0 {
        return None;
    }
    let mut acc: u128 = 0;
    let mut i: usize = 0;
    while i < len
        invariant
            0 <= i <= len,
            len == s@.len(),
            all_digits(s@.subrange(0, i as int)),
            acc == digits_val(s@.subrange(0, i as int)),
            acc <= u64::MAX,
        decreases len - i,
    {
        let c = s.get_char(i);
        let v = c as u32;
        if v < 48 || v > 57 {
            assert(!is_digit(s@[i as int]));
            assert(!all_digits(s@));
            return None;
        }
        assert(is_digit(s@[i as int]));
        proof {
            lemma_digits_val_extend(s@, i as int);
        }
        acc = acc * 10 + (v - 48) as u128;
        i = i + 1;
        if acc > u64::MAX as u128 {
            proof {
                if all_digits(s@) {
                    lemma_digits_val_overflow(s@, i as int, u64::MAX as int);
                }
            }
            return None;
        }
    }
    assert(s@.subrange(0, len as int) =~= s@);
    Some(acc as u64)
}

/// One decimal digit as a string.
fn digit_string(d: u64) -> (r: String)
    requires
        d < 10,
    ensures
        r@ == seq![digit_char(d as int)],
{
    let s: &'static str = if d == 0 {
        "0"
    } else if d == 1 {
        "1"
    } else if d == 2 {
        "2"
    } else if d == 3 {
        "3"
    } else if d == 4 {
        "4"
    } else if d == 5 {
        "5"
    } else if d == 6 {
        "6"
    } else if d == 7 {
        "7"
    } else if d == 8 {
        "8"
    } else {
        "9"
    };
    proof {
        reveal_strlit("0");
        reveal_strlit("1");
        reveal_strlit("2");
        reveal_strlit("3");
        reveal_strlit("4");
        reveal_strlit("5");
        reveal_strlit("6");
        reveal_strlit("7");
        reveal_strlit("8");
        reveal_strlit("9");
        assert(s@ =~= seq![digit_char(d as int)]);
    }
    String::from_str(s)
}

/// Print a `u64` as its decimal numeral.
pub fn u64_to_string(n: u64) -> (r: String)
    ensures
        r@ == dec_digits(n as int),
    decreases n,
{
    if n < 10 {
        digit_string(n)
    } else {
        let mut r = u64_to_string(n / 10);
        let d = digit_string(n % 10);
        r.append(d.as_str());
        proof {
            assert(r@ =~= dec_digits(n as int));
        }
        r
    }
}

// ---------------------------------------------------------------------------
// Tokenization on single spaces
// ---------------------------------------------------------------------------

/// The index of the first occurrence of `c` at or after `i`, or the length
/// if there is none.
pub open spec fn find_chr(s: Seq<char>, c: char, i: int) -> int
    decreases s.len() - i,
{
    if i < 0 || i >= s.len() {
        s.len() as int
    } else if s[i] == c {
        i
    } else {
        find_chr(s, c, i + 1)
    }
}

/// If no character of `[i, k)` is `c` and position `k` holds `c` or is the
/// end, the search from `i` stops at `k`.
pub proof fn lemma_find_chr_skip(s: Seq<char>, c: char, i: int, k: int)
    requires
        0 <= i <= k <= s.len(),
        forall|j: int| i <= j < k ==> s[j] != c,
        k == s.len() || s[k] == c,
    ensures
        find_chr(s, c, i) == k,
    decreases k - i,
{
    if i < k {
        lemma_find_chr_skip(s, c, i + 1, k);
    }
}

/// The index of the first space at or after `i`, or the length if none.
pub open spec fn find_space(s: Seq<char>, i: int) -> int {
    find_chr(s, ' ', i)
}

/// The first space-separated token: the whole string if it has no space.
pub open spec fn token0(s: Seq<char>) -> Seq<char> {
    s.subrange(0, find_space(s, 0))
}

/// The second space-separated token, present exactly when the string has a
/// space; it may be empty, as after a trailing space.
pub open spec fn token1(s: Seq<char>) -> Option<Seq<char>> {
    let f = find_space(s, 0);
    if f == s.len() {
        None
    } else {
        Some(s.subrange(f + 1, find_space(s, f + 1)))
    }
}

/// A command line made of a space-free command word, one space and a
/// space-free argument splits back into exactly those two tokens.
pub proof fn lemma_tokens_of_pair(cmd: Seq<char>, arg: Seq<char>)
    requires
        forall|j: int| 0 <= j < cmd.len() ==> cmd[j] != ' ',
        forall|j: int| 0 <= j < arg.len() ==> arg[j] != ' ',
    ensures
        token0(cmd + seq![' '] + arg) == cmd,
        token1(cmd + seq![' '] + arg) == Some(arg),
{
    let s = cmd + seq![' '] + arg;
    let k = cmd.len() as int;
    assert forall|j: int| 0 <= j < k implies s[j] != ' ' by {
        assert(s[j] == cmd[j]);
    }
    assert(s[k] == ' ');
    lemma_find_chr_skip(s, ' ', 0, k);
    assert forall|j: int| k + 1 <= j < s.len() implies s[j] != ' ' by {
        assert(s[j] == arg[j - k - 1]);
    }
    lemma_find_chr_skip(s, ' ', k + 1, s.len() as int);
    assert(token0(s) =~= cmd);
    assert(s.subrange(k + 1, s.len() as int) =~= arg);
}

pub fn find_chr_exec(s: &str, c: char, from: usize) -> (r: usize)
    requires
        from <= s@.len(),
    ensures
        r as int == find_chr(s@, c, from as int),
        from <= r <= s@.len(),
{
    let len = s.unicode_len();
    let mut i = from;
    while i < len
        invariant
            from <= i <= len,
            len == s@.len(),
            find_chr(s@, c, from as int) == find_chr(s@, c, i as int),
        decreases len - i,
    {
        let x = s.get_char(i);
        if x == c {
            return i;
        }
        assert(find_chr(s@, c, i as int) == find_chr(s@, c, i + 1 as int));
        i = i + 1;
    }
    i
}

pub fn find_space_exec(s: &str, from: usize) -> (r: usize)
    requires
        from <= s@.len(),
    ensures
        r as int == find_space(s@, from as int),
        from <= r <= s@.len(),
{
    find_chr_exec(s, ' ', from)
}

pub fn token0_exec<'a>(s: &'a str) -> (r: &'a str)
    ensures
        r@ == token0(s@),
{
    let f = find_space_exec(s, 0);
    s.substring_char(0, f)
}

pub fn token1_exec<'a>(s: &'a str) -> (r: Option<&'a str>)
    ensures
        (match r {
            Some(t) => token1(s@) == Some(t@),
            None => token1(s@) is None,
        }),
{
    let len = s.unicode_len();
    let f = find_space_exec(s, 0);
    if f == len {
        None
    } else {
        let g = find_space_exec(s, f + 1);
        Some(s.substring_char(f + 1, g))
    }
}

/// Compare two strings character by character.
pub fn str_eq(a: &str, b: &str) -> (r: bool)
    ensures
        r == (a@ == b@),
{
    let la = a.unicode_len();
    let lb = b.unicode_len();
    if la != lb {
        assert(a@ != b@) by {
            assert(a@.len() != b@.len());
        }
        return false;
    }
    let mut i: usize = 0;
    while i < la
        invariant
            0 <= i <= la,
            la == a@.len(),
            la == b@.len(),
            forall|j: int| 0 <= j < i ==> a@[j] == b@[j],
        decreases la - i,
    {
        if s_get(a, i) != s_get(b, i) {
            assert(a@[i as int] != b@[i as int]);
            return false;
        }
        i = i + 1;
    }
    assert(a@ =~= b@);
    true
}

/// One character of a string, by character index.
fn s_get(s: &str, i: usize) -> (c: char)
    requires
        i < s@.len(),
    ensures
        c == s@[i as int],
{
    s.get_char(i)
}

} // verus!
