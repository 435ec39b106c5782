use vstd::prelude::*;

verus! {

/// Whether `c` is one of the ASCII digits `0` to `9`.
pub open spec fn is_digit(c: char) -> bool {
    '0' <= c <= '9'
}

/// The value of the digit `c`.
pub open spec fn digit_value(c: char) -> int {
    c as int - '0' as int
}

/// The character of the digit `d` (`0 <= d < 10`).
pub open spec fn digit_char(d: nat) -> char {
    ('0' as nat + d) as char
}

/// Whether `s` holds digits only.
pub open spec fn all_digits(s: Seq<char>) -> bool {
    forall|i: int| 0 <= i < s.len() ==> is_digit(#[trigger] s[i])
}

/// The number that the digits `s` write in base ten, most significant first.
pub open spec fn digits_value(s: Seq<char>) -> int
    decreases s.len(),
{
    if s.len() == 0 {
        0
    } else {
        10 * digits_value(s.drop_last()) + digit_value(s.last())
    }
}

/// The integer that `s` writes: an optional `+` or `-`, then one digit or more.
pub open spec fn integer_text_value(s: Seq<char>) -> Option<int> {
    if s.len() > 0 && (s[0] == '-' || s[0] == '+') {
        let d = s.subrange(1, s.len() as int);
        if d.len() > 0 && all_digits(d) {
            Some(
                if s[0] == '-' {
                    -digits_value(d)
                } else {
                    digits_value(d)
                },
            )
        } else {
            None
        }
    } else if s.len() > 0 && all_digits(s) {
        Some(digits_value(s))
    } else {
        None
    }
}

pub open spec fn fits_i32(v: int) -> bool {
    i32::MIN <= v <= i32::MAX
}

/// The 32-bit integer that `s` writes, if it writes one that fits.
pub open spec fn i32_of_text(s: Seq<char>) -> Option<i32> {
    match integer_text_value(s) {
        Some(v) => if fits_i32(v) {
            Some(v as i32)
        } else {
            None
        },
        None => None,
    }
}

/// The value of an integer literal: its text read as a 32-bit integer, negated when the literal
/// carries a minus sign; `None` where the text is no integer or the value does not fit.
pub open spec fn literal_value(s: Seq<char>, negative: bool) -> Option<i32> {
    match i32_of_text(s) {
        Some(v) => if !negative {
            Some(v)
        } else if fits_i32(-v) {
            Some((-v) as i32)
        } else {
            None
        },
        None => None,
    }
}

/// The decimal digits of `n`, without leading zeros.
pub open spec fn digits_of(n: nat) -> Seq<char>
    decreases n,
{
    if n < 10 {
        seq![digit_char(n)]
    } else {
        digits_of(n / 10).push(digit_char(n % 10))
    }
}

/// The decimal text of `n`, with a leading `-` when it is negative.
pub open spec fn int_text(n: int) -> Seq<char> {
    if n < 0 {
        seq!['-'] + digits_of((-n) as nat)
    } else {
        digits_of(n as nat)
    }
}

/// The character that the escape `\c` stands for.
pub open spec fn unescape(c: char) -> char {
    if c == 't' {
        '\t'
    } else if c == 'b' {
        '\x08'
    } else if c == 'n' {
        '\n'
    } else if c == 'r' {
        '\r'
    } else if c == 'f' {
        '\x0C'
    } else if c == '0' {
        '\0'
    } else {
        // `\'` and `\\` stand for the character itself, as does any other escape
        c
    }
}

/// The characters that the quoted literal `t` holds from position `i` up to its last character,
/// with escapes decoded. An escape may take the closing quote as its second character.
pub open spec fn decode_from(t: Seq<char>, i: int) -> Seq<char>
    decreases t.len() - i,
{
    if i < 1 || i + 1 >= t.len() {
        Seq::empty()
    } else if t[i] == '\\' {
        seq![unescape(t[i + 1])] + decode_from(t, i + 2)
    } else {
        seq![t[i]] + decode_from(t, i + 1)
    }
}

/// The text that a string literal stands for: its characters between the quotes, escapes decoded.
pub open spec fn string_literal_value(t: Seq<char>) -> Seq<char> {
    decode_from(t, 1)
}

proof fn lemma_digit_char(d: nat)
    requires
        d < 10,
    ensures
        is_digit(digit_char(d)),
        digit_value(digit_char(d)) == d,
{
    assert(digit_char(d) as int == '0' as int + d);
}

/// The decimal digits of `n` are digits, at least one, and read back as `n`.
pub proof fn lemma_digits_of(n: nat)
    ensures
        digits_of(n).len() > 0,
        all_digits(digits_of(n)),
        digits_value(digits_of(n)) == n,
    decreases n,
{
    lemma_digit_char(n % 10);
    if n < 10 {
        assert(digits_of(n).drop_last() =~= Seq::<char>::empty());
        assert(digits_value(Seq::<char>::empty()) == 0);
    } else {
        lemma_digits_of(n / 10);
        let s = digits_of(n);
        assert(s.drop_last() =~= digits_of(n / 10));
        assert(digits_value(s) == 10 * digits_value(digits_of(n / 10)) + digit_value(
            digit_char(n % 10),
        ));
        assert(10 * (n / 10) + n % 10 == n);
        assert forall|i: int| 0 <= i < s.len() implies is_digit(#[trigger] s[i]) by {
            if i < s.len() - 1 {
                assert(s[i] == digits_of(n / 10)[i]);
            }
        }
    }
}

proof fn lemma_digits_value_prefix(s: Seq<char>, k: int)
    requires
        all_digits(s),
        0 <= k <= s.len(),
    ensures
        digits_value(s.subrange(0, k)) <= digits_value(s),
        0 <= digits_value(s.subrange(0, k)),
    decreases s.len(),
{
    if k == s.len() {
        assert(s.subrange(0, k) =~= s);
        lemma_digits_value_nonneg(s);
    } else {
        let t = s.drop_last();
        assert(all_digits(t)) by {
            assert forall|i: int| 0 <= i < t.len() implies is_digit(#[trigger] t[i]) by {
                assert(t[i] == s[i]);
            }
        }
        lemma_digits_value_prefix(t, k);
        assert(t.subrange(0, k) =~= s.subrange(0, k));
        assert(is_digit(s[s.len() - 1]));
        lemma_digits_value_nonneg(t);
    }
}

proof fn lemma_digits_value_nonneg(s: Seq<char>)
    requires
        all_digits(s),
    ensures
        0 <= digits_value(s),
    decreases s.len(),
{
    if s.len() > 0 {
        let t = s.drop_last();
        assert(all_digits(t)) by {
            assert forall|i: int| 0 <= i < t.len() implies is_digit(#[trigger] t[i]) by {
                assert(t[i] == s[i]);
            }
        }
        lemma_digits_value_nonneg(t);
        assert(is_digit(s[s.len() - 1]));
    }
}

/// Reads the digits of `t` from position `from` on; `None` where one is not a digit or where
/// their value exceeds `2147483648`.
fn digits_from(t: &str, from: usize) -> (r: Option<u32>)
    requires
        from <= t@.len(),
    ensures
        ({
            let d = t@.subrange(from as int, t@.len() as int);
            match r {
                Some(v) => all_digits(d) && v == digits_value(d) && v <= 2147483648,
                None => !all_digits(d) || digits_value(d) > 2147483648,
            }
        }),
{
    let n = t.unicode_len();
    let ghost d = t@.subrange(from as int, t@.len() as int);
    let mut acc: u64 = 0;
    let mut i: usize = from;
    while i < n
        invariant
            n == t@.len(),
            from <= i <= n,
            d == t@.subrange(from as int, t@.len() as int),
            all_digits(d.subrange(0, i - from)),
            acc == digits_value(d.subrange(0, i - from)),
            acc <= 2147483648,
        decreases n - i,
    {
        let c = t.get_char(i);
        if c < '0' || c > '9' {
            assert(d[i - from] == c);
            return None;
        }
        let ghost prev = d.subrange(0, i - from);
        let ghost next = d.subrange(0, i - from + 1);
        assert(next.drop_last() =~= prev);
        assert(next.last() == c);
        acc = acc * 10 + (c as u64 - '0' as u64);
        i = i + 1;
        assert(all_digits(next)) by {
            assert forall|j: int| 0 <= j < next.len() implies is_digit(#[trigger] next[j]) by {
                if j < prev.len() {
                    assert(next[j] == prev[j]);
                }
            }
        }
        if acc > 2147483648 {
            proof {
                if all_digits(d) {
                    lemma_digits_value_prefix(d, i - from);
                }
            }
            return None;
        }
    }
    assert(d.subrange(0, i - from) =~= d);
    Some(acc as u32)
}

/// Reads `t` as a 32-bit integer: an optional sign, then digits.
pub fn parse_i32(t: &str) -> (r: Option<i32>)
    ensures
        r == i32_of_text(t@),
{
    let n = t.unicode_len();
    if n == 0 {
        return None;
    }
    let c = t.get_char(0);
    if c == '-' || c == '+' {
        if n == 1 {
            return None;
        }
        match digits_from(t, 1) {
            Some(v) => {
                if c == '-' {
                    Some((-(v as i64)) as i32)
                } else if v <= 2147483647 {
                    Some(v as i32)
                } else {
                    None
                }
            },
            None => None,
        }
    } else {
        let r = digits_from(t, 0);
        assert(t@.subrange(0, t@.len() as int) =~= t@);
        match r {
            Some(v) => {
                if v <= 2147483647 {
                    Some(v as i32)
                } else {
                    None
                }
            },
            None => None,
        }
    }
}

/// The text of the single digit `d`.
fn digit_str(d: u32) -> (r: &'static str)
    requires
        d < 10,
    ensures
        r@ == seq![digit_char(d as nat)],
{
    proof {
        reveal_strlit("0");
        reveal_strlit("1");
        reveal_strlit("2");
        reveal_strlit("3");
        reveal_strlit("4");
        reveal_strlit("5");
        reveal_strlit("6");
        reveal_strlit("7");
        reveal_strlit("8");
        reveal_strlit("9");
    }
    if d == 0 {
        "0"
    } else if d == 1 {
        "1"
    } else if d == 2 {
        "2"
    } else if d == 3 {
        "3"
    } else if d == 4 {
        "4"
    } else if d == 5 {
        "5"
    } else if d == 6 {
        "6"
    } else if d == 7 {
        "7"
    } else if d == 8 {
        "8"
    } else {
        "9"
    }
}

/// Appends the decimal digits of `n` to `out`.
fn push_digits(out: &mut String, n: u32)
    ensures
        final(out)@ == old(out)@ + digits_of(n as nat),
    decreases n,
{
    if n < 10 {
        out.append(digit_str(n));
    } else {
        push_digits(out, n / 10);
        out.append(digit_str(n % 10));
        assert(final(out)@ =~= old(out)@ + digits_of(n as nat));
    }
}

/// The decimal text of `n`.
pub fn int_to_text(n: i32) -> (r: String)
    ensures
        r@ == int_text(n as int),
{
    let mut out = String::new();
    if n < 0 {
        proof {
            reveal_strlit("-");
        }
        out.append("-");
        push_digits(&mut out, (-(n as i64)) as u32);
        assert(out@ =~= int_text(n as int));
    } else {
        push_digits(&mut out, n as u32);
        assert(out@ =~= int_text(n as int));
    }
    out
}

/// The text of the character that the escape `\c` stands for: a piece of `t`, which holds `c`
/// at position `i`, where the escape stands for `c` itself.
fn unescaped<'a>(t: &'a str, i: usize) -> (r: &'a str)
    requires
        i < t@.len(),
    ensures
        r@ == seq![unescape(t@[i as int])],
{
    let n = t.unicode_len();
    let c = t.get_char(i);
    proof {
        reveal_strlit("\t");
        reveal_strlit("\x08");
        reveal_strlit("\n");
        reveal_strlit("\r");
        reveal_strlit("\x0C");
        reveal_strlit("\0");
    }
    if c == 't' {
        "\t"
    } else if c == 'b' {
        "\x08"
    } else if c == 'n' {
        "\n"
    } else if c == 'r' {
        "\r"
    } else if c == 'f' {
        "\x0C"
    } else if c == '0' {
        "\0"
    } else {
        t.substring_char(i, i + 1)
    }
}

/// Decodes the quoted string literal `t`: drops the quotes and replaces each escape.
pub fn decode_string_literal(t: &str) -> (r: String)
    ensures
        r@ == string_literal_value(t@),
{
    let n = t.unicode_len();
    let mut out = String::new();
    let mut i: usize = 1;
    while n > 0 && i < n - 1
        invariant
            n == t@.len(),
            1 <= i,
            n > 0 ==> i <= n,
            out@ + decode_from(t@, i as int) == string_literal_value(t@),
        decreases n - i,
    {
        let c = t.get_char(i);
        if c == '\\' {
            out.append(unescaped(t, i + 1));
            i = i + 2;
        } else {
            out.append(t.substring_char(i, i + 1));
            i = i + 1;
        }
    }
    assert(decode_from(t@, i as int) =~= Seq::<char>::empty());
    assert(out@ =~= out@ + decode_from(t@, i as int));
    out
}

} // verus!
