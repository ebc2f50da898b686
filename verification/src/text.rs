//! Rendering integers as ASCII text, and parsing them back.
use vstd::prelude::*;
use vstd::slice::slice_subrange;
use vstd::string::*;

verus! {

/// The ASCII code of hexadecimal digit `d` (lower case).
pub open spec fn hex_digit_byte(d: int) -> u8 {
    if d < 10 {
        (48 + d) as u8
    } else {
        (87 + d) as u8
    }
}

/// The lowest `n` hexadecimal digits of `v`, most significant first, zero padded.
pub open spec fn hex_bytes(v: nat, n: nat) -> Seq<u8>
    decreases n,
{
    if n == 0 {
        Seq::empty()
    } else {
        hex_bytes(v / 16, (n - 1) as nat).push(hex_digit_byte((v % 16) as int))
    }
}

/// The character of decimal digit `d`.
pub open spec fn digit_char(d: int) -> char {
    (48 + d) as char
}

/// The decimal digits of `v`, most significant first, without leading zeros.
pub open spec fn dec_chars(v: nat) -> Seq<char>
    decreases v,
{
    if v < 10 {
        seq![digit_char(v as int)]
    } else {
        dec_chars(v / 10).push(digit_char((v % 10) as int))
    }
}

/// The decimal text of a signed integer, with a leading `-` when it is negative.
pub open spec fn int_chars(v: int) -> Seq<char> {
    if v < 0 {
        seq!['-'] + dec_chars((-v) as nat)
    } else {
        dec_chars(v as nat)
    }
}

/// The ASCII bytes of a sequence of characters below 128.
pub open spec fn ascii_bytes(s: Seq<char>) -> Seq<u8> {
    s.map_values(|c: char| c as u8)
}

/// push_hex appends the lowest `n` hexadecimal digits of `v` to `out`.
pub fn push_hex(v: u64, n: usize, out: &mut Vec<u8>)
    ensures
        final(out)@ == old(out)@ + hex_bytes(v as nat, n as nat),
    decreases n,
{
    if n == 0 {
        assert(old(out)@ + Seq::<u8>::empty() =~= old(out)@);
        return ;
    }
    push_hex(v / 16, n - 1, out);
    let d = (v % 16) as u8;
    let b: u8 = if d < 10 {
        48 + d
    } else {
        87 + d
    };
    out.push(b);
    assert(final(out)@ =~= old(out)@ + hex_bytes(v as nat, n as nat));
}

/// push_dec appends the decimal digits of `v` to `out`, as ASCII bytes.
pub fn push_dec(v: u64, out: &mut Vec<u8>)
    ensures
        final(out)@ == old(out)@ + ascii_bytes(dec_chars(v as nat)),
    decreases v,
{
    if v < 10 {
        out.push(48 + v as u8);
        assert(final(out)@ =~= old(out)@ + ascii_bytes(dec_chars(v as nat)));
    } else {
        push_dec(v / 10, out);
        out.push(48 + (v % 10) as u8);
        assert(final(out)@ =~= old(out)@ + ascii_bytes(dec_chars(v as nat)));
    }
}

/// push_int appends the decimal text of `v` to `out`, as ASCII bytes, with a leading `-`
/// when it is negative.
pub fn push_int(v: i64, out: &mut Vec<u8>)
    ensures
        final(out)@ == old(out)@ + ascii_bytes(int_chars(v as int)),
{
    if v < 0 {
        out.push(45);
        let m: u64 = ((-(v + 1)) as u64) + 1;
        push_dec(m, out);
        assert(final(out)@ =~= old(out)@ + ascii_bytes(int_chars(v as int)));
    } else {
        push_dec(v as u64, out);
    }
}

/// digit_str returns the one-character text of decimal digit `d`.
pub fn digit_str(d: u64) -> (s: &'static str)
    requires
        d < 10,
    ensures
        s@ == seq![digit_char(d as int)],
{
    proof {
        reveal_strlit("0");
        reveal_strlit("1");
        reveal_strlit("2");
        reveal_strlit("3");
        reveal_strlit("4");
        reveal_strlit("5");
        reveal_strlit("6");
        reveal_strlit("7");
        reveal_strlit("8");
        reveal_strlit("9");
    }
    if d == 0 {
        "0"
    } else if d == 1 {
        "1"
    } else if d == 2 {
        "2"
    } else if d == 3 {
        "3"
    } else if d == 4 {
        "4"
    } else if d == 5 {
        "5"
    } else if d == 6 {
        "6"
    } else if d == 7 {
        "7"
    } else if d == 8 {
        "8"
    } else {
        "9"
    }
}

/// append_u64 appends the decimal text of `v` to `s`.
pub fn append_u64(s: &mut String, v: u64)
    ensures
        final(s)@ == old(s)@ + dec_chars(v as nat),
    decreases v,
{
    if v < 10 {
        s.append(digit_str(v));
    } else {
        append_u64(s, v / 10);
        s.append(digit_str(v % 10));
        assert(final(s)@ =~= old(s)@ + dec_chars(v as nat));
    }
}

/// append_i64 appends the decimal text of `v` to `s`, with a leading `-` when negative.
pub fn append_i64(s: &mut String, v: i64)
    ensures
        final(s)@ == old(s)@ + int_chars(v as int),
{
    if v < 0 {
        proof {
            reveal_strlit("-");
        }
        s.append("-");
        let m: u64 = ((-(v + 1)) as u64) + 1;
        append_u64(s, m);
        assert(final(s)@ =~= old(s)@ + int_chars(v as int));
    } else {
        append_u64(s, v as u64);
    }
}

/// append_i32 appends the decimal text of `v` to `s`, with a leading `-` when negative.
pub fn append_i32(s: &mut String, v: i32)
    ensures
        final(s)@ == old(s)@ + int_chars(v as int),
{
    append_i64(s, v as i64);
}

/// i64_to_string returns the decimal text of `v`.
pub fn i64_to_string(v: i64) -> (s: String)
    ensures
        s@ == int_chars(v as int),
{
    let mut s = String::new();
    append_i64(&mut s, v);
    assert(s@ =~= int_chars(v as int));
    s
}

/// The value of digit `c` in base `radix` (at most 16), when it is one.
pub open spec fn digit_value(c: char, radix: nat) -> Option<nat> {
    let v: int = if '0' <= c && c <= '9' {
        c as int - 48
    } else if 'a' <= c && c <= 'f' {
        c as int - 87
    } else if 'A' <= c && c <= 'F' {
        c as int - 55
    } else {
        16
    };
    if v < radix {
        Some(v as nat)
    } else {
        None
    }
}

/// The value of a non-empty-or-empty run of digits in base `radix`, most significant
/// first; `None` when one of them is not a digit.
pub open spec fn digits_value(s: Seq<char>, radix: nat) -> Option<nat>
    decreases s.len(),
{
    if s.len() == 0 {
        Some(0)
    } else {
        match (digits_value(s.drop_last(), radix), digit_value(s.last(), radix)) {
            (Some(a), Some(d)) => Some(a * radix + d),
            _ => None,
        }
    }
}

/// What `u64::from_str_radix(s, 16)` returns when it succeeds: an optional `+`, then
/// one or more hexadecimal digits whose value fits in 64 bits.
pub open spec fn spec_parse_hex_u64(s: Seq<char>) -> Option<u64> {
    if s.len() == 0 {
        None
    } else {
        let d = if s[0] == '+' {
            s.drop_first()
        } else {
            s
        };
        if d.len() == 0 {
            None
        } else {
            match digits_value(d, 16) {
                Some(v) => if v <= u64::MAX {
                    Some(v as u64)
                } else {
                    None
                },
                None => None,
            }
        }
    }
}

/// What `s.parse::<i64>()` returns when it succeeds: an optional sign, then one or more
/// decimal digits whose signed value fits in 64 bits.
pub open spec fn spec_parse_dec_i64(s: Seq<char>) -> Option<i64> {
    if s.len() == 0 {
        None
    } else {
        let neg = s[0] == '-';
        let d = if s[0] == '+' || s[0] == '-' {
            s.drop_first()
        } else {
            s
        };
        if d.len() == 0 {
            None
        } else {
            match digits_value(d, 10) {
                Some(v) => {
                    let x: int = if neg {
                        -v
                    } else {
                        v as int
                    };
                    if i64::MIN <= x <= i64::MAX {
                        Some(x as i64)
                    } else {
                        None
                    }
                },
                None => None,
            }
        }
    }
}

/// Every prefix of a run of digits is a run of digits, of no greater value.
pub proof fn lemma_digits_prefix(s: Seq<char>, radix: nat, i: int)
    requires
        radix >= 1,
        0 <= i <= s.len(),
        digits_value(s, radix) is Some,
    ensures
        digits_value(s.take(i), radix) is Some,
        digits_value(s.take(i), radix)->0 <= digits_value(s, radix)->0,
    decreases s.len(),
{
    if i == s.len() {
        assert(s.take(i) =~= s);
    } else {
        let p = s.drop_last();
        lemma_digits_prefix(p, radix, i);
        assert(p.take(i) =~= s.take(i));
        let a = digits_value(p, radix)->0;
        let d = digit_value(s.last(), radix)->0;
        assert(a * radix + d >= a) by (nonlinear_arith)
            requires
                radix >= 1,
        ;
    }
}

/// digit_of returns the value of `c` as a digit in base `radix`.
pub fn digit_of(c: char, radix: u32) -> (r: Option<u32>)
    requires
        2 <= radix <= 16,
    ensures
        r matches Some(v) ==> digit_value(c, radix as nat) == Some(v as nat),
        r is None ==> digit_value(c, radix as nat) is None,
{
    let v: u32 = if '0' <= c && c <= '9' {
        (c as u32) - 48
    } else if 'a' <= c && c <= 'f' {
        (c as u32) - 87
    } else if 'A' <= c && c <= 'F' {
        (c as u32) - 55
    } else {
        16
    };
    if v < radix {
        Some(v)
    } else {
        None
    }
}

/// digits_upto accumulates the digits of `d` in base `radix`; it returns `None` when one
/// of them is not a digit or the value exceeds `limit`.
pub fn digits_upto(d: &[char], radix: u32, limit: u128) -> (r: Option<u128>)
    requires
        2 <= radix <= 16,
        limit <= u64::MAX as u128 + 1,
    ensures
        r matches Some(v) ==> digits_value(d@, radix as nat) == Some(v as nat) && v <= limit,
        r is None ==> match digits_value(d@, radix as nat) {
            Some(v) => v > limit,
            None => true,
        },
{
    let mut acc: u128 = 0;
    let mut i: usize = 0;
    assert(d@.take(0) =~= Seq::<char>::empty());
    while i < d.len()
        invariant
            2 <= radix <= 16,
            limit <= u64::MAX as u128 + 1,
            0 <= i <= d@.len(),
            acc <= limit,
            digits_value(d@.take(i as int), radix as nat) == Some(acc as nat),
        decreases d@.len() - i,
    {
        let c = d[i];
        let dv = digit_of(c, radix);
        assert(d@.take(i + 1).drop_last() =~= d@.take(i as int));
        assert(d@.take(i + 1).last() == c);
        match dv {
            None => {
                proof {
                    if digits_value(d@, radix as nat) is Some {
                        lemma_digits_prefix(d@, radix as nat, i + 1);
                    }
                }
                return None;
            },
            Some(x) => {
                assert(x < radix);
                assert(acc * radix <= (u64::MAX as u128 + 1) * 16) by (nonlinear_arith)
                    requires
                        acc <= limit,
                        limit <= u64::MAX as u128 + 1,
                        radix <= 16,
                ;
                let next: u128 = acc * (radix as u128) + (x as u128);
                if next > limit {
                    proof {
                        if digits_value(d@, radix as nat) is Some {
                            lemma_digits_prefix(d@, radix as nat, i + 1);
                        }
                    }
                    return None;
                }
                acc = next;
            },
        }
        i = i + 1;
    }
    assert(d@.take(i as int) =~= d@);
    Some(acc)
}

/// parse_hex_u64 parses `s` as `u64::from_str_radix(s, 16)` does.
pub fn parse_hex_u64(s: &[char]) -> (r: Option<u64>)
    ensures
        r == spec_parse_hex_u64(s@),
{
    if s.len() == 0 {
        return None;
    }
    let start: usize = if s[0] == '+' {
        1
    } else {
        0
    };
    if start == s.len() {
        assert(s@.drop_first().len() == 0);
        return None;
    }
    let d = slice_subrange(s, start, s.len());
    assert(start == 1 ==> d@ =~= s@.drop_first());
    assert(start == 0 ==> d@ =~= s@);
    match digits_upto(d, 16, u64::MAX as u128) {
        Some(v) => Some(v as u64),
        None => None,
    }
}

/// parse_dec_i64 parses `s` as `s.parse::<i64>()` does.
pub fn parse_dec_i64(s: &[char]) -> (r: Option<i64>)
    ensures
        r == spec_parse_dec_i64(s@),
{
    if s.len() == 0 {
        return None;
    }
    let neg = s[0] == '-';
    let start: usize = if s[0] == '+' || s[0] == '-' {
        1
    } else {
        0
    };
    if start == s.len() {
        assert(s@.drop_first().len() == 0);
        return None;
    }
    let d = slice_subrange(s, start, s.len());
    assert(start == 1 ==> d@ =~= s@.drop_first());
    assert(start == 0 ==> d@ =~= s@);
    let limit: u128 = if neg {
        0x8000_0000_0000_0000
    } else {
        0x7fff_ffff_ffff_ffff
    };
    match digits_upto(d, 10, limit) {
        Some(v) => {
            if neg {
                if v == 0x8000_0000_0000_0000 {
                    Some(i64::MIN)
                } else {
                    Some(-(v as i64))
                }
            } else {
                Some(v as i64)
            }
        },
        None => None,
    }
}

/// The pieces of `s` between occurrences of `sep`, as `str::split` yields them.
pub open spec fn split_chars(s: Seq<char>, sep: char) -> Seq<Seq<char>>
    decreases s.len(),
{
    if s.len() == 0 {
        seq![Seq::empty()]
    } else {
        let r = split_chars(s.drop_last(), sep);
        if s.last() == sep {
            r.push(Seq::empty())
        } else {
            r.update(r.len() - 1, r.last().push(s.last()))
        }
    }
}

/// `s` splits into at least one piece, and into more than one exactly when it holds `sep`.
pub proof fn lemma_split_len(s: Seq<char>, sep: char)
    ensures
        split_chars(s, sep).len() >= 1,
        split_chars(s, sep).len() >= 2 <==> s.contains(sep),
    decreases s.len(),
{
    if s.len() > 0 {
        lemma_split_len(s.drop_last(), sep);
        if s.drop_last().contains(sep) {
            let k = choose|k: int| 0 <= k < s.drop_last().len() && s.drop_last()[k] == sep;
            assert(s[k] == sep);
        }
        if s.contains(sep) && !s.drop_last().contains(sep) {
            let k = choose|k: int| 0 <= k < s.len() && s[k] == sep;
            if k < s.len() - 1 {
                assert(s.drop_last()[k] == sep);
            }
        }
        if s.last() == sep {
            assert(s[s.len() - 1] == sep);
        }
    }
}

/// str_chars returns the characters of `s`.
pub fn str_chars(s: &str) -> (r: Vec<char>)
    ensures
        r@ == s@,
{
    let n = s.unicode_len();
    let mut r: Vec<char> = Vec::new();
    let mut i: usize = 0;
    while i < n
        invariant
            n == s@.len(),
            i <= n,
            r@ =~= s@.take(i as int),
        decreases n - i,
    {
        r.push(s.get_char(i));
        i = i + 1;
    }
    r
}

/// split_on returns the pieces of `s` between occurrences of `sep`.
pub fn split_on(s: &[char], sep: char) -> (r: Vec<Vec<char>>)
    ensures
        r@.map_values(|v: Vec<char>| v@) == split_chars(s@, sep),
{
    let mut done: Vec<Vec<char>> = Vec::new();
    let mut cur: Vec<char> = Vec::new();
    let mut i: usize = 0;
    assert(s@.take(0) =~= Seq::<char>::empty());
    while i < s.len()
        invariant
            i <= s@.len(),
            split_chars(s@.take(i as int), sep) =~= done@.map_values(|v: Vec<char>| v@).push(cur@),
        decreases s@.len() - i,
    {
        let c = s[i];
        assert(s@.take(i + 1).drop_last() =~= s@.take(i as int));
        assert(s@.take(i + 1).last() == c);
        if c == sep {
            let prev = cur;
            cur = Vec::new();
            done.push(prev);
        } else {
            cur.push(c);
        }
        i = i + 1;
    }
    assert(s@.take(s@.len() as int) =~= s@);
    done.push(cur);
    done
}

} // verus!
