//! Rendering and parsing of numerals.
//!
//! The client renders arbitrary unsigned integers in decimal (for the
//! serialised confidence and for RPC payloads) and decodes block numbers
//! from the hex-prefixed strings carried by header notifications.

use vstd::prelude::*;
use vstd::string::*;

verus! {

/// The decimal digit character for a value in `[0, 10)`.
pub open spec fn dec_digit(d: int) -> char {
    if d == 0 {
        '0'
    } else if d == 1 {
        '1'
    } else if d == 2 {
        '2'
    } else if d == 3 {
        '3'
    } else if d == 4 {
        '4'
    } else if d == 5 {
        '5'
    } else if d == 6 {
        '6'
    } else if d == 7 {
        '7'
    } else if d == 8 {
        '8'
    } else {
        '9'
    }
}

/// The decimal rendering of `n`, most significant digit first, with no
/// leading zeroes (except for `n == 0`, rendered as `"0"`).
pub open spec fn spec_decimal(n: nat) -> Seq<char>
    decreases n,
{
    if n < 10 {
        seq![dec_digit(n as int)]
    } else {
        spec_decimal(n / 10) + seq![dec_digit((n % 10) as int)]
    }
}

/// The single-character string for a decimal digit.
fn dec_digit_str(d: u128) -> (s: &'static str)
    requires
        d < 10,
    ensures
        s@ =~= seq![dec_digit(d as int)],
{
    proof {
        reveal_strlit("0");
        reveal_strlit("1");
        reveal_strlit("2");
        reveal_strlit("3");
        reveal_strlit("4");
        reveal_strlit("5");
        reveal_strlit("6");
        reveal_strlit("7");
        reveal_strlit("8");
        reveal_strlit("9");
    }
    match d {
        0 => "0",
        1 => "1",
        2 => "2",
        3 => "3",
        4 => "4",
        5 => "5",
        6 => "6",
        7 => "7",
        8 => "8",
        _ => "9",
    }
}

/// Appends the decimal rendering of `n` to `out`.
fn append_decimal(n: u128, out: &mut String)
    ensures
        final(out)@ == old(out)@ + spec_decimal(n as nat),
    decreases n,
{
    if n >= 10 {
        append_decimal(n / 10, out);
    }
    let s = dec_digit_str(n % 10);
    out.append(s);
    proof {
        if n < 10 {
            assert(final(out)@ =~= old(out)@ + spec_decimal(n as nat));
        } else {
            assert(final(out)@ =~= old(out)@ + spec_decimal(n as nat));
        }
    }
}

/// Renders `n` in decimal, most significant digit first.
pub fn decimal_string(n: u128) -> (s: String)
    ensures
        s@ == spec_decimal(n as nat),
{
    let mut out = String::new();
    append_decimal(n, &mut out);
    proof {
        assert(out@ =~= spec_decimal(n as nat));
    }
    out
}

/// The value of a hex digit character, or `-1` for any other character.
/// Both letter cases are accepted.
pub open spec fn hex_digit_value(c: char) -> int {
    let v = c as int;
    if '0' as int <= v <= '9' as int {
        v - '0' as int
    } else if 'a' as int <= v <= 'f' as int {
        10 + v - 'a' as int
    } else if 'A' as int <= v <= 'F' as int {
        10 + v - 'A' as int
    } else {
        -1
    }
}

pub open spec fn is_hex_digit(c: char) -> bool {
    hex_digit_value(c) >= 0
}

pub open spec fn all_hex_digits(s: Seq<char>) -> bool {
    forall|i: int| 0 <= i < s.len() ==> is_hex_digit(#[trigger] s[i])
}

/// The value of a sequence of hex digits, most significant digit first.
pub open spec fn spec_hex_value(s: Seq<char>) -> int
    decreases s.len(),
{
    if s.len() == 0 {
        0
    } else {
        spec_hex_value(s.drop_last()) * 16 + hex_digit_value(s.last())
    }
}

/// Every repetition of the prefix `"0x"` removed from the front of `s`.
pub open spec fn strip_hex_prefix(s: Seq<char>) -> Seq<char>
    decreases s.len(),
{
    if s.len() >= 2 && s[0] == '0' && s[1] == 'x' {
        strip_hex_prefix(s.skip(2))
    } else {
        s
    }
}

/// The value of a hex-digit sequence only grows as digits are appended.
proof fn lemma_hex_value_nonneg(s: Seq<char>)
    requires
        all_hex_digits(s),
    ensures
        spec_hex_value(s) >= 0,
    decreases s.len(),
{
    if s.len() > 0 {
        assert(all_hex_digits(s.drop_last()));
        lemma_hex_value_nonneg(s.drop_last());
    }
}

/// The value of any prefix is a lower bound on the value of the whole.
proof fn lemma_hex_value_prefix_bound(s: Seq<char>, i: int)
    requires
        all_hex_digits(s),
        0 <= i <= s.len(),
    ensures
        spec_hex_value(s) >= spec_hex_value(s.take(i)),
    decreases s.len() - i,
{
    if i < s.len() {
        lemma_hex_value_prefix_bound(s, i + 1);
        assert(all_hex_digits(s.take(i)));
        lemma_hex_value_nonneg(s.take(i));
        assert(s.take(i + 1).drop_last() =~= s.take(i));
        assert(s.take(i + 1).last() == s[i]);
    } else {
        assert(s.take(i) =~= s);
    }
}

/// Decodes a block number from a hex string, tolerating (and stripping)
/// any number of leading `"0x"` prefixes, exactly as the ingestion feed
/// presents block numbers. Returns the value precisely when what remains
/// after stripping is a non-empty run of hex digits whose value fits in 64
/// bits; anything else is a parse failure.
pub fn parse_block_number(s: &str) -> (r: Option<u64>)
    ensures
        ({
            let t = strip_hex_prefix(s@);
            match r {
                Some(v) => t.len() > 0 && all_hex_digits(t) && spec_hex_value(t) == v,
                None => t.len() == 0 || !all_hex_digits(t) || spec_hex_value(t) > u64::MAX,
            }
        }),
{
    let n = s.unicode_len();
    let mut idx: usize = 0;
    proof {
        assert(s@.skip(0) =~= s@);
    }
    while idx < n && idx + 1 < n && s.get_char(idx) as u32 == 48 && s.get_char(idx + 1) as u32
        == 120
        invariant
            idx <= n,
            n == s@.len(),
            strip_hex_prefix(s@) == strip_hex_prefix(s@.skip(idx as int)),
        decreases n - idx,
    {
        proof {
            let t = s@.skip(idx as int);
            assert(t[0] == s@[idx as int]);
            assert(t[1] == s@[idx as int + 1]);
            assert(t[0] as u32 == 48 && t[1] as u32 == 120);
            assert(t[0] == '0' && t[1] == 'x');
            assert(strip_hex_prefix(t) == strip_hex_prefix(t.skip(2)));
            assert(t.skip(2) =~= s@.skip(idx as int + 2));
        }
        idx = idx + 2;
    }
    proof {
        let t = s@.skip(idx as int);
        assert(!(t.len() >= 2 && t[0] == '0' && t[1] == 'x'));
        assert(strip_hex_prefix(t) == t);
    }
    if idx == n {
        return None;
    }
    let ghost t = strip_hex_prefix(s@);
    let mut value: u64 = 0;
    let mut i: usize = idx;
    while i < n
        invariant
            idx <= i <= n,
            n == s@.len(),
            idx < n,
            t == strip_hex_prefix(s@),
            t == s@.skip(idx as int),
            all_hex_digits(t.take(i - idx)),
            value == spec_hex_value(t.take(i - idx)),
        decreases n - i,
    {
        let c = s.get_char(i) as u32;
        let d: u64 = if c >= 48 && c <= 57 {
            (c - 48) as u64
        } else if c >= 97 && c <= 102 {
            (c - 97 + 10) as u64
        } else if c >= 65 && c <= 70 {
            (c - 65 + 10) as u64
        } else {
            proof {
                assert(t[i - idx] == s@[i as int]);
                assert(!is_hex_digit(t[i - idx]));
            }
            return None;
        };
        proof {
            assert(t[i - idx] == s@[i as int]);
            assert(hex_digit_value(t[i - idx]) == d);
            assert(t.take(i - idx + 1).drop_last() =~= t.take(i - idx));
            assert(t.take(i - idx + 1).last() == t[i - idx]);
        }
        if value > 0x0FFF_FFFF_FFFF_FFFF {
            proof {
                assert(spec_hex_value(t.take(i - idx + 1)) > u64::MAX);
                if all_hex_digits(t) {
                    lemma_hex_value_prefix_bound(t, i - idx + 1);
                }
            }
            return None;
        }
        value = value * 16 + d;
        i = i + 1;
    }
    proof {
        assert(t.take(i - idx) =~= t);
    }
    Some(value)
}

} // verus!
