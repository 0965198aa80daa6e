//! The query endpoint's route.
//!
//! The only route the service answers is `/v1/confidence/<block>`, where
//! `<block>` is a run of decimal digits. Anything else — another path, a
//! trailing slash, digits that overflow a 64-bit block number — is not a
//! recognised confidence query.

use vstd::prelude::*;
use vstd::string::*;

verus! {

/// The value of a decimal digit character, or `-1` for any other
/// character.
pub open spec fn dec_digit_value(c: char) -> int {
    let v = c as int;
    if '0' as int <= v <= '9' as int {
        v - '0' as int
    } else {
        -1
    }
}

pub open spec fn is_dec_digit(c: char) -> bool {
    dec_digit_value(c) >= 0
}

pub open spec fn all_dec_digits(s: Seq<char>) -> bool {
    forall|i: int| 0 <= i < s.len() ==> is_dec_digit(#[trigger] s[i])
}

/// The value of a sequence of decimal digits, most significant first.
pub open spec fn spec_dec_value(s: Seq<char>) -> int
    decreases s.len(),
{
    if s.len() == 0 {
        0
    } else {
        spec_dec_value(s.drop_last()) * 10 + dec_digit_value(s.last())
    }
}

/// The fixed prefix of the confidence route.
pub open spec fn spec_route_prefix() -> Seq<char> {
    "/v1/confidence/"@
}

/// The path names a confidence query: the fixed prefix followed by at
/// least one decimal digit and nothing else.
pub open spec fn route_matches(path: Seq<char>) -> bool {
    path.len() > 15 && path.take(15) == spec_route_prefix() && all_dec_digits(path.skip(15))
}

proof fn lemma_dec_value_nonneg(s: Seq<char>)
    requires
        all_dec_digits(s),
    ensures
        spec_dec_value(s) >= 0,
    decreases s.len(),
{
    if s.len() > 0 {
        assert(all_dec_digits(s.drop_last()));
        lemma_dec_value_nonneg(s.drop_last());
    }
}

/// The value of any prefix of a digit run bounds the value of the whole
/// run from below.
proof fn lemma_dec_value_prefix_bound(s: Seq<char>, i: int)
    requires
        all_dec_digits(s),
        0 <= i <= s.len(),
    ensures
        spec_dec_value(s) >= spec_dec_value(s.take(i)),
    decreases s.len() - i,
{
    if i < s.len() {
        lemma_dec_value_prefix_bound(s, i + 1);
        assert(all_dec_digits(s.take(i)));
        lemma_dec_value_nonneg(s.take(i));
        assert(s.take(i + 1).drop_last() =~= s.take(i));
        assert(s.take(i + 1).last() == s[i]);
    } else {
        assert(s.take(i) =~= s);
    }
}

/// The path is not a confidence query, or its block number does not fit
/// 64 bits.
#[derive(Debug, PartialEq, Eq, Clone, Copy)]
pub enum RouteError {
    NoMatch,
    BlockOutOfRange,
}

/// The character at position `i` of the route prefix.
fn route_prefix_char(i: usize) -> (c: char)
    requires
        i < 15,
    ensures
        c == spec_route_prefix()[i as int],
{
    proof {
        reveal_strlit("/v1/confidence/");
    }
    match i {
        0 => '/',
        1 => 'v',
        2 => '1',
        3 => '/',
        4 => 'c',
        5 => 'o',
        6 => 'n',
        7 => 'f',
        8 => 'i',
        9 => 'd',
        10 => 'e',
        11 => 'n',
        12 => 'c',
        13 => 'e',
        _ => '/',
    }
}

/// Extracts the block number from a request path. The number is returned
/// exactly when the path is the confidence route for a block that fits 64
/// bits; a path that is no confidence route at all is distinguished from
/// one whose digits overflow.
pub fn match_url(path: &str) -> (r: Result<u64, RouteError>)
    ensures
        match r {
            Ok(v) => route_matches(path@) && spec_dec_value(path@.skip(15)) == v,
            Err(RouteError::NoMatch) => !route_matches(path@),
            Err(RouteError::BlockOutOfRange) => route_matches(path@) && spec_dec_value(
                path@.skip(15),
            ) > u64::MAX,
        },
{
    let n = path.unicode_len();
    proof {
        reveal_strlit("/v1/confidence/");
    }
    if n <= 15 {
        return Err(RouteError::NoMatch);
    }
    let mut i: usize = 0;
    while i < 15
        invariant
            n == path@.len(),
            n > 15,
            i <= 15,
            forall|k: int| 0 <= k < i ==> path@[k] == spec_route_prefix()[k],
        decreases 15 - i,
    {
        let c = path.get_char(i);
        let e = route_prefix_char(i);
        if c != e {
            proof {
                reveal_strlit("/v1/confidence/");
                assert(path@.take(15)[i as int] == path@[i as int]);
            }
            return Err(RouteError::NoMatch);
        }
        i = i + 1;
    }
    proof {
        assert(spec_route_prefix().len() == 15);
        assert(path@.take(15) =~= spec_route_prefix());
    }
    let mut j: usize = 15;
    while j < n
        invariant
            n == path@.len(),
            n > 15,
            15 <= j <= n,
            path@.take(15) == spec_route_prefix(),
            forall|k: int| 15 <= k < j ==> is_dec_digit(#[trigger] path@[k]),
        decreases n - j,
    {
        let c = path.get_char(j) as u32;
        if c < 48 || c > 57 {
            proof {
                assert(path@.skip(15)[j - 15] == path@[j as int]);
                assert(!is_dec_digit(path@[j as int]));
            }
            return Err(RouteError::NoMatch);
        }
        j = j + 1;
    }
    let ghost t = path@.skip(15);
    proof {
        assert forall|k: int| 0 <= k < t.len() implies is_dec_digit(#[trigger] t[k]) by {
            assert(t[k] == path@[k + 15]);
        }
        assert(all_dec_digits(t));
        assert(route_matches(path@));
    }
    let mut value: u64 = 0;
    let mut k: usize = 15;
    while k < n
        invariant
            n == path@.len(),
            n > 15,
            15 <= k <= n,
            t == path@.skip(15),
            all_dec_digits(t),
            route_matches(path@),
            value == spec_dec_value(t.take(k - 15)),
        decreases n - k,
    {
        let c = path.get_char(k) as u32;
        proof {
            assert(t[k - 15] == path@[k as int]);
            assert(is_dec_digit(t[k - 15]));
        }
        let d: u64 = (c - 48) as u64;
        proof {
            assert(dec_digit_value(t[k - 15]) == d);
            assert(t.take(k - 15 + 1).drop_last() =~= t.take(k - 15));
            assert(t.take(k - 15 + 1).last() == t[k - 15]);
        }
        if value > 1844674407370955161 || (value == 1844674407370955161 && d > 5) {
            proof {
                assert(spec_dec_value(t.take(k - 15 + 1)) > u64::MAX);
                lemma_dec_value_prefix_bound(t, k - 15 + 1);
            }
            return Err(RouteError::BlockOutOfRange);
        }
        value = value * 10 + d;
        k = k + 1;
    }
    proof {
        assert(t.take(k - 15) =~= t);
    }
    Ok(value)
}

} // verus!
