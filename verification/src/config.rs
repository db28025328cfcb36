//! Validated run configuration, parsed from the command surface's plain
//! byte-string arguments: a noise color name (matched without regard to
//! ASCII case), a duration in whole seconds, and an output file name.

use crate::noise::NoiseColor;
use vstd::prelude::*;

verus! {

/// Why a requested configuration was rejected.
#[derive(Clone, Copy, PartialEq, Eq, Structural, Debug)]
pub enum ConfigError {
    /// Fewer than four arguments (program name included).
    NotEnoughArgs,
    /// The first argument names no noise color.
    InvalidNoiseType,
    /// The second argument is no decimal duration in range.
    InvalidDuration,
}

/// ASCII lowercasing of one byte: 'A'..'Z' moved to 'a'..'z'.
pub open spec fn lower_byte(c: u8) -> u8 {
    if 65 <= c && c <= 90 {
        (c + 32) as u8
    } else {
        c
    }
}

/// ASCII lowercasing of a whole byte string.
pub open spec fn lower_bytes(s: Seq<u8>) -> Seq<u8> {
    s.map_values(|c: u8| lower_byte(c))
}

/// The bytes of "white".
pub open spec fn white_name() -> Seq<u8> {
    seq![119u8, 104u8, 105u8, 116u8, 101u8]
}

/// The bytes of "pink".
pub open spec fn pink_name() -> Seq<u8> {
    seq![112u8, 105u8, 110u8, 107u8]
}

/// The bytes of "brown".
pub open spec fn brown_name() -> Seq<u8> {
    seq![98u8, 114u8, 111u8, 119u8, 110u8]
}

/// The color a name denotes, compared without regard to ASCII case; `None`
/// for any other spelling.
pub open spec fn color_of_name(s: Seq<u8>) -> Option<NoiseColor> {
    if lower_bytes(s) == white_name() {
        Some(NoiseColor::White)
    } else if lower_bytes(s) == pink_name() {
        Some(NoiseColor::Pink)
    } else if lower_bytes(s) == brown_name() {
        Some(NoiseColor::Brown)
    } else {
        None
    }
}

/// An ASCII decimal digit.
pub open spec fn is_digit(c: u8) -> bool {
    48 <= c && c <= 57
}

/// The value of a digit string read in base 10, most significant first.
pub open spec fn digits_value(s: Seq<u8>) -> int
    decreases s.len(),
{
    if s.len() == 0 {
        0
    } else {
        digits_value(s.drop_last()) * 10 + (s.last() - 48)
    }
}

/// The digit part of a decimal numeral: an optional leading '+' stripped.
pub open spec fn numeral_digits(s: Seq<u8>) -> Seq<u8> {
    if s.len() > 0 && s[0] == 43 {
        s.drop_first()
    } else {
        s
    }
}

/// A spelling of a `u32`: an optional leading '+', then one or more decimal
/// digits, denoting a value that fits.
pub open spec fn is_u32_numeral(s: Seq<u8>) -> bool {
    let d = numeral_digits(s);
    &&& d.len() > 0
    &&& forall|i: int| 0 <= i < d.len() ==> is_digit(#[trigger] d[i])
    &&& digits_value(d) <= u32::MAX
}

/// A digit string's value is never negative.
proof fn lemma_digits_value_nonneg(d: Seq<u8>)
    requires
        forall|i: int| 0 <= i < d.len() ==> is_digit(#[trigger] d[i]),
    ensures
        digits_value(d) >= 0,
    decreases d.len(),
{
    if d.len() > 0 {
        lemma_digits_value_nonneg(d.drop_last());
    }
}

/// Reading more digits never shrinks a digit string's value.
proof fn lemma_digits_value_prefix(d: Seq<u8>, k: int)
    requires
        0 <= k <= d.len(),
        forall|i: int| 0 <= i < d.len() ==> is_digit(#[trigger] d[i]),
    ensures
        digits_value(d) >= digits_value(d.take(k)),
    decreases d.len() - k,
{
    lemma_digits_value_nonneg(d.take(k));
    if k < d.len() {
        lemma_digits_value_prefix(d, k + 1);
        assert(d.take(k + 1).drop_last() =~= d.take(k));
        assert(digits_value(d.take(k + 1)) == digits_value(d.take(k)) * 10 + (d[k] - 48));
    } else {
        assert(d.take(k) =~= d);
    }
}

fn lower_byte_x(c: u8) -> (r: u8)
    ensures
        r == lower_byte(c),
{
    if c >= 65 && c <= 90 {
        c + 32
    } else {
        c
    }
}

/// Does the name, lowered, spell exactly the target?
fn matches_lowered(name: &Vec<u8>, target: &Vec<u8>) -> (r: bool)
    ensures
        r == (lower_bytes(name@) == target@),
{
    if name.len() != target.len() {
        proof {
            assert(lower_bytes(name@).len() == name@.len());
        }
        return false;
    }
    let n = name.len();
    let mut i: usize = 0;
    while i < n
        invariant
            i <= n,
            name@.len() == n,
            target@.len() == n,
            forall|j: int| 0 <= j < i ==> lower_byte(name@[j]) == target@[j],
        decreases n - i,
    {
        if lower_byte_x(name[i]) != target[i] {
            proof {
                assert(lower_bytes(name@)[i as int] != target@[i as int]);
            }
            return false;
        }
        i = i + 1;
    }
    proof {
        assert(lower_bytes(name@) =~= target@);
    }
    true
}

/// Parses a noise color name, without regard to ASCII case.
pub fn parse_noise_color(name: &Vec<u8>) -> (r: Option<NoiseColor>)
    ensures
        r == color_of_name(name@),
{
    let mut white: Vec<u8> = Vec::new();
    white.push(119);
    white.push(104);
    white.push(105);
    white.push(116);
    white.push(101);
    proof {
        assert(white@ =~= white_name());
    }
    if matches_lowered(name, &white) {
        return Some(NoiseColor::White);
    }
    let mut pink: Vec<u8> = Vec::new();
    pink.push(112);
    pink.push(105);
    pink.push(110);
    pink.push(107);
    proof {
        assert(pink@ =~= pink_name());
    }
    if matches_lowered(name, &pink) {
        return Some(NoiseColor::Pink);
    }
    let mut brown: Vec<u8> = Vec::new();
    brown.push(98);
    brown.push(114);
    brown.push(111);
    brown.push(119);
    brown.push(110);
    proof {
        assert(brown@ =~= brown_name());
    }
    if matches_lowered(name, &brown) {
        return Some(NoiseColor::Brown);
    }
    None
}

/// Parses a decimal `u32`: an optional leading '+', then digits. `None`
/// exactly when the spelling is malformed or the value does not fit.
pub fn parse_u32(s: &Vec<u8>) -> (r: Option<u32>)
    ensures
        match r {
            Some(v) => is_u32_numeral(s@) && v == digits_value(numeral_digits(s@)),
            None => !is_u32_numeral(s@),
        },
{
    let mut start: usize = 0;
    if s.len() > 0 && s[0] == 43 {
        start = 1;
    }
    proof {
        assert(numeral_digits(s@) =~= s@.skip(start as int));
    }
    if s.len() == start {
        return None;
    }
    let ghost d = numeral_digits(s@);
    let n = s.len();
    let mut acc: u64 = 0;
    let mut i: usize = start;
    while i < n
        invariant
            start <= i <= n,
            s@.len() == n,
            start <= 1,
            d == numeral_digits(s@),
            d == s@.skip(start as int),
            d.len() == n - start,
            forall|j: int| 0 <= j < i - start ==> is_digit(#[trigger] d[j]),
            acc == digits_value(d.take(i - start)),
            acc <= u32::MAX,
        decreases n - i,
    {
        let c = s[i];
        if c < 48 || c > 57 {
            proof {
                assert(!is_digit(d[i - start]));
            }
            return None;
        }
        let dig = (c - 48) as u64;
        let na = acc * 10 + dig;
        proof {
            assert(d.take(i - start + 1).drop_last() =~= d.take(i - start));
            assert(d.take(i - start + 1).last() == d[i - start]);
            assert(na == digits_value(d.take(i - start + 1)));
        }
        if na > 0xFFFF_FFFF {
            proof {
                if forall|j: int| 0 <= j < d.len() ==> is_digit(#[trigger] d[j]) {
                    lemma_digits_value_prefix(d, i - start + 1);
                }
            }
            return None;
        }
        acc = na;
        i = i + 1;
    }
    proof {
        assert(d.take(n - start) =~= d);
    }
    Some(acc as u32)
}

/// The validated run configuration: noise color, duration in whole seconds,
/// output file name.
#[derive(Debug)]
pub struct Config {
    pub noise_type: NoiseColor,
    pub duration_sec: u32,
    pub filename: Vec<u8>,
}

impl Config {
    /// Parses the command surface's arguments (program name first). Each
    /// rejection names the first argument at fault, in argument order.
    pub fn new(args: &Vec<Vec<u8>>) -> (r: Result<Config, ConfigError>)
        ensures
            match r {
                Ok(c) => {
                    &&& args@.len() >= 4
                    &&& Some(c.noise_type) == color_of_name(args@[1]@)
                    &&& is_u32_numeral(args@[2]@)
                    &&& c.duration_sec == digits_value(numeral_digits(args@[2]@))
                    &&& c.filename@ == args@[3]@
                },
                Err(ConfigError::NotEnoughArgs) => args@.len() < 4,
                Err(ConfigError::InvalidNoiseType) => args@.len() >= 4 && color_of_name(
                    args@[1]@,
                ) is None,
                Err(ConfigError::InvalidDuration) => {
                    &&& args@.len() >= 4
                    &&& color_of_name(args@[1]@) is Some
                    &&& !is_u32_numeral(args@[2]@)
                },
            },
    {
        if args.len() < 4 {
            return Err(ConfigError::NotEnoughArgs);
        }
        let noise_type = match parse_noise_color(&args[1]) {
            Some(c) => c,
            None => {
                return Err(ConfigError::InvalidNoiseType);
            },
        };
        let duration_sec = match parse_u32(&args[2]) {
            Some(v) => v,
            None => {
                return Err(ConfigError::InvalidDuration);
            },
        };
        let filename = copy_bytes(&args[3]);
        Ok(Config { noise_type, duration_sec, filename })
    }
}

/// A fresh copy of a byte string.
pub fn copy_bytes(s: &Vec<u8>) -> (r: Vec<u8>)
    ensures
        r@ == s@,
{
    let mut r: Vec<u8> = Vec::new();
    let n = s.len();
    let mut i: usize = 0;
    while i < n
        invariant
            i <= n,
            s@.len() == n,
            r@ == s@.take(i as int),
        decreases n - i,
    {
        r.push(s[i]);
        proof {
            assert(s@.take(i + 1) =~= s@.take(i as int).push(s@[i as int]));
        }
        i = i + 1;
    }
    proof {
        assert(s@.take(n as int) =~= s@);
    }
    r
}

} // verus!
