use vstd::prelude::*;
use vstd::string::StringSliceAdditionalSpecFns;

verus! {

/// Where the discovery walk starts, and how deep a repository root must lie.
pub struct Settings {
    pub base_dir: String,
    pub min_depth: Option<usize>,
}

/// Why a configuration could not be formed.
#[derive(Debug, Clone, Copy, PartialEq, Eq, Structural)]
pub enum ConfigError {
    /// The base directory was not given.
    MissingBaseDir,
    /// The minimum depth is not a non-negative integer that fits in `usize`.
    InvalidMinDepth,
}

/// ASCII `0`.
pub const DIGIT_ZERO: u8 = 48;

/// ASCII `9`.
pub const DIGIT_NINE: u8 = 57;

/// ASCII `+`.
pub const PLUS_SIGN: u8 = 43;

pub open spec fn is_digit(b: u8) -> bool {
    DIGIT_ZERO <= b <= DIGIT_NINE
}

pub open spec fn all_digits(d: Seq<u8>) -> bool {
    forall|i: int| 0 <= i < d.len() ==> is_digit(#[trigger] d[i])
}

/// Value of a sequence of decimal digits, most significant first.
pub open spec fn digits_value(s: Seq<u8>) -> nat
    decreases s.len(),
{
    if s.len() == 0 {
        0
    } else {
        digits_value(s.drop_last()) * 10 + (s.last() - DIGIT_ZERO) as nat
    }
}

/// The digits of a depth text: an optional leading `+` is not part of them.
pub open spec fn depth_digits(s: Seq<u8>) -> Seq<u8> {
    if s.len() > 0 && s[0] == PLUS_SIGN {
        s.drop_first()
    } else {
        s
    }
}

/// The number a depth text denotes, if it is one: one or more decimal digits,
/// after an optional `+`.
pub open spec fn depth_text_value(s: Seq<u8>) -> Option<nat> {
    if depth_digits(s).len() > 0 && all_digits(depth_digits(s)) {
        Some(digits_value(depth_digits(s)))
    } else {
        None
    }
}

/// What a depth text parses to as a `usize`: `None` where it is no number or
/// the number does not fit.
pub open spec fn parsed_depth(s: Seq<u8>) -> Option<usize> {
    match depth_text_value(s) {
        Some(v) => if v <= usize::MAX {
            Some(v as usize)
        } else {
            None
        },
        None => None,
    }
}

/// Parses a decimal minimum depth, as `usize::from_str` reads one.
pub fn parse_depth(text: &str) -> (r: Option<usize>)
    ensures
        r == parsed_depth(text.spec_bytes()),
{
    let b = text.as_bytes();
    let ghost s = b@;
    let n = b.len();
    let mut start: usize = 0;
    if n > 0 && b[0] == PLUS_SIGN {
        start = 1;
    }
    let ghost d = depth_digits(s);
    assert(d =~= s.subrange(start as int, n as int));
    if start >= n {
        return None;
    }
    let mut value: usize = 0;
    let mut i: usize = start;
    while i < n
        invariant
            start <= i <= n,
            n == s.len(),
            b@ == s,
            d =~= s.subrange(start as int, n as int),
            d == depth_digits(s),
            s == text.spec_bytes(),
            forall|k: int| start <= k < i ==> is_digit(#[trigger] s[k]),
            value as nat == digits_value(s.subrange(start as int, i as int)),
        decreases n - i,
    {
        let c = b[i];
        if c < DIGIT_ZERO || c > DIGIT_NINE {
            assert(d[i - start] == s[i as int]);
            assert(!is_digit(d[i - start]));
            assert(!all_digits(d));
            return None;
        }
        let digit = (c - DIGIT_ZERO) as usize;
        let ghost prefix = s.subrange(start as int, i as int + 1);
        assert(prefix.drop_last() =~= s.subrange(start as int, i as int));
        if value > (usize::MAX - digit) / 10 {
            assert(digits_value(prefix) > usize::MAX) by (nonlinear_arith)
                requires
                    digits_value(prefix) == value * 10 + digit,
                    value > (usize::MAX - digit) / 10,
                    digit <= 9,
            ;
            proof {
                if all_digits(d) {
                    lemma_digits_value_grows(d, (i - start + 1) as int);
                    assert(d.subrange(0, (i - start + 1) as int) =~= prefix);
                }
            }
            assert(parsed_depth(s) is None);
            return None;
        }
        assert(value * 10 + digit <= usize::MAX) by (nonlinear_arith)
            requires
                value <= (usize::MAX - digit) / 10,
                digit <= 9,
        ;
        value = value * 10 + digit;
        i = i + 1;
    }
    assert(s.subrange(start as int, n as int) =~= d);
    assert(all_digits(d));
    Some(value)
}

/// A longer run of digits never has a smaller value than its prefix.
proof fn lemma_digits_value_grows(d: Seq<u8>, k: int)
    requires
        0 <= k <= d.len(),
        forall|i: int| 0 <= i < d.len() ==> is_digit(#[trigger] d[i]),
    ensures
        digits_value(d.subrange(0, k)) <= digits_value(d),
    decreases d.len() - k,
{
    if k < d.len() {
        lemma_digits_value_grows(d, k + 1);
        assert(d.subrange(0, k + 1).drop_last() =~= d.subrange(0, k));
    } else {
        assert(d.subrange(0, k) =~= d);
    }
}

impl Settings {
    /// Forms the settings from the text of the two configuration values:
    /// the base directory, which is required, and the minimum depth, which
    /// is optional but must be a non-negative integer where it is given.
    pub fn from_vars(base_dir: Option<String>, min_depth: Option<&str>) -> (r: Result<
        Settings,
        ConfigError,
    >)
        ensures
            base_dir is None ==> r == Err::<Settings, ConfigError>(ConfigError::MissingBaseDir),
            base_dir is Some && min_depth is Some && parsed_depth(
                min_depth->0.spec_bytes(),
            ) is None ==> r == Err::<Settings, ConfigError>(ConfigError::InvalidMinDepth),
            r is Ok <==> base_dir is Some && (min_depth is None || parsed_depth(
                min_depth->0.spec_bytes(),
            ) is Some),
            r is Ok ==> r->Ok_0.base_dir@ == base_dir->0@,
            r is Ok ==> r->Ok_0.min_depth == match min_depth {
                Some(t) => parsed_depth(t.spec_bytes()),
                None => None,
            },
    {
        let base_dir = match base_dir {
            Some(d) => d,
            None => return Err(ConfigError::MissingBaseDir),
        };
        let min_depth = match min_depth {
            Some(t) => match parse_depth(t) {
                Some(v) => Some(v),
                None => return Err(ConfigError::InvalidMinDepth),
            },
            None => None,
        };
        Ok(Settings { base_dir, min_depth })
    }
}

} // verus!
