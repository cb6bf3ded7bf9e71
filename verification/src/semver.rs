//! Semantic versions: parsing and rendering of decimal components, and
//! the bump arithmetic applied by the version operation.

use vstd::prelude::*;
use vstd::string::StrSliceExecFns;
use vstd::string::StringExecFns;
use vstd::arithmetic::div_mod::lemma_fundamental_div_mod;

verus! {

/// A semantic version: a triple of non-negative integer components.
#[derive(Clone, Copy, PartialEq, Eq, Structural, Debug)]
pub struct Version {
    pub major: u64,
    pub minor: u64,
    pub patch: u64,
}

/// The kind of version bump recorded for a package.
#[derive(Clone, Copy, PartialEq, Eq, Structural, Debug)]
pub enum BumpKind {
    Major,
    Minor,
    Patch,
}

/// Whether `c` is a decimal digit.
pub open spec fn is_digit(c: char) -> bool {
    '0' <= c <= '9'
}

/// The value of a decimal digit.
pub open spec fn digit_val(c: char) -> nat
    recommends
        is_digit(c),
{
    (c as nat - '0' as nat) as nat
}

/// Whether `s` is a non-empty run of decimal digits.
pub open spec fn is_digits(s: Seq<char>) -> bool {
    s.len() >= 1 && forall|i: int| 0 <= i < s.len() ==> is_digit(#[trigger] s[i])
}

/// The number denoted by a run of decimal digits.
pub open spec fn spec_digits_val(s: Seq<char>) -> nat
    decreases s.len(),
{
    if s.len() == 0 {
        0
    } else {
        10 * spec_digits_val(s.drop_last()) + digit_val(s.last())
    }
}

/// The value of a digit run is at least the value of any of its prefixes.
proof fn lemma_digits_val_prefix(s: Seq<char>, k: int)
    requires
        0 <= k <= s.len(),
    ensures
        spec_digits_val(s) >= spec_digits_val(s.take(k)),
    decreases s.len() - k,
{
    if k < s.len() {
        lemma_digits_val_prefix(s, k + 1);
        assert(s.take(k + 1).drop_last() =~= s.take(k));
        assert(s.take(k + 1).last() == s[k]);
        assert(spec_digits_val(s.take(k + 1)) >= spec_digits_val(s.take(k)));
    } else {
        assert(s.take(k) =~= s);
    }
}

/// Executable digit test.
pub fn digit_char(c: char) -> (r: bool)
    ensures
        r == is_digit(c),
{
    '0' <= c && c <= '9'
}

/// Parse a non-empty run of decimal digits into a `u64`. Returns `None`
/// when `s` is not such a run or its value does not fit.
pub fn parse_u64(s: &str) -> (r: Option<u64>)
    ensures
        match r {
            Some(v) => is_digits(s@) && v as nat == spec_digits_val(s@),
            None => !is_digits(s@) || spec_digits_val(s@) > u64::MAX,
        },
{
    let n = s.unicode_len();
    if n == 0 {
        return None;
    }
    let mut val: u64 = 0;
    let mut i: usize = 0;
    while i < n
        invariant
            0 <= i <= n,
            n == s@.len(),
            forall|j: int| 0 <= j < i ==> is_digit(#[trigger] s@[j]),
            val as nat == spec_digits_val(s@.take(i as int)),
        decreases n - i,
    {
        let c = s.get_char(i);
        if !digit_char(c) {
            return None;
        }
        let d: u64 = (c as u32 as u64) - ('0' as u32 as u64);
        assert(d as nat == digit_val(c));
        if val > (u64::MAX - d) / 10 {
            proof {
                lemma_fundamental_div_mod((u64::MAX - d) as int, 10);
                assert(10 * (val as int) + d > u64::MAX);
                assert(s@.take(i + 1).drop_last() =~= s@.take(i as int));
                assert(s@.take(i + 1).last() == s@[i as int]);
                assert(spec_digits_val(s@.take(i + 1)) > u64::MAX);
                lemma_digits_val_prefix(s@, i + 1);
            }
            return None;
        }
        proof {
            lemma_fundamental_div_mod((u64::MAX - d) as int, 10);
            assert(10 * (val as int) + d <= u64::MAX);
            assert(s@.take(i + 1).drop_last() =~= s@.take(i as int));
            assert(s@.take(i + 1).last() == s@[i as int]);
        }
        val = val * 10 + d;
        i = i + 1;
    }
    proof {
        assert(s@.take(n as int) =~= s@);
    }
    Some(val)
}

/// The decimal digits of `n`, most significant first.
pub open spec fn spec_u64_digits(n: nat) -> Seq<char>
    decreases n,
{
    if n < 10 {
        seq![spec_digit_char(n)]
    } else {
        spec_u64_digits(n / 10) + seq![spec_digit_char(n % 10)]
    }
}

/// The character for a single decimal digit value.
pub open spec fn spec_digit_char(d: nat) -> char
    recommends
        d < 10,
{
    if d == 0 {
        '0'
    } else if d == 1 {
        '1'
    } else if d == 2 {
        '2'
    } else if d == 3 {
        '3'
    } else if d == 4 {
        '4'
    } else if d == 5 {
        '5'
    } else if d == 6 {
        '6'
    } else if d == 7 {
        '7'
    } else if d == 8 {
        '8'
    } else {
        '9'
    }
}

/// One decimal digit as a string.
fn digit_str(d: u64) -> (r: &'static str)
    requires
        d < 10,
    ensures
        r@ == seq![spec_digit_char(d as nat)],
{
    proof {
        reveal_strlit("0");
        reveal_strlit("1");
        reveal_strlit("2");
        reveal_strlit("3");
        reveal_strlit("4");
        reveal_strlit("5");
        reveal_strlit("6");
        reveal_strlit("7");
        reveal_strlit("8");
        reveal_strlit("9");
    }
    if d == 0 {
        "0"
    } else if d == 1 {
        "1"
    } else if d == 2 {
        "2"
    } else if d == 3 {
        "3"
    } else if d == 4 {
        "4"
    } else if d == 5 {
        "5"
    } else if d == 6 {
        "6"
    } else if d == 7 {
        "7"
    } else if d == 8 {
        "8"
    } else {
        "9"
    }
}

/// Render `n` in decimal.
pub fn render_u64(n: u64) -> (r: String)
    ensures
        r@ == spec_u64_digits(n as nat),
    decreases n,
{
    if n < 10 {
        String::from_str(digit_str(n))
    } else {
        let mut out = render_u64(n / 10);
        out.append(digit_str(n % 10));
        out
    }
}

/// Rendering a number yields a digit run that reads back to the number.
pub proof fn lemma_digits_round_trip(n: nat)
    ensures
        is_digits(spec_u64_digits(n)),
        spec_digits_val(spec_u64_digits(n)) == n,
    decreases n,
{
    if n < 10 {
        let s = spec_u64_digits(n);
        assert(s.len() == 1);
        assert(s[0] == spec_digit_char(n));
        assert(is_digit(spec_digit_char(n)));
        assert(digit_val(spec_digit_char(n)) == n);
        assert(s.drop_last() =~= Seq::<char>::empty());
        assert(spec_digits_val(Seq::<char>::empty()) == 0);
        assert(spec_digits_val(s) == 10 * spec_digits_val(s.drop_last()) + digit_val(s.last()));
    } else {
        lemma_digits_round_trip(n / 10);
        let a = spec_u64_digits(n / 10);
        let d = spec_digit_char(n % 10);
        let s = spec_u64_digits(n);
        assert(s == a + seq![d]);
        assert(s.drop_last() =~= a);
        assert(s.last() == d);
        assert(is_digit(d) && digit_val(d) == n % 10);
        assert forall|i: int| 0 <= i < s.len() implies is_digit(#[trigger] s[i]) by {
            if i < a.len() {
                assert(s[i] == a[i]);
            } else {
                assert(s[i] == d);
            }
        }
        assert(spec_digits_val(s) == 10 * spec_digits_val(a) + digit_val(d));
        lemma_fundamental_div_mod(n as int, 10);
    }
}

/// The textual form of a version: the three components in decimal,
/// separated by dots.
pub open spec fn spec_version_string(v: Version) -> Seq<char> {
    spec_u64_digits(v.major as nat) + seq!['.'] + spec_u64_digits(v.minor as nat) + seq!['.']
        + spec_u64_digits(v.patch as nat)
}

/// Render a version as `major.minor.patch`.
pub fn render_version(v: &Version) -> (r: String)
    ensures
        r@ == spec_version_string(*v),
{
    proof {
        reveal_strlit(".");
    }
    let mut out = render_u64(v.major);
    out.append(".");
    let minor = render_u64(v.minor);
    out.append(minor.as_str());
    out.append(".");
    let patch = render_u64(v.patch);
    out.append(patch.as_str());
    out
}

/// The bump arithmetic: a patch bump increments the patch component, a
/// minor bump increments the minor component and resets the patch, and a
/// major bump increments the major component and resets the other two.
/// Returns `None` exactly when the incremented component would not fit.
pub fn bump_version(v: &Version, kind: BumpKind) -> (r: Option<Version>)
    ensures
        match kind {
            BumpKind::Patch => if v.patch < u64::MAX {
                r == Some(Version { major: v.major, minor: v.minor, patch: (v.patch + 1) as u64 })
            } else {
                r is None
            },
            BumpKind::Minor => if v.minor < u64::MAX {
                r == Some(Version { major: v.major, minor: (v.minor + 1) as u64, patch: 0u64 })
            } else {
                r is None
            },
            BumpKind::Major => if v.major < u64::MAX {
                r == Some(Version { major: (v.major + 1) as u64, minor: 0u64, patch: 0u64 })
            } else {
                r is None
            },
        },
{
    match kind {
        BumpKind::Patch => {
            if v.patch < u64::MAX {
                Some(Version { major: v.major, minor: v.minor, patch: v.patch + 1 })
            } else {
                None
            }
        },
        BumpKind::Minor => {
            if v.minor < u64::MAX {
                Some(Version { major: v.major, minor: v.minor + 1, patch: 0 })
            } else {
                None
            }
        },
        BumpKind::Major => {
            if v.major < u64::MAX {
                Some(Version { major: v.major + 1, minor: 0, patch: 0 })
            } else {
                None
            }
        },
    }
}

} // verus!
