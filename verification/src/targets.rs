//! Target-browser matching: whether a feature's required minimum version is
//! satisfied by every targeted browser distribution of the same family.

use vstd::prelude::*;
use vstd::string::*;
use crate::text::{lower_seq, str_eq, str_eq_lower};

verus! {

/// One targeted browser distribution: a family name as the target list
/// spells it, and a version string.
#[derive(Debug)]
pub struct TargetBrowser {
    pub name: String,
    pub version: String,
}

/// Whether a distribution named `name` belongs to the family of the browser
/// id `browser`; both are compared ASCII-lowercased.
pub open spec fn spec_family_matches(browser: Seq<char>, name: Seq<char>) -> bool {
    let b = lower_seq(browser);
    let t = lower_seq(name);
    if b == "chrome"@ {
        t == "and_chr"@ || t == "chrome"@ || t == "chrome android"@
    } else if b == "firefox"@ {
        t == "firefox"@ || t == "firefox android"@
    } else if b == "safari"@ {
        t == "safari"@ || t == "ios_saf"@
    } else if b == "edge"@ {
        t == "edge"@
    } else {
        false
    }
}

/// Whether `c` is a decimal digit.
pub open spec fn is_digit(c: char) -> bool {
    48 <= c as int && c as int <= 57
}

/// The numeric value of a digit sequence, most significant first.
pub open spec fn digits_value(s: Seq<char>) -> int
    decreases s.len(),
{
    if s.len() == 0 {
        0
    } else {
        digits_value(s.drop_last()) * 10 + (s.last() as int - 48)
    }
}

/// Whether `s` is a non-empty digit run whose value fits in a `u32`.
pub open spec fn parses_u32(s: Seq<char>) -> bool {
    &&& s.len() > 0
    &&& (forall|i: int| 0 <= i < s.len() ==> is_digit(#[trigger] s[i]))
    &&& digits_value(s) <= u32::MAX
}

/// Index of the first `.` in `s`, or `s.len()` if there is none.
pub open spec fn find_dot(s: Seq<char>) -> int
    decreases s.len(),
{
    if s.len() == 0 {
        0
    } else if s[0] == '.' {
        0
    } else {
        1 + find_dot(s.drop_first())
    }
}

/// The major component of a version string: the numeric value of everything
/// before the first `.`, or 0 when that prefix does not parse as a `u32`.
pub open spec fn spec_major(s: Seq<char>) -> u32 {
    let p = s.take(find_dot(s));
    if parses_u32(p) {
        digits_value(p) as u32
    } else {
        0u32
    }
}

pub proof fn lemma_find_dot(s: Seq<char>)
    ensures
        0 <= find_dot(s) <= s.len(),
        forall|k: int| 0 <= k < find_dot(s) ==> s[k] != '.',
        find_dot(s) < s.len() ==> s[find_dot(s)] == '.',
    decreases s.len(),
{
    if s.len() == 0 {
    } else if s[0] == '.' {
    } else {
        lemma_find_dot(s.drop_first());
        assert forall|k: int| 0 <= k < find_dot(s) implies s[k] != '.' by {
            if k > 0 {
                assert(s.drop_first()[k - 1] != '.');
            }
        }
    }
}

/// The value of a digit run never shrinks as digits are appended.
pub proof fn lemma_digits_value_grows(s: Seq<char>, n: int)
    requires
        0 <= n <= s.len(),
        forall|i: int| 0 <= i < s.len() ==> is_digit(#[trigger] s[i]),
    ensures
        digits_value(s.take(n)) <= digits_value(s),
        digits_value(s) >= 0,
    decreases s.len(),
{
    if s.len() == 0 {
        assert(s.take(n) =~= s);
    } else if n == s.len() {
        assert(s.take(n) =~= s);
        lemma_digits_value_grows(s.drop_last(), s.len() - 1);
    } else {
        lemma_digits_value_grows(s.drop_last(), n);
        assert(s.drop_last().take(n) =~= s.take(n));
    }
}

/// Parses the major component of a version string: the decimal value of the
/// prefix before the first `.`; an empty, non-numeric or overflowing prefix
/// parses as 0.
pub fn parse_major(s: &str) -> (r: u32)
    ensures
        r == spec_major(s@),
{
    let n = s.unicode_len();
    proof {
        lemma_find_dot(s@);
    }
    // Locate the end of the major prefix.
    let mut dot: usize = 0;
    let mut found = false;
    while dot < n && !found
        invariant
            n == s@.len(),
            dot <= n,
            forall|k: int| 0 <= k < dot ==> s@[k] != '.',
            found ==> dot < n && s@[dot as int] == '.',
        decreases n - dot + (if found { 0int } else { 1int }),
    {
        if s.get_char(dot) == '.' {
            found = true;
        } else {
            dot = dot + 1;
        }
    }
    proof {
        lemma_find_dot(s@);
        assert(dot == find_dot(s@));
    }
    let ghost p = s@.take(find_dot(s@));
    if dot == 0 {
        assert(!parses_u32(p));
        return 0;
    }
    let mut acc: u32 = 0;
    let mut i: usize = 0;
    while i < dot
        invariant
            n == s@.len(),
            0 < dot <= n,
            dot == find_dot(s@),
            p == s@.take(find_dot(s@)),
            i <= dot,
            forall|k: int| 0 <= k < i ==> is_digit(#[trigger] p[k]),
            acc as int == digits_value(p.take(i as int)),
        decreases dot - i,
    {
        let c = s.get_char(i);
        let cu = c as u32;
        proof {
            assert(p[i as int] == s@[i as int]);
        }
        if cu < 48 || cu > 57 {
            assert(!parses_u32(p));
            return 0;
        }
        let d = cu - 48;
        if acc > (u32::MAX - d) / 10 {
            // The prefix overflows a u32: every extension of these digits
            // stays at least as large, so the whole prefix cannot parse.
            proof {
                assert(p.take(i as int + 1).drop_last() =~= p.take(i as int));
                assert(digits_value(p.take(i as int + 1)) > u32::MAX);
                if parses_u32(p) {
                    lemma_digits_value_grows(p, i as int + 1);
                    assert(digits_value(p.take(i as int + 1)) <= digits_value(p));
                }
            }
            return 0;
        }
        proof {
            assert(p.take(i as int + 1).drop_last() =~= p.take(i as int));
        }
        acc = acc * 10 + d;
        i = i + 1;
    }
    proof {
        assert(p.take(dot as int) =~= p);
        assert(parses_u32(p));
    }
    acc
}

/// Whether a distribution belongs to the browser's family.
pub fn family_matches(browser: &str, name: &str) -> (r: bool)
    ensures
        r == spec_family_matches(browser@, name@),
{
    if str_eq_lower(browser, "chrome") {
        str_eq_lower(name, "and_chr") || str_eq_lower(name, "chrome") || str_eq_lower(
            name,
            "chrome android",
        )
    } else if str_eq_lower(browser, "firefox") {
        str_eq_lower(name, "firefox") || str_eq_lower(name, "firefox android")
    } else if str_eq_lower(browser, "safari") {
        str_eq_lower(name, "safari") || str_eq_lower(name, "ios_saf")
    } else if str_eq_lower(browser, "edge") {
        str_eq_lower(name, "edge")
    } else {
        false
    }
}

/// Whether a feature requiring `version` of the browser `browser` is
/// supported by the targeted distributions.
pub open spec fn spec_is_supported(
    browser: Seq<char>,
    version: Seq<char>,
    targets: Seq<TargetBrowser>,
) -> bool {
    if targets.len() == 0 {
        true
    } else if forall|i: int|
        0 <= i < targets.len() ==> !spec_family_matches(browser, #[trigger] targets[i].name@) {
        true
    } else if version == "true"@ {
        true
    } else {
        forall|i: int|
            0 <= i < targets.len() && spec_family_matches(browser, #[trigger] targets[i].name@)
                ==> spec_major(version) <= spec_major(targets[i].version@)
    }
}

/// Decides support: vacuously true with no targets or none of the browser's
/// family; true for the "supported since always" sentinel; otherwise true
/// exactly when the required major version is at most every matching
/// target's major version.
pub fn is_supported(browser: &str, version: &str, targets: &Vec<TargetBrowser>) -> (r: bool)
    ensures
        r == spec_is_supported(browser@, version@, targets@),
{
    if targets.len() == 0 {
        return true;
    }
    let mut any: bool = false;
    let mut i: usize = 0;
    while i < targets.len()
        invariant
            i <= targets@.len(),
            any == exists|k: int|
                0 <= k < i && spec_family_matches(browser@, #[trigger] targets@[k].name@),
        decreases targets@.len() - i,
    {
        if family_matches(browser, targets[i].name.as_str()) {
            any = true;
        }
        i = i + 1;
    }
    if !any {
        return true;
    }
    if str_eq(version, "true") {
        return true;
    }
    let our = parse_major(version);
    let mut j: usize = 0;
    while j < targets.len()
        invariant
            j <= targets@.len(),
            our == spec_major(version@),
            version@ != "true"@,
            exists|k: int|
                0 <= k < targets@.len() && spec_family_matches(
                    browser@,
                    #[trigger] targets@[k].name@,
                ),
            forall|k: int|
                0 <= k < j && spec_family_matches(browser@, #[trigger] targets@[k].name@)
                    ==> spec_major(version@) <= spec_major(targets@[k].version@),
        decreases targets@.len() - j,
    {
        if family_matches(browser, targets[j].name.as_str()) {
            let their = parse_major(targets[j].version.as_str());
            if our > their {
                return false;
            }
        }
        j = j + 1;
    }
    true
}

} // verus!
