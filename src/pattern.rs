//! The colour filter layouts a sensor may carry.
use vstd::prelude::*;

verus! {

/// The 2x2 colour filter layout of a sensor, read row by row from the top
/// left; `NONE` for a monochrome sensor.
#[allow(non_camel_case_types)]
#[derive(Clone, Copy, Debug, PartialEq, Eq, Structural)]
pub enum BayerPattern {
    NONE,
    RGGB,
    BGGR,
    GRBG,
    GBRG,
}

/// `c` with ASCII lower-case letters raised to upper case.
pub open spec fn ascii_upper(c: char) -> char {
    if 'a' <= c <= 'z' {
        ((c as u32) - 32) as char
    } else {
        c
    }
}

/// `s` equals `name` when ASCII letter case is ignored.
pub open spec fn same_letters(s: Seq<char>, name: Seq<char>) -> bool {
    s.len() == name.len() && forall|i: int| 0 <= i < s.len() ==> ascii_upper(s[i]) == name[i]
}

/// The pattern a header value names, matched without regard to case;
/// anything else names no pattern.
pub open spec fn pattern_named(s: Seq<char>) -> BayerPattern {
    if same_letters(s, seq!['R', 'G', 'G', 'B']) {
        BayerPattern::RGGB
    } else if same_letters(s, seq!['B', 'G', 'G', 'R']) {
        BayerPattern::BGGR
    } else if same_letters(s, seq!['G', 'R', 'B', 'G']) {
        BayerPattern::GRBG
    } else if same_letters(s, seq!['G', 'B', 'R', 'G']) {
        BayerPattern::GBRG
    } else {
        BayerPattern::NONE
    }
}

fn upper_char(c: char) -> (r: char)
    ensures
        r == ascii_upper(c),
{
    if 'a' <= c && c <= 'z' {
        let u: u32 = (c as u32) - 32;
        char_from_upper(u)
    } else {
        c
    }
}

/// The upper-case ASCII letter with code point `u`.
fn char_from_upper(u: u32) -> (r: char)
    requires
        0x41 <= u <= 0x5a,
    ensures
        r == u as char,
{
    let letters: [char; 26] = [
        'A', 'B', 'C', 'D', 'E', 'F', 'G', 'H', 'I', 'J', 'K', 'L', 'M',
        'N', 'O', 'P', 'Q', 'R', 'S', 'T', 'U', 'V', 'W', 'X', 'Y', 'Z',
    ];
    let r = letters[(u - 0x41) as usize];
    proof {
        assert(letters@ =~= seq![
            'A', 'B', 'C', 'D', 'E', 'F', 'G', 'H', 'I', 'J', 'K', 'L', 'M',
            'N', 'O', 'P', 'Q', 'R', 'S', 'T', 'U', 'V', 'W', 'X', 'Y', 'Z',
        ]);
    }
    r
}

fn matches_name(s: &str, name: &str) -> (r: bool)
    ensures
        r == same_letters(s@, name@),
{
    let n = s.unicode_len();
    if n != name.unicode_len() {
        return false;
    }
    let mut i: usize = 0;
    while i < n
        invariant
            n == s@.len(),
            n == name@.len(),
            i <= n,
            forall|j: int| 0 <= j < i ==> ascii_upper(s@[j]) == name@[j],
        decreases n - i,
    {
        if upper_char(s.get_char(i)) != name.get_char(i) {
            return false;
        }
        i = i + 1;
    }
    true
}

impl BayerPattern {
    /// The pattern named by a header value such as `BAYERPAT`, matched
    /// without regard to case; `NONE` for anything else.
    pub fn from_name(s: &str) -> (r: BayerPattern)
        ensures
            r == pattern_named(s@),
    {
        proof {
            reveal_strlit("RGGB");
            reveal_strlit("BGGR");
            reveal_strlit("GRBG");
            reveal_strlit("GBRG");
            assert("RGGB"@ =~= seq!['R', 'G', 'G', 'B']);
            assert("BGGR"@ =~= seq!['B', 'G', 'G', 'R']);
            assert("GRBG"@ =~= seq!['G', 'R', 'B', 'G']);
            assert("GBRG"@ =~= seq!['G', 'B', 'R', 'G']);
        }
        if matches_name(s, "RGGB") {
            BayerPattern::RGGB
        } else if matches_name(s, "BGGR") {
            BayerPattern::BGGR
        } else if matches_name(s, "GRBG") {
            BayerPattern::GRBG
        } else if matches_name(s, "GBRG") {
            BayerPattern::GBRG
        } else {
            BayerPattern::NONE
        }
    }

    /// Whether the pattern describes a colour sensor.
    pub fn is_mosaic(&self) -> (r: bool)
        ensures
            r == (*self != BayerPattern::NONE),
    {
        !matches!(self, BayerPattern::NONE)
    }
}

} // verus!
