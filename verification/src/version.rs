//! Versions of the wallet standard: three numbers with dots between them.

use crate::error::{WalletError, WalletErrorView, WalletResult};
use vstd::prelude::*;
use vstd::string::{StrSliceExecFns, StringExecFns};

verus! {

/// A version: major, minor and patch number.
#[derive(Debug, Clone, Copy, PartialEq, Eq, Structural)]
pub struct SemverVersion {
    /// Changes that break.
    pub major: u64,
    /// Additions.
    pub minor: u64,
    /// Corrections.
    pub patch: u64,
}

/// Whether `c` is one of the ten decimal digits.
pub open spec fn is_digit(c: char) -> bool {
    '0' <= c <= '9'
}

/// The number that the characters of `text` from `from` up to `to` spell in
/// decimal; `None` where one of them is no digit.
pub open spec fn number(text: Seq<char>, from: int, to: int) -> Option<nat>
    decreases to - from,
{
    if to <= from {
        Some(0nat)
    } else {
        match number(text, from, to - 1) {
            None => None,
            Some(value) => if is_digit(text[to - 1]) {
                Some((value * 10 + (text[to - 1] as int - '0' as int)) as nat)
            } else {
                None
            },
        }
    }
}

/// The index of the first dot of `text` at or after `from`, or the length
/// of `text` where there is none.
pub open spec fn dot_from(text: Seq<char>, from: int) -> int
    decreases text.len() - from,
{
    if from < 0 || from >= text.len() {
        text.len() as int
    } else if text[from] == '.' {
        from
    } else {
        dot_from(text, from + 1)
    }
}

/// The number written from `from` up to `to`, which must be at least one
/// digit and fit 64 bits.
pub open spec fn component(text: Seq<char>, from: int, to: int) -> Option<u64> {
    if from >= to {
        None
    } else {
        match number(text, from, to) {
            Some(value) if value <= u64::MAX => Some(value as u64),
            _ => None,
        }
    }
}

/// The version that `text` writes: three components, two dots, and nothing
/// else.
pub open spec fn version_of(text: Seq<char>) -> Option<SemverVersion> {
    let first = dot_from(text, 0);
    let second = dot_from(text, first + 1);
    if first >= text.len() || second >= text.len() || dot_from(text, second + 1) < text.len() {
        None
    } else {
        match (
            component(text, 0, first),
            component(text, first + 1, second),
            component(text, second + 1, text.len() as int),
        ) {
            (Some(major), Some(minor), Some(patch)) => Some(SemverVersion { major, minor, patch }),
            _ => None,
        }
    }
}

/// The message for a text that writes no version.
pub open spec fn malformed_text(text: Seq<char>) -> Seq<char> {
    "`"@ + text + "` is not a version of the form major.minor.patch"@
}

/// Reads the decimal number written in `text` from `from` up to `to`.
fn read_component(text: &str, from: usize, to: usize) -> (value: Option<u64>)
    requires
        from <= to <= text@.len(),
    ensures
        value == component(text@, from as int, to as int),
{
    if from >= to {
        return None;
    }
    let mut value: u64 = 0;
    let mut i: usize = from;
    while i < to
        invariant
            from <= i <= to <= text@.len(),
            number(text@, from as int, i as int) == Some(value as nat),
        decreases to - i,
    {
        let c = text.get_char(i);
        if c < '0' || c > '9' {
            proof {
                lemma_no_number(text@, from as int, i as int + 1, to as int);
            }
            return None;
        }
        let digit: u64 = (c as u32 - '0' as u32) as u64;
        if value > (u64::MAX - digit) / 10 {
            proof {
                assert(number(text@, from as int, i as int + 1) is Some);
                assert(number(text@, from as int, i as int + 1)->Some_0 > u64::MAX);
                lemma_too_large(text@, from as int, i as int + 1, to as int);
            }
            return None;
        }
        value = value * 10 + digit;
        i += 1;
    }
    Some(value)
}

/// Once a prefix spells no number, no longer prefix does.
proof fn lemma_no_number(text: Seq<char>, from: int, mid: int, to: int)
    requires
        from <= mid <= to,
        number(text, from, mid) is None,
    ensures
        number(text, from, to) is None,
    decreases to - mid,
{
    if mid < to {
        lemma_no_number(text, from, mid, to - 1);
    }
}

/// Once a prefix spells a number beyond 64 bits, any longer prefix spells
/// none or one beyond 64 bits too.
proof fn lemma_too_large(text: Seq<char>, from: int, mid: int, to: int)
    requires
        from <= mid <= to,
        number(text, from, mid) is Some,
        number(text, from, mid)->Some_0 > u64::MAX,
    ensures
        number(text, from, to) is Some ==> number(text, from, to)->Some_0 > u64::MAX,
    decreases to - mid,
{
    if mid < to {
        lemma_too_large(text, from, mid, to - 1);
    }
}

/// Finds the first dot of `text` at or after `from`.
fn find_dot(text: &str, length: usize, from: usize) -> (at: usize)
    requires
        length == text@.len(),
        from <= length,
    ensures
        at == dot_from(text@, from as int),
        from <= at <= length,
{
    let mut at: usize = from;
    while at < length
        invariant
            from <= at <= length,
            length == text@.len(),
            dot_from(text@, from as int) == dot_from(text@, at as int),
        decreases length - at,
    {
        if text.get_char(at) == '.' {
            return at;
        }
        at += 1;
    }
    at
}

impl SemverVersion {
    /// Reads a version from its text.
    pub fn parse(text: &str) -> (version: WalletResult<SemverVersion>)
        ensures
            match version_of(text@) {
                Some(wanted) => version == Ok::<SemverVersion, WalletError>(wanted),
                None => version is Err && version->Err_0@ == WalletErrorView::InternalError(
                    malformed_text(text@),
                ),
            },
    {
        let length: usize = text.unicode_len();
        let first: usize = find_dot(text, length, 0);
        if first >= length {
            return Err(Self::malformed(text));
        }
        let second: usize = find_dot(text, length, first + 1);
        if second >= length {
            return Err(Self::malformed(text));
        }
        let third: usize = find_dot(text, length, second + 1);
        if third < length {
            return Err(Self::malformed(text));
        }
        let major = read_component(text, 0, first);
        let minor = read_component(text, first + 1, second);
        let patch = read_component(text, second + 1, length);
        match (major, minor, patch) {
            (Some(major), Some(minor), Some(patch)) => Ok(SemverVersion { major, minor, patch }),
            _ => Err(Self::malformed(text)),
        }
    }

    /// The error for a text that writes no version.
    fn malformed(text: &str) -> (error: WalletError)
        ensures
            error@ == WalletErrorView::InternalError(malformed_text(text@)),
    {
        let mut message = String::from_str("`");
        message.append(text);
        message.append("` is not a version of the form major.minor.patch");
        WalletError::InternalError(message)
    }

    /// Whether a wallet of this version can be spoken to by a page of
    /// version `other`: whether the major numbers agree.
    pub open spec fn compatible_with(self, other: SemverVersion) -> bool {
        self.major == other.major
    }

    /// Whether a wallet of this version can be spoken to by a page of
    /// version `other`.
    pub fn is_compatible_with(&self, other: &SemverVersion) -> (compatible: bool)
        ensures
            compatible == self.compatible_with(*other),
    {
        self.major == other.major
    }

    /// The version of the wallet standard that this crate speaks, 1.0.0.
    pub fn standard() -> (version: SemverVersion)
        ensures
            version == (SemverVersion { major: 1, minor: 0, patch: 0 }),
    {
        SemverVersion { major: 1, minor: 0, patch: 0 }
    }
}

} // verus!
