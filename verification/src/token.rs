//! The token validator: a class token is a non-empty string of ASCII
//! printable characters, free of whitespace and of the five HTML-unsafe
//! characters `< > & ' "`.

use vstd::prelude::*;

verus! {

/// The reason a candidate class token was rejected, in check priority order.
#[derive(Debug, Clone, Copy, PartialEq, Eq, Structural)]
pub enum ValidationError {
    /// The token string has zero length.
    EmptyToken,
    /// The token contains a whitespace character.
    WhitespaceInToken,
    /// The token contains one of `< > & ' "`.
    UnsafeCharacter,
    /// The token contains a character outside the ASCII printable range.
    NonPrintableCharacter,
}

/// A character with the Unicode `White_Space` property.
pub open spec fn whitespace_char(c: char) -> bool {
    let u = c as u32;
    u == 0x20 || (0x9 <= u && u <= 0xd) || u == 0x85 || u == 0xa0 || u == 0x1680 || (0x2000 <= u
        && u <= 0x200a) || u == 0x2028 || u == 0x2029 || u == 0x202f || u == 0x205f || u == 0x3000
}

/// One of the five HTML-unsafe characters `< > & ' "`.
pub open spec fn unsafe_char(c: char) -> bool {
    c == '<' || c == '>' || c == '&' || c == '\'' || c == '"'
}

/// An ASCII printable (graphic) character.
pub open spec fn printable_char(c: char) -> bool {
    let u = c as u32;
    0x21 <= u && u <= 0x7e
}

pub open spec fn has_whitespace(s: Seq<char>) -> bool {
    exists|i: int| 0 <= i < s.len() && whitespace_char(s[i])
}

pub open spec fn has_unsafe(s: Seq<char>) -> bool {
    exists|i: int| 0 <= i < s.len() && unsafe_char(s[i])
}

pub open spec fn all_printable(s: Seq<char>) -> bool {
    forall|i: int| 0 <= i < s.len() ==> printable_char(#[trigger] s[i])
}

/// A well-formed class token string.
pub open spec fn valid_token(s: Seq<char>) -> bool {
    s.len() > 0 && !has_whitespace(s) && !has_unsafe(s) && all_printable(s)
}

/// Every token view in the sequence is a well-formed class token.
pub open spec fn valid_token_views(ts: Seq<Seq<char>>) -> bool {
    forall|i: int| 0 <= i < ts.len() ==> valid_token(#[trigger] ts[i])
}

/// No two token views in the sequence are equal.
pub open spec fn distinct_views(ts: Seq<Seq<char>>) -> bool {
    forall|i: int, j: int| 0 <= i < j < ts.len() ==> ts[i] != ts[j]
}

/// The validator's verdict on a candidate string: the first check that
/// fails, in priority order, or `None` when the string is a valid token.
pub open spec fn token_error(s: Seq<char>) -> Option<ValidationError> {
    if s.len() == 0 {
        Some(ValidationError::EmptyToken)
    } else if has_whitespace(s) {
        Some(ValidationError::WhitespaceInToken)
    } else if has_unsafe(s) {
        Some(ValidationError::UnsafeCharacter)
    } else if !all_printable(s) {
        Some(ValidationError::NonPrintableCharacter)
    } else {
        None
    }
}

fn scan_whitespace(s: &str, len: usize) -> (r: bool)
    requires
        len == s@.len(),
    ensures
        r == has_whitespace(s@),
{
    let mut i: usize = 0;
    while i < len
        invariant
            i <= len,
            forall|j: int| 0 <= j < i ==> !whitespace_char(s@[j]),
        decreases len - i,
    {
        let u = s.get_char(i) as u32;
        if u == 0x20 || (0x9 <= u && u <= 0xd) || u == 0x85 || u == 0xa0 || u == 0x1680 || (0x2000
            <= u && u <= 0x200a) || u == 0x2028 || u == 0x2029 || u == 0x202f || u == 0x205f || u
            == 0x3000 {
            return true;
        }
        i += 1;
    }
    false
}

fn scan_unsafe(s: &str, len: usize) -> (r: bool)
    requires
        len == s@.len(),
    ensures
        r == has_unsafe(s@),
{
    let mut i: usize = 0;
    while i < len
        invariant
            i <= len,
            forall|j: int| 0 <= j < i ==> !unsafe_char(s@[j]),
        decreases len - i,
    {
        let c = s.get_char(i);
        if c == '<' || c == '>' || c == '&' || c == '\'' || c == '"' {
            return true;
        }
        i += 1;
    }
    false
}

fn scan_printable(s: &str, len: usize) -> (r: bool)
    requires
        len == s@.len(),
    ensures
        r == all_printable(s@),
{
    let mut i: usize = 0;
    while i < len
        invariant
            i <= len,
            forall|j: int| 0 <= j < i ==> printable_char(#[trigger] s@[j]),
        decreases len - i,
    {
        let u = s.get_char(i) as u32;
        if !(0x21 <= u && u <= 0x7e) {
            return false;
        }
        i += 1;
    }
    true
}

/// Run the validator's checks on a candidate token string, in priority
/// order: empty, whitespace, HTML-unsafe character, non-printable character.
pub fn check_token(name: &str) -> (r: Result<(), ValidationError>)
    ensures
        match r {
            Ok(()) => token_error(name@) is None,
            Err(e) => token_error(name@) == Some(e),
        },
{
    let len = name.unicode_len();
    if len == 0 {
        Err(ValidationError::EmptyToken)
    } else if scan_whitespace(name, len) {
        Err(ValidationError::WhitespaceInToken)
    } else if scan_unsafe(name, len) {
        Err(ValidationError::UnsafeCharacter)
    } else if !scan_printable(name, len) {
        Err(ValidationError::NonPrintableCharacter)
    } else {
        Ok(())
    }
}

/// A validated class token: a non-empty, whitespace-free string of ASCII
/// printable characters excluding `< > & ' "`, immutable once constructed.
#[derive(Debug, PartialEq, Eq, Hash)]
pub struct ClassToken {
    name: String,
}

impl View for ClassToken {
    type V = Seq<char>;

    closed spec fn view(&self) -> Seq<char> {
        self.name@
    }
}

impl ClassToken {
    /// The constructor's guarantee, restated as a predicate on the view.
    pub open spec fn wf(&self) -> bool {
        valid_token(self@)
    }

    /// Validate a candidate string, producing a token or the first failed
    /// check in priority order: empty, whitespace, HTML-unsafe character,
    /// non-printable character.
    pub fn parse(name: String) -> (r: Result<ClassToken, ValidationError>)
        ensures
            match r {
                Ok(t) => token_error(name@) is None && t@ == name@ && t.wf(),
                Err(e) => token_error(name@) == Some(e),
            },
    {
        match check_token(name.as_str()) {
            Ok(()) => Ok(ClassToken { name }),
            Err(e) => Err(e),
        }
    }

    /// Borrow the token's text.
    pub fn as_str(&self) -> (r: &str)
        ensures
            r@ == self@,
    {
        self.name.as_str()
    }

    /// Consume the token, yielding its text.
    pub fn into_name(self) -> (r: String)
        ensures
            r@ == self@,
    {
        self.name
    }
}

} // verus!
