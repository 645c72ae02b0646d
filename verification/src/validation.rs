//! Validation of label keys and values, after the Kubernetes naming rules:
//! a label key is a name of at most 63 characters from the letters, digits,
//! `-`, `_` and `.`, starting and ending alphanumeric, optionally preceded
//! by a DNS-subdomain prefix and a `/`; a label value is empty or shaped
//! like a name.

use vstd::prelude::*;
use vstd::string::StrSliceExecFns;

use crate::common::Error;

verus! {

/// An ASCII letter or digit.
pub open spec fn is_alnum(c: char) -> bool {
    ('a' <= c <= 'z') || ('A' <= c <= 'Z') || ('0' <= c <= '9')
}

/// A lowercase ASCII letter or digit.
pub open spec fn is_lower_alnum(c: char) -> bool {
    ('a' <= c <= 'z') || ('0' <= c <= '9')
}

/// A character allowed inside a label name or value.
pub open spec fn is_name_char(c: char) -> bool {
    is_alnum(c) || c == '-' || c == '_' || c == '.'
}

/// A character allowed inside a DNS-subdomain prefix.
pub open spec fn is_prefix_char(c: char) -> bool {
    is_lower_alnum(c) || c == '-' || c == '.'
}

/// A valid name part: 1 to 63 characters from the name alphabet, starting
/// and ending with a letter or digit.
pub open spec fn spec_valid_name_part(s: Seq<char>) -> bool {
    &&& 1 <= s.len() <= 63
    &&& is_alnum(s[0])
    &&& is_alnum(s[s.len() - 1])
    &&& forall|i: int| 0 <= i < s.len() ==> is_name_char(#[trigger] s[i])
}

/// A valid DNS-subdomain prefix: 1 to 253 lowercase characters, where every
/// dot separates two runs that end and start with a letter or digit.
pub open spec fn spec_valid_prefix(s: Seq<char>) -> bool {
    &&& 1 <= s.len() <= 253
    &&& is_lower_alnum(s[0])
    &&& is_lower_alnum(s[s.len() - 1])
    &&& forall|i: int| 0 <= i < s.len() ==> is_prefix_char(#[trigger] s[i])
    &&& forall|i: int|
        0 <= i < s.len() && (#[trigger] s[i]) == '.' ==> (0 < i && i + 1 < s.len()
            && is_lower_alnum(s[i - 1]) && is_lower_alnum(s[i + 1]))
}

/// Whether a `/` occurs in `s`.
pub open spec fn has_slash(s: Seq<char>) -> bool {
    exists|i: int| 0 <= i < s.len() && (#[trigger] s[i]) == '/'
}

/// A valid qualified label key: a bare name, or a prefix and a name joined
/// by exactly one `/`.
pub open spec fn spec_qualified_name(s: Seq<char>) -> bool {
    if !has_slash(s) {
        spec_valid_name_part(s)
    } else {
        exists|p: int|
            {
                &&& 0 <= p < s.len()
                &&& (#[trigger] s[p]) == '/'
                &&& (forall|j: int| 0 <= j < s.len() && j != p ==> (#[trigger] s[j]) != '/')
                &&& spec_valid_prefix(s.take(p))
                &&& spec_valid_name_part(s.skip(p + 1))
            }
    }
}

/// A valid label value: at most 63 characters, and when nonempty shaped
/// like a name part.
pub open spec fn spec_valid_label_value(s: Seq<char>) -> bool {
    &&& s.len() <= 63
    &&& (s.len() > 0 ==> (is_alnum(s[0]) && is_alnum(s[s.len() - 1]) && forall|i: int|
        0 <= i < s.len() ==> is_name_char(#[trigger] s[i])))
}

fn is_alnum_c(c: char) -> (r: bool)
    ensures
        r == is_alnum(c),
{
    ('a' <= c && c <= 'z') || ('A' <= c && c <= 'Z') || ('0' <= c && c <= '9')
}

fn is_lower_alnum_c(c: char) -> (r: bool)
    ensures
        r == is_lower_alnum(c),
{
    ('a' <= c && c <= 'z') || ('0' <= c && c <= '9')
}

fn is_name_char_c(c: char) -> (r: bool)
    ensures
        r == is_name_char(c),
{
    is_alnum_c(c) || c == '-' || c == '_' || c == '.'
}

/// Whether `s` is a valid name part.
fn valid_name_part(s: &str) -> (r: bool)
    ensures
        r == spec_valid_name_part(s@),
{
    let len = s.unicode_len();
    if len < 1 || len > 63 {
        return false;
    }
    if !is_alnum_c(s.get_char(0)) || !is_alnum_c(s.get_char(len - 1)) {
        return false;
    }
    let mut i: usize = 0;
    while i < len
        invariant
            len == s@.len(),
            i <= len,
            forall|j: int| 0 <= j < i ==> is_name_char(#[trigger] s@[j]),
        decreases len - i,
    {
        if !is_name_char_c(s.get_char(i)) {
            return false;
        }
        i = i + 1;
    }
    true
}

/// Whether `s` is a valid DNS-subdomain prefix.
fn valid_prefix(s: &str) -> (r: bool)
    ensures
        r == spec_valid_prefix(s@),
{
    let len = s.unicode_len();
    if len < 1 || len > 253 {
        return false;
    }
    if !is_lower_alnum_c(s.get_char(0)) || !is_lower_alnum_c(s.get_char(len - 1)) {
        return false;
    }
    let mut i: usize = 0;
    while i < len
        invariant
            len == s@.len(),
            i <= len,
            is_lower_alnum(s@[0]),
            is_lower_alnum(s@[len - 1]),
            forall|j: int| 0 <= j < i ==> is_prefix_char(#[trigger] s@[j]),
            forall|j: int|
                0 <= j < i && (#[trigger] s@[j]) == '.' ==> (0 < j && j + 1 < len
                    && is_lower_alnum(s@[j - 1]) && is_lower_alnum(s@[j + 1])),
        decreases len - i,
    {
        let c = s.get_char(i);
        if !(is_lower_alnum_c(c) || c == '-' || c == '.') {
            return false;
        }
        if c == '.' {
            if i == 0 || i + 1 >= len {
                return false;
            }
            if !is_lower_alnum_c(s.get_char(i - 1)) || !is_lower_alnum_c(s.get_char(i + 1)) {
                return false;
            }
        }
        i = i + 1;
    }
    true
}

/// Check a label key against the qualified-name rules.
pub fn IsQualifiedName(k: &str) -> (r: Result<(), Error>)
    ensures
        r is Ok <==> spec_qualified_name(k@),
        r matches Err(e) ==> e is CommonError,
{
    let len = k.unicode_len();
    let mut slash: usize = len;
    let mut i: usize = 0;
    while i < len
        invariant
            len == k@.len(),
            i <= len,
            slash == len || slash < i,
            slash == len ==> forall|j: int| 0 <= j < i ==> (#[trigger] k@[j]) != '/',
            slash < len ==> (k@[slash as int] == '/' && (forall|j: int|
                0 <= j < i && j != slash ==> (#[trigger] k@[j]) != '/')),
            slash <= len,
        decreases len - i,
    {
        if k.get_char(i) == '/' {
            if slash < len {
                // A second separator: no split can satisfy the rules.
                proof {
                    let s1 = slash as int;
                    let s2 = i as int;
                    assert(k@[s1] == '/' && k@[s2] == '/' && s1 != s2);
                    assert(has_slash(k@));
                    assert(!spec_qualified_name(k@)) by {
                        if spec_qualified_name(k@) {
                            let p = choose|p: int|
                                {
                                    &&& 0 <= p < k@.len()
                                    &&& (#[trigger] k@[p]) == '/'
                                    &&& (forall|j: int|
                                        0 <= j < k@.len() && j != p ==> (#[trigger] k@[j])
                                            != '/')
                                    &&& spec_valid_prefix(k@.take(p))
                                    &&& spec_valid_name_part(k@.skip(p + 1))
                                };
                            if p != s1 {
                                assert(k@[s1] != '/');
                            } else {
                                assert(k@[s2] != '/');
                            }
                        }
                    }
                }
                return Err(
                    Error::CommonError("a qualified name must have at most one '/'".to_owned()),
                );
            }
            slash = i;
        }
        i = i + 1;
    }

    if slash == len {
        // No prefix: the whole key is the name part.
        proof {
            assert(!has_slash(k@)) by {
                if has_slash(k@) {
                    let j = choose|j: int| 0 <= j < k@.len() && (#[trigger] k@[j]) == '/';
                }
            }
        }
        if valid_name_part(k) {
            return Ok(());
        }
        return Err(
            Error::CommonError(
                "name part must be 1-63 alphanumerics, '-', '_' or '.'".to_owned(),
            ),
        );
    }

    let prefix = k.substring_char(0, slash);
    let name = k.substring_char(slash + 1, len);
    proof {
        assert(prefix@ =~= k@.take(slash as int));
        assert(name@ =~= k@.skip(slash + 1));
        assert(has_slash(k@));
    }
    let prefix_ok = valid_prefix(prefix);
    let name_ok = valid_name_part(name);
    if prefix_ok && name_ok {
        proof {
            let p = slash as int;
            assert(k@[p] == '/' && (forall|j: int|
                0 <= j < k@.len() && j != p ==> (#[trigger] k@[j]) != '/') && spec_valid_prefix(
                k@.take(p),
            ) && spec_valid_name_part(k@.skip(p + 1)));
        }
        return Ok(());
    }
    proof {
        assert(!spec_qualified_name(k@)) by {
            if spec_qualified_name(k@) {
                let p = choose|p: int|
                    {
                        &&& 0 <= p < k@.len()
                        &&& (#[trigger] k@[p]) == '/'
                        &&& (forall|j: int|
                            0 <= j < k@.len() && j != p ==> (#[trigger] k@[j]) != '/')
                        &&& spec_valid_prefix(k@.take(p))
                        &&& spec_valid_name_part(k@.skip(p + 1))
                    };
                assert(p == slash as int) by {
                    if p != slash as int {
                        assert(k@[slash as int] != '/');
                    }
                }
            }
        }
    }
    Err(Error::CommonError("invalid qualified name".to_owned()))
}

/// Check a label value against the value rules.
pub fn IsValidLabelValue(v: &str) -> (r: Result<(), Error>)
    ensures
        r is Ok <==> spec_valid_label_value(v@),
        r matches Err(e) ==> e is CommonError,
{
    let len = v.unicode_len();
    if len > 63 {
        return Err(Error::CommonError("label value must be at most 63 characters".to_owned()));
    }
    if len == 0 {
        return Ok(());
    }
    if !is_alnum_c(v.get_char(0)) || !is_alnum_c(v.get_char(len - 1)) {
        return Err(
            Error::CommonError("label value must start and end alphanumeric".to_owned()),
        );
    }
    let mut i: usize = 0;
    while i < len
        invariant
            len == v@.len(),
            i <= len,
            forall|j: int| 0 <= j < i ==> is_name_char(#[trigger] v@[j]),
        decreases len - i,
    {
        if !is_name_char_c(v.get_char(i)) {
            return Err(
                Error::CommonError(
                    "label value must hold alphanumerics, '-', '_' or '.'".to_owned(),
                ),
            );
        }
        i = i + 1;
    }
    Ok(())
}

} // verus!
