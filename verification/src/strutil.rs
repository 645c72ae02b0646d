//! Verified string utilities: code-point comparison of strings, decimal
//! integer parsing, and sorted duplicate-free string vectors.

use vstd::prelude::*;
use vstd::string::StrSliceExecFns;

verus! {

/// Relies on `String::push` of std: appending one character appends exactly
/// that character to the string's character sequence.
pub assume_specification[ std::string::String::push ](s: &mut std::string::String, ch: char)
    ensures
        final(s)@ == old(s)@.push(ch),
;

// ---------------------------------------------------------------------------
// Lexicographic order on character sequences.
// ---------------------------------------------------------------------------

/// `a <= b` in lexicographic code-point order.
pub open spec fn char_seq_le(a: Seq<char>, b: Seq<char>) -> bool
    decreases a.len(),
{
    if a.len() == 0 {
        true
    } else if b.len() == 0 {
        false
    } else if a[0] == b[0] {
        char_seq_le(a.skip(1), b.skip(1))
    } else {
        a[0] < b[0]
    }
}

/// `a < b` in lexicographic code-point order.
pub open spec fn char_seq_lt(a: Seq<char>, b: Seq<char>) -> bool {
    !char_seq_le(b, a)
}

/// The order is total: two sequences always compare.
pub proof fn lemma_char_seq_le_total(a: Seq<char>, b: Seq<char>)
    ensures
        char_seq_le(a, b) || char_seq_le(b, a),
    decreases a.len(),
{
    if a.len() > 0 && b.len() > 0 {
        if a[0] == b[0] {
            lemma_char_seq_le_total(a.skip(1), b.skip(1));
        }
    }
}

/// The order is antisymmetric: mutual `<=` means equality.
pub proof fn lemma_char_seq_le_antisym(a: Seq<char>, b: Seq<char>)
    requires
        char_seq_le(a, b),
        char_seq_le(b, a),
    ensures
        a == b,
    decreases a.len(),
{
    if a.len() == 0 {
        assert(b.len() == 0);
        assert(a =~= b);
    } else {
        assert(b.len() > 0);
        assert(a[0] == b[0]);
        lemma_char_seq_le_antisym(a.skip(1), b.skip(1));
        assert(a =~= seq![a[0]] + a.skip(1));
        assert(b =~= seq![b[0]] + b.skip(1));
    }
}

/// The order is transitive.
pub proof fn lemma_char_seq_le_trans(a: Seq<char>, b: Seq<char>, c: Seq<char>)
    requires
        char_seq_le(a, b),
        char_seq_le(b, c),
    ensures
        char_seq_le(a, c),
    decreases a.len(),
{
    if a.len() > 0 && b.len() > 0 && c.len() > 0 {
        if a[0] == b[0] && b[0] == c[0] {
            lemma_char_seq_le_trans(a.skip(1), b.skip(1), c.skip(1));
        }
    }
}

/// Strict order is transitive as well.
pub proof fn lemma_char_seq_lt_trans(a: Seq<char>, b: Seq<char>, c: Seq<char>)
    requires
        char_seq_lt(a, b),
        char_seq_lt(b, c),
    ensures
        char_seq_lt(a, c),
{
    lemma_char_seq_le_total(a, b);
    lemma_char_seq_le_total(b, c);
    if char_seq_le(c, a) {
        lemma_char_seq_le_trans(c, a, b);
    }
}

/// Whether `a <= b` in code-point order.
pub fn str_le(a: &str, b: &str) -> (r: bool)
    ensures
        r == char_seq_le(a@, b@),
{
    let alen = a.unicode_len();
    let blen = b.unicode_len();
    proof {
        assert(a@.skip(0) =~= a@);
        assert(b@.skip(0) =~= b@);
    }
    let mut i: usize = 0;
    while i < alen && i < blen
        invariant
            alen == a@.len(),
            blen == b@.len(),
            i <= alen,
            i <= blen,
            char_seq_le(a@, b@) == char_seq_le(a@.skip(i as int), b@.skip(i as int)),
        decreases alen - i,
    {
        let ca = a.get_char(i);
        let cb = b.get_char(i);
        if ca != cb {
            return ca < cb;
        }
        proof {
            assert(a@.skip(i as int).skip(1) =~= a@.skip(i + 1));
            assert(b@.skip(i as int).skip(1) =~= b@.skip(i + 1));
        }
        i = i + 1;
    }
    i == alen
}

/// Whether `a < b` in code-point order.
pub fn str_lt(a: &str, b: &str) -> (r: bool)
    ensures
        r == char_seq_lt(a@, b@),
{
    !str_le(b, a)
}

// ---------------------------------------------------------------------------
// Decimal integer parsing.
// ---------------------------------------------------------------------------

/// Whether `c` is a decimal digit.
pub open spec fn is_digit(c: char) -> bool {
    '0' <= c <= '9'
}

/// Whether every character of `s` is a decimal digit.
pub open spec fn all_digits(s: Seq<char>) -> bool {
    forall|i: int| 0 <= i < s.len() ==> is_digit(#[trigger] s[i])
}

/// The numeric value of a digit sequence.
pub open spec fn digits_val(s: Seq<char>) -> int
    decreases s.len(),
{
    if s.len() == 0 {
        0int
    } else {
        digits_val(s.drop_last()) * 10 + (s.last() as int - '0' as int)
    }
}

pub proof fn lemma_digits_val_nonneg(s: Seq<char>)
    requires
        all_digits(s),
    ensures
        0 <= digits_val(s),
    decreases s.len(),
{
    if s.len() > 0 {
        assert(all_digits(s.drop_last())) by {
            assert(forall|i: int| 0 <= i < s.len() - 1 ==> s.drop_last()[i] == s[i]);
        }
        lemma_digits_val_nonneg(s.drop_last());
    }
}

/// The value of a digit-sequence prefix never exceeds the whole value.
pub proof fn lemma_digits_val_take_le(s: Seq<char>, i: int)
    requires
        all_digits(s),
        0 <= i <= s.len(),
    ensures
        digits_val(s.take(i)) <= digits_val(s),
    decreases s.len(),
{
    if i == s.len() {
        assert(s.take(i) =~= s);
    } else {
        let d = s.drop_last();
        assert(all_digits(d) && d.len() == s.len() - 1) by {
            assert(forall|j: int| 0 <= j < s.len() - 1 ==> d[j] == s[j]);
        }
        assert(s.take(i) =~= d.take(i));
        lemma_digits_val_take_le(d, i);
        lemma_digits_val_nonneg(d);
    }
}

/// What `str::parse::<u64>` accepts: an optional leading `+`, then at least
/// one digit, with a value that fits in a `u64`.
pub open spec fn spec_parse_u64(s: Seq<char>) -> Option<u64> {
    let digits = if s.len() > 0 && s[0] == '+' {
        s.skip(1)
    } else {
        s
    };
    if digits.len() == 0 || !all_digits(digits) {
        None
    } else if digits_val(digits) > u64::MAX {
        None
    } else {
        Some(digits_val(digits) as u64)
    }
}

/// What `str::parse::<i64>` accepts: an optional sign, then at least one
/// digit, with a value that fits in an `i64`.
pub open spec fn spec_parse_i64(s: Seq<char>) -> Option<i64> {
    let neg = s.len() > 0 && s[0] == '-';
    let digits = if s.len() > 0 && (s[0] == '-' || s[0] == '+') {
        s.skip(1)
    } else {
        s
    };
    if digits.len() == 0 || !all_digits(digits) {
        None
    } else if neg && -digits_val(digits) >= i64::MIN {
        Some((-digits_val(digits)) as i64)
    } else if !neg && digits_val(digits) <= i64::MAX {
        Some(digits_val(digits) as i64)
    } else {
        None
    }
}

/// The value of the digit run `s[from..]`, accumulated left to right.
fn parse_digits(s: &str, from: usize) -> (r: Option<u128>)
    requires
        from <= s@.len(),
    ensures
        match r {
            Some(v) => {
                &&& s@.len() - from >= 1
                &&& all_digits(s@.skip(from as int))
                &&& v == digits_val(s@.skip(from as int))
                &&& v <= u64::MAX
            },
            None => s@.len() - from < 1 || !all_digits(s@.skip(from as int)) || digits_val(
                s@.skip(from as int),
            ) > u64::MAX,
        },
{
    let len = s.unicode_len();
    if from >= len {
        return None;
    }
    let ghost digits = s@.skip(from as int);
    let mut acc: u128 = 0;
    let mut i: usize = from;
    while i < len
        invariant
            len == s@.len(),
            from <= i <= len,
            from < len,
            digits == s@.skip(from as int),
            all_digits(digits.take(i - from)),
            acc == digits_val(digits.take(i - from)),
            acc <= u64::MAX,
        decreases len - i,
    {
        let c = s.get_char(i);
        if !('0' <= c && c <= '9') {
            proof {
                assert(digits[i - from] == s@[i as int]);
                assert(!is_digit(digits[i - from]));
            }
            return None;
        }
        let d: u128 = (c as u32 as u128) - ('0' as u32 as u128);
        proof {
            assert(digits.take(i - from + 1).drop_last() =~= digits.take(i - from));
            assert(digits.take(i - from + 1).last() == s@[i as int]);
        }
        let next = acc * 10 + d;
        if next > u64::MAX as u128 {
            proof {
                if all_digits(digits) {
                    lemma_digits_val_take_le(digits, i - from + 1);
                }
            }
            return None;
        }
        acc = next;
        i = i + 1;
    }
    proof {
        assert(digits.take(len - from) =~= digits);
    }
    Some(acc)
}

/// Parse a decimal `u64` exactly as `str::parse::<u64>` does.
pub fn parse_u64(s: &str) -> (r: Option<u64>)
    ensures
        r == spec_parse_u64(s@),
{
    let len = s.unicode_len();
    let from: usize = if len > 0 && s.get_char(0) == '+' {
        1
    } else {
        0
    };
    proof {
        if from == 0 {
            assert(s@.skip(0) =~= s@);
        }
    }
    match parse_digits(s, from) {
        None => None,
        Some(v) => Some(v as u64),
    }
}

/// Parse a decimal `i64` exactly as `str::parse::<i64>` does.
pub fn parse_i64(s: &str) -> (r: Option<i64>)
    ensures
        r == spec_parse_i64(s@),
{
    let len = s.unicode_len();
    let neg = len > 0 && s.get_char(0) == '-';
    let from: usize = if len > 0 && (s.get_char(0) == '-' || s.get_char(0) == '+') {
        1
    } else {
        0
    };
    proof {
        if from == 0 {
            assert(s@.skip(0) =~= s@);
        }
    }
    match parse_digits(s, from) {
        None => None,
        Some(v) => {
            if neg {
                if v <= i64::MAX as u128 {
                    Some(-(v as i64))
                } else if v == i64::MAX as u128 + 1 {
                    Some(i64::MIN)
                } else {
                    None
                }
            } else {
                if v <= i64::MAX as u128 {
                    Some(v as i64)
                } else {
                    None
                }
            }
        },
    }
}

// ---------------------------------------------------------------------------
// Sorted, duplicate-free string vectors.
// ---------------------------------------------------------------------------
/// The order is reflexive.
pub proof fn lemma_char_seq_le_refl(a: Seq<char>)
    ensures
        char_seq_le(a, a),
    decreases a.len(),
{
    if a.len() > 0 {
        lemma_char_seq_le_refl(a.skip(1));
    }
}

/// A sorted duplicate-free string vector is determined by the set of views
/// it holds: two such vectors with the same membership list the same views
/// in the same order.
pub proof fn lemma_strs_sorted_unique_canonical(a: Seq<String>, b: Seq<String>)
    requires
        strs_sorted_unique(a),
        strs_sorted_unique(b),
        forall|t: Seq<char>| str_in(a, t) <==> str_in(b, t),
    ensures
        a.len() == b.len(),
        forall|i: int| 0 <= i < a.len() ==> (#[trigger] a[i])@ == b[i]@,
    decreases a.len(),
{
    if a.len() == 0 {
        if b.len() > 0 {
            assert(str_in(b, b[0]@));
            assert(str_in(a, b[0]@));
            let i = choose|i: int| 0 <= i < a.len() && (#[trigger] a[i])@ == b[0]@;
        }
    } else if b.len() == 0 {
        assert(str_in(a, a[0]@));
        assert(str_in(b, a[0]@));
        let i = choose|i: int| 0 <= i < b.len() && (#[trigger] b[i])@ == a[0]@;
    } else {
        let la = a[a.len() - 1]@;
        let lb = b[b.len() - 1]@;
        assert(la == lb) by {
            assert(str_in(a, la));
            assert(str_in(b, la));
            let j = choose|j: int| 0 <= j < b.len() && (#[trigger] b[j])@ == la;
            assert(str_in(b, lb));
            assert(str_in(a, lb));
            let i = choose|i: int| 0 <= i < a.len() && (#[trigger] a[i])@ == lb;
            if j < b.len() - 1 {
                assert(char_seq_lt(la, lb));
                if i < a.len() - 1 {
                    assert(char_seq_lt(lb, la));
                    lemma_char_seq_lt_trans(la, lb, la);
                }
                lemma_char_seq_le_refl(la);
            }
        }
        let da = a.drop_last();
        let db = b.drop_last();
        assert forall|t: Seq<char>| str_in(da, t) implies str_in(db, t) by {
            let i = choose|i: int| 0 <= i < da.len() && (#[trigger] da[i])@ == t;
            assert(a[i]@ == t);
            assert(char_seq_lt(t, la));
            assert(str_in(a, t));
            assert(str_in(b, t));
            let j = choose|j: int| 0 <= j < b.len() && (#[trigger] b[j])@ == t;
            if j == b.len() - 1 {
                lemma_char_seq_le_refl(t);
            }
            assert(db[j]@ == t);
        }
        assert forall|t: Seq<char>| str_in(db, t) implies str_in(da, t) by {
            let j = choose|j: int| 0 <= j < db.len() && (#[trigger] db[j])@ == t;
            assert(b[j]@ == t);
            assert(char_seq_lt(t, lb));
            assert(str_in(b, t));
            assert(str_in(a, t));
            let i = choose|i: int| 0 <= i < a.len() && (#[trigger] a[i])@ == t;
            if i == a.len() - 1 {
                lemma_char_seq_le_refl(t);
            }
            assert(da[i]@ == t);
        }
        lemma_strs_sorted_unique_canonical(da, db);
        assert forall|i: int| 0 <= i < a.len() implies (#[trigger] a[i])@ == b[i]@ by {
            if i < a.len() - 1 {
                assert(da[i]@ == db[i]@);
            }
        }
    }
}


/// The strings are strictly increasing, hence pairwise distinct.
pub open spec fn strs_sorted_unique(v: Seq<String>) -> bool {
    forall|i: int, j: int|
        0 <= i < j < v.len() ==> char_seq_lt((#[trigger] v[i])@, (#[trigger] v[j])@)
}

/// Whether the view `s` occurs among the strings of `v`.
pub open spec fn str_in(v: Seq<String>, s: Seq<char>) -> bool {
    exists|i: int| 0 <= i < v.len() && (#[trigger] v[i])@ == s
}

/// Insert `s` into a sorted duplicate-free vector, keeping it so; a string
/// already present is dropped.
pub fn sorted_insert(v: &mut Vec<String>, s: String)
    requires
        strs_sorted_unique(old(v)@),
    ensures
        strs_sorted_unique(final(v)@),
        forall|t: Seq<char>| str_in(final(v)@, t) <==> (str_in(old(v)@, t) || t == s@),
        final(v)@.len() == old(v)@.len() + (if str_in(old(v)@, s@) {
            0int
        } else {
            1int
        }),
{
    let ghost prev = v@;
    let n = v.len();
    let mut pos: usize = 0;
    while pos < n && str_lt(&v[pos], &s)
        invariant
            n == v@.len(),
            pos <= n,
            v@ == prev,
            forall|j: int| 0 <= j < pos ==> char_seq_lt((#[trigger] v@[j])@, s@),
        decreases n - pos,
    {
        pos = pos + 1;
    }
    if pos < n && v[pos] == s {
        proof {
            assert(prev[pos as int]@ == s@);
            assert(str_in(prev, s@));
            assert forall|t: Seq<char>| str_in(v@, t) <==> (str_in(prev, t) || t
                == s@) by {}
        }
        return ;
    }
    proof {
        assert(!str_in(prev, s@)) by {
            if str_in(prev, s@) {
                let j = choose|j: int| 0 <= j < prev.len() && (#[trigger] prev[j])@ == s@;
                if j < pos {
                    assert(char_seq_lt(prev[j]@, s@));
                    lemma_char_seq_le_total(prev[j]@, s@);
                    lemma_char_seq_le_antisym(prev[j]@, s@);
                } else if j > pos {
                    assert(pos < n);
                    assert(char_seq_lt(prev[pos as int]@, prev[j]@));
                    assert(!char_seq_lt(prev[pos as int]@, s@));
                    lemma_char_seq_le_total(prev[pos as int]@, s@);
                    lemma_char_seq_lt_trans(prev[pos as int]@, prev[j]@, s@);
                    assert(false);
                } else {
                    assert(prev[pos as int]@ == s@);
                }
            }
        }
    }
    v.insert(pos, s);
    proof {
        prev.insert_ensures(pos as int, s);
        assert forall|p: int, q: int| 0 <= p < q < v@.len() implies char_seq_lt(
            (#[trigger] v@[p])@,
            (#[trigger] v@[q])@,
        ) by {
            if q < pos {
                assert(v@[p] == prev[p] && v@[q] == prev[q]);
            } else if q == pos {
                assert(v@[p] == prev[p]);
                assert(char_seq_lt(prev[p]@, s@));
            } else if p < pos {
                assert(v@[p] == prev[p] && v@[q] == prev[q - 1]);
                if q - 1 == pos {
                    assert(char_seq_lt(prev[p]@, s@));
                    assert(!char_seq_lt(prev[pos as int]@, s@));
                    lemma_char_seq_le_total(s@, prev[pos as int]@);
                    if char_seq_le(prev[pos as int]@, s@) {
                        lemma_char_seq_le_antisym(prev[pos as int]@, s@);
                    }
                    lemma_char_seq_lt_trans(prev[p]@, s@, prev[pos as int]@);
                } else {
                    assert(char_seq_lt(prev[p]@, prev[q - 1]@));
                }
            } else if p == pos {
                assert(v@[q] == prev[q - 1]);
                assert(!char_seq_lt(prev[pos as int]@, s@));
                assert(prev[pos as int]@ != s@);
                lemma_char_seq_le_total(s@, prev[pos as int]@);
                if char_seq_le(prev[pos as int]@, s@) {
                    lemma_char_seq_le_antisym(prev[pos as int]@, s@);
                }
                if q - 1 == pos {
                    assert(char_seq_lt(s@, prev[pos as int]@));
                } else {
                    assert(char_seq_lt(prev[pos as int]@, prev[q - 1]@));
                    lemma_char_seq_lt_trans(s@, prev[pos as int]@, prev[q - 1]@);
                }
            } else {
                assert(v@[p] == prev[p - 1] && v@[q] == prev[q - 1]);
            }
        }
        assert forall|t: Seq<char>| str_in(v@, t) implies (str_in(prev, t) || t == s@) by {
            let j = choose|j: int| 0 <= j < v@.len() && (#[trigger] v@[j])@ == t;
            if j < pos {
                assert(prev[j]@ == t);
            } else if j > pos {
                assert(prev[j - 1]@ == t);
            }
        }
        assert forall|t: Seq<char>| (str_in(prev, t) || t == s@) implies str_in(v@, t) by {
            if t == s@ {
                assert(v@[pos as int]@ == t);
            } else {
                let j = choose|j: int| 0 <= j < prev.len() && (#[trigger] prev[j])@ == t;
                if j < pos {
                    assert(v@[j]@ == t);
                } else {
                    assert(v@[j + 1]@ == t);
                }
            }
        }
    }
}

} // verus!
