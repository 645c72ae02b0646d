//! Label maps and label selectors for workload placement, with the
//! Kubernetes selector semantics: a selector is a conjunction of
//! requirements, each matching one label key against a value set.

use vstd::prelude::*;
use vstd::string::StrSliceExecFns;
use vstd::string::StringExecFns;

use crate::common::Error;
use vstd::multiset::Multiset;

use crate::strutil::{
    char_seq_le, char_seq_lt, lemma_char_seq_le_antisym, lemma_char_seq_le_total,
    lemma_char_seq_le_trans, lemma_char_seq_lt_trans, lemma_strs_sorted_unique_canonical,
    parse_i64, parse_u64, sorted_insert,
    spec_parse_i64, spec_parse_u64, str_in, str_lt, strs_sorted_unique,
};
use crate::validation::{
    spec_qualified_name, spec_valid_label_value, IsQualifiedName, IsValidLabelValue,
};

verus! {

// ---------------------------------------------------------------------------
// Selection operators.
// ---------------------------------------------------------------------------

/// The operator of one selector requirement.
#[derive(Debug, PartialEq, Eq, Clone, Copy, Structural)]
pub enum SelectionOp {
    /// The unset operator, used only while a requirement is being parsed.
    NoneOp,
    DoesNotExist,
    Equals,
    DoubleEquals,
    In,
    NotEquals,
    NotIn,
    Exists,
    GreaterThan,
    LessThan,
}

impl Default for SelectionOp {
    fn default() -> (r: Self)
        ensures
            r is DoesNotExist,
    {
        SelectionOp::DoesNotExist
    }
}

impl SelectionOp {
    pub fn as_str(&self) -> (r: &'static str)
        ensures
            r@ == match self {
                SelectionOp::NoneOp => ""@,
                SelectionOp::DoesNotExist => "!"@,
                SelectionOp::Equals => "="@,
                SelectionOp::DoubleEquals => "=="@,
                SelectionOp::In => "in"@,
                SelectionOp::NotEquals => "!="@,
                SelectionOp::NotIn => "notin"@,
                SelectionOp::Exists => "exists"@,
                SelectionOp::GreaterThan => "gt"@,
                SelectionOp::LessThan => "lt"@,
            },
    {
        match self {
            SelectionOp::NoneOp => "",
            SelectionOp::DoesNotExist => "!",
            SelectionOp::Equals => "=",
            SelectionOp::DoubleEquals => "==",
            SelectionOp::In => "in",
            SelectionOp::NotEquals => "!=",
            SelectionOp::NotIn => "notin",
            SelectionOp::Exists => "exists",
            SelectionOp::GreaterThan => "gt",
            SelectionOp::LessThan => "lt",
        }
    }
}

// ---------------------------------------------------------------------------
// The spec-level model of a key-ordered label list.
// ---------------------------------------------------------------------------

/// The label entries are strictly ordered by key (hence keys are unique).
pub open spec fn lkeys_sorted(s: Seq<(String, String)>) -> bool {
    forall|i: int, j: int|
        0 <= i < j < s.len() ==> char_seq_lt((#[trigger] s[i]).0@, (#[trigger] s[j]).0@)
}

/// Whether some entry of `s` carries the key `k`.
pub open spec fn lkey_in(s: Seq<(String, String)>, k: Seq<char>) -> bool {
    exists|i: int| 0 <= i < s.len() && (#[trigger] s[i]).0@ == k
}

/// The finite map described by a label list; a later entry wins on a
/// repeated key, though a sorted list has none.
pub open spec fn labels_map(s: Seq<(String, String)>) -> Map<Seq<char>, Seq<char>>
    decreases s.len(),
{
    if s.len() == 0 {
        Map::<Seq<char>, Seq<char>>::empty()
    } else {
        labels_map(s.drop_last()).insert(s.last().0@, s.last().1@)
    }
}

/// The domain of [`labels_map`] is exactly the set of keys that occur in
/// the list.
pub proof fn lemma_labels_map_dom(s: Seq<(String, String)>)
    ensures
        forall|k: Seq<char>| #[trigger] labels_map(s).contains_key(k) <==> lkey_in(s, k),
    decreases s.len(),
{
    if s.len() > 0 {
        let d = s.drop_last();
        lemma_labels_map_dom(d);
        assert forall|k: Seq<char>| lkey_in(s, k) implies #[trigger] labels_map(s).contains_key(
            k,
        ) by {
            let i = choose|i: int| 0 <= i < s.len() && (#[trigger] s[i]).0@ == k;
            if i < s.len() - 1 {
                assert(d[i] == s[i]);
                assert(lkey_in(d, k));
                assert(labels_map(d).contains_key(k));
            } else {
                assert(s.last().0@ == k);
            }
        }
        assert forall|k: Seq<char>| #[trigger] labels_map(s).contains_key(k) implies lkey_in(
            s,
            k,
        ) by {
            if k == s.last().0@ {
                assert(s[s.len() - 1].0@ == k);
            } else {
                assert(labels_map(d).contains_key(k));
                assert(lkey_in(d, k));
                let i = choose|i: int| 0 <= i < d.len() && (#[trigger] d[i]).0@ == k;
                assert(s[i] == d[i]);
                assert(s[i].0@ == k);
            }
        }
    }
}

/// In a sorted label list, the entry at index `i` is what the map holds for
/// its key.
pub proof fn lemma_labels_map_index(s: Seq<(String, String)>, i: int)
    requires
        lkeys_sorted(s),
        0 <= i < s.len(),
    ensures
        labels_map(s).contains_key(s[i].0@),
        labels_map(s)[s[i].0@] == s[i].1@,
    decreases s.len(),
{
    if i < s.len() - 1 {
        let d = s.drop_last();
        assert(d[i] == s[i]);
        lemma_labels_map_index(d, i);
        assert(char_seq_lt(s[i].0@, s.last().0@));
        assert(s[i].0@ != s.last().0@) by {
            if s[i].0@ == s.last().0@ {
                lemma_char_seq_le_total(s[i].0@, s.last().0@);
            }
        }
    }
}

/// A sorted label list has as many entries as its map has keys.
pub proof fn lemma_labels_map_len(s: Seq<(String, String)>)
    requires
        lkeys_sorted(s),
    ensures
        labels_map(s).dom().finite(),
        labels_map(s).dom().len() == s.len(),
    decreases s.len(),
{
    if s.len() > 0 {
        let d = s.drop_last();
        lemma_labels_map_len(d);
        lemma_labels_map_dom(d);
        assert(!lkey_in(d, s.last().0@)) by {
            if lkey_in(d, s.last().0@) {
                let i = choose|i: int| 0 <= i < d.len() && (#[trigger] d[i]).0@ == s.last().0@;
                assert(char_seq_lt(s[i].0@, s.last().0@));
                lemma_char_seq_le_total(s[i].0@, s.last().0@);
            }
        }
        assert(labels_map(s).dom() =~= labels_map(d).dom().insert(s.last().0@));
    }
}

/// Replacing the entry at index `i` with one that keeps its key updates the
/// map at that key.
pub proof fn lemma_labels_map_update(s: Seq<(String, String)>, i: int, e: (String, String))
    requires
        lkeys_sorted(s),
        0 <= i < s.len(),
        e.0@ == s[i].0@,
    ensures
        lkeys_sorted(s.update(i, e)),
        labels_map(s.update(i, e)) == labels_map(s).insert(e.0@, e.1@),
    decreases s.len(),
{
    let t = s.update(i, e);
    assert forall|p: int, q: int| 0 <= p < q < t.len() implies char_seq_lt(
        (#[trigger] t[p]).0@,
        (#[trigger] t[q]).0@,
    ) by {
        assert(char_seq_lt(s[p].0@, s[q].0@));
    }
    if i == s.len() - 1 {
        assert(t.drop_last() =~= s.drop_last());
        assert(labels_map(s.drop_last()).insert(s.last().0@, s.last().1@).insert(e.0@, e.1@)
            =~= labels_map(s.drop_last()).insert(e.0@, e.1@));
    } else {
        let d = s.drop_last();
        assert(t.drop_last() =~= d.update(i, e));
        assert(d[i] == s[i]);
        lemma_labels_map_update(d, i, e);
        assert(t.last() == s.last());
        assert(e.0@ != s.last().0@) by {
            assert(char_seq_lt(s[i].0@, s[s.len() - 1].0@));
            if e.0@ == s.last().0@ {
                lemma_char_seq_le_total(s[i].0@, s.last().0@);
            }
        }
        assert(labels_map(d).insert(e.0@, e.1@).insert(s.last().0@, s.last().1@) =~= labels_map(
            d,
        ).insert(s.last().0@, s.last().1@).insert(e.0@, e.1@));
    }
}

/// Inserting an entry at its ordered position inserts its key into the map.
pub proof fn lemma_labels_map_insert(s: Seq<(String, String)>, i: int, e: (String, String))
    requires
        lkeys_sorted(s),
        0 <= i <= s.len(),
        forall|j: int| 0 <= j < i ==> char_seq_lt((#[trigger] s[j]).0@, e.0@),
        forall|j: int| i <= j < s.len() ==> char_seq_lt(e.0@, (#[trigger] s[j]).0@),
    ensures
        lkeys_sorted(s.insert(i, e)),
        labels_map(s.insert(i, e)) == labels_map(s).insert(e.0@, e.1@),
    decreases s.len(),
{
    let t = s.insert(i, e);
    s.insert_ensures(i, e);
    assert forall|p: int, q: int| 0 <= p < q < t.len() implies char_seq_lt(
        (#[trigger] t[p]).0@,
        (#[trigger] t[q]).0@,
    ) by {
        if p < i && q < i {
            assert(t[p] == s[p] && t[q] == s[q]);
        } else if p < i && q == i {
            assert(t[p] == s[p]);
        } else if p < i && q > i {
            assert(t[p] == s[p] && t[q] == s[q - 1]);
            lemma_char_seq_lt_trans(s[p].0@, e.0@, s[q - 1].0@);
        } else if p == i && q > i {
            assert(t[q] == s[q - 1]);
        } else {
            assert(t[p] == s[p - 1] && t[q] == s[q - 1]);
            assert(char_seq_lt(s[p - 1].0@, s[q - 1].0@));
        }
    }
    if i == s.len() {
        assert(t =~= s.push(e));
        assert(s.push(e).drop_last() =~= s);
    } else {
        let d = s.drop_last();
        assert(t.drop_last() =~= d.insert(i, e));
        lemma_labels_map_insert(d, i, e);
        assert(t.last() == s.last());
        assert(e.0@ != s.last().0@) by {
            assert(char_seq_lt(e.0@, s[s.len() - 1].0@));
            if e.0@ == s.last().0@ {
                lemma_char_seq_le_total(e.0@, s.last().0@);
            }
        }
        assert(labels_map(d).insert(e.0@, e.1@).insert(s.last().0@, s.last().1@) =~= labels_map(
            d,
        ).insert(s.last().0@, s.last().1@).insert(e.0@, e.1@));
    }
}

/// Look the key `k` up in a sorted label list.
fn labels_get_entry(v: &Vec<(String, String)>, k: &str) -> (r: Option<String>)
    requires
        lkeys_sorted(v@),
    ensures
        match r {
            Some(val) => labels_map(v@).contains_key(k@) && labels_map(v@)[k@] == val@,
            None => !labels_map(v@).contains_key(k@),
        },
{
    let key = k.to_owned();
    let n = v.len();
    let mut i: usize = 0;
    while i < n
        invariant
            n == v@.len(),
            i <= n,
            key@ == k@,
            lkeys_sorted(v@),
            forall|j: int| 0 <= j < i ==> (#[trigger] v@[j]).0@ != k@,
        decreases n - i,
    {
        if v[i].0 == key {
            proof {
                lemma_labels_map_index(v@, i as int);
            }
            return Some(v[i].1.clone());
        }
        i = i + 1;
    }
    proof {
        lemma_labels_map_dom(v@);
    }
    None
}

/// Insert or replace the entry for key `k` in a sorted label list.
fn labels_set_entry(v: &mut Vec<(String, String)>, k: String, val: String)
    requires
        lkeys_sorted(old(v)@),
    ensures
        lkeys_sorted(final(v)@),
        labels_map(final(v)@) == labels_map(old(v)@).insert(k@, val@),
        final(v)@.len() == old(v)@.len() + (if labels_map(old(v)@).contains_key(k@) {
            0int
        } else {
            1int
        }),
{
    let n = v.len();
    let mut i: usize = 0;
    while i < n && str_lt(&v[i].0, k.as_str())
        invariant
            n == v@.len(),
            i <= n,
            v == old(v),
            forall|j: int| 0 <= j < i ==> char_seq_lt((#[trigger] v@[j]).0@, k@),
        decreases n - i,
    {
        i = i + 1;
    }
    proof {
        lemma_labels_map_dom(v@);
    }
    if i < n && v[i].0 == k {
        proof {
            lemma_labels_map_index(v@, i as int);
            lemma_labels_map_update(v@, i as int, (k, val));
        }
        v.set(i, (k, val));
    } else {
        proof {
            assert forall|j: int| i <= j < v@.len() implies char_seq_lt(
                k@,
                (#[trigger] v@[j]).0@,
            ) by {
                assert(!char_seq_lt(v@[i as int].0@, k@));
                lemma_char_seq_le_total(v@[i as int].0@, k@);
                assert(char_seq_le(k@, v@[i as int].0@));
                assert(k@ != v@[i as int].0@);
                if char_seq_le(v@[i as int].0@, k@) {
                    lemma_char_seq_le_antisym(k@, v@[i as int].0@);
                }
                if j > i {
                    assert(char_seq_lt(v@[i as int].0@, v@[j].0@));
                    lemma_char_seq_lt_trans(k@, v@[i as int].0@, v@[j].0@);
                }
            }
            assert(!labels_map(v@).contains_key(k@)) by {
                if lkey_in(v@, k@) {
                    let j = choose|j: int| 0 <= j < v@.len() && (#[trigger] v@[j]).0@ == k@;
                    if j < i {
                        assert(char_seq_lt(v@[j].0@, k@));
                        lemma_char_seq_le_total(v@[j].0@, k@);
                    } else {
                        assert(char_seq_lt(k@, v@[j].0@));
                        lemma_char_seq_le_total(k@, v@[j].0@);
                    }
                }
            }
            lemma_labels_map_insert(v@, i as int, (k, val));
        }
        v.insert(i, (k, val));
    }
}

// ---------------------------------------------------------------------------
// Labels.
// ---------------------------------------------------------------------------

/// A label map: key/value pairs kept strictly ordered by key.
#[derive(Debug)]
pub struct Labels(pub Vec<(String, String)>);

impl Labels {
    /// Well-formedness: entries strictly ordered by key.
    pub open spec fn wf(self) -> bool {
        lkeys_sorted(self.0@)
    }

    /// The labels as a finite map from key to value.
    pub open spec fn view_map(self) -> Map<Seq<char>, Seq<char>> {
        labels_map(self.0@)
    }

    /// Build a label map from raw pairs; on a repeated key the later pair
    /// wins.
    pub fn NewFromMap(map: Vec<(String, String)>) -> (r: Self)
        ensures
            r.wf(),
            r.view_map() == labels_map(map@),
    {
        Labels::NewFromSlice(map.as_slice())
    }

    /// An explicit deep copy.
    pub fn Copy(&self) -> (r: Self)
        ensures
            r.0@ == self.0@,
    {
        let mut entries: Vec<(String, String)> = Vec::new();
        let mut i: usize = 0;
        while i < self.0.len()
            invariant
                i <= self.0@.len(),
                entries@ =~= self.0@.take(i as int),
            decreases self.0@.len() - i,
        {
            entries.push((self.0[i].0.clone(), self.0[i].1.clone()));
            proof {
                assert(self.0@.take(i + 1).drop_last() =~= self.0@.take(i as int));
                assert((self.0@[i as int].0, self.0@[i as int].1) == self.0@[i as int]);
            }
            i = i + 1;
        }
        proof {
            assert(self.0@.take(self.0@.len() as int) =~= self.0@);
        }
        Labels(entries)
    }

    /// Build a label map from a slice of pairs; on a repeated key the later
    /// pair wins.
    pub fn NewFromSlice(item: &[(String, String)]) -> (r: Self)
        ensures
            r.wf(),
            r.view_map() == labels_map(item@),
    {
        let mut entries: Vec<(String, String)> = Vec::new();
        let mut i: usize = 0;
        while i < item.len()
            invariant
                i <= item@.len(),
                lkeys_sorted(entries@),
                labels_map(entries@) == labels_map(item@.take(i as int)),
            decreases item@.len() - i,
        {
            let pair = slice_index_get(item, i);
            labels_set_entry(&mut entries, pair.0.clone(), pair.1.clone());
            proof {
                assert(item@.take(i + 1).drop_last() =~= item@.take(i as int));
                assert(item@.take(i + 1).last() == item@[i as int]);
            }
            i = i + 1;
        }
        proof {
            assert(item@.take(item@.len() as int) =~= item@);
        }
        Labels(entries)
    }

    /// Whether the label `label` is present.
    pub fn Has(&self, label: &str) -> (r: bool)
        requires
            self.wf(),
        ensures
            r == self.view_map().contains_key(label@),
    {
        match labels_get_entry(&self.0, label) {
            Some(_) => true,
            None => false,
        }
    }

    /// The value recorded for `label`, if any.
    pub fn Get(&self, label: &str) -> (r: Option<String>)
        requires
            self.wf(),
        ensures
            match r {
                Some(v) => self.view_map().contains_key(label@) && self.view_map()[label@]
                    == v@,
                None => !self.view_map().contains_key(label@),
            },
    {
        labels_get_entry(&self.0, label)
    }

    /// Whether the map holds no labels.
    pub fn Empty(&self) -> (r: bool)
        ensures
            r == (self.0@.len() == 0),
    {
        self.0.len() == 0
    }
}

/// A vstd-specified read of one slice element.
fn slice_index_get<'a>(s: &'a [(String, String)], i: usize) -> (r: &'a (String, String))
    requires
        i < s@.len(),
    ensures
        *r == s@[i as int],
{
    &s[i]
}

// ---------------------------------------------------------------------------
// Requirements.
// ---------------------------------------------------------------------------

/// One selector requirement: a key, an operator and a value set.
#[derive(Debug)]
pub struct Requirement {
    pub key: String,
    pub op: SelectionOp,
    pub strVals: Vec<String>,
}

impl Default for Requirement {
    fn default() -> (r: Self)
        ensures
            r.key@ == Seq::<char>::empty(),
            r.op is DoesNotExist,
            r.strVals@.len() == 0,
    {
        Requirement { key: String::new(), op: SelectionOp::DoesNotExist, strVals: Vec::new() }
    }
}

/// The validity rules of a requirement: the key is a qualified name; `In`
/// and `NotIn` need at least one value; the equality operators need exactly
/// one; `Exists` and `DoesNotExist` need none; `Gt` and `Lt` need exactly
/// one unsigned decimal integer.
pub open spec fn spec_requirement_valid(key: Seq<char>, op: SelectionOp, vals: Seq<String>) -> bool {
    &&& spec_qualified_name(key)
    &&& match op {
        SelectionOp::NoneOp => false,
        SelectionOp::In | SelectionOp::NotIn => vals.len() > 0,
        SelectionOp::Equals | SelectionOp::DoubleEquals | SelectionOp::NotEquals => vals.len()
            == 1,
        SelectionOp::Exists | SelectionOp::DoesNotExist => vals.len() == 0,
        SelectionOp::GreaterThan | SelectionOp::LessThan => vals.len() == 1 && (forall|i: int|
            0 <= i < vals.len() ==> spec_parse_u64((#[trigger] vals[i])@) is Some),
    }
}

/// What one requirement says of a label map.
pub open spec fn spec_matchs(req: Requirement, lm: Map<Seq<char>, Seq<char>>) -> bool {
    match req.op {
        SelectionOp::NoneOp => false,
        SelectionOp::In | SelectionOp::Equals | SelectionOp::DoubleEquals => lm.contains_key(
            req.key@,
        ) && str_in(req.strVals@, lm[req.key@]),
        SelectionOp::NotIn | SelectionOp::NotEquals => !lm.contains_key(req.key@) || !str_in(
            req.strVals@,
            lm[req.key@],
        ),
        SelectionOp::Exists => lm.contains_key(req.key@),
        SelectionOp::DoesNotExist => !lm.contains_key(req.key@),
        SelectionOp::GreaterThan | SelectionOp::LessThan => {
            &&& lm.contains_key(req.key@)
            &&& spec_parse_i64(lm[req.key@]) is Some
            &&& req.strVals@.len() == 1
            &&& spec_parse_i64(req.strVals@[0]@) is Some
            &&& if req.op is GreaterThan {
                spec_parse_i64(lm[req.key@]).unwrap() > spec_parse_i64(
                    req.strVals@[0]@,
                ).unwrap()
            } else {
                spec_parse_i64(lm[req.key@]).unwrap() < spec_parse_i64(
                    req.strVals@[0]@,
                ).unwrap()
            }
        },
    }
}

/// The loose equivalence `Equ` checks: equal key, operator and value count,
/// and every value of `b` occurring among the values of `a`.
pub open spec fn spec_req_equ(a: Requirement, b: Requirement) -> bool {
    &&& a.strVals@.len() == b.strVals@.len()
    &&& (forall|i: int|
        0 <= i < b.strVals@.len() ==> str_in(a.strVals@, (#[trigger] b.strVals@[i])@))
    &&& a.key@ == b.key@
    &&& a.op == b.op
}

impl Requirement {
    /// Build a requirement, enforcing the validity rules; returns exactly
    /// when the rules hold of the inputs.
    pub fn New(key: &str, op: SelectionOp, vals: Vec<String>) -> (r: Result<Requirement, Error>)
        requires
            !(op is NoneOp),
        ensures
            r is Ok <==> spec_requirement_valid(key@, op, vals@),
            (r matches Ok(req) ==> req.key@ == key@ && req.op == op && req.strVals@ == vals@),
            (r matches Err(e) ==> e is CommonError),
    {
        match IsQualifiedName(key) {
            Err(e) => {
                return Err(e);
            },
            Ok(_) => {},
        }
        match op {
            SelectionOp::NoneOp => {
                return vstd::pervasive::unreached();
            },
            SelectionOp::In | SelectionOp::NotIn => {
                if vals.len() == 0 {
                    return Err(
                        Error::CommonError(
                            "for 'in', 'notin' operators, values set can't be empty".to_owned(),
                        ),
                    );
                }
            },
            SelectionOp::Equals | SelectionOp::DoubleEquals | SelectionOp::NotEquals => {
                if vals.len() != 1 {
                    return Err(
                        Error::CommonError(
                            "exact-match compatibility requires one single value".to_owned(),
                        ),
                    );
                }
            },
            SelectionOp::Exists | SelectionOp::DoesNotExist => {
                if vals.len() != 0 {
                    return Err(
                        Error::CommonError(
                            "values set must be empty for exists and does not exist".to_owned(),
                        ),
                    );
                }
            },
            SelectionOp::GreaterThan | SelectionOp::LessThan => {
                if vals.len() != 1 {
                    return Err(
                        Error::CommonError(
                            "for 'Gt', 'Lt' operators, exactly one value is required".to_owned(),
                        ),
                    );
                }
                let mut i: usize = 0;
                while i < vals.len()
                    invariant
                        i <= vals@.len(),
                        op is GreaterThan || op is LessThan,
                        spec_qualified_name(key@),
                        vals@.len() == 1,
                        forall|j: int|
                            0 <= j < i ==> spec_parse_u64((#[trigger] vals@[j])@) is Some,
                    decreases vals@.len() - i,
                {
                    match parse_u64(vals[i].as_str()) {
                        None => {
                            proof {
                                assert(!(spec_parse_u64(vals@[i as int]@) is Some));
                            }
                            return Err(
                                Error::CommonError(
                                    "for 'Gt', 'Lt' operators, the value must be an integer".to_owned(),
                                ),
                            );
                        },
                        Some(_) => {},
                    }
                    i = i + 1;
                }
            },
        }

        Ok(Requirement { key: key.to_owned(), op, strVals: vals })
    }

    /// Whether `val` occurs among the requirement's values.
    pub fn HasValue(&self, val: &str) -> (r: bool)
        ensures
            r == str_in(self.strVals@, val@),
    {
        let v = val.to_owned();
        let mut i: usize = 0;
        while i < self.strVals.len()
            invariant
                i <= self.strVals@.len(),
                v@ == val@,
                forall|j: int| 0 <= j < i ==> (#[trigger] self.strVals@[j])@ != val@,
            decreases self.strVals@.len() - i,
        {
            if self.strVals[i] == v {
                return true;
            }
            i = i + 1;
        }
        false
    }

    /// Whether the requirement matches the labels: key presence, value
    /// membership, or numeric comparison, depending on the operator.
    pub fn Matchs(&self, ls: &Labels) -> (r: bool)
        requires
            ls.wf(),
            !(self.op is NoneOp),
        ensures
            r == spec_matchs(*self, ls.view_map()),
    {
        match self.op {
            SelectionOp::NoneOp => vstd::pervasive::unreached(),
            SelectionOp::In | SelectionOp::Equals | SelectionOp::DoubleEquals => {
                let val = match ls.Get(self.key.as_str()) {
                    None => {
                        return false;
                    },
                    Some(v) => v,
                };
                self.HasValue(val.as_str())
            },
            SelectionOp::NotIn | SelectionOp::NotEquals => {
                let val = match ls.Get(self.key.as_str()) {
                    None => {
                        return true;
                    },
                    Some(v) => v,
                };
                !self.HasValue(val.as_str())
            },
            SelectionOp::Exists => ls.Has(self.key.as_str()),
            SelectionOp::DoesNotExist => !ls.Has(self.key.as_str()),
            SelectionOp::GreaterThan | SelectionOp::LessThan => {
                let val = match ls.Get(self.key.as_str()) {
                    None => {
                        return false;
                    },
                    Some(v) => v,
                };
                let lsValue: i64 = match parse_i64(val.as_str()) {
                    None => {
                        return false;
                    },
                    Some(v) => v,
                };
                if self.strVals.len() != 1 {
                    return false;
                }
                let rValue: i64 = match parse_i64(self.strVals[0].as_str()) {
                    None => {
                        return false;
                    },
                    Some(v) => v,
                };
                if matches!(self.op, SelectionOp::GreaterThan) {
                    lsValue > rValue
                } else {
                    lsValue < rValue
                }
            },
        }
    }

    /// The requirement's key.
    pub fn Key(&self) -> (r: String)
        ensures
            r@ == self.key@,
    {
        self.key.clone()
    }

    /// The requirement's operator.
    pub fn Operator(&self) -> (r: SelectionOp)
        ensures
            r == self.op,
    {
        self.op
    }

    /// The requirement's values, sorted and with duplicates removed.
    pub fn Values(&self) -> (r: Vec<String>)
        ensures
            strs_sorted_unique(r@),
            forall|t: Seq<char>| str_in(r@, t) <==> str_in(self.strVals@, t),
    {
        let mut set: Vec<String> = Vec::new();
        let mut i: usize = 0;
        while i < self.strVals.len()
            invariant
                i <= self.strVals@.len(),
                strs_sorted_unique(set@),
                forall|t: Seq<char>|
                    str_in(set@, t) <==> str_in(self.strVals@.take(i as int), t),
            decreases self.strVals@.len() - i,
        {
            let ghost pre = set@;
            sorted_insert(&mut set, self.strVals[i].clone());
            proof {
                let tk = self.strVals@.take(i as int);
                let tk1 = self.strVals@.take(i + 1);
                assert forall|t: Seq<char>| str_in(tk1, t) implies (str_in(tk, t) || t
                    == self.strVals@[i as int]@) by {
                    let j = choose|j: int| 0 <= j < tk1.len() && (#[trigger] tk1[j])@ == t;
                    if j < i {
                        assert(tk[j]@ == t);
                    }
                }
                assert forall|t: Seq<char>| (str_in(tk, t) || t == self.strVals@[i as int]@)
                    implies str_in(tk1, t) by {
                    if str_in(tk, t) {
                        let j = choose|j: int| 0 <= j < tk.len() && (#[trigger] tk[j])@ == t;
                        assert(tk1[j]@ == t);
                    } else {
                        assert(tk1[i as int]@ == t);
                    }
                }
            }
            i = i + 1;
        }
        proof {
            assert(self.strVals@.take(self.strVals@.len() as int) =~= self.strVals@);
        }
        set
    }

    /// Structural equality of two requirements, except that the value lists
    /// are compared by length only.
    pub fn Equal(&self, x: &Self) -> (r: bool)
        ensures
            r == (self.key@ == x.key@ && self.op == x.op && self.strVals@.len()
                == x.strVals@.len()),
    {
        if self.key != x.key {
            return false;
        }
        if !(self.op == x.op) {
            return false;
        }
        if self.strVals.len() != x.strVals.len() {
            return false;
        }
        true
    }

    /// Set-style equivalence: equal key, operator and value count, with
    /// every value of `other` occurring among this requirement's values.
    pub fn Equ(&self, other: &Self) -> (r: bool)
        ensures
            r == spec_req_equ(*self, *other),
    {
        if self.strVals.len() != other.strVals.len() {
            return false;
        }
        let mut i: usize = 0;
        while i < other.strVals.len()
            invariant
                i <= other.strVals@.len(),
                self.strVals@.len() == other.strVals@.len(),
                forall|j: int|
                    0 <= j < i ==> str_in(self.strVals@, (#[trigger] other.strVals@[j])@),
            decreases other.strVals@.len() - i,
        {
            if !self.HasValue(other.strVals[i].as_str()) {
                return false;
            }
            i = i + 1;
        }
        self.key == other.key && self.op == other.op
    }

    /// An explicit deep copy.
    pub fn Copy(&self) -> (r: Self)
        ensures
            r.key@ == self.key@,
            r.op == self.op,
            r.strVals@ == self.strVals@,
    {
        let mut vals: Vec<String> = Vec::new();
        let mut i: usize = 0;
        while i < self.strVals.len()
            invariant
                i <= self.strVals@.len(),
                vals@ =~= self.strVals@.take(i as int),
            decreases self.strVals@.len() - i,
        {
            vals.push(self.strVals[i].clone());
            proof {
                assert(self.strVals@.take(i + 1).drop_last() =~= self.strVals@.take(i as int));
            }
            i = i + 1;
        }
        proof {
            assert(self.strVals@.take(self.strVals@.len() as int) =~= self.strVals@);
        }
        Requirement { key: self.key.clone(), op: self.op, strVals: vals }
    }

    /// The human-readable form: `!key` for `DoesNotExist`, the bare key for
    /// `Exists`, and otherwise the key, the operator symbol and the sorted,
    /// deduplicated values (parenthesized for `In`/`NotIn`).
    pub fn String(&self) -> (r: String)
        ensures
            exists|vs: Seq<String>|
                strs_sorted_unique(vs) && (forall|t: Seq<char>|
                    str_in(vs, t) <==> str_in(self.strVals@, t)) && r@ == spec_req_string(
                    self.key@,
                    self.op,
                    vs,
                ),
            forall|vs: Seq<String>|
                #![trigger spec_req_string(self.key@, self.op, vs)]
                strs_sorted_unique(vs) && (forall|t: Seq<char>|
                    str_in(vs, t) <==> str_in(self.strVals@, t)) ==> r@ == spec_req_string(
                    self.key@,
                    self.op,
                    vs,
                ),
    {
        let mut output = String::new();
        if matches!(self.op, SelectionOp::DoesNotExist) {
            output.append("!");
        }
        output.append(self.key.as_str());

        match self.op {
            SelectionOp::DoesNotExist | SelectionOp::Exists => {
                let vals = self.Values();
                proof {
                    assert(output@ == spec_req_string(self.key@, self.op, vals@));
                    assert forall|vs: Seq<String>|
                        strs_sorted_unique(vs) && (forall|t: Seq<char>|
                            str_in(vs, t) <==> str_in(self.strVals@, t)) implies output@
                        == spec_req_string(self.key@, self.op, vs) by {
                        lemma_strs_sorted_unique_canonical(vs, vals@);
                        lemma_join_comma_view_determined(vs, vals@);
                    }
                }
                return output;
            },
            SelectionOp::Equals => output.append("="),
            SelectionOp::DoubleEquals => output.append("=="),
            SelectionOp::In => output.append(" in "),
            SelectionOp::NotEquals => output.append("!="),
            SelectionOp::NotIn => output.append(" notin "),
            SelectionOp::GreaterThan => output.append(">"),
            SelectionOp::LessThan => output.append("<"),
            SelectionOp::NoneOp => {},
        }

        if matches!(self.op, SelectionOp::In | SelectionOp::NotIn) {
            output.append("(");
        }

        let values = self.Values();
        let ghost mid = output@;
        let mut first = true;
        let mut i: usize = 0;
        while i < values.len()
            invariant
                i <= values@.len(),
                first == (i == 0),
                output@ == mid + spec_join_comma(values@.take(i as int)),
            decreases values@.len() - i,
        {
            if first {
                first = false;
            } else {
                output.append(",");
            }
            output.append(values[i].as_str());
            proof {
                let tk1 = values@.take(i + 1);
                assert(tk1.drop_last() =~= values@.take(i as int));
                assert(tk1.last() == values@[i as int]);
                if i == 0 {
                    assert(spec_join_comma(tk1) == values@[0]@);
                }
            }
            i = i + 1;
        }
        proof {
            assert(values@.take(values@.len() as int) =~= values@);
        }

        if matches!(self.op, SelectionOp::In | SelectionOp::NotIn) {
            output.append(")");
        }

        proof {
            assert(output@ == spec_req_string(self.key@, self.op, values@));
            assert forall|vs: Seq<String>|
                strs_sorted_unique(vs) && (forall|t: Seq<char>|
                    str_in(vs, t) <==> str_in(self.strVals@, t)) implies output@
                == spec_req_string(self.key@, self.op, vs) by {
                lemma_strs_sorted_unique_canonical(vs, values@);
                lemma_join_comma_view_determined(vs, values@);
            }
        }
        output
    }
}

/// The values joined by commas.
pub open spec fn spec_join_comma(vs: Seq<String>) -> Seq<char>
    decreases vs.len(),
{
    if vs.len() == 0 {
        Seq::<char>::empty()
    } else if vs.len() == 1 {
        vs[0]@
    } else {
        spec_join_comma(vs.drop_last()) + ","@ + vs.last()@
    }
}

/// The joined form depends only on the views of the values.
pub proof fn lemma_join_comma_view_determined(a: Seq<String>, b: Seq<String>)
    requires
        a.len() == b.len(),
        forall|i: int| 0 <= i < a.len() ==> (#[trigger] a[i])@ == b[i]@,
    ensures
        spec_join_comma(a) == spec_join_comma(b),
    decreases a.len(),
{
    if a.len() > 1 {
        assert(forall|i: int|
            0 <= i < a.len() - 1 ==> (#[trigger] a.drop_last()[i])@ == b.drop_last()[i]@);
        lemma_join_comma_view_determined(a.drop_last(), b.drop_last());
    }
}

/// The display form of a requirement over a given value list.
pub open spec fn spec_req_string(key: Seq<char>, op: SelectionOp, vs: Seq<String>) -> Seq<char> {
    let head: Seq<char> = if op is DoesNotExist {
        "!"@ + key
    } else {
        key
    };
    let opstr: Seq<char> = match op {
        SelectionOp::NoneOp => Seq::<char>::empty(),
        SelectionOp::DoesNotExist => Seq::<char>::empty(),
        SelectionOp::Exists => Seq::<char>::empty(),
        SelectionOp::Equals => "="@,
        SelectionOp::DoubleEquals => "=="@,
        SelectionOp::In => " in "@,
        SelectionOp::NotEquals => "!="@,
        SelectionOp::NotIn => " notin "@,
        SelectionOp::GreaterThan => ">"@,
        SelectionOp::LessThan => "<"@,
    };
    let vals: Seq<char> = if op is In || op is NotIn {
        "("@ + spec_join_comma(vs) + ")"@
    } else {
        spec_join_comma(vs)
    };
    if op is DoesNotExist || op is Exists {
        head
    } else {
        head + opstr + vals
    }
}

/// Build a requirement, falling back to the default requirement when the
/// inputs break the validity rules.
pub fn GetRequirement(key: &str, op: SelectionOp, vals: Vec<String>) -> (r: Requirement)
    requires
        !(op is NoneOp),
    ensures
        spec_requirement_valid(key@, op, vals@) ==> (r.key@ == key@ && r.op == op && r.strVals@
            == vals@),
        !spec_requirement_valid(key@, op, vals@) ==> (r.key@ == Seq::<char>::empty() && r.op
            is DoesNotExist && r.strVals@.len() == 0),
{
    match Requirement::New(key, op, vals) {
        Err(_e) => Requirement::default(),
        Ok(r) => r,
    }
}

// ---------------------------------------------------------------------------
// Selectors.
// ---------------------------------------------------------------------------

/// The requirements are ordered by key.
pub open spec fn selector_sorted(reqs: Seq<Requirement>) -> bool {
    forall|i: int, j: int|
        0 <= i < j < reqs.len() ==> char_seq_le(
            (#[trigger] reqs[i]).key@,
            (#[trigger] reqs[j]).key@,
        )
}

/// Whether every requirement matches the label map.
pub open spec fn spec_selector_match(reqs: Seq<Requirement>, lm: Map<Seq<char>, Seq<char>>) -> bool {
    forall|i: int| 0 <= i < reqs.len() ==> spec_matchs(#[trigger] reqs[i], lm)
}

/// No requirement carries the unset operator.
pub open spec fn spec_selector_ops_set(reqs: Seq<Requirement>) -> bool {
    forall|i: int| 0 <= i < reqs.len() ==> !((#[trigger] reqs[i]).op is NoneOp)
}

/// The quirky single-label introspection `RequiresExactMatch` performs: it
/// inspects requirements front to back, gives up on the first key mismatch
/// or non-equality operator, and returns the single value of the first
/// equality requirement on the label.
pub open spec fn spec_requires_exact_match(reqs: Seq<Requirement>, label: Seq<char>) -> Option<
    Seq<char>,
>
    decreases reqs.len(),
{
    if reqs.len() == 0 {
        None
    } else if reqs[0].key@ == label {
        if reqs[0].op is Equals || reqs[0].op is DoubleEquals || reqs[0].op is In {
            if reqs[0].strVals@.len() == 1 {
                Some(reqs[0].strVals@[0]@)
            } else {
                spec_requires_exact_match(reqs.skip(1), label)
            }
        } else {
            None
        }
    } else {
        None
    }
}

/// The canonical display of a requirement: its form over the sorted,
/// duplicate-free view of its values.
pub open spec fn spec_req_display(req: Requirement) -> Seq<char> {
    spec_req_string(
        req.key@,
        req.op,
        choose|vs: Seq<String>|
            strs_sorted_unique(vs) && (forall|t: Seq<char>|
                str_in(vs, t) <==> str_in(req.strVals@, t)),
    )
}

/// The canonical displays of the requirements, joined by commas.
pub open spec fn spec_selector_display(reqs: Seq<Requirement>) -> Seq<char>
    decreases reqs.len(),
{
    if reqs.len() == 0 {
        Seq::<char>::empty()
    } else if reqs.len() == 1 {
        spec_req_display(reqs[0])
    } else {
        spec_selector_display(reqs.drop_last()) + ","@ + spec_req_display(reqs.last())
    }
}

/// A label selector: a conjunction of requirements.
#[derive(Debug)]
pub struct Selector(pub Vec<Requirement>);

impl Default for Selector {
    fn default() -> (r: Self)
        ensures
            r.0@.len() == 0,
    {
        Selector(Vec::new())
    }
}

impl Selector {
    /// Parse a selector expression; see [`crate::selector_parse::Parse`].
    pub fn Parse(selector: &str) -> (r: Result<Self, Error>)
        ensures
            r matches Ok(sel) ==> selector_sorted(sel.0@) && spec_selector_ops_set(sel.0@)
                && (forall|i: int|
                0 <= i < sel.0@.len() ==> spec_requirement_valid(
                    (#[trigger] sel.0@[i]).key@,
                    sel.0@[i].op,
                    sel.0@[i].strVals@,
                )),
    {
        crate::selector_parse::Parse(selector)
    }

    /// Requirement-wise set-style equivalence.
    pub fn Equ(&self, other: &Self) -> (r: bool)
        ensures
            r == (self.0@.len() == other.0@.len() && (forall|i: int|
                0 <= i < self.0@.len() ==> spec_req_equ(
                    #[trigger] self.0@[i],
                    other.0@[i],
                ))),
    {
        if self.0.len() != other.0.len() {
            return false;
        }

        let mut i: usize = 0;
        while i < self.0.len()
            invariant
                i <= self.0@.len(),
                self.0@.len() == other.0@.len(),
                forall|j: int| 0 <= j < i ==> spec_req_equ(#[trigger] self.0@[j], other.0@[j]),
            decreases self.0@.len() - i,
        {
            if !self.0[i].Equ(&other.0[i]) {
                return false;
            }
            i = i + 1;
        }

        true
    }

    /// An explicit deep copy.
    pub fn DeepCopy(&self) -> (r: Self)
        ensures
            r.0@.len() == self.0@.len(),
            forall|i: int|
                0 <= i < r.0@.len() ==> (#[trigger] r.0@[i]).key@ == self.0@[i].key@
                    && r.0@[i].op == self.0@[i].op && r.0@[i].strVals@ == self.0@[i].strVals@,
    {
        let mut reqs: Vec<Requirement> = Vec::new();
        let mut i: usize = 0;
        while i < self.0.len()
            invariant
                i <= self.0@.len(),
                reqs@.len() == i,
                forall|j: int|
                    0 <= j < i ==> (#[trigger] reqs@[j]).key@ == self.0@[j].key@ && reqs@[j].op
                        == self.0@[j].op && reqs@[j].strVals@ == self.0@[j].strVals@,
            decreases self.0@.len() - i,
        {
            reqs.push(self.0[i].Copy());
            i = i + 1;
        }
        Selector(reqs)
    }

    /// Sort the requirements by key; the collection of requirements is
    /// unchanged.
    pub fn Sort(&mut self)
        ensures
            selector_sorted(final(self).0@),
            final(self).0@.to_multiset() == old(self).0@.to_multiset(),
    {
        let mut sorted: Vec<Requirement> = Vec::new();
        proof {
            broadcast use vstd::seq_lib::group_to_multiset_ensures;

            assert(sorted@.to_multiset().add(self.0@.to_multiset()) =~= self.0@.to_multiset());
        }
        while self.0.len() > 0
            invariant
                selector_sorted(sorted@),
                sorted@.to_multiset().add(self.0@.to_multiset()) == old(self).0@.to_multiset(),
            decreases self.0@.len(),
        {
            let ghost pre_self = self.0@;
            let ghost pre_sorted = sorted@;
            let r = self.0.remove(0);
            let n = sorted.len();
            let mut pos: usize = 0;
            while pos < n && !str_lt(r.key.as_str(), sorted[pos].key.as_str())
                invariant
                    n == sorted@.len(),
                    pos <= n,
                    sorted@ == pre_sorted,
                    forall|j: int|
                        0 <= j < pos ==> char_seq_le((#[trigger] sorted@[j]).key@, r.key@),
                decreases n - pos,
            {
                pos = pos + 1;
            }
            sorted.insert(pos, r);
            proof {
                broadcast use vstd::seq_lib::group_to_multiset_ensures;

                pre_sorted.insert_ensures(pos as int, r);
                assert forall|p: int, q: int| 0 <= p < q < sorted@.len() implies char_seq_le(
                    (#[trigger] sorted@[p]).key@,
                    (#[trigger] sorted@[q]).key@,
                ) by {
                    if q < pos {
                        assert(sorted@[p] == pre_sorted[p] && sorted@[q] == pre_sorted[q]);
                    } else if q == pos {
                        assert(sorted@[p] == pre_sorted[p]);
                    } else if p < pos {
                        assert(sorted@[p] == pre_sorted[p] && sorted@[q] == pre_sorted[q - 1]);
                        if q - 1 == pos {
                            assert(char_seq_lt(r.key@, pre_sorted[pos as int].key@));
                            lemma_char_seq_le_total(r.key@, pre_sorted[pos as int].key@);
                            lemma_char_seq_le_trans(
                                pre_sorted[p].key@,
                                r.key@,
                                pre_sorted[pos as int].key@,
                            );
                        } else {
                            assert(char_seq_le(pre_sorted[p].key@, pre_sorted[q - 1].key@));
                        }
                    } else if p == pos {
                        assert(sorted@[q] == pre_sorted[q - 1]);
                        assert(char_seq_lt(r.key@, pre_sorted[pos as int].key@));
                        lemma_char_seq_le_total(r.key@, pre_sorted[pos as int].key@);
                        if q - 1 > pos {
                            lemma_char_seq_le_trans(
                                r.key@,
                                pre_sorted[pos as int].key@,
                                pre_sorted[q - 1].key@,
                            );
                        }
                    } else {
                        assert(sorted@[p] == pre_sorted[p - 1] && sorted@[q] == pre_sorted[q
                            - 1]);
                    }
                }
                // The multiset moves one element from the tail to the
                // sorted prefix.
                assert(pre_self.contains(r)) by {
                    assert(pre_self[0] == r);
                }
                assert(pre_self.to_multiset().count(r) > 0);
                assert(sorted@ =~= pre_sorted.subrange(0, pos as int).push(r)
                    + pre_sorted.subrange(pos as int, pre_sorted.len() as int));
                vstd::seq_lib::lemma_multiset_commutative(
                    pre_sorted.subrange(0, pos as int).push(r),
                    pre_sorted.subrange(pos as int, pre_sorted.len() as int),
                );
                vstd::seq_lib::lemma_multiset_commutative(
                    pre_sorted.subrange(0, pos as int),
                    pre_sorted.subrange(pos as int, pre_sorted.len() as int),
                );
                assert(pre_sorted.subrange(0, pos as int) + pre_sorted.subrange(
                    pos as int,
                    pre_sorted.len() as int,
                ) =~= pre_sorted);
                assert(sorted@.to_multiset() =~= pre_sorted.to_multiset().insert(r));
                assert(self.0@ =~= pre_self.remove(0));
                assert(self.0@.to_multiset() =~= pre_self.to_multiset().remove(r));
                assert(sorted@.to_multiset().add(self.0@.to_multiset())
                    =~= pre_sorted.to_multiset().add(pre_self.to_multiset()));
            }
        }
        proof {
            broadcast use vstd::seq_lib::group_to_multiset_ensures;

            assert(self.0@.to_multiset() =~= Multiset::<Requirement>::empty());
            assert(sorted@.to_multiset().add(self.0@.to_multiset()) =~= sorted@.to_multiset());
        }
        self.0 = sorted;
    }

    /// Append a requirement.
    pub fn Add(&mut self, r: Requirement)
        ensures
            final(self).0@ == old(self).0@.push(r),
    {
        self.0.push(r);
    }

    /// Whether every requirement of the selector matches the labels.
    pub fn Match(&self, l: &Labels) -> (r: bool)
        requires
            l.wf(),
            spec_selector_ops_set(self.0@),
        ensures
            r == spec_selector_match(self.0@, l.view_map()),
    {
        let mut i: usize = 0;
        while i < self.0.len()
            invariant
                i <= self.0@.len(),
                l.wf(),
                spec_selector_ops_set(self.0@),
                forall|j: int| 0 <= j < i ==> spec_matchs(#[trigger] self.0@[j], l.view_map()),
            decreases self.0@.len() - i,
        {
            if !self.0[i].Matchs(l) {
                return false;
            }
            i = i + 1;
        }
        true
    }

    /// The comma-separated display form of the requirements.
    pub fn String(&self) -> (r: String)
        ensures
            r@ == spec_selector_display(self.0@),
    {
        let mut out = String::new();
        let mut i: usize = 0;
        while i < self.0.len()
            invariant
                i <= self.0@.len(),
                out@ == spec_selector_display(self.0@.take(i as int)),
            decreases self.0@.len() - i,
        {
            if i != 0 {
                out.append(",");
            }
            let s = self.0[i].String();
            proof {
                let req = self.0@[i as int];
                let vs0 = choose|vs: Seq<String>|
                    strs_sorted_unique(vs) && (forall|t: Seq<char>|
                        str_in(vs, t) <==> str_in(req.strVals@, t));
                assert(s@ == spec_req_string(req.key@, req.op, vs0));
                assert(s@ == spec_req_display(req));
                let tk1 = self.0@.take(i + 1);
                assert(tk1.drop_last() =~= self.0@.take(i as int));
                assert(tk1.last() == req);
                if i == 0 {
                    assert(tk1[0] == req);
                }
            }
            out.append(s.as_str());
            i = i + 1;
        }
        proof {
            assert(self.0@.take(self.0@.len() as int) =~= self.0@);
        }
        out
    }

    /// If the selector pins `label` to one exact value, return it.
    pub fn RequiresExactMatch(&self, label: &str) -> (r: Option<String>)
        ensures
            match r {
                Some(v) => spec_requires_exact_match(self.0@, label@) == Some(v@),
                None => spec_requires_exact_match(self.0@, label@) is None,
            },
    {
        let lbl = label.to_owned();
        proof {
            assert(self.0@.skip(0) =~= self.0@);
        }
        let n = self.0.len();
        let mut i: usize = 0;
        while i < n
            invariant
                n == self.0@.len(),
                i <= n,
                lbl@ == label@,
                spec_requires_exact_match(self.0@, label@) == spec_requires_exact_match(
                    self.0@.skip(i as int),
                    label@,
                ),
            decreases n - i,
        {
            proof {
                assert(self.0@.skip(i as int)[0] == self.0@[i as int]);
                assert(self.0@.skip(i as int).skip(1) =~= self.0@.skip(i + 1));
            }
            if self.0[i].key == lbl {
                match self.0[i].op {
                    SelectionOp::Equals | SelectionOp::DoubleEquals | SelectionOp::In => {
                        if self.0[i].strVals.len() == 1 {
                            return Some(self.0[i].strVals[0].clone());
                        }
                    },
                    _ => {
                        return None;
                    },
                }
            } else {
                return None;
            }
            i = i + 1;
        }
        proof {
            assert(self.0@.skip(n as int).len() == 0);
        }
        None
    }

    /// Whether the selector has no requirements.
    pub fn Empty(&self) -> (r: bool)
        ensures
            r == (self.0@.len() == 0),
    {
        self.0.len() == 0
    }
}

// ---------------------------------------------------------------------------
// Label formatting, comparison and conversion to selectors.
// ---------------------------------------------------------------------------

/// The `key=value` pairs joined by commas, in key order.
pub open spec fn spec_labels_string(s: Seq<(String, String)>) -> Seq<char>
    decreases s.len(),
{
    if s.len() == 0 {
        Seq::<char>::empty()
    } else if s.len() == 1 {
        s[0].0@ + "="@ + s[0].1@
    } else {
        spec_labels_string(s.drop_last()) + ","@ + s.last().0@ + "="@ + s.last().1@
    }
}

/// A nonempty label list has a nonempty display string.
pub proof fn lemma_labels_string_nonempty(s: Seq<(String, String)>)
    requires
        s.len() > 0,
    ensures
        spec_labels_string(s).len() > 0,
    decreases s.len(),
{
    reveal_strlit("=");
    reveal_strlit(",");
    if s.len() > 1 {
        lemma_labels_string_nonempty(s.drop_last());
    }
}

/// The sequential conflict scan: walk the smaller map in key order; stop
/// with no conflict at the first key the bigger map lacks, and report a
/// conflict at the first shared key whose values differ.
pub open spec fn spec_conflict_scan(
    small: Seq<(String, String)>,
    big: Map<Seq<char>, Seq<char>>,
) -> bool
    decreases small.len(),
{
    if small.len() == 0 {
        false
    } else if !big.contains_key(small[0].0@) {
        false
    } else if big[small[0].0@] != small[0].1@ {
        true
    } else {
        spec_conflict_scan(small.skip(1), big)
    }
}

/// Leading and trailing blanks removed.
pub open spec fn spec_trim_front(s: Seq<char>) -> Seq<char>
    decreases s.len(),
{
    if s.len() > 0 && crate::selector_parse::spec_is_ws(s[0]) {
        spec_trim_front(s.skip(1))
    } else {
        s
    }
}

pub open spec fn spec_trim_back(s: Seq<char>) -> Seq<char>
    decreases s.len(),
{
    if s.len() > 0 && crate::selector_parse::spec_is_ws(s[s.len() - 1]) {
        spec_trim_back(s.drop_last())
    } else {
        s
    }
}

/// The string with ASCII blanks removed from both ends.
pub open spec fn spec_trim(s: Seq<char>) -> Seq<char> {
    spec_trim_back(spec_trim_front(s))
}

/// Remove ASCII blanks from both ends.
fn trim_spaces<'a>(s: &'a str) -> (r: &'a str)
    ensures
        r@ == spec_trim(s@),
{
    let len = s.unicode_len();
    proof {
        assert(s@.skip(0) =~= s@);
    }
    let mut a: usize = 0;
    while a < len && crate::selector_parse::IsWhitespace(s.get_char(a))
        invariant
            len == s@.len(),
            a <= len,
            spec_trim_front(s@) == spec_trim_front(s@.skip(a as int)),
        decreases len - a,
    {
        proof {
            assert(s@.skip(a as int)[0] == s@[a as int]);
            assert(s@.skip(a as int).skip(1) =~= s@.skip(a + 1));
        }
        a = a + 1;
    }
    proof {
        if a < len {
            assert(s@.skip(a as int)[0] == s@[a as int]);
        }
        assert(spec_trim_front(s@) =~= s@.skip(a as int));
    }
    let mut b: usize = len;
    while b > a && crate::selector_parse::IsWhitespace(s.get_char(b - 1))
        invariant
            len == s@.len(),
            a <= b <= len,
            spec_trim_back(s@.skip(a as int)) == spec_trim_back(
                s@.subrange(a as int, b as int),
            ),
        decreases b,
    {
        proof {
            let sub = s@.subrange(a as int, b as int);
            assert(sub[sub.len() - 1] == s@[b - 1]);
            assert(sub.drop_last() =~= s@.subrange(a as int, b - 1));
        }
        b = b - 1;
    }
    proof {
        let sub = s@.subrange(a as int, b as int);
        if b > a {
            assert(sub[sub.len() - 1] == s@[b - 1]);
        }
        assert(spec_trim_back(s@.skip(a as int)) =~= sub);
    }
    s.substring_char(a, b)
}

impl crate::data_obj::DeepCopy for Labels {
    fn DeepCopy(&self) -> Self {
        self.Copy()
    }
}

impl Labels {
    /// Parse a comma-separated `key=value` list, trimming blanks around
    /// keys and values and validating both.
    pub fn New(selector: &str) -> (r: Result<Labels, Error>)
        requires
            selector@.len() < usize::MAX,
        ensures
            r matches Ok(l) ==> l.wf(),
            selector@.len() == 0 ==> (r matches Ok(l) && l.0@.len() == 0),
            r matches Ok(l) ==> forall|k: Seq<char>| #[trigger]
                l.view_map().contains_key(k) ==> spec_qualified_name(k)
                    && spec_valid_label_value(l.view_map()[k]),
    {
        let mut entries: Vec<(String, String)> = Vec::new();
        let len = selector.unicode_len();
        if len == 0 {
            return Ok(Labels(entries));
        }

        let mut seg_start: usize = 0;
        let mut i: usize = 0;
        while i <= len
            invariant
                len == selector@.len(),
                len < usize::MAX,
                0 < len,
                seg_start <= i,
                i <= len + 1,
                lkeys_sorted(entries@),
                forall|k: Seq<char>| #[trigger]
                    labels_map(entries@).contains_key(k) ==> spec_qualified_name(k)
                        && spec_valid_label_value(labels_map(entries@)[k]),
            decreases len + 1 - i,
        {
            let at_end = i == len;
            let is_sep = if i < len {
                selector.get_char(i) == ','
            } else {
                false
            };
            if at_end || is_sep {
                if seg_start > i {
                    return Err(Error::CommonError("invalid selector".to_owned()));
                }
                let seg = selector.substring_char(seg_start, if i < len {
                    i
                } else {
                    len
                });
                let seglen = seg.unicode_len();
                let mut eqpos: usize = seglen;
                let mut eqcount: usize = 0;
                let mut j: usize = 0;
                while j < seglen
                    invariant
                        seglen == seg@.len(),
                        j <= seglen,
                        eqcount <= j,
                        eqpos <= seglen,
                        eqcount > 0 ==> eqpos < seglen,
                    decreases seglen - j,
                {
                    if seg.get_char(j) == '=' {
                        if eqcount == 0 {
                            eqpos = j;
                        }
                        eqcount = eqcount + 1;
                    }
                    j = j + 1;
                }
                if eqcount != 1 {
                    return Err(Error::CommonError("invalid selector".to_owned()));
                }
                let rawkey = seg.substring_char(0, eqpos);
                let rawval = seg.substring_char(eqpos + 1, seglen);
                let key = trim_spaces(rawkey);
                match IsQualifiedName(key) {
                    Err(e) => {
                        return Err(e);
                    },
                    Ok(_) => {},
                }
                let value = trim_spaces(rawval);
                match IsValidLabelValue(value) {
                    Err(e) => {
                        return Err(e);
                    },
                    Ok(_) => {},
                }
                labels_set_entry(&mut entries, key.to_owned(), value.to_owned());
                seg_start = i + 1;
            }
            i = i + 1;
        }

        Ok(Labels(entries))
    }

    /// The labels as a `key=value` list, in key order; exactly the format
    /// `New` parses.
    pub fn String(&self) -> (r: String)
        ensures
            r@ == spec_labels_string(self.0@),
    {
        let mut ret = String::new();
        let mut i: usize = 0;
        while i < self.0.len()
            invariant
                i <= self.0@.len(),
                ret@ == spec_labels_string(self.0@.take(i as int)),
            decreases self.0@.len() - i,
        {
            if i != 0 {
                ret.append(",");
            }
            ret.append(self.0[i].0.as_str());
            ret.append("=");
            ret.append(self.0[i].1.as_str());
            proof {
                let tk1 = self.0@.take(i + 1);
                assert(tk1.drop_last() =~= self.0@.take(i as int));
                assert(tk1.last() == self.0@[i as int]);
                if i == 0 {
                    assert(tk1[0] == self.0@[0]);
                }
            }
            i = i + 1;
        }
        proof {
            assert(self.0@.take(self.0@.len() as int) =~= self.0@);
        }
        ret
    }

    /// The display form for humans: `<none>` when empty.
    pub fn Format(&self) -> (r: String)
        ensures
            r@ == if self.0@.len() == 0 {
                "<none>"@
            } else {
                spec_labels_string(self.0@)
            },
    {
        let l = self.String();
        if l.unicode_len() == 0 {
            proof {
                if self.0@.len() > 0 {
                    lemma_labels_string_nonempty(self.0@);
                }
            }
            return "<none>".to_owned();
        }
        proof {
            if self.0@.len() == 0 {
                assert(l@.len() == 0);
            }
        }
        l
    }

    /// Whether the two maps disagree, as seen by a front-to-back scan of
    /// the smaller one that gives up at the first missing key.
    pub fn Conflict(&self, labels: &Self) -> (r: bool)
        requires
            self.wf(),
            labels.wf(),
        ensures
            r == if self.0@.len() < labels.0@.len() {
                spec_conflict_scan(self.0@, labels.view_map())
            } else {
                spec_conflict_scan(labels.0@, self.view_map())
            },
    {
        let (small, big) = if self.0.len() < labels.0.len() {
            (self, labels)
        } else {
            (labels, self)
        };

        proof {
            assert(small.0@.skip(0) =~= small.0@);
        }
        let n = small.0.len();
        let mut i: usize = 0;
        while i < n
            invariant
                n == small.0@.len(),
                i <= n,
                small.wf(),
                big.wf(),
                if self.0@.len() < labels.0@.len() {
                    small.0@ == self.0@ && big.0@ == labels.0@
                } else {
                    small.0@ == labels.0@ && big.0@ == self.0@
                },
                spec_conflict_scan(small.0@, big.view_map()) == spec_conflict_scan(
                    small.0@.skip(i as int),
                    big.view_map(),
                ),
            decreases n - i,
        {
            proof {
                assert(small.0@.skip(i as int)[0] == small.0@[i as int]);
                assert(small.0@.skip(i as int).skip(1) =~= small.0@.skip(i + 1));
            }
            match big.Get(small.0[i].0.as_str()) {
                None => {
                    return false;
                },
                Some(v) => {
                    if v != small.0[i].1 {
                        return true;
                    }
                },
            }
            i = i + 1;
        }
        proof {
            assert(small.0@.skip(n as int).len() == 0);
        }
        false
    }

    /// Combine two maps; on a shared key the second map wins.
    pub fn Merge(&self, labels: &Self) -> (r: Self)
        requires
            self.wf(),
            labels.wf(),
        ensures
            r.wf(),
            r.view_map() == self.view_map().union_prefer_right(labels.view_map()),
    {
        let mut merged = self.Copy();
        proof {
            assert(merged.view_map() =~= self.view_map().union_prefer_right(
                labels_map(labels.0@.take(0)),
            ));
        }
        let mut i: usize = 0;
        while i < labels.0.len()
            invariant
                i <= labels.0@.len(),
                labels.wf(),
                merged.wf(),
                merged.view_map() == self.view_map().union_prefer_right(
                    labels_map(labels.0@.take(i as int)),
                ),
            decreases labels.0@.len() - i,
        {
            labels_set_entry(&mut merged.0, labels.0[i].0.clone(), labels.0[i].1.clone());
            proof {
                let tk1 = labels.0@.take(i + 1);
                assert(tk1.drop_last() =~= labels.0@.take(i as int));
                assert(tk1.last() == labels.0@[i as int]);
                assert(merged.view_map() =~= self.view_map().union_prefer_right(
                    labels_map(tk1),
                ));
            }
            i = i + 1;
        }
        proof {
            assert(labels.0@.take(labels.0@.len() as int) =~= labels.0@);
        }
        merged
    }

    /// Whether the two maps are equal.
    pub fn Equals(&self, labels: &Self) -> (r: bool)
        requires
            self.wf(),
            labels.wf(),
        ensures
            r == (self.view_map() == labels.view_map()),
    {
        if self.0.len() != labels.0.len() {
            proof {
                lemma_labels_map_len(self.0@);
                lemma_labels_map_len(labels.0@);
            }
            return false;
        }

        let n = self.0.len();
        let mut i: usize = 0;
        while i < n
            invariant
                n == self.0@.len(),
                n == labels.0@.len(),
                i <= n,
                self.wf(),
                labels.wf(),
                forall|j: int|
                    0 <= j < i ==> labels.view_map().contains_key((#[trigger] self.0@[j]).0@)
                        && labels.view_map()[self.0@[j].0@] == self.0@[j].1@,
            decreases n - i,
        {
            proof {
                lemma_labels_map_index(self.0@, i as int);
            }
            match labels.Get(self.0[i].0.as_str()) {
                None => {
                    proof {
                        assert(self.view_map().contains_key(self.0@[i as int].0@));
                    }
                    return false;
                },
                Some(v) => {
                    if v != self.0[i].1 {
                        proof {
                            assert(self.view_map()[self.0@[i as int].0@]
                                == self.0@[i as int].1@);
                        }
                        return false;
                    }
                },
            }
            i = i + 1;
        }

        proof {
            lemma_labels_map_dom(self.0@);
            lemma_labels_map_dom(labels.0@);
            lemma_labels_map_len(self.0@);
            lemma_labels_map_len(labels.0@);
            assert forall|k: Seq<char>| #[trigger]
                self.view_map().contains_key(k) implies labels.view_map().contains_key(k)
                && labels.view_map()[k] == self.view_map()[k] by {
                assert(lkey_in(self.0@, k));
                let j = choose|j: int| 0 <= j < self.0@.len() && (#[trigger] self.0@[j]).0@ == k;
                lemma_labels_map_index(self.0@, j);
            }
            vstd::set_lib::lemma_subset_equality(
                self.view_map().dom(),
                labels.view_map().dom(),
            );
            assert(self.view_map() =~= labels.view_map());
        }
        true
    }

    /// Whether every label of this map appears with the same value in
    /// `labels`.
    pub fn Matches(&self, labels: &Labels) -> (r: bool)
        requires
            self.wf(),
            labels.wf(),
        ensures
            r == (forall|k: Seq<char>| #[trigger]
                self.view_map().contains_key(k) ==> labels.view_map().contains_key(k)
                    && labels.view_map()[k] == self.view_map()[k]),
    {
        let n = self.0.len();
        let mut i: usize = 0;
        while i < n
            invariant
                n == self.0@.len(),
                i <= n,
                self.wf(),
                labels.wf(),
                forall|j: int|
                    0 <= j < i ==> labels.view_map().contains_key((#[trigger] self.0@[j]).0@)
                        && labels.view_map()[self.0@[j].0@] == self.0@[j].1@,
            decreases n - i,
        {
            proof {
                lemma_labels_map_index(self.0@, i as int);
            }
            match labels.Get(self.0[i].0.as_str()) {
                None => {
                    proof {
                        assert(self.view_map().contains_key(self.0@[i as int].0@));
                    }
                    return false;
                },
                Some(v) => {
                    if v != self.0[i].1 {
                        proof {
                            assert(self.view_map()[self.0@[i as int].0@]
                                == self.0@[i as int].1@);
                        }
                        return false;
                    }
                },
            }
            i = i + 1;
        }
        proof {
            lemma_labels_map_dom(self.0@);
            assert forall|k: Seq<char>| #[trigger]
                self.view_map().contains_key(k) implies labels.view_map().contains_key(k)
                && labels.view_map()[k] == self.view_map()[k] by {
                assert(lkey_in(self.0@, k));
                let j = choose|j: int| 0 <= j < self.0@.len() && (#[trigger] self.0@[j]).0@ == k;
                lemma_labels_map_index(self.0@, j);
            }
        }
        true
    }

    /// The selector that matches exactly these labels: one `Equals`
    /// requirement per label, in key order.
    pub fn ToSelector(&self) -> (r: Selector)
        requires
            self.wf(),
        ensures
            r.0@.len() == self.0@.len(),
            forall|i: int|
                0 <= i < r.0@.len() ==> (#[trigger] r.0@[i]).key@ == self.0@[i].0@
                    && r.0@[i].op is Equals && r.0@[i].strVals@.len() == 1
                    && r.0@[i].strVals@[0]@ == self.0@[i].1@,
    {
        let mut res = Selector::default();
        let mut i: usize = 0;
        while i < self.0.len()
            invariant
                i <= self.0@.len(),
                res.0@.len() == i,
                forall|j: int|
                    0 <= j < i ==> (#[trigger] res.0@[j]).key@ == self.0@[j].0@ && res.0@[j].op
                        is Equals && res.0@[j].strVals@.len() == 1 && res.0@[j].strVals@[0]@
                        == self.0@[j].1@,
            decreases self.0@.len() - i,
        {
            let mut vals: Vec<String> = Vec::new();
            vals.push(self.0[i].1.clone());
            res.Add(
                Requirement {
                    key: self.0[i].0.clone(),
                    op: SelectionOp::Equals,
                    strVals: vals,
                },
            );
            i = i + 1;
        }
        res
    }

    /// The value this map pins `label` to, if any.
    pub fn RequiresExactMatch(&self, lable: &str) -> (r: Option<String>)
        requires
            self.wf(),
        ensures
            match r {
                Some(v) => self.view_map().contains_key(lable@) && self.view_map()[lable@]
                    == v@,
                None => !self.view_map().contains_key(lable@),
            },
    {
        self.Get(lable)
    }

    /// The full selector for these labels; see [`SelectorFromSet`].
    pub fn toFullSelector(&self) -> (r: Selector)
        requires
            self.wf(),
        ensures
            r.0@.len() == self.0@.len(),
            forall|i: int|
                0 <= i < r.0@.len() ==> (#[trigger] r.0@[i]).key@ == self.0@[i].0@
                    && r.0@[i].op is Equals && r.0@[i].strVals@.len() == 1
                    && r.0@[i].strVals@[0]@ == self.0@[i].1@,
    {
        SelectorFromSet(self)
    }
}

/// Forward to the qualified-name validation of label keys.
pub fn ValidateLabelKey(k: &str) -> (r: Result<(), Error>)
    ensures
        r is Ok <==> spec_qualified_name(k@),
        r matches Err(e) ==> e is CommonError,
{
    IsQualifiedName(k)
}

/// Forward to the label-value validation.
pub fn ValidateLabelValue(_k: &str, v: &str) -> (r: Result<(), Error>)
    ensures
        r is Ok <==> spec_valid_label_value(v@),
        r matches Err(e) ==> e is CommonError,
{
    IsValidLabelValue(v)
}

/// The selector that matches exactly the given label set, without
/// validating it.
pub fn SelectorFromSet(ls: &Labels) -> (r: Selector)
    requires
        ls.wf(),
    ensures
        r.0@.len() == ls.0@.len(),
        forall|i: int|
            0 <= i < r.0@.len() ==> (#[trigger] r.0@[i]).key@ == ls.0@[i].0@ && r.0@[i].op
                is Equals && r.0@[i].strVals@.len() == 1 && r.0@[i].strVals@[0]@
                == ls.0@[i].1@,
{
    SelectorFromValidatedSet(ls)
}

/// The selector that matches exactly the given label set, validating each
/// key on the way.
pub fn ValidatedSelectorFromSet(ls: &Labels) -> (r: Result<Selector, Error>)
    requires
        ls.wf(),
    ensures
        r is Ok <==> (forall|i: int|
            0 <= i < ls.0@.len() ==> spec_qualified_name((#[trigger] ls.0@[i]).0@)),
        r matches Ok(sel) ==> sel.0@.len() == ls.0@.len() && (forall|i: int|
            0 <= i < sel.0@.len() ==> (#[trigger] sel.0@[i]).key@ == ls.0@[i].0@
                && sel.0@[i].op is Equals && sel.0@[i].strVals@.len() == 1
                && sel.0@[i].strVals@[0]@ == ls.0@[i].1@),
{
    let mut rs = Selector::default();
    if ls.0.len() == 0 {
        return Ok(rs);
    }

    let mut i: usize = 0;
    while i < ls.0.len()
        invariant
            i <= ls.0@.len(),
            ls.wf(),
            rs.0@.len() == i,
            forall|j: int| 0 <= j < i ==> spec_qualified_name((#[trigger] ls.0@[j]).0@),
            forall|j: int|
                0 <= j < i ==> (#[trigger] rs.0@[j]).key@ == ls.0@[j].0@ && rs.0@[j].op
                    is Equals && rs.0@[j].strVals@.len() == 1 && rs.0@[j].strVals@[0]@
                    == ls.0@[j].1@,
        decreases ls.0@.len() - i,
    {
        let mut vals: Vec<String> = Vec::new();
        vals.push(ls.0[i].1.clone());
        let req = match Requirement::New(ls.0[i].0.as_str(), SelectionOp::Equals, vals) {
            Ok(req) => req,
            Err(e) => {
                proof {
                    assert(!spec_qualified_name(ls.0@[i as int].0@));
                }
                return Err(e);
            },
        };
        rs.Add(req);
        i = i + 1;
    }

    // The labels are already in key order, so the requirements are too.
    Ok(rs)
}

/// The selector that matches exactly the given, already validated label
/// set.
pub fn SelectorFromValidatedSet(ls: &Labels) -> (r: Selector)
    requires
        ls.wf(),
    ensures
        r.0@.len() == ls.0@.len(),
        forall|i: int|
            0 <= i < r.0@.len() ==> (#[trigger] r.0@[i]).key@ == ls.0@[i].0@ && r.0@[i].op
                is Equals && r.0@[i].strVals@.len() == 1 && r.0@[i].strVals@[0]@
                == ls.0@[i].1@,
{
    // The labels are already in key order, so the requirements are too.
    ls.ToSelector()
}

} // verus!
