//! Tests for labels, requirements and the selector parser.

use inferxlib::selector::{
    GetRequirement, Labels, Requirement, SelectionOp, Selector, SelectorFromSet,
    ValidateLabelKey, ValidateLabelValue, ValidatedSelectorFromSet,
};

fn labels_of(pairs: &[(&str, &str)]) -> Labels {
    let owned: Vec<(String, String)> =
        pairs.iter().map(|(k, v)| (k.to_string(), v.to_string())).collect();
    Labels::NewFromSlice(&owned)
}

#[test]
fn labels_new_parses_and_trims() {
    let l = Labels::New("env = prod , app=web").unwrap();
    assert_eq!(l.Get("env").as_deref(), Some("prod"));
    assert_eq!(l.Get("app").as_deref(), Some("web"));
    assert!(l.Has("env"));
    assert!(!l.Has("tier"));

    assert!(Labels::New("").unwrap().Empty());
    // A segment without '=' or with two of them is refused.
    assert!(Labels::New("justakey").is_err());
    assert!(Labels::New("a=b=c").is_err());
    assert!(Labels::New("a=1,,b=2").is_err());
    // Invalid keys and values are refused.
    assert!(Labels::New("-bad=1").is_err());
    assert!(Labels::New("ok=bad value").is_err());
}

#[test]
fn labels_string_is_sorted_and_parseable() {
    let l = labels_of(&[("b", "2"), ("a", "1")]);
    assert_eq!(l.String(), "a=1,b=2");
    assert_eq!(l.Format(), "a=1,b=2");
    assert_eq!(labels_of(&[]).Format(), "<none>");
    assert_eq!(labels_of(&[]).String(), "");
}

#[test]
fn labels_from_pairs_later_duplicate_wins() {
    let l = labels_of(&[("k", "old"), ("k", "new")]);
    assert_eq!(l.Get("k").as_deref(), Some("new"));
    assert_eq!(l.0.len(), 1);
}

#[test]
fn labels_merge_prefers_second() {
    let a = labels_of(&[("x", "1"), ("y", "2")]);
    let b = labels_of(&[("y", "9"), ("z", "3")]);
    let m = a.Merge(&b);
    assert_eq!(m.Get("x").as_deref(), Some("1"));
    assert_eq!(m.Get("y").as_deref(), Some("9"));
    assert_eq!(m.Get("z").as_deref(), Some("3"));
}

#[test]
fn labels_conflict_scan_gives_up_at_missing_key() {
    let small = labels_of(&[("a", "1"), ("b", "2")]);
    let big = labels_of(&[("b", "9"), ("c", "3"), ("d", "4")]);
    // The scan hits key "a" first, which the bigger map lacks, and stops
    // without seeing the real disagreement on "b".
    assert!(!small.Conflict(&big));

    let small2 = labels_of(&[("b", "2"), ("c", "1")]);
    assert!(small2.Conflict(&big));
    let agreeing = labels_of(&[("b", "9"), ("c", "3")]);
    assert!(!agreeing.Conflict(&big));
}

#[test]
fn labels_equals_and_matches() {
    let a = labels_of(&[("x", "1"), ("y", "2")]);
    let b = labels_of(&[("y", "2"), ("x", "1")]);
    assert!(a.Equals(&b));
    assert!(!a.Equals(&labels_of(&[("x", "1")])));
    assert!(!a.Equals(&labels_of(&[("x", "1"), ("y", "3")])));

    let sub = labels_of(&[("x", "1")]);
    assert!(sub.Matches(&a));
    assert!(!a.Matches(&sub));
    assert!(labels_of(&[]).Matches(&a));
}

#[test]
fn labels_copy_and_exact_match() {
    let a = labels_of(&[("x", "1")]);
    let c = a.Copy();
    assert_eq!(c.String(), "x=1");
    assert_eq!(a.RequiresExactMatch("x").as_deref(), Some("1"));
    assert_eq!(a.RequiresExactMatch("nope"), None);
}

#[test]
fn labels_to_selector_matches_exactly() {
    let l = labels_of(&[("app", "web"), ("env", "prod")]);
    let sel = l.ToSelector();
    assert_eq!(sel.0.len(), 2);
    assert!(sel.Match(&l));
    assert!(!sel.Match(&labels_of(&[("app", "web")])));

    let sel2 = SelectorFromSet(&l);
    assert!(sel2.Match(&l));
    let sel3 = ValidatedSelectorFromSet(&l).unwrap();
    assert!(sel3.Match(&l));
    let sel4 = l.toFullSelector();
    assert!(sel4.Match(&l));
}

#[test]
fn requirement_new_enforces_the_rules() {
    let ok = Requirement::New("app", SelectionOp::In, vec!["a".to_owned()]);
    assert!(ok.is_ok());
    // In/NotIn need at least one value.
    assert!(Requirement::New("app", SelectionOp::In, vec![]).is_err());
    // Equality operators need exactly one.
    assert!(Requirement::New("app", SelectionOp::Equals, vec![]).is_err());
    assert!(
        Requirement::New("app", SelectionOp::Equals, vec!["a".to_owned(), "b".to_owned()])
            .is_err()
    );
    // Exists and DoesNotExist need none.
    assert!(Requirement::New("app", SelectionOp::Exists, vec!["a".to_owned()]).is_err());
    assert!(Requirement::New("app", SelectionOp::Exists, vec![]).is_ok());
    // Gt and Lt need one unsigned integer.
    assert!(Requirement::New("app", SelectionOp::GreaterThan, vec!["12".to_owned()]).is_ok());
    assert!(Requirement::New("app", SelectionOp::GreaterThan, vec!["x".to_owned()]).is_err());
    assert!(Requirement::New("app", SelectionOp::LessThan, vec!["-3".to_owned()]).is_err());
    // The key must be a qualified name.
    assert!(Requirement::New("bad key", SelectionOp::Exists, vec![]).is_err());
    assert!(Requirement::New("example.com/app", SelectionOp::Exists, vec![]).is_ok());
}

#[test]
fn requirement_matchs_by_operator() {
    let l = labels_of(&[("app", "web"), ("replicas", "10")]);

    let r_in = Requirement::New("app", SelectionOp::In, vec!["web".to_owned(), "api".to_owned()])
        .unwrap();
    assert!(r_in.Matchs(&l));
    let r_eq = Requirement::New("app", SelectionOp::Equals, vec!["api".to_owned()]).unwrap();
    assert!(!r_eq.Matchs(&l));

    let r_notin =
        Requirement::New("app", SelectionOp::NotIn, vec!["api".to_owned()]).unwrap();
    assert!(r_notin.Matchs(&l));
    // NotIn also matches when the key is absent.
    let r_notin2 =
        Requirement::New("tier", SelectionOp::NotIn, vec!["x".to_owned()]).unwrap();
    assert!(r_notin2.Matchs(&l));

    let r_exists = Requirement::New("replicas", SelectionOp::Exists, vec![]).unwrap();
    assert!(r_exists.Matchs(&l));
    let r_nexists = Requirement::New("tier", SelectionOp::DoesNotExist, vec![]).unwrap();
    assert!(r_nexists.Matchs(&l));

    let r_gt = Requirement::New("replicas", SelectionOp::GreaterThan, vec!["9".to_owned()])
        .unwrap();
    assert!(r_gt.Matchs(&l));
    let r_lt = Requirement::New("replicas", SelectionOp::LessThan, vec!["9".to_owned()])
        .unwrap();
    assert!(!r_lt.Matchs(&l));
    // A non-numeric label value never satisfies Gt/Lt.
    let r_gt2 = Requirement::New("app", SelectionOp::GreaterThan, vec!["9".to_owned()]).unwrap();
    assert!(!r_gt2.Matchs(&l));
}

#[test]
fn requirement_accessors_and_values() {
    let r = Requirement::New(
        "app",
        SelectionOp::In,
        vec!["zeta".to_owned(), "alpha".to_owned(), "zeta".to_owned()],
    )
    .unwrap();
    assert_eq!(r.Key(), "app");
    assert_eq!(r.Operator(), SelectionOp::In);
    assert!(r.HasValue("zeta"));
    assert!(!r.HasValue("beta"));
    // Values come back sorted and deduplicated.
    assert_eq!(r.Values(), vec!["alpha".to_owned(), "zeta".to_owned()]);
}

#[test]
fn requirement_display_forms() {
    let r = Requirement::New("app", SelectionOp::In, vec!["b".to_owned(), "a".to_owned()])
        .unwrap();
    assert_eq!(r.String(), "app in (a,b)");
    let r2 = Requirement::New("app", SelectionOp::Equals, vec!["web".to_owned()]).unwrap();
    assert_eq!(r2.String(), "app=web");
    let r3 = Requirement::New("app", SelectionOp::DoesNotExist, vec![]).unwrap();
    assert_eq!(r3.String(), "!app");
    let r4 = Requirement::New("app", SelectionOp::Exists, vec![]).unwrap();
    assert_eq!(r4.String(), "app");
    let r5 = Requirement::New("n", SelectionOp::GreaterThan, vec!["4".to_owned()]).unwrap();
    assert_eq!(r5.String(), "n>4");
}

#[test]
fn requirement_equality_flavors() {
    let a = Requirement::New("k", SelectionOp::In, vec!["x".to_owned(), "y".to_owned()])
        .unwrap();
    let b = Requirement::New("k", SelectionOp::In, vec!["y".to_owned(), "x".to_owned()])
        .unwrap();
    assert!(a.Equ(&b));
    // Equal compares the value lists by length only.
    let c = Requirement::New("k", SelectionOp::In, vec!["p".to_owned(), "q".to_owned()])
        .unwrap();
    assert!(a.Equal(&c));
    assert!(!a.Equ(&c));
    let d = a.Copy();
    assert!(a.Equ(&d));
}

#[test]
fn get_requirement_falls_back_to_default() {
    let ok = GetRequirement("app", SelectionOp::Exists, vec![]);
    assert_eq!(ok.Key(), "app");
    let bad = GetRequirement("bad key", SelectionOp::Exists, vec![]);
    assert_eq!(bad.Key(), "");
    assert_eq!(bad.Operator(), SelectionOp::DoesNotExist);
}

#[test]
fn parse_accepts_the_grammar() {
    let sel = Selector::Parse("x in (foo,,baz),y,z notin (bar)").unwrap();
    assert_eq!(sel.0.len(), 3);
    // Sorted by key.
    assert_eq!(sel.0[0].Key(), "x");
    assert_eq!(sel.0[1].Key(), "y");
    assert_eq!(sel.0[2].Key(), "z");
    assert_eq!(sel.0[0].Operator(), SelectionOp::In);
    // The empty string is a valid value.
    assert!(sel.0[0].HasValue(""));
    assert!(sel.0[0].HasValue("foo"));
    assert!(sel.0[0].HasValue("baz"));
    assert_eq!(sel.0[1].Operator(), SelectionOp::Exists);
    assert_eq!(sel.0[2].Operator(), SelectionOp::NotIn);

    let l = labels_of(&[("x", "foo"), ("y", "anything")]);
    assert!(sel.Match(&l));
    let l2 = labels_of(&[("x", "nope"), ("y", "anything")]);
    assert!(!sel.Match(&l2));
    // z may hold anything but "bar".
    let l3 = labels_of(&[("x", "baz"), ("y", "1"), ("z", "anything")]);
    assert!(sel.Match(&l3));
    let l4 = labels_of(&[("x", "baz"), ("y", "1"), ("z", "bar")]);
    assert!(!sel.Match(&l4));

    // An empty value set is refused for in/notin.
    assert!(Selector::Parse("z notin ()").is_err());
}

#[test]
fn parse_operators_and_negation() {
    let sel = Selector::Parse("a=1,b!=2,!c,d>3,e<4").unwrap();
    assert_eq!(sel.0.len(), 5);
    let l = labels_of(&[("a", "1"), ("b", "9"), ("d", "10"), ("e", "1")]);
    assert!(sel.Match(&l));

    let sel2 = Selector::Parse("a==1").unwrap();
    assert_eq!(sel2.0[0].Operator(), SelectionOp::DoubleEquals);
}

#[test]
fn parse_rejects_malformed_input() {
    assert!(Selector::Parse("x in").is_err());
    assert!(Selector::Parse("x in (a").is_err());
    assert!(Selector::Parse("x nonsense (a)").is_err());
    assert!(Selector::Parse(",").is_err());
    assert!(Selector::Parse("x=1,").is_err());
    assert!(Selector::Parse("=x").is_err());
    // An invalid label key is refused.
    assert!(Selector::Parse("-x=1").is_err());
}

#[test]
fn parse_empty_is_everything() {
    let sel = Selector::Parse("").unwrap();
    assert!(sel.Empty());
    assert!(sel.Match(&labels_of(&[("anything", "at-all")])));
    assert_eq!(sel.String(), "");
}

#[test]
fn selector_sort_add_equ_and_exact_match() {
    let mut sel = Selector::default();
    sel.Add(Requirement::New("zz", SelectionOp::Exists, vec![]).unwrap());
    sel.Add(Requirement::New("aa", SelectionOp::Exists, vec![]).unwrap());
    sel.Sort();
    assert_eq!(sel.0[0].Key(), "aa");
    assert_eq!(sel.0[1].Key(), "zz");

    let other = Selector::Parse("aa,zz").unwrap();
    assert!(sel.Equ(&other));
    let third = Selector::Parse("aa,zy").unwrap();
    assert!(!sel.Equ(&third));
    let copy = sel.DeepCopy();
    assert!(sel.Equ(&copy));

    let pinned = Selector::Parse("app=web").unwrap();
    assert_eq!(pinned.RequiresExactMatch("app").as_deref(), Some("web"));
    assert_eq!(pinned.RequiresExactMatch("env"), None);
    // A first requirement on another key hides the rest.
    let two = Selector::Parse("aa=1,bb=2").unwrap();
    assert_eq!(two.RequiresExactMatch("bb"), None);
}

#[test]
fn selector_string_joins_requirements() {
    let sel = Selector::Parse("b=2,a=1").unwrap();
    assert_eq!(sel.String(), "a=1,b=2");
}

#[test]
fn selection_op_symbols() {
    assert_eq!(SelectionOp::DoesNotExist.as_str(), "!");
    assert_eq!(SelectionOp::Equals.as_str(), "=");
    assert_eq!(SelectionOp::DoubleEquals.as_str(), "==");
    assert_eq!(SelectionOp::In.as_str(), "in");
    assert_eq!(SelectionOp::NotEquals.as_str(), "!=");
    assert_eq!(SelectionOp::NotIn.as_str(), "notin");
    assert_eq!(SelectionOp::Exists.as_str(), "exists");
    assert_eq!(SelectionOp::GreaterThan.as_str(), "gt");
    assert_eq!(SelectionOp::LessThan.as_str(), "lt");
    assert_eq!(SelectionOp::NoneOp.as_str(), "");
    assert_eq!(SelectionOp::default(), SelectionOp::DoesNotExist);
}

#[test]
fn validation_rules() {
    assert!(ValidateLabelKey("app").is_ok());
    assert!(ValidateLabelKey("example.com/app").is_ok());
    assert!(ValidateLabelKey("a/b/c").is_err());
    assert!(ValidateLabelKey("").is_err());
    assert!(ValidateLabelKey("-app").is_err());
    assert!(ValidateLabelKey("app-").is_err());
    assert!(ValidateLabelKey("app_name.v2").is_ok());
    assert!(ValidateLabelKey("UPPER/app").is_err());
    assert!(ValidateLabelKey(&"x".repeat(64)).is_err());
    assert!(ValidateLabelKey(&"x".repeat(63)).is_ok());

    assert!(ValidateLabelValue("k", "").is_ok());
    assert!(ValidateLabelValue("k", "web-1").is_ok());
    assert!(ValidateLabelValue("k", "-web").is_err());
    assert!(ValidateLabelValue("k", "has space").is_err());
    assert!(ValidateLabelValue("k", &"v".repeat(64)).is_err());
}

#[test]
fn gt_lt_compare_signed_label_values() {
    let l = labels_of(&[("temp", "-5")]);
    let r = Requirement::New("temp", SelectionOp::GreaterThan, vec!["0".to_owned()]);
    // Validation only admits unsigned bounds, but matching parses signed
    // label values.
    assert!(r.is_ok());
    assert!(!r.unwrap().Matchs(&l));
    let r2 = Requirement::New("temp", SelectionOp::LessThan, vec!["0".to_owned()]).unwrap();
    assert!(r2.Matchs(&l));
}

#[test]
fn parse_empty_exact_value() {
    // A missing exact value stands for the empty string.
    let sel = Selector::Parse("x=").unwrap();
    assert_eq!(sel.0.len(), 1);
    assert!(sel.0[0].HasValue(""));
    assert!(sel.Match(&labels_of(&[("x", "")])));
    assert!(!sel.Match(&labels_of(&[("x", "y")])));

    let sel2 = Selector::Parse("x=,y=2").unwrap();
    assert_eq!(sel2.0.len(), 2);
    assert!(sel2.Match(&labels_of(&[("x", ""), ("y", "2")])));
}

#[test]
fn labels_new_accepts_empty_value() {
    let l = Labels::New("k=").unwrap();
    assert_eq!(l.Get("k").as_deref(), Some(""));
    let l2 = Labels::New(" a = b ").unwrap();
    assert_eq!(l2.Get("a").as_deref(), Some("b"));
    assert!(Labels::New("a=1,").is_err());
}

#[test]
fn parse_value_set_comma_edges() {
    // A leading comma stands for the empty value.
    let sel = Selector::Parse("x in (,a)").unwrap();
    assert!(sel.0[0].HasValue(""));
    assert!(sel.0[0].HasValue("a"));
    // A trailing comma before ')' is not accepted.
    assert!(Selector::Parse("x in (a,)").is_err());
    // A doubled comma stands for one empty value.
    let sel2 = Selector::Parse("x in (a,,b)").unwrap();
    assert_eq!(sel2.0[0].Values(), vec!["".to_owned(), "a".to_owned(), "b".to_owned()]);
}
