use basalt::access::Access;
use basalt::policy::analysis::flatten;
use basalt::policy::{is_false, EnvPolicy, Merge, PackagePolicy, Policy, PolicyAccess, PolicyGroup};

fn group(entries: &[(&str, bool)]) -> PolicyGroup {
    let mut g = PolicyGroup::new();
    for (k, v) in entries {
        g.insert(k, PolicyAccess::new(*v));
    }
    g
}

fn flags(g: &PolicyGroup, keys: &[&str]) -> Vec<Option<bool>> {
    keys.iter().map(|k| g.get(k).map(|a| a.flag())).collect()
}

#[test]
fn access_merge_sets_flags() {
    let mut a = Access { read: true, write: false, execute: false };
    a.merge(&Access { read: false, write: true, execute: false });
    assert_eq!(a, Access { read: true, write: true, execute: false });
}

#[test]
fn access_merge_laws_on_values() {
    let x = Access { read: true, write: false, execute: true };
    let y = Access { read: false, write: true, execute: false };
    let mut xy = x;
    xy.merge(&y);
    let mut yx = y;
    yx.merge(&x);
    assert_eq!(xy, yx);
    let mut xx = x;
    xx.merge(&x);
    assert_eq!(xx, x);
    let mut d = Access::default();
    d.merge(&x);
    assert_eq!(d, x);
}

#[test]
fn policy_access_from_bool() {
    let a: PolicyAccess = true.into();
    assert!(a.flag());
    let b = PolicyAccess::from(false);
    assert!(!b.flag());
}

#[test]
fn group_insert_and_read() {
    let mut g = PolicyGroup::new();
    assert!(PolicyGroup::is_empty(&g));
    g.insert("fs", PolicyAccess::new(true));
    g.insert("fs", PolicyAccess::new(false));
    g.insert("path", PolicyAccess::new(true));
    assert_eq!(g.len(), 2);
    assert!(!PolicyGroup::is_empty(&g));
    assert_eq!(flags(&g, &["fs", "path", "os"]), vec![Some(false), Some(true), None]);
}

#[test]
fn group_append_prefers_other() {
    let mut a = group(&[("x", true), ("y", true)]);
    let mut b = group(&[("y", false), ("z", true)]);
    a.append(&mut b);
    assert_eq!(flags(&a, &["x", "y", "z"]), vec![Some(true), Some(false), Some(true)]);
    assert!(PolicyGroup::is_empty(&b));
}

#[test]
fn group_merge_is_idempotent() {
    let mut a = group(&[("x", true), ("y", false)]);
    let b = a.copy();
    a.merge(&b);
    assert_eq!(a.len(), 2);
    assert_eq!(flags(&a, &["x", "y"]), vec![Some(true), Some(false)]);
}

#[test]
fn group_merge_with_empty_keeps_it() {
    let mut a = group(&[("x", true)]);
    a.merge(&PolicyGroup::new());
    assert_eq!(flags(&a, &["x"]), vec![Some(true)]);
}

#[test]
fn env_policy_default_is_frozen() {
    assert!(EnvPolicy::is_default(&EnvPolicy::default()));
    assert!(EnvPolicy::is_default(&EnvPolicy::Frozen));
    assert!(!EnvPolicy::is_default(&EnvPolicy::Unfrozen));
}

#[test]
fn is_false_flag() {
    assert!(is_false(&false));
    assert!(!is_false(&true));
}

#[test]
fn package_policy_empty() {
    let mut p = PackagePolicy::new();
    assert!(p.is_empty());
    p.native = true;
    assert!(p.is_empty());
    p.globals.insert("fetch", PolicyAccess::new(true));
    assert!(!p.is_empty());
}

#[test]
fn package_policy_merge() {
    let mut a = PackagePolicy::new();
    a.globals.insert("fetch", true.into());
    let mut b = PackagePolicy::new();
    b.native = true;
    b.env = EnvPolicy::Unfrozen;
    b.builtin.insert("fs", true.into());
    a.merge(&b);
    assert!(a.native);
    assert_eq!(a.env, EnvPolicy::Unfrozen);
    assert!(a.globals.get("fetch").unwrap().flag());
    assert!(a.builtin.get("fs").unwrap().flag());
}

#[test]
fn policy_insert_replaces() {
    let mut policy = Policy::new();
    let mut p = PackagePolicy::new();
    p.packages.insert("b", true.into());
    policy.insert("a", p);
    policy.insert("a", PackagePolicy::new());
    policy.insert("c", PackagePolicy::new());
    assert_eq!(policy.len(), 2);
    assert!(policy.get("a").unwrap().is_empty());
    assert!(policy.get("b").is_none());
    let (name, _) = policy.entry(1);
    assert_eq!(name, "c");
}

#[test]
fn policy_merge_unions_packages() {
    let mut a = Policy::new();
    let mut pa = PackagePolicy::new();
    pa.globals.insert("x", true.into());
    a.insert("p", pa);
    let mut b = Policy::new();
    let mut pb = PackagePolicy::new();
    pb.globals.insert("y", true.into());
    b.insert("p", pb);
    b.insert("q", PackagePolicy::new());
    a.merge(&b);
    assert_eq!(a.len(), 2);
    let p = a.get("p").unwrap();
    assert!(p.globals.get("x").is_some());
    assert!(p.globals.get("y").is_some());
}

#[test]
fn policy_entries_come_in_key_order() {
    let mut policy = Policy::new();
    policy.insert("zeta", PackagePolicy::new());
    policy.insert("alpha", PackagePolicy::new());
    policy.insert("mid", PackagePolicy::new());
    let names: Vec<String> = (0..policy.len()).map(|i| policy.entry(i).0.clone()).collect();
    assert_eq!(names, vec!["alpha".to_string(), "mid".to_string(), "zeta".to_string()]);
    let mut group = PolicyGroup::new();
    group.insert("process.env", true.into());
    group.insert("Buffer", true.into());
    group.insert("process", true.into());
    let keys: Vec<String> = (0..group.len()).map(|i| group.entry(i).0.clone()).collect();
    assert_eq!(keys, vec!["Buffer".to_string(), "process".to_string(), "process.env".to_string()]);
}

#[test]
fn flatten_keeps_each_unprefixed_path_once() {
    let mut set: indexmap::IndexSet<Vec<String>> = indexmap::IndexSet::new();
    set.insert(vec!["Buffer".to_string(), "alloc".to_string()]);
    set.insert(vec!["Buffer".to_string()]);
    set.insert(vec!["Buf".to_string()]);
    set.insert(vec!["Buffer".to_string()]);
    let flat: Vec<Vec<String>> = flatten(set).into_iter().collect();
    assert_eq!(flat, vec![vec!["Buffer".to_string()], vec!["Buf".to_string()]]);
}
