use basalt::analysis::builtins::{analyze, is_core_package as is_core_in, NodeVersion};
use basalt::analysis::dependencies::{is_core_package, is_local_specifier, is_package_specifier, DependencyList};
use basalt::helpers::normalize_specifier;
use basalt::module::base::module_base_directory;
use basalt::printer::PrintOptions;
use basalt::{list, trim_code};

#[test]
fn normalize_plain_specifier() {
    assert_eq!(normalize_specifier("caniuse-lite/data/features/background-img-opts.js"), "caniuse-lite");
    assert_eq!(normalize_specifier("lodash"), "lodash");
}

#[test]
fn normalize_scoped_specifier() {
    assert_eq!(normalize_specifier("@babel/runtime/helpers/typeof"), "@babel/runtime");
    assert_eq!(normalize_specifier("@babel/runtime"), "@babel/runtime");
    assert_eq!(normalize_specifier("@babel"), "@babel");
}

#[test]
fn normalize_is_idempotent_on_examples() {
    for s in ["a/b/c", "@s/p/q", "x", "@s", ""] {
        let once = normalize_specifier(s);
        assert_eq!(normalize_specifier(&once), once);
    }
}

#[test]
fn local_specifiers() {
    assert!(is_local_specifier("./foo"));
    assert!(is_local_specifier("../foo"));
    assert!(is_local_specifier("/abs/foo"));
    assert!(!is_local_specifier("foo"));
    assert!(!is_local_specifier(".foo"));
}

#[test]
fn core_packages_latest() {
    assert!(is_core_package("fs"));
    assert!(is_core_package("stream/promises"));
    assert!(!is_core_package("lodash"));
    assert!(!is_core_package("./fs"));
}

#[test]
fn specifier_classes_are_disjoint() {
    for s in ["fs", "./fs", "lodash", "/x", "@babel/core"] {
        let classes = [is_core_package(s), is_local_specifier(s), is_package_specifier(s)];
        assert_eq!(classes.iter().filter(|b| **b).count(), 1, "{}", s);
    }
}

#[test]
fn core_packages_by_version() {
    assert!(is_core_in("fs", NodeVersion::Node12));
    assert!(is_core_in("fs/promises", NodeVersion::Node14));
    assert!(!is_core_in("lodash", NodeVersion::Node16));
}

#[test]
fn builtin_dependencies() {
    let deps = vec!["fs".to_string(), "lodash".to_string(), "./local".to_string(), "path".to_string()];
    assert_eq!(analyze(&deps, NodeVersion::Node16), vec!["fs".to_string(), "path".to_string()]);
}

#[test]
fn dependency_list_splits_builtins_and_packages() {
    let list = DependencyList::new(vec![
        "fs".to_string(),
        "lodash/fp".to_string(),
        "./x".to_string(),
        "@babel/core".to_string(),
    ]);
    assert_eq!(list.builtins(), vec!["fs".to_string()]);
    assert_eq!(list.packages(), vec!["lodash/fp".to_string(), "@babel/core".to_string()]);
}

#[test]
fn base_directory_of_package_module() {
    assert_eq!(
        module_base_directory("foo", "/p/node_modules/foo/lib/index.js"),
        Some("/p/node_modules/foo".to_string())
    );
    assert_eq!(
        module_base_directory("@scope/pkg/sub", "/p/node_modules/@scope/pkg/sub/index.js"),
        Some("/p/node_modules/@scope/pkg".to_string())
    );
}

#[test]
fn base_directory_takes_last_match() {
    assert_eq!(
        module_base_directory("b", "/p/node_modules/b/node_modules/b/index.js"),
        Some("/p/node_modules/b/node_modules/b".to_string())
    );
}

#[test]
fn base_directory_missing() {
    assert_eq!(module_base_directory("foo", "/p/lib/index.js"), None);
}

#[test]
fn trim_code_removes_trailing_space_and_semicolons() {
    assert_eq!(trim_code("let a = 1;;  \n".to_string()), "let a = 1");
    assert_eq!(trim_code("x;\t".to_string()), "x");
    assert_eq!(trim_code("a; ;".to_string()), "a; ");
    assert_eq!(trim_code("".to_string()), "");
    assert_eq!(trim_code("abc".to_string()), "abc");
}

#[test]
fn trim_code_unicode_space() {
    assert_eq!(trim_code("y;\u{3000}\u{A0}".to_string()), "y");
}

#[test]
fn list_requires_a_file() {
    match list("missing.js", false, true) {
        Err(m) => assert_eq!(m, "Module missing.js does not exist or is not a file"),
        Ok(_) => panic!("expected an error"),
    }
    let options: PrintOptions = list("main.js", true, true).unwrap();
    assert!(options.include_file);
}
