use rime_install::target::{
    expand_conf_url, parse_options, parse_package_ref, parse_target, split_once_or, PackageRef,
    Target,
};

#[test]
fn test_builtin() {
    assert_eq!(
        parse_target(":preset").unwrap(),
        Target::BuiltinConfig("preset".into())
    );
}

#[test]
fn test_short_name() {
    let t = parse_target("luna-pinyin").unwrap();
    let Target::Package(p) = t else { panic!() };
    assert_eq!(p.user, "rime");
    assert_eq!(p.repo, "luna-pinyin");
    assert_eq!(p.project, "luna-pinyin");
    assert_eq!(p.github_path(), "rime/rime-luna-pinyin");
}

#[test]
fn test_user_repo() {
    let t = parse_target("lotem/rime-zhung@master").unwrap();
    let Target::Package(p) = t else { panic!() };
    assert_eq!(p.user, "lotem");
    assert_eq!(p.repo, "zhung");
    assert_eq!(p.project, "rime-zhung");
    assert_eq!(p.branch, Some("master".into()));
    assert_eq!(p.github_path(), "lotem/rime-zhung");
}

#[test]
fn test_recipe_and_options() {
    let t = parse_target("luna-pinyin:simp:key1=val1,key2=val2").unwrap();
    let Target::Package(p) = t else { panic!() };
    assert_eq!(p.recipe, Some("simp".into()));
    assert_eq!(
        p.options,
        vec![
            ("key1".into(), "val1".into()),
            ("key2".into(), "val2".into()),
        ]
    );
}

#[test]
fn test_conf_short_path() {
    let t = parse_target("lotem/rime-forge/lotem-packages.conf").unwrap();
    let Target::PackageList(pl) = t else { panic!() };
    assert!(pl.url.contains("github.com/lotem/rime-forge/raw/master"));
}

#[test]
fn short_path_url_is_exact() {
    assert_eq!(
        expand_conf_url("lotem/rime-forge/lotem-packages.conf"),
        "https://github.com/lotem/rime-forge/raw/master/lotem-packages.conf"
    );
}

#[test]
fn short_path_with_branch_and_subdirectory() {
    assert_eq!(
        expand_conf_url("lotem/rime-forge@dev/sub/dir/x-packages.conf"),
        "https://github.com/lotem/rime-forge/raw/dev/sub/dir/x-packages.conf"
    );
}

#[test]
fn https_url_is_kept() {
    let url = "https://example.com/raw/master/foo-packages.conf";
    assert_eq!(expand_conf_url(url), url);
    assert_eq!(
        parse_target("https://example.com/anything").unwrap(),
        Target::PackageList(rime_install::target::PackageListRef {
            url: "https://example.com/anything".into()
        })
    );
}

#[test]
fn location_with_one_slash_is_kept() {
    assert_eq!(expand_conf_url("lotem/x-packages.conf"), "lotem/x-packages.conf");
    assert_eq!(expand_conf_url("x-packages.conf"), "x-packages.conf");
}

#[test]
fn expanding_twice_changes_nothing() {
    for s in [
        "lotem/rime-forge/lotem-packages.conf",
        "a/b@c/d",
        "https://x/y",
        "plain",
        "a/b",
    ] {
        let once = expand_conf_url(s);
        assert_eq!(expand_conf_url(&once), once);
    }
}

#[test]
fn empty_builtin_name() {
    assert_eq!(parse_target(":").unwrap(), Target::BuiltinConfig(String::new()));
}

#[test]
fn colon_rule_comes_before_url_rule() {
    assert_eq!(
        parse_target(":x-packages.conf").unwrap(),
        Target::BuiltinConfig("x-packages.conf".into())
    );
}

#[test]
fn rime_prefixed_short_name() {
    let Target::Package(p) = parse_target("rime-cangjie").unwrap() else { panic!() };
    assert_eq!(p.user, "rime");
    assert_eq!(p.project, "rime-cangjie");
    assert_eq!(p.repo, "cangjie");
    assert_eq!(p.github_path(), "rime/rime-cangjie");
    assert_eq!(p.clone_url(), "https://github.com/rime/rime-cangjie.git");
}

#[test]
fn other_user_keeps_project_name() {
    let Target::Package(p) = parse_target("someone/zhung").unwrap() else { panic!() };
    assert_eq!(p.repo, "zhung");
    assert_eq!(p.github_path(), "someone/zhung");
    assert_eq!(p.clone_url(), "https://github.com/someone/zhung.git");
    assert_eq!(p.branch, None);
    assert_eq!(p.recipe, None);
    assert!(p.options.is_empty());
}

#[test]
fn rime_user_written_out_gets_prefix() {
    let Target::Package(p) = parse_target("rime/luna-pinyin").unwrap() else { panic!() };
    assert_eq!(p.github_path(), "rime/rime-luna-pinyin");
}

#[test]
fn full_form_is_read_field_by_field() {
    let p = parse_package_ref("lotem/rime-zhung@master:somerecipe:key=val").unwrap();
    assert_eq!(
        p,
        PackageRef {
            user: "lotem".into(),
            project: "rime-zhung".into(),
            repo: "zhung".into(),
            branch: Some("master".into()),
            recipe: Some("somerecipe".into()),
            options: vec![("key".into(), "val".into())],
        }
    );
}

#[test]
fn empty_recipe_is_none() {
    let p = parse_package_ref("luna-pinyin::a=b").unwrap();
    assert_eq!(p.recipe, None);
    assert_eq!(p.options, vec![("a".to_string(), "b".to_string())]);
}

#[test]
fn options_are_trimmed_and_empty_keys_dropped() {
    assert_eq!(
        parse_options(" a = 1 ,,=x, b ,c=d=e"),
        vec![
            ("a".to_string(), "1".to_string()),
            ("b".to_string(), "".to_string()),
            ("c".to_string(), "d=e".to_string()),
        ]
    );
    assert!(parse_options("").is_empty());
    assert!(parse_options(" , ").is_empty());
}

#[test]
fn split_once_or_cases() {
    assert_eq!(split_once_or("a:b:c", ':'), ("a", "b:c"));
    assert_eq!(split_once_or("abc", ':'), ("abc", ""));
    assert_eq!(split_once_or(":", ':'), ("", ""));
}

#[test]
fn non_ascii_names() {
    let Target::Package(p) = parse_target("用户/方案@分支:配方").unwrap() else { panic!() };
    assert_eq!(p.user, "用户");
    assert_eq!(p.project, "方案");
    assert_eq!(p.branch, Some("分支".into()));
    assert_eq!(p.recipe, Some("配方".into()));
}
