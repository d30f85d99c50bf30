use rime_install::conf::{load_conf_file, ConfError};

#[test]
fn test_parse_conf() {
    let content = r#"
package_list=(
  luna-pinyin
  terra-pinyin
  bopomofo
)
"#;
    let list = load_conf_file(content).unwrap();
    assert_eq!(list, vec!["luna-pinyin", "terra-pinyin", "bopomofo"]);
}

#[test]
fn comments_are_left_out() {
    let content = "x=1\npackage_list=(a #b c\t#d\u{3000}e)\nother=(f)";
    assert_eq!(load_conf_file(content).unwrap(), vec!["a", "c", "e"]);
}

#[test]
fn missing_list_is_an_error() {
    assert_eq!(load_conf_file("packages=(a b)").unwrap_err(), ConfError::MissingPackageList);
    assert_eq!(load_conf_file("").unwrap_err(), ConfError::MissingPackageList);
}

#[test]
fn unclosed_list_is_an_error() {
    assert_eq!(
        load_conf_file("package_list=(a b").unwrap_err(),
        ConfError::UnclosedPackageList
    );
}

#[test]
fn empty_list() {
    assert!(load_conf_file("package_list=()").unwrap().is_empty());
    assert!(load_conf_file("package_list=(   \n )").unwrap().is_empty());
}

#[test]
fn first_marker_counts() {
    assert_eq!(
        load_conf_file("package_list=(a) package_list=(b)").unwrap(),
        vec!["a"]
    );
}
