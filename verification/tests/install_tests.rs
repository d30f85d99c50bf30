use rime_install::conf::ConfError;
use rime_install::fetch::{fetch_or_update, FetchPlan, FETCH_DEPTH};
use rime_install::frontend::{rime_dir_candidates, DirBase, Platform};
use rime_install::install::{
    install_package, names_installer, parse_package_list, recipe_file_name, resolve_target,
    should_fetch, targets_or_default, InstallError, InstallSource, PackageListError,
    TargetSource,
};
use rime_install::target::{parse_package_ref, parse_target, PackageListRef, Target};

#[test]
fn package_target_is_itself() {
    let p = parse_package_ref("luna-pinyin").unwrap();
    match resolve_target(Target::Package(p.clone())) {
        TargetSource::Packages(v) => assert_eq!(v, vec![p]),
        other => panic!("{:?}", other),
    }
}

#[test]
fn builtin_target_reads_its_conf_file() {
    match resolve_target(parse_target(":preset").unwrap()) {
        TargetSource::BuiltinConf { name, file_name } => {
            assert_eq!(name, "preset");
            assert_eq!(file_name, "preset-packages.conf");
        }
        other => panic!("{:?}", other),
    }
}

#[test]
fn list_target_fetches_its_url() {
    let t = Target::PackageList(PackageListRef { url: "https://x/y-packages.conf".into() });
    match resolve_target(t) {
        TargetSource::RemoteConf(url) => assert_eq!(url, "https://x/y-packages.conf"),
        other => panic!("{:?}", other),
    }
}

#[test]
fn package_list_is_parsed() {
    let v = parse_package_list("package_list=(luna-pinyin lotem/rime-zhung@master:r)").unwrap();
    assert_eq!(v.len(), 2);
    assert_eq!(v[0], parse_package_ref("luna-pinyin").unwrap());
    assert_eq!(v[1].user, "lotem");
    assert_eq!(v[1].recipe, Some("r".into()));
}

#[test]
fn package_list_rejects_other_targets() {
    match parse_package_list("package_list=(a :extra b x-packages.conf)") {
        Err(PackageListError::IllegalTarget(s)) => assert_eq!(s, ":extra"),
        other => panic!("{:?}", other),
    }
}

#[test]
fn package_list_passes_conf_errors_on() {
    match parse_package_list("package_list=(a") {
        Err(PackageListError::Conf(e)) => assert_eq!(e, ConfError::UnclosedPackageList),
        other => panic!("{:?}", other),
    }
}

#[test]
fn recipe_file_names() {
    let named = parse_package_ref("luna-pinyin:simp").unwrap();
    let plain = parse_package_ref("luna-pinyin").unwrap();
    assert_eq!(recipe_file_name(&named), "simp.recipe.yaml");
    assert_eq!(recipe_file_name(&plain), "recipe.yaml");
}

#[test]
fn install_sources() {
    let named = parse_package_ref("luna-pinyin:simp").unwrap();
    let plain = parse_package_ref("luna-pinyin").unwrap();
    match install_package(&named, true) {
        Ok(InstallSource::Recipe(f)) => assert_eq!(f, "simp.recipe.yaml"),
        other => panic!("{:?}", other),
    }
    match install_package(&named, false) {
        Err(InstallError::RecipeMissing(f)) => assert_eq!(f, "simp.recipe.yaml"),
        other => panic!("{:?}", other),
    }
    match install_package(&plain, true) {
        Ok(InstallSource::Recipe(f)) => assert_eq!(f, "recipe.yaml"),
        other => panic!("{:?}", other),
    }
    assert!(matches!(install_package(&plain, false), Ok(InstallSource::DefaultFiles)));
}

#[test]
fn default_targets() {
    assert_eq!(targets_or_default(vec![]), vec![":preset".to_string()]);
    assert_eq!(targets_or_default(vec!["a".into()]), vec!["a".to_string()]);
}

#[test]
fn installer_and_fetch_decisions() {
    assert!(names_installer("plum"));
    assert!(!names_installer("plum2"));
    assert!(should_fetch(false, true));
    assert!(should_fetch(true, false));
    assert!(should_fetch(false, false));
    assert!(!should_fetch(true, true));
}

#[test]
fn fetch_plans() {
    let p = parse_package_ref("lotem/rime-zhung@dev").unwrap();
    match fetch_or_update(&p, false) {
        FetchPlan::Clone { url, branch } => {
            assert_eq!(url, "https://github.com/lotem/rime-zhung.git");
            assert_eq!(branch, Some("dev".into()));
        }
        other => panic!("{:?}", other),
    }
    match fetch_or_update(&p, true) {
        FetchPlan::Update { refspec } => assert_eq!(refspec, "dev"),
        other => panic!("{:?}", other),
    }
    let q = parse_package_ref("luna-pinyin").unwrap();
    match fetch_or_update(&q, true) {
        FetchPlan::Update { refspec } => assert_eq!(refspec, "HEAD"),
        other => panic!("{:?}", other),
    }
    match fetch_or_update(&q, false) {
        FetchPlan::Clone { url, branch } => {
            assert_eq!(url, "https://github.com/rime/rime-luna-pinyin.git");
            assert_eq!(branch, None);
        }
        other => panic!("{:?}", other),
    }
    assert_eq!(FETCH_DEPTH, 1);
}

#[test]
fn frontend_directories() {
    assert_eq!(
        rime_dir_candidates(Platform::Linux),
        vec![
            (DirBase::Home, ".local/share/fcitx5/rime".to_string()),
            (DirBase::Home, ".config/fcitx/rime".to_string()),
            (DirBase::Home, ".config/ibus/rime".to_string()),
        ]
    );
    assert_eq!(
        rime_dir_candidates(Platform::MacOs),
        vec![(DirBase::Home, "Library/Rime".to_string())]
    );
    assert_eq!(
        rime_dir_candidates(Platform::Windows),
        vec![(DirBase::AppData, "Rime".to_string())]
    );
    assert!(rime_dir_candidates(Platform::Other).is_empty());
}
