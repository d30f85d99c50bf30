use rime_install::recipe::{
    collect_default_files, copy_action, glob_pattern, install_recipe, CopyAction, Recipe,
    RecipeFiles, RecipeInfo, StringOrVec,
};

fn strings(v: &[&str]) -> Vec<String> {
    v.iter().map(|s| s.to_string()).collect()
}

#[test]
fn string_field_is_split_into_words() {
    let v = StringOrVec::String(" *.yaml  opencc/*.json\n".into()).into_vec();
    assert_eq!(v, strings(&["*.yaml", "opencc/*.json"]));
}

#[test]
fn list_field_is_kept() {
    let v = StringOrVec::Vec(strings(&["a b", "c"])).into_vec();
    assert_eq!(v, strings(&["a b", "c"]));
}

#[test]
fn recipe_with_install_files() {
    let r = Recipe {
        recipe: Some(RecipeInfo { rx: Some("x".into()) }),
        install_files: Some(StringOrVec::String("a.yaml b.txt".into())),
        download_files: None,
        patch: None,
    };
    match install_recipe(r) {
        RecipeFiles::Patterns(v) => assert_eq!(v, strings(&["a.yaml", "b.txt"])),
        RecipeFiles::DefaultFiles => panic!(),
    }
}

#[test]
fn recipe_without_install_files() {
    let r = Recipe {
        recipe: None,
        install_files: None,
        download_files: Some(StringOrVec::Vec(vec![])),
        patch: None,
    };
    assert!(matches!(install_recipe(r), RecipeFiles::DefaultFiles));
}

#[test]
fn default_files_are_selected() {
    let names = strings(&[
        "luna.schema.yaml",
        "luna.custom.yaml",
        "simp.recipe.yaml",
        "recipe.yaml",
        "README.md",
        "essay.txt",
        "grammar.gram",
        "opencc",
    ]);
    let opencc = Some(strings(&["t2s.json", "t2s.ocd", "x.txt", "y.md"]));
    assert_eq!(
        collect_default_files(&names, &opencc),
        strings(&[
            "luna.schema.yaml",
            "essay.txt",
            "grammar.gram",
            "opencc/t2s.json",
            "opencc/t2s.ocd",
            "opencc/x.txt",
        ])
    );
    assert_eq!(
        collect_default_files(&names, &None),
        strings(&["luna.schema.yaml", "essay.txt", "grammar.gram"])
    );
}

#[test]
fn glob_pattern_escapes_the_directory() {
    assert_eq!(
        glob_pattern(r"C:\plum\package\a[1]*?", r"opencc\*.json"),
        "C:/plum/package/a[[]1[]][*][?]/opencc/*.json"
    );
    assert_eq!(glob_pattern("plum/package/rime/luna", "*.yaml"), "plum/package/rime/luna/*.yaml");
}

#[test]
fn copy_actions() {
    assert_eq!(copy_action(false, false), CopyAction::Install);
    assert_eq!(copy_action(false, true), CopyAction::Install);
    assert_eq!(copy_action(true, true), CopyAction::Skip);
    assert_eq!(copy_action(true, false), CopyAction::Update);
}
