//! Recipes (`recipe.yaml`): which files of a package are installed.
use vstd::prelude::*;
use crate::text::{
    ends_with, replace_backslashes, slashes, split_whitespace, str_eq, views, words,
};

verus! {

/// Declares `serde_yaml::Value`, an opaque YAML document, which a recipe
/// carries in its `patch` field without looking inside.
#[verifier::external_type_specification]
#[verifier::external_body]
pub struct ExYamlValue(serde_yaml::Value);

/// A YAML field that holds either one whitespace-separated string or a list.
#[derive(Debug)]
pub enum StringOrVec {
    String(String),
    Vec(Vec<String>),
}

/// The file list that a `StringOrVec` stands for.
pub open spec fn spec_into_vec(v: StringOrVec) -> Seq<Seq<char>> {
    match v {
        StringOrVec::String(s) => words(s@),
        StringOrVec::Vec(list) => views(list@),
    }
}

impl StringOrVec {
    /// The list: the words of a string, or the list as it is.
    pub fn into_vec(self) -> (r: Vec<String>)
        ensures
            views(r@) == spec_into_vec(self),
    {
        match self {
            StringOrVec::String(s) => split_whitespace(s.as_str()),
            StringOrVec::Vec(v) => v,
        }
    }
}

/// The content of a `recipe.yaml`. Only `install_files` is acted on;
/// `download_files` and `patch` are read and kept.
#[derive(Debug)]
pub struct Recipe {
    pub recipe: Option<RecipeInfo>,
    pub install_files: Option<StringOrVec>,
    pub download_files: Option<StringOrVec>,
    pub patch: Option<serde_yaml::Value>,
}

/// The `recipe` section of a `recipe.yaml`.
#[derive(Debug)]
pub struct RecipeInfo {
    /// The recipe's name, under the key `Rx`.
    pub rx: Option<String>,
}

/// The files that a recipe installs.
#[derive(Debug)]
pub enum RecipeFiles {
    /// Glob patterns, relative to the package directory.
    Patterns(Vec<String>),
    /// The package's default files (see `collect_default_files`).
    DefaultFiles,
}

/// What a recipe installs: its `install_files`, or the default files where
/// it names none.
pub fn install_recipe(recipe: Recipe) -> (r: RecipeFiles)
    ensures
        match recipe.install_files {
            Some(files) => r matches RecipeFiles::Patterns(v) && views(v@) == spec_into_vec(files),
            None => r is DefaultFiles,
        },
{
    match recipe.install_files {
        Some(files) => RecipeFiles::Patterns(files.into_vec()),
        None => RecipeFiles::DefaultFiles,
    }
}

/// A file at the top of a package that is installed by default: a `.yaml`
/// that is neither a `.custom.yaml` nor a recipe, a `.txt` or a `.gram`.
pub open spec fn is_default_file(n: Seq<char>) -> bool {
    ||| ".yaml"@.is_suffix_of(n) && !".custom.yaml"@.is_suffix_of(n) && !".recipe.yaml"@.is_suffix_of(
        n,
    ) && n != "recipe.yaml"@
    ||| ".txt"@.is_suffix_of(n)
    ||| ".gram"@.is_suffix_of(n)
}

/// A file of a package's `opencc` directory that is installed by default.
pub open spec fn is_opencc_file(n: Seq<char>) -> bool {
    ".json"@.is_suffix_of(n) || ".ocd"@.is_suffix_of(n) || ".txt"@.is_suffix_of(n)
}

/// The default files among the names at the top of a package, in order.
pub open spec fn default_files(ns: Seq<Seq<char>>) -> Seq<Seq<char>>
    decreases ns.len(),
{
    if ns.len() == 0 {
        Seq::empty()
    } else if is_default_file(ns.last()) {
        default_files(ns.drop_last()).push(ns.last())
    } else {
        default_files(ns.drop_last())
    }
}

/// The default files among the names of the `opencc` directory, as paths
/// `opencc/<name>`, in order.
pub open spec fn opencc_files(ns: Seq<Seq<char>>) -> Seq<Seq<char>>
    decreases ns.len(),
{
    if ns.len() == 0 {
        Seq::empty()
    } else if is_opencc_file(ns.last()) {
        opencc_files(ns.drop_last()).push("opencc/"@ + ns.last())
    } else {
        opencc_files(ns.drop_last())
    }
}

/// Whether a name at the top of a package is installed by default.
pub fn default_file(n: &str) -> (r: bool)
    ensures
        r == is_default_file(n@),
{
    (ends_with(n, ".yaml") && !ends_with(n, ".custom.yaml") && !ends_with(n, ".recipe.yaml")
        && !str_eq(n, "recipe.yaml")) || ends_with(n, ".txt") || ends_with(n, ".gram")
}

/// Whether a name in the `opencc` directory is installed by default.
pub fn opencc_file(n: &str) -> (r: bool)
    ensures
        r == is_opencc_file(n@),
{
    ends_with(n, ".json") || ends_with(n, ".ocd") || ends_with(n, ".txt")
}

/// The files installed from a package that has no recipe or whose recipe
/// names none: the default files among `names`, the entries at the top of
/// the package, then those among `opencc_names`, the entries of its `opencc`
/// directory where it has one, under `opencc/`.
pub fn collect_default_files(names: &Vec<String>, opencc_names: &Option<Vec<String>>) -> (r: Vec<
    String,
>)
    ensures
        views(r@) == default_files(views(names@)) + match opencc_names {
            Some(o) => opencc_files(views(o@)),
            None => Seq::empty(),
        },
{
    let mut files: Vec<String> = Vec::new();
    let mut i: usize = 0;
    while i < names.len()
        invariant
            i <= names.len(),
            views(files@) == default_files(views(names@).take(i as int)),
        decreases names.len() - i,
    {
        proof {
            let t = views(names@).take(i + 1);
            assert(t.drop_last() =~= views(names@).take(i as int));
            assert(t.last() == names@[i as int]@);
        }
        if default_file(names[i].as_str()) {
            let ghost before = files@;
            files.push(String::from_str(names[i].as_str()));
            proof {
                assert(views(files@) =~= views(before).push(names@[i as int]@));
            }
        }
        i += 1;
    }
    proof {
        assert(views(names@).take(names@.len() as int) =~= views(names@));
    }
    let ghost top = files@;
    match opencc_names {
        Some(o) => {
            let mut j: usize = 0;
            while j < o.len()
                invariant
                    j <= o.len(),
                    views(files@) == views(top) + opencc_files(views(o@).take(j as int)),
                decreases o.len() - j,
            {
                proof {
                    let t = views(o@).take(j + 1);
                    assert(t.drop_last() =~= views(o@).take(j as int));
                    assert(t.last() == o@[j as int]@);
                }
                if opencc_file(o[j].as_str()) {
                    let ghost before = files@;
                    let mut path = String::from_str("opencc/");
                    path.append(o[j].as_str());
                    files.push(path);
                    proof {
                        assert(views(files@) =~= views(before).push("opencc/"@ + o@[j as int]@));
                    }
                }
                j += 1;
            }
            proof {
                assert(views(o@).take(o@.len() as int) =~= views(o@));
            }
        },
        None => {
            proof {
                assert(views(files@) =~= views(files@) + Seq::<Seq<char>>::empty());
            }
        },
    }
    files
}

/// What `glob::Pattern::escape` makes of `s`: each of `?`, `*`, `[`, `]` in
/// brackets, every other character as it is.
pub open spec fn spec_glob_escape(s: Seq<char>) -> Seq<char>
    decreases s.len(),
{
    if s.len() == 0 {
        Seq::empty()
    } else {
        let c = s.last();
        if c == '?' || c == '*' || c == '[' || c == ']' {
            spec_glob_escape(s.drop_last()) + seq!['[', c, ']']
        } else {
            spec_glob_escape(s.drop_last()).push(c)
        }
    }
}

/// Calls `glob::Pattern::escape`, which turns each of `?`, `*`, `[`, `]` into
/// that character in brackets and keeps every other character, in order.
#[verifier::external_body]
fn escape_glob(s: &str) -> (r: String)
    ensures
        r@ == spec_glob_escape(s@),
{
    glob::Pattern::escape(s)
}

/// The glob pattern that selects the files of `pattern` in the package
/// directory `package_dir`: the directory, with slashes for backslashes and
/// escaped, a slash, and the pattern with slashes for backslashes.
pub fn glob_pattern(package_dir: &str, pattern: &str) -> (r: String)
    ensures
        r@ == spec_glob_escape(slashes(package_dir@)) + "/"@ + slashes(pattern@),
{
    let dir = replace_backslashes(package_dir);
    let mut r = escape_glob(dir.as_str());
    r.append("/");
    let p = replace_backslashes(pattern);
    r.append(p.as_str());
    r
}

/// What to do with one file to be installed.
#[derive(Debug, Clone, Copy, PartialEq, Eq, Structural)]
pub enum CopyAction {
    /// The installed copy is identical: leave it.
    Skip,
    /// The installed copy differs: overwrite it.
    Update,
    /// There is no installed copy: copy the file.
    Install,
}

/// Decides for one file, from whether its destination exists and, if so,
/// whether the two hold the same bytes.
pub fn copy_action(dst_exists: bool, identical: bool) -> (r: CopyAction)
    ensures
        r == (if !dst_exists {
            CopyAction::Install
        } else if identical {
            CopyAction::Skip
        } else {
            CopyAction::Update
        }),
{
    if dst_exists {
        if identical {
            CopyAction::Skip
        } else {
            CopyAction::Update
        }
    } else {
        CopyAction::Install
    }
}

proof fn lemma_default_files_filter(ns: Seq<Seq<char>>)
    ensures
        default_files(ns) == ns.filter(|n: Seq<char>| is_default_file(n)),
    decreases ns.len(),
{
    reveal(Seq::filter);
    if ns.len() > 0 {
        lemma_default_files_filter(ns.drop_last());
    }
}

proof fn lemma_opencc_files_filter(ns: Seq<Seq<char>>)
    ensures
        opencc_files(ns) == ns.filter(|n: Seq<char>| is_opencc_file(n)).map_values(
            |n: Seq<char>| "opencc/"@ + n,
        ),
    decreases ns.len(),
{
    reveal(Seq::filter);
    if ns.len() > 0 {
        lemma_opencc_files_filter(ns.drop_last());
        let f = ns.drop_last().filter(|n: Seq<char>| is_opencc_file(n));
        if is_opencc_file(ns.last()) {
            assert(f.push(ns.last()).map_values(|n: Seq<char>| "opencc/"@ + n) =~= f.map_values(
                |n: Seq<char>| "opencc/"@ + n,
            ).push("opencc/"@ + ns.last()));
        }
    }
}

/// The default files of a package's top level are exactly its names that
/// `is_default_file` accepts, in their order: each `.yaml` that is neither a
/// `.custom.yaml`, a `.recipe.yaml` nor `recipe.yaml`, each `.txt` and each
/// `.gram` is among them, and nothing else is.
pub proof fn law_default_files_are_the_matching_names(ns: Seq<Seq<char>>)
    ensures
        default_files(ns) == ns.filter(|n: Seq<char>| is_default_file(n)),
        forall|i: int|
            0 <= i < ns.len() && (".yaml"@.is_suffix_of(ns[i]) && !".custom.yaml"@.is_suffix_of(
                ns[i],
            ) && !".recipe.yaml"@.is_suffix_of(ns[i]) && ns[i] != "recipe.yaml"@
                || ".txt"@.is_suffix_of(ns[i]) || ".gram"@.is_suffix_of(ns[i])) ==> default_files(
                ns,
            ).contains(ns[i]),
        forall|j: int|
            0 <= j < default_files(ns).len() ==> ns.contains(default_files(ns)[j])
                && is_default_file(#[trigger] default_files(ns)[j]),
{
    lemma_default_files_filter(ns);
    broadcast use vstd::seq_lib::group_filter_ensures;

    let pred = |n: Seq<char>| is_default_file(n);
    assert forall|j: int| 0 <= j < default_files(ns).len() implies ns.contains(
        default_files(ns)[j],
    ) by {
        ns.lemma_filter_contains_rev(pred, default_files(ns)[j]);
    }
}

/// The default files of a package's `opencc` directory are `opencc/<n>` for
/// exactly its names `n` that end in `.json`, `.ocd` or `.txt`, in order.
pub proof fn law_opencc_files_are_the_matching_names(ns: Seq<Seq<char>>)
    ensures
        opencc_files(ns) == ns.filter(
            |n: Seq<char>| ".json"@.is_suffix_of(n) || ".ocd"@.is_suffix_of(n) || ".txt"@.is_suffix_of(n),
        ).map_values(|n: Seq<char>| "opencc/"@ + n),
{
    lemma_opencc_files_filter(ns);
    assert((|n: Seq<char>| is_opencc_file(n)) =~= (|n: Seq<char>|
        ".json"@.is_suffix_of(n) || ".ocd"@.is_suffix_of(n) || ".txt"@.is_suffix_of(n)));
}

} // verus!
