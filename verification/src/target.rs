//! Install targets, written as `<user>/<repo>@<branch>:<recipe>:key=value,...`.
//!
//! Examples:
//!   luna-pinyin
//!   lotem/rime-zhung
//!   lotem/rime-zhung@master
//!   lotem/rime-forge/lotem-packages.conf
//!   lotem/rime-zhung@master:somerecipe:key=val
//!   :preset / :extra / :all
//!   https://github.com/xxx/raw/master/foo-packages.conf
use vstd::prelude::*;
use crate::text::{
    chars_of, ends_with, first_index, is_trimmed, lemma_first_index, lemma_first_index_contains,
    lemma_split_once_concat, lemma_trim_trimmed, split_at_char, split_once, starts_with, str_eq,
    trim, trim_str,
};

verus! {

/// What a target string names.
#[derive(Debug, Clone, PartialEq)]
pub enum Target {
    /// A built-in configuration set: `:preset`, `:extra`, `:all`.
    BuiltinConfig(String),
    /// A remote `packages.conf`, by URL or short path.
    PackageList(PackageListRef),
    /// A single package.
    Package(PackageRef),
}

/// Where a remote package list lives.
#[derive(Debug, Clone, PartialEq)]
pub struct PackageListRef {
    pub url: String,
}

/// A package on GitHub, with the recipe to install from it.
#[derive(Debug, Clone, PartialEq)]
pub struct PackageRef {
    /// GitHub user; `rime` for a short name.
    pub user: String,
    /// The GitHub project as written (a `rime-` prefix is kept).
    pub project: String,
    /// The project without its `rime-` prefix.
    pub repo: String,
    /// The branch; `None` for the default branch.
    pub branch: Option<String>,
    /// The recipe name.
    pub recipe: Option<String>,
    /// Recipe options, as `key=value` pairs.
    pub options: Vec<(String, String)>,
}

/// A target string that cannot be read.
#[derive(Debug)]
pub enum ParseError {
    Unrecognized(String),
}

/// The abstract value of a `PackageRef`.
pub struct PackageRefView {
    pub user: Seq<char>,
    pub project: Seq<char>,
    pub repo: Seq<char>,
    pub branch: Option<Seq<char>>,
    pub recipe: Option<Seq<char>>,
    pub options: Seq<(Seq<char>, Seq<char>)>,
}

/// The abstract value of a `Target`.
pub enum TargetView {
    BuiltinConfig(Seq<char>),
    PackageList(Seq<char>),
    Package(PackageRefView),
}

/// The view of an optional string.
pub open spec fn opt_view(o: Option<String>) -> Option<Seq<char>> {
    match o {
        Some(s) => Some(s@),
        None => None,
    }
}

/// The views of a sequence of string pairs.
pub open spec fn pairs_view(v: Seq<(String, String)>) -> Seq<(Seq<char>, Seq<char>)> {
    v.map_values(|p: (String, String)| (p.0@, p.1@))
}

impl View for PackageRef {
    type V = PackageRefView;

    open spec fn view(&self) -> PackageRefView {
        PackageRefView {
            user: self.user@,
            project: self.project@,
            repo: self.repo@,
            branch: opt_view(self.branch),
            recipe: opt_view(self.recipe),
            options: pairs_view(self.options@),
        }
    }
}

impl View for Target {
    type V = TargetView;

    open spec fn view(&self) -> TargetView {
        match self {
            Target::BuiltinConfig(name) => TargetView::BuiltinConfig(name@),
            Target::PackageList(pl) => TargetView::PackageList(pl.url@),
            Target::Package(p) => TargetView::Package(p@),
        }
    }
}

/// `s` cut at its first `d`, or `s` whole and an empty rest.
pub open spec fn spec_split_once_or(s: Seq<char>, d: char) -> (Seq<char>, Seq<char>) {
    match split_once(s, d) {
        Some(parts) => parts,
        None => (s, Seq::empty()),
    }
}

/// A project name without its `rime-` prefix.
pub open spec fn strip_rime(p: Seq<char>) -> Seq<char> {
    if "rime-"@.is_prefix_of(p) {
        p.skip("rime-"@.len() as int)
    } else {
        p
    }
}

/// The option that one `key=value` piece gives: none where the trimmed key
/// is empty.
pub open spec fn option_of(kv: Seq<char>) -> Seq<(Seq<char>, Seq<char>)> {
    let (k, v) = match split_once(kv, '=') {
        Some(parts) => parts,
        None => (kv, Seq::empty()),
    };
    if trim(k).len() == 0 {
        Seq::empty()
    } else {
        seq![(trim(k), trim(v))]
    }
}

/// The options of the comma-separated pieces of `s`, in order.
pub open spec fn options_of(s: Seq<char>) -> Seq<(Seq<char>, Seq<char>)>
    decreases s.len(),
{
    match first_index(s, ',') {
        Some(i) => {
            proof {
                lemma_first_index(s, ',');
            }
            option_of(s.take(i)) + options_of(s.skip(i + 1))
        },
        None => option_of(s),
    }
}

/// The options that an options string gives.
pub open spec fn spec_parse_options(s: Seq<char>) -> Seq<(Seq<char>, Seq<char>)> {
    if s.len() == 0 {
        Seq::empty()
    } else {
        options_of(s)
    }
}

/// The package that a string `<pkg>[@branch][:<recipe>[:<options>]]` names.
pub open spec fn spec_parse_package_ref(s: Seq<char>) -> PackageRefView {
    let (pkg_and_branch, recipe_and_opts) = spec_split_once_or(s, ':');
    let (recipe_str, opts_str) = spec_split_once_or(recipe_and_opts, ':');
    let (pkg_part, branch) = match split_once(pkg_and_branch, '@') {
        Some((p, b)) => (p, Some(b)),
        None => (pkg_and_branch, None),
    };
    let (user, project) = match split_once(pkg_part, '/') {
        Some((u, p)) => (u, p),
        None => ("rime"@, pkg_part),
    };
    PackageRefView {
        user,
        project,
        repo: strip_rime(project),
        branch,
        recipe: if recipe_str.len() == 0 {
            None
        } else {
            Some(recipe_str)
        },
        options: spec_parse_options(opts_str),
    }
}

/// The URL of a package list: an `https://` URL as it is, a short path
/// `user/repo[@branch]/filepath` on GitHub (branch `master` by default),
/// anything else as it is.
pub open spec fn spec_expand_conf_url(s: Seq<char>) -> Seq<char> {
    if "https://"@.is_prefix_of(s) {
        s
    } else {
        match split_once(s, '/') {
            Some((user, rest)) => match split_once(rest, '/') {
                Some((repo_part, filepath)) => {
                    let (repo, branch) = match split_once(repo_part, '@') {
                        Some(parts) => parts,
                        None => (repo_part, "master"@),
                    };
                    "https://github.com/"@ + user + "/"@ + repo + "/raw/"@ + branch + "/"@
                        + filepath
                },
                None => s,
            },
            None => s,
        }
    }
}

/// The target that a target string names.
pub open spec fn spec_parse_target(s: Seq<char>) -> TargetView {
    if s.len() > 0 && s[0] == ':' {
        TargetView::BuiltinConfig(s.drop_first())
    } else if "https://"@.is_prefix_of(s) || "-packages.conf"@.is_suffix_of(s) {
        TargetView::PackageList(spec_expand_conf_url(s))
    } else {
        TargetView::Package(spec_parse_package_ref(s))
    }
}

/// The GitHub path `user/project` of a package; a project of the `rime`
/// user gets the `rime-` prefix where it lacks it.
pub open spec fn spec_github_path(p: PackageRefView) -> Seq<char> {
    let proj = if p.user == "rime"@ && !"rime-"@.is_prefix_of(p.project) {
        "rime-"@ + p.project
    } else {
        p.project
    };
    p.user + "/"@ + proj
}

/// The URL that a package is cloned from.
pub open spec fn spec_clone_url(p: PackageRefView) -> Seq<char> {
    "https://github.com/"@ + spec_github_path(p) + ".git"@
}

impl PackageRef {
    /// The full GitHub path, such as `rime/rime-luna-pinyin`.
    pub fn github_path(&self) -> (r: String)
        ensures
            r@ == spec_github_path(self@),
    {
        let mut r = String::from_str(self.user.as_str());
        r.append("/");
        if str_eq(self.user.as_str(), "rime") && !starts_with(self.project.as_str(), "rime-") {
            r.append("rime-");
        }
        r.append(self.project.as_str());
        proof {
            if self@.user == "rime"@ && !"rime-"@.is_prefix_of(self@.project) {
                assert(r@ =~= self@.user + "/"@ + ("rime-"@ + self@.project));
            }
        }
        r
    }

    /// The URL to clone the package from.
    pub fn clone_url(&self) -> (r: String)
        ensures
            r@ == spec_clone_url(self@),
    {
        let mut r = String::from_str("https://github.com/");
        let path = self.github_path();
        r.append(path.as_str());
        r.append(".git");
        r
    }
}

/// Reads a target string. Every string names some target.
pub fn parse_target(s: &str) -> (r: Result<Target, ParseError>)
    ensures
        r matches Ok(t) && t@ == spec_parse_target(s@),
{
    let v = chars_of(s);
    if v.len() > 0 && v[0] == ':' {
        return Ok(Target::BuiltinConfig(String::from_str(s.substring_char(1, v.len()))));
    }
    if starts_with(s, "https://") || ends_with(s, "-packages.conf") {
        let url = expand_conf_url(s);
        return Ok(Target::PackageList(PackageListRef { url }));
    }
    match parse_package_ref(s) {
        Ok(p) => Ok(Target::Package(p)),
        Err(e) => Err(e),
    }
}

/// The URL of a package list given by URL or short path.
pub fn expand_conf_url(s: &str) -> (r: String)
    ensures
        r@ == spec_expand_conf_url(s@),
{
    if starts_with(s, "https://") {
        return String::from_str(s);
    }
    if let Some((user, rest)) = split_at_char(s, '/') {
        if let Some((repo_part, filepath)) = split_at_char(rest, '/') {
            let (repo, branch) = match split_at_char(repo_part, '@') {
                Some((r, b)) => (r, b),
                None => (repo_part, "master"),
            };
            let mut r = String::from_str("https://github.com/");
            r.append(user);
            r.append("/");
            r.append(repo);
            r.append("/raw/");
            r.append(branch);
            r.append("/");
            r.append(filepath);
            return r;
        }
    }
    String::from_str(s)
}

/// `s` cut at its first `delim`, or `s` whole and an empty rest.
pub fn split_once_or(s: &str, delim: char) -> (r: (&str, &str))
    ensures
        (r.0@, r.1@) == spec_split_once_or(s@, delim),
{
    match split_at_char(s, delim) {
        Some((a, b)) => (a, b),
        None => {
            let v = chars_of(s);
            (s, s.substring_char(v.len(), v.len()))
        },
    }
}

/// The option of one `key=value` piece.
fn parse_option(kv: &str) -> (r: Option<(String, String)>)
    ensures
        match r {
            Some(p) => option_of(kv@) == seq![(p.0@, p.1@)],
            None => option_of(kv@) == Seq::<(Seq<char>, Seq<char>)>::empty(),
        },
{
    let (k, v) = split_once_or(kv, '=');
    let k = trim_str(k);
    let v = trim_str(v);
    if k.unicode_len() == 0 {
        None
    } else {
        Some((String::from_str(k), String::from_str(v)))
    }
}

/// The `key=value` options of a comma-separated options string; pieces with
/// an empty key are left out.
pub fn parse_options(s: &str) -> (r: Vec<(String, String)>)
    ensures
        pairs_view(r@) == spec_parse_options(s@),
{
    let mut out: Vec<(String, String)> = Vec::new();
    if s.unicode_len() == 0 {
        proof {
            assert(pairs_view(out@) =~= Seq::<(Seq<char>, Seq<char>)>::empty());
        }
        return out;
    }
    let mut rest: &str = s;
    proof {
        assert(pairs_view(out@) + options_of(rest@) =~= options_of(s@));
    }
    loop
        invariant_except_break
            pairs_view(out@) + options_of(rest@) == options_of(s@),
        ensures
            pairs_view(out@) == options_of(s@),
        decreases rest@.len(),
    {
        let ghost before = out@;
        proof {
            lemma_first_index(rest@, ',');
        }
        match split_at_char(rest, ',') {
            Some((a, b)) => {
                if let Some(p) = parse_option(a) {
                    out.push(p);
                    proof {
                        assert(pairs_view(out@) =~= pairs_view(before) + option_of(a@));
                    }
                } else {
                    proof {
                        assert(pairs_view(out@) =~= pairs_view(before) + option_of(a@));
                    }
                }
                proof {
                    assert(pairs_view(out@) + options_of(b@) =~= pairs_view(before) + (option_of(
                        a@,
                    ) + options_of(b@)));
                }
                rest = b;
            },
            None => {
                if let Some(p) = parse_option(rest) {
                    out.push(p);
                    proof {
                        assert(pairs_view(out@) =~= pairs_view(before) + option_of(rest@));
                    }
                } else {
                    proof {
                        assert(pairs_view(out@) =~= pairs_view(before) + option_of(rest@));
                    }
                }
                break ;
            },
        }
    }
    out
}

/// `p` without a leading `rime-`.
fn strip_rime_prefix(p: &str) -> (r: &str)
    ensures
        r@ == strip_rime(p@),
{
    if starts_with(p, "rime-") {
        let n: usize = "rime-".unicode_len();
        p.substring_char(n, p.unicode_len())
    } else {
        p
    }
}

/// Reads a package string `<pkg>[@branch][:<recipe>[:<options>]]`, where
/// `<pkg>` is `user/project` or a short name of the `rime` user.
pub fn parse_package_ref(s: &str) -> (r: Result<PackageRef, ParseError>)
    ensures
        r matches Ok(p) && p@ == spec_parse_package_ref(s@),
{
    let (pkg_and_branch, recipe_and_opts) = split_once_or(s, ':');
    let (recipe_str, opts_str) = split_once_or(recipe_and_opts, ':');

    let recipe = if recipe_str.unicode_len() == 0 {
        None
    } else {
        Some(String::from_str(recipe_str))
    };

    let options = parse_options(opts_str);

    let (pkg_part, branch) = match split_at_char(pkg_and_branch, '@') {
        Some((p, b)) => (p, Some(String::from_str(b))),
        None => (pkg_and_branch, None),
    };

    let (user, project) = match split_at_char(pkg_part, '/') {
        Some((u, p)) => (String::from_str(u), p),
        None => (String::from_str("rime"), pkg_part),
    };
    let repo = String::from_str(strip_rime_prefix(project));
    let project = String::from_str(project);

    Ok(PackageRef { user, repo, project, branch, recipe, options })
}

/// Splitting at a delimiter loses nothing: where `d` occurs in `s`, the part
/// before its first occurrence, `d`, and the part after it make up `s`, and
/// the first part holds no `d`; where it does not, the first part is `s` and
/// the second is empty.
pub proof fn law_split_once_or_rebuilds(s: Seq<char>, d: char)
    ensures
        s.contains(d) ==> spec_split_once_or(s, d).0 + seq![d] + spec_split_once_or(s, d).1 == s
            && !spec_split_once_or(s, d).0.contains(d),
        !s.contains(d) ==> spec_split_once_or(s, d) == (s, Seq::<char>::empty()),
{
    lemma_first_index_contains(s, d);
    lemma_first_index(s, d);
    if let Some(i) = first_index(s, d) {
        let (a, b) = spec_split_once_or(s, d);
        assert(a + seq![d] + b =~= s);
        assert forall|j: int| 0 <= j < a.len() implies a[j] != d by {
            assert(a[j] == s[j]);
        }
    }
}

/// A key and its value of an option have no surrounding whitespace, and no
/// key is empty.
pub open spec fn is_clean_option(o: (Seq<char>, Seq<char>)) -> bool {
    o.0.len() > 0 && is_trimmed(o.0) && is_trimmed(o.1)
}

proof fn lemma_option_of_clean(kv: Seq<char>)
    ensures
        forall|i: int| 0 <= i < option_of(kv).len() ==> is_clean_option(#[trigger] option_of(kv)[i]),
{
    let (k, v) = match split_once(kv, '=') {
        Some(parts) => parts,
        None => (kv, Seq::<char>::empty()),
    };
    lemma_trim_trimmed(k);
    lemma_trim_trimmed(v);
}

proof fn lemma_options_of_clean(s: Seq<char>)
    ensures
        forall|i: int| 0 <= i < options_of(s).len() ==> is_clean_option(#[trigger] options_of(s)[i]),
    decreases s.len(),
{
    lemma_first_index(s, ',');
    match first_index(s, ',') {
        Some(i) => {
            let a = option_of(s.take(i));
            let b = options_of(s.skip(i + 1));
            lemma_option_of_clean(s.take(i));
            lemma_options_of_clean(s.skip(i + 1));
            assert forall|k: int| 0 <= k < (a + b).len() implies is_clean_option(
                #[trigger] (a + b)[k],
            ) by {
                if k < a.len() {
                    assert((a + b)[k] == a[k]);
                } else {
                    assert((a + b)[k] == b[k - a.len()]);
                }
            }
        },
        None => {
            lemma_option_of_clean(s);
        },
    }
}

/// Every option that an options string gives has a non-empty key, and its
/// key and value carry no surrounding whitespace.
pub proof fn law_options_are_clean(s: Seq<char>)
    ensures
        forall|i: int|
            0 <= i < spec_parse_options(s).len() ==> is_clean_option(
                #[trigger] spec_parse_options(s)[i],
            ),
{
    if s.len() > 0 {
        lemma_options_of_clean(s);
    }
}

/// A short name (a target with no `:`, `@` or `/` that is no package list)
/// names the package of that name of the `rime` user, on the default branch,
/// with no recipe and no options; its GitHub path is `rime/rime-<name>`, or
/// `rime/<name>` where the name already begins with `rime-`.
pub proof fn law_short_name(s: Seq<char>)
    requires
        !s.contains(':'),
        !s.contains('@'),
        !s.contains('/'),
        !"-packages.conf"@.is_suffix_of(s),
    ensures
        spec_parse_target(s) == TargetView::Package(
            PackageRefView {
                user: "rime"@,
                project: s,
                repo: strip_rime(s),
                branch: None,
                recipe: None,
                options: Seq::empty(),
            },
        ),
        spec_github_path(spec_parse_package_ref(s)) == (if "rime-"@.is_prefix_of(s) {
            "rime/"@ + s
        } else {
            "rime/"@ + "rime-"@ + s
        }),
{
    reveal_strlit("https://");
    reveal_strlit("rime");
    reveal_strlit("/");
    reveal_strlit("rime/");
    lemma_first_index_contains(s, ':');
    lemma_first_index_contains(s, '@');
    lemma_first_index_contains(s, '/');
    if "https://"@.is_prefix_of(s) {
        assert(s[5] == "https://"@[5]);
    }
    if s.len() > 0 {
        assert(s[0] != ':');
    }
    let e = Seq::<char>::empty();
    lemma_first_index_contains(e, ':');
    assert(spec_split_once_or(s, ':') == (s, e));
    assert(spec_split_once_or(e, ':') == (e, e));
    assert("rime/"@ == "rime"@ + "/"@);
    if !"rime-"@.is_prefix_of(s) {
        assert("rime"@ + "/"@ + ("rime-"@ + s) =~= "rime/"@ + "rime-"@ + s);
    }
}

/// `user/project@branch`, where the user holds no `/` and neither part holds
/// `:` or `@`, names that project of that user on that branch; its GitHub
/// path is `user/project` for any user but `rime`.
pub proof fn law_user_project_branch(u: Seq<char>, p: Seq<char>, b: Seq<char>)
    requires
        !u.contains(':') && !u.contains('@') && !u.contains('/'),
        !p.contains(':') && !p.contains('@'),
        !b.contains(':'),
        u != "rime"@,
    ensures
        ({
            let r = spec_parse_package_ref(u + seq!['/'] + p + seq!['@'] + b);
            &&& r.user == u
            &&& r.project == p
            &&& r.repo == strip_rime(p)
            &&& r.branch == Some(b)
            &&& r.recipe is None
            &&& r.options.len() == 0
            &&& spec_github_path(r) == u + "/"@ + p
        }),
{
    let s = u + seq!['/'] + p + seq!['@'] + b;
    let pkg = u + seq!['/'] + p;
    assert(s == pkg + seq!['@'] + b);
    assert(!s.contains(':')) by {
        if s.contains(':') {
            let j = choose|j: int| 0 <= j < s.len() && s[j] == ':';
            if j < u.len() {
                assert(s[j] == u[j]);
            } else if j == u.len() {
            } else if j < u.len() + 1 + p.len() {
                assert(s[j] == p[j - u.len() - 1]);
            } else if j == u.len() + 1 + p.len() {
            } else {
                assert(s[j] == b[j - u.len() - 2 - p.len()]);
            }
        }
    }
    assert(!pkg.contains('@')) by {
        if pkg.contains('@') {
            let j = choose|j: int| 0 <= j < pkg.len() && pkg[j] == '@';
            if j < u.len() {
                assert(pkg[j] == u[j]);
            } else if j > u.len() {
                assert(pkg[j] == p[j - u.len() - 1]);
            }
        }
    }
    lemma_first_index_contains(s, ':');
    let e = Seq::<char>::empty();
    lemma_first_index_contains(e, ':');
    assert(spec_split_once_or(s, ':') == (s, e));
    assert(spec_split_once_or(e, ':') == (e, e));
    lemma_split_once_concat(pkg, '@', b);
    lemma_split_once_concat(u, '/', p);
}

/// Expanding a package-list location twice gives what expanding it once
/// gives: every expanded location is an `https://` URL or was left as it is.
pub proof fn law_expand_conf_url_idempotent(s: Seq<char>)
    ensures
        spec_expand_conf_url(spec_expand_conf_url(s)) == spec_expand_conf_url(s),
{
    reveal_strlit("https://");
    reveal_strlit("https://github.com/");
    if !"https://"@.is_prefix_of(s) {
        if let Some((user, rest)) = split_once(s, '/') {
            if let Some((repo_part, filepath)) = split_once(rest, '/') {
                let (repo, branch) = match split_once(repo_part, '@') {
                    Some(parts) => parts,
                    None => (repo_part, "master"@),
                };
                let r = "https://github.com/"@ + user + "/"@ + repo + "/raw/"@ + branch + "/"@
                    + filepath;
                assert(r.subrange(0, 8) =~= "https://"@);
            }
        }
    }
}

/// The repo name of every package that a string names is its project name
/// without the `rime-` prefix.
pub proof fn law_repo_is_project_without_prefix(s: Seq<char>)
    ensures
        spec_parse_package_ref(s).repo == strip_rime(spec_parse_package_ref(s).project),
{
}

/// Every project of the `rime` user is looked up on GitHub under a name that
/// begins with `rime-`: the GitHub path of such a package begins with
/// `rime/rime-`.
pub proof fn law_rime_projects_carry_prefix(p: PackageRefView)
    requires
        p.user == "rime"@,
    ensures
        ("rime/"@ + "rime-"@).is_prefix_of(spec_github_path(p)),
{
    reveal_strlit("rime");
    reveal_strlit("rime/");
    reveal_strlit("rime-");
    reveal_strlit("/");
    let path = spec_github_path(p);
    if "rime-"@.is_prefix_of(p.project) {
        assert(path =~= "rime"@ + "/"@ + p.project);
        assert(path.subrange(0, 10) =~= "rime/"@ + "rime-"@);
    } else {
        assert(path =~= "rime"@ + "/"@ + ("rime-"@ + p.project));
        assert(path.subrange(0, 10) =~= "rime/"@ + "rime-"@);
    }
}

/// A branch is read from a short name just as from `user/project`: the
/// target `n@b`, where the name `n` holds no `:`, `@` or `/` and the branch
/// `b` no `:`, names the project `n` of the `rime` user on branch `b`, whose
/// repo is `n` without a leading `rime-`.
pub proof fn law_short_name_with_branch(n: Seq<char>, b: Seq<char>)
    requires
        !n.contains(':') && !n.contains('@') && !n.contains('/'),
        !b.contains(':'),
    ensures
        ({
            let r = spec_parse_package_ref(n + seq!['@'] + b);
            &&& r.user == "rime"@
            &&& r.project == n
            &&& r.repo == (if "rime-"@.is_prefix_of(n) {
                n.skip(5)
            } else {
                n
            })
            &&& r.branch == Some(b)
            &&& r.recipe is None
            &&& r.options.len() == 0
        }),
        !"-packages.conf"@.is_suffix_of(n + seq!['@'] + b) ==> spec_parse_target(n + seq!['@'] + b)
            == TargetView::Package(spec_parse_package_ref(n + seq!['@'] + b)),
{
    reveal_strlit("rime-");
    reveal_strlit("https://");
    let s = n + seq!['@'] + b;
    assert(!s.contains(':')) by {
        if s.contains(':') {
            let j = choose|j: int| 0 <= j < s.len() && s[j] == ':';
            if j < n.len() {
                assert(s[j] == n[j]);
            } else if j > n.len() {
                assert(s[j] == b[j - n.len() - 1]);
            }
        }
    }
    lemma_first_index_contains(s, ':');
    let e = Seq::<char>::empty();
    lemma_first_index_contains(e, ':');
    assert(spec_split_once_or(s, ':') == (s, e));
    assert(spec_split_once_or(e, ':') == (e, e));
    lemma_split_once_concat(n, '@', b);
    lemma_first_index_contains(n, '/');
    if "https://"@.is_prefix_of(s) {
        assert(s[5] == "https://"@[5]);
    }
    if s.len() > 0 {
        assert(s[0] != ':');
    }
}

/// The GitHub path of a package of any user but `rime` is `user/project`,
/// the project as written, whatever the package's branch, recipe and options.
pub proof fn law_other_users_keep_project(p: PackageRefView)
    requires
        p.user != "rime"@,
    ensures
        spec_github_path(p) == p.user + "/"@ + p.project,
        spec_clone_url(p) == "https://github.com/"@ + p.user + "/"@ + p.project + ".git"@,
{
}

proof fn lemma_not_https(u: Seq<char>, rest: Seq<char>)
    requires
        !u.contains(':'),
    ensures
        !"https://"@.is_prefix_of(u + seq!['/'] + rest),
{
    reveal_strlit("https://");
    let s = u + seq!['/'] + rest;
    if "https://"@.is_prefix_of(s) {
        let h = "https://"@;
        assert(h.len() == 8);
        assert(s.subrange(0, 8) == h);
        if u.len() > 5 {
            assert(s[5] == u[5]);
            assert(s.subrange(0, 8)[5] == s[5]);
            assert(h[5] == ':');
            assert(u[5] == ':');
            assert(u.contains(':'));
        } else {
            let k = u.len() as int;
            assert(s[k] == '/');
            assert(s.subrange(0, 8)[k] == s[k]);
            assert(h[0] == 'h' && h[1] == 't' && h[2] == 't' && h[3] == 'p' && h[4] == 's' && h[5]
                == ':');
            assert(h[k] != '/');
        }
    }
}

/// A package-list location `u/r/f`, where the user `u` holds no `/` or `:`
/// and the repo `r` no `/` or `@`, is the file `f` of the `master` branch of
/// `u/r` on GitHub; the file path is kept whole, slashes included.
pub proof fn law_conf_location_default_branch(u: Seq<char>, r: Seq<char>, f: Seq<char>)
    requires
        !u.contains('/') && !u.contains(':'),
        !r.contains('/') && !r.contains('@'),
    ensures
        spec_expand_conf_url(u + seq!['/'] + r + seq!['/'] + f) == "https://github.com/"@ + u
            + "/"@ + r + "/raw/master/"@ + f,
{
    reveal_strlit("/raw/master/");
    reveal_strlit("/raw/");
    reveal_strlit("master");
    reveal_strlit("/");
    let s = u + seq!['/'] + r + seq!['/'] + f;
    let rest = r + seq!['/'] + f;
    assert(s == u + seq!['/'] + rest);
    lemma_not_https(u, rest);
    lemma_split_once_concat(u, '/', rest);
    lemma_split_once_concat(r, '/', f);
    lemma_first_index_contains(r, '@');
    assert("https://github.com/"@ + u + "/"@ + r + "/raw/"@ + "master"@ + "/"@ + f
        =~= "https://github.com/"@ + u + "/"@ + r + "/raw/master/"@ + f);
}

/// A package-list location `u/r@b/f`, where the user `u` holds no `/` or
/// `:`, the repo `r` no `/` or `@` and the branch `b` no `/`, is the file `f`
/// of branch `b` of `u/r` on GitHub; the file path is kept whole.
pub proof fn law_conf_location_with_branch(
    u: Seq<char>,
    r: Seq<char>,
    b: Seq<char>,
    f: Seq<char>,
)
    requires
        !u.contains('/') && !u.contains(':'),
        !r.contains('/') && !r.contains('@'),
        !b.contains('/'),
    ensures
        spec_expand_conf_url(u + seq!['/'] + r + seq!['@'] + b + seq!['/'] + f)
            == "https://github.com/"@ + u + "/"@ + r + "/raw/"@ + b + "/"@ + f,
{
    let s = u + seq!['/'] + r + seq!['@'] + b + seq!['/'] + f;
    let rp = r + seq!['@'] + b;
    let rest = rp + seq!['/'] + f;
    assert(s == u + seq!['/'] + rest);
    assert(!rp.contains('/')) by {
        if rp.contains('/') {
            let j = choose|j: int| 0 <= j < rp.len() && rp[j] == '/';
            if j < r.len() {
                assert(rp[j] == r[j]);
            } else if j > r.len() {
                assert(rp[j] == b[j - r.len() - 1]);
            }
        }
    }
    lemma_not_https(u, rest);
    lemma_split_once_concat(u, '/', rest);
    lemma_split_once_concat(rp, '/', f);
    lemma_split_once_concat(r, '@', b);
}

} // verus!
