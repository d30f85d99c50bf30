//! The install run: which packages a target stands for, where their files
//! come from, and which steps are taken.
use vstd::prelude::*;
use crate::conf::{load_conf_file, spec_load_conf, ConfError};
use crate::target::{
    parse_target, spec_parse_target, PackageRef, PackageRefView, Target, TargetView,
};
use crate::text::{str_eq, views};

verus! {

/// Where the packages of a target come from.
#[derive(Debug)]
pub enum TargetSource {
    /// The target is the packages themselves.
    Packages(Vec<PackageRef>),
    /// A built-in set: the package list `file_name` in the plum directory.
    BuiltinConf { name: String, file_name: String },
    /// A remote package list at `url`.
    RemoteConf(String),
}

/// Where the packages of `t` come from: a package is itself, a built-in set
/// `name` is the file `<name>-packages.conf`, a package list is its URL.
pub fn resolve_target(t: Target) -> (r: TargetSource)
    ensures
        match t {
            Target::Package(p) => r matches TargetSource::Packages(v) && v@ == seq![p],
            Target::BuiltinConfig(n) => r matches TargetSource::BuiltinConf { name, file_name }
                && name@ == n@ && file_name@ == n@ + "-packages.conf"@,
            Target::PackageList(pl) => r matches TargetSource::RemoteConf(url) && url@ == pl.url@,
        },
{
    match t {
        Target::Package(p) => {
            let mut v: Vec<PackageRef> = Vec::new();
            v.push(p);
            proof {
                assert(v@ =~= seq![p]);
            }
            TargetSource::Packages(v)
        },
        Target::BuiltinConfig(name) => {
            let mut file_name = String::from_str(name.as_str());
            file_name.append("-packages.conf");
            TargetSource::BuiltinConf { name, file_name }
        },
        Target::PackageList(pl) => TargetSource::RemoteConf(pl.url),
    }
}

/// Why a package list yields no packages.
#[derive(Debug)]
pub enum PackageListError {
    /// The list itself cannot be read.
    Conf(ConfError),
    /// An entry of the list names no single package.
    IllegalTarget(String),
}

/// The views of a sequence of packages.
pub open spec fn refs_view(v: Seq<PackageRef>) -> Seq<PackageRefView> {
    v.map_values(|p: PackageRef| p@)
}

/// The packages that the entries of a list name, or the first entry that
/// names no single package.
pub open spec fn spec_packages(entries: Seq<Seq<char>>) -> Result<Seq<PackageRefView>, Seq<char>>
    decreases entries.len(),
{
    if entries.len() == 0 {
        Ok(Seq::empty())
    } else {
        match spec_packages(entries.drop_last()) {
            Err(bad) => Err(bad),
            Ok(ps) => match spec_parse_target(entries.last()) {
                TargetView::Package(p) => Ok(ps.push(p)),
                _ => Err(entries.last()),
            },
        }
    }
}

proof fn lemma_packages_err_extends(es: Seq<Seq<char>>, i: int)
    requires
        0 <= i <= es.len(),
        spec_packages(es.take(i)) is Err,
    ensures
        spec_packages(es) == spec_packages(es.take(i)),
    decreases es.len() - i,
{
    if i < es.len() {
        assert(es.take(i + 1).drop_last() =~= es.take(i));
        lemma_packages_err_extends(es, i + 1);
    } else {
        assert(es.take(i) =~= es);
    }
}

/// The packages of a package list: each entry of the list read as a target,
/// which must name a single package.
pub fn parse_package_list(content: &str) -> (r: Result<Vec<PackageRef>, PackageListError>)
    ensures
        match spec_load_conf(content@) {
            Err(e) => r matches Err(PackageListError::Conf(e2)) && e2 == e,
            Ok(list) => match spec_packages(list) {
                Ok(ps) => r matches Ok(v) && refs_view(v@) == ps,
                Err(bad) => r matches Err(PackageListError::IllegalTarget(s)) && s@ == bad,
            },
        },
{
    let list = match load_conf_file(content) {
        Ok(l) => l,
        Err(e) => return Err(PackageListError::Conf(e)),
    };
    let ghost es = views(list@);
    let mut out: Vec<PackageRef> = Vec::new();
    let mut i: usize = 0;
    proof {
        assert(es.take(0) =~= Seq::<Seq<char>>::empty());
        assert(refs_view(out@) =~= Seq::<PackageRefView>::empty());
    }
    while i < list.len()
        invariant
            es == views(list@),
            spec_load_conf(content@) == Ok::<Seq<Seq<char>>, ConfError>(es),
            i <= list.len(),
            spec_packages(es.take(i as int)) == Ok::<Seq<PackageRefView>, Seq<char>>(
                refs_view(out@),
            ),
        decreases list.len() - i,
    {
        proof {
            let t = es.take(i + 1);
            assert(t.drop_last() =~= es.take(i as int));
            assert(t.last() == list@[i as int]@);
        }
        match parse_target(list[i].as_str()) {
            Ok(Target::Package(p)) => {
                let ghost before = out@;
                out.push(p);
                proof {
                    assert(refs_view(out@) =~= refs_view(before).push(p@));
                }
            },
            _ => {
                proof {
                    lemma_packages_err_extends(es, i + 1);
                }
                return Err(PackageListError::IllegalTarget(String::from_str(list[i].as_str())));
            },
        }
        i += 1;
    }
    proof {
        assert(es.take(list@.len() as int) =~= es);
    }
    Ok(out)
}

/// The recipe file of a package: `<recipe>.recipe.yaml` for a named recipe,
/// `recipe.yaml` otherwise.
pub open spec fn spec_recipe_file_name(p: PackageRefView) -> Seq<char> {
    match p.recipe {
        Some(r) => r + ".recipe.yaml"@,
        None => "recipe.yaml"@,
    }
}

/// The name of the recipe file of a package, in its directory.
pub fn recipe_file_name(pkg: &PackageRef) -> (r: String)
    ensures
        r@ == spec_recipe_file_name(pkg@),
{
    match &pkg.recipe {
        Some(name) => {
            let mut f = String::from_str(name.as_str());
            f.append(".recipe.yaml");
            f
        },
        None => String::from_str("recipe.yaml"),
    }
}

/// Where the files to install from a package are chosen.
#[derive(Debug)]
pub enum InstallSource {
    /// The recipe file of that name in the package directory.
    Recipe(String),
    /// The package's default files.
    DefaultFiles,
}

/// Why a package cannot be installed.
#[derive(Debug)]
pub enum InstallError {
    /// The named recipe's file is not in the package.
    RecipeMissing(String),
}

/// How a package is installed, given whether its recipe file (see
/// `recipe_file_name`) exists: a named recipe must exist; without a named
/// recipe, `recipe.yaml` is used where it exists, the default files otherwise.
pub fn install_package(pkg: &PackageRef, recipe_file_exists: bool) -> (r: Result<
    InstallSource,
    InstallError,
>)
    ensures
        pkg@.recipe is Some && !recipe_file_exists ==> (r matches Err(
            InstallError::RecipeMissing(f),
        ) && f@ == spec_recipe_file_name(pkg@)),
        recipe_file_exists ==> (r matches Ok(InstallSource::Recipe(f)) && f@
            == spec_recipe_file_name(pkg@)),
        pkg@.recipe is None && !recipe_file_exists ==> r matches Ok(InstallSource::DefaultFiles),
{
    let file = recipe_file_name(pkg);
    if recipe_file_exists {
        Ok(InstallSource::Recipe(file))
    } else {
        match &pkg.recipe {
            Some(_) => Err(InstallError::RecipeMissing(file)),
            None => Ok(InstallSource::DefaultFiles),
        }
    }
}

/// The targets of a run: those given, or `:preset` where none is.
pub fn targets_or_default(targets: Vec<String>) -> (r: Vec<String>)
    ensures
        targets@.len() == 0 ==> views(r@) == seq![":preset"@],
        targets@.len() > 0 ==> r@ == targets@,
{
    if targets.len() == 0 {
        let mut r: Vec<String> = Vec::new();
        r.push(String::from_str(":preset"));
        proof {
            assert(views(r@) =~= seq![":preset"@]);
        }
        r
    } else {
        targets
    }
}

/// Whether a target asks to update the installer itself (`plum`), which is
/// not done.
pub fn names_installer(raw: &str) -> (r: bool)
    ensures
        r == (raw@ == "plum"@),
{
    str_eq(raw, "plum")
}

/// Whether a package is fetched: always, unless updates are off and the
/// package directory is already there.
pub fn should_fetch(no_update: bool, package_dir_exists: bool) -> (r: bool)
    ensures
        r == (!no_update || !package_dir_exists),
{
    !no_update || !package_dir_exists
}

/// Each package of a package list is exactly the package that its entry
/// names as a target, every field included: the list yields one package per
/// entry, in order, when every entry names a package; otherwise it fails on
/// the first entry that does not.
pub proof fn law_package_list_entries(es: Seq<Seq<char>>)
    ensures
        spec_packages(es) matches Ok(ps) ==> ps.len() == es.len() && forall|i: int|
            0 <= i < es.len() ==> spec_parse_target(es[i]) == TargetView::Package(ps[i]),
        (forall|i: int| 0 <= i < es.len() ==> spec_parse_target(es[i]) is Package) ==> spec_packages(
            es,
        ) is Ok,
        spec_packages(es) matches Err(bad) ==> exists|i: int|
            0 <= i < es.len() && es[i] == bad && !(spec_parse_target(bad) is Package) && forall|
                j: int,
            |
                0 <= j < i ==> spec_parse_target(es[j]) is Package,
    decreases es.len(),
{
    if es.len() > 0 {
        let init = es.drop_last();
        law_package_list_entries(init);
        assert forall|i: int| 0 <= i < init.len() implies init[i] == es[i] by {}
        let k = es.len() - 1;
        match spec_packages(init) {
            Err(bad) => {
                let i = choose|i: int|
                    0 <= i < init.len() && init[i] == bad && !(spec_parse_target(bad) is Package)
                        && forall|j: int| 0 <= j < i ==> spec_parse_target(init[j]) is Package;
                assert(es[i] == bad);
                assert forall|j: int| 0 <= j < i implies spec_parse_target(es[j]) is Package by {
                    assert(es[j] == init[j]);
                }
                if forall|i: int| 0 <= i < es.len() ==> spec_parse_target(es[i]) is Package {
                    assert(spec_parse_target(es[i]) is Package);
                }
            },
            Ok(ps0) => {
                match spec_parse_target(es.last()) {
                    TargetView::Package(p) => {
                        let ps = ps0.push(p);
                        assert forall|i: int| 0 <= i < es.len() implies spec_parse_target(es[i])
                            == TargetView::Package(ps[i]) by {
                            if i < k {
                                assert(es[i] == init[i]);
                            }
                        }
                    },
                    _ => {
                        assert(es[k] == es.last());
                        assert forall|j: int| 0 <= j < k implies spec_parse_target(es[j]) is Package by {
                            assert(es[j] == init[j]);
                        }
                    },
                }
            },
        }
    }
}

} // verus!
