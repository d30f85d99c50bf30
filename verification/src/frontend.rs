//! Where the Rime frontends keep their user directory, in the order in which
//! they are looked for.
use vstd::prelude::*;

verus! {

/// The operating systems that have a Rime frontend.
#[derive(Debug, Clone, Copy, PartialEq, Eq, Structural)]
pub enum Platform {
    MacOs,
    Windows,
    Linux,
    Other,
}

/// The directory that a candidate path is relative to.
#[derive(Debug, Clone, Copy, PartialEq, Eq, Structural)]
pub enum DirBase {
    /// The user's home directory.
    Home,
    /// The directory in the `APPDATA` environment variable.
    AppData,
}

/// The views of a list of candidate directories.
pub open spec fn candidates_view(v: Seq<(DirBase, String)>) -> Seq<(DirBase, Seq<char>)> {
    v.map_values(|c: (DirBase, String)| (c.0, c.1@))
}

/// The candidate user directories on a platform, in order: Squirrel on
/// macOS; Weasel on Windows; fcitx5-rime, fcitx-rime, ibus-rime on Linux.
pub open spec fn spec_rime_dir_candidates(p: Platform) -> Seq<(DirBase, Seq<char>)> {
    match p {
        Platform::MacOs => seq![(DirBase::Home, "Library/Rime"@)],
        Platform::Windows => seq![(DirBase::AppData, "Rime"@)],
        Platform::Linux => seq![
            (DirBase::Home, ".local/share/fcitx5/rime"@),
            (DirBase::Home, ".config/fcitx/rime"@),
            (DirBase::Home, ".config/ibus/rime"@),
        ],
        Platform::Other => Seq::empty(),
    }
}

/// The candidate Rime user directories on `platform`; the first that exists
/// is the user directory.
pub fn rime_dir_candidates(platform: Platform) -> (r: Vec<(DirBase, String)>)
    ensures
        candidates_view(r@) == spec_rime_dir_candidates(platform),
{
    let mut r: Vec<(DirBase, String)> = Vec::new();
    match platform {
        Platform::MacOs => {
            r.push((DirBase::Home, String::from_str("Library/Rime")));
        },
        Platform::Windows => {
            r.push((DirBase::AppData, String::from_str("Rime")));
        },
        Platform::Linux => {
            r.push((DirBase::Home, String::from_str(".local/share/fcitx5/rime")));
            r.push((DirBase::Home, String::from_str(".config/fcitx/rime")));
            r.push((DirBase::Home, String::from_str(".config/ibus/rime")));
        },
        Platform::Other => {},
    }
    proof {
        assert(candidates_view(r@) =~= spec_rime_dir_candidates(platform));
    }
    r
}

} // verus!
