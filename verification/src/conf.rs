//! Package lists in `packages.conf` files: `package_list=(luna-pinyin terra-pinyin ...)`.
use vstd::prelude::*;
use crate::text::{
    chars_of, find_chars, find_char, find_seq, first_index, is_word, lemma_find_seq,
    lemma_first_index, lemma_words, split_whitespace, views, words,
};

verus! {

/// Why a `packages.conf` cannot be read.
#[derive(Debug, Clone, Copy, PartialEq, Eq, Structural)]
pub enum ConfError {
    /// There is no `package_list=(`.
    MissingPackageList,
    /// The package list has no closing `)`.
    UnclosedPackageList,
}

/// A word of the list that names a package: comments, which begin with `#`,
/// do not.
pub open spec fn is_entry(w: Seq<char>) -> bool {
    w.len() > 0 && w[0] != '#'
}

/// The words of `ws` that name packages, in order.
pub open spec fn entries(ws: Seq<Seq<char>>) -> Seq<Seq<char>>
    decreases ws.len(),
{
    if ws.len() == 0 {
        Seq::empty()
    } else if is_entry(ws.last()) {
        entries(ws.drop_last()).push(ws.last())
    } else {
        entries(ws.drop_last())
    }
}

/// The marker that opens the package list.
pub open spec fn list_marker() -> Seq<char> {
    "package_list=("@
}

/// The package list of a `packages.conf`: the words between the first
/// `package_list=(` and the first `)` after it, comments left out.
pub open spec fn spec_load_conf(content: Seq<char>) -> Result<Seq<Seq<char>>, ConfError> {
    match find_seq(content, list_marker()) {
        None => Err(ConfError::MissingPackageList),
        Some(start) => {
            let rest = content.skip(start + list_marker().len());
            match first_index(rest, ')') {
                None => Err(ConfError::UnclosedPackageList),
                Some(end) => Ok(entries(words(rest.take(end)))),
            }
        },
    }
}

/// Reads the package list of a `packages.conf`.
pub fn load_conf_file(content: &str) -> (r: Result<Vec<String>, ConfError>)
    ensures
        match r {
            Ok(v) => spec_load_conf(content@) == Ok::<Seq<Seq<char>>, ConfError>(views(v@)),
            Err(e) => spec_load_conf(content@) == Err::<Seq<Seq<char>>, ConfError>(e),
        },
{
    let v = chars_of(content);
    let marker = chars_of("package_list=(");
    let start = match find_chars(&v, &marker) {
        Some(i) => i,
        None => return Err(ConfError::MissingPackageList),
    };
    proof {
        lemma_find_seq(v@, marker@);
    }
    let inner_start: usize = start + marker.len();
    let rest = content.substring_char(inner_start, v.len());
    let rv = chars_of(rest);
    let end = match find_char(&rv, ')') {
        Some(i) => i,
        None => return Err(ConfError::UnclosedPackageList),
    };
    proof {
        lemma_first_index(rv@, ')');
    }
    let inner = rest.substring_char(0, end);
    let ws = split_whitespace(inner);
    let mut out: Vec<String> = Vec::new();
    let mut i: usize = 0;
    while i < ws.len()
        invariant
            i <= ws.len(),
            views(out@) == entries(views(ws@).take(i as int)),
        decreases ws.len() - i,
    {
        let wc = chars_of(ws[i].as_str());
        let keep = wc.len() > 0 && wc[0] != '#';
        proof {
            let t = views(ws@).take(i + 1);
            assert(t.drop_last() =~= views(ws@).take(i as int));
            assert(t.last() == ws@[i as int]@);
        }
        if keep {
            let ghost before = out@;
            out.push(String::from_str(ws[i].as_str()));
            proof {
                assert(views(out@) =~= views(before).push(ws@[i as int]@));
            }
        }
        i += 1;
    }
    proof {
        assert(views(ws@).take(ws@.len() as int) =~= views(ws@));
    }
    Ok(out)
}

/// Every name of a package list is a word (non-empty, free of whitespace) and
/// no comment.
pub proof fn law_conf_entries_are_names(content: Seq<char>)
    ensures
        spec_load_conf(content) matches Ok(list) ==> forall|i: int|
            0 <= i < list.len() ==> is_word(#[trigger] list[i]) && list[i][0] != '#',
{
    if let Some(start) = find_seq(content, list_marker()) {
        let rest = content.skip(start + list_marker().len());
        if let Some(end) = first_index(rest, ')') {
            lemma_words(rest.take(end));
            lemma_entries_from_words(words(rest.take(end)));
        }
    }
}

proof fn lemma_entries_from_words(ws: Seq<Seq<char>>)
    requires
        forall|i: int| 0 <= i < ws.len() ==> is_word(#[trigger] ws[i]),
    ensures
        forall|i: int|
            0 <= i < entries(ws).len() ==> is_word(#[trigger] entries(ws)[i]) && entries(ws)[i][0]
                != '#',
    decreases ws.len(),
{
    if ws.len() > 0 {
        let init = ws.drop_last();
        assert forall|i: int| 0 <= i < init.len() implies is_word(#[trigger] init[i]) by {
            assert(init[i] == ws[i]);
        }
        lemma_entries_from_words(init);
        assert(is_word(ws[ws.len() - 1]));
        let e = entries(ws);
        if is_entry(ws.last()) {
            assert forall|i: int| 0 <= i < e.len() implies is_word(#[trigger] e[i]) && e[i][0]
                != '#' by {
                if i < e.len() - 1 {
                    assert(e[i] == entries(init)[i]);
                } else {
                    assert(e[i] == ws.last());
                }
            }
        }
    }
}

} // verus!
