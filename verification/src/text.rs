//! Character-sequence primitives shared by the parsers: whitespace,
//! searching, splitting and trimming, each specified over `Seq<char>`.
use vstd::prelude::*;
use vstd::std_specs::iter::IteratorSpec;

verus! {

broadcast use vstd::string::group_string_axioms;

/// The Unicode `White_Space` property, which `char::is_whitespace`,
/// `str::trim` and `str::split_whitespace` go by.
pub open spec fn is_ws(c: char) -> bool {
    let n: u32 = c as u32;
    ||| 9 <= n <= 13
    ||| n == 32
    ||| n == 0x85
    ||| n == 0xA0
    ||| n == 0x1680
    ||| 0x2000 <= n <= 0x200A
    ||| n == 0x2028
    ||| n == 0x2029
    ||| n == 0x202F
    ||| n == 0x205F
    ||| n == 0x3000
}

/// Whether `c` has the Unicode `White_Space` property.
pub fn is_whitespace(c: char) -> (r: bool)
    ensures
        r == is_ws(c),
{
    let n: u32 = c as u32;
    (9 <= n && n <= 13) || n == 32 || n == 0x85 || n == 0xA0 || n == 0x1680 || (0x2000 <= n
        && n <= 0x200A) || n == 0x2028 || n == 0x2029 || n == 0x202F || n == 0x205F || n
        == 0x3000
}

/// The characters of `s`, in order.
pub fn chars_of(s: &str) -> (v: Vec<char>)
    ensures
        v@ == s@,
{
    let mut v: Vec<char> = Vec::new();
    for c in it: s.chars()
        invariant
            v@ == it.seq().take(it.index() as int),
    {
        v.push(c);
    }
    v
}


/// The views of a sequence of strings.
pub open spec fn views(v: Seq<String>) -> Seq<Seq<char>> {
    v.map_values(|x: String| x@)
}

/// The first position at which `c` occurs in `s`, if any.
pub open spec fn first_index(s: Seq<char>, c: char) -> Option<int>
    decreases s.len(),
{
    if s.len() == 0 {
        None
    } else if s[0] == c {
        Some(0)
    } else {
        match first_index(s.drop_first(), c) {
            Some(i) => Some(i + 1),
            None => None,
        }
    }
}

/// `first_index` finds the first occurrence, or reports that there is none.
pub proof fn lemma_first_index(s: Seq<char>, c: char)
    ensures
        match first_index(s, c) {
            Some(i) => 0 <= i < s.len() && s[i] == c && forall|j: int| 0 <= j < i ==> s[j] != c,
            None => forall|j: int| 0 <= j < s.len() ==> s[j] != c,
        },
    decreases s.len(),
{
    if s.len() > 0 && s[0] != c {
        lemma_first_index(s.drop_first(), c);
        assert forall|j: int| 0 < j < s.len() implies s[j] == s.drop_first()[j - 1] by {}
    }
}

/// A position with `c`, and no `c` before it, is the first index of `c`.
pub proof fn lemma_first_index_is(s: Seq<char>, c: char, i: int)
    requires
        0 <= i < s.len(),
        s[i] == c,
        forall|j: int| 0 <= j < i ==> s[j] != c,
    ensures
        first_index(s, c) == Some(i),
{
    lemma_first_index(s, c);
}

/// With no `c` in `s`, `c` has no first index.
pub proof fn lemma_first_index_none(s: Seq<char>, c: char)
    requires
        forall|j: int| 0 <= j < s.len() ==> s[j] != c,
    ensures
        first_index(s, c) is None,
{
    lemma_first_index(s, c);
}

/// `s` cut at the first `d`, which belongs to neither part: what
/// `str::split_once` and `str::splitn(2, d)` give.
pub open spec fn split_once(s: Seq<char>, d: char) -> Option<(Seq<char>, Seq<char>)> {
    match first_index(s, d) {
        Some(i) => Some((s.take(i), s.skip(i + 1))),
        None => None,
    }
}

/// The first position of `c` in `v`.
pub fn find_char(v: &Vec<char>, c: char) -> (r: Option<usize>)
    ensures
        match r {
            Some(i) => first_index(v@, c) == Some(i as int),
            None => first_index(v@, c) is None,
        },
{
    let mut i: usize = 0;
    while i < v.len()
        invariant
            i <= v.len(),
            forall|j: int| 0 <= j < i ==> v@[j] != c,
        decreases v.len() - i,
    {
        if v[i] == c {
            proof {
                lemma_first_index_is(v@, c, i as int);
            }
            return Some(i);
        }
        i += 1;
    }
    proof {
        lemma_first_index_none(v@, c);
    }
    None
}

/// `s` cut at its first `d`.
pub fn split_at_char(s: &str, d: char) -> (r: Option<(&str, &str)>)
    ensures
        match r {
            Some((a, b)) => split_once(s@, d) == Some((a@, b@)),
            None => split_once(s@, d) is None,
        },
{
    let v = chars_of(s);
    match find_char(&v, d) {
        Some(i) => {
            proof {
                lemma_first_index(v@, d);
            }
            assert(i < v.len());
            Some((s.substring_char(0, i), s.substring_char(i + 1, v.len())))
        },
        None => None,
    }
}

/// `s` without its leading whitespace.
pub open spec fn trim_start(s: Seq<char>) -> Seq<char>
    decreases s.len(),
{
    if s.len() > 0 && is_ws(s[0]) {
        trim_start(s.drop_first())
    } else {
        s
    }
}

/// `s` without its trailing whitespace.
pub open spec fn trim_end(s: Seq<char>) -> Seq<char>
    decreases s.len(),
{
    if s.len() > 0 && is_ws(s.last()) {
        trim_end(s.drop_last())
    } else {
        s
    }
}

/// `s` without leading and trailing whitespace: what `str::trim` gives.
pub open spec fn trim(s: Seq<char>) -> Seq<char> {
    trim_end(trim_start(s))
}

proof fn lemma_trim_start_at(s: Seq<char>, k: int)
    requires
        0 <= k <= s.len(),
        forall|j: int| 0 <= j < k ==> is_ws(#[trigger] s[j]),
        k == s.len() || !is_ws(s[k]),
    ensures
        trim_start(s) == s.skip(k),
    decreases k,
{
    if k > 0 {
        let t = s.drop_first();
        assert forall|j: int| 0 <= j < k - 1 implies is_ws(#[trigger] t[j]) by {
            assert(t[j] == s[j + 1]);
        }
        assert(k - 1 == t.len() || t[k - 1] == s[k]);
        lemma_trim_start_at(t, k - 1);
        assert(t.skip(k - 1) =~= s.skip(k));
    } else {
        assert(s.skip(0) =~= s);
    }
}

proof fn lemma_trim_end_at(s: Seq<char>, k: int)
    requires
        0 <= k <= s.len(),
        forall|j: int| k <= j < s.len() ==> is_ws(#[trigger] s[j]),
        k == 0 || !is_ws(s[k - 1]),
    ensures
        trim_end(s) == s.take(k),
    decreases s.len() - k,
{
    if k < s.len() {
        let t = s.drop_last();
        assert forall|j: int| k <= j < t.len() implies is_ws(#[trigger] t[j]) by {
            assert(t[j] == s[j]);
        }
        assert(k == 0 || t[k - 1] == s[k - 1]);
        lemma_trim_end_at(t, k);
        assert(t.take(k) =~= s.take(k));
    } else {
        assert(s.take(k) =~= s);
    }
}

/// `s` without leading and trailing whitespace.
pub fn trim_str(s: &str) -> (r: &str)
    ensures
        r@ == trim(s@),
{
    let v = chars_of(s);
    let n: usize = v.len();
    let mut a: usize = 0;
    while a < n && is_whitespace(v[a])
        invariant
            v@ == s@,
            n == v@.len(),
            a <= n,
            forall|j: int| 0 <= j < a ==> is_ws(#[trigger] v@[j]),
        decreases n - a,
    {
        a += 1;
    }
    let mut b: usize = n;
    while b > a && is_whitespace(v[b - 1])
        invariant
            v@ == s@,
            n == v@.len(),
            a <= b <= n,
            forall|j: int| b <= j < n ==> is_ws(#[trigger] v@[j]),
        decreases b - a,
    {
        b -= 1;
    }
    proof {
        lemma_trim_start_at(s@, a as int);
        let t = s@.skip(a as int);
        assert forall|j: int| b - a <= j < t.len() implies is_ws(#[trigger] t[j]) by {
            assert(t[j] == s@[j + a]);
        }
        assert(b - a == 0 || t[b - a - 1] == s@[b - 1]);
        lemma_trim_end_at(t, b - a);
        assert(t.take(b - a) =~= s@.subrange(a as int, b as int));
    }
    s.substring_char(a, b)
}

/// The words of `s` after the characters consumed so far, where `cur` is the
/// word that those characters left open.
pub open spec fn words_from(s: Seq<char>, cur: Seq<char>) -> Seq<Seq<char>>
    decreases s.len(),
{
    let closed = if cur.len() == 0 {
        Seq::<Seq<char>>::empty()
    } else {
        seq![cur]
    };
    if s.len() == 0 {
        closed
    } else if is_ws(s[0]) {
        closed + words_from(s.drop_first(), Seq::empty())
    } else {
        words_from(s.drop_first(), cur.push(s[0]))
    }
}

/// The maximal runs of non-whitespace characters of `s`, in order: what
/// `str::split_whitespace` yields.
pub open spec fn words(s: Seq<char>) -> Seq<Seq<char>> {
    words_from(s, Seq::empty())
}

/// The whitespace-separated words of `s`.
pub fn split_whitespace(s: &str) -> (r: Vec<String>)
    ensures
        views(r@) == words(s@),
{
    let v = chars_of(s);
    let n: usize = v.len();
    let mut out: Vec<String> = Vec::new();
    let mut start: usize = 0;
    let mut i: usize = 0;
    proof {
        assert(s@.skip(0) =~= s@);
        assert(s@.subrange(0, 0) =~= Seq::<char>::empty());
        assert(views(out@) =~= Seq::<Seq<char>>::empty());
    }
    while i < n
        invariant
            v@ == s@,
            n == v@.len(),
            start <= i <= n,
            words(s@) == views(out@) + words_from(s@.skip(i as int), s@.subrange(
                start as int,
                i as int,
            )),
        decreases n - i,
    {
        let ghost rest = s@.skip(i as int);
        let ghost cur = s@.subrange(start as int, i as int);
        proof {
            assert(rest[0] == s@[i as int]);
            assert(rest.drop_first() =~= s@.skip(i + 1));
        }
        if is_whitespace(v[i]) {
            if start < i {
                let w = String::from_str(s.substring_char(start, i));
                let ghost before = out@;
                out.push(w);
                proof {
                    assert(views(out@) =~= views(before).push(cur));
                }
            }
            i += 1;
            start = i;
            proof {
                assert(s@.subrange(start as int, i as int) =~= Seq::<char>::empty());
                if cur.len() == 0 {
                    assert(views(out@) + (Seq::<Seq<char>>::empty() + words_from(
                        rest.drop_first(),
                        Seq::empty(),
                    )) =~= views(out@) + words_from(rest.drop_first(), Seq::empty()));
                } else {
                    assert(words_from(rest, cur) == seq![cur] + words_from(
                        rest.drop_first(),
                        Seq::empty(),
                    ));
                    assert(views(out@) + words_from(rest.drop_first(), Seq::empty())
                        =~= views(out@).drop_last() + (seq![cur] + words_from(
                        rest.drop_first(),
                        Seq::empty(),
                    )));
                }
            }
        } else {
            i += 1;
            proof {
                assert(cur.push(s@[i - 1]) =~= s@.subrange(start as int, i as int));
            }
        }
    }
    proof {
        assert(s@.skip(n as int) =~= Seq::<char>::empty());
    }
    if start < n {
        let ghost cur = s@.subrange(start as int, n as int);
        let w = String::from_str(s.substring_char(start, n));
        let ghost before = out@;
        out.push(w);
        proof {
            assert(views(out@) =~= views(before) + seq![cur]);
        }
    } else {
        proof {
            assert(views(out@) + Seq::<Seq<char>>::empty() =~= views(out@));
        }
    }
    out
}

/// `p` stands in `s` at position `i`.
pub open spec fn occurs_at(s: Seq<char>, p: Seq<char>, i: int) -> bool {
    0 <= i && i + p.len() <= s.len() && s.subrange(i, i + p.len()) == p
}

/// The first position at which `p` stands in `s`, if any: what `str::find`
/// gives, counted in characters.
pub open spec fn find_seq(s: Seq<char>, p: Seq<char>) -> Option<int>
    decreases s.len(),
{
    if p.is_prefix_of(s) {
        Some(0)
    } else if s.len() == 0 {
        None
    } else {
        match find_seq(s.drop_first(), p) {
            Some(i) => Some(i + 1),
            None => None,
        }
    }
}

proof fn lemma_occurs_shift(s: Seq<char>, p: Seq<char>, j: int)
    requires
        s.len() > 0,
        0 <= j,
    ensures
        occurs_at(s.drop_first(), p, j) == occurs_at(s, p, j + 1),
{
    if j + p.len() <= s.len() - 1 {
        assert(s.drop_first().subrange(j, j + p.len()) =~= s.subrange(j + 1, j + 1 + p.len()));
    }
}

/// `find_seq` finds the first occurrence, or reports that there is none.
pub proof fn lemma_find_seq(s: Seq<char>, p: Seq<char>)
    ensures
        match find_seq(s, p) {
            Some(i) => occurs_at(s, p, i) && forall|j: int| 0 <= j < i ==> !occurs_at(s, p, j),
            None => forall|j: int| 0 <= j ==> !occurs_at(s, p, j),
        },
    decreases s.len(),
{
    assert(p.is_prefix_of(s) == occurs_at(s, p, 0));
    if !p.is_prefix_of(s) && s.len() > 0 {
        lemma_find_seq(s.drop_first(), p);
        assert forall|j: int| 0 < j implies occurs_at(s, p, j) == occurs_at(
            s.drop_first(),
            p,
            j - 1,
        ) by {
            lemma_occurs_shift(s, p, j - 1);
        }
    } else if !p.is_prefix_of(s) {
        assert forall|j: int| 0 <= j implies !occurs_at(s, p, j) by {
            if p.len() > 0 {
            } else {
                assert(s.subrange(j, j) =~= p);
            }
        }
    }
}

/// Whether `p` stands in `v` at position `i`.
pub fn matches_at(v: &Vec<char>, p: &Vec<char>, i: usize) -> (r: bool)
    ensures
        r == occurs_at(v@, p@, i as int),
{
    if i > v.len() || p.len() > v.len() - i {
        return false;
    }
    let mut k: usize = 0;
    while k < p.len()
        invariant
            i <= v.len(),
            p.len() <= v.len() - i,
            k <= p.len(),
            forall|j: int| 0 <= j < k ==> v@[i + j] == p@[j],
        decreases p.len() - k,
    {
        if v[i + k] != p[k] {
            assert(v@.subrange(i as int, i + p@.len())[k as int] != p@[k as int]);
            return false;
        }
        k += 1;
    }
    assert(v@.subrange(i as int, i + p@.len()) =~= p@);
    true
}

/// The first position at which `p` stands in `v`.
pub fn find_chars(v: &Vec<char>, p: &Vec<char>) -> (r: Option<usize>)
    ensures
        match r {
            Some(i) => find_seq(v@, p@) == Some(i as int),
            None => find_seq(v@, p@) is None,
        },
{
    let mut i: usize = 0;
    while i < v.len()
        invariant
            i <= v.len(),
            forall|j: int| 0 <= j < i ==> !occurs_at(v@, p@, j),
        decreases v.len() - i,
    {
        if matches_at(v, p, i) {
            proof {
                lemma_find_seq(v@, p@);
            }
            return Some(i);
        }
        i += 1;
    }
    proof {
        lemma_find_seq(v@, p@);
    }
    if matches_at(v, p, i) {
        return Some(i);
    }
    assert forall|j: int| 0 <= j implies !occurs_at(v@, p@, j) by {
        if j > v@.len() {
        }
    }
    None
}

/// Whether `s` begins with `p`.
pub fn starts_with(s: &str, p: &str) -> (r: bool)
    ensures
        r == p@.is_prefix_of(s@),
{
    let v = chars_of(s);
    let w = chars_of(p);
    matches_at(&v, &w, 0)
}

/// Whether `s` ends with `p`.
pub fn ends_with(s: &str, p: &str) -> (r: bool)
    ensures
        r == p@.is_suffix_of(s@),
{
    let v = chars_of(s);
    let w = chars_of(p);
    if w.len() > v.len() {
        return false;
    }
    matches_at(&v, &w, v.len() - w.len())
}

/// Whether the two strings hold the same characters.
pub fn str_eq(a: &str, b: &str) -> (r: bool)
    ensures
        r == (a@ == b@),
{
    let v = chars_of(a);
    let w = chars_of(b);
    if v.len() != w.len() {
        return false;
    }
    let r = matches_at(&v, &w, 0);
    proof {
        assert(v@.subrange(0, w@.len() as int) =~= v@);
    }
    r
}

/// `w` is a non-empty run of non-whitespace characters.
pub open spec fn is_word(w: Seq<char>) -> bool {
    w.len() > 0 && forall|j: int| 0 <= j < w.len() ==> !is_ws(#[trigger] w[j])
}

/// Every word that `words_from` yields is non-empty and free of whitespace,
/// given that the open word is free of whitespace.
pub proof fn lemma_words_from(s: Seq<char>, cur: Seq<char>)
    requires
        forall|j: int| 0 <= j < cur.len() ==> !is_ws(#[trigger] cur[j]),
    ensures
        forall|i: int| 0 <= i < words_from(s, cur).len() ==> is_word(#[trigger] words_from(s, cur)[i]),
    decreases s.len(),
{
    let closed = if cur.len() == 0 {
        Seq::<Seq<char>>::empty()
    } else {
        seq![cur]
    };
    assert forall|i: int| 0 <= i < closed.len() implies is_word(#[trigger] closed[i]) by {
        assert(closed[i] == cur);
    }
    if s.len() > 0 {
        if is_ws(s[0]) {
            let rest = words_from(s.drop_first(), Seq::empty());
            lemma_words_from(s.drop_first(), Seq::empty());
            assert(words_from(s, cur) == closed + rest);
            assert forall|i: int| 0 <= i < (closed + rest).len() implies is_word(
                #[trigger] (closed + rest)[i],
            ) by {
                if i >= closed.len() {
                    assert((closed + rest)[i] == rest[i - closed.len()]);
                } else {
                    assert((closed + rest)[i] == closed[i]);
                }
            }
        } else {
            let next = cur.push(s[0]);
            assert forall|j: int| 0 <= j < next.len() implies !is_ws(#[trigger] next[j]) by {
                if j < cur.len() {
                    assert(next[j] == cur[j]);
                }
            }
            lemma_words_from(s.drop_first(), next);
            assert(words_from(s, cur) == words_from(s.drop_first(), next));
        }
    } else {
        assert(words_from(s, cur) == closed);
    }
}

/// Every word of `s` is non-empty and free of whitespace.
pub proof fn lemma_words(s: Seq<char>)
    ensures
        forall|i: int| 0 <= i < words(s).len() ==> is_word(#[trigger] words(s)[i]),
{
    lemma_words_from(s, Seq::empty());
}

/// `s` with every backslash turned into a slash.
pub open spec fn slashes(s: Seq<char>) -> Seq<char> {
    s.map_values(|c: char| if c == '\\' { '/' } else { c })
}

/// `s` with every backslash turned into a slash: `s.replace("\\", "/")`.
pub fn replace_backslashes(s: &str) -> (r: String)
    ensures
        r@ == slashes(s@),
{
    let v = chars_of(s);
    let n: usize = v.len();
    let mut out = String::new();
    let mut start: usize = 0;
    let mut i: usize = 0;
    proof {
        reveal_strlit("/");
        assert(slashes(s@.take(0)) =~= Seq::<char>::empty());
    }
    while i < n
        invariant
            v@ == s@,
            n == v@.len(),
            start <= i <= n,
            forall|j: int| start <= j < i ==> v@[j] != '\\',
            out@ == slashes(s@.take(start as int)),
            "/"@ == seq!['/'],
        decreases n - i,
    {
        if v[i] == '\\' {
            let ghost before = out@;
            out.append(s.substring_char(start, i));
            out.append("/");
            proof {
                assert(slashes(s@.take(i + 1)) =~= before + s@.subrange(start as int, i as int)
                    + seq!['/']);
            }
            i += 1;
            start = i;
        } else {
            i += 1;
        }
    }
    let ghost before = out@;
    out.append(s.substring_char(start, n));
    proof {
        assert(slashes(s@) =~= before + s@.subrange(start as int, n as int));
    }
    out
}

/// `c` occurs in `s` exactly where it has a first index.
pub proof fn lemma_first_index_contains(s: Seq<char>, c: char)
    ensures
        s.contains(c) <==> first_index(s, c) is Some,
{
    lemma_first_index(s, c);
    if let Some(i) = first_index(s, c) {
        assert(s[i] == c);
    }
}

/// The first `d` of `a + [d] + b`, where `a` holds no `d`, is the one after `a`.
pub proof fn lemma_split_once_concat(a: Seq<char>, d: char, b: Seq<char>)
    requires
        !a.contains(d),
    ensures
        split_once(a + seq![d] + b, d) == Some((a, b)),
{
    let s = a + seq![d] + b;
    assert forall|j: int| 0 <= j < a.len() implies s[j] != d by {
        assert(s[j] == a[j]);
    }
    assert(s[a.len() as int] == d);
    lemma_first_index_is(s, d, a.len() as int);
    assert(s.take(a.len() as int) =~= a);
    assert(s.skip(a.len() as int + 1) =~= b);
}

/// `s` begins with a character other than whitespace and ends with one, or is
/// empty.
pub open spec fn is_trimmed(s: Seq<char>) -> bool {
    s.len() == 0 || (!is_ws(s[0]) && !is_ws(s.last()))
}

proof fn lemma_trim_start_front(s: Seq<char>)
    ensures
        trim_start(s).len() == 0 || !is_ws(trim_start(s)[0]),
    decreases s.len(),
{
    if s.len() > 0 && is_ws(s[0]) {
        lemma_trim_start_front(s.drop_first());
    }
}

proof fn lemma_trim_end_back(t: Seq<char>)
    ensures
        trim_end(t).len() == 0 || (!is_ws(trim_end(t).last()) && trim_end(t)[0] == t[0]),
    decreases t.len(),
{
    if t.len() > 0 && is_ws(t.last()) {
        lemma_trim_end_back(t.drop_last());
    }
}

/// What `trim` leaves has no whitespace at either end.
pub proof fn lemma_trim_trimmed(s: Seq<char>)
    ensures
        is_trimmed(trim(s)),
{
    lemma_trim_start_front(s);
    lemma_trim_end_back(trim_start(s));
    if trim_start(s).len() == 0 {
        assert(trim_end(trim_start(s)) == trim_start(s));
    }
}

} // verus!
