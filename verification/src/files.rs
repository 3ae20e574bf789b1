//! Which files of the log directory the viewer reads and watches: the
//! `.log` files (the main log file always among them) and the `.bin`
//! snapshots, listed in text order.
use vstd::prelude::*;
use crate::sort::{arrange_by_text, arranged, identity, sorted_seq, text_before};
use crate::text::{chars_eq, chars_of, ends_with, has_suffix, text_less};

verus! {

/// The texts of a list of strings.
pub open spec fn views(v: Seq<String>) -> Seq<Seq<char>> {
    v.map_values(|s: String| s@)
}

/// The (file name, path) pairs of a directory listing, as texts.
pub open spec fn entry_views(v: Seq<(String, String)>) -> Seq<(Seq<char>, Seq<char>)> {
    v.map_values(|e: (String, String)| (e.0@, e.1@))
}

/// The paths of the entries whose file names end with `suffix`, in
/// listing order.
pub open spec fn paths_ending(entries: Seq<(Seq<char>, Seq<char>)>, suffix: Seq<char>) -> Seq<Seq<char>>
    decreases entries.len(),
{
    if entries.len() == 0 {
        Seq::empty()
    } else {
        let init = paths_ending(entries.drop_last(), suffix);
        if ends_with(entries.last().0, suffix) {
            init.push(entries.last().1)
        } else {
            init
        }
    }
}

/// The paths, with the main log file added at the end when it exists and
/// is not among them.
pub open spec fn with_main(paths: Seq<Seq<char>>, main: Seq<char>, main_exists: bool) -> Seq<Seq<char>> {
    if main_exists && !paths.contains(main) {
        paths.push(main)
    } else {
        paths
    }
}

/// The `.log` paths a directory listing yields (see `paths_ending` and
/// `with_main`).
pub open spec fn log_paths(entries: Seq<(Seq<char>, Seq<char>)>, main: Seq<char>, main_exists: bool) -> Seq<
    Seq<char>,
> {
    with_main(paths_ending(entries, ".log"@), main, main_exists)
}

/// No text is followed by one that comes before it.
pub open spec fn texts_sorted(s: Seq<Seq<char>>) -> bool {
    forall|i: int, j: int| 0 <= i < j < s.len() ==> !text_less(#[trigger] s[j], #[trigger] s[i])
}

/// `r` lists the texts of `s` in the order of the permutation `p`.
pub open spec fn permuted_by(r: Seq<Seq<char>>, s: Seq<Seq<char>>, p: Seq<usize>) -> bool {
    &&& p.to_multiset() == identity(s.len()).to_multiset()
    &&& r.len() == p.len()
    &&& forall|k: int| 0 <= k < r.len() ==> #[trigger] r[k] == s[p[k] as int]
}

/// `r` holds the texts of `s`, each as often, in some order.
pub open spec fn rearranged(r: Seq<Seq<char>>, s: Seq<Seq<char>>) -> bool {
    exists|p: Seq<usize>| permuted_by(r, s, p)
}

/// The strings in text order (`String`'s `Ord`).
pub fn sort_texts(v: &Vec<String>) -> (r: Vec<String>)
    ensures
        rearranged(views(r@), views(v@)),
        texts_sorted(views(r@)),
{
    let n = v.len();
    let mut idx: Vec<usize> = Vec::new();
    let mut keys: Vec<Vec<char>> = Vec::new();
    for i in 0..n
        invariant
            n == v.len(),
            idx@ == identity(i as nat),
            keys.len() == i,
            forall|k: int| 0 <= k < i ==> #[trigger] keys@[k]@ == v@[k]@,
    {
        idx.push(i);
        keys.push(chars_of(v[i].as_str()));
        assert(idx@ =~= identity((i + 1) as nat));
    }
    let ghost key = |i: usize| v@[i as int]@;
    assert(idx@.no_duplicates());
    let order = arrange_by_text(idx, keys, false, Ghost(key));
    proof {
        crate::sort::lemma_text_before_order(key, false);
        crate::sort::lemma_arranged_sorts(identity(n as nat), text_before(key, false));
    }
    let mut r: Vec<String> = Vec::new();
    for k in 0..order.len()
        invariant
            n == v.len(),
            order@ == arranged(identity(n as nat), text_before(key, false)),
            order@.to_multiset() == identity(n as nat).to_multiset(),
            r.len() == k,
            forall|j: int| 0 <= j < k ==> #[trigger] order@[j] < n,
            forall|j: int| 0 <= j < k ==> #[trigger] r@[j]@ == v@[order@[j] as int]@,
    {
        proof {
            let x = order@[k as int];
            assert(order@.contains(x));
            vstd::seq_lib::to_multiset_contains(order@, x);
            vstd::seq_lib::to_multiset_contains(identity(n as nat), x);
            let j = choose|j: int| 0 <= j < identity(n as nat).len() && identity(n as nat)[j] == x;
            assert(x < n);
        }
        r.push(v[order[k]].clone());
    }
    proof {
        let rv = views(r@);
        let vv = views(v@);
        vstd::seq_lib::to_multiset_len(order@);
        vstd::seq_lib::to_multiset_len(identity(n as nat));
        assert(permuted_by(rv, vv, order@));
        let before = text_before(key, false);
        assert forall|i: int, j: int| 0 <= i < j < rv.len() implies !text_less(#[trigger] rv[j], #[trigger] rv[i]) by {
            assert(before(order@[i], order@[j]));
            crate::text::lemma_text_less_strict_total(rv[i], rv[j], rv[i]);
        }
    }
    r
}

fn contains_text_value(v: &Vec<String>, t: &Vec<char>) -> (r: bool)
    ensures
        r == views(v@).contains(t@),
{
    for k in 0..v.len()
        invariant
            forall|j: int| 0 <= j < k ==> v@[j]@ != t@,
    {
        if chars_eq(&chars_of(v[k].as_str()), t) {
            assert(views(v@)[k as int] == t@);
            return true;
        }
    }
    assert(!views(v@).contains(t@)) by {
        if views(v@).contains(t@) {
            let j = choose|j: int| 0 <= j < views(v@).len() && views(v@)[j] == t@;
            assert(v@[j]@ == t@);
        }
    }
    false
}

fn push_if_missing(v: &mut Vec<String>, main_log: &str, main_exists: bool)
    ensures
        views(final(v)@) == with_main(views(old(v)@), main_log@, main_exists),
{
    if main_exists && !contains_text_value(v, &chars_of(main_log)) {
        v.push(main_log.to_owned());
        assert(views(v@) =~= views(old(v)@).push(main_log@));
    }
}

/// The paths of the entries whose names end with `suffix`, in listing
/// order.
fn paths_with_suffix(entries: &Vec<(String, String)>, suffix: &str) -> (r: Vec<String>)
    ensures
        views(r@) == paths_ending(entry_views(entries@), suffix@),
{
    let sfx = chars_of(suffix);
    let mut r: Vec<String> = Vec::new();
    for i in 0..entries.len()
        invariant
            sfx@ == suffix@,
            views(r@) == paths_ending(entry_views(entries@.take(i as int)), suffix@),
    {
        let ghost before = entry_views(entries@.take(i as int));
        assert(entry_views(entries@.take(i + 1)).drop_last() =~= before);
        assert(entry_views(entries@.take(i + 1)).last() == (entries@[i as int].0@, entries@[i as int].1@));
        if has_suffix(&chars_of(entries[i].0.as_str()), &sfx) {
            r.push(entries[i].1.clone());
            assert(views(r@) =~= paths_ending(entry_views(entries@.take(i + 1)), suffix@));
        } else {
            assert(views(r@) =~= paths_ending(entry_views(entries@.take(i + 1)), suffix@));
        }
    }
    assert(entries@.take(entries.len() as int) =~= entries@);
    r
}

/// The `.log` files of a directory listing of (file name, path) pairs, in
/// listing order, then the main log file when it exists and is not listed.
pub fn log_file_paths(entries: &Vec<(String, String)>, main_log: &str, main_exists: bool) -> (r: Vec<String>)
    ensures
        views(r@) == log_paths(entry_views(entries@), main_log@, main_exists),
{
    let mut r = paths_with_suffix(entries, ".log");
    push_if_missing(&mut r, main_log, main_exists);
    r
}

/// The `.log` files (the main log file added as in `log_file_paths`) and
/// the `.bin` files of a directory listing, each list in text order.
pub fn all_file_paths(entries: &Vec<(String, String)>, main_log: &str, main_exists: bool) -> (r: (
    Vec<String>,
    Vec<String>,
))
    ensures
        rearranged(views(r.0@), log_paths(entry_views(entries@), main_log@, main_exists)),
        texts_sorted(views(r.0@)),
        rearranged(views(r.1@), paths_ending(entry_views(entries@), ".bin"@)),
        texts_sorted(views(r.1@)),
{
    let logs = log_file_paths(entries, main_log, main_exists);
    let bins = paths_with_suffix(entries, ".bin");
    (sort_texts(&logs), sort_texts(&bins))
}

} // verus!
