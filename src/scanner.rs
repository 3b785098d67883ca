//! Filtering and ordering of the files found under a music directory.
use vstd::prelude::*;
use vstd::relations::{sorted_by, total_ordering};
use crate::order::{path_le, path_order, path_le_exec, lemma_path_order_total};
use crate::paths::{extension_of, extension, chars_of};

verus! {

broadcast use {vstd::seq_lib::group_to_multiset_ensures, vstd::multiset::group_multiset_axioms};

/// The texts of a sequence of paths.
pub open spec fn views(v: Seq<String>) -> Seq<Seq<char>> {
    v.map_values(|s: String| s@)
}

/// Every pair of positions is in path order.
pub open spec fn paths_sorted(s: Seq<Seq<char>>) -> bool {
    forall|i: int, j: int| 0 <= i < j < s.len() ==> path_le(s[i], s[j])
}

/// `c` is the lower-case ASCII letter or digit `w`, in either case.
pub open spec fn same_ignoring_case(c: char, w: char) -> bool {
    c == w || ('a' <= w <= 'z' && (c as u32) + 32 == (w as u32))
}

/// `e` spells `w` (given in lower case) when ASCII case is ignored.
pub open spec fn eq_ignoring_case(e: Seq<char>, w: Seq<char>) -> bool {
    e.len() == w.len() && forall|i: int| 0 <= i < e.len() ==> same_ignoring_case(e[i], w[i])
}

/// The extensions that mark a music file.
pub open spec fn music_extensions() -> Seq<Seq<char>> {
    seq![
        seq!['m', 'p', '3'],
        seq!['w', 'a', 'v'],
        seq!['o', 'g', 'g'],
        seq!['f', 'l', 'a', 'c'],
        seq!['m', '4', 'a'],
        seq!['a', 'a', 'c'],
        seq!['w', 'm', 'a'],
    ]
}

pub open spec fn is_music_extension(e: Seq<char>) -> bool {
    exists|k: int| 0 <= k < music_extensions().len() && eq_ignoring_case(e, #[trigger] music_extensions()[k])
}

/// A path names a music file when its extension is one of the music extensions.
pub open spec fn is_music_path(p: Seq<char>) -> bool {
    match extension_of(p) {
        Some(e) => is_music_extension(e),
        None => false,
    }
}

fn eq_ignoring_case_exec(e: &Vec<char>, w: &Vec<char>) -> (r: bool)
    ensures
        r == eq_ignoring_case(e@, w@),
{
    if e.len() != w.len() {
        return false;
    }
    let mut i: usize = 0;
    while i < e.len()
        invariant
            e@.len() == w@.len(),
            i <= e@.len(),
            forall|j: int| 0 <= j < i ==> same_ignoring_case(e@[j], w@[j]),
        decreases e@.len() - i,
    {
        let c = e[i];
        let d = w[i];
        let same = c == d || ('a' <= d && d <= 'z' && (d as u32) - 32 == (c as u32));
        if !same {
            return false;
        }
        i = i + 1;
    }
    true
}

fn music_extension_list() -> (r: Vec<Vec<char>>)
    ensures
        r@.len() == music_extensions().len(),
        forall|k: int| 0 <= k < r@.len() ==> #[trigger] r@[k]@ == music_extensions()[k],
{
    let r = vec![
        vec!['m', 'p', '3'],
        vec!['w', 'a', 'v'],
        vec!['o', 'g', 'g'],
        vec!['f', 'l', 'a', 'c'],
        vec!['m', '4', 'a'],
        vec!['a', 'a', 'c'],
        vec!['w', 'm', 'a'],
    ];
    assert(r@[0]@ =~= music_extensions()[0]);
    assert(r@[1]@ =~= music_extensions()[1]);
    assert(r@[2]@ =~= music_extensions()[2]);
    assert(r@[3]@ =~= music_extensions()[3]);
    assert(r@[4]@ =~= music_extensions()[4]);
    assert(r@[5]@ =~= music_extensions()[5]);
    assert(r@[6]@ =~= music_extensions()[6]);
    r
}

/// Whether `path` has one of the music extensions, in any ASCII case.
pub fn is_music_file(path: &str) -> (r: bool)
    ensures
        r == is_music_path(path@),
{
    let ext = extension(path);
    match ext {
        None => false,
        Some(e) => {
            assert(extension_of(path@) == Some(e@));
            let ec = chars_of(e.as_str());
            let list = music_extension_list();
            let mut k: usize = 0;
            while k < list.len()
                invariant
                    k <= list@.len(),
                    list@.len() == music_extensions().len(),
                    forall|j: int| 0 <= j < list@.len() ==> #[trigger] list@[j]@ == music_extensions()[j],
                    ec@ == e@,
                    extension_of(path@) == Some(e@),
                    forall|j: int| 0 <= j < k ==> !eq_ignoring_case(e@, #[trigger] music_extensions()[j]),
                decreases list@.len() - k,
            {
                assert(list@[k as int]@ == music_extensions()[k as int]);
                if eq_ignoring_case_exec(&ec, &list[k]) {
                    assert(eq_ignoring_case(e@, music_extensions()[k as int]));
                    assert(0 <= k < music_extensions().len());
                    assert(is_music_extension(e@));
                    return true;
                }
                k = k + 1;
            }
            false
        },
    }
}

/// Sorts `v` into path order.
pub fn sort_paths(v: Vec<String>) -> (r: Vec<String>)
    ensures
        views(r@) == views(v@).sort_by(path_order()),
{
    let ghost orig = views(v@);
    let mut rest = v;
    let mut out: Vec<String> = Vec::new();
    let mut keys: Vec<Vec<char>> = Vec::new();
    assert(views(out@) =~= Seq::<Seq<char>>::empty());
    while rest.len() > 0
        invariant
            keys@.len() == out@.len(),
            forall|i: int| 0 <= i < out@.len() ==> #[trigger] keys@[i]@ == out@[i]@,
            paths_sorted(views(out@)),
            views(rest@).to_multiset().add(views(out@).to_multiset()) == orig.to_multiset(),
        decreases rest.len(),
    {
        proof {
            lemma_path_order_total();
        }
        let ghost old_rest = rest@;
        let x = rest.pop().unwrap();
        assert(views(old_rest) =~= views(rest@).push(x@));
        let k = chars_of(x.as_str());
        let mut lo: usize = 0;
        let mut hi: usize = out.len();
        while lo < hi
            invariant
                lo <= hi <= out@.len(),
                keys@.len() == out@.len(),
                forall|i: int| 0 <= i < out@.len() ==> #[trigger] keys@[i]@ == out@[i]@,
                paths_sorted(views(out@)),
                k@ == x@,
                forall|i: int| 0 <= i < lo ==> path_le(#[trigger] out@[i]@, x@),
                forall|i: int| hi <= i < out@.len() ==> !path_le(#[trigger] out@[i]@, x@),
                forall|a: Seq<char>, b: Seq<char>, c: Seq<char>|
                    #[trigger] path_le(a, b) && #[trigger] path_le(b, c) ==> path_le(a, c),
            decreases hi - lo,
        {
            let mid = lo + (hi - lo) / 2;
            assert(views(out@)[mid as int] == out@[mid as int]@);
            if path_le_exec(&keys[mid], &k) {
                assert forall|i: int| 0 <= i <= mid implies path_le(#[trigger] out@[i]@, x@) by {
                    if i < mid {
                        assert(views(out@)[i] == out@[i]@);
                        assert(path_le(out@[i]@, out@[mid as int]@));
                    }
                }
                lo = mid + 1;
            } else {
                assert forall|i: int| mid <= i < out@.len() implies !path_le(
                    #[trigger] out@[i]@,
                    x@,
                ) by {
                    if i > mid {
                        assert(views(out@)[i] == out@[i]@);
                        assert(path_le(out@[mid as int]@, out@[i]@));
                    }
                }
                hi = mid;
            }
        }
        let ghost before = views(out@);
        let ghost old_keys = keys@;
        let ghost old_out = out@;
        out.insert(lo, x);
        keys.insert(lo, k);
        assert(views(out@) =~= before.insert(lo as int, x@));
        assert forall|i: int, j: int| 0 <= i < j < views(out@).len() implies path_le(
            views(out@)[i],
            views(out@)[j],
        ) by {
            if j < lo {
            } else if i < lo && j == lo {
            } else if i < lo {
                assert(path_le(before[i], x@));
                assert(path_le(x@, before[j - 1]));
            } else if i == lo {
                assert(path_le(x@, before[j - 1]));
            } else {
                assert(path_le(before[i - 1], before[j - 1]));
            }
        }
        assert forall|i: int| 0 <= i < out@.len() implies #[trigger] keys@[i]@ == out@[i]@ by {
            if i < lo {
                assert(keys@[i] == old_keys[i] && out@[i] == old_out[i]);
            } else if i > lo {
                assert(keys@[i] == old_keys[i - 1] && out@[i] == old_out[i - 1]);
            }
        }
    }
    proof {
        lemma_path_order_total();
        let s = views(out@);
        assert(views(rest@) =~= Seq::<Seq<char>>::empty());
        assert(s.to_multiset() =~= orig.to_multiset());
        assert forall|i: int, j: int| 0 <= i < j < s.len() implies #[trigger] path_order()(
            s[i],
            s[j],
        ) by {}
        orig.lemma_sort_by_ensures(path_order());
        vstd::seq_lib::lemma_sorted_unique(s, orig.sort_by(path_order()), path_order());
    }
    out
}

pub open spec fn music_filter() -> spec_fn(Seq<char>) -> bool {
    |p: Seq<char>| is_music_path(p)
}

/// What a scan lists for the files found: the music files, in path order.
pub open spec fn scan_order(found: Seq<Seq<char>>) -> Seq<Seq<char>> {
    found.filter(music_filter()).sort_by(path_order())
}

/// Most workers a scan uses, so as not to flood the disk with requests.
pub const MAX_SCAN_WORKERS: usize = 8;

/// Workers used when the machine does not say how parallel it is.
pub const DEFAULT_SCAN_WORKERS: usize = 4;

/// The number of scan workers for a machine that reports `available` parallel threads.
pub fn worker_count(available: Option<usize>) -> (r: usize)
    requires
        available matches Some(n) ==> n >= 1,
    ensures
        r == match available {
            Some(n) => if n < MAX_SCAN_WORKERS { n } else { MAX_SCAN_WORKERS },
            None => DEFAULT_SCAN_WORKERS,
        },
        1 <= r <= MAX_SCAN_WORKERS,
{
    let n = match available {
        Some(n) => n,
        None => DEFAULT_SCAN_WORKERS,
    };
    if n < MAX_SCAN_WORKERS {
        n
    } else {
        MAX_SCAN_WORKERS
    }
}

/// Length of each worker's share of `len` files: `len / workers` rounded up, and at least 1.
pub open spec fn share_len(len: int, workers: int) -> int {
    if len == 0 {
        1
    } else {
        (len - 1) / workers + 1
    }
}

/// Splits the positions `0..len` into consecutive ranges of `share_len(len, workers)`
/// positions, the last one possibly shorter.
pub fn partition(len: usize, workers: usize) -> (r: Vec<(usize, usize)>)
    requires
        workers >= 1,
    ensures
        ({
            let size = share_len(len as int, workers as int);
            &&& size >= 1
            &&& forall|i: int|
                0 <= i < r@.len() ==> (#[trigger] r@[i]).0 == i * size && r@[i].1 == if (i + 1)
                    * size <= len {
                    (i + 1) * size
                } else {
                    len as int
                }
            &&& r@.len() * size >= len
            &&& r@.len() == 0 || (r@.len() - 1) * size < len
        }),
{
    let size: usize = if len == 0 {
        1
    } else {
        proof {
            let a: int = len - 1;
            let w: int = workers as int;
            assert(a / w + 1 <= len) by (nonlinear_arith)
                requires
                    w >= 1,
                    a >= 0,
                    a == len - 1,
            ;
        }
        (len - 1) / workers + 1
    };
    let mut r: Vec<(usize, usize)> = Vec::new();
    let mut start: usize = 0;
    while start < len
        invariant
            size as int == share_len(len as int, workers as int),
            size >= 1,
            start <= len,
            start as int == if r@.len() * size <= len {
                r@.len() * size
            } else {
                len as int
            },
            forall|i: int|
                0 <= i < r@.len() ==> (#[trigger] r@[i]).0 == i * size && r@[i].1 == if (i + 1)
                    * size <= len {
                    (i + 1) * size
                } else {
                    len as int
                },
            r@.len() == 0 || (r@.len() - 1) * size < len,
        decreases len - start,
    {
        let end = if len - start > size {
            start + size
        } else {
            len
        };
        proof {
            assert((r@.len() + 1) * size == r@.len() * size + size) by (nonlinear_arith);
        }
        r.push((start, end));
        start = end;
    }
    r
}

/// The paths of `parts`, one part after the other.
pub open spec fn concat_all(parts: Seq<Vec<String>>) -> Seq<Seq<char>>
    decreases parts.len(),
{
    if parts.len() == 0 {
        Seq::empty()
    } else {
        concat_all(parts.drop_last()) + views(parts.last()@)
    }
}

/// The music files among `paths`, in the order given.
pub fn filter_music_files(paths: &Vec<String>) -> (r: Vec<String>)
    ensures
        views(r@) == views(paths@).filter(music_filter()),
{
    let mut r: Vec<String> = Vec::new();
    let mut i: usize = 0;
    assert(views(paths@).take(0) =~= Seq::<Seq<char>>::empty());
    proof {
        reveal(Seq::filter);
    }
    assert(views(r@) =~= views(paths@).take(0).filter(music_filter()));
    while i < paths.len()
        invariant
            i <= paths@.len(),
            views(r@) == views(paths@).take(i as int).filter(music_filter()),
        decreases paths@.len() - i,
    {
        let ghost before = views(r@);
        assert(views(paths@).take(i + 1) =~= views(paths@).take(i as int).push(paths@[i as int]@));
        proof {
            views(paths@).take(i as int).lemma_filter_push(paths@[i as int]@, music_filter());
        }
        if is_music_file(paths[i].as_str()) {
            r.push(paths[i].clone());
            assert(views(r@) =~= before.push(paths@[i as int]@));
        } else {
            assert(views(r@) =~= before);
        }
        i = i + 1;
    }
    assert(views(paths@).take(i as int) =~= views(paths@));
    r
}

/// Gathers the music files that the workers found, whatever order their parts arrive in,
/// and lists them in path order.
pub fn merge_scan_results(parts: Vec<Vec<String>>) -> (r: Vec<String>)
    ensures
        views(r@) == concat_all(parts@).sort_by(path_order()),
{
    let ghost all = parts@;
    let mut parts = parts;
    let mut acc: Vec<String> = Vec::new();
    let mut i: usize = 0;
    let n = parts.len();
    assert(all.take(0) =~= Seq::<Vec<String>>::empty());
    assert(views(acc@) =~= concat_all(all.take(0)));
    while i < n
        invariant
            n == all.len(),
            parts@.len() == n,
            i <= n,
            forall|j: int| i <= j < n ==> #[trigger] parts@[j] == all[j],
            views(acc@) == concat_all(all.take(i as int)),
        decreases n - i,
    {
        let mut part: Vec<String> = Vec::new();
        std::mem::swap(&mut part, &mut parts[i]);
        let ghost before = acc@;
        acc.append(&mut part);
        assert(all.take(i + 1).drop_last() =~= all.take(i as int));
        assert(views(acc@) =~= views(before) + views(all[i as int]@));
        i = i + 1;
    }
    assert(all.take(n as int) =~= all);
    sort_paths(acc)
}

/// Lists the music files among `found`, in path order.
pub fn scan_music_directory(found: &Vec<String>) -> (r: Vec<String>)
    ensures
        views(r@) == scan_order(views(found@)),
{
    sort_paths(filter_music_files(found))
}

proof fn lemma_filter_count(s: Seq<Seq<char>>, x: Seq<char>)
    ensures
        s.filter(music_filter()).to_multiset().count(x) == if is_music_path(x) {
            s.to_multiset().count(x)
        } else {
            0
        },
    decreases s.len(),
{
    if s.len() > 0 {
        let t = s.drop_last();
        lemma_filter_count(t, x);
        assert(s =~= t.push(s.last()));
        assert(s.to_multiset() =~= t.to_multiset().insert(s.last()));
        t.lemma_filter_push(s.last(), music_filter());
        if is_music_path(s.last()) {
            assert(s.filter(music_filter()) == t.filter(music_filter()).push(s.last()));
            assert(s.filter(music_filter()).to_multiset() =~= t.filter(music_filter()).to_multiset().insert(s.last()));
        } else {
            assert(s.filter(music_filter()) == t.filter(music_filter()));
        }
    } else {
        reveal(Seq::filter);
        assert(s.filter(music_filter()) =~= Seq::<Seq<char>>::empty());
    }
}

/// Sequences in path order that hold the same paths are the same sequence.
pub proof fn lemma_sorted_paths_unique(a: Seq<Seq<char>>, b: Seq<Seq<char>>)
    requires
        a.to_multiset() == b.to_multiset(),
    ensures
        a.sort_by(path_order()) == b.sort_by(path_order()),
{
    lemma_path_order_total();
    a.lemma_sort_by_ensures(path_order());
    b.lemma_sort_by_ensures(path_order());
    vstd::seq_lib::lemma_sorted_unique(a.sort_by(path_order()), b.sort_by(path_order()), path_order());
}

/// A scan's result depends only on which files were found, not on the order in which the
/// walk or the workers produced them: two scans of an unchanged tree list the same paths
/// in the same order.
pub proof fn lemma_scan_deterministic(a: Seq<Seq<char>>, b: Seq<Seq<char>>)
    requires
        a.to_multiset() == b.to_multiset(),
    ensures
        scan_order(a) == scan_order(b),
{
    assert forall|x: Seq<char>| #[trigger] a.filter(music_filter()).to_multiset().count(x)
        == b.filter(music_filter()).to_multiset().count(x) by {
        lemma_filter_count(a, x);
        lemma_filter_count(b, x);
    }
    assert(a.filter(music_filter()).to_multiset() =~= b.filter(music_filter()).to_multiset());
    lemma_sorted_paths_unique(a.filter(music_filter()), b.filter(music_filter()));
}

} // verus!
