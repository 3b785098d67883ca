//! Random playlists drawn from the scanned files.
use vstd::prelude::*;
use rand::seq::SliceRandom;

verus! {

broadcast use {vstd::seq_lib::group_to_multiset_ensures, vstd::multiset::group_multiset_axioms};

/// Relies on `rand::seq::SliceRandom::shuffle` with `rand::rng()`: the slice is put in a
/// random order by swapping its elements, so it holds the same elements as before.
#[verifier::external_body]
fn shuffle_in_place(v: &mut Vec<String>)
    ensures
        final(v)@.to_multiset() == old(v)@.to_multiset(),
{
    let mut rng = rand::rng();
    v.shuffle(&mut rng);
}

/// The first `n` elements of `s`, or all of them when `s` is shorter.
pub open spec fn prefix_of<A>(s: Seq<A>, n: int) -> Seq<A> {
    if n < s.len() {
        s.take(n)
    } else {
        s
    }
}

/// `r` is `count` elements of `files` in some random order: a prefix of an arrangement of
/// exactly the elements of `files`.
pub open spec fn is_sample<A>(files: Seq<A>, count: int, r: Seq<A>) -> bool {
    exists|order: Seq<A>|
        order.to_multiset() == files.to_multiset() && #[trigger] prefix_of(order, count) == r
}

/// A sample of `count` files holds `min(count, files.len())` entries, each of them drawn
/// from `files`, and none twice when `files` holds no path twice.
pub proof fn lemma_sample_bounds<A>(files: Seq<A>, count: int, r: Seq<A>)
    requires
        count >= 0,
        is_sample(files, count, r),
    ensures
        r.len() == if count < files.len() {
            count
        } else {
            files.len() as int
        },
        forall|x: A| r.contains(x) ==> files.contains(x),
        files.no_duplicates() ==> r.no_duplicates(),
{
    let order = choose|order: Seq<A>|
        order.to_multiset() == files.to_multiset() && #[trigger] prefix_of(order, count) == r;
    assert(order.len() == files.len()) by {
        assert(order.to_multiset().len() == files.to_multiset().len());
    }
    assert forall|x: A| r.contains(x) implies files.contains(x) by {
        let i = choose|i: int| 0 <= i < r.len() && r[i] == x;
        assert(order[i] == x);
        assert(order.to_multiset().count(x) > 0);
    }
    if files.no_duplicates() {
        files.lemma_multiset_has_no_duplicates();
        order.lemma_multiset_has_no_duplicates_conv();
        assert forall|i: int, j: int| 0 <= i < r.len() && 0 <= j < r.len() && i != j implies r[i]
            != r[j] by {
            assert(r[i] == order[i] && r[j] == order[j]);
        }
    }
}

/// A playlist of `count` files drawn at random, without replacement, from `music_files`;
/// all of them, shuffled, when there are fewer.
pub fn generate_playlist(music_files: &Vec<String>, count: usize) -> (r: Vec<String>)
    ensures
        is_sample(music_files@, count as int, r@),
{
    let mut files: Vec<String> = Vec::new();
    let mut i: usize = 0;
    while i < music_files.len()
        invariant
            i <= music_files@.len(),
            files@ == music_files@.take(i as int),
        decreases music_files@.len() - i,
    {
        files.push(music_files[i].clone());
        assert(music_files@.take(i + 1) =~= music_files@.take(i as int).push(music_files@[i as int]));
        i = i + 1;
    }
    assert(music_files@.take(i as int) =~= music_files@);
    shuffle_in_place(&mut files);
    let ghost order = files@;
    if count < files.len() {
        files.truncate(count);
    }
    assert(prefix_of(order, count as int) == files@);
    assert(order.to_multiset() == music_files@.to_multiset());
    files
}

} // verus!
