//! The order in which scanned paths are listed.
use vstd::prelude::*;
use vstd::relations::*;

verus! {

/// Rank of a character in path order: the separator sorts before every other character,
/// so that paths compare component by component.
pub open spec fn char_rank(c: char) -> int {
    if c == '/' {
        0
    } else {
        (c as u32) as int + 1
    }
}

/// `a` comes no later than `b`: lexicographic comparison by `char_rank`.
pub open spec fn path_le(a: Seq<char>, b: Seq<char>) -> bool
    decreases a.len(),
{
    if a.len() == 0 {
        true
    } else if b.len() == 0 {
        false
    } else if char_rank(a[0]) != char_rank(b[0]) {
        char_rank(a[0]) < char_rank(b[0])
    } else {
        path_le(a.drop_first(), b.drop_first())
    }
}

pub open spec fn path_order() -> spec_fn(Seq<char>, Seq<char>) -> bool {
    |a: Seq<char>, b: Seq<char>| path_le(a, b)
}

proof fn lemma_rank_injective(c: char, d: char)
    requires
        char_rank(c) == char_rank(d),
    ensures
        c == d,
{
    if c != '/' && d != '/' {
        assert(c as u32 == d as u32);
    }
}

proof fn lemma_path_le_reflexive(a: Seq<char>)
    ensures
        path_le(a, a),
    decreases a.len(),
{
    if a.len() > 0 {
        lemma_path_le_reflexive(a.drop_first());
    }
}

proof fn lemma_path_le_antisymmetric(a: Seq<char>, b: Seq<char>)
    requires
        path_le(a, b),
        path_le(b, a),
    ensures
        a == b,
    decreases a.len(),
{
    if a.len() > 0 && b.len() > 0 {
        assert(char_rank(a[0]) == char_rank(b[0]));
        lemma_path_le_antisymmetric(a.drop_first(), b.drop_first());
        lemma_rank_injective(a[0], b[0]);
        assert forall|i: int| 0 <= i < a.len() implies a[i] == b[i] by {
            if i > 0 {
                assert(a[i] == a.drop_first()[i - 1]);
                assert(b[i] == b.drop_first()[i - 1]);
            }
        }
        assert(a =~= b);
    } else {
        assert(a =~= b);
    }
}

proof fn lemma_path_le_transitive(a: Seq<char>, b: Seq<char>, c: Seq<char>)
    requires
        path_le(a, b),
        path_le(b, c),
    ensures
        path_le(a, c),
    decreases a.len(),
{
    if a.len() > 0 && b.len() > 0 && c.len() > 0 {
        if char_rank(a[0]) == char_rank(b[0]) && char_rank(b[0]) == char_rank(c[0]) {
            lemma_path_le_transitive(a.drop_first(), b.drop_first(), c.drop_first());
        }
    }
}

proof fn lemma_path_le_connected(a: Seq<char>, b: Seq<char>)
    ensures
        path_le(a, b) || path_le(b, a),
    decreases a.len(),
{
    if a.len() > 0 && b.len() > 0 {
        lemma_path_le_connected(a.drop_first(), b.drop_first());
    }
}

/// Path order is a total order.
pub proof fn lemma_path_order_total()
    ensures
        total_ordering(path_order()),
        forall|a: Seq<char>, b: Seq<char>| #[trigger] path_le(a, b) || path_le(b, a),
        forall|a: Seq<char>, b: Seq<char>, c: Seq<char>|
            #[trigger] path_le(a, b) && #[trigger] path_le(b, c) ==> path_le(a, c),
{
    assert forall|a: Seq<char>| #[trigger] path_order()(a, a) by {
        lemma_path_le_reflexive(a);
    }
    assert forall|a: Seq<char>, b: Seq<char>|
        #[trigger] path_order()(a, b) && #[trigger] path_order()(b, a) implies a == b by {
        lemma_path_le_antisymmetric(a, b);
    }
    assert forall|a: Seq<char>, b: Seq<char>, c: Seq<char>|
        #[trigger] path_le(a, b) && #[trigger] path_le(b, c) implies path_le(a, c) by {
        lemma_path_le_transitive(a, b, c);
    }
    assert forall|a: Seq<char>, b: Seq<char>, c: Seq<char>|
        #[trigger] path_order()(a, b) && #[trigger] path_order()(b, c) implies path_order()(
        a,
        c,
    ) by {
        lemma_path_le_transitive(a, b, c);
    }
    assert forall|a: Seq<char>, b: Seq<char>| #[trigger] path_le(a, b) || path_le(b, a) by {
        lemma_path_le_connected(a, b);
    }
    assert forall|a: Seq<char>, b: Seq<char>|
        #[trigger] path_order()(a, b) || #[trigger] path_order()(b, a) by {
        lemma_path_le_connected(a, b);
    }
}

fn rank(c: char) -> (r: u64)
    ensures
        r as int == char_rank(c),
{
    if c == '/' {
        0
    } else {
        c as u32 as u64 + 1
    }
}

/// Whether `a` comes no later than `b` in path order.
pub fn path_le_exec(a: &Vec<char>, b: &Vec<char>) -> (r: bool)
    ensures
        r == path_le(a@, b@),
{
    let mut i: usize = 0;
    assert(a@.skip(0) =~= a@);
    assert(b@.skip(0) =~= b@);
    while i < a.len() && i < b.len()
        invariant
            i <= a@.len(),
            i <= b@.len(),
            path_le(a@, b@) == path_le(a@.skip(i as int), b@.skip(i as int)),
        decreases a@.len() - i,
    {
        let ra = rank(a[i]);
        let rb = rank(b[i]);
        if ra != rb {
            return ra < rb;
        }
        assert(a@.skip(i as int).drop_first() =~= a@.skip(i + 1));
        assert(b@.skip(i as int).drop_first() =~= b@.skip(i + 1));
        i = i + 1;
    }
    i == a.len()
}

} // verus!
