//! Paths as the scanner hands them out: text whose last component is the file name.
use vstd::prelude::*;

verus! {

/// Index just past the last `/` of `p`, or 0 when `p` has none.
pub open spec fn name_start(p: Seq<char>) -> int
    decreases p.len(),
{
    if p.len() == 0 {
        0
    } else if p.last() == '/' {
        p.len() as int
    } else {
        name_start(p.drop_last())
    }
}

/// The file name: what follows the last separator.
pub open spec fn file_name_of(p: Seq<char>) -> Seq<char> {
    p.subrange(name_start(p), p.len() as int)
}

/// Index of the last `.` of `s`, or -1 when `s` has none.
pub open spec fn last_dot(s: Seq<char>) -> int
    decreases s.len(),
{
    if s.len() == 0 {
        -1
    } else if s.last() == '.' {
        s.len() - 1
    } else {
        last_dot(s.drop_last())
    }
}

/// The extension: the part of the file name after its last `.`, where that dot is
/// not the name's first character.
pub open spec fn extension_of(p: Seq<char>) -> Option<Seq<char>> {
    let n = file_name_of(p);
    let d = last_dot(n);
    if d > 0 {
        Some(n.subrange(d + 1, n.len() as int))
    } else {
        None
    }
}

/// The stem: the file name without its extension, absent when the name is empty.
pub open spec fn stem_of(p: Seq<char>) -> Option<Seq<char>> {
    let n = file_name_of(p);
    let d = last_dot(n);
    if n.len() == 0 {
        None
    } else if d > 0 {
        Some(n.subrange(0, d))
    } else {
        Some(n)
    }
}

/// The characters of `s`, one by one.
pub fn chars_of(s: &str) -> (r: Vec<char>)
    ensures
        r@ == s@,
{
    let n = s.unicode_len();
    let mut r: Vec<char> = Vec::new();
    let mut i: usize = 0;
    while i < n
        invariant
            n == s@.len(),
            i <= n,
            r@ == s@.subrange(0, i as int),
        decreases n - i,
    {
        r.push(s.get_char(i));
        i = i + 1;
    }
    r
}

/// Index just past the last `/` of `c`.
fn find_name_start(c: &Vec<char>) -> (r: usize)
    ensures
        r as int == name_start(c@),
        r <= c@.len(),
{
    let mut j: usize = c.len();
    assert(c@.subrange(0, j as int) =~= c@);
    while j > 0 && c[j - 1] != '/'
        invariant
            j <= c@.len(),
            name_start(c@) == name_start(c@.subrange(0, j as int)),
        decreases j,
    {
        assert(c@.subrange(0, j as int).drop_last() =~= c@.subrange(0, j - 1));
        j = j - 1;
    }
    j
}

/// Index of the last `.` of `c` within `from..c.len()`, if any.
fn find_last_dot(c: &Vec<char>, from: usize) -> (r: Option<usize>)
    requires
        from <= c@.len(),
    ensures
        ({
            let d = last_dot(c@.subrange(from as int, c@.len() as int));
            match r {
                Some(k) => d >= 0 && k == from + d && from <= k < c@.len() && c@[k as int] == '.',
                None => d < 0,
            }
        }),
{
    let ghost n = c@.subrange(from as int, c@.len() as int);
    let mut j: usize = c.len();
    while j > from && c[j - 1] != '.'
        invariant
            from <= j <= c@.len(),
            n == c@.subrange(from as int, c@.len() as int),
            last_dot(n) == last_dot(c@.subrange(from as int, j as int)),
        decreases j,
    {
        assert(c@.subrange(from as int, j as int).drop_last() =~= c@.subrange(from as int, j - 1));
        j = j - 1;
    }
    if j > from {
        assert(c@.subrange(from as int, j as int).last() == '.');
        Some(j - 1)
    } else {
        assert(c@.subrange(from as int, j as int).len() == 0);
        None
    }
}

/// The file name of `path`.
pub fn file_name(path: &str) -> (r: String)
    ensures
        r@ == file_name_of(path@),
{
    let c = chars_of(path);
    let s = find_name_start(&c);
    path.substring_char(s, c.len()).to_owned()
}

/// The extension of `path`'s file name: what follows its last dot, unless that dot opens the name.
pub fn extension(path: &str) -> (r: Option<String>)
    ensures
        match r {
            Some(e) => extension_of(path@) == Some(e@),
            None => extension_of(path@) is None,
        },
{
    let c = chars_of(path);
    let s = find_name_start(&c);
    let ghost name = file_name_of(path@);
    assert(name =~= c@.subrange(s as int, c@.len() as int));
    match find_last_dot(&c, s) {
        Some(k) => {
            if k > s {
                assert(k < c.len());
                Some(path.substring_char(k + 1, c.len()).to_owned())
            } else {
                None
            }
        },
        None => None,
    }
}

/// The stem of `path`'s file name: the name without its extension; none for an empty name.
pub fn file_stem(path: &str) -> (r: Option<String>)
    ensures
        match r {
            Some(e) => stem_of(path@) == Some(e@),
            None => stem_of(path@) is None,
        },
{
    let c = chars_of(path);
    let s = find_name_start(&c);
    let ghost name = file_name_of(path@);
    assert(name =~= c@.subrange(s as int, c@.len() as int));
    if s == c.len() {
        return None;
    }
    match find_last_dot(&c, s) {
        Some(k) => {
            if k > s {
                Some(path.substring_char(s, k).to_owned())
            } else {
                Some(path.substring_char(s, c.len()).to_owned())
            }
        },
        None => Some(path.substring_char(s, c.len()).to_owned()),
    }
}

} // verus!
