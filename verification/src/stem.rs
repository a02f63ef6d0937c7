//! Derivation of the default variable name from the output path: the file
//! name after the last `/`, without the extension after its last `.` (a dot
//! that starts the file name does not begin an extension). The directory
//! names `.` and `..` are no file names and yield no stem.

use vstd::prelude::*;

verus! {

/// The index where the file name begins: just after the last `/`, or 0 when
/// the path has no `/`.
pub open spec fn file_name_start(p: Seq<char>) -> int
    decreases p.len(),
{
    if p.len() == 0 {
        0
    } else if p.last() == '/' {
        p.len() as int
    } else {
        file_name_start(p.drop_last())
    }
}

/// The index of the last `.` in the file name that does not stand first in
/// it, or -1 when there is none.
pub open spec fn last_dot(f: Seq<char>) -> int
    decreases f.len(),
{
    if f.len() <= 1 {
        -1
    } else if f.last() == '.' {
        f.len() - 1
    } else {
        last_dot(f.drop_last())
    }
}

/// The file name of a path: everything after the last `/`.
pub open spec fn file_name_of(p: Seq<char>) -> Seq<char> {
    p.subrange(file_name_start(p), p.len() as int)
}

/// Whether a file name is `.` or `..`: the current- and parent-directory
/// names, which name no file and so have no stem.
pub open spec fn is_dot_name(f: Seq<char>) -> bool {
    ||| f.len() == 1 && f[0] == '.'
    ||| f.len() == 2 && f[0] == '.' && f[1] == '.'
}

/// The file stem of a path: its file name without the extension, and empty
/// when the file name is empty or a bare directory name (`.` or `..`).
pub open spec fn stem_of(p: Seq<char>) -> Seq<char> {
    let f = file_name_of(p);
    if is_dot_name(f) {
        Seq::empty()
    } else if last_dot(f) >= 0 {
        f.subrange(0, last_dot(f))
    } else {
        f
    }
}

proof fn lemma_file_name_start_unique(p: Seq<char>, i: int)
    requires
        0 <= i <= p.len(),
        i > 0 ==> p[i - 1] == '/',
        forall|j: int| i <= j < p.len() ==> p[j] != '/',
    ensures
        file_name_start(p) == i,
    decreases p.len(),
{
    if p.len() == 0 {
    } else if p.last() == '/' {
        assert(i == p.len());
    } else {
        assert(i < p.len() || (i > 0 && p[i - 1] == '/' && i - 1 == p.len() - 1));
        assert(i <= p.len() - 1);
        assert(forall|j: int| i <= j < p.len() - 1 ==> p.drop_last()[j] == p[j]);
        lemma_file_name_start_unique(p.drop_last(), i);
    }
}

proof fn lemma_last_dot_unique(f: Seq<char>, m: int)
    requires
        m == -1 || (1 <= m < f.len() && f[m] == '.'),
        forall|k: int| m < k < f.len() && k >= 1 ==> f[k] != '.',
    ensures
        last_dot(f) == m,
    decreases f.len(),
{
    if f.len() <= 1 {
        assert(m == -1);
    } else if f.last() == '.' {
        assert(m == f.len() - 1);
    } else {
        assert(m < f.len() - 1);
        assert(forall|k: int| 0 <= k < f.len() - 1 ==> f.drop_last()[k] == f[k]);
        lemma_last_dot_unique(f.drop_last(), m);
    }
}

/// The file stem of a path, or `None` when the path yields an empty stem
/// (it is empty, ends in `/`, its file name is `.` or `..`, or its file name
/// is a bare extension cut down to nothing).
pub fn file_stem(path: &str) -> (r: Option<String>)
    ensures
        match r {
            Some(s) => s@ == stem_of(path@) && s@.len() > 0,
            None => stem_of(path@).len() == 0,
        },
{
    let n: usize = path.unicode_len();
    let mut i: usize = n;
    while i > 0 && path.get_char(i - 1) != '/'
        invariant
            i <= n,
            n == path@.len(),
            forall|j: int| i <= j < n ==> path@[j] != '/',
        decreases i,
    {
        i = i - 1;
    }
    proof {
        lemma_file_name_start_unique(path@, i as int);
    }
    let start: usize = i;
    let ghost f = file_name_of(path@);
    assert(f.len() == n - start);
    proof {
        assert(forall|k: int| 0 <= k < f.len() ==> f[k] == path@[start + k]);
    }
    if n - start == 1 && path.get_char(start) == '.' {
        return None;
    }
    if n - start == 2 && path.get_char(start) == '.' && path.get_char(start + 1) == '.' {
        return None;
    }
    assert(!is_dot_name(f));

    let mut j: usize = n;
    while j > 0 && j - 1 > start && path.get_char(j - 1) != '.'
        invariant
            start <= n,
            n == path@.len(),
            j <= n,
            j >= start + 1 || j == n,
            forall|k: int| j <= k < n ==> path@[k] != '.',
        decreases j,
    {
        j = j - 1;
    }
    let end: usize = if j > 0 && j - 1 > start {
        // path@[j - 1] == '.' at a file-name position after the first
        proof {
            assert(forall|k: int| 0 <= k < f.len() ==> f[k] == path@[start + k]);
            lemma_last_dot_unique(f, j - 1 - start);
        }
        j - 1
    } else {
        proof {
            assert(forall|k: int| 0 <= k < f.len() ==> f[k] == path@[start + k]);
            lemma_last_dot_unique(f, -1);
        }
        n
    };
    assert(stem_of(path@) =~= path@.subrange(start as int, end as int));
    if end == start {
        None
    } else {
        let s: &str = path.substring_char(start, end);
        Some(s.to_owned())
    }
}

} // verus!
