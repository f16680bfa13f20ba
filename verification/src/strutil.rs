//! Small verified string helpers: equality, suffix tests, path joining
//! and filename-stem extraction, each specified over character
//! sequences.

use vstd::prelude::*;

verus! {

/// `s` ends with `sfx`.
pub open spec fn has_suffix(s: Seq<char>, sfx: Seq<char>) -> bool {
    s.len() >= sfx.len() && s.subrange(s.len() - sfx.len(), s.len() as int) == sfx
}

pub fn str_eq(a: &str, b: &str) -> (r: bool)
    ensures
        r == (a@ == b@),
{
    let na = a.unicode_len();
    let nb = b.unicode_len();
    if na != nb {
        return false;
    }
    let mut i: usize = 0;
    while i < na
        invariant
            na == a@.len(),
            na == b@.len(),
            i <= na,
            forall|j: int| 0 <= j < i ==> a@[j] == b@[j],
        decreases na - i,
    {
        if a.get_char(i) != b.get_char(i) {
            return false;
        }
        i = i + 1;
    }
    proof {
        assert(a@ =~= b@);
    }
    true
}

pub fn str_has_suffix(s: &str, sfx: &str) -> (r: bool)
    ensures
        r == has_suffix(s@, sfx@),
{
    let n = s.unicode_len();
    let m = sfx.unicode_len();
    if n < m {
        return false;
    }
    let off = n - m;
    let mut i: usize = 0;
    while i < m
        invariant
            n == s@.len(),
            m == sfx@.len(),
            off == n - m,
            i <= m,
            forall|j: int| 0 <= j < i ==> s@[off + j] == sfx@[j],
        decreases m - i,
    {
        if s.get_char(off + i) != sfx.get_char(i) {
            proof {
                let tail = s@.subrange(s@.len() - sfx@.len(), s@.len() as int);
                assert(tail[i as int] == s@[off + i]);
            }
            return false;
        }
        i = i + 1;
    }
    proof {
        assert(s@.subrange(s@.len() - sfx@.len(), s@.len() as int) =~= sfx@);
    }
    true
}

/// Index of the last occurrence of `c` in `s`, or -1 if `c` does not
/// occur.
pub open spec fn last_pos_of(s: Seq<char>, c: char) -> int
    decreases s.len(),
{
    if s.len() == 0 {
        -1
    } else if s.last() == c {
        s.len() - 1
    } else {
        last_pos_of(s.drop_last(), c)
    }
}

pub proof fn lemma_last_pos_of(s: Seq<char>, c: char)
    ensures
        -1 <= last_pos_of(s, c) < s.len(),
        last_pos_of(s, c) >= 0 ==> s[last_pos_of(s, c)] == c,
        forall|j: int| last_pos_of(s, c) < j < s.len() ==> #[trigger] s[j] != c,
    decreases s.len(),
{
    if s.len() > 0 && s.last() != c {
        lemma_last_pos_of(s.drop_last(), c);
        assert forall|j: int| last_pos_of(s, c) < j < s.len() implies #[trigger] s[j] != c by {
            if j < s.len() - 1 {
                assert(s.drop_last()[j] == s[j]);
            }
        }
    }
}

fn last_pos_char(s: &str, c: char) -> (r: Option<usize>)
    ensures
        match r {
            Some(p) => p == last_pos_of(s@, c),
            None => last_pos_of(s@, c) == -1,
        },
{
    proof {
        lemma_last_pos_of(s@, c);
    }
    let n = s.unicode_len();
    let mut i: usize = n;
    while i > 0
        invariant
            n == s@.len(),
            i <= n,
            last_pos_of(s@, c) < i,
        decreases i,
    {
        if s.get_char(i - 1) == c {
            proof {
                lemma_last_pos_of(s@, c);
            }
            return Some(i - 1);
        }
        proof {
            lemma_last_pos_of(s@, c);
        }
        i = i - 1;
    }
    None
}

/// The part of a path after its last slash.
pub open spec fn base_name_of(p: Seq<char>) -> Seq<char> {
    p.subrange(last_pos_of(p, '/') + 1, p.len() as int)
}

/// A filename without its last extension; a name without a dot stays
/// whole.
pub open spec fn strip_last_ext(n: Seq<char>) -> Seq<char> {
    if last_pos_of(n, '.') >= 0 {
        n.subrange(0, last_pos_of(n, '.'))
    } else {
        n
    }
}

/// The filename of a path without its extension: what is between the
/// last slash and the last dot.
pub open spec fn stem_of(p: Seq<char>) -> Seq<char> {
    strip_last_ext(base_name_of(p))
}

pub fn file_stem<'a>(path: &'a str) -> (r: &'a str)
    ensures
        r@ == stem_of(path@),
{
    proof {
        lemma_last_pos_of(path@, '/');
    }
    let n = path.unicode_len();
    let start = match last_pos_char(path, '/') {
        Some(p) => p + 1,
        None => 0,
    };
    let base = path.substring_char(start, n);
    proof {
        assert(base@ =~= base_name_of(path@));
    }
    let bn = base.unicode_len();
    proof {
        lemma_last_pos_of(base@, '.');
    }
    let end = match last_pos_char(base, '.') {
        Some(p) => p,
        None => bn,
    };
    let r = base.substring_char(0, end);
    proof {
        if last_pos_of(base@, '.') >= 0 {
            assert(r@ =~= strip_last_ext(base_name_of(path@)));
        } else {
            assert(r@ =~= base@);
        }
    }
    r
}

/// `root` and `name` joined with exactly one slash between them.
pub open spec fn joined(root: Seq<char>, name: Seq<char>) -> Seq<char> {
    if root.len() > 0 && root.last() == '/' {
        root + name
    } else {
        root + seq!['/'] + name
    }
}

pub fn join_path(root: &str, name: &str) -> (r: String)
    ensures
        r@ == joined(root@, name@),
{
    let n = root.unicode_len();
    let mut s = String::from_str(root);
    if n == 0 || root.get_char(n - 1) != '/' {
        s.append("/");
        proof {
            reveal_strlit("/");
            assert("/"@ =~= seq!['/']);
        }
    }
    s.append(name);
    s
}

/// `s` followed by `sfx`.
pub fn concat_str(s: &str, sfx: &str) -> (r: String)
    ensures
        r@ == s@ + sfx@,
{
    let mut out = String::from_str(s);
    out.append(sfx);
    out
}

} // verus!
