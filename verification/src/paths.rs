//! A plain-text model of the path operations the parser needs.
//!
//! Paths are ordinary strings with `/` as the separator; a path is
//! absolute when it starts with `/`.  `parent_dir` takes the text before
//! the final separator and `join_path` appends a component, replacing the
//! whole path when the component is absolute.  This mirrors how the
//! loader resolves names from the configuration file against the
//! directory the file was found in.

use vstd::prelude::*;

use crate::text::spec_ends_with;

verus! {

/// Index of the last occurrence of `c` in `s`.
pub open spec fn spec_rfind(s: Seq<char>, c: char) -> Option<int>
    decreases s.len(),
{
    if s.len() == 0 {
        None
    } else if s.last() == c {
        Some(s.len() - 1)
    } else {
        spec_rfind(s.drop_last(), c)
    }
}

proof fn lemma_rfind_unique(s: Seq<char>, c: char, i: int)
    requires
        0 <= i < s.len(),
        s[i] == c,
        forall|j: int| i < j < s.len() ==> s[j] != c,
    ensures
        spec_rfind(s, c) == Some(i),
    decreases s.len(),
{
    if i < s.len() - 1 {
        lemma_rfind_unique(s.drop_last(), c, i);
    }
}

proof fn lemma_rfind_none(s: Seq<char>, c: char)
    requires
        forall|j: int| 0 <= j < s.len() ==> s[j] != c,
    ensures
        spec_rfind(s, c) is None,
    decreases s.len(),
{
    if s.len() > 0 {
        lemma_rfind_none(s.drop_last(), c);
    }
}

/// The directory part of `p`: the text before the final separator, `/`
/// for a name directly under the root, the empty string for a bare name,
/// and nothing for the empty path or the root itself.
pub open spec fn spec_parent(p: Seq<char>) -> Option<Seq<char>> {
    if p.len() == 0 {
        None
    } else {
        match spec_rfind(p, '/') {
            None => Some(Seq::<char>::empty()),
            Some(i) => if p.len() == 1 {
                None
            } else if i == 0 {
                Some(seq!['/'])
            } else {
                Some(p.take(i))
            },
        }
    }
}

/// Resolve `name` against `dir`: an absolute name stands alone, and a
/// relative one is appended behind a single separator.
pub open spec fn spec_join(dir: Seq<char>, name: Seq<char>) -> Seq<char> {
    if name.len() > 0 && name[0] == '/' {
        name
    } else if dir.len() == 0 {
        name
    } else if dir.last() == '/' {
        dir + name
    } else {
        dir + seq!['/'] + name
    }
}

/// Joining keeps any suffix of the component, since the component always
/// stands at the end of the result.
pub proof fn lemma_join_keeps_suffix(dir: Seq<char>, name: Seq<char>, suffix: Seq<char>)
    requires
        spec_ends_with(name, suffix),
    ensures
        spec_ends_with(spec_join(dir, name), suffix),
{
    let r = spec_join(dir, name);
    if name.len() > 0 && name[0] == '/' {
    } else if dir.len() == 0 {
    } else if dir.last() == '/' {
        assert(r.skip(r.len() - suffix.len()) =~= name.skip(name.len() - suffix.len()));
    } else {
        assert(r.skip(r.len() - suffix.len()) =~= name.skip(name.len() - suffix.len()));
    }
}

/// A concatenation ends in its second part.
pub proof fn lemma_concat_ends_with(a: Seq<char>, b: Seq<char>)
    ensures
        spec_ends_with(a + b, b),
{
    assert((a + b).skip(a.len() as int) =~= b);
}

/// Executable form of `spec_parent`.
pub fn parent_dir(p: &str) -> (r: Option<String>)
    ensures
        r matches Some(d) ==> spec_parent(p@) == Some(d@),
        r is None ==> spec_parent(p@) is None,
{
    let n = p.unicode_len();
    if n == 0 {
        return None;
    }
    let mut i: usize = n;
    while i > 0
        invariant
            0 <= i <= n == p@.len(),
            forall|j: int| i <= j < n ==> p@[j] != '/',
        decreases i,
    {
        i = i - 1;
        if p.get_char(i) == '/' {
            proof {
                lemma_rfind_unique(p@, '/', i as int);
            }
            if n == 1 {
                return None;
            }
            if i == 0 {
                let root = p.substring_char(0, 1).to_owned();
                proof {
                    assert(root@ =~= seq!['/']);
                }
                return Some(root);
            }
            let d = p.substring_char(0, i).to_owned();
            proof {
                assert(d@ =~= p@.take(i as int));
            }
            return Some(d);
        }
    }
    proof {
        lemma_rfind_none(p@, '/');
    }
    let empty = p.substring_char(0, 0).to_owned();
    proof {
        assert(empty@ =~= Seq::<char>::empty());
    }
    Some(empty)
}

/// Executable form of `spec_join`.
pub fn join_path(dir: &str, name: &str) -> (r: String)
    ensures
        r@ == spec_join(dir@, name@),
{
    let nn = name.unicode_len();
    if nn > 0 && name.get_char(0) == '/' {
        return name.to_owned();
    }
    let dn = dir.unicode_len();
    if dn == 0 {
        return name.to_owned();
    }
    if dir.get_char(dn - 1) == '/' {
        let r = dir.to_owned().concat(name);
        proof {
            assert(dir@.last() == dir@[dn as int - 1]);
        }
        r
    } else {
        let r = dir.to_owned().concat("/").concat(name);
        proof {
            reveal_strlit("/");
            assert("/"@ =~= seq!['/']);
            assert(dir@.last() == dir@[dn as int - 1]);
            assert(dir@ + "/"@ + name@ =~= dir@ + seq!['/'] + name@);
        }
        r
    }
}

} // verus!
