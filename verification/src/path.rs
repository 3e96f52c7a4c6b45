//! File paths as text, with `/` between their components.

use vstd::prelude::*;

use crate::text::{chars_of, text_of};

verus! {

/// A path without separators and `.` components at its end. The root stays as it is, and so
/// does a `.` that is the whole path.
pub open spec fn tidy(s: Seq<char>) -> Seq<char>
    decreases s.len(),
{
    if s.len() > 1 && s.last() == '/' {
        tidy(s.drop_last())
    } else if s.len() > 1 && s.last() == '.' && s[s.len() - 2] == '/' {
        tidy(s.drop_last())
    } else {
        s
    }
}

/// Where the last component of a path starts: behind its last separator.
pub open spec fn last_start(s: Seq<char>) -> int
    decreases s.len(),
{
    if s.len() == 0 || s.last() == '/' {
        s.len() as int
    } else {
        last_start(s.drop_last())
    }
}

/// The path without its last component; nothing for the root and for no path at all.
pub open spec fn path_parent(s: Seq<char>) -> Option<Seq<char>> {
    let t = tidy(s);
    if t.len() == 0 || t == seq!['/'] {
        None
    } else {
        Some(tidy(t.take(last_start(t))))
    }
}

/// The last component of a path, where it names a file or directory.
pub open spec fn path_file_name(s: Seq<char>) -> Option<Seq<char>> {
    let t = tidy(s);
    let name = t.skip(last_start(t));
    if name.len() == 0 || name == seq!['.'] || name == seq!['.', '.'] {
        None
    } else {
        Some(name)
    }
}

/// The path of `name` in the directory `dir`.
pub open spec fn path_join(dir: Seq<char>, name: Seq<char>) -> Seq<char> {
    if dir.len() == 0 || dir.last() == '/' {
        dir + name
    } else {
        dir + seq!['/'] + name
    }
}

/// The number of characters of `cs[..n]` that [`tidy`] keeps.
fn tidy_length(cs: &Vec<char>, n: usize) -> (r: usize)
    requires
        n <= cs.len(),
    ensures
        r <= n,
        cs@.take(r as int) == tidy(cs@.take(n as int)),
{
    let mut k: usize = n;
    while k > 1 && (cs[k - 1] == '/' || (cs[k - 1] == '.' && cs[k - 2] == '/'))
        invariant
            k <= n <= cs.len(),
            tidy(cs@.take(k as int)) == tidy(cs@.take(n as int)),
        decreases k,
    {
        proof {
            assert(cs@.take(k as int).drop_last() =~= cs@.take(k - 1));
        }
        k -= 1;
    }
    k
}

/// Where the last component of `cs[..n]` starts.
fn find_last_start(cs: &Vec<char>, n: usize) -> (r: usize)
    requires
        n <= cs.len(),
    ensures
        r <= n,
        r == last_start(cs@.take(n as int)),
{
    let mut k: usize = n;
    while k > 0 && cs[k - 1] != '/'
        invariant
            k <= n <= cs.len(),
            last_start(cs@.take(k as int)) == last_start(cs@.take(n as int)),
        decreases k,
    {
        proof {
            assert(cs@.take(k as int).drop_last() =~= cs@.take(k - 1));
        }
        k -= 1;
    }
    k
}

/// The path without its last component; nothing for the root and for no path at all.
pub fn parent_of(path: &str) -> (r: Option<String>)
    ensures
        match r {
            Some(p) => path_parent(path@) == Some(p@),
            None => path_parent(path@) is None,
        },
{
    let cs: Vec<char> = chars_of(path);
    let n: usize = tidy_length(&cs, cs.len());
    let ghost t = tidy(path@);
    proof {
        assert(cs@.take(cs@.len() as int) =~= path@);
        assert(t == cs@.take(n as int));
        if n == 1 && cs@[0] == '/' {
            assert(t =~= seq!['/']);
        } else if n > 0 {
            assert(t[0] == cs@[0]);
        }
    }
    if n == 0 || (n == 1 && cs[0] == '/') {
        return None;
    }
    let k: usize = find_last_start(&cs, n);
    let m: usize = tidy_length(&cs, k);
    let p: String = text_of(&cs, 0, m);
    proof {
        assert(t.take(k as int) =~= cs@.take(k as int));
        assert(p@ =~= cs@.take(m as int));
    }
    Some(p)
}

/// The last component of a path, where it names a file or directory.
pub fn file_name_of(path: &str) -> (r: Option<String>)
    ensures
        match r {
            Some(p) => path_file_name(path@) == Some(p@),
            None => path_file_name(path@) is None,
        },
{
    let cs: Vec<char> = chars_of(path);
    let n: usize = tidy_length(&cs, cs.len());
    let k: usize = find_last_start(&cs, n);
    let ghost t = tidy(path@);
    let ghost name = t.skip(last_start(t));
    proof {
        assert(cs@.take(cs@.len() as int) =~= path@);
        assert(name =~= cs@.subrange(k as int, n as int));
        if n - k == 1 && cs@[k as int] == '.' {
            assert(name =~= seq!['.']);
        }
        if n - k == 2 && cs@[k as int] == '.' && cs@[k + 1] == '.' {
            assert(name =~= seq!['.', '.']);
        }
        if n > k {
            assert(name[0] == cs@[k as int]);
        }
        if n > k + 1 {
            assert(name[1] == cs@[k + 1]);
        }
    }
    if n == k || (n - k == 1 && cs[k] == '.') || (n - k == 2 && cs[k] == '.' && cs[k + 1] == '.') {
        return None;
    }
    Some(text_of(&cs, k, n))
}

/// The path of `name` in the directory `dir`.
pub fn join_path(dir: &str, name: &str) -> (r: String)
    ensures
        r@ == path_join(dir@, name@),
{
    let cs: Vec<char> = chars_of(dir);
    let mut out: String = dir.to_owned();
    if cs.len() > 0 && cs[cs.len() - 1] != '/' {
        out.push('/');
    }
    out.append(name);
    assert(out@ =~= path_join(dir@, name@));
    out
}

/// The name of a plain file in a directory is the last component of the path that leads to
/// it, and what comes before it leads to that directory.
pub proof fn law_join_then_split(dir: Seq<char>, name: Seq<char>)
    requires
        name.len() > 0,
        !name.contains('/'),
        name != seq!['.'],
        name != seq!['.', '.'],
    ensures
        path_file_name(path_join(dir, name)) == Some(name),
        path_parent(path_join(dir, name)) == Some(tidy(dir)),
{
    let s = path_join(dir, name);
    assert forall|i: int| 0 <= i < name.len() implies name[i] != '/' by {
        assert(name.contains(name[i]));
    }
    let head = s.take(s.len() - name.len());
    assert(s =~= head + name);
    assert(s.last() == name.last());
    if s.len() > 1 && s.last() == '.' && s[s.len() - 2] == '/' {
        if name.len() > 1 {
            assert(s[s.len() - 2] == name[name.len() - 2]);
        } else {
            assert(name =~= seq!['.']);
        }
    }
    assert(tidy(s) == s);
    lemma_last_start_of_join(head, name);
    assert(s.skip(head.len() as int) =~= name);
    assert(s.take(head.len() as int) =~= head);
    if dir.len() == 0 || dir.last() == '/' {
        assert(head =~= dir);
    } else {
        assert(head =~= dir.push('/'));
        assert(head.drop_last() =~= dir);
    }
    if s == seq!['/'] {
        assert(s[0] == '/');
        assert(name[name.len() - 1] == s.last());
    }
}

proof fn lemma_last_start_of_join(head: Seq<char>, name: Seq<char>)
    requires
        forall|i: int| 0 <= i < name.len() ==> name[i] != '/',
        head.len() == 0 || head.last() == '/',
    ensures
        last_start(head + name) == head.len(),
    decreases name.len(),
{
    let s = head + name;
    if name.len() == 0 {
        assert(s =~= head);
    } else {
        assert(s.last() == name.last());
        assert(s.drop_last() =~= head + name.drop_last());
        lemma_last_start_of_join(head, name.drop_last());
    }
}

} // verus!
