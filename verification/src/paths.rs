//! Path components as POSIX path rules split them: `/` separates, repeated
//! separators and `.` are ignored, except a leading `.`, and a leading `/`
//! is the root.
use vstd::prelude::*;

use crate::text::chars_of;

verus! {

/// The completed names and the name being read after scanning `s`.
pub open spec fn path_scan(s: Seq<char>) -> (Seq<Seq<char>>, Seq<char>)
    decreases s.len(),
{
    if s.len() == 0 {
        (Seq::empty(), Seq::empty())
    } else {
        let (done, cur) = path_scan(s.drop_last());
        if s.last() == '/' {
            (flush_name(done, cur), Seq::empty())
        } else {
            (done, cur.push(s.last()))
        }
    }
}

/// The names with `cur` added, unless it is empty or `.`.
pub open spec fn flush_name(done: Seq<Seq<char>>, cur: Seq<char>) -> Seq<Seq<char>> {
    if cur.len() == 0 || cur == seq!['.'] {
        done
    } else {
        done.push(cur)
    }
}

/// The names of a path, without separators, empty names and `.`.
pub open spec fn path_names(s: Seq<char>) -> Seq<Seq<char>> {
    flush_name(path_scan(s).0, path_scan(s).1)
}

/// The path starts with a `.` component.
pub open spec fn leading_cur_dir(p: Seq<char>) -> bool {
    p == seq!['.'] || (p.len() >= 2 && p[0] == '.' && p[1] == '/')
}

/// The components of a POSIX path: `/` for the root, `.` for a leading
/// current directory, then the names.
pub open spec fn posix_components(p: Seq<char>) -> Seq<Seq<char>> {
    if p.len() > 0 && p[0] == '/' {
        seq![seq!['/']] + path_names(p)
    } else if leading_cur_dir(p) {
        seq![seq!['.']] + path_names(p)
    } else {
        path_names(p)
    }
}

/// A path that POSIX and Windows split alike: no `\`, no `:`, and not
/// starting with two separators.
pub open spec fn portable_path(p: Seq<char>) -> bool {
    &&& forall|i: int| 0 <= i < p.len() ==> p[i] != '\\' && p[i] != ':'
    &&& !(p.len() >= 2 && p[0] == '/' && p[1] == '/')
}

/// The final component of a path when it is a name: `None` when the path
/// has no component or ends in the root, `.` or `..`.
pub open spec fn file_name_of(p: Seq<char>) -> Option<Seq<char>> {
    let c = posix_components(p);
    if c.len() > 0 && c.last() != seq!['/'] && c.last() != seq!['.'] && c.last() != seq!['.', '.'] {
        Some(c.last())
    } else {
        None
    }
}

/// The texts of a sequence of character vectors.
pub open spec fn texts(v: Seq<Vec<char>>) -> Seq<Seq<char>> {
    v.map_values(|x: Vec<char>| x@)
}

/// A path without separators scans as a single name.
pub proof fn lemma_scan_without_separator(s: Seq<char>)
    requires
        forall|i: int| 0 <= i < s.len() ==> s[i] != '/',
    ensures
        path_scan(s) == (Seq::<Seq<char>>::empty(), s),
    decreases s.len(),
{
    if s.len() > 0 {
        lemma_scan_without_separator(s.drop_last());
        assert(s.drop_last().push(s.last()) =~= s);
    }
}

/// Whether two character vectors hold the same text.
fn same_chars(a: &Vec<char>, b: &Vec<char>) -> (r: bool)
    ensures
        r == (a@ == b@),
{
    if a.len() != b.len() {
        return false;
    }
    let mut i: usize = 0;
    while i < a.len()
        invariant
            i <= a@.len() == b@.len(),
            forall|k: int| 0 <= k < i ==> a@[k] == b@[k],
        decreases a.len() - i,
    {
        if a[i] != b[i] {
            return false;
        }
        i = i + 1;
    }
    assert(a@ =~= b@);
    true
}

/// A one-character component.
fn single(c: char) -> (r: Vec<char>)
    ensures
        r@ == seq![c],
{
    let mut v: Vec<char> = Vec::new();
    v.push(c);
    assert(v@ =~= seq![c]);
    v
}

/// The components of a POSIX path.
pub fn posix_components_of(p: &str) -> (r: Vec<Vec<char>>)
    ensures
        texts(r@) == posix_components(p@),
{
    let cs = chars_of(p);
    let mut done: Vec<Vec<char>> = Vec::new();
    if cs.len() > 0 && cs[0] == '/' {
        done.push(single('/'));
    } else if (cs.len() == 1 && cs[0] == '.') || (cs.len() >= 2 && cs[0] == '.' && cs[1] == '/') {
        done.push(single('.'));
        proof {
            if cs@.len() == 1 {
                assert(cs@ =~= seq!['.']);
            }
        }
    }
    let ghost h = texts(done@);
    proof {
        if p@.len() > 0 && p@[0] == '/' {
            assert(h =~= seq![seq!['/']]);
        } else if leading_cur_dir(p@) {
            if p@.len() == 1 {
                assert(cs@ == seq!['.']);
            }
            assert(h =~= seq![seq!['.']]);
        } else {
            assert(h =~= Seq::<Seq<char>>::empty());
        }
    }
    let mut cur: Vec<char> = Vec::new();
    let mut i: usize = 0;
    assert(path_scan(cs@.take(0)).0 =~= Seq::<Seq<char>>::empty());
    assert(h + Seq::<Seq<char>>::empty() =~= h);
    while i < cs.len()
        invariant
            i <= cs@.len(),
            cs@ == p@,
            texts(done@) == h + path_scan(cs@.take(i as int)).0,
            cur@ == path_scan(cs@.take(i as int)).1,
        decreases cs.len() - i,
    {
        let ghost before = cs@.take(i as int);
        assert(cs@.take(i + 1).drop_last() =~= before);
        assert(cs@.take(i + 1).last() == cs@[i as int]);
        let c = cs[i];
        if c == '/' {
            if !(cur.len() == 0 || (cur.len() == 1 && cur[0] == '.')) {
                let ghost d = done@;
                done.push(cur);
                assert(texts(done@) =~= texts(d).push(path_scan(before).1));
                assert(texts(done@) =~= h + path_scan(before).0.push(path_scan(before).1));
            } else {
                proof {
                    if cur@.len() == 1 {
                        assert(cur@ =~= seq!['.']);
                    }
                }
            }
            cur = Vec::new();
            assert(cur@ =~= Seq::<char>::empty());
        } else {
            cur.push(c);
        }
        i = i + 1;
    }
    assert(cs@.take(cs@.len() as int) =~= cs@);
    if !(cur.len() == 0 || (cur.len() == 1 && cur[0] == '.')) {
        let ghost d = done@;
        done.push(cur);
        assert(texts(done@) =~= texts(d).push(path_scan(cs@).1));
        assert(texts(done@) =~= h + path_scan(cs@).0.push(path_scan(cs@).1));
    } else {
        proof {
            if cur@.len() == 1 {
                assert(cur@ =~= seq!['.']);
            }
        }
    }
    assert(texts(done@) =~= h + path_names(p@));
    done
}

/// Whether `root`'s components begin `path`'s, by POSIX path rules.
pub fn posix_starts_with(path: &str, root: &str) -> (r: bool)
    ensures
        r == posix_components(root@).is_prefix_of(posix_components(path@)),
{
    let p = posix_components_of(path);
    let q = posix_components_of(root);
    if q.len() > p.len() {
        return false;
    }
    let mut i: usize = 0;
    while i < q.len()
        invariant
            i <= q@.len() <= p@.len(),
            texts(p@) == posix_components(path@),
            texts(q@) == posix_components(root@),
            forall|k: int| 0 <= k < i ==> texts(q@)[k] == texts(p@)[k],
        decreases q.len() - i,
    {
        if !same_chars(&q[i], &p[i]) {
            assert(texts(p@).take(q@.len() as int)[i as int] != texts(q@)[i as int]);
            return false;
        }
        i = i + 1;
    }
    assert(texts(p@).take(q@.len() as int) =~= texts(q@));
    true
}

} // verus!
