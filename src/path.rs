//! Paths as strings, read as a sequence of components split on `/`.

use vstd::prelude::*;

verus! {

/// `name` appended to `dir`, with one separator between them when both are
/// non-empty and `dir` does not already end in one.
pub open spec fn join_spec(dir: Seq<char>, name: Seq<char>) -> Seq<char> {
    if name.len() == 0 {
        dir
    } else if dir.len() == 0 {
        name
    } else if dir.last() == '/' {
        dir + name
    } else {
        dir + seq!['/'] + name
    }
}

/// Joins a directory and a name into one path.
pub fn join(dir: &str, name: &str) -> (r: String)
    ensures
        r@ == join_spec(dir@, name@),
{
    let dir_len = dir.unicode_len();
    let name_len = name.unicode_len();
    if name_len == 0 {
        return String::from_str(dir);
    }
    if dir_len == 0 {
        return String::from_str(name);
    }
    let mut r = String::from_str(dir);
    if dir.get_char(dir_len - 1) != '/' {
        let sep = "/";
        proof {
            reveal_strlit("/");
        }
        r.append(sep);
    }
    r.append(name);
    r
}

/// Reading `p` from the left: the components finished so far and the piece
/// still open after the last separator.
pub open spec fn split_state(p: Seq<char>) -> (Seq<Seq<char>>, Seq<char>)
    decreases p.len(),
{
    if p.len() == 0 {
        (Seq::empty(), Seq::empty())
    } else {
        let prev = split_state(p.drop_last());
        if p.last() == '/' {
            if prev.1.len() > 0 {
                (prev.0.push(prev.1), Seq::empty())
            } else {
                (prev.0, Seq::empty())
            }
        } else {
            (prev.0, prev.1.push(p.last()))
        }
    }
}

/// The non-empty pieces of `p` between separators, in order.
pub open spec fn components(p: Seq<char>) -> Seq<Seq<char>> {
    let s = split_state(p);
    if s.1.len() > 0 {
        s.0.push(s.1)
    } else {
        s.0
    }
}

pub open spec fn is_absolute(p: Seq<char>) -> bool {
    p.len() > 0 && p[0] == '/'
}

/// Two paths name the same place when they agree on being absolute and on
/// their components.
pub open spec fn same_path(a: Seq<char>, b: Seq<char>) -> bool {
    is_absolute(a) == is_absolute(b) && components(a) == components(b)
}

/// The components joined by single separators.
pub open spec fn joined(cs: Seq<Seq<char>>) -> Seq<char>
    decreases cs.len(),
{
    if cs.len() == 0 {
        Seq::empty()
    } else if cs.len() == 1 {
        cs[0]
    } else {
        joined(cs.drop_last()) + seq!['/'] + cs.last()
    }
}

/// The path written from its components.
pub open spec fn render_spec(absolute: bool, cs: Seq<Seq<char>>) -> Seq<char> {
    if absolute {
        seq!['/'] + joined(cs)
    } else {
        joined(cs)
    }
}

pub open spec fn string_views(v: Seq<String>) -> Seq<Seq<char>> {
    v.map_values(|s: String| s@)
}

/// Splits a path into its components.
pub fn split_components(p: &str) -> (r: Vec<String>)
    ensures
        string_views(r@) == components(p@),
{
    let cs = crate::text::chars_of(p);
    let n = cs.len();
    let mut done: Vec<String> = Vec::new();
    let mut start: usize = 0;
    let mut i: usize = 0;
    while i < n
        invariant
            n == p@.len(),
            cs@ == p@,
            start <= i <= n,
            split_state(p@.subrange(0, i as int)) == (
            string_views(done@), p@.subrange(start as int, i as int)),
        decreases n - i,
    {
        let c = cs[i];
        proof {
            assert(p@.subrange(0, i + 1).drop_last() == p@.subrange(0, i as int));
        }
        if c == '/' {
            if start < i {
                let piece = p.substring_char(start, i);
                done.push(String::from_str(piece));
                proof {
                    assert(string_views(done@) == string_views(done@.drop_last()).push(piece@));
                }
            }
            start = i + 1;
        } else {
            proof {
                assert(p@.subrange(start as int, i + 1) == p@.subrange(start as int, i as int).push(
                    c,
                ));
            }
        }
        i = i + 1;
    }
    proof {
        assert(p@.subrange(0, n as int) == p@);
    }
    if start < n {
        let piece = p.substring_char(start, n);
        done.push(String::from_str(piece));
        proof {
            assert(string_views(done@) == string_views(done@.drop_last()).push(piece@));
        }
    }
    done
}

/// Writes the path made of the first `end` components of `cs`.
pub fn render_prefix(absolute: bool, cs: &Vec<String>, end: usize) -> (r: String)
    requires
        end <= cs@.len(),
    ensures
        r@ == render_spec(absolute, string_views(cs@).subrange(0, end as int)),
{
    let ghost v = string_views(cs@);
    let mut body = String::new();
    let sep = "/";
    proof {
        reveal_strlit("/");
    }
    let mut j: usize = 0;
    while j < end
        invariant
            end <= cs@.len(),
            v == string_views(cs@),
            sep@ == seq!['/'],
            j <= end,
            body@ == joined(v.subrange(0, j as int)),
        decreases end - j,
    {
        proof {
            assert(v.subrange(0, j + 1).drop_last() == v.subrange(0, j as int));
        }
        if j > 0 {
            body.append(sep);
        }
        body.append(cs[j].as_str());
        proof {
            if j == 0 {
                assert(v.subrange(0, 1)[0] == v[0]);
            }
        }
        j = j + 1;
    }
    if absolute {
        let mut r = String::from_str(sep);
        r.append(body.as_str());
        r
    } else {
        body
    }
}

/// `p` lies strictly below `root`: the components of `root` start those of
/// `p`, which has more of them.
pub open spec fn strictly_under(p: Seq<char>, root: Seq<char>) -> bool {
    let f = components(p);
    let d = components(root);
    &&& is_absolute(p) == is_absolute(root)
    &&& d.len() < f.len()
    &&& f.subrange(0, d.len() as int) == d
}

/// The directories met when walking up from `p` towards `root`, `p` first,
/// `root` itself left out; nothing when `p` is not strictly below `root`.
pub open spec fn walk_spec(p: Seq<char>, root: Seq<char>) -> Seq<Seq<char>> {
    let f = components(p);
    let d = components(root);
    if strictly_under(p, root) {
        Seq::new(
            (f.len() - d.len()) as nat,
            |i: int| render_spec(is_absolute(p), f.subrange(0, f.len() - i)),
        )
    } else {
        Seq::empty()
    }
}

pub fn starts_with_separator(p: &str) -> (r: bool)
    ensures
        r == is_absolute(p@),
{
    p.unicode_len() > 0 && p.get_char(0) == '/'
}

/// Whether the first `a.len()` strings of `b` are those of `a`.
fn is_prefix(a: &Vec<String>, b: &Vec<String>) -> (r: bool)
    requires
        a@.len() <= b@.len(),
    ensures
        r == (string_views(b@).subrange(0, a@.len() as int) == string_views(a@)),
{
    let ghost va = string_views(a@);
    let ghost vb = string_views(b@).subrange(0, a@.len() as int);
    let mut i: usize = 0;
    while i < a.len()
        invariant
            a@.len() <= b@.len(),
            va == string_views(a@),
            vb == string_views(b@).subrange(0, a@.len() as int),
            i <= a@.len(),
            forall|k: int| 0 <= k < i ==> va[k] == vb[k],
        decreases a@.len() - i,
    {
        if a[i] != b[i] {
            assert(va[i as int] != vb[i as int]);
            return false;
        }
        i = i + 1;
    }
    assert(va =~= vb);
    true
}

/// Lists the directories from `p` up to, but not including, `root`.
pub fn walk_up(p: &str, root: &str) -> (r: Vec<String>)
    ensures
        string_views(r@) == walk_spec(p@, root@),
{
    let f = split_components(p);
    let d = split_components(root);
    let absolute = starts_with_separator(p);
    let mut r: Vec<String> = Vec::new();
    if absolute != starts_with_separator(root) || d.len() >= f.len() || !is_prefix(&d, &f) {
        assert(string_views(r@) =~= walk_spec(p@, root@));
        return r;
    }
    let count = f.len() - d.len();
    assert(strictly_under(p@, root@));
    let ghost target = walk_spec(p@, root@);
    let mut i: usize = 0;
    while i < count
        invariant
            count == f@.len() - d@.len(),
            string_views(f@) == components(p@),
            absolute == is_absolute(p@),
            target == walk_spec(p@, root@),
            strictly_under(p@, root@),
            target.len() == count,
            i <= count,
            string_views(r@) == target.subrange(0, i as int),
        decreases count - i,
    {
        let dir = render_prefix(absolute, &f, f.len() - i);
        let ghost before = r@;
        r.push(dir);
        proof {
            assert(string_views(f@).len() == f@.len());
            assert(target[i as int] == dir@);
            assert(string_views(r@) =~= string_views(before).push(dir@));
            assert(string_views(r@) =~= target.subrange(0, i + 1));
        }
        i = i + 1;
    }
    assert(target.subrange(0, count as int) == target);
    r
}

} // verus!
