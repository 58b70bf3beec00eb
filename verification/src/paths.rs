//! Slash-separated paths as `std::path` reads them on Unix: the last component, and joining
//! a name onto a directory.
use vstd::prelude::*;
use crate::text::{push_char, push_str, chars_of, string_from_chars, substring_of};

verus! {

/// Index of the last `/` in `p`, or -1.
pub open spec fn last_slash(p: Seq<char>) -> int
    decreases p.len(),
{
    if p.len() == 0 {
        -1
    } else if p.last() == '/' {
        p.len() - 1
    } else {
        last_slash(p.drop_last())
    }
}

/// The last component of `p` that names a file or directory, as `Path::file_name` gives it:
/// empty and `.` components are skipped, and a path ending in `..` (or with no such
/// component) has none.
pub open spec fn file_name(p: Seq<char>) -> Option<Seq<char>>
    decreases p.len(),
{
    let ls = last_slash(p);
    let comp = p.subrange(ls + 1, p.len() as int);
    if comp.len() == 0 || comp == seq!['.'] {
        if ls >= 0 && p.len() > 0 {
            proof {
                lemma_last_slash_bounds(p);
            }
            file_name(p.subrange(0, ls))
        } else {
            None
        }
    } else if comp == seq!['.', '.'] {
        None
    } else {
        Some(comp)
    }
}

/// `base` joined with `name` as `Path::join` does: an absolute name replaces the base,
/// otherwise a `/` separates them unless `base` is empty or already ends in one.
pub open spec fn path_join(base: Seq<char>, name: Seq<char>) -> Seq<char> {
    if name.len() > 0 && name[0] == '/' {
        name
    } else if base.len() > 0 && base.last() != '/' {
        base + seq!['/'] + name
    } else {
        base + name
    }
}

/// `s` with every non-overlapping occurrence of the non-empty `pat` removed, scanning from
/// the left as `str::replace(pat, "")` does.
pub open spec fn remove_all(s: Seq<char>, pat: Seq<char>) -> Seq<char>
    decreases s.len(),
{
    if s.len() == 0 {
        s
    } else if pat.len() > 0 && s.len() >= pat.len() && s.subrange(0, pat.len() as int) == pat {
        remove_all(s.skip(pat.len() as int), pat)
    } else {
        seq![s[0]] + remove_all(s.skip(1), pat)
    }
}

/// `last_slash` is -1 or the index of a `/`, with none after it.
pub proof fn lemma_last_slash_bounds(p: Seq<char>)
    ensures
        -1 <= last_slash(p) < p.len(),
        last_slash(p) >= 0 ==> p[last_slash(p)] == '/',
        forall|i: int| last_slash(p) < i < p.len() ==> p[i] != '/',
    decreases p.len(),
{
    if p.len() > 0 && p.last() != '/' {
        let q = p.drop_last();
        lemma_last_slash_bounds(q);
        assert forall|i: int| last_slash(p) < i < p.len() implies p[i] != '/' by {
            if i < q.len() {
                assert(p[i] == q[i]);
            }
        }
    }
}

/// The text after the last `/` (the whole text when there is none).
pub open spec fn last_component(p: Seq<char>) -> Seq<char> {
    p.subrange(last_slash(p) + 1, p.len() as int)
}

/// The text after the last `/` of a path, as `rsplit('/').next()` gives it.
pub fn last_component_of(path: &str) -> (r: String)
    ensures
        r@ == last_component(path@),
{
    let cs = chars_of(path);
    proof {
        lemma_last_slash_bounds(cs@);
        assert(cs@.take(cs@.len() as int) == cs@);
    }
    let start = match last_slash_before(cs.as_slice(), cs.len()) {
        Some(i) => i + 1,
        None => 0,
    };
    substring_of(cs.as_slice(), start, cs.len())
}

/// Index of the last `/` among the first `end` characters, if any.
fn last_slash_before(cs: &[char], end: usize) -> (r: Option<usize>)
    requires
        end <= cs@.len(),
    ensures
        match r {
            Some(i) => i == last_slash(cs@.take(end as int)),
            None => last_slash(cs@.take(end as int)) == -1,
        },
{
    let mut i = end;
    while i > 0
        invariant
            i <= end <= cs@.len(),
            last_slash(cs@.take(end as int)) == last_slash(cs@.take(i as int)),
        decreases i,
    {
        let ghost t = cs@.take(i as int);
        assert(t.drop_last() == cs@.take(i - 1));
        if cs[i - 1] == '/' {
            return Some(i - 1);
        }
        i = i - 1;
    }
    None
}

fn is_dot_component(cs: &[char], start: usize, end: usize, dots: usize) -> (b: bool)
    requires
        start <= end <= cs@.len(),
        dots == 1 || dots == 2,
    ensures
        b == (cs@.subrange(start as int, end as int) == Seq::new(dots as nat, |i: int| '.')),
{
    if end - start != dots {
        assert(cs@.subrange(start as int, end as int).len() != Seq::new(dots as nat, |i: int| '.').len());
        return false;
    }
    let mut i = start;
    while i < end
        invariant
            start <= i <= end <= cs@.len(),
            end - start == dots,
            forall|k: int| start <= k < i ==> cs@[k] == '.',
        decreases end - i,
    {
        if cs[i] != '.' {
            assert(cs@.subrange(start as int, end as int)[i - start] != '.');
            return false;
        }
        i = i + 1;
    }
    assert(cs@.subrange(start as int, end as int) =~= Seq::new(dots as nat, |i: int| '.'));
    true
}

/// `Path::file_name` on the text of a path.
pub fn file_name_of(path: &str) -> (r: Option<String>)
    ensures
        match file_name(path@) {
            Some(n) => r matches Some(s) && s@ == n,
            None => r is None,
        },
{
    let cs = chars_of(path);
    let mut end = cs.len();
    assert(cs@.take(end as int) == cs@);
    loop
        invariant
            end <= cs@.len(),
            cs@ == path@,
            file_name(cs@.take(end as int)) == file_name(path@),
        decreases end,
    {
        let ghost p = cs@.take(end as int);
        let ls = last_slash_before(cs.as_slice(), end);
        proof {
            lemma_last_slash_bounds(p);
        }
        let start: usize = match ls {
            Some(k) => k + 1,
            None => 0,
        };
        assert(p.subrange(last_slash(p) + 1, p.len() as int) == cs@.subrange(start as int, end as int));
        assert(seq!['.'] == Seq::new(1, |i: int| '.'));
        assert(seq!['.', '.'] == Seq::new(2, |i: int| '.'));
        if start == end || is_dot_component(cs.as_slice(), start, end, 1) {
            match ls {
                Some(k) => {
                    assert(p.subrange(0, k as int) == cs@.take(k as int));
                    end = k;
                },
                None => {
                    return None;
                },
            }
        } else if is_dot_component(cs.as_slice(), start, end, 2) {
            return None;
        } else {
            let mut name: Vec<char> = Vec::new();
            let mut i = start;
            while i < end
                invariant
                    start <= i <= end <= cs@.len(),
                    name@ == cs@.subrange(start as int, i as int),
                decreases end - i,
            {
                assert(cs@.subrange(start as int, i + 1) == name@.push(cs@[i as int]));
                name.push(cs[i]);
                i = i + 1;
            }
            return Some(string_from_chars(name.as_slice()));
        }
    }
}

/// `Path::join` on the texts of a directory and a name.
pub fn join_path(base: &str, name: &str) -> (r: String)
    ensures
        r@ == path_join(base@, name@),
{
    let bs = chars_of(base);
    let ns = chars_of(name);
    if ns.len() > 0 && ns[0] == '/' {
        return String::from_str(name);
    }
    let mut r = String::from_str(base);
    if bs.len() > 0 && bs[bs.len() - 1] != '/' {
        push_char(&mut r, '/');
    }
    push_str(&mut r, name);
    r
}

/// `str::replace(pat, "")` for a non-empty pattern.
pub fn remove_all_of(s: &str, pat: &str) -> (r: String)
    requires
        pat@.len() > 0,
    ensures
        r@ == remove_all(s@, pat@),
{
    let cs = chars_of(s);
    let ps = chars_of(pat);
    let n = cs.len();
    let m = ps.len();
    let mut out: Vec<char> = Vec::new();
    let mut i: usize = 0;
    assert(cs@.skip(0) == cs@);
    while i < n
        invariant
            n == cs@.len(),
            m == ps@.len() > 0,
            cs@ == s@,
            ps@ == pat@,
            i <= n,
            out@ + remove_all(cs@.skip(i as int), ps@) == remove_all(s@, pat@),
        decreases n - i,
    {
        let ghost rest = cs@.skip(i as int);
        let mut matches = n - i >= m;
        if matches {
            let mut k: usize = 0;
            while k < m
                invariant
                    k <= m,
                    i + m <= n,
                    n == cs@.len(),
                    m == ps@.len(),
                    matches ==> forall|j: int| 0 <= j < k ==> cs@[i + j] == ps@[j],
                    !matches ==> cs@.subrange(i as int, i + m) != ps@,
                decreases m - k,
            {
                if cs[i + k] != ps[k] {
                    assert(cs@.subrange(i as int, i + m)[k as int] != ps@[k as int]);
                    matches = false;
                }
                k = k + 1;
            }
            if matches {
                assert(cs@.subrange(i as int, i + m) =~= ps@);
            }
        }
        assert(rest.len() >= m ==> rest.subrange(0, m as int) == cs@.subrange(i as int, i + m));
        if matches {
            assert(rest.skip(m as int) == cs@.skip(i + m));
            i = i + m;
        } else {
            assert(rest.skip(1) == cs@.skip(i + 1));
            assert(out@ + remove_all(rest, ps@) == out@.push(cs@[i as int]) + remove_all(
                cs@.skip(i + 1),
                ps@,
            ));
            out.push(cs[i]);
            i = i + 1;
        }
    }
    assert(out@ + remove_all(cs@.skip(n as int), ps@) == out@);
    string_from_chars(out.as_slice())
}

/// `s` with every non-overlapping occurrence of the non-empty `pat` replaced by `to`,
/// scanning from the left as `str::replace` does.
pub open spec fn replace_all(s: Seq<char>, pat: Seq<char>, to: Seq<char>) -> Seq<char>
    decreases s.len(),
{
    if s.len() == 0 {
        s
    } else if pat.len() > 0 && s.len() >= pat.len() && s.subrange(0, pat.len() as int) == pat {
        to + replace_all(s.skip(pat.len() as int), pat, to)
    } else {
        seq![s[0]] + replace_all(s.skip(1), pat, to)
    }
}

/// `str::replace(pat, to)` for a non-empty pattern.
pub fn replace_all_of(s: &str, pat: &str, to: &str) -> (r: String)
    requires
        pat@.len() > 0,
    ensures
        r@ == replace_all(s@, pat@, to@),
{
    let cs = chars_of(s);
    let ps = chars_of(pat);
    let ts = chars_of(to);
    let n = cs.len();
    let m = ps.len();
    let mut out: Vec<char> = Vec::new();
    let mut i: usize = 0;
    assert(cs@.skip(0) == cs@);
    while i < n
        invariant
            n == cs@.len(),
            m == ps@.len() > 0,
            cs@ == s@,
            ps@ == pat@,
            ts@ == to@,
            i <= n,
            out@ + replace_all(cs@.skip(i as int), ps@, ts@) == replace_all(s@, pat@, to@),
        decreases n - i,
    {
        let ghost rest = cs@.skip(i as int);
        let mut matches = n - i >= m;
        if matches {
            let mut k: usize = 0;
            while k < m
                invariant
                    k <= m,
                    i + m <= n,
                    n == cs@.len(),
                    m == ps@.len(),
                    matches ==> forall|j: int| 0 <= j < k ==> cs@[i + j] == ps@[j],
                    !matches ==> cs@.subrange(i as int, i + m) != ps@,
                decreases m - k,
            {
                if cs[i + k] != ps[k] {
                    assert(cs@.subrange(i as int, i + m)[k as int] != ps@[k as int]);
                    matches = false;
                }
                k = k + 1;
            }
            if matches {
                assert(cs@.subrange(i as int, i + m) =~= ps@);
            }
        }
        assert(rest.len() >= m ==> rest.subrange(0, m as int) == cs@.subrange(i as int, i + m));
        if matches {
            assert(rest.skip(m as int) == cs@.skip(i + m));
            let ghost before = out@;
            let mut k: usize = 0;
            while k < ts.len()
                invariant
                    k <= ts@.len(),
                    out@ == before + ts@.take(k as int),
                decreases ts@.len() - k,
            {
                out.push(ts[k]);
                assert(ts@.take(k + 1) == ts@.take(k as int).push(ts@[k as int]));
                k = k + 1;
            }
            assert(ts@.take(ts@.len() as int) == ts@);
            assert(out@ + replace_all(cs@.skip(i + m), ps@, ts@) == before + (ts@ + replace_all(
                rest.skip(m as int),
                ps@,
                ts@,
            )));
            i = i + m;
        } else {
            assert(rest.skip(1) == cs@.skip(i + 1));
            assert(out@ + replace_all(rest, ps@, ts@) == out@.push(cs@[i as int]) + replace_all(
                cs@.skip(i + 1),
                ps@,
                ts@,
            ));
            out.push(cs[i]);
            i = i + 1;
        }
    }
    assert(out@ + replace_all(cs@.skip(n as int), ps@, ts@) == out@);
    string_from_chars(out.as_slice())
}

/// Index of the last `.` in `p`, or -1.
pub open spec fn last_dot(p: Seq<char>) -> int
    decreases p.len(),
{
    if p.len() == 0 {
        -1
    } else if p.last() == '.' {
        p.len() - 1
    } else {
        last_dot(p.drop_last())
    }
}

/// The extension of the last component, as `Path::extension` gives it: the text after its
/// last `.`, when that dot is not the component's first character.
pub open spec fn path_extension(p: Seq<char>) -> Option<Seq<char>> {
    match file_name(p) {
        None => None,
        Some(f) => {
            let d = last_dot(f);
            if d <= 0 {
                None
            } else {
                Some(f.subrange(d + 1, f.len() as int))
            }
        },
    }
}

/// `last_dot` is -1 or an index of `p`.
pub proof fn lemma_last_dot_bounds(p: Seq<char>)
    ensures
        -1 <= last_dot(p) < p.len(),
    decreases p.len(),
{
    if p.len() > 0 && p.last() != '.' {
        lemma_last_dot_bounds(p.drop_last());
    }
}

/// `Path::extension` on the text of a path.
pub fn extension_of(path: &str) -> (r: Option<String>)
    ensures
        match path_extension(path@) {
            Some(e) => r matches Some(s) && s@ == e,
            None => r is None,
        },
{
    let name = match file_name_of(path) {
        Some(n) => n,
        None => return None,
    };
    let cs = chars_of(name.as_str());
    let mut i = cs.len();
    assert(cs@.take(i as int) == cs@);
    while i > 0
        invariant
            i <= cs@.len(),
            cs@ == name@,
            file_name(path@) == Some(name@),
            last_dot(cs@) == last_dot(cs@.take(i as int)),
        decreases i,
    {
        assert(cs@.take(i as int).drop_last() == cs@.take(i - 1));
        if cs[i - 1] == '.' {
            assert(cs@.take(i as int).last() == '.');
            assert(last_dot(cs@) == i - 1);
            if i - 1 == 0 {
                return None;
            }
            let mut ext: Vec<char> = Vec::new();
            let mut k = i;
            while k < cs.len()
                invariant
                    i <= k <= cs@.len(),
                    ext@ == cs@.subrange(i as int, k as int),
                decreases cs@.len() - k,
            {
                assert(cs@.subrange(i as int, k + 1) == ext@.push(cs@[k as int]));
                ext.push(cs[k]);
                k = k + 1;
            }
            return Some(string_from_chars(ext.as_slice()));
        }
        i = i - 1;
    }
    None
}

} // verus!
