//! Unix path arithmetic as `std::path::Path` performs it on `/`-separated strings:
//! joining, the last component, and its extension.
use vstd::prelude::*;

verus! {

/// The index of the last occurrence of `c` in `s`, or -1.
pub open spec fn last_index_of(s: Seq<char>, c: char) -> int
    decreases s.len(),
{
    if s.len() == 0 {
        -1
    } else if s.last() == c {
        s.len() - 1
    } else {
        last_index_of(s.drop_last(), c)
    }
}

pub proof fn lemma_last_index_of_bounds(s: Seq<char>, c: char)
    ensures
        -1 <= last_index_of(s, c) < s.len(),
        last_index_of(s, c) >= 0 ==> s[last_index_of(s, c)] == c,
        forall|j: int| last_index_of(s, c) < j < s.len() ==> s[j] != c,
    decreases s.len(),
{
    if s.len() > 0 && s.last() != c {
        lemma_last_index_of_bounds(s.drop_last(), c);
        assert forall|j: int| last_index_of(s, c) < j < s.len() implies s[j] != c by {
            if j < s.len() - 1 {
                assert(s[j] == s.drop_last()[j]);
            }
        }
    }
}

/// Without a `c`, there is no last one.
pub proof fn lemma_last_index_absent(s: Seq<char>, c: char)
    requires
        forall|i: int| 0 <= i < s.len() ==> s[i] != c,
    ensures
        last_index_of(s, c) == -1,
    decreases s.len(),
{
    if s.len() > 0 {
        lemma_last_index_absent(s.drop_last(), c);
    }
}

/// A tail without a `c` leaves the last `c` where it was.
pub proof fn lemma_last_index_suffix(a: Seq<char>, b: Seq<char>, c: char)
    requires
        forall|i: int| 0 <= i < b.len() ==> b[i] != c,
    ensures
        last_index_of(a + b, c) == last_index_of(a, c),
    decreases b.len(),
{
    if b.len() == 0 {
        assert(a + b =~= a);
    } else {
        assert((a + b).drop_last() =~= a + b.drop_last());
        lemma_last_index_suffix(a, b.drop_last(), c);
    }
}

/// The position of the last `c` in `s`, if any.
pub fn find_last(s: &[char], c: char) -> (r: Option<usize>)
    ensures
        match r {
            Some(i) => i == last_index_of(s@, c),
            None => last_index_of(s@, c) == -1,
        },
{
    let mut i = s.len();
    assert(s@.subrange(0, i as int) =~= s@);
    while i > 0
        invariant
            i <= s@.len(),
            last_index_of(s@, c) == last_index_of(s@.subrange(0, i as int), c),
        decreases i,
    {
        if s[i - 1] == c {
            assert(s@.subrange(0, i as int).last() == c);
            return Some(i - 1);
        }
        assert(s@.subrange(0, i as int).drop_last() =~= s@.subrange(0, i - 1));
        i = i - 1;
    }
    None
}

/// `Path::join` on Unix: an absolute `part` replaces `base`; otherwise a `/` is put
/// between them unless `base` is empty or already ends with one.
pub open spec fn join_spec(base: Seq<char>, part: Seq<char>) -> Seq<char> {
    if part.len() > 0 && part[0] == '/' {
        part
    } else if base.len() == 0 || base.last() == '/' {
        base + part
    } else {
        base + seq!['/'] + part
    }
}

/// Joins a path component onto a base path.
pub fn join(base: &str, part: &str) -> (r: String)
    ensures
        r@ == join_spec(base@, part@),
{
    let b = crate::text::chars_of(base);
    let p = crate::text::chars_of(part);
    if p.len() > 0 && p[0] == '/' {
        crate::text::owned(part)
    } else if b.len() == 0 || b[b.len() - 1] == '/' {
        crate::text::concat(base, part)
    } else {
        let mut r = crate::text::owned(base);
        crate::text::push_char(&mut r, '/');
        crate::text::push_str(&mut r, part);
        r
    }
}

/// `s` without its trailing `/` characters.
pub open spec fn strip_trailing_slashes(s: Seq<char>) -> Seq<char>
    decreases s.len(),
{
    if s.len() > 0 && s.last() == '/' {
        strip_trailing_slashes(s.drop_last())
    } else {
        s
    }
}

/// `Path::file_name`: the last normal component, skipping `.` components and trailing
/// separators; none for an empty path, the root, or a final `..`.
pub open spec fn file_name_spec(s: Seq<char>) -> Option<Seq<char>>
    decreases s.len(),
{
    let t = strip_trailing_slashes(s);
    if t.len() == 0 {
        None
    } else {
        let k = last_index_of(t, '/');
        let seg = t.subrange(k + 1, t.len() as int);
        if seg == seq!['.'] {
            if k < 0 {
                None
            } else {
                proof {
                    lemma_strip_trailing_len(s);
                    lemma_last_index_of_bounds(t, '/');
                }
                file_name_spec(t.subrange(0, k))
            }
        } else if seg == seq!['.', '.'] {
            None
        } else {
            Some(seg)
        }
    }
}

/// The extension of a file name: the text after its last `.`, unless there is no `.`
/// or the only `.` is the first character.
pub open spec fn name_extension_spec(name: Seq<char>) -> Option<Seq<char>> {
    let k = last_index_of(name, '.');
    if k <= 0 {
        None
    } else {
        Some(name.subrange(k + 1, name.len() as int))
    }
}

/// `Path::extension`.
pub open spec fn extension_spec(path: Seq<char>) -> Option<Seq<char>> {
    match file_name_spec(path) {
        Some(name) => name_extension_spec(name),
        None => None,
    }
}

pub proof fn lemma_strip_trailing_len(s: Seq<char>)
    ensures
        strip_trailing_slashes(s).len() <= s.len(),
        strip_trailing_slashes(s) == s.subrange(0, strip_trailing_slashes(s).len() as int),
    decreases s.len(),
{
    if s.len() > 0 && s.last() == '/' {
        lemma_strip_trailing_len(s.drop_last());
        let r = strip_trailing_slashes(s.drop_last());
        assert(r =~= s.subrange(0, r.len() as int));
    } else {
        assert(s =~= s.subrange(0, s.len() as int));
    }
}

/// The last normal component of a path (`Path::file_name`).
pub fn file_name(path: &[char]) -> (r: Option<Vec<char>>)
    ensures
        match r {
            Some(v) => file_name_spec(path@) == Some(v@),
            None => file_name_spec(path@) is None,
        },
    decreases path@.len(),
{
    let mut end = path.len();
    assert(path@.subrange(0, end as int) =~= path@);
    while end > 0 && path[end - 1] == '/'
        invariant
            end <= path@.len(),
            strip_trailing_slashes(path@) == strip_trailing_slashes(path@.subrange(0, end as int)),
        decreases end,
    {
        assert(path@.subrange(0, end as int).drop_last() =~= path@.subrange(0, end - 1));
        end = end - 1;
    }
    let t = crate::text::slice_range(path, 0, end);
    assert(strip_trailing_slashes(t@) == t@);
    if t.len() == 0 {
        return None;
    }
    proof {
        lemma_last_index_of_bounds(t@, '/');
    }
    let start = match find_last(t.as_slice(), '/') {
        Some(k) => k + 1,
        None => 0,
    };
    let seg = crate::text::slice_range(t.as_slice(), start, t.len());
    let dot = ['.'];
    let dotdot = ['.', '.'];
    assert(dot@ =~= seq!['.']);
    assert(dotdot@ =~= seq!['.', '.']);
    if crate::text::chars_eq(seg.as_slice(), dot.as_slice()) {
        if start == 0 {
            None
        } else {
            let rest = crate::text::slice_range(t.as_slice(), 0, start - 1);
            file_name(rest.as_slice())
        }
    } else if crate::text::chars_eq(seg.as_slice(), dotdot.as_slice()) {
        None
    } else {
        Some(seg)
    }
}

/// The extension of a file name.
pub fn name_extension(name: &[char]) -> (r: Option<Vec<char>>)
    ensures
        match r {
            Some(v) => name_extension_spec(name@) == Some(v@),
            None => name_extension_spec(name@) is None,
        },
{
    proof {
        lemma_last_index_of_bounds(name@, '.');
    }
    match find_last(name, '.') {
        Some(k) => {
            assert(k < name@.len());
            assert(name@.len() == name.len());
            if k == 0 {
                None
            } else {
                Some(crate::text::slice_range(name, k + 1, name.len()))
            }
        },
        None => None,
    }
}

/// The extension of a path (`Path::extension`).
pub fn extension(path: &[char]) -> (r: Option<Vec<char>>)
    ensures
        match r {
            Some(v) => extension_spec(path@) == Some(v@),
            None => extension_spec(path@) is None,
        },
{
    match file_name(path) {
        Some(name) => name_extension(name.as_slice()),
        None => None,
    }
}

} // verus!
