//! Character-level string helpers shared by the library, each proved against a
//! specification over `Seq<char>`.
use vstd::prelude::*;
use vstd::std_specs::iter::IteratorSpec;

verus! {

broadcast use vstd::string::group_string_axioms;

/// The characters of a string slice, in order.
pub fn chars_of(s: &str) -> (v: Vec<char>)
    ensures
        v@ == s@,
{
    let mut it = s.chars();
    let mut v: Vec<char> = Vec::new();
    loop
        invariant
            it.obeys_prophetic_iter_laws(),
            v@ + it.remaining() == s@,
        decreases s@.len() - v@.len(),
    {
        let ghost before = it.remaining();
        match it.next() {
            Some(c) => {
                proof {
                    assert(before.len() > 0);
                }
                v.push(c);
                assert(v@ + it.remaining() =~= s@);
            },
            None => {
                assert(v@ =~= s@);
                return v;
            },
        }
    }
}

/// `String::push`. Trusted: the string afterwards is the one before with the character
/// appended, as its documentation says.
#[verifier::external_body]
pub(crate) fn push_char(s: &mut String, c: char)
    ensures
        final(s)@ == old(s)@.push(c),
{
    s.push(c);
}

/// `String::push_str`. Trusted: the string afterwards is the one before followed by the
/// slice, as its documentation says.
#[verifier::external_body]
pub(crate) fn push_str(s: &mut String, t: &str)
    ensures
        final(s)@ == old(s)@ + t@,
{
    s.push_str(t);
}

/// Builds a string from a character sequence.
pub fn string_from_chars(v: &[char]) -> (s: String)
    ensures
        s@ == v@,
{
    let mut s = String::new();
    let mut i: usize = 0;
    while i < v.len()
        invariant
            i <= v@.len(),
            s@ == v@.subrange(0, i as int),
        decreases v@.len() - i,
    {
        push_char(&mut s, v[i]);
        i = i + 1;
        assert(s@ =~= v@.subrange(0, i as int));
    }
    assert(s@ =~= v@);
    s
}

/// A copy of a string slice as an owned string.
pub fn owned(s: &str) -> (r: String)
    ensures
        r@ == s@,
{
    s.to_owned()
}

/// Concatenation of two strings.
pub fn concat(a: &str, b: &str) -> (r: String)
    ensures
        r@ == a@ + b@,
{
    let mut r = a.to_owned();
    push_str(&mut r, b);
    r
}

/// Characters with the Unicode `White_Space` property.
pub open spec fn is_whitespace_spec(c: char) -> bool {
    let u = c as u32;
    (0x09 <= u && u <= 0x0d) || u == 0x20 || u == 0x85 || u == 0xa0 || u == 0x1680 || (0x2000
        <= u && u <= 0x200a) || u == 0x2028 || u == 0x2029 || u == 0x202f || u == 0x205f || u
        == 0x3000
}

/// Whether a character is Unicode white space.
pub fn is_whitespace(c: char) -> (b: bool)
    ensures
        b == is_whitespace_spec(c),
{
    let u = c as u32;
    (0x09 <= u && u <= 0x0d) || u == 0x20 || u == 0x85 || u == 0xa0 || u == 0x1680 || (0x2000
        <= u && u <= 0x200a) || u == 0x2028 || u == 0x2029 || u == 0x202f || u == 0x205f || u
        == 0x3000
}

/// The first index at or after `from` whose character is not in `drop`, scanning forward.
pub open spec fn skip_front(s: Seq<char>, from: int, drop: spec_fn(char) -> bool) -> int
    decreases s.len() - from,
{
    if from >= s.len() || !drop(s[from]) {
        from
    } else {
        skip_front(s, from + 1, drop)
    }
}

/// The end (exclusive) left after removing trailing characters in `drop`, never below `lo`.
pub open spec fn skip_back(s: Seq<char>, lo: int, to: int, drop: spec_fn(char) -> bool) -> int
    decreases to - lo,
{
    if to <= lo || !drop(s[to - 1]) {
        to
    } else {
        skip_back(s, lo, to - 1, drop)
    }
}

/// `s` with leading and trailing characters satisfying `drop` removed.
pub open spec fn trim_by(s: Seq<char>, drop: spec_fn(char) -> bool) -> Seq<char> {
    let lo = skip_front(s, 0, drop);
    s.subrange(lo, skip_back(s, lo, s.len() as int, drop))
}

/// `str::trim`: leading and trailing white space removed.
pub open spec fn trim_spec(s: Seq<char>) -> Seq<char> {
    trim_by(s, |c: char| is_whitespace_spec(c))
}

/// `str::trim_matches(c)`: leading and trailing copies of `c` removed.
pub open spec fn trim_char_spec(s: Seq<char>, c: char) -> Seq<char> {
    trim_by(s, equals_char(c))
}

/// The predicate "is the character `c`".
pub open spec fn equals_char(c: char) -> spec_fn(char) -> bool {
    |d: char| d == c
}

proof fn lemma_skip_front_bounds(s: Seq<char>, from: int, drop: spec_fn(char) -> bool)
    requires
        0 <= from <= s.len(),
    ensures
        from <= skip_front(s, from, drop) <= s.len(),
    decreases s.len() - from,
{
    if from < s.len() && drop(s[from]) {
        lemma_skip_front_bounds(s, from + 1, drop);
    }
}

proof fn lemma_skip_back_bounds(s: Seq<char>, lo: int, to: int, drop: spec_fn(char) -> bool)
    requires
        0 <= lo <= to <= s.len(),
    ensures
        lo <= skip_back(s, lo, to, drop) <= to,
    decreases to - lo,
{
    if to > lo && drop(s[to - 1]) {
        lemma_skip_back_bounds(s, lo, to - 1, drop);
    }
}

proof fn lemma_skip_front_stops(s: Seq<char>, from: int, drop: spec_fn(char) -> bool)
    requires
        0 <= from <= s.len(),
    ensures
        skip_front(s, from, drop) < s.len() ==> !drop(s[skip_front(s, from, drop)]),
    decreases s.len() - from,
{
    if from < s.len() && drop(s[from]) {
        lemma_skip_front_stops(s, from + 1, drop);
    }
}

proof fn lemma_skip_back_stops(s: Seq<char>, lo: int, to: int, drop: spec_fn(char) -> bool)
    requires
        0 <= lo <= to <= s.len(),
    ensures
        skip_back(s, lo, to, drop) > lo ==> !drop(s[skip_back(s, lo, to, drop) - 1]),
    decreases to - lo,
{
    if to > lo && drop(s[to - 1]) {
        lemma_skip_back_stops(s, lo, to - 1, drop);
    }
}

/// Trimming twice is trimming once.
pub proof fn lemma_trim_idempotent(s: Seq<char>)
    ensures
        trim_spec(trim_spec(s)) == trim_spec(s),
{
    let drop = |c: char| is_whitespace_spec(c);
    let lo = skip_front(s, 0, drop);
    lemma_skip_front_bounds(s, 0, drop);
    lemma_skip_front_stops(s, 0, drop);
    let hi = skip_back(s, lo, s.len() as int, drop);
    lemma_skip_back_bounds(s, lo, s.len() as int, drop);
    lemma_skip_back_stops(s, lo, s.len() as int, drop);
    let t = s.subrange(lo, hi);
    assert(trim_spec(s) == t);
    if t.len() > 0 {
        assert(t[0] == s[lo]);
        assert(skip_front(t, 0, drop) == 0);
        assert(t[t.len() - 1] == s[hi - 1]);
        assert(skip_back(t, 0, t.len() as int, drop) == t.len());
        assert(t.subrange(0, t.len() as int) =~= t);
    } else {
        assert(skip_front(t, 0, drop) == 0);
        assert(skip_back(t, 0, 0, drop) == 0);
        assert(t.subrange(0, 0) =~= t);
    }
}

/// Removes leading and trailing white space (`str::trim`).
pub fn trim(s: &[char]) -> (r: Vec<char>)
    ensures
        r@ == trim_spec(s@),
{
    let ghost drop = |c: char| is_whitespace_spec(c);
    let mut lo: usize = 0;
    while lo < s.len() && is_whitespace(s[lo])
        invariant
            lo <= s@.len(),
            drop == (|c: char| is_whitespace_spec(c)),
            skip_front(s@, lo as int, drop) == skip_front(s@, 0, drop),
        decreases s@.len() - lo,
    {
        assert(drop(s@[lo as int]));
        lo = lo + 1;
    }
    let mut hi: usize = s.len();
    while hi > lo && is_whitespace(s[hi - 1])
        invariant
            lo <= hi <= s@.len(),
            drop == (|c: char| is_whitespace_spec(c)),
            skip_front(s@, 0, drop) == lo,
            skip_back(s@, lo as int, hi as int, drop) == skip_back(s@, lo as int, s@.len() as int, drop),
        decreases hi,
    {
        assert(drop(s@[hi - 1]));
        hi = hi - 1;
    }
    if lo < s.len() {
        assert(!drop(s@[lo as int]));
    }
    if hi > lo {
        assert(!drop(s@[hi - 1]));
    }
    assert(skip_front(s@, lo as int, drop) == lo);
    assert(skip_back(s@, lo as int, hi as int, drop) == hi);
    slice_range(s, lo, hi)
}

/// Removes leading and trailing copies of `c` (`str::trim_matches`).
pub fn trim_char(s: &[char], c: char) -> (r: Vec<char>)
    ensures
        r@ == trim_char_spec(s@, c),
{
    let ghost drop = equals_char(c);
    let mut lo: usize = 0;
    while lo < s.len() && s[lo] == c
        invariant
            lo <= s@.len(),
            drop == equals_char(c),
            skip_front(s@, lo as int, drop) == skip_front(s@, 0, drop),
        decreases s@.len() - lo,
    {
        assert(drop(s@[lo as int]));
        lo = lo + 1;
    }
    let mut hi: usize = s.len();
    while hi > lo && s[hi - 1] == c
        invariant
            lo <= hi <= s@.len(),
            drop == equals_char(c),
            skip_front(s@, 0, drop) == lo,
            skip_back(s@, lo as int, hi as int, drop) == skip_back(s@, lo as int, s@.len() as int, drop),
        decreases hi,
    {
        assert(drop(s@[hi - 1]));
        hi = hi - 1;
    }
    if lo < s.len() {
        assert(!drop(s@[lo as int]));
    }
    if hi > lo {
        assert(!drop(s@[hi - 1]));
    }
    assert(skip_front(s@, lo as int, drop) == lo);
    assert(skip_back(s@, lo as int, hi as int, drop) == hi);
    slice_range(s, lo, hi)
}

/// A copy of `s[lo..hi]`.
pub fn slice_range(s: &[char], lo: usize, hi: usize) -> (r: Vec<char>)
    requires
        lo <= hi <= s@.len(),
    ensures
        r@ == s@.subrange(lo as int, hi as int),
{
    let mut r: Vec<char> = Vec::new();
    let mut i = lo;
    while i < hi
        invariant
            lo <= i <= hi <= s@.len(),
            r@ == s@.subrange(lo as int, i as int),
        decreases hi - i,
    {
        r.push(s[i]);
        i = i + 1;
        assert(r@ =~= s@.subrange(lo as int, i as int));
    }
    r
}

/// Whether two character sequences are equal.
pub fn chars_eq(a: &[char], b: &[char]) -> (eq: bool)
    ensures
        eq <==> a@ == b@,
{
    if a.len() != b.len() {
        return false;
    }
    let mut i: usize = 0;
    while i < a.len()
        invariant
            a@.len() == b@.len(),
            i <= a@.len(),
            a@.subrange(0, i as int) == b@.subrange(0, i as int),
        decreases a@.len() - i,
    {
        if a[i] != b[i] {
            assert(a@[i as int] != b@[i as int]);
            return false;
        }
        i = i + 1;
        assert(a@.subrange(0, i as int) =~= a@.subrange(0, i - 1).push(a@[i - 1]));
        assert(b@.subrange(0, i as int) =~= b@.subrange(0, i - 1).push(b@[i - 1]));
    }
    assert(a@ =~= a@.subrange(0, a@.len() as int));
    assert(b@ =~= b@.subrange(0, b@.len() as int));
    true
}

/// Whether `prefix` is a prefix of `s`.
pub fn starts_with(s: &[char], prefix: &[char]) -> (b: bool)
    ensures
        b <==> (prefix@.len() <= s@.len() && s@.subrange(0, prefix@.len() as int) == prefix@),
{
    if prefix.len() > s.len() {
        return false;
    }
    let head = slice_range(s, 0, prefix.len());
    chars_eq(&head, prefix)
}

/// Whether `suffix` is a suffix of `s`.
pub fn ends_with(s: &[char], suffix: &[char]) -> (b: bool)
    ensures
        b <==> (suffix@.len() <= s@.len() && s@.subrange(
            s@.len() - suffix@.len(),
            s@.len() as int,
        ) == suffix@),
{
    if suffix.len() > s.len() {
        return false;
    }
    let tail = slice_range(s, s.len() - suffix.len(), s.len());
    chars_eq(&tail, suffix)
}

} // verus!

verus! {

/// Whether a character sequence equals a string slice.
pub fn eq_str(v: &[char], lit: &str) -> (b: bool)
    ensures
        b <==> v@ == lit@,
{
    let l = chars_of(lit);
    chars_eq(v, l.as_slice())
}

/// Whether a string slice ends with another.
pub fn str_ends_with(s: &str, suffix: &str) -> (b: bool)
    ensures
        b <==> (suffix@.len() <= s@.len() && s@.subrange(s@.len() - suffix@.len(), s@.len() as int)
            == suffix@),
{
    let v = chars_of(s);
    let w = chars_of(suffix);
    ends_with(v.as_slice(), w.as_slice())
}

/// ASCII case folding of one character.
pub open spec fn ascii_lower_char(c: char) -> char {
    if 'A' <= c && c <= 'Z' {
        (((c as u32) + 32) as u8) as char
    } else {
        c
    }
}

/// ASCII lower-casing of a character sequence (`str::to_ascii_lowercase`).
pub open spec fn ascii_lower_spec(s: Seq<char>) -> Seq<char> {
    s.map_values(|c: char| ascii_lower_char(c))
}

/// `char::to_ascii_lowercase`.
pub fn to_ascii_lower_char(c: char) -> (r: char)
    ensures
        r == ascii_lower_char(c),
{
    if 'A' <= c && c <= 'Z' {
        ((c as u8) + 32) as char
    } else {
        c
    }
}

/// `str::to_ascii_lowercase`.
pub fn to_ascii_lower(s: &[char]) -> (r: Vec<char>)
    ensures
        r@ == ascii_lower_spec(s@),
{
    let mut r: Vec<char> = Vec::new();
    let mut i: usize = 0;
    while i < s.len()
        invariant
            i <= s@.len(),
            r@ == ascii_lower_spec(s@.subrange(0, i as int)),
        decreases s@.len() - i,
    {
        r.push(to_ascii_lower_char(s[i]));
        i = i + 1;
        assert(r@ =~= ascii_lower_spec(s@.subrange(0, i as int)));
    }
    assert(s@.subrange(0, s@.len() as int) =~= s@);
    r
}

/// `str::eq_ignore_ascii_case`.
pub fn eq_ignore_ascii_case(a: &[char], b: &[char]) -> (eq: bool)
    ensures
        eq <==> ascii_lower_spec(a@) == ascii_lower_spec(b@),
{
    let la = to_ascii_lower(a);
    let lb = to_ascii_lower(b);
    chars_eq(la.as_slice(), lb.as_slice())
}

/// Every character is ASCII.
pub open spec fn all_ascii(s: Seq<char>) -> bool {
    forall|i: int| 0 <= i < s.len() ==> (#[trigger] s[i] as u32) < 128
}

/// ASCII text encodes as UTF-8 one byte per character, each byte the character's code.
pub proof fn lemma_encode_ascii(s: Seq<char>)
    requires
        all_ascii(s),
    ensures
        vstd::utf8::encode_utf8(s).len() == s.len(),
        forall|i: int| 0 <= i < s.len() ==> #[trigger] vstd::utf8::encode_utf8(s)[i] as u32 == s[i] as u32,
    decreases s.len(),
{
    if s.len() > 0 {
        let c = s[0] as u32;
        assert(c < 128);
        assert((c & 0x7F) as u8 == c as u8) by (bit_vector)
            requires
                c < 128,
        ;
        assert(vstd::utf8::encode_scalar(c) =~= seq![c as u8]);
        let rest = s.drop_first();
        assert(all_ascii(rest)) by {
            assert forall|i: int| 0 <= i < rest.len() implies (#[trigger] rest[i] as u32) < 128 by {
                assert(rest[i] == s[i + 1]);
            }
        }
        lemma_encode_ascii(rest);
        let e = vstd::utf8::encode_utf8(s);
        assert(e == seq![c as u8] + vstd::utf8::encode_utf8(rest));
        assert forall|i: int| 0 <= i < s.len() implies #[trigger] vstd::utf8::encode_utf8(s)[i] as u32 == s[i] as u32 by {
            if i > 0 {
                assert(e[i] == vstd::utf8::encode_utf8(rest)[i - 1]);
                assert(rest[i - 1] == s[i]);
            } else {
                assert(e[0] == c as u8);
                assert((c as u8) as u32 == c);
            }
        }
    } else {
        assert(vstd::utf8::encode_utf8(s) =~= Seq::<u8>::empty());
    }
}

/// ASCII upper-casing of one character.
pub open spec fn ascii_upper_char(c: char) -> char {
    if 'a' <= c && c <= 'z' {
        (((c as u32) - 32) as u8) as char
    } else {
        c
    }
}

/// ASCII upper-casing of a character sequence (`str::to_ascii_uppercase`).
pub open spec fn ascii_upper_spec(s: Seq<char>) -> Seq<char> {
    s.map_values(|c: char| ascii_upper_char(c))
}

/// Unicode lower-casing as `str::to_lowercase` performs it.
pub uninterp spec fn to_lowercase_spec(s: Seq<char>) -> Seq<char>;

/// Unicode upper-casing as `str::to_uppercase` performs it.
pub uninterp spec fn to_uppercase_spec(s: Seq<char>) -> Seq<char>;

/// `str::to_lowercase`: the full Unicode lower-case mapping of the string. Trusted: the
/// result is the named mapping of the input characters, and on ASCII text, where the
/// Unicode mapping takes `A`-`Z` to `a`-`z` and keeps every other character, it is the
/// ASCII lower-casing.
#[verifier::external_body]
pub(crate) fn to_lowercase(s: &str) -> (r: String)
    ensures
        r@ == to_lowercase_spec(s@),
        all_ascii(s@) ==> r@ == ascii_lower_spec(s@),
{
    s.to_lowercase()
}

/// `str::to_uppercase`: the full Unicode upper-case mapping of the string. Trusted: the
/// result is the named mapping of the input characters, and on ASCII text, where the
/// Unicode mapping takes `a`-`z` to `A`-`Z` and keeps every other character, it is the
/// ASCII upper-casing.
#[verifier::external_body]
pub(crate) fn to_uppercase(s: &str) -> (r: String)
    ensures
        r@ == to_uppercase_spec(s@),
        all_ascii(s@) ==> r@ == ascii_upper_spec(s@),
{
    s.to_uppercase()
}

/// `str::split` on a character: the pieces between separators, empty ones included, so
/// there is always one more piece than separators.
pub open spec fn split_spec(s: Seq<char>, c: char) -> Seq<Seq<char>>
    decreases s.len(),
{
    if s.len() == 0 {
        seq![Seq::empty()]
    } else {
        let prev = split_spec(s.drop_last(), c);
        if s.last() == c {
            prev.push(Seq::empty())
        } else {
            prev.update(prev.len() - 1, prev.last().push(s.last()))
        }
    }
}

pub proof fn lemma_split_nonempty(s: Seq<char>, c: char)
    ensures
        split_spec(s, c).len() >= 1,
    decreases s.len(),
{
    if s.len() > 0 {
        lemma_split_nonempty(s.drop_last(), c);
    }
}

/// Splits `s` at every `c`.
pub fn split_char(s: &str, c: char) -> (r: Vec<Vec<char>>)
    ensures
        r@.map_values(|p: Vec<char>| p@) == split_spec(s@, c),
{
    let v = chars_of(s);
    let mut pieces: Vec<Vec<char>> = Vec::new();
    let mut cur: Vec<char> = Vec::new();
    let mut i: usize = 0;
    while i < v.len()
        invariant
            i <= v@.len(),
            v@ == s@,
            pieces@.map_values(|p: Vec<char>| p@).push(cur@) == split_spec(v@.subrange(0, i as int), c),
        decreases v@.len() - i,
    {
        let ghost pre = v@.subrange(0, i as int);
        let ghost old_pieces = pieces@.map_values(|p: Vec<char>| p@);
        proof {
            lemma_split_nonempty(pre, c);
            assert(v@.subrange(0, i + 1).drop_last() =~= pre);
            assert(v@.subrange(0, i + 1).last() == v@[i as int]);
        }
        if v[i] == c {
            let done = cur;
            pieces.push(done);
            cur = Vec::new();
            assert(pieces@.map_values(|p: Vec<char>| p@) =~= old_pieces.push(done@));
        } else {
            cur.push(v[i]);
        }
        i = i + 1;
        assert(pieces@.map_values(|p: Vec<char>| p@).push(cur@) =~= split_spec(v@.subrange(0, i as int), c));
    }
    let ghost before = pieces@.map_values(|p: Vec<char>| p@);
    pieces.push(cur);
    assert(v@.subrange(0, v@.len() as int) =~= v@);
    assert(pieces@.map_values(|p: Vec<char>| p@) =~= before.push(cur@));
    pieces
}

} // verus!
