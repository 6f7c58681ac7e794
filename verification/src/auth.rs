//! Optional password protection: the configured password, the session token derived
//! from it, and the cookie that carries the token.
use crate::digest::{hex_digit_lower, hex_lower, hex_lower_spec, sha1_digest, sha1_spec};
use crate::text::{
    chars_eq, chars_of, is_whitespace_spec, push_str, skip_back, skip_front, trim, trim_spec,
};
use vstd::prelude::*;
use vstd::string::StringSliceAdditionalSpecFns;
use vstd::utf8::encode_utf8;

verus! {

/// The name of the session cookie.
pub open spec fn session_cookie_name() -> Seq<char> {
    "lumiflow_session"@
}

/// The password setting counts only when it is not blank.
pub open spec fn configured_password_spec(raw: Option<Seq<char>>) -> Option<Seq<char>> {
    match raw {
        Some(v) => if trim_spec(v).len() > 0 {
            Some(v)
        } else {
            None
        },
        None => None,
    }
}

/// The password from the raw `LUMIFLOW_PASSWORD` setting: `None` when it is unset or
/// blank; the value itself, untrimmed, otherwise.
pub fn configured_password(raw: Option<&str>) -> (r: Option<String>)
    ensures
        match r {
            Some(p) => configured_password_spec(match raw {
                Some(v) => Some(v@),
                None => None,
            }) == Some(p@),
            None => configured_password_spec(match raw {
                Some(v) => Some(v@),
                None => None,
            }) is None,
        },
{
    match raw {
        Some(v) => {
            let chars = chars_of(v);
            let t = trim(chars.as_slice());
            if t.len() > 0 {
                Some(v.to_owned())
            } else {
                None
            }
        },
        None => None,
    }
}

/// Whether a password protects the library.
pub fn enabled(password: Option<&str>) -> (r: bool)
    ensures
        r == password is Some,
{
    password.is_some()
}

/// Whether `candidate` is the configured password; never when none is configured.
pub fn password_matches(password: Option<&str>, candidate: &str) -> (r: bool)
    ensures
        r == (password matches Some(p) && p@ == candidate@),
{
    match password {
        Some(p) => {
            let a = chars_of(p);
            let b = chars_of(candidate);
            chars_eq(a.as_slice(), b.as_slice())
        },
        None => false,
    }
}

/// The bytes a session token is the SHA-1 of: a fixed label, a NUL, then the password.
pub open spec fn session_token_input(password: Seq<char>) -> Seq<u8> {
    encode_utf8("lumiflow-session-v1"@) + seq![0u8] + encode_utf8(password)
}

/// The session token of a password: lower-case hex of the SHA-1 of
/// [`session_token_input`].
pub open spec fn session_token_spec(password: Seq<char>) -> Seq<char> {
    hex_lower_spec(sha1_spec(session_token_input(password)))
}

/// The session token for a password.
pub fn session_token(password: &str) -> (r: String)
    ensures
        r@ == session_token_spec(password@),
{
    let label = "lumiflow-session-v1";
    let mut input: Vec<u8> = Vec::new();
    let lb = label.as_bytes();
    let pb = password.as_bytes();
    let mut i: usize = 0;
    while i < lb.len()
        invariant
            i <= lb@.len(),
            input@ == lb@.subrange(0, i as int),
        decreases lb@.len() - i,
    {
        input.push(lb[i]);
        i = i + 1;
        assert(input@ =~= lb@.subrange(0, i as int));
    }
    input.push(0u8);
    let ghost head = input@;
    let mut j: usize = 0;
    while j < pb.len()
        invariant
            j <= pb@.len(),
            input@ == head + pb@.subrange(0, j as int),
        decreases pb@.len() - j,
    {
        input.push(pb[j]);
        j = j + 1;
        assert(input@ =~= head + pb@.subrange(0, j as int));
    }
    assert(lb@.subrange(0, lb@.len() as int) =~= lb@);
    assert(pb@.subrange(0, pb@.len() as int) =~= pb@);
    assert(label.spec_bytes() == encode_utf8(label@));
    assert(password.spec_bytes() == encode_utf8(password@));
    assert(input@ =~= session_token_input(password@));
    let digest = sha1_digest(input.as_slice());
    hex_lower(digest.as_slice())
}

/// The token a cookie header carries: the value of the first `;`-separated entry that,
/// trimmed, starts with `lumiflow_session=`.
pub open spec fn cookie_token_spec(entries: Seq<Seq<char>>) -> Option<Seq<char>>
    decreases entries.len(),
{
    if entries.len() == 0 {
        None
    } else {
        let e = trim_spec(entries[0]);
        let prefix = session_cookie_name() + "="@;
        if prefix.len() <= e.len() && e.subrange(0, prefix.len() as int) == prefix {
            Some(e.subrange(prefix.len() as int, e.len() as int))
        } else {
            cookie_token_spec(entries.drop_first())
        }
    }
}

/// A request passes when no password is configured, or when its cookie header carries
/// the password's session token.
pub open spec fn authenticate_spec(password: Option<Seq<char>>, cookie_entries: Option<Seq<Seq<char>>>) -> bool {
    match password {
        None => true,
        Some(p) => match cookie_entries {
            None => false,
            Some(entries) => cookie_token_spec(entries) == Some(session_token_spec(p)),
        },
    }
}

/// Whether a request is allowed. `cookie` is the `Cookie` header as text, `None` when
/// absent or not visible ASCII.
pub fn authenticate(password: Option<&str>, cookie: Option<&str>) -> (r: bool)
    ensures
        r == authenticate_spec(
            match password {
                Some(p) => Some(p@),
                None => None,
            },
            match cookie {
                Some(c) => Some(crate::text::split_spec(c@, ';')),
                None => None,
            },
        ),
{
    let p = match password {
        Some(p) => p,
        None => return true,
    };
    let c = match cookie {
        Some(c) => c,
        None => return false,
    };
    let entries = crate::text::split_char(c, ';');
    let token = match cookie_token(entries.as_slice()) {
        Some(t) => t,
        None => return false,
    };
    let expected = session_token(p);
    let e = chars_of(expected.as_str());
    chars_eq(token.as_slice(), e.as_slice())
}

fn cookie_token(entries: &[Vec<char>]) -> (r: Option<Vec<char>>)
    ensures
        match r {
            Some(t) => cookie_token_spec(entries@.map_values(|e: Vec<char>| e@)) == Some(t@),
            None => cookie_token_spec(entries@.map_values(|e: Vec<char>| e@)) is None,
        },
{
    let ghost views = entries@.map_values(|e: Vec<char>| e@);
    let prefix_str = "lumiflow_session=";
    let prefix = chars_of(prefix_str);
    proof {
        reveal_strlit("lumiflow_session=");
        reveal_strlit("lumiflow_session");
        reveal_strlit("=");
        assert(prefix@ =~= session_cookie_name() + "="@);
    }
    let mut k: usize = 0;
    assert(views.subrange(0, views.len() as int) =~= views);
    while k < entries.len()
        invariant
            k <= entries@.len(),
            views == entries@.map_values(|e: Vec<char>| e@),
            prefix@ == session_cookie_name() + "="@,
            cookie_token_spec(views) == cookie_token_spec(views.subrange(k as int, views.len() as int)),
        decreases entries@.len() - k,
    {
        let e = trim(entries[k].as_slice());
        let ghost rest = views.subrange(k as int, views.len() as int);
        assert(rest[0] == entries@[k as int]@);
        assert(rest.drop_first() =~= views.subrange(k + 1, views.len() as int));
        if crate::text::starts_with(e.as_slice(), prefix.as_slice()) {
            let token = crate::text::slice_range(e.as_slice(), prefix.len(), e.len());
            return Some(token);
        }
        k = k + 1;
    }
    assert(views.subrange(k as int, views.len() as int).len() == 0);
    None
}

/// The `Set-Cookie` value that stores the session token of a password for a week.
pub open spec fn session_cookie_spec(password: Seq<char>) -> Seq<char> {
    session_cookie_name() + "="@ + session_token_spec(password) + "; Path=/; HttpOnly; SameSite=Strict; Max-Age=604800"@
}

/// The cookie that signs a browser in; with no password configured, the token of the
/// empty password.
pub fn session_cookie(password: Option<&str>) -> (r: String)
    ensures
        r@ == session_cookie_spec(match password {
            Some(p) => p@,
            None => Seq::empty(),
        }),
{
    let token = match password {
        Some(p) => session_token(p),
        None => session_token(""),
    };
    proof {
        reveal_strlit("");
    }
    let mut r = String::new();
    push_str(&mut r, "lumiflow_session");
    push_str(&mut r, "=");
    push_str(&mut r, token.as_str());
    push_str(&mut r, "; Path=/; HttpOnly; SameSite=Strict; Max-Age=604800");
    r
}

/// The `Set-Cookie` value that signs a browser out.
pub fn clear_session_cookie() -> (r: &'static str)
    ensures
        r@ == "lumiflow_session=; Path=/; HttpOnly; SameSite=Strict; Max-Age=0"@,
{
    "lumiflow_session=; Path=/; HttpOnly; SameSite=Strict; Max-Age=0"
}


/// The cookie entry a browser sends back after [`session_cookie`]: `lumiflow_session=`
/// and the token.
pub open spec fn session_pair_spec(password: Seq<char>) -> Seq<char> {
    session_cookie_name() + "="@ + session_token_spec(password)
}

proof fn lemma_hex_last_not_whitespace(bytes: Seq<u8>)
    requires
        bytes.len() > 0,
    ensures
        !is_whitespace_spec(hex_lower_spec(bytes).last()),
{
    let v = bytes.last() as int % 16;
    assert(hex_lower_spec(bytes).last() == hex_digit_lower(v));
    assert(0 <= v < 16);
}

/// A browser signed in with a password stays signed in: a `Cookie` header whose first
/// entry is the pair [`session_cookie`] set for that password passes [`authenticate`],
/// whatever entries follow.
pub proof fn lemma_session_cookie_signs_in(password: Seq<char>, others: Seq<Seq<char>>)
    ensures
        authenticate_spec(Some(password), Some(seq![session_pair_spec(password)] + others)),
{
    let t = session_token_spec(password);
    let prefix = session_cookie_name() + "="@;
    let e = session_pair_spec(password);
    let entries = seq![e] + others;
    reveal_strlit("lumiflow_session");
    reveal_strlit("=");
    assert(prefix.len() == 17);
    assert(e =~= prefix + t);
    assert(e[0] == 'l');
    let ws = |c: char| is_whitespace_spec(c);
    assert(skip_front(e, 0, ws) == 0);
    if t.len() > 0 {
        assert(sha1_spec(session_token_input(password)).len() > 0) by {
            if sha1_spec(session_token_input(password)).len() == 0 {
                assert(hex_lower_spec(sha1_spec(session_token_input(password))) =~= Seq::<char>::empty());
            }
        }
        lemma_hex_last_not_whitespace(sha1_spec(session_token_input(password)));
        assert(e[e.len() - 1] == t.last());
    } else {
        assert(e[e.len() - 1] == '=');
    }
    assert(skip_back(e, 0, e.len() as int, ws) == e.len());
    assert(trim_spec(e) =~= e);
    assert(entries[0] == e);
    assert(e.subrange(0, prefix.len() as int) =~= prefix);
    assert(e.subrange(prefix.len() as int, e.len() as int) =~= t);
}

} // verus!
