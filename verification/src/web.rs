//! The web API: its error replies, the check of the key that guards it, and
//! the decisions of its configuration endpoint.

pub mod config;
pub mod device;
pub mod ws;

use vstd::prelude::*;
use crate::text::{chars_of, string_of, string_of_range};

verus! {

/// An error reply of the web API: HTTP status and message.
#[derive(Debug)]
pub struct WebServerError(pub u16, pub String);

/// The status and message of an error reply.
pub open spec fn error_view(e: WebServerError) -> (u16, Seq<char>) {
    (e.0, e.1@)
}

impl WebServerError {
    /// A reply with status 500.
    pub fn internal_error(message: String) -> (e: Self)
        ensures
            error_view(e) == (500u16, message@),
    {
        WebServerError(500, message)
    }

    /// A reply with status 400.
    pub fn bad_request(message: String) -> (e: Self)
        ensures
            error_view(e) == (400u16, message@),
    {
        WebServerError(400, message)
    }
}

/// The web server. The application starts it and serves its routes; the
/// library decides which requests it lets through and what its
/// configuration endpoint does.
pub struct Server;

/// Position of the first `&` in `s`, if any.
pub open spec fn first_amp(s: Seq<char>) -> Option<int>
    decreases s.len(),
{
    if s.len() == 0 {
        None
    } else if s[0] == '&' {
        Some(0)
    } else {
        match first_amp(s.drop_first()) {
            Some(i) => Some(i + 1),
            None => None,
        }
    }
}

proof fn lemma_first_amp(s: Seq<char>)
    ensures
        first_amp(s) matches Some(i) ==> 0 <= i < s.len() && s[i] == '&' && forall|j: int| 0 <= j < i ==> s[j] != '&',
        first_amp(s) is None ==> forall|j: int| 0 <= j < s.len() ==> s[j] != '&',
    decreases s.len(),
{
    if s.len() > 0 {
        lemma_first_amp(s.drop_first());
        if s[0] != '&' {
            assert forall|j: int| 1 <= j < s.len() implies s[j] == s.drop_first()[j - 1] by {}
        }
    }
}

/// The value of the first `token=` pair of a query string, whose pairs are
/// separated by `&`.
pub open spec fn query_token(q: Seq<char>) -> Option<Seq<char>>
    decreases q.len(),
{
    let end = match first_amp(q) {
        Some(i) => i,
        None => q.len() as int,
    };
    let pair = q.take(end);
    if pair.len() >= 6 && pair.take(6) == "token="@ {
        Some(pair.skip(6))
    } else {
        match first_amp(q) {
            Some(i) => if 0 <= i < q.len() { query_token(q.skip(i + 1)) } else { None },
            None => None,
        }
    }
}

/// The key a request presents: the `x-api-key` header when it has one, else
/// the `token` of the query string.
pub open spec fn request_key(header: Option<Seq<char>>, query: Option<Seq<char>>) -> Option<Seq<char>> {
    match header {
        Some(h) => Some(h),
        None => match query {
            Some(q) => query_token(q),
            None => None,
        },
    }
}

/// Whether `cs[from..]` starts with `token=`.
fn token_prefix_at(cs: &Vec<char>, from: usize, end: usize) -> (b: bool)
    requires
        from <= end <= cs@.len(),
    ensures
        b == (end - from >= 6 && cs@.subrange(from as int, end as int).take(6) == "token="@),
{
    proof {
        reveal_strlit("token=");
    }
    if end - from < 6 {
        return false;
    }
    let b = cs[from] == 't' && cs[from + 1] == 'o' && cs[from + 2] == 'k' && cs[from + 3] == 'e'
        && cs[from + 4] == 'n' && cs[from + 5] == '=';
    let ghost pair = cs@.subrange(from as int, end as int);
    if b {
        assert(pair.take(6) =~= "token="@);
    } else {
        assert(pair.take(6)[0] == cs@[from as int]);
        assert(pair.take(6)[1] == cs@[from + 1]);
        assert(pair.take(6)[2] == cs@[from + 2]);
        assert(pair.take(6)[3] == cs@[from + 3]);
        assert(pair.take(6)[4] == cs@[from + 4]);
        assert(pair.take(6)[5] == cs@[from + 5]);
    }
    b
}

/// The value of the first `token=` pair of a query string.
pub fn find_query_token(query: &str) -> (r: Option<String>)
    ensures
        match (r, query_token(query@)) {
            (Some(t), Some(u)) => t@ == u,
            (None, None) => true,
            _ => false,
        },
{
    let cs = chars_of(query);
    let n = cs.len();
    let mut pos: usize = 0;
    assert(cs@.skip(0) =~= cs@);
    loop
        invariant
            n == cs@.len(),
            cs@ == query@,
            pos <= n,
            query_token(cs@) == query_token(cs@.skip(pos as int)),
        decreases n - pos,
    {
        let ghost rest = cs@.skip(pos as int);
        let mut end = pos;
        while end < n && cs[end] != '&'
            invariant
                pos <= end <= n,
                n == cs@.len(),
                forall|j: int| pos <= j < end ==> cs@[j] != '&',
            decreases n - end,
        {
            end = end + 1;
        }
        proof {
            lemma_first_amp(rest);
            if end < n {
                assert(rest[end - pos] == '&');
                if first_amp(rest) != Some(end - pos) {
                    if let Some(k) = first_amp(rest) {
                        assert(rest[k] == cs@[pos + k]);
                    }
                }
            } else if let Some(k) = first_amp(rest) {
                assert(rest[k] == cs@[pos + k]);
            }
            assert(rest.take(end - pos) =~= cs@.subrange(pos as int, end as int));
        }
        if token_prefix_at(&cs, pos, end) {
            let t = string_of_range(cs.as_slice(), pos + 6, end);
            assert(t@ =~= rest.take(end - pos).skip(6));
            return Some(t);
        }
        if end == n {
            return None;
        }
        assert(rest.skip(end - pos + 1) =~= cs@.skip(end + 1));
        pos = end + 1;
    }
}

/// Whether a request presents the API key, in its `x-api-key` header or, when
/// it has none, as the `token` of its query string.
pub fn is_authorized(header: Option<&str>, query: Option<&str>, api_key: &str) -> (b: bool)
    ensures
        b == (request_key(
            match header { Some(h) => Some(h@), None => None },
            match query { Some(q) => Some(q@), None => None },
        ) == Some(api_key@)),
{
    let key = match header {
        Some(h) => Some(String::from_str(h)),
        None => match query {
            Some(q) => find_query_token(q),
            None => None,
        },
    };
    match key {
        Some(k) => {
            let a = String::from_str(api_key);
            k.eq(&a)
        },
        None => false,
    }
}

/// `s` with every non-overlapping occurrence of `pat`, from the left,
/// replaced by `rep` (what `str::replace` does).
pub open spec fn replace_all(s: Seq<char>, pat: Seq<char>, rep: Seq<char>) -> Seq<char>
    decreases s.len(),
{
    if s.len() == 0 || pat.len() == 0 {
        s
    } else if s.len() >= pat.len() && s.take(pat.len() as int) == pat {
        rep + replace_all(s.skip(pat.len() as int), pat, rep)
    } else {
        seq![s[0]] + replace_all(s.skip(1), pat, rep)
    }
}

/// Whether `pat` occurs in `cs` at `i`.
fn occurs_at(cs: &Vec<char>, i: usize, pat: &Vec<char>) -> (b: bool)
    requires
        i <= cs@.len(),
    ensures
        b == (cs@.len() - i >= pat@.len() && cs@.skip(i as int).take(pat@.len() as int) == pat@),
{
    let n = cs.len();
    if n - i < pat.len() {
        return false;
    }
    let mut k: usize = 0;
    while k < pat.len()
        invariant
            n == cs@.len(),
            i + pat@.len() <= cs@.len(),
            k <= pat@.len(),
            forall|j: int| 0 <= j < k ==> cs@[i + j] == pat@[j],
        decreases pat@.len() - k,
    {
        if cs[i + k] != pat[k] {
            assert(cs@.skip(i as int).take(pat@.len() as int)[k as int] == cs@[i + k]);
            return false;
        }
        k = k + 1;
    }
    assert(cs@.skip(i as int).take(pat@.len() as int) =~= pat@);
    true
}

/// The page with the API key made known to its scripts: the closing
/// `</head>` becomes `<script>window.API_KEY = "<key>";</script></head>`
/// (at each occurrence).
pub open spec fn inject_key_model(html: Seq<char>, key: Seq<char>) -> Seq<char> {
    replace_all(html, "</head>"@, "<script>window.API_KEY = \""@ + key + "\";</script></head>"@)
}

/// Makes the API key known to the page's scripts.
pub fn inject_api_key(html: &str, key: &str) -> (page: String)
    ensures
        page@ == inject_key_model(html@, key@),
{
    let mut rep = String::from_str("<script>window.API_KEY = \"");
    rep.append(key);
    rep.append("\";</script></head>");
    let pat = chars_of("</head>");
    let cs = chars_of(html);
    let rc = chars_of(rep.as_str());
    let ghost r = rep@;
    proof {
        reveal_strlit("</head>");
    }
    let mut out: Vec<char> = Vec::new();
    let mut i: usize = 0;
    assert(cs@.skip(0) =~= cs@);
    while i < cs.len()
        invariant
            i <= cs@.len(),
            cs@ == html@,
            pat@ == "</head>"@,
            rc@ == r,
            pat@.len() > 0,
            replace_all(cs@, pat@, r) == out@ + replace_all(cs@.skip(i as int), pat@, r),
        decreases cs@.len() - i,
    {
        let ghost rest = cs@.skip(i as int);
        if occurs_at(&cs, i, &pat) {
            let mut k: usize = 0;
            let ghost before = out@;
            while k < rc.len()
                invariant
                    k <= rc@.len(),
                    out@ == before + rc@.take(k as int),
                decreases rc@.len() - k,
            {
                out.push(rc[k]);
                k = k + 1;
                assert(out@ =~= before + rc@.take(k as int));
            }
            assert(rc@.take(rc@.len() as int) =~= rc@);
            assert(rest.skip(pat@.len() as int) =~= cs@.skip(i + pat@.len()));
            i = i + pat.len();
        } else {
            let ghost before = out@;
            out.push(cs[i]);
            assert(rest.skip(1) =~= cs@.skip(i + 1));
            assert(out@ =~= before + seq![rest[0]]);
            i = i + 1;
        }
    }
    assert(cs@.skip(i as int) =~= Seq::<char>::empty());
    assert(out@ + Seq::<char>::empty() =~= out@);
    string_of(out.as_slice())
}

} // verus!
