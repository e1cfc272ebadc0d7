//! File names that may be written under the data directory, session ids for
//! the device server, the key that guards the web API, and the comparison of
//! release versions.

use vstd::prelude::*;
use crate::text::{hex_digit, string_push};

verus! {

/// A character that no stored file name may hold.
pub open spec fn illegal_char(c: char) -> bool {
    c == '<' || c == '>' || c == ':' || c == '"' || c == '/' || c == '\\' || c == '|' || c == '?' || c == '*'
        || c == '\0'
}

/// Whether `s` holds two dots from position `i`.
pub open spec fn dots_at(s: Seq<char>, i: int) -> bool {
    0 <= i && i + 1 < s.len() && s[i] == '.' && s[i + 1] == '.'
}

/// Whether `s` holds two dots in a row.
pub open spec fn has_dot_dot(s: Seq<char>) -> bool {
    exists|i: int| #[trigger] dots_at(s, i)
}

/// A name without `..` and without illegal characters (so without any path
/// separator or drive prefix).
pub open spec fn plain_name(s: Seq<char>) -> bool {
    !has_dot_dot(s) && forall|i: int| 0 <= i < s.len() ==> !illegal_char(#[trigger] s[i])
}

/// Whether `Path::new(name).file_name()` is `Some`, for a name without path
/// separators or drive prefix: such a name is one component, and only the
/// empty name, `.` and `..` have no file name.
pub open spec fn path_has_file_name(name: Seq<char>) -> bool {
    name != ""@ && name != "."@ && name != ".."@
}

/// `std::path::Path::file_name`, asked only whether there is one. For a name
/// without `/`, `\` or `:` the path has at most one component, and the
/// documented rules on components give no file name exactly for the empty
/// path (no component), `.` (the current directory) and `..` (the parent).
#[verifier::external_body]
fn has_file_name(name: &str) -> (b: bool)
    requires
        forall|i: int| 0 <= i < name@.len() ==> name@[i] != '/' && name@[i] != '\\' && name@[i] != ':',
    ensures
        b == path_has_file_name(name@),
{
    std::path::Path::new(name).file_name().is_some()
}

/// Whether a name avoids `..` and the illegal characters.
pub fn is_plain_name(name: &str) -> (b: bool)
    ensures
        b == plain_name(name@),
{
    let n = name.unicode_len();
    let mut i: usize = 0;
    while i < n
        invariant
            n == name@.len(),
            i <= n,
            forall|j: int| 0 <= j < i ==> !illegal_char(#[trigger] name@[j]),
            forall|j: int| 0 <= j < i ==> !#[trigger] dots_at(name@, j),
        decreases n - i,
    {
        let c = name.get_char(i);
        if c == '<' || c == '>' || c == ':' || c == '"' || c == '/' || c == '\\' || c == '|' || c == '?' || c == '*'
            || c == '\0' {
            return false;
        }
        if c == '.' && i + 1 < n && name.get_char(i + 1) == '.' {
            assert(dots_at(name@, i as int));
            return false;
        }
        assert(!dots_at(name@, i as int));
        i = i + 1;
    }
    assert forall|j: int| #[trigger] dots_at(name@, j) implies false by {
        assert(0 <= j < n);
    }
    true
}

/// Whether `name` may be used as the name of a stored file: it holds no
/// `..`, no path separator, no NUL and none of `< > : " | ? *`, and the
/// path it forms has a file name.
pub fn is_safe_file_name(name: &str) -> (b: bool)
    ensures
        b == (plain_name(name@) && path_has_file_name(name@)),
{
    if !is_plain_name(name) {
        return false;
    }
    assert forall|i: int| 0 <= i < name@.len() implies name@[i] != '/' && name@[i] != '\\' && name@[i] != ':' by {
        assert(!illegal_char(name@[i]));
    }
    has_file_name(name)
}

/// `rand::random_range(1..=9)`: a digit from 1 to 9, as the range promises;
/// which one is left to chance.
#[verifier::external_body]
fn random_digit() -> (d: u8)
    ensures
        1 <= d <= 9,
{
    rand::random_range(1..=9u8)
}

/// `rand::random::<u8>()`: a byte left to chance.
#[verifier::external_body]
fn random_byte() -> u8 {
    rand::random::<u8>()
}

/// A session id for the device server: `10` followed by six random digits
/// from 1 to 9 (eight hexadecimal digits, below `i32::MAX`).
pub fn gen_scid() -> (s: String)
    ensures
        s@.len() == 8,
        s@[0] == '1',
        s@[1] == '0',
        forall|i: int| 2 <= i < 8 ==> '1' <= #[trigger] s@[i] <= '9',
{
    let mut s = String::from_str("10");
    proof {
        reveal_strlit("10");
    }
    let mut k: usize = 0;
    while k < 6
        invariant
            k <= 6,
            s@.len() == 2 + k,
            s@[0] == '1',
            s@[1] == '0',
            forall|i: int| 2 <= i < 2 + k ==> '1' <= #[trigger] s@[i] <= '9',
        decreases 6 - k,
    {
        let d = random_digit();
        string_push(&mut s, (d + 48) as char);
        k = k + 1;
    }
    s
}

/// The two lowercase hexadecimal digits of a byte.
pub open spec fn hex_byte(b: u8) -> Seq<char> {
    seq![hex_digit((b / 16) as int), hex_digit((b % 16) as int)]
}

/// The bytes in lowercase hexadecimal, two digits each.
pub open spec fn hex_bytes(bs: Seq<u8>) -> Seq<char>
    decreases bs.len(),
{
    if bs.len() == 0 {
        Seq::empty()
    } else {
        hex_bytes(bs.drop_last()) + hex_byte(bs.last())
    }
}

fn hex_char(d: u8) -> (c: char)
    requires
        d < 16,
    ensures
        c == hex_digit(d as int),
{
    if d < 10 { (d + 48) as char } else { (d + 87) as char }
}

/// Writes bytes in lowercase hexadecimal, two digits each (`{:02x}`).
pub fn to_hex(bs: &Vec<u8>) -> (s: String)
    ensures
        s@ == hex_bytes(bs@),
{
    let mut s = String::new();
    let mut i: usize = 0;
    assert(bs@.take(0) =~= Seq::<u8>::empty());
    while i < bs.len()
        invariant
            i <= bs@.len(),
            s@ == hex_bytes(bs@.take(i as int)),
        decreases bs@.len() - i,
    {
        let b = bs[i];
        let ghost before = s@;
        string_push(&mut s, hex_char(b / 16));
        string_push(&mut s, hex_char(b % 16));
        assert(bs@.take(i + 1).drop_last() =~= bs@.take(i as int));
        assert(s@ =~= before + hex_byte(b));
        i = i + 1;
    }
    assert(bs@.take(bs@.len() as int) =~= bs@);
    s
}

/// A fresh key for the web API: sixteen random bytes in hexadecimal.
pub fn generate_api_key() -> (k: String)
    ensures
        k@.len() == 32,
        exists|bs: Seq<u8>| bs.len() == 16 && k@ == hex_bytes(bs),
{
    let mut bs: Vec<u8> = Vec::new();
    let mut i: usize = 0;
    while i < 16
        invariant
            i <= 16,
            bs@.len() == i,
        decreases 16 - i,
    {
        bs.push(random_byte());
        i = i + 1;
    }
    let k = to_hex(&bs);
    proof {
        lemma_hex_bytes_len(bs@);
    }
    k
}

proof fn lemma_hex_bytes_len(bs: Seq<u8>)
    ensures
        hex_bytes(bs).len() == 2 * bs.len(),
    decreases bs.len(),
{
    if bs.len() > 0 {
        lemma_hex_bytes_len(bs.drop_last());
    }
}

/// Whether `semver::Version::parse` accepts `s`.
pub uninterp spec fn semver_valid(s: Seq<char>) -> bool;

/// The text of the error that `semver::Version::parse` gives for `s`.
pub uninterp spec fn semver_error_text(s: Seq<char>) -> Seq<char>;

/// Whether version `a` comes before version `b` in the order of
/// `semver::Version` (major, minor, patch, pre-release, build).
pub uninterp spec fn semver_precedes(a: Seq<char>, b: Seq<char>) -> bool;

/// `semver::Version::parse(s)`: nothing when `s` is a version, else the text
/// of its error (by `Display`).
#[verifier::external_body]
pub(crate) fn version_error(s: &str) -> (r: Option<String>)
    ensures
        r is None <==> semver_valid(s@),
        r matches Some(m) ==> m@ == semver_error_text(s@),
{
    match semver::Version::parse(s) {
        Ok(_) => None,
        Err(e) => Some(e.to_string()),
    }
}

/// `Version::parse(a) < Version::parse(b)` (`<` of `semver::Version`), on
/// two strings that parse.
#[verifier::external_body]
pub(crate) fn version_precedes(a: &str, b: &str) -> (r: bool)
    requires
        semver_valid(a@),
        semver_valid(b@),
    ensures
        r == semver_precedes(a@, b@),
{
    match (semver::Version::parse(a), semver::Version::parse(b)) {
        (Ok(x), Ok(y)) => x < y,
        _ => false,
    }
}

/// How many `v` characters `s` starts with.
pub open spec fn leading_vs(s: Seq<char>) -> nat
    decreases s.len(),
{
    if s.len() > 0 && s[0] == 'v' { 1 + leading_vs(s.skip(1)) } else { 0 }
}

/// What a release's tag says of the running version `current`: whether
/// it is newer, and its version (the tag without its leading `v`s); or the
/// error of the version that does not parse (the running one first).
pub open spec fn update_check_model(tag: Seq<char>, current: Seq<char>) -> Result<(bool, Seq<char>), Seq<char>> {
    let latest = tag.skip(leading_vs(tag) as int);
    if !semver_valid(current) {
        Err("utils.checkForUpdateFailed: "@ + semver_error_text(current))
    } else if !semver_valid(latest) {
        Err("utils.checkForUpdateFailed: "@ + semver_error_text(latest))
    } else {
        Ok((semver_precedes(current, latest), latest))
    }
}

proof fn lemma_leading_vs(s: Seq<char>, i: int)
    requires
        0 <= i <= s.len(),
        forall|j: int| 0 <= j < i ==> s[j] == 'v',
    ensures
        leading_vs(s) == i + leading_vs(s.skip(i)),
    decreases i,
{
    if i > 0 {
        assert(s[0] == 'v');
        assert forall|j: int| 0 <= j < i - 1 implies s.skip(1)[j] == 'v' by {
            assert(s.skip(1)[j] == s[j + 1]);
        }
        lemma_leading_vs(s.skip(1), i - 1);
        assert(s.skip(1).skip(i - 1) =~= s.skip(i));
    } else {
        assert(s.skip(0) =~= s);
    }
}

/// Compares the tag of the newest release with the running version: whether
/// there is an update, and the release's version.
pub fn update_check(tag: &str, current: &str) -> (r: Result<(bool, String), String>)
    ensures
        match (r, update_check_model(tag@, current@)) {
            (Ok((b, v)), Ok((c, w))) => b == c && v@ == w,
            (Err(m), Err(n)) => m@ == n,
            _ => false,
        },
{
    let cs = crate::text::chars_of(tag);
    let mut k: usize = 0;
    while k < cs.len() && cs[k] == 'v'
        invariant
            k <= cs@.len(),
            cs@ == tag@,
            forall|j: int| 0 <= j < k ==> cs@[j] == 'v',
        decreases cs@.len() - k,
    {
        k = k + 1;
    }
    proof {
        lemma_leading_vs(cs@, k as int);
        assert(leading_vs(cs@.skip(k as int)) == 0);
    }
    let latest = crate::text::string_of_range(cs.as_slice(), k, cs.len());
    assert(latest@ =~= tag@.skip(leading_vs(tag@) as int));
    match version_error(current) {
        Some(e) => {
            let mut m = String::from_str("utils.checkForUpdateFailed: ");
            m.append(e.as_str());
            return Err(m);
        },
        None => {},
    }
    match version_error(latest.as_str()) {
        Some(e) => {
            let mut m = String::from_str("utils.checkForUpdateFailed: ");
            m.append(e.as_str());
            return Err(m);
        },
        None => {},
    }
    let newer = version_precedes(current, latest.as_str());
    Ok((newer, latest))
}

} // verus!
