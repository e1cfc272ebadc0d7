//! Character-level helpers: decimal rendering, line splitting and the few
//! standard-library string operations that the rest of the crate relies on.

use vstd::prelude::*;
use vstd::utf8::*;

verus! {

/// Appends one character to a string (`String::push`).
#[verifier::external_body]
pub(crate) fn string_push(s: &mut String, c: char)
    ensures
        final(s)@ == old(s)@.push(c),
{
    s.push(c);
}

/// Decodes bytes as UTF-8 (`std::str::from_utf8`): the documentation promises
/// success exactly on valid UTF-8, and then the decoded characters.
#[verifier::external_body]
pub(crate) fn utf8_decode(bytes: &[u8]) -> (r: Option<&str>)
    ensures
        r is Some <==> valid_utf8(bytes@),
        r matches Some(s) ==> s@ == decode_utf8(bytes@),
{
    std::str::from_utf8(bytes).ok()
}

/// The text that `String::from_utf8_lossy` makes of bytes that are not
/// valid UTF-8.
pub uninterp spec fn lossy_text(bytes: Seq<u8>) -> Seq<char>;

/// Decodes bytes as UTF-8, replacing invalid sequences
/// (`String::from_utf8_lossy`): its documentation promises that valid UTF-8
/// comes out as it is; what other bytes give is left to `lossy_text`.
#[verifier::external_body]
pub(crate) fn utf8_lossy(bytes: &[u8]) -> (s: String)
    ensures
        valid_utf8(bytes@) ==> s@ == decode_utf8(bytes@),
        !valid_utf8(bytes@) ==> s@ == lossy_text(bytes@),
{
    String::from_utf8_lossy(bytes).into_owned()
}

/// The characters of a string slice, collected into a vector.
pub fn chars_of(s: &str) -> (v: Vec<char>)
    ensures
        v@ == s@,
{
    let n = s.unicode_len();
    let mut v: Vec<char> = Vec::new();
    let mut i: usize = 0;
    while i < n
        invariant
            n == s@.len(),
            i <= n,
            v@ == s@.take(i as int),
        decreases n - i,
    {
        let c = s.get_char(i);
        v.push(c);
        i = i + 1;
        assert(v@ =~= s@.take(i as int));
    }
    assert(v@ =~= s@);
    v
}

/// A string holding the characters of `cs`.
pub fn string_of(cs: &[char]) -> (s: String)
    ensures
        s@ == cs@,
{
    let mut s = String::new();
    let mut i: usize = 0;
    while i < cs.len()
        invariant
            i <= cs@.len(),
            s@ == cs@.take(i as int),
        decreases cs@.len() - i,
    {
        string_push(&mut s, cs[i]);
        i = i + 1;
        assert(s@ =~= cs@.take(i as int));
    }
    assert(s@ =~= cs@);
    s
}

/// A string holding the characters `cs[from..to]`.
pub fn string_of_range(cs: &[char], from: usize, to: usize) -> (s: String)
    requires
        from <= to <= cs@.len(),
    ensures
        s@ == cs@.subrange(from as int, to as int),
{
    let mut s = String::new();
    let mut i: usize = from;
    while i < to
        invariant
            from <= i <= to <= cs@.len(),
            s@ == cs@.subrange(from as int, i as int),
        decreases to - i,
    {
        string_push(&mut s, cs[i]);
        i = i + 1;
        assert(s@ =~= cs@.subrange(from as int, i as int));
    }
    s
}

/// Appends a string slice to a string.
pub fn push_str(s: &mut String, t: &str)
    ensures
        final(s)@ == old(s)@ + t@,
{
    s.append(t);
}

/// The decimal digit character for `d < 10`.
pub open spec fn digit_char(d: int) -> char {
    ((d + 48) as u8) as char
}

/// Decimal digits of a natural number, most significant first, without
/// leading zeros (zero is written `0`).
pub open spec fn dec_nat(n: nat) -> Seq<char>
    decreases n,
{
    if n < 10 {
        seq![digit_char(n as int)]
    } else {
        dec_nat(n / 10).push(digit_char((n % 10) as int))
    }
}

/// Decimal rendering of an integer, as `Display` writes it.
pub open spec fn dec_int(n: int) -> Seq<char> {
    if n < 0 {
        seq!['-'] + dec_nat((-n) as nat)
    } else {
        dec_nat(n as nat)
    }
}

/// Decimal rendering of an unsigned 64-bit integer.
pub fn u64_to_string(n: u64) -> (s: String)
    ensures
        s@ == dec_nat(n as nat),
    decreases n,
{
    if n < 10 {
        let mut s = String::new();
        string_push(&mut s, ((n as u8) + 48) as char);
        assert(s@ =~= seq![digit_char(n as int)]);
        s
    } else {
        let mut s = u64_to_string(n / 10);
        string_push(&mut s, (((n % 10) as u8) + 48) as char);
        s
    }
}

/// Decimal rendering of a signed 64-bit integer.
pub fn i64_to_string(n: i64) -> (s: String)
    ensures
        s@ == dec_int(n as int),
{
    if n < 0 {
        let m: u64 = if n == i64::MIN {
            9223372036854775808u64
        } else {
            (-n) as u64
        };
        let mut s = String::new();
        string_push(&mut s, '-');
        let t = u64_to_string(m);
        s.append(t.as_str());
        assert(s@ =~= seq!['-'] + dec_nat(m as nat));
        s
    } else {
        u64_to_string(n as u64)
    }
}

/// The lowercase hexadecimal digit for `d < 16`.
pub open spec fn hex_digit(d: int) -> char {
    if d < 10 {
        ((d + 48) as u8) as char
    } else {
        ((d + 87) as u8) as char
    }
}

/// Lowercase hexadecimal digits of a natural number, without leading zeros
/// (zero is written `0`), as `{:x}` writes them.
pub open spec fn hex_nat(n: nat) -> Seq<char>
    decreases n,
{
    if n < 16 {
        seq![hex_digit(n as int)]
    } else {
        hex_nat(n / 16).push(hex_digit((n % 16) as int))
    }
}

fn hex_char(d: u64) -> (c: char)
    requires
        d < 16,
    ensures
        c == hex_digit(d as int),
{
    if d < 10 {
        ((d as u8) + 48) as char
    } else {
        ((d as u8) + 87) as char
    }
}

/// Lowercase hexadecimal rendering of an unsigned 64-bit integer.
pub fn u64_to_hex(n: u64) -> (s: String)
    ensures
        s@ == hex_nat(n as nat),
    decreases n,
{
    if n < 16 {
        let mut s = String::new();
        string_push(&mut s, hex_char(n));
        assert(s@ =~= seq![hex_digit(n as int)]);
        s
    } else {
        let mut s = u64_to_hex(n / 16);
        string_push(&mut s, hex_char(n % 16));
        s
    }
}

/// Position of the first newline in `s`, if any.
pub open spec fn first_newline(s: Seq<char>) -> Option<int>
    decreases s.len(),
{
    if s.len() == 0 {
        None
    } else if s[0] == '\n' {
        Some(0)
    } else {
        match first_newline(s.drop_first()) {
            Some(i) => Some(i + 1),
            None => None,
        }
    }
}

/// A line with its carriage return removed, when it ends in one.
pub open spec fn strip_cr(line: Seq<char>) -> Seq<char> {
    if line.len() > 0 && line.last() == '\r' {
        line.drop_last()
    } else {
        line
    }
}

/// The lines of a text as `str::lines` gives them: split at `\n` or
/// `\r\n`; a final line ending is optional and adds no empty line.
pub open spec fn text_lines(s: Seq<char>) -> Seq<Seq<char>>
    decreases s.len(),
{
    if s.len() == 0 {
        seq![]
    } else {
        match first_newline(s) {
            None => seq![s],
            Some(i) => {
                if 0 <= i < s.len() {
                    seq![strip_cr(s.take(i))] + text_lines(s.skip(i + 1))
                } else {
                    seq![]
                }
            },
        }
    }
}

proof fn lemma_first_newline(s: Seq<char>)
    ensures
        first_newline(s) matches Some(i) ==> 0 <= i < s.len() && s[i] == '\n' && forall|j: int|
            0 <= j < i ==> s[j] != '\n',
        first_newline(s) is None ==> forall|j: int| 0 <= j < s.len() ==> s[j] != '\n',
    decreases s.len(),
{
    if s.len() > 0 {
        lemma_first_newline(s.drop_first());
        if s[0] != '\n' {
            assert forall|j: int| 1 <= j < s.len() implies s[j] == s.drop_first()[j - 1] by {}
        }
    }
}

/// Finds the first newline in `cs[from..]`.
fn find_newline(cs: &Vec<char>, from: usize) -> (r: Option<usize>)
    requires
        from <= cs@.len(),
    ensures
        r matches Some(i) ==> first_newline(cs@.skip(from as int)) == Some(i - from) && from <= i < cs@.len(),
        r is None ==> first_newline(cs@.skip(from as int)) is None,
{
    let mut i = from;
    while i < cs.len()
        invariant
            from <= i <= cs@.len(),
            forall|j: int| from <= j < i ==> cs@[j] != '\n',
        decreases cs@.len() - i,
    {
        if cs[i] == '\n' {
            proof {
                let t = cs@.skip(from as int);
                lemma_first_newline(t);
                if first_newline(t) != Some(i - from) {
                    match first_newline(t) {
                        Some(k) => {
                            if k < i - from {
                                assert(t[k] == cs@[from + k]);
                            } else {
                                assert(t[i - from] == cs@[i as int]);
                            }
                        },
                        None => {
                            assert(t[i - from] == cs@[i as int]);
                        },
                    }
                }
            }
            return Some(i);
        }
        i = i + 1;
    }
    proof {
        let t = cs@.skip(from as int);
        lemma_first_newline(t);
        if let Some(k) = first_newline(t) {
            assert(t[k] == cs@[from + k]);
        }
    }
    None
}

/// Splits text into its lines, as `str::lines` does.
pub fn split_lines(cs: &Vec<char>) -> (lines: Vec<String>)
    ensures
        lines@.map_values(|l: String| l@) == text_lines(cs@),
{
    let mut out: Vec<String> = Vec::new();
    let mut pos: usize = 0;
    assert(cs@.skip(0) =~= cs@);
    while pos < cs.len()
        invariant
            pos <= cs@.len(),
            out@.map_values(|l: String| l@) + text_lines(cs@.skip(pos as int)) == text_lines(cs@),
        decreases cs@.len() - pos,
    {
        let ghost rest = cs@.skip(pos as int);
        match find_newline(cs, pos) {
            None => {
                let line = string_of_range(cs.as_slice(), pos, cs.len());
                proof {
                    assert(line@ =~= rest);
                }
                let ghost before = out@.map_values(|l: String| l@);
                out.push(line);
                proof {
                    assert(out@.map_values(|l: String| l@) =~= before.push(rest));
                    assert(cs@.skip(cs@.len() as int) =~= Seq::<char>::empty());
                    assert(text_lines(rest) == seq![rest]);
                    assert(before + seq![rest] =~= before.push(rest));
                }
                pos = cs.len();
            },
            Some(i) => {
                let end = if i > pos && cs[i - 1] == '\r' { i - 1 } else { i };
                let line = string_of_range(cs.as_slice(), pos, end);
                proof {
                    let k = i - pos;
                    assert(rest.take(k) =~= cs@.subrange(pos as int, i as int));
                    assert(line@ =~= strip_cr(rest.take(k)));
                    assert(rest.skip(k + 1) =~= cs@.skip(i + 1));
                }
                let ghost before = out@.map_values(|l: String| l@);
                out.push(line);
                proof {
                    assert(out@.map_values(|l: String| l@) =~= before.push(line@));
                    assert(before.push(line@) + text_lines(cs@.skip(i + 1)) =~= before + (seq![line@] + text_lines(cs@.skip(i + 1))));
                }
                pos = i + 1;
            },
        }
    }
    proof {
        assert(cs@.skip(pos as int) =~= Seq::<char>::empty());
        assert(out@.map_values(|l: String| l@) + Seq::<Seq<char>>::empty() =~= out@.map_values(|l: String| l@));
    }
    out
}

} // verus!
