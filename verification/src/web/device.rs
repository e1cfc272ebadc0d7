//! What the device endpoints compute from what the device answers.

use vstd::prelude::*;
use vstd::utf8::{decode_utf8, valid_utf8};
use crate::text::{chars_of, lossy_text, split_lines, string_of, string_of_range, text_lines, utf8_lossy};
use crate::web::{WebServerError, error_view};
use crate::web::ws::{ScrcpyDevice, Shutdown, shutdown_for, shutdown_of};
use crate::utils::{semver_precedes, semver_valid, version_error, version_precedes};

verus! {

/// White space as `char::is_whitespace` defines it (the Unicode
/// `White_Space` property).
pub open spec fn white_space(c: char) -> bool {
    c == '\t' || c == '\n' || c == '\u{b}' || c == '\u{c}' || c == '\r' || c == ' ' || c == '\u{85}' || c == '\u{a0}'
        || c == '\u{1680}' || ('\u{2000}' <= c && c <= '\u{200a}') || c == '\u{2028}' || c == '\u{2029}' || c == '\u{202f}'
        || c == '\u{205f}' || c == '\u{3000}'
}

fn is_white_space(c: char) -> (b: bool)
    ensures
        b == white_space(c),
{
    c == '\t' || c == '\n' || c == '\u{b}' || c == '\u{c}' || c == '\r' || c == ' ' || c == '\u{85}' || c == '\u{a0}'
        || c == '\u{1680}' || ('\u{2000}' <= c && c <= '\u{200a}') || c == '\u{2028}' || c == '\u{2029}' || c == '\u{202f}'
        || c == '\u{205f}' || c == '\u{3000}'
}

/// The first position from `i` on that is not white space (or the end).
pub open spec fn skip_space(s: Seq<char>, i: int) -> int
    decreases s.len() - i,
{
    if i >= s.len() || i < 0 {
        s.len() as int
    } else if white_space(s[i]) {
        skip_space(s, i + 1)
    } else {
        i
    }
}

/// The first position from `i` on that is white space (or the end).
pub open spec fn word_end(s: Seq<char>, i: int) -> int
    decreases s.len() - i,
{
    if i >= s.len() || i < 0 {
        s.len() as int
    } else if white_space(s[i]) {
        i
    } else {
        word_end(s, i + 1)
    }
}

/// The second word of `s`, words being separated by white space
/// (`split_whitespace().nth(1)`).
pub open spec fn second_word(s: Seq<char>) -> Option<Seq<char>> {
    let a0 = skip_space(s, 0);
    let a1 = skip_space(s, word_end(s, a0));
    if a0 >= s.len() || a1 >= s.len() {
        None
    } else {
        Some(s.subrange(a1, word_end(s, a1)))
    }
}

/// The display id in the answer of `dumpsys SurfaceFlinger --display-id`:
/// the second word of its first line.
pub open spec fn display_id_model(out: Seq<u8>) -> Result<Seq<char>, (u16, Seq<char>)> {
    let text = if valid_utf8(out) { decode_utf8(out) } else { lossy_text(out) };
    let lines = text_lines(text);
    if lines.len() == 0 {
        Err((400u16, "no display found"@))
    } else {
        match second_word(lines[0]) {
            Some(w) => Ok(w),
            None => Err((400u16, "invalid display line"@)),
        }
    }
}

proof fn lemma_skip_space_bounds(s: Seq<char>, i: int)
    requires
        0 <= i <= s.len(),
    ensures
        i <= skip_space(s, i) <= s.len(),
    decreases s.len() - i,
{
    if i < s.len() && white_space(s[i]) {
        lemma_skip_space_bounds(s, i + 1);
    }
}

proof fn lemma_word_end_bounds(s: Seq<char>, i: int)
    requires
        0 <= i <= s.len(),
    ensures
        i <= word_end(s, i) <= s.len(),
    decreases s.len() - i,
{
    if i < s.len() && !white_space(s[i]) {
        lemma_word_end_bounds(s, i + 1);
    }
}

fn skip_space_from(cs: &Vec<char>, i: usize) -> (r: usize)
    requires
        i <= cs@.len(),
    ensures
        r == skip_space(cs@, i as int),
{
    let mut j = i;
    while j < cs.len() && is_white_space(cs[j])
        invariant
            i <= j <= cs@.len(),
            skip_space(cs@, i as int) == skip_space(cs@, j as int),
        decreases cs@.len() - j,
    {
        j = j + 1;
    }
    j
}

fn word_end_from(cs: &Vec<char>, i: usize) -> (r: usize)
    requires
        i <= cs@.len(),
    ensures
        r == word_end(cs@, i as int),
{
    let mut j = i;
    while j < cs.len() && !is_white_space(cs[j])
        invariant
            i <= j <= cs@.len(),
            word_end(cs@, i as int) == word_end(cs@, j as int),
        decreases cs@.len() - j,
    {
        j = j + 1;
    }
    j
}

/// Finds the display id in the output of `dumpsys SurfaceFlinger
/// --display-id`, or the error reply for output without one.
pub fn display_id_from_dumpsys(out: &[u8]) -> (r: Result<String, WebServerError>)
    ensures
        match (r, display_id_model(out@)) {
            (Ok(s), Ok(t)) => s@ == t,
            (Err(e), Err(f)) => error_view(e) == f,
            _ => false,
        },
{
    let text = utf8_lossy(out);
    let cs = chars_of(text.as_str());
    let lines = split_lines(&cs);
    if lines.len() == 0 {
        return Err(WebServerError(400, String::from_str("no display found")));
    }
    let first = chars_of(lines[0].as_str());
    assert(first@ == text_lines(text@)[0]);
    let a0 = skip_space_from(&first, 0);
    proof {
        lemma_skip_space_bounds(first@, 0);
    }
    if a0 >= first.len() {
        return Err(WebServerError(400, String::from_str("invalid display line")));
    }
    let e0 = word_end_from(&first, a0);
    proof {
        lemma_word_end_bounds(first@, a0 as int);
    }
    let a1 = skip_space_from(&first, e0);
    proof {
        lemma_skip_space_bounds(first@, e0 as int);
    }
    if a1 >= first.len() {
        return Err(WebServerError(400, String::from_str("invalid display line")));
    }
    let e1 = word_end_from(&first, a1);
    proof {
        lemma_word_end_bounds(first@, a1 as int);
    }
    Ok(string_of_range(first.as_slice(), a1, e1))
}

/// The version in the name of a bundled server (`scrcpy-mask-server-v<version>`).
pub open spec fn server_suffix(name: Seq<char>) -> Option<Seq<char>> {
    let p = "scrcpy-mask-server-v"@;
    if name.len() >= p.len() && name.take(p.len() as int) == p {
        Some(name.skip(p.len() as int))
    } else {
        None
    }
}

/// How many dots `s` holds.
pub open spec fn dot_count(s: Seq<char>) -> nat
    decreases s.len(),
{
    if s.len() == 0 {
        0
    } else {
        dot_count(s.drop_last()) + if s.last() == '.' { 1nat } else { 0nat }
    }
}

/// A version of two parts gets a patch part of 0.
pub open spec fn normalized(v: Seq<char>) -> Seq<char> {
    if dot_count(v) == 1 { v + ".0"@ } else { v }
}

/// The newest bundled server version among `names[i..]`, starting from
/// `best`: a later name wins unless its version comes before the best so far.
pub open spec fn newest_from(names: Seq<Seq<char>>, i: int, best: Option<Seq<char>>) -> Option<Seq<char>>
    decreases names.len() - i,
{
    if i < 0 || i >= names.len() {
        best
    } else {
        match server_suffix(names[i]) {
            Some(v) => if semver_valid(normalized(v)) {
                let nb = match best {
                    Some(b) => if semver_precedes(normalized(v), normalized(b)) { Some(b) } else { Some(v) },
                    None => Some(v),
                };
                newest_from(names, i + 1, nb)
            } else {
                newest_from(names, i + 1, best)
            },
            None => newest_from(names, i + 1, best),
        }
    }
}

/// The server version to push: the newest one bundled, or `4.0`.
pub open spec fn server_version_model(names: Seq<Seq<char>>) -> Seq<char> {
    match newest_from(names, 0, None) {
        Some(v) => v,
        None => "4.0"@,
    }
}

fn suffix_of(name: &String) -> (r: Option<String>)
    ensures
        match (r, server_suffix(name@)) {
            (Some(a), Some(b)) => a@ == b,
            (None, None) => true,
            _ => false,
        },
{
    let p = "scrcpy-mask-server-v";
    let pc = chars_of(p);
    let cs = chars_of(name.as_str());
    if cs.len() < pc.len() {
        return None;
    }
    let mut i: usize = 0;
    while i < pc.len()
        invariant
            pc@ == "scrcpy-mask-server-v"@,
            cs@ == name@,
            pc@.len() <= cs@.len(),
            i <= pc@.len(),
            forall|j: int| 0 <= j < i ==> cs@[j] == pc@[j],
        decreases pc@.len() - i,
    {
        if cs[i] != pc[i] {
            assert(cs@.take(pc@.len() as int)[i as int] != pc@[i as int]);
            return None;
        }
        i = i + 1;
    }
    assert(cs@.take(pc@.len() as int) =~= pc@);
    let r = string_of_range(cs.as_slice(), pc.len(), cs.len());
    assert(r@ =~= cs@.skip(pc@.len() as int));
    Some(r)
}

fn normalize_version(v: &String) -> (r: String)
    ensures
        r@ == normalized(v@),
{
    let cs = chars_of(v.as_str());
    let mut dots: usize = 0;
    let mut i: usize = 0;
    assert(cs@.take(0) =~= Seq::<char>::empty());
    while i < cs.len()
        invariant
            cs@ == v@,
            i <= cs@.len(),
            dots == dot_count(cs@.take(i as int)),
            dots <= i,
        decreases cs@.len() - i,
    {
        assert(cs@.take(i + 1).drop_last() =~= cs@.take(i as int));
        if cs[i] == '.' {
            dots = dots + 1;
        }
        i = i + 1;
    }
    assert(cs@.take(cs@.len() as int) =~= cs@);
    let mut r = string_of(cs.as_slice());
    if dots == 1 {
        r.append(".0");
    }
    r
}

/// Picks the server version to push from the names of the bundled files:
/// the newest `scrcpy-mask-server-v<version>` (a two-part version is read
/// with patch 0), or `4.0` when there is none.
pub fn pick_server_version(names: &Vec<String>) -> (v: String)
    ensures
        v@ == server_version_model(names@.map_values(|s: String| s@)),
{
    let ghost ns = names@.map_values(|s: String| s@);
    let mut best: Option<String> = None;
    let mut best_norm: Option<String> = None;
    let mut i: usize = 0;
    while i < names.len()
        invariant
            i <= names@.len(),
            ns == names@.map_values(|s: String| s@),
            match (best, best_norm) {
                (Some(b), Some(n)) => n@ == normalized(b@) && semver_valid(n@),
                (None, None) => true,
                _ => false,
            },
            newest_from(ns, 0, None) == newest_from(ns, i as int, match best { Some(b) => Some(b@), None => None }),
        decreases names@.len() - i,
    {
        assert(ns[i as int] == names@[i as int]@);
        match suffix_of(&names[i]) {
            Some(v) => {
                let n = normalize_version(&v);
                if version_error(n.as_str()).is_none() {
                    let keep = match &best_norm {
                        Some(bn) => version_precedes(n.as_str(), bn.as_str()),
                        None => false,
                    };
                    if !keep {
                        best = Some(v);
                        best_norm = Some(n);
                    }
                }
            },
            None => {},
        }
        i = i + 1;
    }
    match best {
        Some(b) => b,
        None => String::from_str("4.0"),
    }
}

/// The position of the first device with id `id`.
pub open spec fn first_device(devices: Seq<ScrcpyDevice>, id: Seq<char>) -> Option<int>
    decreases devices.len(),
{
    if devices.len() == 0 {
        None
    } else {
        match first_device(devices.drop_last(), id) {
            Some(i) => Some(i),
            None => if devices.last().device_id@ == id { Some(devices.len() - 1) } else { None },
        }
    }
}

proof fn lemma_first_device(devices: Seq<ScrcpyDevice>, id: Seq<char>, i: int)
    requires
        0 <= i < devices.len(),
        forall|j: int| 0 <= j < i ==> (#[trigger] devices[j]).device_id@ != id,
    ensures
        first_device(devices.take(i + 1), id) == (if devices[i].device_id@ == id { Some(i) } else { None::<int> }),
        first_device(devices.take(i), id) is None,
    decreases i,
{
    if i > 0 {
        lemma_first_device(devices, id, i - 1);
        assert(devices.take(i).drop_last() =~= devices.take(i - 1));
    } else {
        assert(devices.take(0) =~= Seq::<ScrcpyDevice>::empty());
    }
    assert(devices.take(i + 1).drop_last() =~= devices.take(i));
}

/// Ending the control of a device: the end of its session and the reply
/// message, or the error reply when no controlled device has that id.
pub fn decontrol_plan(devices: &Vec<ScrcpyDevice>, device_id: &str) -> (r: Result<(Shutdown, String), WebServerError>)
    ensures
        match first_device(devices@, device_id@) {
            Some(i) => r matches Ok((s, m)) && shutdown_of(devices@[i], s) && m@ == "web.device.decontrolDevice: "@ + device_id@,
            None => r matches Err(e) && error_view(e) == (400u16, "web.device.deviceNotFound: "@ + device_id@),
        },
{
    let id = String::from_str(device_id);
    let mut i: usize = 0;
    while i < devices.len()
        invariant
            i <= devices@.len(),
            id@ == device_id@,
            forall|j: int| 0 <= j < i ==> (#[trigger] devices@[j]).device_id@ != device_id@,
        decreases devices@.len() - i,
    {
        if devices[i].device_id.eq(&id) {
            proof {
                lemma_first_device(devices@, device_id@, i as int);
                lemma_first_device_prefix(devices@, device_id@, i + 1);
            }
            let mut m = String::from_str("web.device.decontrolDevice: ");
            m.append(device_id);
            return Ok((shutdown_for(&devices[i]), m));
        }
        i = i + 1;
    }
    proof {
        assert(devices@.take(devices@.len() as int) =~= devices@);
        if devices@.len() > 0 {
            lemma_first_device(devices@, device_id@, devices@.len() - 1);
        } else {
            assert(devices@ =~= Seq::<ScrcpyDevice>::empty());
        }
    }
    let mut m = String::from_str("web.device.deviceNotFound: ");
    m.append(device_id);
    Err(WebServerError(400, m))
}

/// A device found in a prefix of the list is the first one of the list.
proof fn lemma_first_device_prefix(devices: Seq<ScrcpyDevice>, id: Seq<char>, k: int)
    requires
        0 <= k <= devices.len(),
        first_device(devices.take(k), id) is Some,
    ensures
        first_device(devices, id) == first_device(devices.take(k), id),
    decreases devices.len() - k,
{
    if k < devices.len() {
        lemma_first_device_prefix_step(devices, id, k);
        lemma_first_device_prefix(devices, id, k + 1);
    } else {
        assert(devices.take(k) =~= devices);
    }
}

proof fn lemma_first_device_prefix_step(devices: Seq<ScrcpyDevice>, id: Seq<char>, k: int)
    requires
        0 <= k < devices.len(),
        first_device(devices.take(k), id) is Some,
    ensures
        first_device(devices.take(k + 1), id) == first_device(devices.take(k), id),
{
    assert(devices.take(k + 1).drop_last() =~= devices.take(k));
}

/// A device is taken under control only once: the error reply when a
/// controlled device already has the id.
pub fn check_not_controlled(devices: &Vec<ScrcpyDevice>, device_id: &str) -> (r: Result<(), WebServerError>)
    ensures
        match first_device(devices@, device_id@) {
            Some(_) => r matches Err(e) && error_view(e) == (400u16, "web.device.alreadyControlled: "@ + device_id@),
            None => r is Ok,
        },
{
    match decontrol_plan(devices, device_id) {
        Ok(_) => {
            let mut m = String::from_str("web.device.alreadyControlled: ");
            m.append(device_id);
            Err(WebServerError(400, m))
        },
        Err(_) => Ok(()),
    }
}

/// The reply to a request to evaluate a script: refused while no device is
/// under control; else success, or the script's error under its label.
pub fn eval_script_reply(any_controlled: bool, outcome: Result<(), String>) -> (r: Result<String, WebServerError>)
    ensures
        !any_controlled ==> (r matches Err(e) && error_view(e) == (400u16, "web.device.noDeviceControlled"@)),
        any_controlled ==> match outcome {
            Ok(()) => r matches Ok(m) && m@ == "web.device.evalScriptSuccess"@,
            Err(x) => r matches Err(e) && error_view(e) == (400u16, "web.device.evalScriptError:\n"@ + x@),
        },
{
    if !any_controlled {
        return Err(WebServerError(400, String::from_str("web.device.noDeviceControlled")));
    }
    match outcome {
        Ok(()) => Ok(String::from_str("web.device.evalScriptSuccess")),
        Err(x) => {
            let mut m = String::from_str("web.device.evalScriptError:\n");
            m.append(x.as_str());
            Err(WebServerError(400, m))
        },
    }
}

} // verus!
