//! The state that scripts share across runs (toggles, variables, key
//! repeats) and the built-in functions that read and change it. Effects on the
//! device are not performed here: they are recorded as actions, in order, for
//! the caller to carry out.

use vstd::prelude::*;
use std::collections::HashMap;
use crate::assoc::{AssocList, entries_map, lemma_entries_map};
use crate::script::value::{Value, ValueModel};
use crate::text::{dec_int, dec_nat, i64_to_string, u64_to_string};

verus! {

/// The phase of a touch.
#[derive(Debug, Clone, Copy, PartialEq, Eq, Structural)]
pub enum TouchAction {
    Down,
    Up,
    Move,
}

/// The phase of a key press.
#[derive(Debug, Clone, Copy, PartialEq, Eq, Structural)]
pub enum KeyAction {
    Down,
    Up,
}

/// An effect that a script asks for, in the order it asked.
#[derive(Debug)]
pub enum ScriptAction {
    /// Log a line of text.
    Print { text: String },
    /// Pause for a number of milliseconds.
    Sleep { ms: u64 },
    /// A touch event at a point of the original screen.
    Touch { action: TouchAction, pointer_id: u64, x: i64, y: i64 },
    /// A swipe through the points, `interval` milliseconds per segment.
    Swipe { pointer_id: u64, interval: u64, points: Vec<(i64, i64)> },
    /// A key event, with the key and meta-state names that the script's
    /// names denote.
    Key { action: KeyAction, key_name: String, metastate: String },
    /// Set the device clipboard and paste it.
    Paste { text: String },
    /// Start pressing a key every `interval` milliseconds: the repeat is
    /// known by the name the script gave (`key_name`), and presses the key
    /// that name denotes (`keycode`).
    StartRepeat { key_name: String, keycode: String, interval: u64 },
    /// Stop pressing a repeated key.
    StopRepeat { key_name: String },
}

/// The model of a [`ScriptAction`].
pub enum ActionModel {
    Print(Seq<char>),
    Sleep(u64),
    Touch(TouchAction, u64, i64, i64),
    Swipe(u64, u64, Seq<(i64, i64)>),
    Key(KeyAction, Seq<char>, Seq<char>),
    Paste(Seq<char>),
    StartRepeat(Seq<char>, Seq<char>, u64),
    StopRepeat(Seq<char>),
}

impl View for ScriptAction {
    type V = ActionModel;

    open spec fn view(&self) -> ActionModel {
        match self {
            ScriptAction::Print { text } => ActionModel::Print(text@),
            ScriptAction::Sleep { ms } => ActionModel::Sleep(*ms),
            ScriptAction::Touch { action, pointer_id, x, y } => ActionModel::Touch(*action, *pointer_id, *x, *y),
            ScriptAction::Swipe { pointer_id, interval, points } => ActionModel::Swipe(*pointer_id, *interval, points@),
            ScriptAction::Key { action, key_name, metastate } => ActionModel::Key(*action, key_name@, metastate@),
            ScriptAction::Paste { text } => ActionModel::Paste(text@),
            ScriptAction::StartRepeat { key_name, keycode, interval } => ActionModel::StartRepeat(key_name@, keycode@, *interval),
            ScriptAction::StopRepeat { key_name } => ActionModel::StopRepeat(key_name@),
        }
    }
}

/// State shared by scripts: toggles, variables, running key repeats, the key
/// and meta-state names that the device understands, the number of prints of
/// the current run and the actions recorded so far.
pub struct ScriptHost {
    pub toggles: HashMap<i64, bool>,
    pub vars: AssocList<Value>,
    pub repeats: AssocList<u64>,
    pub key_names: Vec<String>,
    pub meta_names: Vec<String>,
    pub print_count: u64,
    pub actions: Vec<ScriptAction>,
}

/// The model of a [`ScriptHost`].
pub struct HostModel {
    pub toggles: Map<i64, bool>,
    pub vars: Map<Seq<char>, ValueModel>,
    pub repeats: Map<Seq<char>, u64>,
    pub keys: Seq<Seq<char>>,
    pub metas: Seq<Seq<char>>,
    pub prints: u64,
    pub actions: Seq<ActionModel>,
}

/// The models of a sequence of values.
pub open spec fn vals(v: Seq<Value>) -> Seq<ValueModel> {
    v.map_values(|x: Value| x@)
}

/// The views of a sequence of strings.
pub open spec fn strs(v: Seq<String>) -> Seq<Seq<char>> {
    v.map_values(|x: String| x@)
}

impl View for ScriptHost {
    type V = HostModel;

    open spec fn view(&self) -> HostModel {
        HostModel {
            toggles: self.toggles@,
            vars: self.vars.map().map_values(|x: Value| x@),
            repeats: self.repeats.map(),
            keys: strs(self.key_names@),
            metas: strs(self.meta_names@),
            prints: self.print_count,
            actions: self.actions@.map_values(|a: ScriptAction| a@),
        }
    }
}

impl ScriptHost {
    /// The lists behind the name-keyed maps have no repeated keys.
    pub open spec fn wf(&self) -> bool {
        self.vars.wf() && self.repeats.wf()
    }

    /// A host with nothing stored, that knows the given key and meta-state names.
    pub fn new(key_names: Vec<String>, meta_names: Vec<String>) -> (h: ScriptHost)
        ensures
            h.wf(),
            h@.toggles == Map::<i64, bool>::empty(),
            h@.vars == Map::<Seq<char>, ValueModel>::empty(),
            h@.repeats == Map::<Seq<char>, u64>::empty(),
            h@.keys == strs(key_names@),
            h@.metas == strs(meta_names@),
            h@.prints == 0,
            h@.actions == Seq::<ActionModel>::empty(),
    {
        let h = ScriptHost {
            toggles: HashMap::new(),
            vars: AssocList::new(),
            repeats: AssocList::new(),
            key_names,
            meta_names,
            print_count: 0,
            actions: Vec::new(),
        };
        assert(h@.vars =~= Map::<Seq<char>, ValueModel>::empty());
        assert(h@.actions =~= Seq::<ActionModel>::empty());
        h
    }

    /// Hands over the recorded actions, leaving none.
    pub fn take_actions(&mut self) -> (r: Vec<ScriptAction>)
        requires
            old(self).wf(),
        ensures
            final(self).wf(),
            r@.map_values(|a: ScriptAction| a@) == old(self)@.actions,
            final(self)@ == (HostModel { actions: Seq::empty(), ..old(self)@ }),
    {
        let mut r: Vec<ScriptAction> = Vec::new();
        std::mem::swap(&mut r, &mut self.actions);
        assert(self@.actions =~= Seq::<ActionModel>::empty());
        assert(self@ =~= (HostModel { actions: Seq::empty(), ..old(self)@ }));
        r
    }
}

/// Whether `s` holds exactly the characters of `lit`.
pub fn lit_eq(s: &String, lit: &str) -> (b: bool)
    ensures
        b == (s@ == lit@),
{
    let t = String::from_str(lit);
    s.eq(&t)
}

/// Whether `names` holds `s`.
pub fn has_name(names: &Vec<String>, s: &String) -> (b: bool)
    ensures
        b == strs(names@).contains(s@),
{
    let mut i: usize = 0;
    while i < names.len()
        invariant
            i <= names@.len(),
            forall|j: int| 0 <= j < i ==> names@[j]@ != s@,
        decreases names@.len() - i,
    {
        if names[i].eq(s) {
            assert(strs(names@)[i as int] == s@);
            return true;
        }
        i = i + 1;
    }
    assert forall|j: int| 0 <= j < strs(names@).len() implies strs(names@)[j] != s@ by {
        assert(names@[j]@ != s@);
    }
    false
}

/// The string that the JSON text made of `s` between double quotes
/// denotes, when that text is a JSON string.
pub uninterp spec fn json_unquoted(s: Seq<char>) -> Option<Seq<char>>;

/// A text that stands for itself between double quotes in JSON: no quote,
/// no backslash and no control character.
pub open spec fn plain_json_text(s: Seq<char>) -> bool {
    forall|i: int| 0 <= i < s.len() ==> #[trigger] s[i] != '"' && s[i] != '\\' && s[i] >= ' '
}

/// `serde_json::from_str::<String>` on `s` between double quotes: the string
/// that text denotes, or nothing when it is not a JSON string. A text
/// without quote, backslash or control character denotes itself (a JSON
/// string reads such characters as they are, up to the closing quote).
#[verifier::external_body]
pub(crate) fn json_string(s: &str) -> (r: Option<String>)
    ensures
        r is Some <==> json_unquoted(s@) is Some,
        r matches Some(v) ==> json_unquoted(s@) == Some(v@),
        plain_json_text(s@) ==> r is Some,
        r matches Some(v) ==> (plain_json_text(s@) ==> v@ == s@),
{
    serde_json::from_str::<String>(&format!("\"{}\"", s)).ok()
}

/// Whether the device knows the name `s`, read as the name of a key (or of
/// a meta state) is read: as a JSON string between double quotes, which
/// must denote a name of `names`.
pub open spec fn name_known(names: Seq<Seq<char>>, s: Seq<char>) -> bool {
    &&& json_unquoted(s) is Some
    &&& names.contains(json_unquoted(s)->Some_0)
}

/// The name that `s` denotes (see [`name_known`]).
pub open spec fn name_of(s: Seq<char>) -> Seq<char> {
    json_unquoted(s)->Some_0
}

/// The name of `names` that `s` denotes, if the device knows it.
pub fn known_name(names: &Vec<String>, s: &String) -> (r: Option<String>)
    ensures
        r is Some <==> name_known(strs(names@), s@),
        r matches Some(v) ==> v@ == name_of(s@),
{
    match json_string(s.as_str()) {
        Some(v) => {
            if has_name(names, &v) {
                Some(v)
            } else {
                None
            }
        },
        None => None,
    }
}

/// Joins three string slices into a string.
pub fn join3(a: &str, b: &str, c: &str) -> (r: String)
    ensures
        r@ == a@ + b@ + c@,
{
    let mut s = String::from_str(a);
    s.append(b);
    s.append(c);
    s
}

/// Starts repeating `key_name` every `interval` milliseconds, replacing a
/// repeat of the same key that runs already.
pub open spec fn start_repeat_model(key: Seq<char>, interval: u64, h: HostModel) -> (Result<(), Seq<char>>, HostModel) {
    if !name_known(h.keys, key) {
        (Err("Invalid key name '"@ + key + "'"@), h)
    } else {
        let h1 = if h.repeats.dom().contains(key) {
            HostModel { repeats: h.repeats.remove(key), actions: h.actions.push(ActionModel::StopRepeat(key)), ..h }
        } else {
            h
        };
        (Ok(()), HostModel {
            repeats: h1.repeats.insert(key, interval),
            actions: h1.actions.push(ActionModel::StartRepeat(key, name_of(key), interval)),
            ..h1
        })
    }
}

/// Stops the repeat of `key`, if one runs.
pub open spec fn stop_repeat_model(key: Seq<char>, h: HostModel) -> HostModel {
    if h.repeats.dom().contains(key) {
        HostModel { repeats: h.repeats.remove(key), actions: h.actions.push(ActionModel::StopRepeat(key)), ..h }
    } else {
        h
    }
}

/// Starts a key repeat; fails on a key name that the device does not know.
pub fn start_repeat(host: &mut ScriptHost, key_name: String, interval: u64) -> (r: Result<(), String>)
    requires
        old(host).wf(),
    ensures
        final(host).wf(),
        (match r { Ok(()) => Ok(()), Err(m) => Err(m@) }, final(host)@) == start_repeat_model(key_name@, interval, old(host)@),
{
    let keycode = match known_name(&host.key_names, &key_name) {
        Some(k) => k,
        None => return Err(join3("Invalid key name '", key_name.as_str(), "'")),
    };
    let ghost h0 = host@;
    let ghost k = key_name@;
    if host.repeats.contains(&key_name) {
        host.repeats.remove(&key_name);
        let ghost a0 = host.actions@;
        host.actions.push(ScriptAction::StopRepeat { key_name: key_name.clone() });
        assert(host@.actions =~= h0.actions.push(ActionModel::StopRepeat(k)));
    }
    let ghost h1 = host@;
    assert(h1 =~= (if h0.repeats.dom().contains(k) {
        HostModel { repeats: h0.repeats.remove(k), actions: h0.actions.push(ActionModel::StopRepeat(k)), ..h0 }
    } else {
        h0
    }));
    host.repeats.insert(key_name.clone(), interval);
    host.actions.push(ScriptAction::StartRepeat { key_name, keycode, interval });
    assert(host@.actions =~= h1.actions.push(ActionModel::StartRepeat(k, name_of(k), interval)));
    assert(host@ =~= start_repeat_model(k, interval, h0).1);
    Ok(())
}

/// Stops the repeat of `key_name`, if one runs.
pub fn stop_repeat(host: &mut ScriptHost, key_name: &String)
    requires
        old(host).wf(),
    ensures
        final(host).wf(),
        final(host)@ == stop_repeat_model(key_name@, old(host)@),
{
    let ghost h0 = host@;
    if host.repeats.contains(key_name) {
        host.repeats.remove(key_name);
        host.actions.push(ScriptAction::StopRepeat { key_name: key_name.clone() });
        assert(host@.actions =~= h0.actions.push(ActionModel::StopRepeat(key_name@)));
        assert(host@ =~= stop_repeat_model(key_name@, h0));
    }
}

/// Whether a repeat of `key_name` runs.
pub fn is_repeating(host: &ScriptHost, key_name: &String) -> (b: bool)
    requires
        host.wf(),
    ensures
        b == host@.repeats.dom().contains(key_name@),
{
    host.repeats.contains(key_name)
}

/// Stops every running repeat, one stop action per key, in no fixed order.
pub fn clear_all_repeats(host: &mut ScriptHost)
    requires
        old(host).wf(),
    ensures
        final(host).wf(),
        final(host)@.repeats == Map::<Seq<char>, u64>::empty(),
        final(host)@.actions.len() == old(host)@.actions.len() + old(host)@.repeats.dom().len(),
        final(host)@.actions.subrange(0, old(host)@.actions.len() as int) == old(host)@.actions,
        forall|i: int| old(host)@.actions.len() <= i < final(host)@.actions.len()
            ==> #[trigger] final(host)@.actions[i] is StopRepeat,
        forall|i: int| old(host)@.actions.len() <= i < final(host)@.actions.len()
            ==> old(host)@.repeats.dom().contains(#[trigger] final(host)@.actions[i]->StopRepeat_0),
        forall|k: Seq<char>| old(host)@.repeats.dom().contains(k) ==> exists|i: int|
            old(host)@.actions.len() <= i < final(host)@.actions.len() && #[trigger] final(host)@.actions[i] == ActionModel::StopRepeat(k),
        final(host)@.toggles == old(host)@.toggles,
        final(host)@.vars == old(host)@.vars,
        final(host)@.keys == old(host)@.keys,
        final(host)@.metas == old(host)@.metas,
        final(host)@.prints == old(host)@.prints,
{
    let ghost h0 = host@;
    let ghost entries = host.repeats.entries@;
    proof {
        lemma_entries_map(entries);
    }
    let n = host.repeats.entries.len();
    let base = host.actions.len();
    let mut i: usize = 0;
    while i < n
        invariant
            host.wf(),
            i <= n,
            n == entries.len(),
            base == h0.actions.len(),
            host.repeats.entries@ == entries,
            host@ == (HostModel { actions: host@.actions, ..h0 }),
            host@.actions.len() == base + i,
            host@.actions.subrange(0, base as int) == h0.actions,
            forall|j: int| 0 <= j < i ==> host@.actions[base + j] == ActionModel::StopRepeat(#[trigger] entries[j].0@),
        decreases n - i,
    {
        let name = host.repeats.entries[i].0.clone();
        let ghost before = host@.actions;
        host.actions.push(ScriptAction::StopRepeat { key_name: name });
        assert(host@.actions =~= before.push(ActionModel::StopRepeat(entries[i as int].0@)));
        assert(host@.actions.subrange(0, base as int) =~= before.subrange(0, base as int));
        i = i + 1;
    }
    host.repeats = AssocList::new();
    proof {
        let fa = host@.actions;
        assert forall|k: int| base <= k < fa.len() implies h0.repeats.dom().contains(#[trigger] fa[k]->StopRepeat_0) by {
            assert(fa[base + (k - base)] == ActionModel::StopRepeat(entries[k - base].0@));
        }
        assert forall|k: int| base <= k < fa.len() implies #[trigger] fa[k] is StopRepeat by {
            assert(fa[base + (k - base)] == ActionModel::StopRepeat(entries[k - base].0@));
        }
        assert forall|key: Seq<char>| h0.repeats.dom().contains(key) implies exists|k: int|
            base <= k < fa.len() && #[trigger] fa[k] == ActionModel::StopRepeat(key) by {
            let j = choose|j: int| 0 <= j < entries.len() && #[trigger] entries[j].0@ == key;
            assert(fa[base + j] == ActionModel::StopRepeat(entries[j].0@));
        }
    }
}

/// What becomes of a printed line under the global limit of 100 prints a
/// second.
#[derive(Debug, Clone, Copy, PartialEq, Eq, Structural)]
pub enum PrintDecision {
    /// The line is logged.
    Print,
    /// The limit was just passed: a warning is logged instead of the line.
    WarnAndSuppress,
    /// The line is dropped.
    Suppress,
}

/// The global print limit: a window that is a second old or more starts
/// anew; the print is counted in the window; the first 100 prints of a
/// window are logged, the 101st gives the warning, later ones are dropped.
/// The result says whether the window starts anew (at the time of this
/// print), the window's new count, and the decision.
pub open spec fn print_rate_model(count: nat, elapsed_secs: nat) -> (bool, nat, PrintDecision) {
    let restart = elapsed_secs >= 1;
    let c = (if restart { 0 } else { count }) + 1;
    (restart, c, if c > 100 {
        if c == 101 { PrintDecision::WarnAndSuppress } else { PrintDecision::Suppress }
    } else {
        PrintDecision::Print
    })
}

/// Decides on one print, from the count of the current window and the whole
/// seconds since it started. The count bound is a machine limit.
pub fn print_rate_step(count: usize, elapsed_secs: u64) -> (r: (bool, usize, PrintDecision))
    requires
        count < usize::MAX,
    ensures
        (r.0, r.1 as nat, r.2) == print_rate_model(count as nat, elapsed_secs as nat),
{
    let restart = elapsed_secs >= 1;
    let c = if restart { 1 } else { count + 1 };
    let d = if c > 100 {
        if c == 101 { PrintDecision::WarnAndSuppress } else { PrintDecision::Suppress }
    } else {
        PrintDecision::Print
    };
    (restart, c, d)
}

} // verus!
