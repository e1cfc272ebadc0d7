//! Key mappings that act through the script host: an auto-repeated key and a
//! set of scripts bound to a key's press, hold and release.

use vstd::prelude::*;
use crate::script::ast::Program;
use crate::script::host::{
    HostModel, ScriptHost, is_repeating, join3, known_name, name_known, start_repeat, start_repeat_model, stop_repeat,
    stop_repeat_model, strs,
};
use crate::script::interp::ScriptAST;
use crate::script::grammar::{StmtM, script_spec, stmts_m};
use crate::script::semantics::program_wf;

verus! {

/// A key that is pressed again and again while the mapping is active, as
/// stored in a mapping file. `P` is the mapping's position on screen and `B`
/// the key binding that triggers it.
#[derive(Debug, Clone)]
pub struct MappingAutoRepeat<P, B> {
    pub position: P,
    pub note: String,
    pub target_key: String,
    pub interval: u32,
    pub bind: B,
}

/// An auto-repeat mapping ready for use.
#[derive(Debug, Clone)]
pub struct BindMappingAutoRepeat<P, B> {
    pub position: P,
    pub note: String,
    pub target_key: String,
    pub interval: u32,
    pub bind: B,
}

/// What validation says of an auto-repeat mapping: the target key must be
/// named, the interval positive, and the key one the device knows.
pub open spec fn auto_repeat_check(target: Seq<char>, interval: u32, keys: Seq<Seq<char>>) -> Result<(), Seq<char>> {
    if target.len() == 0 {
        Err("Target key cannot be empty"@)
    } else if interval == 0 {
        Err("Interval must be a positive integer"@)
    } else if !name_known(keys, target) {
        Err("Invalid target key name '"@ + target + "'"@)
    } else {
        Ok(())
    }
}

impl<P, B> MappingAutoRepeat<P, B> {
    /// Checks the mapping against the key names the device knows.
    pub fn validate(&self, key_names: &Vec<String>) -> (r: Result<(), String>)
        ensures
            match (r, auto_repeat_check(self.target_key@, self.interval, strs(key_names@))) {
                (Ok(()), Ok(())) => true,
                (Err(m), Err(n)) => m@ == n,
                _ => false,
            },
    {
        if self.target_key.as_str().unicode_len() == 0 {
            return Err(String::from_str("Target key cannot be empty"));
        }
        if self.interval == 0 {
            return Err(String::from_str("Interval must be a positive integer"));
        }
        if known_name(key_names, &self.target_key).is_none() {
            return Err(join3("Invalid target key name '", self.target_key.as_str(), "'"));
        }
        Ok(())
    }
}

impl<P, B> BindMappingAutoRepeat<P, B> {
    /// The mapping as it is used, from its stored form.
    pub fn from_mapping(m: MappingAutoRepeat<P, B>) -> (r: Self)
        ensures
            r.note@ == m.note@,
            r.target_key@ == m.target_key@,
            r.interval == m.interval,
            r.position == m.position,
            r.bind == m.bind,
    {
        BindMappingAutoRepeat {
            position: m.position,
            note: m.note,
            target_key: m.target_key,
            interval: m.interval,
            bind: m.bind,
        }
    }
}

/// A press of an auto-repeat key: stops the repeat of its target if one
/// runs, else starts one (a start on an unknown key does nothing).
pub open spec fn auto_repeat_press_model(target: Seq<char>, interval: u32, h: HostModel) -> HostModel {
    if h.repeats.dom().contains(target) {
        stop_repeat_model(target, h)
    } else {
        start_repeat_model(target, interval as u64, h).1
    }
}

/// Handles a press of an auto-repeat key.
pub fn auto_repeat_press(host: &mut ScriptHost, target: &String, interval: u32)
    requires
        old(host).wf(),
    ensures
        final(host).wf(),
        final(host)@ == auto_repeat_press_model(target@, interval, old(host)@),
{
    if is_repeating(host, target) {
        stop_repeat(host, target);
    } else {
        let _ = start_repeat(host, target.clone(), interval as u64);
    }
}

/// Pressing an auto-repeat key twice stops what the first press started.
pub proof fn law_auto_repeat_press_twice(target: Seq<char>, interval: u32, h: HostModel)
    requires
        !h.repeats.dom().contains(target),
        name_known(h.keys, target),
    ensures
        ({
            let h1 = auto_repeat_press_model(target, interval, h);
            let h2 = auto_repeat_press_model(target, interval, h1);
            h1.repeats.dom().contains(target) && !h2.repeats.dom().contains(target) && h2.repeats == h.repeats
        }),
{
    let h1 = auto_repeat_press_model(target, interval, h);
    let h2 = auto_repeat_press_model(target, interval, h1);
    assert(h2.repeats =~= h.repeats);
}

/// Scripts bound to a key: run once on press, once on release, and every
/// `interval` milliseconds while the key is held.
#[derive(Debug, Clone)]
pub struct MappingScript<P, B> {
    pub position: P,
    pub note: String,
    pub pressed_script: String,
    pub released_script: String,
    pub held_script: String,
    pub interval: u64,
    pub bind: B,
}

/// A script mapping ready for use, with its scripts parsed. A script that
/// did not parse is kept as an empty program whose parse error is reported
/// each time the script would run.
#[derive(Debug)]
pub struct BindMappingScript<P, B> {
    pub position: P,
    pub note: String,
    pub pressed_script: String,
    pub released_script: String,
    pub held_script: String,
    pub pressed_script_ast: ScriptAST,
    pub released_script_ast: ScriptAST,
    pub held_script_ast: ScriptAST,
    pub interval: u64,
    pub bind: B,
}

/// A parsed script can be run: it has no parse error, or it is well formed.
pub open spec fn runnable(ast: ScriptAST) -> bool {
    ast.parse_error is Some || ast.empty || program_wf(ast.program.stmts@)
}

/// `ast` is what a mapping keeps of `script`: the parsed script, or, when it
/// does not parse, an empty program with the message prefixed with `label`.
pub open spec fn parsed_as(ast: ScriptAST, script: Seq<char>, label: Seq<char>) -> bool {
    match script_spec(script) {
        Ok(ss) => {
            &&& ast.parse_error is None
            &&& stmts_m(ast.program.stmts@) == ss
            &&& ast.script@ == script
            &&& ast.empty == (script.len() == 0)
        },
        Err(e) => {
            &&& ast.parse_error matches Some(m) && m@ == label + e
            &&& ast.program.stmts@.len() == 0
            &&& !ast.empty
        },
    }
}

/// Parses a script of a mapping; a failure is kept as an empty program with
/// the message, prefixed with `label`.
fn parse_or_record(script: &String, label: &str) -> (ast: ScriptAST)
    requires
        script@.len() < usize::MAX,
    ensures
        runnable(ast),
        parsed_as(ast, script@, label@),
{
    match ScriptAST::new(script.as_str()) {
        Ok(ast) => ast,
        Err(e) => {
            let mut m = String::from_str(label);
            m.append(e.as_str());
            assert(m@.take(label@.len() as int) =~= label@);
            ScriptAST {
                program: Program { stmts: Vec::new(), errors: Vec::new() },
                script: String::new(),
                empty: false,
                parse_error: Some(m),
            }
        },
    }
}

impl<P, B> BindMappingScript<P, B> {
    /// The mapping as it is used: each script parsed once, with a parse
    /// failure kept as the script's error (`Pressed Script: ...` and so on).
    /// The length bounds are a machine limit of the parser.
    pub fn from_mapping(m: MappingScript<P, B>) -> (r: Self)
        requires
            m.pressed_script@.len() < usize::MAX,
            m.released_script@.len() < usize::MAX,
            m.held_script@.len() < usize::MAX,
        ensures
            runnable(r.pressed_script_ast),
            runnable(r.released_script_ast),
            runnable(r.held_script_ast),
            parsed_as(r.pressed_script_ast, m.pressed_script@, "Pressed Script: "@),
            parsed_as(r.released_script_ast, m.released_script@, "Released Script: "@),
            parsed_as(r.held_script_ast, m.held_script@, "Held Script: "@),
            r.pressed_script@ == m.pressed_script@,
            r.released_script@ == m.released_script@,
            r.held_script@ == m.held_script@,
            r.interval == m.interval,
            r.note@ == m.note@,
            r.position == m.position,
            r.bind == m.bind,
    {
        let pressed_script_ast = parse_or_record(&m.pressed_script, "Pressed Script: ");
        let released_script_ast = parse_or_record(&m.released_script, "Released Script: ");
        let held_script_ast = parse_or_record(&m.held_script, "Held Script: ");
        BindMappingScript {
            position: m.position,
            note: m.note,
            pressed_script: m.pressed_script,
            released_script: m.released_script,
            held_script: m.held_script,
            pressed_script_ast,
            released_script_ast,
            held_script_ast,
            interval: m.interval,
            bind: m.bind,
        }
    }
}

/// The message of a script that does not parse, under its label; nothing
/// for one that parses.
pub open spec fn labeled_error(label: Seq<char>, script: Seq<char>) -> Seq<Seq<char>> {
    match script_spec(script) {
        Err(e) => seq![label + ":\n"@ + e],
        Ok(_) => Seq::empty(),
    }
}

/// Lines joined by newlines.
pub open spec fn join_lines(s: Seq<Seq<char>>) -> Seq<char>
    decreases s.len(),
{
    if s.len() == 0 {
        Seq::empty()
    } else if s.len() == 1 {
        s[0]
    } else {
        join_lines(s.drop_last()) + "\n"@ + s.last()
    }
}

/// The messages of the scripts of a mapping that do not parse.
pub open spec fn script_errors(pressed: Seq<char>, released: Seq<char>, held: Seq<char>) -> Seq<Seq<char>> {
    labeled_error("mask.mapping.pressedScriptError"@, pressed) + labeled_error("mask.mapping.releasedScriptError"@, released)
        + labeled_error("mask.mapping.heldScriptError"@, held)
}

impl<P, B> MappingScript<P, B> {
    /// Checks that the three scripts parse: the messages of those that do
    /// not, each under its label and separated by newlines. The length
    /// bounds are a machine limit of the parser.
    pub fn validate(&self) -> (r: Result<(), String>)
        requires
            self.pressed_script@.len() < usize::MAX,
            self.released_script@.len() < usize::MAX,
            self.held_script@.len() < usize::MAX,
        ensures
            match r {
                Ok(()) => script_errors(self.pressed_script@, self.released_script@, self.held_script@).len() == 0,
                Err(m) => {
                    &&& script_errors(self.pressed_script@, self.released_script@, self.held_script@).len() > 0
                    &&& m@ == join_lines(script_errors(self.pressed_script@, self.released_script@, self.held_script@))
                },
            },
    {
        let ghost es = script_errors(self.pressed_script@, self.released_script@, self.held_script@);
        let mut errors: Vec<String> = Vec::new();
        match ScriptAST::new(self.pressed_script.as_str()) {
            Err(e) => errors.push(join3("mask.mapping.pressedScriptError", ":\n", e.as_str())),
            Ok(_) => {},
        }
        assert(strs(errors@) =~= labeled_error("mask.mapping.pressedScriptError"@, self.pressed_script@));
        let ghost e1 = strs(errors@);
        match ScriptAST::new(self.released_script.as_str()) {
            Err(e) => errors.push(join3("mask.mapping.releasedScriptError", ":\n", e.as_str())),
            Ok(_) => {},
        }
        assert(strs(errors@) =~= e1 + labeled_error("mask.mapping.releasedScriptError"@, self.released_script@));
        let ghost e2 = strs(errors@);
        match ScriptAST::new(self.held_script.as_str()) {
            Err(e) => errors.push(join3("mask.mapping.heldScriptError", ":\n", e.as_str())),
            Ok(_) => {},
        }
        assert(strs(errors@) =~= e2 + labeled_error("mask.mapping.heldScriptError"@, self.held_script@));
        assert(strs(errors@) == es);
        if errors.len() == 0 {
            return Ok(());
        }
        let mut out = String::new();
        let mut i: usize = 0;
        assert(es.take(0) =~= Seq::<Seq<char>>::empty());
        while i < errors.len()
            invariant
                i <= errors@.len(),
                es == strs(errors@),
                out@ == join_lines(es.take(i as int)),
            decreases errors@.len() - i,
        {
            if i > 0 {
                out.append("\n");
            }
            out.append(errors[i].as_str());
            proof {
                assert(es.take(i + 1).drop_last() =~= es.take(i as int));
                if i == 0 {
                    assert(out@ =~= join_lines(es.take(1)));
                }
            }
            i = i + 1;
        }
        assert(es.take(errors@.len() as int) =~= es);
        Err(out)
    }
}

/// What a key event does with one of the mapping's scripts.
#[derive(Debug, PartialEq, Eq)]
pub enum ScriptRun {
    /// Report the script's parse error.
    ReportError(String),
    /// Run the script.
    Run,
    /// Nothing to run.
    Nothing,
}

/// What to do with a parsed script when its key event comes (the caller
/// first clears the previous script error).
pub fn script_run(ast: &ScriptAST) -> (r: ScriptRun)
    ensures
        match ast.parse_error {
            Some(e) => r matches ScriptRun::ReportError(m) && m@ == e@,
            None => r == (if ast.empty { ScriptRun::Nothing } else { ScriptRun::Run }),
        },
{
    match &ast.parse_error {
        Some(e) => ScriptRun::ReportError(e.clone()),
        None => if ast.empty { ScriptRun::Nothing } else { ScriptRun::Run },
    }
}

/// Whether a press starts the held-script timer (and a release stops it):
/// only when there is a held script.
pub fn uses_held_timer(ast: &ScriptAST) -> (b: bool)
    ensures
        b == !ast.empty,
{
    !ast.empty
}

} // verus!
