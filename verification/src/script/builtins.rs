//! The functions that every script can call by name, and what each one does
//! to the shared state.

use vstd::prelude::*;
use crate::script::host::{
    ActionModel, HostModel, KeyAction, ScriptAction, ScriptHost, TouchAction, is_repeating, known_name, name_known, name_of,
    join3, lit_eq, start_repeat, start_repeat_model, stop_repeat, stop_repeat_model, vals,
};
use crate::script::value::{Value, ValueModel};
use crate::text::{dec_int, dec_nat, i64_to_string, u64_to_string};

verus! {

/// The built-in functions.
#[derive(Debug, Clone, Copy, PartialEq, Eq, Structural)]
pub enum Builtin {
    Print,
    Wait,
    Sleep,
    Toggle,
    SetToggle,
    GetToggle,
    SetVar,
    GetVar,
    DelVar,
    HasVar,
    Tap,
    Swipe,
    SendKey,
    PasteText,
    Repeat,
    StopRepeat,
    IsRepeating,
}

/// The built-in function called `name`, if there is one.
pub open spec fn builtin_named(name: Seq<char>) -> Option<Builtin> {
    if name == "print"@ { Some(Builtin::Print) }
    else if name == "wait"@ { Some(Builtin::Wait) }
    else if name == "sleep"@ { Some(Builtin::Sleep) }
    else if name == "toggle"@ { Some(Builtin::Toggle) }
    else if name == "set_toggle"@ { Some(Builtin::SetToggle) }
    else if name == "get_toggle"@ { Some(Builtin::GetToggle) }
    else if name == "set_var"@ { Some(Builtin::SetVar) }
    else if name == "get_var"@ { Some(Builtin::GetVar) }
    else if name == "del_var"@ { Some(Builtin::DelVar) }
    else if name == "has_var"@ { Some(Builtin::HasVar) }
    else if name == "tap"@ { Some(Builtin::Tap) }
    else if name == "swipe"@ { Some(Builtin::Swipe) }
    else if name == "send_key"@ { Some(Builtin::SendKey) }
    else if name == "paste_text"@ { Some(Builtin::PasteText) }
    else if name == "repeat"@ { Some(Builtin::Repeat) }
    else if name == "stop_repeat"@ { Some(Builtin::StopRepeat) }
    else if name == "is_repeating"@ { Some(Builtin::IsRepeating) }
    else { None }
}

/// Finds the built-in function called `name`.
pub fn lookup_builtin(name: &String) -> (r: Option<Builtin>)
    ensures
        r == builtin_named(name@),
{
    if lit_eq(name, "print") { Some(Builtin::Print) }
    else if lit_eq(name, "wait") { Some(Builtin::Wait) }
    else if lit_eq(name, "sleep") { Some(Builtin::Sleep) }
    else if lit_eq(name, "toggle") { Some(Builtin::Toggle) }
    else if lit_eq(name, "set_toggle") { Some(Builtin::SetToggle) }
    else if lit_eq(name, "get_toggle") { Some(Builtin::GetToggle) }
    else if lit_eq(name, "set_var") { Some(Builtin::SetVar) }
    else if lit_eq(name, "get_var") { Some(Builtin::GetVar) }
    else if lit_eq(name, "del_var") { Some(Builtin::DelVar) }
    else if lit_eq(name, "has_var") { Some(Builtin::HasVar) }
    else if lit_eq(name, "tap") { Some(Builtin::Tap) }
    else if lit_eq(name, "swipe") { Some(Builtin::Swipe) }
    else if lit_eq(name, "send_key") { Some(Builtin::SendKey) }
    else if lit_eq(name, "paste_text") { Some(Builtin::PasteText) }
    else if lit_eq(name, "repeat") { Some(Builtin::Repeat) }
    else if lit_eq(name, "stop_repeat") { Some(Builtin::StopRepeat) }
    else if lit_eq(name, "is_repeating") { Some(Builtin::IsRepeating) }
    else { None }
}

/// A call's outcome: a value or an error message, and the new state.
pub type Outcome = (Result<ValueModel, Seq<char>>, HostModel);

/// The model of an executable call result.
pub open spec fn result_view(r: Result<Value, String>) -> Result<ValueModel, Seq<char>> {
    match r {
        Ok(v) => Ok(v@),
        Err(m) => Err(m@),
    }
}

pub open spec fn ok0(h: HostModel) -> Outcome {
    (Ok(ValueModel::Int(0)), h)
}

pub open spec fn fail(m: Seq<char>, h: HostModel) -> Outcome {
    (Err(m), h)
}

/// `h` with one more recorded action.
pub open spec fn push_action(h: HostModel, a: ActionModel) -> HostModel {
    HostModel { actions: h.actions.push(a), ..h }
}

/// A value as `print` writes it.
pub open spec fn plain_text(v: ValueModel) -> Seq<char> {
    match v {
        ValueModel::Int(n) => dec_int(n as int),
        ValueModel::Bool(b) => if b { "true"@ } else { "false"@ },
        ValueModel::Str(s) => s,
    }
}

/// The values as `print` writes them, separated by single spaces.
pub open spec fn joined(args: Seq<ValueModel>) -> Seq<char>
    decreases args.len(),
{
    if args.len() == 0 {
        Seq::empty()
    } else if args.len() == 1 {
        plain_text(args[0])
    } else {
        joined(args.drop_last()) + " "@ + plain_text(args.last())
    }
}

/// `print`: at most 1000 lines per run are recorded; later calls do nothing.
pub open spec fn print_model(args: Seq<ValueModel>, h: HostModel) -> Outcome {
    let c = if h.prints < u64::MAX { (h.prints + 1) as u64 } else { h.prints };
    let h1 = HostModel { prints: c, ..h };
    if c > 1000 {
        ok0(h1)
    } else {
        ok0(push_action(h1, ActionModel::Print(joined(args))))
    }
}

/// `wait` and `sleep`: one integer, the pause in milliseconds.
pub open spec fn sleep_model(args: Seq<ValueModel>, h: HostModel, usage: Seq<char>) -> Outcome {
    if args.len() == 1 && args[0] is Int {
        ok0(push_action(h, ActionModel::Sleep(args[0]->Int_0 as u64)))
    } else {
        fail(usage, h)
    }
}

/// Whether toggle `id` is on (toggles are off until set).
pub open spec fn toggle_on(h: HostModel, id: i64) -> bool {
    h.toggles.dom().contains(id) && h.toggles[id]
}

/// A new toggle beyond the 10000th is refused.
pub open spec fn toggles_full(h: HostModel, id: i64) -> bool {
    !h.toggles.dom().contains(id) && h.toggles.dom().len() >= 10000
}

/// `toggle(id)`: flips the toggle and returns its new state.
pub open spec fn toggle_model(args: Seq<ValueModel>, h: HostModel) -> Outcome {
    if !(args.len() == 1 && args[0] is Int) {
        fail("The toggle function takes one argument: id (int)"@, h)
    } else {
        let id = args[0]->Int_0;
        if toggles_full(h, id) {
            fail("SCRIPT_TOGGLES limit exceeded (max 10000 entries)"@, h)
        } else {
            let nv = !toggle_on(h, id);
            (Ok(ValueModel::Bool(nv)), HostModel { toggles: h.toggles.insert(id, nv), ..h })
        }
    }
}

/// `set_toggle(id, value)`: a boolean, or an integer (non-zero is on).
pub open spec fn set_toggle_model(args: Seq<ValueModel>, h: HostModel) -> Outcome {
    if !(args.len() == 2 && args[0] is Int) {
        fail("The set_toggle function takes two arguments: id (int), value (bool/int)"@, h)
    } else if args[1] is Str {
        fail("The set_toggle function's second argument must be a boolean or integer"@, h)
    } else {
        let id = args[0]->Int_0;
        let v = match args[1] {
            ValueModel::Bool(b) => b,
            ValueModel::Int(i) => i != 0,
            ValueModel::Str(_) => false,
        };
        if toggles_full(h, id) {
            fail("SCRIPT_TOGGLES limit exceeded (max 10000 entries)"@, h)
        } else {
            ok0(HostModel { toggles: h.toggles.insert(id, v), ..h })
        }
    }
}

/// `get_toggle(id)`.
pub open spec fn get_toggle_model(args: Seq<ValueModel>, h: HostModel) -> Outcome {
    if !(args.len() == 1 && args[0] is Int) {
        fail("The get_toggle function takes one argument: id (int)"@, h)
    } else {
        (Ok(ValueModel::Bool(toggle_on(h, args[0]->Int_0))), h)
    }
}

/// `set_var(name, value)`: at most 10000 names.
pub open spec fn set_var_model(args: Seq<ValueModel>, h: HostModel) -> Outcome {
    if args.len() != 2 {
        fail("The set_var function takes two arguments: name (str), value (any)"@, h)
    } else if !(args[0] is Str) {
        fail("The set_var function's first argument must be a string"@, h)
    } else {
        let name = args[0]->Str_0;
        if !h.vars.dom().contains(name) && h.vars.dom().len() >= 10000 {
            fail("SCRIPT_VARS limit exceeded (max 10000 entries)"@, h)
        } else {
            ok0(HostModel { vars: h.vars.insert(name, args[1]), ..h })
        }
    }
}

/// `get_var(name)`: the stored value, or 0.
pub open spec fn get_var_model(args: Seq<ValueModel>, h: HostModel) -> Outcome {
    if args.len() != 1 {
        fail("The get_var function takes one argument: name (str)"@, h)
    } else if !(args[0] is Str) {
        fail("The get_var function's argument must be a string"@, h)
    } else {
        let name = args[0]->Str_0;
        (Ok(if h.vars.dom().contains(name) { h.vars[name] } else { ValueModel::Int(0) }), h)
    }
}

/// `del_var(name)`.
pub open spec fn del_var_model(args: Seq<ValueModel>, h: HostModel) -> Outcome {
    if args.len() != 1 {
        fail("The del_var function takes one argument: name (str)"@, h)
    } else if !(args[0] is Str) {
        fail("The del_var function's argument must be a string"@, h)
    } else {
        ok0(HostModel { vars: h.vars.remove(args[0]->Str_0), ..h })
    }
}

/// `has_var(name)`.
pub open spec fn has_var_model(args: Seq<ValueModel>, h: HostModel) -> Outcome {
    if args.len() != 1 {
        fail("The has_var function takes one argument: name (str)"@, h)
    } else if !(args[0] is Str) {
        fail("The has_var function's argument must be a string"@, h)
    } else {
        (Ok(ValueModel::Bool(h.vars.dom().contains(args[0]->Str_0))), h)
    }
}

/// `tap(pointer_id, x, y, action?)`: a "default" tap is a press, a 30 ms
/// pause and a release.
pub open spec fn tap_model(args: Seq<ValueModel>, h: HostModel) -> Outcome {
    let usage = "The tap function takes 3-4 arguments: pointer_id (int), x (int), y (int), action (optional string: 'default', 'down', 'up', or 'move', default is 'default')"@;
    if args.len() < 3 || args.len() > 4 {
        fail(usage, h)
    } else {
        let a = if args.len() == 4 { args[3] } else { ValueModel::Str("default"@) };
        if !(args[0] is Int && args[1] is Int && args[2] is Int && a is Str) {
            fail(usage, h)
        } else {
            let act = a->Str_0;
            let ta = if act == "default"@ || act == "down"@ {
                Some(TouchAction::Down)
            } else if act == "up"@ {
                Some(TouchAction::Up)
            } else if act == "move"@ {
                Some(TouchAction::Move)
            } else {
                None
            };
            match ta {
                None => fail(
                    "Invalid action '"@ + act + "', action must be one of 'default', 'down', 'up', or 'move'"@,
                    h,
                ),
                Some(t) => {
                    let p = args[0]->Int_0;
                    if p < 0 {
                        fail("The pointer_id must be non-negative"@, h)
                    } else {
                        let x = args[1]->Int_0;
                        let y = args[2]->Int_0;
                        let h1 = push_action(h, ActionModel::Touch(t, p as u64, x, y));
                        if act == "default"@ {
                            ok0(push_action(push_action(h1, ActionModel::Sleep(30)), ActionModel::Touch(TouchAction::Up, p as u64, x, y)))
                        } else {
                            ok0(h1)
                        }
                    }
                },
            }
        }
    }
}

/// The coordinate pairs of a swipe from argument `i` on, or the message for
/// the first pair that is not two integers.
pub open spec fn swipe_points(args: Seq<ValueModel>, i: int) -> Result<Seq<(i64, i64)>, Seq<char>>
    decreases args.len() - i,
{
    if i < 0 || i + 1 >= args.len() {
        Ok(Seq::empty())
    } else if args[i] is Int && args[i + 1] is Int {
        match swipe_points(args, i + 2) {
            Ok(rest) => Ok(seq![(args[i]->Int_0, args[i + 1]->Int_0)] + rest),
            Err(m) => Err(m),
        }
    } else {
        Err("Coordinates at index "@ + dec_nat(i as nat) + " and "@ + dec_nat((i + 1) as nat) + " must be integers"@)
    }
}

/// `swipe(pointer_id, interval, x1, y1, x2, y2, ...)`.
pub open spec fn swipe_model(args: Seq<ValueModel>, h: HostModel) -> Outcome {
    if args.len() < 6 || args.len() % 2 != 0 {
        fail("The swipe function takes at least 6 arguments: pointer_id (int), interval (int), x1 (int), y1 (int), x2 (int), y2 (int)..."@, h)
    } else if !(args[0] is Int && args[1] is Int && args[0]->Int_0 >= 0 && args[1]->Int_0 >= 0) {
        fail("The pointer_id and interval must be non-negative integers"@, h)
    } else {
        match swipe_points(args, 2) {
            Err(m) => fail(m, h),
            Ok(pts) => ok0(push_action(h, ActionModel::Swipe(args[0]->Int_0 as u64, args[1]->Int_0 as u64, pts))),
        }
    }
}

/// `send_key(key_name, action?, metastate?)`: a "default" press is a key
/// down followed by a key up.
pub open spec fn send_key_model(args: Seq<ValueModel>, h: HostModel) -> Outcome {
    if args.len() == 0 || args.len() > 3 {
        fail("The send_key function takes 1-3 arguments: key_name (string), action (optional string: 'down' or 'up', default 'default'), metastate (optional string, default 'NONE')"@, h)
    } else if !(args[0] is Str) {
        fail("First argument must be a string (key_name)"@, h)
    } else if args.len() >= 2 && !(args[1] is Str) {
        fail("Second argument must be a string (action)"@, h)
    } else if args.len() >= 3 && !(args[2] is Str) {
        fail("Third argument must be a string (metastate)"@, h)
    } else {
        let key = args[0]->Str_0;
        let act = if args.len() >= 2 { args[1]->Str_0 } else { "default"@ };
        let meta = if args.len() >= 3 { args[2]->Str_0 } else { "NONE"@ };
        if !(act == "down"@ || act == "up"@ || act == "default"@) {
            fail("Invalid action '"@ + act + "', must be 'default', 'down' or 'up'"@, h)
        } else if !name_known(h.keys, key) {
            fail("Invalid key name '"@ + key + "'"@, h)
        } else if !name_known(h.metas, meta) {
            fail("Invalid metastate '"@ + meta + "'"@, h)
        } else {
            let ka = if act == "down"@ { KeyAction::Down } else { KeyAction::Up };
            let (k, m) = (name_of(key), name_of(meta));
            let h1 = if act == "default"@ { push_action(h, ActionModel::Key(KeyAction::Down, k, m)) } else { h };
            ok0(push_action(h1, ActionModel::Key(ka, k, m)))
        }
    }
}

/// `paste_text(text)`.
pub open spec fn paste_model(args: Seq<ValueModel>, h: HostModel) -> Outcome {
    if args.len() == 1 && args[0] is Str {
        ok0(push_action(h, ActionModel::Paste(args[0]->Str_0)))
    } else {
        fail("The paste_text function takes one argument: text (string)"@, h)
    }
}

/// `repeat(key_name, interval)`.
pub open spec fn repeat_model(args: Seq<ValueModel>, h: HostModel) -> Outcome {
    if args.len() != 2 {
        fail("The repeat function takes two arguments: key_name (string) and interval (int)"@, h)
    } else if !(args[0] is Str) {
        fail("First argument to repeat must be a string (key_name)"@, h)
    } else if !(args[1] is Int) {
        fail("Second argument to repeat must be an integer (interval in ms)"@, h)
    } else if args[1]->Int_0 <= 0 {
        fail("Second argument to repeat must be a positive integer"@, h)
    } else {
        let (r, h1) = start_repeat_model(args[0]->Str_0, args[1]->Int_0 as u64, h);
        match r {
            Ok(()) => ok0(h1),
            Err(m) => fail(m, h1),
        }
    }
}

/// `stop_repeat(key_name)`.
pub open spec fn stop_repeat_call_model(args: Seq<ValueModel>, h: HostModel) -> Outcome {
    if args.len() != 1 {
        fail("The stop_repeat function takes one argument: key_name (string)"@, h)
    } else if !(args[0] is Str) {
        fail("Argument to stop_repeat must be a string (key_name)"@, h)
    } else {
        ok0(stop_repeat_model(args[0]->Str_0, h))
    }
}

/// `is_repeating(key_name)`.
pub open spec fn is_repeating_call_model(args: Seq<ValueModel>, h: HostModel) -> Outcome {
    if args.len() != 1 {
        fail("The is_repeating function takes one argument: key_name (string)"@, h)
    } else if !(args[0] is Str) {
        fail("Argument to is_repeating must be a string (key_name)"@, h)
    } else {
        (Ok(ValueModel::Bool(h.repeats.dom().contains(args[0]->Str_0))), h)
    }
}

/// What calling built-in `b` with `args` gives, and the state it leaves.
pub open spec fn builtin_model(b: Builtin, args: Seq<ValueModel>, h: HostModel) -> Outcome {
    match b {
        Builtin::Print => print_model(args, h),
        Builtin::Wait => sleep_model(args, h, "The wait function takes one argument: time (int)"@),
        Builtin::Sleep => sleep_model(args, h, "The sleep function takes one argument: time (int)"@),
        Builtin::Toggle => toggle_model(args, h),
        Builtin::SetToggle => set_toggle_model(args, h),
        Builtin::GetToggle => get_toggle_model(args, h),
        Builtin::SetVar => set_var_model(args, h),
        Builtin::GetVar => get_var_model(args, h),
        Builtin::DelVar => del_var_model(args, h),
        Builtin::HasVar => has_var_model(args, h),
        Builtin::Tap => tap_model(args, h),
        Builtin::Swipe => swipe_model(args, h),
        Builtin::SendKey => send_key_model(args, h),
        Builtin::PasteText => paste_model(args, h),
        Builtin::Repeat => repeat_model(args, h),
        Builtin::StopRepeat => stop_repeat_call_model(args, h),
        Builtin::IsRepeating => is_repeating_call_model(args, h),
    }
}

/// A value as `print` writes it.
fn plain_string(v: &Value) -> (r: String)
    ensures
        r@ == plain_text(v@),
{
    match v {
        Value::Int(n) => i64_to_string(*n),
        Value::Bool(b) => if *b { String::from_str("true") } else { String::from_str("false") },
        Value::Str(s) => s.clone(),
    }
}

/// The values as `print` writes them, separated by single spaces.
fn join_values(args: &Vec<Value>) -> (r: String)
    ensures
        r@ == joined(vals(args@)),
{
    let ghost a = vals(args@);
    let mut s = String::new();
    let mut i: usize = 0;
    assert(a.take(0) =~= Seq::<ValueModel>::empty());
    while i < args.len()
        invariant
            i <= args@.len(),
            a == vals(args@),
            s@ == joined(a.take(i as int)),
        decreases args@.len() - i,
    {
        if i > 0 {
            s.append(" ");
        }
        let t = plain_string(&args[i]);
        s.append(t.as_str());
        proof {
            let next = a.take(i + 1);
            assert(next.drop_last() =~= a.take(i as int));
            assert(next.last() == args@[i as int]@);
            if i == 0 {
                assert(s@ =~= joined(next));
            } else {
                assert(s@ =~= joined(next));
            }
        }
        i = i + 1;
    }
    assert(a.take(args@.len() as int) =~= a);
    s
}

/// Records an action.
fn record(host: &mut ScriptHost, a: ScriptAction)
    requires
        old(host).wf(),
    ensures
        final(host).wf(),
        final(host)@ == push_action(old(host)@, a@),
{
    let ghost h0 = host@;
    let ghost av = a@;
    host.actions.push(a);
    assert(host@.actions =~= h0.actions.push(av));
    assert(host@ =~= push_action(h0, av));
}

fn usage(m: &str) -> (r: Result<Value, String>)
    ensures
        r matches Err(e) && e@ == m@,
{
    Err(String::from_str(m))
}

fn call_print(args: &Vec<Value>, host: &mut ScriptHost) -> (r: Result<Value, String>)
    requires
        old(host).wf(),
    ensures
        final(host).wf(),
        (result_view(r), final(host)@) == print_model(vals(args@), old(host)@),
{
    let ghost h0 = host@;
    if host.print_count < u64::MAX {
        host.print_count = host.print_count + 1;
    }
    if host.print_count > 1000 {
        assert(host@ =~= (HostModel { prints: host.print_count, ..h0 }));
        return Ok(Value::Int(0));
    }
    let text = join_values(args);
    assert(host@ =~= (HostModel { prints: host.print_count, ..h0 }));
    record(host, ScriptAction::Print { text });
    Ok(Value::Int(0))
}

fn call_sleep(args: &Vec<Value>, host: &mut ScriptHost, msg: &str) -> (r: Result<Value, String>)
    requires
        old(host).wf(),
    ensures
        final(host).wf(),
        (result_view(r), final(host)@) == sleep_model(vals(args@), old(host)@, msg@),
{
    let ghost h0 = host@;
    if args.len() == 1 {
        if let Value::Int(n) = &args[0] {
            record(host, ScriptAction::Sleep { ms: *n as u64 });
            return Ok(Value::Int(0));
        }
    }
    usage(msg)
}

fn toggle_state(host: &ScriptHost, id: i64) -> (b: bool)
    requires
        host.wf(),
    ensures
        b == toggle_on(host@, id),
{
    broadcast use vstd::std_specs::hash::group_hash_axioms;
    match host.toggles.get(&id) {
        Some(v) => *v,
        None => false,
    }
}

fn toggles_at_limit(host: &ScriptHost, id: i64) -> (b: bool)
    requires
        host.wf(),
    ensures
        b == toggles_full(host@, id),
{
    broadcast use vstd::std_specs::hash::group_hash_axioms;
    !host.toggles.contains_key(&id) && host.toggles.len() >= 10000
}

fn call_toggle(args: &Vec<Value>, host: &mut ScriptHost) -> (r: Result<Value, String>)
    requires
        old(host).wf(),
    ensures
        final(host).wf(),
        (result_view(r), final(host)@) == toggle_model(vals(args@), old(host)@),
{
    let ghost h0 = host@;
    let id = if args.len() == 1 {
        match &args[0] {
            Value::Int(n) => *n,
            _ => return usage("The toggle function takes one argument: id (int)"),
        }
    } else {
        return usage("The toggle function takes one argument: id (int)");
    };
    if toggles_at_limit(host, id) {
        return usage("SCRIPT_TOGGLES limit exceeded (max 10000 entries)");
    }
    let nv = !toggle_state(host, id);
    proof {
        broadcast use vstd::std_specs::hash::group_hash_axioms;
    }
    host.toggles.insert(id, nv);
    assert(host@ =~= (HostModel { toggles: h0.toggles.insert(id, nv), ..h0 }));
    Ok(Value::Bool(nv))
}

fn call_set_toggle(args: &Vec<Value>, host: &mut ScriptHost) -> (r: Result<Value, String>)
    requires
        old(host).wf(),
    ensures
        final(host).wf(),
        (result_view(r), final(host)@) == set_toggle_model(vals(args@), old(host)@),
{
    let ghost h0 = host@;
    let m = "The set_toggle function takes two arguments: id (int), value (bool/int)";
    let id = if args.len() == 2 {
        match &args[0] {
            Value::Int(n) => *n,
            _ => return usage(m),
        }
    } else {
        return usage(m);
    };
    let v = match &args[1] {
        Value::Bool(b) => *b,
        Value::Int(i) => *i != 0,
        Value::Str(_) => return usage("The set_toggle function's second argument must be a boolean or integer"),
    };
    if toggles_at_limit(host, id) {
        return usage("SCRIPT_TOGGLES limit exceeded (max 10000 entries)");
    }
    proof {
        broadcast use vstd::std_specs::hash::group_hash_axioms;
    }
    host.toggles.insert(id, v);
    assert(host@ =~= (HostModel { toggles: h0.toggles.insert(id, v), ..h0 }));
    Ok(Value::Int(0))
}

fn call_get_toggle(args: &Vec<Value>, host: &ScriptHost) -> (r: Result<Value, String>)
    requires
        host.wf(),
    ensures
        (result_view(r), host@) == get_toggle_model(vals(args@), host@),
{
    if args.len() == 1 {
        if let Value::Int(n) = &args[0] {
            return Ok(Value::Bool(toggle_state(host, *n)));
        }
    }
    usage("The get_toggle function takes one argument: id (int)")
}

/// The string argument at `i`, if it is one.
fn str_arg(args: &Vec<Value>, i: usize) -> (r: Option<&String>)
    requires
        i < args@.len(),
    ensures
        r is Some <==> vals(args@)[i as int] is Str,
        r matches Some(t) ==> t@ == vals(args@)[i as int]->Str_0,
{
    match &args[i] {
        Value::Str(t) => Some(t),
        _ => None,
    }
}

fn call_set_var(args: &Vec<Value>, host: &mut ScriptHost) -> (r: Result<Value, String>)
    requires
        old(host).wf(),
    ensures
        final(host).wf(),
        (result_view(r), final(host)@) == set_var_model(vals(args@), old(host)@),
{
    let ghost h0 = host@;
    if args.len() != 2 {
        return usage("The set_var function takes two arguments: name (str), value (any)");
    }
    let name = match str_arg(args, 0) {
        Some(t) => t.clone(),
        None => return usage("The set_var function's first argument must be a string"),
    };
    assert(h0.vars.dom() =~= host.vars.map().dom());
    if !host.vars.contains(&name) && host.vars.len() >= 10000 {
        return usage("SCRIPT_VARS limit exceeded (max 10000 entries)");
    }
    let v = args[1].duplicate();
    let ghost vm = v@;
    host.vars.insert(name, v);
    assert(host@.vars =~= h0.vars.insert(vals(args@)[0]->Str_0, vm));
    assert(host@ =~= (HostModel { vars: h0.vars.insert(vals(args@)[0]->Str_0, vals(args@)[1]), ..h0 }));
    Ok(Value::Int(0))
}

fn call_get_var(args: &Vec<Value>, host: &ScriptHost) -> (r: Result<Value, String>)
    requires
        host.wf(),
    ensures
        (result_view(r), host@) == get_var_model(vals(args@), host@),
{
    if args.len() != 1 {
        return usage("The get_var function takes one argument: name (str)");
    }
    match str_arg(args, 0) {
        Some(name) => match host.vars.get(name) {
            Some(v) => Ok(v.duplicate()),
            None => Ok(Value::Int(0)),
        },
        None => usage("The get_var function's argument must be a string"),
    }
}

fn call_del_var(args: &Vec<Value>, host: &mut ScriptHost) -> (r: Result<Value, String>)
    requires
        old(host).wf(),
    ensures
        final(host).wf(),
        (result_view(r), final(host)@) == del_var_model(vals(args@), old(host)@),
{
    let ghost h0 = host@;
    if args.len() != 1 {
        return usage("The del_var function takes one argument: name (str)");
    }
    match str_arg(args, 0) {
        Some(name) => {
            host.vars.remove(name);
            assert(host@.vars =~= h0.vars.remove(name@));
            assert(host@ =~= (HostModel { vars: h0.vars.remove(name@), ..h0 }));
            Ok(Value::Int(0))
        },
        None => usage("The del_var function's argument must be a string"),
    }
}

fn call_has_var(args: &Vec<Value>, host: &ScriptHost) -> (r: Result<Value, String>)
    requires
        host.wf(),
    ensures
        (result_view(r), host@) == has_var_model(vals(args@), host@),
{
    if args.len() != 1 {
        return usage("The has_var function takes one argument: name (str)");
    }
    match str_arg(args, 0) {
        Some(name) => Ok(Value::Bool(host.vars.contains(name))),
        None => usage("The has_var function's argument must be a string"),
    }
}

fn call_paste(args: &Vec<Value>, host: &mut ScriptHost) -> (r: Result<Value, String>)
    requires
        old(host).wf(),
    ensures
        final(host).wf(),
        (result_view(r), final(host)@) == paste_model(vals(args@), old(host)@),
{
    if args.len() == 1 {
        if let Some(t) = str_arg(args, 0) {
            record(host, ScriptAction::Paste { text: t.clone() });
            return Ok(Value::Int(0));
        }
    }
    usage("The paste_text function takes one argument: text (string)")
}

fn call_repeat(args: &Vec<Value>, host: &mut ScriptHost) -> (r: Result<Value, String>)
    requires
        old(host).wf(),
    ensures
        final(host).wf(),
        (result_view(r), final(host)@) == repeat_model(vals(args@), old(host)@),
{
    if args.len() != 2 {
        return usage("The repeat function takes two arguments: key_name (string) and interval (int)");
    }
    let key = match str_arg(args, 0) {
        Some(t) => t.clone(),
        None => return usage("First argument to repeat must be a string (key_name)"),
    };
    let interval = match &args[1] {
        Value::Int(i) => *i,
        _ => return usage("Second argument to repeat must be an integer (interval in ms)"),
    };
    if interval <= 0 {
        return usage("Second argument to repeat must be a positive integer");
    }
    match start_repeat(host, key, interval as u64) {
        Ok(()) => Ok(Value::Int(0)),
        Err(m) => Err(m),
    }
}

fn call_stop_repeat(args: &Vec<Value>, host: &mut ScriptHost) -> (r: Result<Value, String>)
    requires
        old(host).wf(),
    ensures
        final(host).wf(),
        (result_view(r), final(host)@) == stop_repeat_call_model(vals(args@), old(host)@),
{
    if args.len() != 1 {
        return usage("The stop_repeat function takes one argument: key_name (string)");
    }
    match str_arg(args, 0) {
        Some(t) => {
            stop_repeat(host, t);
            Ok(Value::Int(0))
        },
        None => usage("Argument to stop_repeat must be a string (key_name)"),
    }
}

fn call_is_repeating(args: &Vec<Value>, host: &ScriptHost) -> (r: Result<Value, String>)
    requires
        host.wf(),
    ensures
        (result_view(r), host@) == is_repeating_call_model(vals(args@), host@),
{
    if args.len() != 1 {
        return usage("The is_repeating function takes one argument: key_name (string)");
    }
    match str_arg(args, 0) {
        Some(t) => Ok(Value::Bool(is_repeating(host, t))),
        None => usage("Argument to is_repeating must be a string (key_name)"),
    }
}

fn call_tap(args: &Vec<Value>, host: &mut ScriptHost) -> (r: Result<Value, String>)
    requires
        old(host).wf(),
    ensures
        final(host).wf(),
        (result_view(r), final(host)@) == tap_model(vals(args@), old(host)@),
{
    let m = "The tap function takes 3-4 arguments: pointer_id (int), x (int), y (int), action (optional string: 'default', 'down', 'up', or 'move', default is 'default')";
    if args.len() < 3 || args.len() > 4 {
        return usage(m);
    }
    let (p, x, y) = match (&args[0], &args[1], &args[2]) {
        (Value::Int(p), Value::Int(x), Value::Int(y)) => (*p, *x, *y),
        _ => return usage(m),
    };
    let act = if args.len() == 4 {
        match str_arg(args, 3) {
            Some(t) => t.clone(),
            None => return usage(m),
        }
    } else {
        String::from_str("default")
    };
    let is_default = lit_eq(&act, "default");
    let t = if is_default || lit_eq(&act, "down") {
        TouchAction::Down
    } else if lit_eq(&act, "up") {
        TouchAction::Up
    } else if lit_eq(&act, "move") {
        TouchAction::Move
    } else {
        return Err(join3("Invalid action '", act.as_str(), "', action must be one of 'default', 'down', 'up', or 'move'"));
    };
    if p < 0 {
        return usage("The pointer_id must be non-negative");
    }
    record(host, ScriptAction::Touch { action: t, pointer_id: p as u64, x, y });
    if is_default {
        record(host, ScriptAction::Sleep { ms: 30 });
        record(host, ScriptAction::Touch { action: TouchAction::Up, pointer_id: p as u64, x, y });
    }
    Ok(Value::Int(0))
}

/// Prepends `front` to a list of points, passing an error through.
pub open spec fn prepend_points(front: Seq<(i64, i64)>, r: Result<Seq<(i64, i64)>, Seq<char>>) -> Result<Seq<(i64, i64)>, Seq<char>> {
    match r {
        Ok(rest) => Ok(front + rest),
        Err(m) => Err(m),
    }
}

fn collect_points(args: &Vec<Value>) -> (r: Result<Vec<(i64, i64)>, String>)
    requires
        args@.len() % 2 == 0,
    ensures
        match (r, swipe_points(vals(args@), 2)) {
            (Ok(v), Ok(w)) => v@ == w,
            (Err(m), Err(n)) => m@ == n,
            _ => false,
        },
{
    let ghost a = vals(args@);
    let mut pts: Vec<(i64, i64)> = Vec::new();
    let mut i: usize = 2;
    assert(pts@ + Seq::<(i64, i64)>::empty() =~= pts@);
    while i + 1 < args.len()
        invariant
            2 <= i,
            i % 2 == 0,
            args@.len() % 2 == 0,
            a == vals(args@),
            swipe_points(a, 2) == prepend_points(pts@, swipe_points(a, i as int)),
        decreases args@.len() - i,
    {
        match (&args[i], &args[i + 1]) {
            (Value::Int(x), Value::Int(y)) => {
                let ghost before = pts@;
                pts.push((*x, *y));
                proof {
                    match swipe_points(a, i + 2) {
                        Ok(rest) => {
                            assert(before + (seq![(*x, *y)] + rest) =~= pts@ + rest);
                        },
                        Err(_) => {},
                    }
                }
                i = i + 2;
            },
            _ => {
                let mut s = String::from_str("Coordinates at index ");
                s.append(u64_to_string(i as u64).as_str());
                s.append(" and ");
                s.append(u64_to_string((i + 1) as u64).as_str());
                s.append(" must be integers");
                return Err(s);
            },
        }
    }
    assert(pts@ + Seq::<(i64, i64)>::empty() =~= pts@);
    Ok(pts)
}

fn call_swipe(args: &Vec<Value>, host: &mut ScriptHost) -> (r: Result<Value, String>)
    requires
        old(host).wf(),
    ensures
        final(host).wf(),
        (result_view(r), final(host)@) == swipe_model(vals(args@), old(host)@),
{
    if args.len() < 6 || args.len() % 2 != 0 {
        return usage("The swipe function takes at least 6 arguments: pointer_id (int), interval (int), x1 (int), y1 (int), x2 (int), y2 (int)...");
    }
    let (p, iv) = match (&args[0], &args[1]) {
        (Value::Int(p), Value::Int(iv)) => (*p, *iv),
        _ => return usage("The pointer_id and interval must be non-negative integers"),
    };
    if p < 0 || iv < 0 {
        return usage("The pointer_id and interval must be non-negative integers");
    }
    match collect_points(args) {
        Err(m) => Err(m),
        Ok(points) => {
            record(host, ScriptAction::Swipe { pointer_id: p as u64, interval: iv as u64, points });
            Ok(Value::Int(0))
        },
    }
}

fn call_send_key(args: &Vec<Value>, host: &mut ScriptHost) -> (r: Result<Value, String>)
    requires
        old(host).wf(),
    ensures
        final(host).wf(),
        (result_view(r), final(host)@) == send_key_model(vals(args@), old(host)@),
{
    if args.len() == 0 || args.len() > 3 {
        return usage("The send_key function takes 1-3 arguments: key_name (string), action (optional string: 'down' or 'up', default 'default'), metastate (optional string, default 'NONE')");
    }
    let key = match str_arg(args, 0) {
        Some(t) => t.clone(),
        None => return usage("First argument must be a string (key_name)"),
    };
    let act = if args.len() >= 2 {
        match str_arg(args, 1) {
            Some(t) => t.clone(),
            None => return usage("Second argument must be a string (action)"),
        }
    } else {
        String::from_str("default")
    };
    let meta = if args.len() >= 3 {
        match str_arg(args, 2) {
            Some(t) => t.clone(),
            None => return usage("Third argument must be a string (metastate)"),
        }
    } else {
        String::from_str("NONE")
    };
    let down = lit_eq(&act, "down");
    let dflt = lit_eq(&act, "default");
    if !(down || lit_eq(&act, "up") || dflt) {
        return Err(join3("Invalid action '", act.as_str(), "', must be 'default', 'down' or 'up'"));
    }
    let keycode = match known_name(&host.key_names, &key) {
        Some(k) => k,
        None => return Err(join3("Invalid key name '", key.as_str(), "'")),
    };
    let metastate = match known_name(&host.meta_names, &meta) {
        Some(m) => m,
        None => return Err(join3("Invalid metastate '", meta.as_str(), "'")),
    };
    let ka = if down { KeyAction::Down } else { KeyAction::Up };
    if dflt {
        record(host, ScriptAction::Key { action: KeyAction::Down, key_name: keycode.clone(), metastate: metastate.clone() });
    }
    record(host, ScriptAction::Key { action: ka, key_name: keycode, metastate });
    Ok(Value::Int(0))
}

/// Calls built-in `b` with `args`: the value or error message of the call,
/// and its effect on the shared state.
pub fn call_builtin(b: Builtin, args: &Vec<Value>, host: &mut ScriptHost) -> (r: Result<Value, String>)
    requires
        old(host).wf(),
    ensures
        final(host).wf(),
        (result_view(r), final(host)@) == builtin_model(b, vals(args@), old(host)@),
{
    match b {
        Builtin::Print => call_print(args, host),
        Builtin::Wait => call_sleep(args, host, "The wait function takes one argument: time (int)"),
        Builtin::Sleep => call_sleep(args, host, "The sleep function takes one argument: time (int)"),
        Builtin::Toggle => call_toggle(args, host),
        Builtin::SetToggle => call_set_toggle(args, host),
        Builtin::GetToggle => call_get_toggle(args, host),
        Builtin::SetVar => call_set_var(args, host),
        Builtin::GetVar => call_get_var(args, host),
        Builtin::DelVar => call_del_var(args, host),
        Builtin::HasVar => call_has_var(args, host),
        Builtin::Tap => call_tap(args, host),
        Builtin::Swipe => call_swipe(args, host),
        Builtin::SendKey => call_send_key(args, host),
        Builtin::PasteText => call_paste(args, host),
        Builtin::Repeat => call_repeat(args, host),
        Builtin::StopRepeat => call_stop_repeat(args, host),
        Builtin::IsRepeating => call_is_repeating(args, host),
    }
}

} // verus!
