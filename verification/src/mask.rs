//! Decisions of the mask window's command handler: moving and resizing the
//! window (in two frames when it is on screen), its level and present mode,
//! the device connection changes, and evaluating a script sent from the web
//! page.

use vstd::prelude::*;
use crate::script::interp::ScriptAST;
use crate::script::grammar::{StmtM, script_spec, stmts_m};
use crate::script::host::lit_eq;
use crate::script::semantics::program_wf;

verus! {

/// The phase of a deferred resize.
#[derive(Debug, Clone, Copy, PartialEq, Eq, Structural)]
pub enum ResizeState {
    /// The window is hidden and gets its new geometry next frame.
    Resizing,
    /// The window has its geometry and is shown next frame.
    Showing,
}

/// A resize of the visible window, spread over two frames so that the
/// window is never seen at its old size in its new place.
#[derive(Debug, Clone, Copy, PartialEq, Eq, Structural)]
pub struct PendingResize {
    pub left: i32,
    pub top: i32,
    pub right: i32,
    pub bottom: i32,
    pub state: ResizeState,
}

/// What a frame does with the window.
#[derive(Debug, Clone, Copy, PartialEq, Eq, Structural)]
pub enum WindowStep {
    /// Hide the window now; it is resized in the next frames.
    Hide,
    /// Give the window this position and size.
    Place { left: i32, top: i32, width: i32, height: i32 },
    /// Show the window and answer the request that moved it.
    ShowAndAnswer,
}

/// A window move fits in `i32` arithmetic.
pub open spec fn move_fits(left: i32, top: i32, right: i32, bottom: i32) -> bool {
    i32::MIN <= right - left <= i32::MAX && i32::MIN <= bottom - top <= i32::MAX
}

/// A request to move the window to `left, top, right, bottom`: a visible
/// window is hidden and resized over the next two frames; a hidden one is
/// placed at once and the request answered.
pub fn plan_win_move(visible: bool, left: i32, top: i32, right: i32, bottom: i32) -> (r: (WindowStep, Option<PendingResize>))
    requires
        move_fits(left, top, right, bottom),
    ensures
        visible ==> r == (WindowStep::Hide, Some(PendingResize { left, top, right, bottom, state: ResizeState::Resizing })),
        !visible ==> r == (WindowStep::Place { left, top, width: (right - left) as i32, height: (bottom - top) as i32 }, None::<PendingResize>),
{
    if visible {
        (WindowStep::Hide, Some(PendingResize { left, top, right, bottom, state: ResizeState::Resizing }))
    } else {
        (WindowStep::Place { left, top, width: right - left, height: bottom - top }, None)
    }
}

/// The next frame of a deferred resize: first the window is placed, then it
/// is shown and the request answered, and the resize is over.
pub open spec fn resize_step(p: PendingResize) -> (WindowStep, Option<PendingResize>) {
    match p.state {
        ResizeState::Resizing => (
            WindowStep::Place { left: p.left, top: p.top, width: (p.right - p.left) as i32, height: (p.bottom - p.top) as i32 },
            Some(PendingResize { state: ResizeState::Showing, ..p }),
        ),
        ResizeState::Showing => (WindowStep::ShowAndAnswer, None),
    }
}

/// Advances a deferred resize by one frame.
pub fn advance_resize(p: &PendingResize) -> (r: (WindowStep, Option<PendingResize>))
    requires
        move_fits(p.left, p.top, p.right, p.bottom),
    ensures
        r == resize_step(*p),
{
    match p.state {
        ResizeState::Resizing => (
            WindowStep::Place { left: p.left, top: p.top, width: p.right - p.left, height: p.bottom - p.top },
            Some(PendingResize { state: ResizeState::Showing, ..*p }),
        ),
        ResizeState::Showing => (WindowStep::ShowAndAnswer, None),
    }
}

/// A deferred resize places the window at the requested geometry in the
/// first frame, shows it and answers in the second, and then leaves nothing
/// pending.
pub proof fn law_resize_takes_two_frames(left: i32, top: i32, right: i32, bottom: i32)
    ensures
        ({
            let (s1, p1) = resize_step(PendingResize { left, top, right, bottom, state: ResizeState::Resizing });
            &&& s1 == WindowStep::Place { left, top, width: (right - left) as i32, height: (bottom - top) as i32 }
            &&& p1 is Some
            &&& resize_step(p1.unwrap()) == (WindowStep::ShowAndAnswer, None::<PendingResize>)
        }),
{
}

/// What a change of the main device's connection does: entering the normal
/// mapping mode and showing the window, or leaving it (mapping stopped, the
/// cursor released) and hiding the window; with the answer's message.
pub fn connection_change(connect: bool) -> (r: (bool, String))
    ensures
        r.0 == connect,
        connect ==> r.1@ == "mask.mainDeviceConnected"@,
        !connect ==> r.1@ == "mask.mainDeviceDisconnected"@,
{
    if connect {
        (true, String::from_str("mask.mainDeviceConnected"))
    } else {
        (false, String::from_str("mask.mainDeviceDisconnected"))
    }
}

/// A script sent for evaluation: it must parse, and a mapping must be
/// active to give it its screen size. The length bound is a machine limit
/// of the parser.
pub fn eval_script_command(script: &String, mapping_active: bool) -> (r: Result<ScriptAST, String>)
    requires
        script@.len() < usize::MAX,
    ensures
        match r {
            Ok(ast) => {
                &&& mapping_active
                &&& script_spec(script@) == Ok::<_, Seq<char>>(stmts_m(ast.program.stmts@))
                &&& ast.script@ == script@
                &&& ast.empty == (script@.len() == 0)
                &&& ast.parse_error is None
                &&& program_wf(ast.program.stmts@)
            },
            Err(m) => match script_spec(script@) {
                Err(e) => m@ == e,
                Ok(_) => !mapping_active && m@ == "mask.evalScriptnoMappingError"@,
            },
        },
{
    match ScriptAST::new(script.as_str()) {
        Err(e) => Err(e),
        Ok(ast) => {
            if mapping_active {
                Ok(ast)
            } else {
                Err(String::from_str("mask.evalScriptnoMappingError"))
            }
        },
    }
}

/// How the mask window presents its frames.
#[derive(Debug, Clone, Copy, PartialEq, Eq, Structural)]
pub enum PresentChoice {
    AutoVsync,
    AutoNoVsync,
    Immediate,
    Mailbox,
}

/// The present mode named in the configuration; any other name gives
/// `AutoVsync`.
pub open spec fn present_model(name: Seq<char>) -> PresentChoice {
    if name == "AutoNoVsync"@ {
        PresentChoice::AutoNoVsync
    } else if name == "Immediate"@ {
        PresentChoice::Immediate
    } else if name == "Mailbox"@ {
        PresentChoice::Mailbox
    } else {
        PresentChoice::AutoVsync
    }
}

/// The present mode for the window opened when the main device connects.
pub fn present_mode_of(name: &String) -> (p: PresentChoice)
    ensures
        p == present_model(name@),
{
    if lit_eq(name, "AutoNoVsync") {
        PresentChoice::AutoNoVsync
    } else if lit_eq(name, "Immediate") {
        PresentChoice::Immediate
    } else if lit_eq(name, "Mailbox") {
        PresentChoice::Mailbox
    } else {
        PresentChoice::AutoVsync
    }
}

/// The answer to a change of the window level (above all others or not).
pub fn level_changed_message(top: bool) -> (m: String)
    ensures
        m@ == "[Mask] mask.windowLevelChanged: "@ + (if top { "true"@ } else { "false"@ }),
{
    let mut m = String::from_str("[Mask] mask.windowLevelChanged: ");
    if top {
        m.append("true");
    } else {
        m.append("false");
    }
    m
}

} // verus!
