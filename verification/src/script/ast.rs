//! Syntax tree of the script language, source positions and script errors.

use vstd::prelude::*;
use crate::script::value::{BinOp, UnaryOp};
use crate::text::{chars_of, dec_nat, split_lines, string_push, text_lines, u64_to_string};
use vstd::utf8::encode_utf8;

verus! {

/// A range of source text, by 1-based line and column.
#[derive(Debug, Clone, Copy)]
pub struct SourceSpan {
    pub start_line: usize,
    pub start_col: usize,
    pub end_line: usize,
    pub end_col: usize,
}

impl SourceSpan {
    /// Lines are counted from 1 and the span does not end before it starts.
    pub open spec fn valid(self) -> bool {
        self.start_line >= 1 && self.end_line >= self.start_line && self.start_col >= 1
    }
}

/// An expression.
#[derive(Debug)]
pub enum Expr {
    Number { value: i64, span: SourceSpan },
    Str { value: String, span: SourceSpan },
    Bool { value: bool, span: SourceSpan },
    Var { name: String, span: SourceSpan },
    Unary { op: UnaryOp, rhs: Box<Expr>, span: SourceSpan },
    Binary { lhs: Box<Expr>, op: BinOp, rhs: Box<Expr>, span: SourceSpan },
    Call { name: String, args: Vec<Expr>, span: SourceSpan },
}

/// A statement.
#[derive(Debug)]
pub enum Stmt {
    Let { name: String, expr: Expr, span: SourceSpan },
    Assign { name: String, expr: Expr, span: SourceSpan },
    Expr { expr: Expr, span: SourceSpan },
    Block { stmts: Vec<Stmt>, span: SourceSpan },
    If { condition: Expr, then_block: Box<Stmt>, else_block: Option<Box<Stmt>>, span: SourceSpan },
    While { condition: Expr, body: Box<Stmt>, span: SourceSpan },
    FnDef { name: String, params: Vec<String>, body: Box<Stmt>, span: SourceSpan },
    Return { expr: Option<Expr>, span: SourceSpan },
    Error { span: SourceSpan },
}

/// A user-defined function: parameter names and body.
#[derive(Debug)]
pub struct UserFn {
    pub params: Vec<String>,
    pub body: Stmt,
}

/// A parsed script: its statements and the errors met while parsing.
#[derive(Debug)]
pub struct Program {
    pub stmts: Vec<Stmt>,
    pub errors: Vec<ScriptError>,
}

/// An error with the source lines that it points at.
#[derive(Debug)]
pub struct ScriptError {
    pub message: String,
    pub span: SourceSpan,
    pub outer_span: Option<SourceSpan>,
    pub snippet_lines: Vec<String>,
}

/// The model of a [`ScriptError`].
pub struct ErrorModel {
    pub message: Seq<char>,
    pub span: SourceSpan,
    pub outer_span: Option<SourceSpan>,
    pub snippet: Seq<Seq<char>>,
}

impl View for ScriptError {
    type V = ErrorModel;

    open spec fn view(&self) -> ErrorModel {
        ErrorModel {
            message: self.message@,
            span: self.span,
            outer_span: self.outer_span,
            snippet: self.snippet_lines@.map_values(|l: String| l@),
        }
    }
}

/// The lines of `lines` that `span` covers (`skip(start - 1).take(end - start + 1)`).
pub open spec fn snippet_of(lines: Seq<Seq<char>>, span: SourceSpan) -> Seq<Seq<char>> {
    let a = span.start_line - 1;
    if a >= lines.len() {
        Seq::empty()
    } else {
        lines.subrange(a, if span.end_line <= lines.len() { span.end_line as int } else { lines.len() as int })
    }
}

/// The error with `message` at `span` of a source whose lines are `lines`.
pub open spec fn error_at(span: SourceSpan, lines: Seq<Seq<char>>, message: Seq<char>) -> ErrorModel {
    ErrorModel { message, span, outer_span: None, snippet: snippet_of(lines, span) }
}

/// `e` re-anchored at the enclosing `span`.
pub open spec fn with_outer(e: ErrorModel, span: SourceSpan, lines: Seq<Seq<char>>) -> ErrorModel {
    ErrorModel { outer_span: Some(span), snippet: snippet_of(lines, span), ..e }
}

/// The lines of `source`, one string each.
pub fn source_lines(source: &str) -> (lines: Vec<String>)
    ensures
        lines@.map_values(|l: String| l@) == text_lines(source@),
{
    let cs = chars_of(source);
    split_lines(&cs)
}

/// The lines of `lines` that `span` covers.
pub fn snippet(lines: &Vec<String>, span: SourceSpan) -> (r: Vec<String>)
    requires
        span.start_line >= 1,
        span.end_line + 1 >= span.start_line,
    ensures
        r@.map_values(|l: String| l@) == snippet_of(lines@.map_values(|l: String| l@), span),
{
    let ghost ls = lines@.map_values(|l: String| l@);
    let a = span.start_line - 1;
    let mut out: Vec<String> = Vec::new();
    if a >= lines.len() {
        assert(out@.map_values(|l: String| l@) =~= Seq::<Seq<char>>::empty());
        return out;
    }
    let b = if span.end_line <= lines.len() { span.end_line } else { lines.len() };
    let mut i = a;
    while i < b
        invariant
            a <= i <= b <= lines@.len(),
            ls == lines@.map_values(|l: String| l@),
            out@.map_values(|l: String| l@) == ls.subrange(a as int, i as int),
        decreases b - i,
    {
        let ghost prev = out@;
        out.push(lines[i].clone());
        proof {
            assert(out@ == prev.push(lines@[i as int]));
            assert(out@.map_values(|l: String| l@) =~= prev.map_values(|l: String| l@).push(ls[i as int]));
        }
        i = i + 1;
        assert(out@.map_values(|l: String| l@) =~= ls.subrange(a as int, i as int));
    }
    out
}

/// Builds an error from lines that are already split.
pub fn error_from_lines(span: SourceSpan, lines: &Vec<String>, message: String) -> (e: ScriptError)
    requires
        span.start_line >= 1,
        span.end_line + 1 >= span.start_line,
    ensures
        e@ == error_at(span, lines@.map_values(|l: String| l@), message@),
{
    ScriptError { message, span, outer_span: None, snippet_lines: snippet(lines, span) }
}

/// Re-anchors an error at an enclosing span, from lines that are already split.
pub fn outer_from_lines(e: ScriptError, span: SourceSpan, lines: &Vec<String>) -> (r: ScriptError)
    requires
        span.start_line >= 1,
        span.end_line + 1 >= span.start_line,
    ensures
        r@ == with_outer(e@, span, lines@.map_values(|l: String| l@)),
{
    ScriptError { outer_span: Some(span), snippet_lines: snippet(lines, span), ..e }
}

/// Spaces, `n` of them.
pub open spec fn spaces(n: nat) -> Seq<char> {
    Seq::new(n, |i: int| ' ')
}

/// Carets, `n` of them.
pub open spec fn carets(n: nat) -> Seq<char> {
    Seq::new(n, |i: int| '^')
}

/// `s` right-aligned in a field of `width` characters.
pub open spec fn pad_left(s: Seq<char>, width: nat) -> Seq<char> {
    if s.len() >= width { s } else { spaces((width - s.len()) as nat) + s }
}

/// `a - b`, or zero when `b > a`.
pub open spec fn sat_sub(a: int, b: int) -> nat {
    if a >= b { (a - b) as nat } else { 0 }
}

/// The marker line under source line `current` of an error at `span`.
pub open spec fn highlight(span: SourceSpan, current: int, line: Seq<char>) -> Seq<char> {
    let bytes = (encode_utf8(line).len() as usize) as int;
    if span.start_line == span.end_line {
        spaces(sat_sub(span.start_col as int, 1)) + carets(sat_sub(span.end_col as int, span.start_col as int))
    } else if current == span.start_line {
        spaces(sat_sub(span.start_col as int, 1)) + carets(sat_sub(bytes, span.start_col - 1))
    } else if current == span.end_line {
        carets(sat_sub(span.end_col as int, 1))
    } else {
        carets(bytes as nat)
    }
}

/// The rendering of snippet line `i`: the numbered source line, then the
/// marker line when the line lies inside the error's own span.
pub open spec fn render_one(e: ErrorModel, shown: SourceSpan, width: nat, i: int) -> Seq<char> {
    let current = shown.start_line + i;
    let line = e.snippet[i];
    let text = pad_left(dec_nat(current as nat), width) + " | "@ + line + "\n"@;
    let mark = if e.span.start_line <= current <= e.span.end_line {
        pad_left(Seq::empty(), width) + " | "@ + highlight(e.span, current, line) + "\n"@
    } else {
        Seq::empty()
    };
    text + mark
}

/// The rendering of the snippet lines from index `i` on.
pub open spec fn render_lines(e: ErrorModel, shown: SourceSpan, width: nat, i: int) -> Seq<char>
    decreases e.snippet.len() - i,
{
    if i < 0 || i >= e.snippet.len() {
        Seq::empty()
    } else {
        render_one(e, shown, width, i) + render_lines(e, shown, width, i + 1)
    }
}

/// The text that the error displays: message, position and marked source.
pub open spec fn render_error(e: ErrorModel) -> Seq<char> {
    let shown = match e.outer_span { Some(s) => s, None => e.span };
    "error: "@ + e.message + "\n"@ + " --> line "@ + dec_nat(shown.start_line as nat) + ", column "@
        + dec_nat(shown.start_col as nat) + " to line "@ + dec_nat(shown.end_line as nat) + ", column "@
        + dec_nat(shown.end_col as nat) + "\n"@ + render_lines(e, shown, dec_nat(shown.end_line as nat).len(), 0)
}

/// The errors that can be rendered: a multi-line span starts at a column.
pub open spec fn renderable(e: ErrorModel) -> bool {
    let shown = match e.outer_span { Some(s) => s, None => e.span };
    &&& e.span.start_line != e.span.end_line ==> e.span.start_col >= 1
    &&& shown.start_line + e.snippet.len() <= u64::MAX
}

fn push_repeat(s: &mut String, c: char, n: usize)
    ensures
        final(s)@ == old(s)@ + Seq::new(n as nat, |i: int| c),
{
    let mut i: usize = 0;
    while i < n
        invariant
            i <= n,
            s@ == old(s)@ + Seq::new(i as nat, |j: int| c),
        decreases n - i,
    {
        string_push(s, c);
        i = i + 1;
        assert(s@ =~= old(s)@ + Seq::new(i as nat, |j: int| c));
    }
}

fn push_padded(s: &mut String, t: &str, width: usize)
    ensures
        final(s)@ == old(s)@ + pad_left(t@, width as nat),
{
    let n = t.unicode_len();
    if n < width {
        push_repeat(s, ' ', width - n);
    }
    s.append(t);
    assert(s@ =~= old(s)@ + pad_left(t@, width as nat));
}

fn sub_sat(a: usize, b: usize) -> (r: usize)
    ensures
        r == sat_sub(a as int, b as int),
{
    if a >= b { a - b } else { 0 }
}

impl ScriptError {
    /// An error at `span` of `source` with `message`.
    pub fn from_span(span: SourceSpan, source: &str, message: String) -> (e: ScriptError)
        requires
            span.start_line >= 1,
            span.end_line + 1 >= span.start_line,
        ensures
            e@ == error_at(span, text_lines(source@), message@),
    {
        let lines = source_lines(source);
        error_from_lines(span, &lines, message)
    }

    /// This error, shown in the context of the enclosing `span` of `source`.
    pub fn with_outer_span(self, span: SourceSpan, source: &str) -> (e: ScriptError)
        requires
            span.start_line >= 1,
            span.end_line + 1 >= span.start_line,
        ensures
            e@ == with_outer(self@, span, text_lines(source@)),
    {
        let lines = source_lines(source);
        outer_from_lines(self, span, &lines)
    }

    fn push_highlight(s: &mut String, sp: SourceSpan, current: u64, line: &String)
        requires
            sp.start_line != sp.end_line ==> sp.start_col >= 1,
        ensures
            final(s)@ == old(s)@ + highlight(sp, current as int, line@),
    {
        let ls = line.as_str();
        let bytes = ls.len();
        assert(ls@ == line@);
        if sp.start_line == sp.end_line {
            push_repeat(s, ' ', sub_sat(sp.start_col, 1));
            push_repeat(s, '^', sub_sat(sp.end_col, sp.start_col));
        } else if current == sp.start_line as u64 {
            push_repeat(s, ' ', sub_sat(sp.start_col, 1));
            push_repeat(s, '^', sub_sat(bytes, sp.start_col - 1));
        } else if current == sp.end_line as u64 {
            push_repeat(s, '^', sub_sat(sp.end_col, 1));
        } else {
            push_repeat(s, '^', bytes);
        }
        assert(final(s)@ =~= old(s)@ + highlight(sp, current as int, line@));
    }

    fn push_line(&self, s: &mut String, shown: SourceSpan, width: usize, i: usize)
        requires
            i < self@.snippet.len(),
            renderable(self@),
            shown == (match self@.outer_span { Some(sp) => sp, None => self@.span }),
        ensures
            final(s)@ == old(s)@ + render_one(self@, shown, width as nat, i as int),
    {
        let ghost e = self@;
        let line = &self.snippet_lines[i];
        assert(line@ == e.snippet[i as int]);
        let current = shown.start_line as u64 + i as u64;
        let digits = u64_to_string(current);
        push_padded(s, digits.as_str(), width);
        s.append(" | ");
        s.append(line.as_str());
        s.append("\n");
        let ghost after_text = s@;
        if self.span.start_line as u64 <= current && current <= self.span.end_line as u64 {
            push_repeat(s, ' ', width);
            assert(Seq::new(width as nat, |j: int| ' ') =~= pad_left(Seq::empty(), width as nat));
            s.append(" | ");
            Self::push_highlight(s, self.span, current, line);
            s.append("\n");
        }
        proof {
            let cur = shown.start_line + i;
            assert(cur == current as int);
            let text = pad_left(dec_nat(cur as nat), width as nat) + " | "@ + e.snippet[i as int] + "\n"@;
            assert(after_text =~= old(s)@ + text);
            assert(final(s)@ =~= old(s)@ + render_one(e, shown, width as nat, i as int));
        }
    }

    /// The text that `Display` gives for the error.
    pub fn render(&self) -> (s: String)
        requires
            renderable(self@),
        ensures
            s@ == render_error(self@),
    {
        let shown = match self.outer_span { Some(sp) => sp, None => self.span };
        let mut s = String::from_str("error: ");
        s.append(self.message.as_str());
        s.append("\n");
        s.append(" --> line ");
        s.append(u64_to_string(shown.start_line as u64).as_str());
        s.append(", column ");
        s.append(u64_to_string(shown.start_col as u64).as_str());
        s.append(" to line ");
        s.append(u64_to_string(shown.end_line as u64).as_str());
        s.append(", column ");
        s.append(u64_to_string(shown.end_col as u64).as_str());
        s.append("\n");
        let end_digits = u64_to_string(shown.end_line as u64);
        let width = end_digits.as_str().unicode_len();
        let ghost e = self@;
        let ghost head = s@;
        let n = self.snippet_lines.len();
        let mut i: usize = 0;
        assert(e.snippet.len() == n);
        while i < n
            invariant
                i <= n,
                n == e.snippet.len(),
                e == self@,
                renderable(e),
                width == dec_nat(shown.end_line as nat).len(),
                shown == (match e.outer_span { Some(sp) => sp, None => e.span }),
                head + render_lines(e, shown, width as nat, 0) == s@ + render_lines(e, shown, width as nat, i as int),
            decreases n - i,
        {
            let ghost before = s@;
            self.push_line(&mut s, shown, width, i);
            assert(render_lines(e, shown, width as nat, i as int) == render_one(e, shown, width as nat, i as int) + render_lines(e, shown, width as nat, i + 1));
            assert(before + render_lines(e, shown, width as nat, i as int) =~= s@ + render_lines(e, shown, width as nat, i + 1));
            i = i + 1;
        }
        assert(render_lines(e, shown, width as nat, n as int) == Seq::<char>::empty());
        assert(s@ =~= head + render_lines(e, shown, width as nat, 0));
        s
    }
}

} // verus!
