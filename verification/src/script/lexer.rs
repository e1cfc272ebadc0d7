//! Splitting a script into tokens.
//!
//! Whitespace (space, tab, carriage return, newline) and `//` line comments
//! separate tokens. A token is a number (ASCII digits), a word (an ASCII
//! letter or `_`, then letters, digits or `_`; the words `let fn while if
//! else return true false` are keywords), a string literal (between double
//! quotes, where a backslash takes the next character with it), or one of
//! the operators `( ) { } , ; = + - * / % ! < > <= >= == != && ||`.
//! Positions are 1-based lines and columns, counted in characters.

use vstd::prelude::*;
use crate::script::ast::SourceSpan;
use crate::text::u64_to_string;

verus! {

/// The kinds of token.
#[derive(Debug, Clone, Copy, PartialEq, Eq, Structural)]
pub enum TokKind {
    Ident,
    Number,
    Str,
    Let,
    Fn,
    While,
    If,
    Else,
    Return,
    True,
    False,
    LParen,
    RParen,
    LBrace,
    RBrace,
    Comma,
    Semi,
    Assign,
    Plus,
    Minus,
    Star,
    Slash,
    Percent,
    Bang,
    Lt,
    Le,
    Gt,
    Ge,
    EqEq,
    Ne,
    AndAnd,
    OrOr,
}

/// A token: its kind, its characters (the content without quotes for a
/// string literal) and where it stands.
#[derive(Debug)]
pub struct Token {
    pub kind: TokKind,
    pub text: Vec<char>,
    pub span: SourceSpan,
}

impl View for Token {
    type V = (TokKind, Seq<char>, SourceSpan);

    open spec fn view(&self) -> (TokKind, Seq<char>, SourceSpan) {
        (self.kind, self.text@, self.span)
    }
}

/// The views of a sequence of tokens.
pub open spec fn tok_views(t: Seq<Token>) -> Seq<(TokKind, Seq<char>, SourceSpan)> {
    t.map_values(|x: Token| x@)
}

/// The span from line `l1`, column `c1` to line `l2`, column `c2`.
pub open spec fn span_at(l1: nat, c1: nat, l2: nat, c2: nat) -> SourceSpan {
    SourceSpan { start_line: l1 as usize, start_col: c1 as usize, end_line: l2 as usize, end_col: c2 as usize }
}

/// Whether `c` continues a word (`word`) or a number.
pub open spec fn continues_spec(word: bool, c: char) -> bool {
    if word { word_char(c) } else { digit(c) }
}

/// How many characters from `i` on continue a word (or a number).
pub open spec fn run_len(cs: Seq<char>, i: nat, word: bool) -> nat
    decreases cs.len() - i,
{
    if i < cs.len() && continues_spec(word, cs[i as int]) { 1 + run_len(cs, i + 1, word) } else { 0 }
}

/// How many characters from `i` on come before the end of the line.
pub open spec fn line_len(cs: Seq<char>, i: nat) -> nat
    decreases cs.len() - i,
{
    if i < cs.len() && cs[i as int] != '\n' { 1 + line_len(cs, i + 1) } else { 0 }
}

/// A run of word characters stays inside the text.
pub proof fn lemma_run_len(cs: Seq<char>, i: nat, word: bool)
    ensures
        i <= cs.len() ==> i + run_len(cs, i, word) <= cs.len(),
    decreases cs.len() - i,
{
    if i < cs.len() && continues_spec(word, cs[i as int]) {
        lemma_run_len(cs, i + 1, word);
    }
}

/// The rest of a line stays inside the text.
pub proof fn lemma_line_len(cs: Seq<char>, i: nat)
    ensures
        i <= cs.len() ==> i + line_len(cs, i) <= cs.len(),
    decreases cs.len() - i,
{
    if i < cs.len() && cs[i as int] != '\n' {
        lemma_line_len(cs, i + 1);
    }
}

/// The line and column after the character `c` at `line`, `col`.
pub open spec fn step(c: char, line: nat, col: nat) -> (nat, nat) {
    if c == '\n' { (line + 1, 1) } else { (line, col + 1) }
}

/// The content of a string literal from `i` on, at `line`, `col`: how many
/// characters come before the closing quote (or the end of the text), and
/// the line and column there. A backslash takes the next character with it.
pub open spec fn str_scan(cs: Seq<char>, i: nat, line: nat, col: nat) -> (nat, nat, nat)
    decreases cs.len() - i,
{
    if i >= cs.len() || cs[i as int] == '"' {
        (0, line, col)
    } else {
        let (l1, c1) = step(cs[i as int], line, col);
        if cs[i as int] == '\\' && i + 1 < cs.len() {
            let (l2, c2) = step(cs[i as int + 1], l1, c1);
            let r = str_scan(cs, i + 2, l2, c2);
            (r.0 + 2, r.1, r.2)
        } else {
            let r = str_scan(cs, i + 1, l1, c1);
            (r.0 + 1, r.1, r.2)
        }
    }
}

/// The kind of the word `w`: a keyword or an identifier.
pub open spec fn keyword(w: Seq<char>) -> TokKind {
    if w == "let"@ {
        TokKind::Let
    } else if w == "fn"@ {
        TokKind::Fn
    } else if w == "while"@ {
        TokKind::While
    } else if w == "if"@ {
        TokKind::If
    } else if w == "else"@ {
        TokKind::Else
    } else if w == "return"@ {
        TokKind::Return
    } else if w == "true"@ {
        TokKind::True
    } else if w == "false"@ {
        TokKind::False
    } else {
        TokKind::Ident
    }
}

/// The operator that starts at `i`, and its length: two-character
/// operators take precedence.
pub open spec fn operator_spec(cs: Seq<char>, i: nat) -> Option<(TokKind, nat)> {
    let c = cs[i as int];
    let next = if i + 1 < cs.len() { cs[i as int + 1] } else { ' ' };
    if c == '=' && next == '=' {
        Some((TokKind::EqEq, 2))
    } else if c == '!' && next == '=' {
        Some((TokKind::Ne, 2))
    } else if c == '<' && next == '=' {
        Some((TokKind::Le, 2))
    } else if c == '>' && next == '=' {
        Some((TokKind::Ge, 2))
    } else if c == '&' && next == '&' {
        Some((TokKind::AndAnd, 2))
    } else if c == '|' && next == '|' {
        Some((TokKind::OrOr, 2))
    } else if c == '(' {
        Some((TokKind::LParen, 1))
    } else if c == ')' {
        Some((TokKind::RParen, 1))
    } else if c == '{' {
        Some((TokKind::LBrace, 1))
    } else if c == '}' {
        Some((TokKind::RBrace, 1))
    } else if c == ',' {
        Some((TokKind::Comma, 1))
    } else if c == ';' {
        Some((TokKind::Semi, 1))
    } else if c == '=' {
        Some((TokKind::Assign, 1))
    } else if c == '+' {
        Some((TokKind::Plus, 1))
    } else if c == '-' {
        Some((TokKind::Minus, 1))
    } else if c == '*' {
        Some((TokKind::Star, 1))
    } else if c == '/' {
        Some((TokKind::Slash, 1))
    } else if c == '%' {
        Some((TokKind::Percent, 1))
    } else if c == '!' {
        Some((TokKind::Bang, 1))
    } else if c == '<' {
        Some((TokKind::Lt, 1))
    } else if c == '>' {
        Some((TokKind::Gt, 1))
    } else {
        None
    }
}

/// The tokens of `cs` from position `i` on, at `line` and `col`, after the
/// tokens `acc`; or the message for the first character that starts no
/// token (or a string literal left open).
pub open spec fn lex_from(
    cs: Seq<char>,
    i: nat,
    line: nat,
    col: nat,
    acc: Seq<(TokKind, Seq<char>, SourceSpan)>,
) -> Result<Seq<(TokKind, Seq<char>, SourceSpan)>, Seq<char>>
    decreases cs.len() - i,
{
    if i >= cs.len() {
        Ok(acc)
    } else {
        let c = cs[i as int];
        if c == '\n' {
            lex_from(cs, i + 1, line + 1, 1, acc)
        } else if c == ' ' || c == '\t' || c == '\r' {
            lex_from(cs, i + 1, line, col + 1, acc)
        } else if c == '/' && i + 1 < cs.len() && cs[i as int + 1] == '/' {
            let k = line_len(cs, i + 2);
            proof {
                lemma_line_len(cs, i + 2);
            }
            lex_from(cs, i + 2 + k, line, col + 2 + k, acc)
        } else if digit(c) || word_start(c) {
            let word = word_start(c);
            let k = run_len(cs, i + 1, word);
            proof {
                lemma_run_len(cs, i + 1, word);
            }
            let text = cs.subrange(i as int, i + 1 + k as int);
            let kind = if word { keyword(text) } else { TokKind::Number };
            lex_from(cs, i + 1 + k, line, col + 1 + k, acc.push((kind, text, span_at(line, col, line, col + 1 + k))))
        } else if c == '"' {
            let (k, l, c2) = str_scan(cs, i + 1, line, col + 1);
            if i + 1 + k >= cs.len() {
                Err(syntax_msg(line, col, "unterminated string literal"@))
            } else {
                let text = cs.subrange(i + 1int, i + 1 + k as int);
                lex_from(cs, i + 2 + k, l, c2 + 1, acc.push((TokKind::Str, text, span_at(line, col, l, c2 + 1))))
            }
        } else {
            match operator_spec(cs, i) {
                Some((kind, n)) => lex_from(
                    cs,
                    i + n,
                    line,
                    col + n,
                    acc.push((kind, cs.subrange(i as int, i + n as int), span_at(line, col, line, col + n))),
                ),
                None => Err(syntax_msg(line, col, "unexpected character"@)),
            }
        }
    }
}

/// The tokens of a whole script, or the message of its first lexical error.
pub open spec fn lex_spec(cs: Seq<char>) -> Result<Seq<(TokKind, Seq<char>, SourceSpan)>, Seq<char>> {
    lex_from(cs, 0, 1, 1, Seq::empty())
}

/// Positions start at line and column 1, a token does not end on a line
/// before it starts, and tokens come in the order of their lines.
pub open spec fn toks_ok(t: Seq<Token>) -> bool {
    &&& t.len() < usize::MAX
    &&& forall|i: int| 0 <= i < t.len() ==> (#[trigger] t[i]).span.start_line >= 1 && t[i].span.end_line >= t[i].span.start_line
        && t[i].span.start_col >= 1
    &&& forall|i: int, j: int| 0 <= i < j < t.len() ==> (#[trigger] t[i]).span.start_line <= (#[trigger] t[j]).span.start_line
}

/// ASCII decimal digit.
pub open spec fn digit(c: char) -> bool {
    '0' <= c <= '9'
}

/// First character of a word.
pub open spec fn word_start(c: char) -> bool {
    ('a' <= c <= 'z') || ('A' <= c <= 'Z') || c == '_'
}

/// Later character of a word.
pub open spec fn word_char(c: char) -> bool {
    word_start(c) || digit(c)
}

fn is_digit(c: char) -> (b: bool)
    ensures
        b == digit(c),
{
    '0' <= c && c <= '9'
}

fn is_word_start(c: char) -> (b: bool)
    ensures
        b == word_start(c),
{
    ('a' <= c && c <= 'z') || ('A' <= c && c <= 'Z') || c == '_'
}

fn is_word_char(c: char) -> (b: bool)
    ensures
        b == word_char(c),
{
    is_word_start(c) || is_digit(c)
}

/// Whether `c` continues a word (`word`) or a number.
fn continues(word: bool, c: char) -> (b: bool)
    ensures
        b == continues_spec(word, c),
{
    if word { is_word_char(c) } else { is_digit(c) }
}

/// Whether `cs` spells `lit`.
fn chars_are(cs: &Vec<char>, lit: &str) -> (b: bool)
    ensures
        b == (cs@ == lit@),
{
    let n = lit.unicode_len();
    if cs.len() != n {
        return false;
    }
    let mut i: usize = 0;
    while i < n
        invariant
            n == lit@.len(),
            cs@.len() == n,
            i <= n,
            forall|j: int| 0 <= j < i ==> cs@[j] == lit@[j],
        decreases n - i,
    {
        if cs[i] != lit.get_char(i) {
            return false;
        }
        i = i + 1;
    }
    assert(cs@ =~= lit@);
    true
}

/// The keyword spelled by a word, or `Ident`.
fn word_kind(w: &Vec<char>) -> (k: TokKind)
    ensures
        k == keyword(w@),
{
    if chars_are(w, "let") {
        TokKind::Let
    } else if chars_are(w, "fn") {
        TokKind::Fn
    } else if chars_are(w, "while") {
        TokKind::While
    } else if chars_are(w, "if") {
        TokKind::If
    } else if chars_are(w, "else") {
        TokKind::Else
    } else if chars_are(w, "return") {
        TokKind::Return
    } else if chars_are(w, "true") {
        TokKind::True
    } else if chars_are(w, "false") {
        TokKind::False
    } else {
        TokKind::Ident
    }
}

/// The operator that starts at `cs[i]`, and its length.
fn operator_at(cs: &Vec<char>, i: usize) -> (r: Option<(TokKind, usize)>)
    requires
        i < cs@.len(),
    ensures
        r matches Some((_, n)) ==> 1 <= n <= 2 && i + n <= cs@.len() && forall|j: int| i <= j < i + n ==> cs@[j] != '\n',
        match r {
            Some((k, n)) => operator_spec(cs@, i as nat) == Some((k, n as nat)),
            None => operator_spec(cs@, i as nat) is None,
        },
{
    let c = cs[i];
    let next = if cs.len() - i > 1 { cs[i + 1] } else { ' ' };
    if c == '=' && next == '=' {
        Some((TokKind::EqEq, 2))
    } else if c == '!' && next == '=' {
        Some((TokKind::Ne, 2))
    } else if c == '<' && next == '=' {
        Some((TokKind::Le, 2))
    } else if c == '>' && next == '=' {
        Some((TokKind::Ge, 2))
    } else if c == '&' && next == '&' {
        Some((TokKind::AndAnd, 2))
    } else if c == '|' && next == '|' {
        Some((TokKind::OrOr, 2))
    } else if c == '(' {
        Some((TokKind::LParen, 1))
    } else if c == ')' {
        Some((TokKind::RParen, 1))
    } else if c == '{' {
        Some((TokKind::LBrace, 1))
    } else if c == '}' {
        Some((TokKind::RBrace, 1))
    } else if c == ',' {
        Some((TokKind::Comma, 1))
    } else if c == ';' {
        Some((TokKind::Semi, 1))
    } else if c == '=' {
        Some((TokKind::Assign, 1))
    } else if c == '+' {
        Some((TokKind::Plus, 1))
    } else if c == '-' {
        Some((TokKind::Minus, 1))
    } else if c == '*' {
        Some((TokKind::Star, 1))
    } else if c == '/' {
        Some((TokKind::Slash, 1))
    } else if c == '%' {
        Some((TokKind::Percent, 1))
    } else if c == '!' {
        Some((TokKind::Bang, 1))
    } else if c == '<' {
        Some((TokKind::Lt, 1))
    } else if c == '>' {
        Some((TokKind::Gt, 1))
    } else {
        None
    }
}

/// The message of a script that does not parse: the message key of a
/// parse failure, then the position and what the grammar expected there.
pub open spec fn syntax_msg(line: nat, col: nat, what: Seq<char>) -> Seq<char> {
    "mask.mapping.parseScriptFailed\n: line "@ + crate::text::dec_nat(line) + ", column "@ + crate::text::dec_nat(col) + ": "@ + what
}

/// Builds the message of a script that does not parse.
pub fn syntax_error(line: usize, col: usize, what: &str) -> (m: String)
    ensures
        m@ == syntax_msg(line as nat, col as nat, what@),
{
    let mut m = String::from_str("mask.mapping.parseScriptFailed\n: line ");
    m.append(u64_to_string(line as u64).as_str());
    m.append(", column ");
    m.append(u64_to_string(col as u64).as_str());
    m.append(": ");
    m.append(what);
    m
}

/// Appends a token that starts at the current line.
fn push_token(toks: &mut Vec<Token>, kind: TokKind, text: Vec<char>, span: SourceSpan, line: usize)
    requires
        toks_ok(old(toks)@),
        old(toks)@.len() + 1 < usize::MAX,
        forall|k: int| 0 <= k < old(toks)@.len() ==> (#[trigger] old(toks)@[k]).span.start_line <= line,
        span.start_line == line,
        span.start_line >= 1,
        span.end_line >= span.start_line,
        span.start_col >= 1,
    ensures
        toks_ok(final(toks)@),
        final(toks)@.len() == old(toks)@.len() + 1,
        forall|k: int| 0 <= k < final(toks)@.len() ==> (#[trigger] final(toks)@[k]).span.start_line <= line,
        tok_views(final(toks)@) == tok_views(old(toks)@).push((kind, text@, span)),
{
    let ghost before = toks@;
    let ghost tv = text@;
    toks.push(Token { kind, text, span });
    proof {
        assert forall|i: int, j: int| 0 <= i < j < toks@.len() implies (#[trigger] toks@[i]).span.start_line
            <= (#[trigger] toks@[j]).span.start_line by {
            if j == toks@.len() - 1 {
                assert(toks@[i] == before[i]);
            } else {
                assert(toks@[i] == before[i]);
                assert(toks@[j] == before[j]);
            }
        }
        assert forall|i: int| 0 <= i < toks@.len() implies (#[trigger] toks@[i]).span.start_line >= 1
            && toks@[i].span.end_line >= toks@[i].span.start_line && toks@[i].span.start_col >= 1 by {
            if i < toks@.len() - 1 {
                assert(toks@[i] == before[i]);
            }
        }
        assert(tok_views(toks@) =~= tok_views(before).push((kind, tv, span)));
    }
}

/// Splits a script into tokens, or gives the message for the first
/// character that starts no token (or a string literal left open): exactly
/// `lex_spec`. The length bound is a machine limit: positions are counted
/// in `usize`.
pub fn lex(cs: &Vec<char>) -> (r: Result<Vec<Token>, String>)
    requires
        cs@.len() < usize::MAX,
    ensures
        match r {
            Ok(t) => lex_spec(cs@) == Ok::<_, Seq<char>>(tok_views(t@)) && toks_ok(t@),
            Err(m) => lex_spec(cs@) == Err::<Seq<(TokKind, Seq<char>, SourceSpan)>, _>(m@),
        },
{
    let mut toks: Vec<Token> = Vec::new();
    let n = cs.len();
    let mut i: usize = 0;
    let mut line: usize = 1;
    let mut col: usize = 1;
    assert(tok_views(toks@) =~= Seq::<(TokKind, Seq<char>, SourceSpan)>::empty());
    while i < n
        invariant
            n == cs@.len(),
            n < usize::MAX,
            i <= n,
            1 <= line <= i + 1,
            1 <= col <= i + 1,
            toks_ok(toks@),
            toks@.len() <= i,
            forall|k: int| 0 <= k < toks@.len() ==> (#[trigger] toks@[k]).span.start_line <= line,
            lex_spec(cs@) == lex_from(cs@, i as nat, line as nat, col as nat, tok_views(toks@)),
        decreases n - i,
    {
        let c = cs[i];
        let ghost v = tok_views(toks@);
        let ghost i0 = i as nat;
        let ghost line0 = line as nat;
        let ghost col0 = col as nat;
        if c == '\n' {
            i = i + 1;
            line = line + 1;
            col = 1;
        } else if c == ' ' || c == '\t' || c == '\r' {
            i = i + 1;
            col = col + 1;
        } else if c == '/' && n - i > 1 && cs[i + 1] == '/' {
            let s0 = i;
            i = i + 2;
            col = col + 2;
            while i < n && cs[i] != '\n'
                invariant
                    s0 < i,
                    n == cs@.len(),
                    n < usize::MAX,
                    i <= n,
                    1 <= line <= i + 1,
                    1 <= col <= i + 1,
                    col == col0 + (i - s0),
                    s0 == i0,
                    line_len(cs@, i0 + 2) == (i - s0 - 2) + line_len(cs@, i as nat),
                decreases n - i,
            {
                i = i + 1;
                col = col + 1;
            }
            assert(line_len(cs@, i as nat) == 0);
            assert(lex_from(cs@, i0, line0, col0, v) == lex_from(cs@, i as nat, line0, col as nat, v));
        } else if is_digit(c) || is_word_start(c) {
            let start = i;
            let start_col = col;
            let word = is_word_start(c);
            let mut text: Vec<char> = Vec::new();
            text.push(c);
            i = i + 1;
            col = col + 1;
            assert(text@ =~= cs@.subrange(start as int, i as int));
            while i < n && continues(word, cs[i])
                invariant
                    n == cs@.len(),
                    n < usize::MAX,
                    start < i <= n,
                    start == i0,
                    1 <= line <= start + 1,
                    start_col <= col,
                    start_col == col0,
                    col - start_col == i - start,
                    1 <= start_col <= start + 1,
                    text@ == cs@.subrange(start as int, i as int),
                    run_len(cs@, i0 + 1, word) == (i - start - 1) + run_len(cs@, i as nat, word),
                decreases n - i,
            {
                text.push(cs[i]);
                i = i + 1;
                col = col + 1;
                assert(text@ =~= cs@.subrange(start as int, i as int));
            }
            assert(run_len(cs@, i as nat, word) == 0);
            let kind = if word { word_kind(&text) } else { TokKind::Number };
            let span = SourceSpan { start_line: line, start_col, end_line: line, end_col: col };
            assert(span == span_at(line0, col0, line0, col as nat));
            push_token(&mut toks, kind, text, span, line);
        } else if c == '"' {
            let start_line = line;
            let start_col = col;
            i = i + 1;
            col = col + 1;
            let mut text: Vec<char> = Vec::new();
            let s0 = i;
            let ghost scan0 = str_scan(cs@, s0 as nat, line as nat, col as nat);
            assert(text@ =~= cs@.subrange(s0 as int, i as int));
            while i < n && cs[i] != '"'
                invariant
                    s0 <= i,
                    s0 == i0 + 1,
                    n == cs@.len(),
                    n < usize::MAX,
                    i <= n,
                    1 <= start_line <= line <= i + 1,
                    1 <= col <= i + 1,
                    1 <= start_col,
                    start_line == line0,
                    start_col == col0,
                    text@ == cs@.subrange(s0 as int, i as int),
                    scan0 == str_scan(cs@, i0 + 1, line0, col0 + 1),
                    scan0.0 == (i - s0) + str_scan(cs@, i as nat, line as nat, col as nat).0,
                    scan0.1 == str_scan(cs@, i as nat, line as nat, col as nat).1,
                    scan0.2 == str_scan(cs@, i as nat, line as nat, col as nat).2,
                decreases n - i,
            {
                let ch = cs[i];
                let ghost ib = i as nat;
                let ghost lb = line as nat;
                let ghost cb = col as nat;
                text.push(ch);
                i = i + 1;
                if ch == '\n' {
                    line = line + 1;
                    col = 1;
                } else {
                    col = col + 1;
                }
                if ch == '\\' && i < n {
                    let esc = cs[i];
                    text.push(esc);
                    i = i + 1;
                    if esc == '\n' {
                        line = line + 1;
                        col = 1;
                    } else {
                        col = col + 1;
                    }
                }
                assert(text@ =~= cs@.subrange(s0 as int, i as int));
                assert(str_scan(cs@, ib, lb, cb).0 == (i - ib) + str_scan(cs@, i as nat, line as nat, col as nat).0);
            }
            assert(str_scan(cs@, i as nat, line as nat, col as nat) == (0nat, line as nat, col as nat));
            if i >= n {
                return Err(syntax_error(start_line, start_col, "unterminated string literal"));
            }
            i = i + 1;
            col = col + 1;
            let span = SourceSpan { start_line, start_col, end_line: line, end_col: col };
            assert(span == span_at(line0, col0, line as nat, col as nat));
            push_token(&mut toks, TokKind::Str, text, span, start_line);
        } else {
            match operator_at(cs, i) {
                Some((kind, len)) => {
                    let span = SourceSpan { start_line: line, start_col: col, end_line: line, end_col: col + len };
                    let mut text: Vec<char> = Vec::new();
                    text.push(c);
                    if len == 2 {
                        text.push(cs[i + 1]);
                    }
                    assert(text@ =~= cs@.subrange(i as int, i + len));
                    assert(span == span_at(line0, col0, line0, col0 + len as nat));
                    push_token(&mut toks, kind, text, span, line);
                    i = i + len;
                    col = col + len;
                },
                None => {
                    return Err(syntax_error(line, col, "unexpected character"));
                },
            }
        }
    }
    Ok(toks)
}

} // verus!
