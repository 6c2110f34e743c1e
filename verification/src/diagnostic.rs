//! Diagnostics: the text shown for a failure, with the offending source line and
//! a caret under the reported column, and the position and message reported for
//! each parsing and analysis failure.

use vstd::prelude::*;
use crate::parser::{PErr, ParserError};
use crate::semantic_analyzer::{SErr, SemanticError};
use crate::text::{chars_of, debug_quoted, debug_str, dec_nat, push_char, push_dec_usize};

verus! {

/// The index of the first `\n` at or after `i`, or the length when there is none.
pub open spec fn newline_from(s: Seq<char>, i: int) -> int
    decreases s.len() - i,
{
    if i < 0 || i >= s.len() {
        s.len() as int
    } else if s[i] == '\n' {
        i
    } else {
        newline_from(s, i + 1)
    }
}

/// A line without the carriage return of a `\r\n` ending.
pub open spec fn strip_cr(l: Seq<char>) -> Seq<char> {
    if l.len() > 0 && l.last() == '\r' {
        l.drop_last()
    } else {
        l
    }
}

/// Where the next line ending can be: at or after `i`, within the text, and on a `\n`.
pub proof fn lemma_newline_from_bounds(s: Seq<char>, i: int)
    requires
        0 <= i,
    ensures
        i <= newline_from(s, i) <= s.len() || (i > s.len() && newline_from(s, i) == s.len()),
        newline_from(s, i) < s.len() ==> s[newline_from(s, i)] == '\n',
    decreases s.len() - i,
{
    if i < s.len() && s[i] != '\n' {
        lemma_newline_from_bounds(s, i + 1);
    }
}

/// The lines of a text as `str::lines` gives them: the text is split at each `\n`,
/// a `\r` just before a `\n` is dropped, and a final `\n` starts no further line.
pub open spec fn lines_of(s: Seq<char>) -> Seq<Seq<char>>
    decreases s.len(),
{
    if s.len() == 0 {
        Seq::empty()
    } else {
        let k = newline_from(s, 0);
        if k >= s.len() {
            seq![s]
        } else {
            proof {
                lemma_newline_from_bounds(s, 0);
            }
            seq![strip_cr(s.subrange(0, k))] + lines_of(s.subrange(k + 1, s.len() as int))
        }
    }
}

/// `n` spaces.
pub open spec fn spaces(n: int) -> Seq<char> {
    Seq::new(if n > 0 { n as nat } else { 0 }, |i: int| ' ')
}

/// A line number right-aligned in a field of three characters (`{:3}`).
pub open spec fn width3(n: nat) -> Seq<char> {
    if n < 10 {
        "  "@ + dec_nat(n)
    } else if n < 100 {
        " "@ + dec_nat(n)
    } else {
        dec_nat(n)
    }
}

/// The report of a failure: a red `[ERROR]` header with the message, the position,
/// and, when `line` names a line of the source, that line with a red caret under
/// `column`; then an empty line. Each line ends with `\n`.
pub open spec fn snippet_text(source: Seq<char>, line: nat, column: nat, message: Seq<char>) -> Seq<char> {
    let head = "\u{1b}[1;31m[ERROR]\u{1b}[0m: "@ + message + "\n"@ + "  --> line "@ + dec_nat(line) + ":"@
        + dec_nat(column) + "\n"@;
    let ls = lines_of(source);
    let body = if 0 < line <= ls.len() {
        "   |\n"@ + width3(line) + " | "@ + ls[line - 1] + "\n"@ + "   | "@ + spaces(column - 1)
            + "\u{1b}[1;31m^\u{1b}[0m\n"@
    } else {
        Seq::empty()
    };
    head + body + "\n"@
}

/// Lines in a text that starts at `p` of `s` are those of `s` from the `j`-th on.
pub open spec fn lines_from(s: Seq<char>, p: int, j: int) -> bool {
    let rest = lines_of(s.subrange(p, s.len() as int));
    &&& 0 <= j <= lines_of(s).len()
    &&& rest.len() == lines_of(s).len() - j
    &&& forall|t: int| 0 <= t < rest.len() ==> #[trigger] rest[t] == lines_of(s)[j + t]
}

proof fn lemma_newline_scan(s: Seq<char>, i: int, q: int)
    requires
        0 <= i <= q <= s.len(),
        forall|t: int| i <= t < q ==> s[t] != '\n',
        q == s.len() || s[q] == '\n',
    ensures
        newline_from(s, i) == q,
    decreases q - i,
{
    if i < q {
        lemma_newline_scan(s, i + 1, q);
    }
}

/// The `line`-th line (counted from 1) of the text `v`, as `str::lines` gives it.
fn source_line(v: &Vec<char>, line: usize) -> (r: Option<Vec<char>>)
    requires
        line >= 1,
    ensures
        match r {
            Some(l) => line <= lines_of(v@).len() && l@ == lines_of(v@)[line - 1],
            None => line > lines_of(v@).len(),
        },
{
    let ghost s = v@;
    let n = v.len();
    let mut p: usize = 0;
    let mut j: usize = 0;
    assert(s.subrange(0, n as int) =~= s);
    while p < n
        invariant
            n == s.len(),
            s == v@,
            p <= n,
            j < line,
            lines_from(s, p as int, j as int),
        decreases n - p,
    {
        let ghost rest = s.subrange(p as int, n as int);
        let mut q = p;
        while q < n && v[q] != '\n'
            invariant
                p <= q <= n,
                n == s.len(),
                s == v@,
                forall|t: int| p <= t < q ==> s[t] != '\n',
            decreases n - q,
        {
            q += 1;
        }
        proof {
            assert forall|t: int| 0 <= t < q - p implies rest[t] != '\n' by {
                assert(rest[t] == s[p + t]);
            }
            lemma_newline_scan(rest, 0, (q - p) as int);
        }
        let ghost first = if q < n { strip_cr(rest.subrange(0, (q - p) as int)) } else { rest };
        proof {
            assert(rest.len() > 0);
            assert(lines_of(rest)[0] == first);
        }
        if j + 1 == line {
            let mut out: Vec<char> = Vec::new();
            let mut end = q;
            if q < n && q > p && v[q - 1] == '\r' {
                end = q - 1;
            }
            let mut t = p;
            while t < end
                invariant
                    p <= t <= end <= q <= n,
                    n == s.len(),
                    s == v@,
                    out@ == s.subrange(p as int, t as int),
                decreases end - t,
            {
                out.push(v[t]);
                t += 1;
            }
            proof {
                assert(lines_from(s, p as int, j as int));
                assert(lines_of(rest)[0] == lines_of(s)[j as int]);
                if q < n {
                    assert(rest.subrange(0, (q - p) as int) =~= s.subrange(p as int, q as int));
                    assert(out@ =~= strip_cr(s.subrange(p as int, q as int)));
                } else {
                    assert(out@ =~= rest);
                }
            }
            return Some(out);
        }
        if q == n {
            proof {
                assert(lines_of(rest).len() == 1);
            }
            return None;
        }
        proof {
            let next = s.subrange(q + 1, n as int);
            assert(rest.subrange((q - p) + 1, rest.len() as int) =~= next);
            assert(lines_of(rest) == seq![first] + lines_of(next));
            assert forall|t: int| 0 <= t < lines_of(next).len() implies #[trigger] lines_of(next)[t] == lines_of(s)[j + 1 + t] by {
                assert(lines_of(next)[t] == lines_of(rest)[t + 1]);
            }
        }
        p = q + 1;
        j += 1;
    }
    proof {
        assert(s.subrange(p as int, n as int).len() == 0);
        assert(lines_of(s.subrange(p as int, n as int)) =~= Seq::<Seq<char>>::empty());
    }
    None
}

/// Appends the characters of `v`.
fn push_chars(s: &mut String, v: &Vec<char>)
    ensures
        final(s)@ == old(s)@ + v@,
{
    let mut k: usize = 0;
    while k < v.len()
        invariant
            k <= v.len(),
            s@ == old(s)@ + v@.subrange(0, k as int),
        decreases v.len() - k,
    {
        push_char(s, v[k]);
        k += 1;
        assert(v@.subrange(0, k as int) =~= v@.subrange(0, k - 1) + seq![v@[k - 1]]);
    }
    assert(v@.subrange(0, k as int) =~= v@);
}

/// Appends `n` spaces.
fn push_spaces(s: &mut String, n: usize)
    ensures
        final(s)@ == old(s)@ + spaces(n as int),
{
    let mut k: usize = 0;
    while k < n
        invariant
            k <= n,
            s@ == old(s)@ + spaces(k as int),
        decreases n - k,
    {
        push_char(s, ' ');
        k += 1;
        assert(spaces(k as int) =~= spaces(k - 1).push(' '));
    }
}

/// The report of a failure at `(line, column)` of `source`: the message, the
/// position, and the source line with a caret under the column when the line exists.
pub fn error_snippet(source: &str, line: usize, column: usize, message: &str) -> (r: String)
    ensures
        r@ == snippet_text(source@, line as nat, column as nat, message@),
{
    let mut out = String::new();
    out.append("\u{1b}[1;31m[ERROR]\u{1b}[0m: ");
    out.append(message);
    out.append("\n");
    out.append("  --> line ");
    push_dec_usize(&mut out, line);
    out.append(":");
    push_dec_usize(&mut out, column);
    out.append("\n");
    let ghost head = out@;
    let v = chars_of(source);
    if line >= 1 {
        match source_line(&v, line) {
            Some(text) => {
                out.append("   |\n");
                if line < 10 {
                    out.append("  ");
                } else if line < 100 {
                    out.append(" ");
                }
                push_dec_usize(&mut out, line);
                out.append(" | ");
                push_chars(&mut out, &text);
                out.append("\n");
                out.append("   | ");
                let pad = if column >= 1 { column - 1 } else { 0 };
                push_spaces(&mut out, pad);
                out.append("\u{1b}[1;31m^\u{1b}[0m\n");
            },
            None => {},
        }
    }
    out.append("\n");
    out
}

/// A failure written as `{:?}` writes a variant with a text and two positions.
pub open spec fn literal_debug(variant: Seq<char>, raw: Seq<char>, line: int, column: int) -> Seq<char> {
    variant + " { raw: "@ + debug_quoted(raw) + ", line: "@ + dec_nat(line as nat) + ", column: "@
        + dec_nat(column as nat) + " }"@
}

/// The position and message reported for a parsing failure: for an unexpected
/// token, its position and the expected and found texts quoted as `{:?}` quotes
/// them; for the others, no position (`0, 0`) and, but for an early end of input,
/// the failure as `{:?}` writes it.
pub open spec fn parser_report(e: PErr) -> (int, int, Seq<char>) {
    match e {
        PErr::UnexpectedToken { expected, found, line, column } => (
            line,
            column,
            "Expected "@ + debug_quoted(expected) + ", but found "@ + debug_quoted(found),
        ),
        PErr::UnexpectedEoF => (0, 0, "No valid file end was found"@),
        PErr::UnknownType(t) => (0, 0, "UnknownType("@ + debug_quoted(t) + ")"@),
        PErr::NotImplemented(t) => (0, 0, "NotImplemented("@ + debug_quoted(t) + ")"@),
        PErr::InvalidIntLiteral { raw, line, column } => (0, 0, literal_debug("InvalidIntLiteral"@, raw, line, column)),
        PErr::InvalidFloatLiteral { raw, line, column } => (
            0,
            0,
            literal_debug("InvalidFloatLiteral"@, raw, line, column),
        ),
    }
}

/// The position and message reported for an analysis failure.
pub open spec fn semantic_report(e: SErr) -> (int, int, Seq<char>) {
    match e {
        SErr::Redefinition { message, line, column } => (line, column, message),
        SErr::UndefinedVariable { name, line, column } => (line, column, "Undefined variable '"@ + name + "'"@),
        SErr::UndefinedFunction { name, line, column } => (line, column, "Undefined function '"@ + name + "'"@),
        SErr::UndefinedStruct { name, line, column } => (line, column, "Undefined struct '"@ + name + "'"@),
        SErr::TypeMismatch { message, line, column, .. } => (line, column, message),
        SErr::InvalidReturnType { message, line, column } => (line, column, message),
        SErr::NotAncillaryElement { name, expected, line, column } => (
            line,
            column,
            "'"@ + name + "' is not a "@ + expected,
        ),
        SErr::NotImplemented { message, line, column } => (line, column, message),
    }
}

/// `pre`, the text, then `post`.
fn wrap(pre: &str, mid: &str, post: &str) -> (r: String)
    ensures
        r@ == pre@ + mid@ + post@,
{
    let mut r = String::from_str(pre);
    r.append(mid);
    r.append(post);
    r
}

/// `variant { raw: "..", line: .., column: .. }`.
fn literal_text(variant: &str, raw: &str, line: usize, column: usize) -> (r: String)
    ensures
        r@ == literal_debug(variant@, raw@, line as int, column as int),
{
    let mut r = String::from_str(variant);
    r.append(" { raw: ");
    let q = debug_str(raw);
    r.append(q.as_str());
    r.append(", line: ");
    push_dec_usize(&mut r, line);
    r.append(", column: ");
    push_dec_usize(&mut r, column);
    r.append(" }");
    r
}

/// The position and message to report for a parsing failure.
pub fn parser_error_report(e: &ParserError) -> (r: (usize, usize, String))
    ensures
        (r.0 as int, r.1 as int, r.2@) == parser_report(e@),
{
    match e {
        ParserError::UnexpectedToken { expected, found, line, column } => {
            let mut m = String::from_str("Expected ");
            let qe = debug_str(expected.as_str());
            m.append(qe.as_str());
            m.append(", but found ");
            let qf = debug_str(found.as_str());
            m.append(qf.as_str());
            (*line, *column, m)
        },
        ParserError::UnexpectedEoF => (0, 0, String::from_str("No valid file end was found")),
        ParserError::UnknownType(t) => {
            let q = debug_str(t.as_str());
            (0, 0, wrap("UnknownType(", q.as_str(), ")"))
        },
        ParserError::NotImplemented(t) => {
            let q = debug_str(t.as_str());
            (0, 0, wrap("NotImplemented(", q.as_str(), ")"))
        },
        ParserError::InvalidIntLiteral { raw, line, column } => (
            0,
            0,
            literal_text("InvalidIntLiteral", raw.as_str(), *line, *column),
        ),
        ParserError::InvalidFloatLiteral { raw, line, column } => (
            0,
            0,
            literal_text("InvalidFloatLiteral", raw.as_str(), *line, *column),
        ),
    }
}

/// The position and message to report for an analysis failure.
pub fn semantic_error_report(e: &SemanticError) -> (r: (usize, usize, String))
    ensures
        (r.0 as int, r.1 as int, r.2@) == semantic_report(e@),
{
    match e {
        SemanticError::Redefinition { message, line, column } => (*line, *column, message.clone()),
        SemanticError::UndefinedVariable { name, line, column } => (
            *line,
            *column,
            wrap("Undefined variable '", name.as_str(), "'"),
        ),
        SemanticError::UndefinedFunction { name, line, column } => (
            *line,
            *column,
            wrap("Undefined function '", name.as_str(), "'"),
        ),
        SemanticError::UndefinedStruct { name, line, column } => (
            *line,
            *column,
            wrap("Undefined struct '", name.as_str(), "'"),
        ),
        SemanticError::TypeMismatch { message, line, column, .. } => (*line, *column, message.clone()),
        SemanticError::InvalidReturnType { message, line, column } => (*line, *column, message.clone()),
        SemanticError::NotAncillaryElement { name, expected, line, column } => {
            let mut m = wrap("'", name.as_str(), "' is not a ");
            m.append(expected.as_str());
            (*line, *column, m)
        },
        SemanticError::NotImplemented { message, line, column } => (*line, *column, message.clone()),
    }
}

} // verus!
