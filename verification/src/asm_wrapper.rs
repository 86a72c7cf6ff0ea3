//! The assembler as the generators see it.

use vstd::prelude::*;
use vstd::string::*;
use vstd::slice::slice_subrange;
use crate::bytes::append_all;
use crate::text::{decimal, decimal_chars};
use crate::toolchain::{reply_view, spec_assemble, ReplyView, ToolRequest, Toolchain};
use crate::words::{
    after_spaces, after_word, chars_of, count_lines, cut, find_from, find_in, first_word,
    lemma_line_count, line_at, line_close, line_stop, lines, lines_from, occurs, same_text,
    trim_bounds, trimmed, word_bounds, words,
};

verus! {

/// An assembly that failed, with the assembler's message.
#[derive(Debug)]
pub enum AsmError {
    Asm(String),
}

/// The result of an assembly as a spec value.
pub open spec fn asm_view(r: Result<Vec<u8>, AsmError>) -> ReplyView {
    match r {
        Ok(bytes) => Ok(bytes@),
        Err(AsmError::Asm(message)) => Err(message@),
    }
}

/// A program file: the load address `$0801`, low byte first, then the binary.
pub open spec fn prg_file(binary: Seq<u8>) -> Seq<u8> {
    seq![0x01u8, 0x08u8] + binary
}

/// The text between the first two quotation marks.
pub open spec fn quoted(msg: Seq<char>) -> Option<Seq<char>> {
    match find_from(msg, "\""@, 0) {
        Some(a) => match find_from(msg, "\""@, a + 1) {
            Some(b) => Some(msg.subrange(a + 1, b)),
            None => None,
        },
        None => None,
    }
}

/// The first word behind the first `marker`.
pub open spec fn word_after(msg: Seq<char>, marker: Seq<char>) -> Option<Seq<char>> {
    match find_from(msg, marker, 0) {
        Some(at) => first_word(msg, at + marker.len()),
        None => None,
    }
}

/// A word that follows the name of what was not found.
pub open spec fn is_marker(word: Seq<char>) -> bool {
    word == "Undefined"@ || word == "undefined"@ || word == "not"@
}

/// The first word, at or after index `i`, that stands in front of a marker.
pub open spec fn word_before_marker(all: Seq<Seq<char>>, i: int) -> Option<Seq<char>>
    decreases all.len() - i,
{
    if i < 0 || i + 1 >= all.len() {
        None
    } else if is_marker(all[i + 1]) {
        Some(all[i])
    } else {
        word_before_marker(all, i + 1)
    }
}

/// What a message of the assembler is about: the text it quotes; else the
/// word behind `instruction:`; else the word behind `mnemonic:`; else, in a
/// message with `Undefined` or `not found`, the word in front of `Undefined`,
/// `undefined` or `not`.
pub open spec fn keyword(msg: Seq<char>) -> Option<Seq<char>> {
    if quoted(msg) is Some {
        quoted(msg)
    } else if word_after(msg, "instruction:"@) is Some {
        word_after(msg, "instruction:"@)
    } else if word_after(msg, "mnemonic:"@) is Some {
        word_after(msg, "mnemonic:"@)
    } else if occurs(msg, "Undefined"@) || occurs(msg, "not found"@) {
        word_before_marker(words(msg), 0)
    } else {
        None
    }
}

/// The line, trimmed, holds the keyword and is no comment.
pub open spec fn points_at(line: Seq<char>, kw: Seq<char>) -> bool {
    let t = trimmed(line);
    occurs(t, kw) && !(t.len() > 0 && t[0] == ';')
}

/// The index of the first line at or after `i` that points at the keyword.
pub open spec fn first_pointing(all: Seq<Seq<char>>, kw: Seq<char>, i: int) -> Option<int>
    decreases all.len() - i,
{
    if i < 0 || i >= all.len() {
        None
    } else if points_at(all[i], kw) {
        Some(i)
    } else {
        first_pointing(all, kw, i + 1)
    }
}

/// The report of a failure that a line of the source was found for.
pub open spec fn located_message(
    number: nat,
    kind: Seq<char>,
    line: Seq<char>,
    msg: Seq<char>,
) -> Seq<char> {
    "Assembly error at line "@ + decimal_chars(number) + ": "@ + kind + "\n\nLine "@
        + decimal_chars(number) + ": "@ + line + "\n\nError: "@ + msg
}

/// The report of a failure that no line of the source was found for.
pub open spec fn unlocated_message(kind: Seq<char>, msg: Seq<char>, count: nat) -> Seq<char> {
    "Assembly error ("@ + kind + "): "@ + msg + "\n\nTotal lines in source: "@ + decimal_chars(
        count,
    )
}

/// The report of a failure of the given kind: with the first line of the
/// source that points at the keyword of the message, where there is one.
pub open spec fn error_context(source: Seq<char>, msg: Seq<char>, kind: Seq<char>) -> Seq<char> {
    let all = lines(source);
    let found = match keyword(msg) {
        Some(kw) => first_pointing(all, kw, 0),
        None => None,
    };
    match found {
        Some(n) => located_message((n + 1) as nat, kind, trimmed(all[n]), msg),
        None => unlocated_message(kind, msg, all.len()),
    }
}

/// The advice on a branch that reaches too far.
pub open spec fn branch_note() -> Seq<char> {
    "\n\nNote: This may be caused by branch instructions that are out of range.\nTry using absolute JMP instructions for long distances."@
}

/// The report of a failure of the assembler, from the text of its error.
pub open spec fn error_report(error: Seq<char>, source: Seq<char>) -> Seq<char> {
    if occurs(error, "Unknown instruction"@) || occurs(error, "unknown mnemonic"@) {
        error_context(source, error, "instruction"@)
    } else if occurs(error, "Invalid"@) || occurs(error, "Parse error"@) || occurs(
        error,
        "Expected"@,
    ) {
        error_context(source, error, "syntax"@)
    } else if occurs(error, "Undefined"@) {
        error_context(source, error, "undefined"@)
    } else if occurs(error, "Long-branch"@) {
        "Assembly error: "@ + error + branch_note()
    } else {
        "Assembly error: "@ + error + "\n(Source has "@ + decimal_chars(lines(source).len())
            + " lines)"@
    }
}

/// Whether `pat` stands somewhere in `s`.
fn holds(s: &[char], pat: &str) -> (r: bool)
    ensures
        r == occurs(s@, pat@),
{
    let p = chars_of(pat);
    find_in(s, p.as_slice(), 0).is_some()
}

/// The bounds of the text between the first two quotation marks.
fn quoted_bounds(msg: &[char]) -> (r: Option<(usize, usize)>)
    ensures
        match r {
            Some((a, b)) => a <= b <= msg.len() && quoted(msg@) == Some(
                msg@.subrange(a as int, b as int),
            ),
            None => quoted(msg@) is None,
        },
{
    let mark = chars_of("\"");
    match find_in(msg, mark.as_slice(), 0) {
        Some(a) => {
            if a >= msg.len() {
                return None;
            }
            match find_in(msg, mark.as_slice(), a + 1) {
                Some(b) => Some((a + 1, b)),
                None => None,
            }
        },
        None => None,
    }
}

/// The bounds of the first word behind the first `marker`.
fn word_after_bounds(msg: &[char], marker: &str) -> (r: Option<(usize, usize)>)
    ensures
        match r {
            Some((a, b)) => a <= b <= msg.len() && word_after(msg@, marker@) == Some(
                msg@.subrange(a as int, b as int),
            ),
            None => word_after(msg@, marker@) is None,
        },
{
    let pat = chars_of(marker);
    match find_in(msg, pat.as_slice(), 0) {
        Some(at) => {
            let a = after_spaces(msg, at + pat.len());
            if a < msg.len() {
                Some((a, after_word(msg, a)))
            } else {
                None
            }
        },
        None => None,
    }
}

/// The bounds of the first word that stands in front of a marker.
fn marked_word(msg: &[char]) -> (r: Option<(usize, usize)>)
    ensures
        match r {
            Some((a, b)) => a <= b <= msg.len() && word_before_marker(words(msg@), 0) == Some(
                msg@.subrange(a as int, b as int),
            ),
            None => word_before_marker(words(msg@), 0) is None,
        },
{
    let bounds = word_bounds(msg);
    let upper = chars_of("Undefined");
    let lower = chars_of("undefined");
    let not = chars_of("not");
    if bounds.len() == 0 {
        assert(words(msg@).len() == 0) by {
            assert(cut(msg@, bounds@).len() == 0);
        }
        return None;
    }
    let mut i: usize = 0;
    while i < bounds.len() - 1
        invariant
            bounds.len() > 0,
            cut(msg@, bounds@) == words(msg@),
            forall|j: int|
                0 <= j < bounds@.len() ==> (#[trigger] bounds@[j]).0 <= bounds@[j].1 <= msg.len(),
            upper@ == "Undefined"@,
            lower@ == "undefined"@,
            not@ == "not"@,
            word_before_marker(words(msg@), 0) == word_before_marker(words(msg@), i as int),
        decreases bounds.len() - i,
    {
        let next = bounds[i + 1];
        assert(words(msg@)[i + 1] == msg@.subrange(next.0 as int, next.1 as int)) by {
            assert(cut(msg@, bounds@)[i + 1] == msg@.subrange(next.0 as int, next.1 as int));
        }
        if same_text(msg, next.0, next.1, upper.as_slice()) || same_text(
            msg,
            next.0,
            next.1,
            lower.as_slice(),
        ) || same_text(msg, next.0, next.1, not.as_slice()) {
            let this = bounds[i];
            assert(words(msg@)[i as int] == msg@.subrange(this.0 as int, this.1 as int)) by {
                assert(cut(msg@, bounds@)[i as int] == msg@.subrange(this.0 as int, this.1 as int));
            }
            return Some(this);
        }
        i = i + 1;
    }
    assert(words(msg@).len() == bounds@.len()) by {
        assert(cut(msg@, bounds@).len() == bounds@.len());
    }
    None
}

/// The bounds of what a message of the assembler is about.
fn keyword_bounds(msg: &[char]) -> (r: Option<(usize, usize)>)
    ensures
        match r {
            Some((a, b)) => a <= b <= msg.len() && keyword(msg@) == Some(
                msg@.subrange(a as int, b as int),
            ),
            None => keyword(msg@) is None,
        },
{
    match quoted_bounds(msg) {
        Some(found) => {
            return Some(found);
        },
        None => {},
    }
    match word_after_bounds(msg, "instruction:") {
        Some(found) => {
            return Some(found);
        },
        None => {},
    }
    match word_after_bounds(msg, "mnemonic:") {
        Some(found) => {
            return Some(found);
        },
        None => {},
    }
    if holds(msg, "Undefined") || holds(msg, "not found") {
        marked_word(msg)
    } else {
        None
    }
}

/// The number of the first line that points at the keyword, counted from 0,
/// and the bounds of that line, trimmed.
fn pointing_line(s: &[char], kw: &[char]) -> (r: Option<(usize, usize, usize)>)
    ensures
        match r {
            Some((n, a, b)) => first_pointing(lines(s@), kw@, 0) == Some(n as int) && n < s.len()
                && a <= b <= s.len() && trimmed(lines(s@)[n as int]) == s@.subrange(
                a as int,
                b as int,
            ),
            None => first_pointing(lines(s@), kw@, 0) is None,
        },
{
    let mut i: usize = 0;
    let mut n: usize = 0;
    while i < s.len()
        invariant
            i <= s.len(),
            n <= i,
            n <= lines(s@).len(),
            lines(s@).skip(n as int) == lines_from(s@, i as int),
            first_pointing(lines(s@), kw@, 0) == first_pointing(lines(s@), kw@, n as int),
        decreases s.len() - i,
    {
        let stop = line_stop(s, i);
        let close = line_close(s, i, stop);
        let line = slice_subrange(s, i, close);
        let (a, b) = trim_bounds(line);
        let t = slice_subrange(line, a, b);
        let comment = t.len() > 0 && t[0] == ';';
        proof {
            assert(lines_from(s@, i as int)[0] == line_at(s@, i as int));
            assert(lines(s@).skip(n as int).len() == lines(s@).len() - n);
            assert(lines(s@).skip(n as int)[0] == lines(s@)[n as int]);
            assert(lines(s@)[n as int] == line@);
            assert(t@ == trimmed(line@));
            assert(s@.subrange(i as int, close as int).subrange(a as int, b as int) =~= s@.subrange(
                i + a,
                i + b,
            ));
            assert(lines(s@).skip(n + 1) =~= lines(s@).skip(n as int).skip(1));
            assert(lines_from(s@, i as int).skip(1) =~= lines_from(s@, stop + 1));
        }
        if !comment && find_in(t, kw, 0).is_some() {
            return Some((n, i + a, i + b));
        }
        n = n + 1;
        if stop < s.len() {
            i = stop + 1;
        } else {
            proof {
                lemma_line_count(s@, stop + 1);
                lemma_line_count(s@, stop as int);
            }
            assert(lines_from(s@, stop + 1) =~= lines_from(s@, stop as int));
            i = stop;
        }
    }
    assert(lines_from(s@, i as int).len() == 0);
    assert(lines(s@).skip(n as int).len() == lines(s@).len() - n);
    None
}

/// The assembler.
pub struct Assembler6502Wrapper {}

impl Assembler6502Wrapper {
    /// An assembler.
    pub fn new() -> (r: Self) {
        Assembler6502Wrapper {  }
    }

    /// What a message of the assembler is about, if that can be told.
    pub fn extract_keyword_from_error(&self, error_msg: &str) -> (r: Option<String>)
        ensures
            match r {
                Some(kw) => keyword(error_msg@) == Some(kw@),
                None => keyword(error_msg@) is None,
            },
    {
        let msg = chars_of(error_msg);
        match keyword_bounds(msg.as_slice()) {
            Some((a, b)) => Some(String::from_str(error_msg.substring_char(a, b))),
            None => None,
        }
    }

    /// The report of a failure of the given kind, with the line of the
    /// source that the message points at, where one is found.
    pub fn find_error_context(&self, source: &str, error_msg: &str, error_type: &str) -> (r: String)
        ensures
            r@ == error_context(source@, error_msg@, error_type@),
    {
        let text = chars_of(source);
        let msg = chars_of(error_msg);
        let found = match keyword_bounds(msg.as_slice()) {
            Some((a, b)) => pointing_line(text.as_slice(), slice_subrange(msg.as_slice(), a, b)),
            None => None,
        };
        match found {
            Some((n, a, b)) => {
                let number = decimal(n + 1);
                let mut out = String::from_str("Assembly error at line ");
                out.append(number.as_str());
                out.append(": ");
                out.append(error_type);
                out.append("\n\nLine ");
                out.append(number.as_str());
                out.append(": ");
                out.append(source.substring_char(a, b));
                out.append("\n\nError: ");
                out.append(error_msg);
                out
            },
            None => {
                let count = decimal(count_lines(text.as_slice()));
                let mut out = String::from_str("Assembly error (");
                out.append(error_type);
                out.append("): ");
                out.append(error_msg);
                out.append("\n\nTotal lines in source: ");
                out.append(count.as_str());
                out
            },
        }
    }

    /// The report of a failure of the assembler, from the text of its error:
    /// what kind of failure it is and, where that can be found, the line of
    /// the source that it is about.
    pub fn format_assembly_error(&self, error_string: &str, source: &str) -> (r: String)
        ensures
            r@ == error_report(error_string@, source@),
    {
        let error = chars_of(error_string);
        if holds(error.as_slice(), "Unknown instruction") || holds(
            error.as_slice(),
            "unknown mnemonic",
        ) {
            return self.find_error_context(source, error_string, "instruction");
        }
        if holds(error.as_slice(), "Invalid") || holds(error.as_slice(), "Parse error") || holds(
            error.as_slice(),
            "Expected",
        ) {
            return self.find_error_context(source, error_string, "syntax");
        }
        if holds(error.as_slice(), "Undefined") {
            return self.find_error_context(source, error_string, "undefined");
        }
        let mut out = String::from_str("Assembly error: ");
        out.append(error_string);
        if holds(error.as_slice(), "Long-branch") {
            out.append(
                "\n\nNote: This may be caused by branch instructions that are out of range.\nTry using absolute JMP instructions for long distances.",
            );
            return out;
        }
        let text = chars_of(source);
        let count = decimal(count_lines(text.as_slice()));
        out.append("\n(Source has ");
        out.append(count.as_str());
        out.append(" lines)");
        out
    }

    /// Assembles `src` to raw bytes.
    pub fn assemble_bytes(&mut self, tools: &mut Toolchain, src: &str) -> (r: Result<
        Vec<u8>,
        AsmError,
    >)
        ensures
            (asm_view(r), final(tools)@) == spec_assemble(old(tools)@, src@),
    {
        match tools.run(ToolRequest::Assemble(String::from_str(src))) {
            Ok(bytes) => Ok(bytes),
            Err(message) => Err(AsmError::Asm(message)),
        }
    }

    /// Assembles `src` to a program file that loads at `$0801`.
    pub fn assemble_prg(&mut self, tools: &mut Toolchain, src: &str) -> (r: Result<
        Vec<u8>,
        AsmError,
    >)
        ensures
            final(tools)@ == spec_assemble(old(tools)@, src@).1,
            asm_view(r) == match spec_assemble(old(tools)@, src@).0 {
                Ok(binary) => Ok(prg_file(binary)),
                Err(message) => Err(message),
            },
    {
        match self.assemble_bytes(tools, src) {
            Ok(binary) => {
                let mut prg: Vec<u8> = Vec::new();
                prg.push(0x01);
                prg.push(0x08);
                append_all(&mut prg, binary.as_slice());
                assert(prg@ =~= prg_file(binary@));
                Ok(prg)
            },
            Err(e) => Err(e),
        }
    }
}

/// Assembles `src` to raw bytes; a failure is returned as its message.
pub fn assemble_to_bytes(tools: &mut Toolchain, src: &str) -> (r: Result<Vec<u8>, String>)
    ensures
        (reply_view(r), final(tools)@) == spec_assemble(old(tools)@, src@),
{
    let mut assembler = Assembler6502Wrapper::new();
    match assembler.assemble_bytes(tools, src) {
        Ok(bytes) => Ok(bytes),
        Err(AsmError::Asm(message)) => Err(message),
    }
}

} // verus!
