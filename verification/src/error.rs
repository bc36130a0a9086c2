//! Compiler diagnostics with source locations, and their rendering as text.
use vstd::prelude::*;
use crate::ast::Span;
use crate::text::{chars_of, string_of, cat3, cat5, cat6, cat7, u128_to_string, repeat_char, push_char, decimal};

verus! {

/// A compiler diagnostic with source location and context.
#[derive(Debug, Clone)]
pub struct CompileError {
    pub message: String,
    pub span: Span,
    /// Additional context notes (e.g., "declared here").
    pub notes: Vec<Note>,
}

/// A secondary annotation attached to an error.
#[derive(Debug, Clone)]
pub struct Note {
    pub message: String,
    pub span: Span,
}

/// The pieces of `s` between newline characters; `k` newlines give `k + 1` pieces.
pub open spec fn newline_pieces(s: Seq<char>) -> Seq<Seq<char>>
    decreases s.len(),
{
    if s.len() == 0 {
        seq![Seq::empty()]
    } else {
        let p = newline_pieces(s.drop_last());
        if s.last() == '\n' {
            p.push(Seq::empty())
        } else {
            p.update(p.len() - 1, p.last().push(s.last()))
        }
    }
}

/// A line that ended in "\r\n" loses its '\r'.
pub open spec fn strip_cr(l: Seq<char>) -> Seq<char> {
    if l.len() > 0 && l.last() == '\r' {
        l.drop_last()
    } else {
        l
    }
}

/// The lines of a text as `str::lines` yields them: split at '\n', a '\r'
/// before a '\n' removed, and no empty line after a final '\n'.
pub open spec fn text_lines(s: Seq<char>) -> Seq<Seq<char>> {
    let p = newline_pieces(s);
    let full = Seq::new((p.len() - 1) as nat, |i: int| strip_cr(p[i]));
    if p.last().len() > 0 {
        full.push(p.last())
    } else {
        full
    }
}

/// `n` spaces.
pub open spec fn spaces(n: nat) -> Seq<char> {
    Seq::new(n, |_i: int| ' ')
}

/// The quoted source line with a gutter, and a caret under the column when
/// the column is known; nothing when the line does not exist.
pub open spec fn source_context(lines: Seq<Seq<char>>, span: Span) -> Seq<char> {
    if span.line == 0 || span.line > lines.len() {
        Seq::empty()
    } else {
        let num = decimal(span.line as nat);
        let quoted = seq![' '] + num + seq![' ', '|', ' '] + lines[span.line - 1] + seq!['\n'];
        if span.col > 0 {
            quoted + seq![' '] + spaces(num.len()) + seq![' ', '|', ' '] + spaces(
                (span.col - 1) as nat,
            ) + seq!['^', '\n']
        } else {
            quoted
        }
    }
}

/// The text of one note.
pub open spec fn note_text(note: Note, lines: Seq<Seq<char>>) -> Seq<char> {
    if note.span.line > 0 {
        "  note["@ + decimal(note.span.line as nat) + seq![':'] + decimal(
            note.span.col as nat,
        ) + "]: "@ + note.message@ + seq!['\n'] + source_context(lines, note.span)
    } else {
        "  note: "@ + note.message@ + seq!['\n']
    }
}

/// The text of a list of notes, in order.
pub open spec fn notes_text(notes: Seq<Note>, lines: Seq<Seq<char>>) -> Seq<char>
    decreases notes.len(),
{
    if notes.len() == 0 {
        Seq::empty()
    } else {
        notes_text(notes.drop_last(), lines) + note_text(notes.last(), lines)
    }
}

/// The header line of a rendered error.
pub open spec fn header_text(e: CompileError, filename: Seq<char>) -> Seq<char> {
    if e.span.line > 0 {
        "error["@ + filename + seq![':'] + decimal(e.span.line as nat) + seq![':'] + decimal(
            e.span.col as nat,
        ) + "]: "@ + e.message@ + seq!['\n']
    } else {
        "error["@ + filename + "]: "@ + e.message@ + seq!['\n']
    }
}

/// A whole rendered diagnostic.
pub open spec fn rendered(e: CompileError, source: Seq<char>, filename: Seq<char>) -> Seq<char> {
    let lines = text_lines(source);
    header_text(e, filename) + (if e.span.line > 0 {
        source_context(lines, e.span)
    } else {
        Seq::empty()
    }) + notes_text(e.notes@, lines)
}

/// The one-line form of an error: "[line L:C] message", or the bare message
/// when there is no position.
pub open spec fn short_text(e: CompileError) -> Seq<char> {
    if e.span.line > 0 {
        "[line "@ + decimal(e.span.line as nat) + seq![':'] + decimal(e.span.col as nat) + "] "@
            + e.message@
    } else {
        e.message@
    }
}

/// The one-line forms of several errors, one per line.
pub open spec fn joined_short_text(errors: Seq<CompileError>) -> Seq<char>
    decreases errors.len(),
{
    if errors.len() == 0 {
        Seq::empty()
    } else if errors.len() == 1 {
        short_text(errors[0])
    } else {
        joined_short_text(errors.drop_last()) + seq!['\n'] + short_text(errors.last())
    }
}

/// The rendered forms of several errors, separated by an empty line.
pub open spec fn joined_rendered(
    errors: Seq<CompileError>,
    source: Seq<char>,
    filename: Seq<char>,
) -> Seq<char>
    decreases errors.len(),
{
    if errors.len() == 0 {
        Seq::empty()
    } else if errors.len() == 1 {
        rendered(errors[0], source, filename)
    } else {
        joined_rendered(errors.drop_last(), source, filename) + seq!['\n'] + rendered(
            errors.last(),
            source,
            filename,
        )
    }
}

/// Splits a text into its lines, as `str::lines` does.
fn split_lines(source: &str) -> (lines: Vec<Vec<char>>)
    ensures
        lines@.len() == text_lines(source@).len(),
        forall|i: int| 0 <= i < lines@.len() ==> #[trigger] lines@[i]@ == text_lines(source@)[i],
{
    let chars = chars_of(source);
    let mut done: Vec<Vec<char>> = Vec::new();
    let mut cur: Vec<char> = Vec::new();
    let mut i: usize = 0;
    while i < chars.len()
        invariant
            i <= chars.len(),
            chars@ == source@,
            done@.len() + 1 == newline_pieces(chars@.take(i as int)).len(),
            forall|j: int|
                0 <= j < done@.len() ==> #[trigger] done@[j]@ == strip_cr(
                    newline_pieces(chars@.take(i as int))[j],
                ),
            cur@ == newline_pieces(chars@.take(i as int)).last(),
        decreases chars.len() - i,
    {
        let c = chars[i];
        let ghost prefix = chars@.take(i as int);
        assert(chars@.take(i + 1).drop_last() =~= prefix);
        if c == '\n' {
            let n = cur.len();
            let piece = if n > 0 && cur[n - 1] == '\r' {
                let mut p: Vec<char> = Vec::new();
                let mut k: usize = 0;
                while k < n - 1
                    invariant
                        k <= n - 1,
                        n == cur@.len(),
                        p@ == cur@.take(k as int),
                    decreases n - 1 - k,
                {
                    p.push(cur[k]);
                    assert(cur@.take(k as int).push(cur@[k as int]) =~= cur@.take(k + 1));
                    k = k + 1;
                }
                assert(p@ =~= cur@.drop_last());
                p
            } else {
                let mut p: Vec<char> = Vec::new();
                let mut k: usize = 0;
                while k < n
                    invariant
                        k <= n,
                        n == cur@.len(),
                        p@ == cur@.take(k as int),
                    decreases n - k,
                {
                    p.push(cur[k]);
                    assert(cur@.take(k as int).push(cur@[k as int]) =~= cur@.take(k + 1));
                    k = k + 1;
                }
                assert(p@ =~= cur@);
                p
            };
            done.push(piece);
            cur = Vec::new();
        } else {
            cur.push(c);
        }
        i = i + 1;
    }
    assert(chars@.take(chars.len() as int) =~= source@);
    if cur.len() > 0 {
        done.push(cur);
    }
    done
}

/// Appends the quoted source line and caret for `span` to `out`.
fn render_source_context(out: &mut String, lines: &Vec<Vec<char>>, span: Span, ghost_lines: Ghost<Seq<Seq<char>>>)
    requires
        lines@.len() == ghost_lines@.len(),
        forall|i: int| 0 <= i < lines@.len() ==> #[trigger] lines@[i]@ == ghost_lines@[i],
    ensures
        final(out)@ == old(out)@ + source_context(ghost_lines@, span),
{
    let line_idx = span.line as usize;
    if line_idx == 0 || line_idx > lines.len() {
        assert(source_context(ghost_lines@, span) =~= Seq::<char>::empty());
        assert(out@ =~= old(out)@ + source_context(ghost_lines@, span));
        return;
    }
    let line_num = u128_to_string(span.line as u128);
    let width = line_num.unicode_len();
    let content = string_of(lines[line_idx - 1].as_slice());
    let quoted = cat5(" ", line_num.as_str(), " | ", content.as_str(), "\n");
    out.append(quoted.as_str());
    proof {
        reveal_strlit(" ");
        reveal_strlit(" | ");
        reveal_strlit("\n");
    }
    if span.col > 0 {
        let pad = repeat_char(' ', width);
        let caret_pad = repeat_char(' ', (span.col - 1) as usize);
        let caret = cat5(" ", pad.as_str(), " | ", caret_pad.as_str(), "^\n");
        out.append(caret.as_str());
        proof {
            reveal_strlit("^\n");
        }
        assert(out@ =~= old(out)@ + source_context(ghost_lines@, span));
    } else {
        assert(out@ =~= old(out)@ + source_context(ghost_lines@, span));
    }
}

impl CompileError {
    /// Create an error at a specific source location.
    pub fn new(message: String, span: Span) -> (e: CompileError)
        ensures
            e.message@ == message@,
            e.span == span,
            e.notes@.len() == 0,
    {
        CompileError { message, span, notes: Vec::new() }
    }

    /// Create an error with no source location (e.g., file I/O errors).
    pub fn bare(message: String) -> (e: CompileError)
        ensures
            e.message@ == message@,
            e.span.line == 0,
            e.span.col == 0,
            e.notes@.len() == 0,
    {
        CompileError { message, span: Span::unset(), notes: Vec::new() }
    }

    /// Add a contextual note pointing at another location.
    pub fn with_note(self, message: String, span: Span) -> (e: CompileError)
        ensures
            e.message == self.message,
            e.span == self.span,
            e.notes@ == self.notes@.push(Note { message, span }),
    {
        let mut e = self;
        e.notes.push(Note { message, span });
        e
    }

    /// Set the span if it hasn't been set yet (line 0 means unset).
    pub fn with_span(self, span: Span) -> (e: CompileError)
        ensures
            e.message == self.message,
            e.notes == self.notes,
            e.span == (if self.span.line == 0 { span } else { self.span }),
    {
        let mut e = self;
        if e.span.line == 0 {
            e.span = span;
        }
        e
    }

    /// Render this error as a human-readable diagnostic: a header naming the
    /// file and position, the quoted source line with a caret, then the notes.
    pub fn render(&self, source: &str, filename: &str) -> (out: String)
        ensures
            out@ == rendered(*self, source@, filename@),
    {
        let lines = split_lines(source);
        let ghost gl = text_lines(source@);
        proof {
            reveal_strlit("error[");
            reveal_strlit("]: ");
            reveal_strlit(":");
            reveal_strlit("\n");
        }
        let mut out = if self.span.line > 0 {
            let l = u128_to_string(self.span.line as u128);
            let c = u128_to_string(self.span.col as u128);
            let s = cat7("error[", filename, ":", l.as_str(), ":", c.as_str(), "]: ");
            cat3(s.as_str(), self.message.as_str(), "\n")
        } else {
            cat5("error[", filename, "]: ", self.message.as_str(), "\n")
        };
        assert(out@ =~= header_text(*self, filename@));
        if self.span.line > 0 {
            render_source_context(&mut out, &lines, self.span, Ghost(gl));
        }
        assert(out@ =~= header_text(*self, filename@) + (if self.span.line > 0 {
            source_context(gl, self.span)
        } else {
            Seq::empty()
        }));
        let ghost before_notes = out@;
        let mut i: usize = 0;
        while i < self.notes.len()
            invariant
                i <= self.notes@.len(),
                lines@.len() == gl.len(),
                forall|k: int| 0 <= k < lines@.len() ==> #[trigger] lines@[k]@ == gl[k],
                out@ == before_notes + notes_text(self.notes@.take(i as int), gl),
            decreases self.notes.len() - i,
        {
            let note = &self.notes[i];
            proof {
                reveal_strlit("]: ");
                reveal_strlit(":");
                reveal_strlit("\n");
            }
            assert(self.notes@.take(i + 1).drop_last() =~= self.notes@.take(i as int));
            let ghost mid = out@;
            if note.span.line > 0 {
                let l = u128_to_string(note.span.line as u128);
                let c = u128_to_string(note.span.col as u128);
                let s = cat7("  note[", l.as_str(), ":", c.as_str(), "]: ", note.message.as_str(), "\n");
                out.append(s.as_str());
                proof {
                    reveal_strlit("  note[");
                }
                render_source_context(&mut out, &lines, note.span, Ghost(gl));
                assert(out@ =~= mid + note_text(*note, gl));
            } else {
                let s = cat3("  note: ", note.message.as_str(), "\n");
                out.append(s.as_str());
                proof {
                    reveal_strlit("  note: ");
                }
                assert(out@ =~= mid + note_text(*note, gl));
            }
            i = i + 1;
        }
        assert(self.notes@.take(self.notes@.len() as int) =~= self.notes@);
        out
    }

    /// The one-line form of this error: "[line L:C] message", or just the
    /// message when the error has no position.
    pub fn short_form(&self) -> (s: String)
        ensures
            s@ == short_text(*self),
    {
        if self.span.line > 0 {
            let l = u128_to_string(self.span.line as u128);
            let c = u128_to_string(self.span.col as u128);
            proof {
                reveal_strlit("[line ");
                reveal_strlit(":");
                reveal_strlit("] ");
            }
            let s = cat6("[line ", l.as_str(), ":", c.as_str(), "] ", self.message.as_str());
            assert(s@ =~= short_text(*self));
            s
        } else {
            self.message.clone()
        }
    }
}

/// A collection of compile errors. The checker continues after recoverable
/// errors to report as many issues as possible in a single pass.
#[derive(Debug, Clone)]
pub struct CompileErrors {
    pub errors: Vec<CompileError>,
}

impl CompileErrors {
    pub fn new(errors: Vec<CompileError>) -> (r: CompileErrors)
        ensures
            r.errors == errors,
    {
        CompileErrors { errors }
    }

    pub fn single(error: CompileError) -> (r: CompileErrors)
        ensures
            r.errors@ == seq![error],
    {
        let mut errors = Vec::new();
        errors.push(error);
        CompileErrors { errors }
    }

    /// Every error rendered, separated by a newline.
    pub fn render_all(&self, source: &str, filename: &str) -> (out: String)
        ensures
            out@ == joined_rendered(self.errors@, source@, filename@),
    {
        let mut out = String::new();
        let mut i: usize = 0;
        while i < self.errors.len()
            invariant
                i <= self.errors@.len(),
                out@ == joined_rendered(self.errors@.take(i as int), source@, filename@),
            decreases self.errors.len() - i,
        {
            assert(self.errors@.take(i + 1).drop_last() =~= self.errors@.take(i as int));
            let r = self.errors[i].render(source, filename);
            if i > 0 {
                push_char(&mut out, '\n');
            }
            out.append(r.as_str());
            proof {
                if i == 0 {
                    assert(out@ =~= joined_rendered(self.errors@.take(1), source@, filename@));
                } else {
                    assert(out@ =~= joined_rendered(self.errors@.take(i + 1), source@, filename@));
                }
            }
            i = i + 1;
        }
        assert(self.errors@.take(self.errors@.len() as int) =~= self.errors@);
        out
    }

    pub fn is_empty(&self) -> (r: bool)
        ensures
            r == (self.errors@.len() == 0),
    {
        self.errors.len() == 0
    }

    /// The one-line forms of all errors, one per line.
    pub fn short_form(&self) -> (out: String)
        ensures
            out@ == joined_short_text(self.errors@),
    {
        let mut out = String::new();
        let mut i: usize = 0;
        while i < self.errors.len()
            invariant
                i <= self.errors@.len(),
                out@ == joined_short_text(self.errors@.take(i as int)),
            decreases self.errors.len() - i,
        {
            assert(self.errors@.take(i + 1).drop_last() =~= self.errors@.take(i as int));
            let r = self.errors[i].short_form();
            if i > 0 {
                push_char(&mut out, '\n');
            }
            out.append(r.as_str());
            proof {
                if i == 0 {
                    assert(out@ =~= joined_short_text(self.errors@.take(1)));
                } else {
                    assert(out@ =~= joined_short_text(self.errors@.take(i + 1)));
                }
            }
            i = i + 1;
        }
        assert(self.errors@.take(self.errors@.len() as int) =~= self.errors@);
        out
    }
}

} // verus!
