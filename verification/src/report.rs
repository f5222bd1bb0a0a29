//! Report rendering: turning collected diagnostics into the console text,
//! with a caret-pointer snippet under every positioned diagnostic.
//!
//! Printing the text is the I/O shell's job; everything here only builds
//! the string.

use vstd::prelude::*;

use crate::diagnostics::{DiagView, Diagnostic, Diagnostics};
use crate::id::IdMap;
use crate::loader::{file_views, FileContents};
use crate::position::Position;

verus! {

/// The character of one decimal digit.
pub open spec fn digit_char(d: int) -> char {
    if d == 0 {
        '0'
    } else if d == 1 {
        '1'
    } else if d == 2 {
        '2'
    } else if d == 3 {
        '3'
    } else if d == 4 {
        '4'
    } else if d == 5 {
        '5'
    } else if d == 6 {
        '6'
    } else if d == 7 {
        '7'
    } else if d == 8 {
        '8'
    } else {
        '9'
    }
}

/// The decimal digits of a non-negative number.
pub open spec fn dec_digits(n: int) -> Seq<char>
    decreases n,
{
    if n < 10 {
        seq![digit_char(n)]
    } else {
        dec_digits(n / 10) + seq![digit_char(n % 10)]
    }
}

/// `n` copies of one character (none for a non-positive count).
pub open spec fn repeat_char(c: char, n: int) -> Seq<char> {
    Seq::new(if n < 0 { 0 } else { n as nat }, |_i: int| c)
}

/// Appends one decimal digit.
fn push_digit(out: &mut String, d: usize)
    requires
        d < 10,
    ensures
        final(out)@ == old(out)@ + seq![digit_char(d as int)],
{
    let text = if d == 0 {
        "0"
    } else if d == 1 {
        "1"
    } else if d == 2 {
        "2"
    } else if d == 3 {
        "3"
    } else if d == 4 {
        "4"
    } else if d == 5 {
        "5"
    } else if d == 6 {
        "6"
    } else if d == 7 {
        "7"
    } else if d == 8 {
        "8"
    } else {
        "9"
    };
    out.append(text);
    proof {
        reveal_strlit("0");
        reveal_strlit("1");
        reveal_strlit("2");
        reveal_strlit("3");
        reveal_strlit("4");
        reveal_strlit("5");
        reveal_strlit("6");
        reveal_strlit("7");
        reveal_strlit("8");
        reveal_strlit("9");
        assert(text@ =~= seq![digit_char(d as int)]);
    }
}

/// Appends a number in decimal.
fn push_dec(out: &mut String, n: usize)
    ensures
        final(out)@ == old(out)@ + dec_digits(n as int),
    decreases n,
{
    let ghost start = out@;
    if n >= 10 {
        push_dec(out, n / 10);
    }
    push_digit(out, n % 10);
    proof {
        if n < 10 {
            assert(out@ =~= start + dec_digits(n as int));
        } else {
            assert(out@ =~= start + dec_digits(n as int));
        }
    }
}

/// Appends `n` spaces.
fn push_spaces(out: &mut String, n: usize)
    ensures
        final(out)@ == old(out)@ + repeat_char(' ', n as int),
{
    let ghost start = out@;
    let mut i: usize = 0;
    proof {
        reveal_strlit(" ");
        assert(out@ =~= start + repeat_char(' ', 0));
    }
    while i < n
        invariant
            i <= n,
            " "@ == seq![' '],
            out@ == start + repeat_char(' ', i as int),
        decreases n - i,
    {
        out.append(" ");
        i = i + 1;
        proof {
            assert(out@ =~= start + repeat_char(' ', i as int));
        }
    }
}

/// Appends `n` caret markers.
fn push_carets(out: &mut String, n: usize)
    ensures
        final(out)@ == old(out)@ + repeat_char('^', n as int),
{
    let ghost start = out@;
    let mut i: usize = 0;
    proof {
        reveal_strlit("^");
        assert(out@ =~= start + repeat_char('^', 0));
    }
    while i < n
        invariant
            i <= n,
            "^"@ == seq!['^'],
            out@ == start + repeat_char('^', i as int),
        decreases n - i,
    {
        out.append("^");
        i = i + 1;
        proof {
            assert(out@ =~= start + repeat_char('^', i as int));
        }
    }
}

/// The start of the line containing character `offset`: the offset just
/// after the previous newline, or 0.
pub open spec fn line_start_at(content: Seq<char>, offset: int) -> int
    decreases offset,
{
    if offset <= 0 {
        0
    } else if content[offset - 1] == '\n' {
        offset
    } else {
        line_start_at(content, offset - 1)
    }
}

/// The end of the line containing character `offset`: the offset of the
/// next newline, or the end of the text.
pub open spec fn line_end_at(content: Seq<char>, offset: int) -> int
    decreases content.len() - offset,
{
    if offset < 0 || offset >= content.len() {
        content.len() as int
    } else if content[offset] == '\n' {
        offset
    } else {
        line_end_at(content, offset + 1)
    }
}

/// Finds [`line_start_at`] of an offset inside the text.
fn find_line_start(content: &str, offset: usize) -> (r: usize)
    requires
        offset <= content@.len(),
    ensures
        r as int == line_start_at(content@, offset as int),
        r <= offset,
    decreases offset,
{
    if offset == 0 {
        0
    } else if content.get_char(offset - 1) == '\n' {
        offset
    } else {
        find_line_start(content, offset - 1)
    }
}

/// Finds [`line_end_at`] of an offset inside the text.
fn find_line_end(content: &str, offset: usize) -> (r: usize)
    requires
        offset <= content@.len(),
    ensures
        r as int == line_end_at(content@, offset as int),
        offset <= r <= content@.len(),
    decreases content@.len() - offset,
{
    let len = content.unicode_len();
    if offset == len {
        len
    } else if content.get_char(offset) == '\n' {
        offset
    } else {
        find_line_end(content, offset + 1)
    }
}

/// The caret-pointer snippet for one positioned diagnostic: a
/// `file:line:column` pointer line, and, when the span fits inside its
/// line, the source line under a `^` caret run at the span.  An offset
/// past the end of the file's text yields no snippet.
pub open spec fn spec_snippet(pos: Position, name: Seq<char>, content: Seq<char>) -> Seq<char> {
    if pos.offset > content.len() {
        Seq::empty()
    } else {
        let ls = line_start_at(content, pos.offset as int);
        let le = line_end_at(content, pos.offset as int);
        let col = pos.offset - ls;
        let header = "  --> "@ + name + ":"@ + dec_digits(pos.line as int) + ":"@ + dec_digits(
            col) + "\n"@;
        if pos.length <= le - pos.offset {
            let num = dec_digits(pos.line as int);
            let padded = num + repeat_char(' ', 4 - num.len());
            header + padded + "| "@ + content.subrange(ls, le) + "\n"@ + "    | "@ + repeat_char(
                ' ', col) + repeat_char('^', pos.length as int) + "\n"@
        } else {
            header
        }
    }
}

/// One rendered report: the severity label, the description, and the
/// snippet when the diagnostic is positioned inside a known file.
pub open spec fn spec_render_entry(entry: (Option<Position>, DiagView), names: Seq<Seq<char>>,
    contents: Seq<Seq<char>>) -> Seq<char> {
    let head = entry.1.level().name_spec() + ": "@ + entry.1.description() + "\n"@;
    match entry.0 {
        Some(p) => if (p.file as int) < names.len() {
            head + spec_snippet(p, names[p.file as int], contents[p.file as int])
        } else {
            head
        },
        None => head,
    }
}

/// The rendered reports of all diagnostics from `i` on, in order.
pub open spec fn spec_render_reports_at(entries: Seq<(Option<Position>, DiagView)>, i: int,
    names: Seq<Seq<char>>, contents: Seq<Seq<char>>) -> Seq<char>
    decreases entries.len() - i,
{
    if i < 0 || i >= entries.len() {
        Seq::empty()
    } else {
        spec_render_entry(entries[i], names, contents) + spec_render_reports_at(entries, i + 1,
            names, contents)
    }
}

/// Renders every collected diagnostic, in insertion order, resolving
/// source snippets against the set's file registry.
pub fn render_reports(diagnostics: &Diagnostics, files: &IdMap<FileContents>) -> (r: String)
    requires
        files.wf(),
    ensures
        r@ == spec_render_reports_at(diagnostics@, 0, files.spec_names(), file_views(*files)),
{
    let ghost entries = diagnostics@;
    let ghost names = files.spec_names();
    let ghost contents = file_views(*files);
    let mut out = String::new();
    let n = diagnostics.len();
    let mut i: usize = 0;
    proof {
        assert(out@ =~= Seq::<char>::empty());
    }
    while i < n
        invariant
            i <= n,
            n == entries.len(),
            entries == diagnostics@,
            names == files.spec_names(),
            contents == file_views(*files),
            files.wf(),
            spec_render_reports_at(entries, 0, names, contents) =~= out@
                + spec_render_reports_at(entries, i as int, names, contents),
        decreases n - i,
    {
        let ghost start = out@;
        let entry = diagnostics.get(i);
        let level_name = entry.1.level().name();
        out.append(level_name.as_str());
        out.append(": ");
        let description = entry.1.description();
        out.append(description.as_str());
        out.append("\n");
        match &entry.0 {
            Some(p) => {
                match files.get_full(p.file) {
                    Some((fname, fc)) => {
                        proof {
                            files.lemma_len_bound();
                            assert(contents[p.file as int] == fc@);
                        }
                        render_snippet(*p, fname, &fc.0, &mut out);
                    },
                    None => {
                        proof {
                            assert((p.file as int) >= names.len());
                        }
                    },
                }
            },
            None => {},
        }
        proof {
            assert(out@ =~= start + spec_render_entry(entries[i as int], names, contents));
            assert(spec_render_reports_at(entries, 0, names, contents) =~= out@
                + spec_render_reports_at(entries, i + 1, names, contents));
        }
        i = i + 1;
    }
    proof {
        assert(spec_render_reports_at(entries, 0, names, contents) =~= out@);
    }
    out
}

/// Appends [`spec_snippet`] for one position.
#[verifier::rlimit(80)]
fn render_snippet(pos: Position, name: &String, content: &String, out: &mut String)
    ensures
        final(out)@ == old(out)@ + spec_snippet(pos, name@, content@),
{
    let ghost start = out@;
    let text = content.as_str();
    let len = text.unicode_len();
    if pos.offset > len {
        proof {
            assert(out@ =~= start + spec_snippet(pos, name@, content@));
        }
        return ;
    }
    let ls = find_line_start(text, pos.offset);
    let le = find_line_end(text, pos.offset);
    let col = pos.offset - ls;
    out.append("  --> ");
    out.append(name.as_str());
    out.append(":");
    push_dec(out, pos.line);
    out.append(":");
    push_dec(out, col);
    out.append("\n");
    let fits = pos.length <= le - pos.offset;
    if fits {
        let mut num = String::new();
        push_dec(&mut num, pos.line);
        let num_len = num.unicode_len();
        out.append(num.as_str());
        if num_len < 4 {
            push_spaces(out, 4 - num_len);
        } else {
            proof {
                assert(repeat_char(' ', 4 - num@.len()) =~= Seq::<char>::empty());
            }
        }
        out.append("| ");
        let line_text = text.substring_char(ls, le);
        out.append(line_text);
        out.append("\n");
        out.append("    | ");
        push_spaces(out, col);
        push_carets(out, pos.length);
        out.append("\n");
    }
    proof {
        assert(out@ =~= start + spec_snippet(pos, name@, content@));
    }
}

} // verus!
