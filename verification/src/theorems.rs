//! What holds of every scan, proved from the grammar.

use vstd::prelude::*;
use crate::chars::is_blank;
use crate::diagnostic::DiagnosticView;
use crate::grammar::{
    emit, eof, lemma_step_advances, newlines, punctuation, scan, scan_from, scan_step, Scan,
};
use crate::scanner::{finished, initial, Scanner, ScannerView};
use crate::token::{TokenType, TokenView};

verus! {

/// A text that holds nothing but spaces, carriage returns, tabs and newlines.
pub open spec fn is_blank_text(src: Seq<char>) -> bool {
    forall|i: int| 0 <= i < src.len() ==> is_blank(#[trigger] src[i]) || src[i] == '\n'
}

/// The kind of the token that a punctuation character is when it stands alone.
pub open spec fn single_punctuation(c: char) -> Option<TokenType> {
    if c == '/' {
        Some(TokenType::Slash)
    } else {
        punctuation(c)
    }
}

/// The newlines of a stretch of text are those of its first part and those of
/// its second part.
pub proof fn lemma_newlines_split(src: Seq<char>, from: int, mid: int, to: int)
    requires
        0 <= from <= mid <= to <= src.len(),
    ensures
        newlines(src, from, to) == newlines(src, from, mid) + newlines(src, mid, to),
    decreases to - mid,
{
    if mid < to {
        lemma_newlines_split(src, from, mid, to - 1);
    }
}

/// A text of blanks and newlines scans, from any position in it, to the
/// end-of-input token alone, on the line reached by counting the newlines that
/// are left.
pub proof fn lemma_blank_text_from(src: Seq<char>, pos: int, line: nat)
    requires
        is_blank_text(src),
        0 <= pos <= src.len(),
    ensures
        scan_from(src, pos, line) == (Scan {
            tokens: seq![eof(line + newlines(src, pos, src.len() as int))],
            diagnostics: Seq::empty(),
            line: line + newlines(src, pos, src.len() as int),
        }),
    decreases src.len() - pos,
{
    if pos < src.len() {
        let step = scan_step(src, pos, line);
        lemma_blank_text_from(src, pos + 1, step.line);
        lemma_newlines_split(src, pos, pos + 1, src.len() as int);
        assert(newlines(src, pos, pos + 1) == if src[pos] == '\n' {
            1nat
        } else {
            0nat
        }) by {
            assert(newlines(src, pos, pos) == 0);
        }
        let rest = scan_from(src, pos + 1, step.line);
        assert(scan_from(src, pos, line).tokens =~= rest.tokens);
        assert(scan_from(src, pos, line).diagnostics =~= rest.diagnostics);
    }
}

/// A text that consists only of blanks and newlines scans to exactly one
/// token, the end-of-input token, whose line is the number of newlines plus
/// one; nothing is reported.
pub proof fn lemma_blank_text(src: Seq<char>)
    requires
        is_blank_text(src),
    ensures
        scan(src).tokens == seq![eof(newlines(src, 0, src.len() as int) + 1)],
        scan(src).diagnostics == Seq::<DiagnosticView>::empty(),
        scan(src).line == newlines(src, 0, src.len() as int) + 1,
{
    lemma_blank_text_from(src, 0, 1);
}

/// Wherever a punctuation character stands, the step at it emits that one
/// character as its token and moves on by one character, on the same line. A
/// slash is meant only where no second slash follows it, for two slashes open
/// a comment.
pub proof fn lemma_punctuation_step(src: Seq<char>, pos: int, line: nat)
    requires
        0 <= pos < src.len(),
        single_punctuation(src[pos]) is Some,
        !(src[pos] == '/' && pos + 1 < src.len() && src[pos + 1] == '/'),
    ensures
        scan_step(src, pos, line) == emit(
            src,
            single_punctuation(src[pos])->0,
            pos,
            pos + 1,
            line,
        ),
        scan_step(src, pos, line).token == Some(
            TokenView {
                kind: single_punctuation(src[pos])->0,
                lexeme: Some(seq![src[pos]]),
                line,
            },
        ),
{
    assert(src.subrange(pos, pos + 1) =~= seq![src[pos]]);
}

/// A text that is one punctuation character scans to the token of that
/// character, with the character as its lexeme, and the end-of-input token,
/// both on line 1; nothing is reported.
pub proof fn lemma_single_punctuation(c: char)
    requires
        single_punctuation(c) is Some,
    ensures
        scan(seq![c]).tokens == seq![
            TokenView { kind: single_punctuation(c)->0, lexeme: Some(seq![c]), line: 1 },
            eof(1),
        ],
        scan(seq![c]).diagnostics == Seq::<DiagnosticView>::empty(),
        scan(seq![c]).line == 1,
{
    let src = seq![c];
    let step = scan_step(src, 0, 1);
    lemma_punctuation_step(src, 0, 1);
    let rest = scan_from(src, 1, 1);
    assert(rest.tokens == seq![eof(1)]);
    assert(scan(src).tokens =~= seq![step.token->0, eof(1)]);
    assert(scan(src).diagnostics =~= Seq::empty());
}

/// A scanner fresh on a text ends with exactly the scan of that text: its
/// tokens, its diagnostics and its last line, with the cursor at the end.
pub proof fn lemma_fresh_scan(text: Seq<char>)
    ensures
        finished(initial(text)) == (ScannerView {
            source: text,
            tokens: scan(text).tokens,
            diagnostics: scan(text).diagnostics,
            current: text.len(),
            line: scan(text).line,
        }),
{
    assert(finished(initial(text)).tokens =~= scan(text).tokens);
    assert(finished(initial(text)).diagnostics =~= scan(text).diagnostics);
}

/// Scanning has no hidden state: two scanners that are fresh on the same text
/// end in the same state, with the same tokens and the same diagnostics, which
/// are those of the scan of the text.
pub proof fn lemma_scan_repeatable(first: Scanner, second: Scanner, text: Seq<char>)
    requires
        first@ == initial(text),
        second@ == initial(text),
    ensures
        finished(first@) == finished(second@),
        finished(first@).tokens == scan(text).tokens,
        finished(first@).diagnostics == scan(text).diagnostics,
{
    lemma_fresh_scan(text);
}

/// Every scan ends with the end-of-input token, on the line that the end of
/// the text is on, and holds no other end-of-input token: every token before
/// the last has a lexeme and another kind.
pub proof fn lemma_scan_ends_with_eof(src: Seq<char>, pos: int, line: nat)
    ensures
        scan_from(src, pos, line).tokens.len() >= 1,
        scan_from(src, pos, line).tokens.last() == eof(scan_from(src, pos, line).line),
        forall|i: int|
            0 <= i < scan_from(src, pos, line).tokens.len() - 1 ==> {
                &&& (#[trigger] scan_from(src, pos, line).tokens[i]).kind != TokenType::Eof
                &&& scan_from(src, pos, line).tokens[i].lexeme is Some
            },
    decreases src.len() - pos,
{
    if 0 <= pos < src.len() {
        let step = scan_step(src, pos, line);
        lemma_step_advances(src, pos, line);
        lemma_scan_ends_with_eof(src, step.next, step.line);
    }
}

/// Every token stands on a line from `low` to `high`, and none on an earlier
/// line than a token before it.
pub open spec fn token_lines_ascend(tokens: Seq<TokenView>, low: nat, high: nat) -> bool {
    &&& forall|i: int| 0 <= i < tokens.len() ==> low <= (#[trigger] tokens[i]).line <= high
    &&& forall|i: int, j: int|
        0 <= i <= j < tokens.len() ==> (#[trigger] tokens[i]).line <= (#[trigger] tokens[j]).line
}

/// Every diagnostic stands on a line from `low` to `high`, and none on an
/// earlier line than a diagnostic before it.
pub open spec fn diagnostic_lines_ascend(
    diagnostics: Seq<DiagnosticView>,
    low: nat,
    high: nat,
) -> bool {
    &&& forall|i: int|
        0 <= i < diagnostics.len() ==> low <= (#[trigger] diagnostics[i]).line <= high
    &&& forall|i: int, j: int|
        0 <= i <= j < diagnostics.len() ==> (#[trigger] diagnostics[i]).line <= (
        #[trigger] diagnostics[j]).line
}

/// Lines only go up: from any position, every token and every diagnostic of a
/// scan stands on a line between the line of that position and the line of the
/// end of the text, and later ones never stand on an earlier line.
pub proof fn lemma_lines_in_order(src: Seq<char>, pos: int, line: nat)
    ensures
        line <= scan_from(src, pos, line).line,
        token_lines_ascend(scan_from(src, pos, line).tokens, line, scan_from(src, pos, line).line),
        diagnostic_lines_ascend(
            scan_from(src, pos, line).diagnostics,
            line,
            scan_from(src, pos, line).line,
        ),
    decreases src.len() - pos,
{
    if 0 <= pos < src.len() {
        let step = scan_step(src, pos, line);
        lemma_step_advances(src, pos, line);
        lemma_lines_in_order(src, step.next, step.line);
    }
}

} // verus!
