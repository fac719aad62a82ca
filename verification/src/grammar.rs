//! The q-entities grammar, stated mathematically.
//!
//! Everything here is specification: recursive functions over the input byte
//! sequence that say, position by position, what the lexer and the parser
//! state machine produce. The executable parser is proved to return exactly
//! what [`parse_entities`] says.

use vstd::prelude::*;

verus! {

/// The toggles and limits of one grammar dialect.
pub ghost struct GrammarRules {
    /// Whether `//` comments are recognized.
    pub cpp_comments: bool,
    /// Whether `/* ... */` comments are recognized.
    pub c_comments: bool,
    /// Whether `{`, `}` and `"` terminate an unquoted string.
    pub controls_terminate: bool,
    /// Whether a recognized comment terminates an unquoted string.
    pub comments_terminate: bool,
    /// Whether `\\` escapes a backslash inside a quoted string.
    pub escape: bool,
    /// Whether `\"` escapes a double quote inside a quoted string.
    pub escape_double_quotes: bool,
    /// Maximum byte length of a key.
    pub max_key_len: int,
    /// Maximum byte length of a value.
    pub max_value_len: int,
}

/// A source location: absolute byte offset, 1-based line, 1-based column.
pub ghost struct LocV {
    pub offset: int,
    pub line: int,
    pub column: int,
}

/// Whether a byte ends a line: line feed or carriage return.
pub open spec fn is_newline(b: u8) -> bool {
    b == 10 || b == 13
}

/// Whether a byte is ASCII whitespace: space, tab, line feed, form feed or
/// carriage return.
pub open spec fn is_space(b: u8) -> bool {
    b == 32 || b == 9 || b == 10 || b == 12 || b == 13
}

/// The number of line-ending bytes in a consumed prefix.
pub open spec fn newline_count(p: Seq<u8>) -> int
    decreases p.len(),
{
    if p.len() == 0 {
        0
    } else {
        newline_count(p.drop_last()) + if is_newline(p.last()) {
            1int
        } else {
            0int
        }
    }
}

/// The 1-based column after consuming a prefix: 1 right after a line-ending
/// byte (or at the start), otherwise one more than before.
pub open spec fn column_after(p: Seq<u8>) -> int
    decreases p.len(),
{
    if p.len() == 0 {
        1
    } else if is_newline(p.last()) {
        1
    } else {
        column_after(p.drop_last()) + 1
    }
}

/// The location reached after consuming the prefix `p` of the input.
pub open spec fn loc_after(p: Seq<u8>) -> LocV {
    LocV { offset: p.len() as int, line: 1 + newline_count(p), column: column_after(p) }
}

/// Location tracking law: consuming one byte advances the offset by exactly
/// one; the line number grows by one exactly on a consumed line feed or
/// carriage return, and the column resets to 1 immediately after such a
/// byte; on any other byte the line is kept and the column grows by one.
pub proof fn lemma_location_advance(p: Seq<u8>, b: u8)
    ensures
        loc_after(p.push(b)).offset == loc_after(p).offset + 1,
        is_newline(b) ==> loc_after(p.push(b)).line == loc_after(p).line + 1,
        is_newline(b) ==> loc_after(p.push(b)).column == 1,
        !is_newline(b) ==> loc_after(p.push(b)).line == loc_after(p).line,
        !is_newline(b) ==> loc_after(p.push(b)).column == loc_after(p).column + 1,
{
    assert(p.push(b).drop_last() =~= p);
    assert(p.push(b).last() == b);
}

/// Line and column stay within one byte of the consumed prefix's length,
/// so locations of inputs that fit the machine fit their counters.
pub proof fn lemma_loc_after_bounds(p: Seq<u8>)
    ensures
        0 <= newline_count(p) <= p.len(),
        1 <= column_after(p) <= p.len() + 1,
    decreases p.len(),
{
    if p.len() > 0 {
        lemma_loc_after_bounds(p.drop_last());
    }
}

/// The position after a `//` comment whose body starts at `i`: everything
/// through the first line-ending byte is consumed; end of input also ends
/// the comment.
pub open spec fn line_comment_end(s: Seq<u8>, i: int) -> int
    decreases s.len() - i,
    when 0 <= i <= s.len()
{
    if i >= s.len() {
        i
    } else if is_newline(s[i]) {
        i + 1
    } else {
        line_comment_end(s, i + 1)
    }
}

/// Where a `//` comment ends: no earlier than its body, no later than the
/// end of input.
pub proof fn lemma_line_comment_end_bounds(s: Seq<u8>, i: int)
    requires
        0 <= i <= s.len(),
    ensures
        i <= line_comment_end(s, i) <= s.len(),
    decreases s.len() - i,
{
    if i < s.len() && !is_newline(s[i]) {
        lemma_line_comment_end_bounds(s, i + 1);
    }
}

/// The position after a `/* ... */` comment whose body starts at `i`, or
/// `None` when no `*/` occurs before the end of input.
pub open spec fn block_comment_end(s: Seq<u8>, i: int) -> Option<int>
    decreases s.len() - i,
    when 0 <= i <= s.len()
{
    if i >= s.len() {
        None
    } else if s[i] == 42 && i + 1 < s.len() && s[i + 1] == 47 {
        Some(i + 2)
    } else {
        block_comment_end(s, i + 1)
    }
}

/// Where a terminated `/* ... */` comment ends: strictly past its body
/// start, no later than the end of input.
pub proof fn lemma_block_comment_end_bounds(s: Seq<u8>, i: int)
    requires
        0 <= i <= s.len(),
        block_comment_end(s, i) is Some,
    ensures
        i < block_comment_end(s, i)->Some_0 <= s.len(),
    decreases s.len() - i,
{
    if i < s.len() && !(s[i] == 42 && i + 1 < s.len() && s[i + 1] == 47) {
        lemma_block_comment_end_bounds(s, i + 1);
    }
}

/// The outcome of scanning for the next significant byte from position `i`:
/// the input may end, a token head byte may stand at `at`, or an
/// unterminated `/* ... */` comment opened at `at` may run to the end of
/// input.
pub ghost enum SigScan {
    End,
    Tok { at: int },
    UntermComment { at: int },
}

/// Scans from `i` past whitespace and recognized comments to the head byte
/// of the next token.
pub open spec fn next_sig(s: Seq<u8>, o: GrammarRules, i: int) -> SigScan
    decreases s.len() - i,
    when 0 <= i <= s.len()
    via next_sig_decreases
{
    if i >= s.len() {
        SigScan::End
    } else if is_space(s[i]) {
        next_sig(s, o, i + 1)
    } else if s[i] == 47 && o.cpp_comments && i + 1 < s.len() && s[i + 1] == 47 {
        next_sig(s, o, line_comment_end(s, i + 2))
    } else if s[i] == 47 && o.c_comments && i + 1 < s.len() && s[i + 1] == 42 {
        match block_comment_end(s, i + 2) {
            Some(j) => next_sig(s, o, j),
            None => SigScan::UntermComment { at: i },
        }
    } else {
        SigScan::Tok { at: i }
    }
}

#[via_fn]
proof fn next_sig_decreases(s: Seq<u8>, o: GrammarRules, i: int) {
    if 0 <= i && i + 1 < s.len() {
        if s[i] == 47 && o.cpp_comments && s[i + 1] == 47 {
            lemma_line_comment_end_bounds(s, i + 2);
        }
        if s[i] == 47 && o.c_comments && s[i + 1] == 42 && block_comment_end(s, i + 2) is Some {
            lemma_block_comment_end_bounds(s, i + 2);
        }
    }
}

/// The token head found by [`next_sig`] lies between the scan's start and
/// the end of input, and so does the opener of an unterminated comment.
pub proof fn lemma_next_sig_bounds(s: Seq<u8>, o: GrammarRules, i: int)
    requires
        0 <= i <= s.len(),
    ensures
        next_sig(s, o, i) matches SigScan::Tok { at } ==> i <= at < s.len(),
        next_sig(s, o, i) matches SigScan::UntermComment { at } ==> i <= at < s.len(),
    decreases s.len() - i,
{
    if i < s.len() {
        if is_space(s[i]) {
            lemma_next_sig_bounds(s, o, i + 1);
        } else if s[i] == 47 && o.cpp_comments && i + 1 < s.len() && s[i + 1] == 47 {
            lemma_line_comment_end_bounds(s, i + 2);
            lemma_next_sig_bounds(s, o, line_comment_end(s, i + 2));
        } else if s[i] == 47 && o.c_comments && i + 1 < s.len() && s[i + 1] == 42 {
            if block_comment_end(s, i + 2) is Some {
                lemma_block_comment_end_bounds(s, i + 2);
                lemma_next_sig_bounds(s, o, block_comment_end(s, i + 2)->Some_0);
            }
        }
    }
}

/// The outcome of scanning one string: its accumulated content and the
/// position after it; or end of input before the closing quote; or an
/// invalid escape whose backslash stands at `at`; or content over the
/// length limit; or an unterminated `/* ... */` comment opened at `at`.
pub ghost enum StrScan {
    Done { content: Seq<u8>, after: int },
    Unterminated,
    BadEscape { at: int },
    TooLong,
    UntermComment { at: int },
}

/// Prepends one content byte to a successful string scan.
pub open spec fn str_prepend(b: u8, r: StrScan) -> StrScan {
    match r {
        StrScan::Done { content, after } => StrScan::Done { content: seq![b] + content, after },
        _ => r,
    }
}

/// Prepends already-accumulated content to a string scan of the remainder.
pub open spec fn str_append(prefix: Seq<u8>, r: StrScan) -> StrScan {
    match r {
        StrScan::Done { content, after } => StrScan::Done { content: prefix + content, after },
        _ => r,
    }
}

/// Accumulating one more byte: appending a prefix to a scan that begins
/// with that byte is appending the extended prefix to the scan's remainder.
pub proof fn lemma_str_append_step(prefix: Seq<u8>, b: u8, r: StrScan)
    ensures
        str_append(prefix, str_prepend(b, r)) == str_append(prefix.push(b), r),
{
    match r {
        StrScan::Done { content, after } => {
            assert(prefix + (seq![b] + content) =~= prefix.push(b) + content);
        },
        _ => {},
    }
}

/// Scans the remainder of a quoted string from `i`, `cnt` content bytes
/// having been accumulated before `i`.
pub open spec fn quoted_rest(s: Seq<u8>, o: GrammarRules, max: int, i: int, cnt: int) -> StrScan
    decreases s.len() - i,
    when 0 <= i <= s.len()
{
    if i >= s.len() {
        StrScan::Unterminated
    } else if s[i] == 34 {
        StrScan::Done { content: Seq::empty(), after: i + 1 }
    } else if s[i] == 92 && o.escape {
        if i + 1 < s.len() && (s[i + 1] == 92 || (s[i + 1] == 34 && o.escape_double_quotes)) {
            if cnt < max {
                str_prepend(s[i + 1], quoted_rest(s, o, max, i + 2, cnt + 1))
            } else {
                StrScan::TooLong
            }
        } else {
            StrScan::BadEscape { at: i }
        }
    } else if cnt < max {
        str_prepend(s[i], quoted_rest(s, o, max, i + 1, cnt + 1))
    } else {
        StrScan::TooLong
    }
}

/// A quoted string whose opening quote stands just before `i`.
pub open spec fn quoted(s: Seq<u8>, o: GrammarRules, max: int, i: int) -> StrScan {
    quoted_rest(s, o, max, i, 0)
}

/// A finished quoted string ends strictly past where its remainder began,
/// and no later than the end of input; a bad escape lies in range too.
pub proof fn lemma_quoted_rest_bounds(s: Seq<u8>, o: GrammarRules, max: int, i: int, cnt: int)
    requires
        0 <= i <= s.len(),
    ensures
        quoted_rest(s, o, max, i, cnt) matches StrScan::Done { after, .. } ==> i < after <= s.len(),
        quoted_rest(s, o, max, i, cnt) matches StrScan::BadEscape { at } ==> i <= at < s.len(),
    decreases s.len() - i,
{
    if i < s.len() && s[i] != 34 {
        if s[i] == 92 && o.escape {
            if i + 1 < s.len() && (s[i + 1] == 92 || (s[i + 1] == 34 && o.escape_double_quotes)) {
                lemma_quoted_rest_bounds(s, o, max, i + 2, cnt + 1);
            }
        } else {
            lemma_quoted_rest_bounds(s, o, max, i + 1, cnt + 1);
        }
    }
}

/// Scans the remainder of an unquoted string from `i`, `cnt` content bytes
/// having been accumulated before `i`.
pub open spec fn unquoted_rest(s: Seq<u8>, o: GrammarRules, max: int, i: int, cnt: int) -> StrScan
    decreases s.len() - i,
    when 0 <= i <= s.len()
    via unquoted_rest_decreases
{
    if i >= s.len() {
        StrScan::Done { content: Seq::empty(), after: i }
    } else if is_space(s[i]) {
        StrScan::Done { content: Seq::empty(), after: i + 1 }
    } else if (s[i] == 123 || s[i] == 125 || s[i] == 34) && o.controls_terminate {
        StrScan::Done { content: Seq::empty(), after: i }
    } else if s[i] == 47 && o.comments_terminate && o.cpp_comments && i + 1 < s.len() && s[i + 1]
        == 47 {
        StrScan::Done { content: Seq::empty(), after: line_comment_end(s, i + 2) }
    } else if s[i] == 47 && o.comments_terminate && o.c_comments && i + 1 < s.len() && s[i + 1]
        == 42 {
        match block_comment_end(s, i + 2) {
            Some(j) => StrScan::Done { content: Seq::empty(), after: j },
            None => StrScan::UntermComment { at: i },
        }
    } else if cnt < max {
        str_prepend(s[i], unquoted_rest(s, o, max, i + 1, cnt + 1))
    } else {
        StrScan::TooLong
    }
}

#[via_fn]
proof fn unquoted_rest_decreases(s: Seq<u8>, o: GrammarRules, max: int, i: int, cnt: int) {
}

/// An unquoted string whose head byte stands at `at`.
pub open spec fn unquoted(s: Seq<u8>, o: GrammarRules, max: int, at: int) -> StrScan {
    if 0 < max {
        str_prepend(s[at], unquoted_rest(s, o, max, at + 1, 1))
    } else {
        StrScan::TooLong
    }
}

/// A finished unquoted string ends no earlier than where its remainder
/// began, and no later than the end of input.
pub proof fn lemma_unquoted_rest_bounds(s: Seq<u8>, o: GrammarRules, max: int, i: int, cnt: int)
    requires
        0 <= i <= s.len(),
    ensures
        unquoted_rest(s, o, max, i, cnt) matches StrScan::Done { after, .. } ==> i <= after
            <= s.len(),
        unquoted_rest(s, o, max, i, cnt) matches StrScan::UntermComment { at } ==> i <= at
            < s.len(),
    decreases s.len() - i,
{
    if i < s.len() && !is_space(s[i]) {
        if (s[i] == 123 || s[i] == 125 || s[i] == 34) && o.controls_terminate {
        } else if s[i] == 47 && o.comments_terminate && o.cpp_comments && i + 1 < s.len() && s[i
            + 1] == 47 {
            lemma_line_comment_end_bounds(s, i + 2);
        } else if s[i] == 47 && o.comments_terminate && o.c_comments && i + 1 < s.len() && s[i + 1]
            == 42 {
            if block_comment_end(s, i + 2) is Some {
                lemma_block_comment_end_bounds(s, i + 2);
            }
        } else {
            lemma_unquoted_rest_bounds(s, o, max, i + 1, cnt + 1);
        }
    }
}

/// A quoted string scan ends well, unterminated, over the limit, or at a
/// bad escape; never inside a comment.
pub proof fn lemma_quoted_rest_variants(s: Seq<u8>, o: GrammarRules, max: int, i: int, cnt: int)
    requires
        0 <= i <= s.len(),
    ensures
        !(quoted_rest(s, o, max, i, cnt) is UntermComment),
    decreases s.len() - i,
{
    if i < s.len() && s[i] != 34 {
        if s[i] == 92 && o.escape {
            if i + 1 < s.len() && (s[i + 1] == 92 || (s[i + 1] == 34 && o.escape_double_quotes)) {
                lemma_quoted_rest_variants(s, o, max, i + 2, cnt + 1);
            }
        } else {
            lemma_quoted_rest_variants(s, o, max, i + 1, cnt + 1);
        }
    }
}

/// An unquoted string scan ends well, over the limit, or inside an
/// unterminated comment; the end of input never makes it fail.
pub proof fn lemma_unquoted_rest_variants(s: Seq<u8>, o: GrammarRules, max: int, i: int, cnt: int)
    requires
        0 <= i <= s.len(),
    ensures
        !(unquoted_rest(s, o, max, i, cnt) is Unterminated),
        !(unquoted_rest(s, o, max, i, cnt) is BadEscape),
    decreases s.len() - i,
{
    if i < s.len() && !is_space(s[i]) {
        if (s[i] == 123 || s[i] == 125 || s[i] == 34) && o.controls_terminate {
        } else if s[i] == 47 && o.comments_terminate && o.cpp_comments && i + 1 < s.len() && s[i
            + 1] == 47 {
        } else if s[i] == 47 && o.comments_terminate && o.c_comments && i + 1 < s.len() && s[i + 1]
            == 42 {
        } else {
            lemma_unquoted_rest_variants(s, o, max, i + 1, cnt + 1);
        }
    }
}

/// The kind of token a head byte begins.
pub ghost enum TokenV {
    Open,
    Close,
    Quoted,
    Unquoted,
}

/// Classifies a token by its head byte: `{`, `}`, `"`, anything else.
pub open spec fn token_of(b: u8) -> TokenV {
    if b == 123 {
        TokenV::Open
    } else if b == 125 {
        TokenV::Close
    } else if b == 34 {
        TokenV::Quoted
    } else {
        TokenV::Unquoted
    }
}

/// Why a parse fails.
pub ghost enum FailKind {
    UntermComment,
    UntermQuoted,
    UntermEntity,
    BadEscape,
    Unexpected { tok: TokenV },
    KeyTooLong,
    ValueTooLong,
}

/// The outcome of a parse: the entities, each an ordered list of key/value
/// byte strings; or one failure located at byte position `at`.
pub ghost enum ParseOutcome {
    Entities { ents: Seq<Seq<(Seq<u8>, Seq<u8>)>> },
    Fail { kind: FailKind, at: int },
}

/// A state of the parser state machine.
pub ghost enum PState {
    NextEntity,
    NextKey,
    NextValue,
}

/// Maps the outcome of scanning a string in key position to the parse
/// outcome of its failure cases; `at` is the position of the token head.
pub open spec fn key_scan_fail(r: StrScan, at: int) -> ParseOutcome {
    match r {
        StrScan::Done { .. } => ParseOutcome::Fail { kind: FailKind::KeyTooLong, at },
        StrScan::Unterminated => ParseOutcome::Fail { kind: FailKind::UntermQuoted, at },
        StrScan::BadEscape { at: e } => ParseOutcome::Fail { kind: FailKind::BadEscape, at: e },
        StrScan::TooLong => ParseOutcome::Fail { kind: FailKind::KeyTooLong, at },
        StrScan::UntermComment { at: e } => ParseOutcome::Fail {
            kind: FailKind::UntermComment,
            at: e,
        },
    }
}

/// Maps the outcome of scanning a string in value position to the parse
/// outcome of its failure cases; `at` is the position of the token head.
pub open spec fn value_scan_fail(r: StrScan, at: int) -> ParseOutcome {
    match r {
        StrScan::Done { .. } => ParseOutcome::Fail { kind: FailKind::ValueTooLong, at },
        StrScan::Unterminated => ParseOutcome::Fail { kind: FailKind::UntermQuoted, at },
        StrScan::BadEscape { at: e } => ParseOutcome::Fail { kind: FailKind::BadEscape, at: e },
        StrScan::TooLong => ParseOutcome::Fail { kind: FailKind::ValueTooLong, at },
        StrScan::UntermComment { at: e } => ParseOutcome::Fail {
            kind: FailKind::UntermComment,
            at: e,
        },
    }
}

/// Scans one string token (quoted when the head byte is `"`, unquoted
/// otherwise) whose head stands at `at`, under length limit `max`.
pub open spec fn scan_string(s: Seq<u8>, o: GrammarRules, max: int, at: int) -> StrScan {
    if s[at] == 34 {
        quoted(s, o, max, at + 1)
    } else {
        unquoted(s, o, max, at)
    }
}

/// Runs the parser state machine from position `i` in state `st`.
///
/// `ent_at` is the position of the `{` that opened the entity still open;
/// `acc` holds the entities already closed; `cur` the key-values of the open
/// entity; `key` the key awaiting its value.
pub open spec fn run(
    s: Seq<u8>,
    o: GrammarRules,
    i: int,
    st: PState,
    ent_at: int,
    acc: Seq<Seq<(Seq<u8>, Seq<u8>)>>,
    cur: Seq<(Seq<u8>, Seq<u8>)>,
    key: Seq<u8>,
) -> ParseOutcome
    decreases s.len() - i,
    when 0 <= i <= s.len()
    via run_decreases
{
    match next_sig(s, o, i) {
        SigScan::End => match st {
            PState::NextEntity => ParseOutcome::Entities { ents: acc },
            _ => ParseOutcome::Fail { kind: FailKind::UntermEntity, at: ent_at },
        },
        SigScan::UntermComment { at } => ParseOutcome::Fail {
            kind: FailKind::UntermComment,
            at,
        },
        SigScan::Tok { at } => match st {
            PState::NextEntity => {
                if s[at] == 123 {
                    run(s, o, at + 1, PState::NextKey, at, acc, Seq::empty(), Seq::empty())
                } else {
                    ParseOutcome::Fail { kind: FailKind::Unexpected { tok: token_of(s[at]) }, at }
                }
            },
            PState::NextKey => {
                if s[at] == 125 {
                    run(
                        s,
                        o,
                        at + 1,
                        PState::NextEntity,
                        ent_at,
                        acc.push(cur),
                        Seq::empty(),
                        Seq::empty(),
                    )
                } else if s[at] == 123 {
                    ParseOutcome::Fail { kind: FailKind::Unexpected { tok: TokenV::Open }, at }
                } else {
                    match scan_string(s, o, o.max_key_len, at) {
                        StrScan::Done { content, after } => run(
                            s,
                            o,
                            after,
                            PState::NextValue,
                            ent_at,
                            acc,
                            cur,
                            content,
                        ),
                        r => key_scan_fail(r, at),
                    }
                }
            },
            PState::NextValue => {
                if s[at] == 123 || s[at] == 125 {
                    ParseOutcome::Fail { kind: FailKind::Unexpected { tok: token_of(s[at]) }, at }
                } else {
                    match scan_string(s, o, o.max_value_len, at) {
                        StrScan::Done { content, after } => run(
                            s,
                            o,
                            after,
                            PState::NextKey,
                            ent_at,
                            acc,
                            cur.push((key, content)),
                            Seq::empty(),
                        ),
                        r => value_scan_fail(r, at),
                    }
                }
            },
        },
    }
}

#[via_fn]
proof fn run_decreases(
    s: Seq<u8>,
    o: GrammarRules,
    i: int,
    st: PState,
    ent_at: int,
    acc: Seq<Seq<(Seq<u8>, Seq<u8>)>>,
    cur: Seq<(Seq<u8>, Seq<u8>)>,
    key: Seq<u8>,
) {
    if 0 <= i <= s.len() {
        lemma_next_sig_bounds(s, o, i);
        match next_sig(s, o, i) {
            SigScan::Tok { at } => {
                if s[at] == 34 {
                    lemma_quoted_rest_bounds(s, o, o.max_key_len, at + 1, 0);
                    lemma_quoted_rest_bounds(s, o, o.max_value_len, at + 1, 0);
                } else {
                    lemma_unquoted_rest_bounds(s, o, o.max_key_len, at + 1, 1);
                    lemma_unquoted_rest_bounds(s, o, o.max_value_len, at + 1, 1);
                }
            },
            _ => {},
        }
    }
}

/// The whole parse of input `s` under the rules `o`.
pub open spec fn parse_entities(s: Seq<u8>, o: GrammarRules) -> ParseOutcome {
    run(s, o, 0, PState::NextEntity, 0, Seq::empty(), Seq::empty(), Seq::empty())
}

} // verus!
