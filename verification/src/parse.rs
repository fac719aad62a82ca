//! Parsing of q-entities files: configurable grammar dialects, precise
//! error locations, and a parser proved to return exactly what the
//! mathematical grammar in [`crate::grammar`] says.

use vstd::prelude::*;
use crate::builder::QEntitiesBuilder;
use crate::QEntities;
use crate::grammar::{
    block_comment_end, is_space, lemma_block_comment_end_bounds, lemma_line_comment_end_bounds,
    lemma_loc_after_bounds, lemma_location_advance, lemma_next_sig_bounds, lemma_quoted_rest_bounds,
    lemma_quoted_rest_variants, lemma_unquoted_rest_bounds, lemma_unquoted_rest_variants,
    lemma_str_append_step,
    line_comment_end, loc_after, next_sig, parse_entities, quoted, quoted_rest, run, str_append,
    token_of, unquoted, unquoted_rest, FailKind, GrammarRules, LocV, PState, ParseOutcome,
    SigScan, StrScan, TokenV,
};

verus! {

/// The kinds of tokens that can appear within a q-entities file.
#[derive(Debug, Clone, Copy, PartialEq, Eq, Structural)]
#[non_exhaustive]
pub enum QEntitiesTokenKind {
    /// An open brace (`{`).
    OpenBrace,
    /// A close brace (`}`).
    CloseBrace,
    /// A quoted string (`"foo bar"`).
    QuotedString,
    /// An unquoted string (`foo_bar`).
    UnquotedString,
}

/// The token kind that stands for a grammar-level token class.
pub open spec fn token_kind_of(t: TokenV) -> QEntitiesTokenKind {
    match t {
        TokenV::Open => QEntitiesTokenKind::OpenBrace,
        TokenV::Close => QEntitiesTokenKind::CloseBrace,
        TokenV::Quoted => QEntitiesTokenKind::QuotedString,
        TokenV::Unquoted => QEntitiesTokenKind::UnquotedString,
    }
}

/// Classifies a token by its head byte.
fn token_kind_of_byte(b: u8) -> (r: QEntitiesTokenKind)
    ensures
        r == token_kind_of(token_of(b)),
{
    if b == 123 {
        QEntitiesTokenKind::OpenBrace
    } else if b == 125 {
        QEntitiesTokenKind::CloseBrace
    } else if b == 34 {
        QEntitiesTokenKind::QuotedString
    } else {
        QEntitiesTokenKind::UnquotedString
    }
}

/// Location within a q-entities file.
#[derive(Debug, Clone, Copy, PartialEq, Eq, Structural)]
pub struct QEntitiesParserLocation {
    /// Absolute offset from the beginning of the file.
    offset: u64,
    /// The line number within the file, 1-based.
    line: u64,
    /// The column number within the line, 1-based.
    column: u64,
}

impl QEntitiesParserLocation {
    /// The mathematical location this value denotes.
    pub closed spec fn view(self) -> LocV {
        LocV { offset: self.offset as int, line: self.line as int, column: self.column as int }
    }

    /// Gets the location's absolute offset from the beginning of the file.
    pub fn offset(&self) -> (r: u64)
        ensures
            r == self@.offset,
    {
        self.offset
    }

    /// Gets the location's line number within the file.
    pub fn line(&self) -> (r: u64)
        ensures
            r == self@.line,
    {
        self.line
    }

    /// Gets the location's column number within the line.
    pub fn column(&self) -> (r: u64)
        ensures
            r == self@.column,
    {
        self.column
    }
}

/// An error describing an unexpected token within a q-entities file.
#[derive(Debug)]
pub struct QEntitiesUnexpectedTokenError {
    /// The unexpected token's kind.
    kind: QEntitiesTokenKind,
    /// The location of the unexpected token.
    location: QEntitiesParserLocation,
}

impl QEntitiesUnexpectedTokenError {
    /// The kind this error carries.
    pub closed spec fn kind_spec(self) -> QEntitiesTokenKind {
        self.kind
    }

    /// The location this error carries.
    pub closed spec fn loc_spec(self) -> LocV {
        self.location@
    }

    /// Creates a new unexpected token error.
    fn new(kind: QEntitiesTokenKind, location: QEntitiesParserLocation) -> (r: Self)
        ensures
            r.kind_spec() == kind,
            r.loc_spec() == location@,
    {
        Self { kind, location }
    }

    /// Gets the location at which the unexpected token appeared.
    pub fn location(&self) -> (r: &QEntitiesParserLocation)
        ensures
            r@ == self.loc_spec(),
    {
        &self.location
    }

    /// Gets the kind of token that was encountered.
    pub fn kind(&self) -> (r: QEntitiesTokenKind)
        ensures
            r == self.kind_spec(),
    {
        self.kind
    }
}

/// The internal enumeration for errors that can occur while parsing a
/// q-entities file.
#[derive(Debug)]
enum ParseError {
    /// A C style comment was not terminated.
    UnterminatedCStyleComment(QEntitiesParserLocation),
    /// A quoted string was not terminated.
    UnterminatedQuotedString(QEntitiesParserLocation),
    /// An entity was not terminated.
    UnterminatedEntity(QEntitiesParserLocation),
    /// An escape sequence is invalid.
    InvalidEscapeSequence(QEntitiesParserLocation),
    /// An unexpected token was encountered.
    UnexpectedToken(QEntitiesUnexpectedTokenError),
    /// A key was too long.
    KeyTooLong(QEntitiesParserLocation),
    /// A value was too long.
    ValueTooLong(QEntitiesParserLocation),
}

/// An error that can occur during parsing of a q-entities file.
#[derive(Debug)]
pub struct QEntitiesParseError {
    repr: Box<ParseError>,
}

/// A discriminant for a kind of error that can occur during parsing of a
/// q-entities file.
#[derive(Debug, Clone, Copy, PartialEq, Eq, Structural)]
#[non_exhaustive]
pub enum QEntitiesParseErrorKind {
    /// An I/O error occured in the byte source feeding the parser.
    Io,
    /// A C style comment was not terminated.
    UnterminatedCStyleComment,
    /// A quoted string was not terminated.
    UnterminatedQuotedString,
    /// An entity was not terminated.
    UnterminatedEntity,
    /// An escape sequence is invalid.
    InvalidEscapeSequence,
    /// An unexpected token was encountered.
    UnexpectedToken,
    /// A key was too long.
    KeyTooLong,
    /// A value was too long.
    ValueTooLong,
}

/// The error kind that reports a grammar-level failure.
pub open spec fn err_kind_of(k: FailKind) -> QEntitiesParseErrorKind {
    match k {
        FailKind::UntermComment => QEntitiesParseErrorKind::UnterminatedCStyleComment,
        FailKind::UntermQuoted => QEntitiesParseErrorKind::UnterminatedQuotedString,
        FailKind::UntermEntity => QEntitiesParseErrorKind::UnterminatedEntity,
        FailKind::BadEscape => QEntitiesParseErrorKind::InvalidEscapeSequence,
        FailKind::Unexpected { .. } => QEntitiesParseErrorKind::UnexpectedToken,
        FailKind::KeyTooLong => QEntitiesParseErrorKind::KeyTooLong,
        FailKind::ValueTooLong => QEntitiesParseErrorKind::ValueTooLong,
    }
}

impl QEntitiesParseError {
    /// The kind this error carries.
    pub closed spec fn kind_spec(self) -> QEntitiesParseErrorKind {
        match *self.repr {
            ParseError::UnterminatedCStyleComment(..) => QEntitiesParseErrorKind::UnterminatedCStyleComment,
            ParseError::UnterminatedQuotedString(..) => QEntitiesParseErrorKind::UnterminatedQuotedString,
            ParseError::UnterminatedEntity(..) => QEntitiesParseErrorKind::UnterminatedEntity,
            ParseError::InvalidEscapeSequence(..) => QEntitiesParseErrorKind::InvalidEscapeSequence,
            ParseError::UnexpectedToken(..) => QEntitiesParseErrorKind::UnexpectedToken,
            ParseError::KeyTooLong(..) => QEntitiesParseErrorKind::KeyTooLong,
            ParseError::ValueTooLong(..) => QEntitiesParseErrorKind::ValueTooLong,
        }
    }

    /// The location this error carries.
    pub closed spec fn loc_spec(self) -> LocV {
        match *self.repr {
            ParseError::UnterminatedCStyleComment(loc) => loc@,
            ParseError::UnterminatedQuotedString(loc) => loc@,
            ParseError::UnterminatedEntity(loc) => loc@,
            ParseError::InvalidEscapeSequence(loc) => loc@,
            ParseError::UnexpectedToken(e) => e.loc_spec(),
            ParseError::KeyTooLong(loc) => loc@,
            ParseError::ValueTooLong(loc) => loc@,
        }
    }

    /// For an unexpected-token error, the kind of token encountered.
    pub closed spec fn token_spec(self) -> QEntitiesTokenKind {
        match *self.repr {
            ParseError::UnexpectedToken(e) => e.kind_spec(),
            _ => QEntitiesTokenKind::UnquotedString,
        }
    }

    /// Gets the error's kind.
    pub fn kind(&self) -> (r: QEntitiesParseErrorKind)
        ensures
            r == self.kind_spec(),
    {
        match &*self.repr {
            ParseError::UnterminatedCStyleComment(..) => QEntitiesParseErrorKind::UnterminatedCStyleComment,
            ParseError::UnterminatedQuotedString(..) => QEntitiesParseErrorKind::UnterminatedQuotedString,
            ParseError::UnterminatedEntity(..) => QEntitiesParseErrorKind::UnterminatedEntity,
            ParseError::InvalidEscapeSequence(..) => QEntitiesParseErrorKind::InvalidEscapeSequence,
            ParseError::UnexpectedToken(..) => QEntitiesParseErrorKind::UnexpectedToken,
            ParseError::KeyTooLong(..) => QEntitiesParseErrorKind::KeyTooLong,
            ParseError::ValueTooLong(..) => QEntitiesParseErrorKind::ValueTooLong,
        }
    }

    /// Gets the location at which the error occured within the q-entities
    /// file. Every error a parse of in-memory bytes can produce carries a
    /// location.
    pub fn location(&self) -> (r: Option<QEntitiesParserLocation>)
        ensures
            r matches Some(loc) && loc@ == self.loc_spec(),
    {
        match &*self.repr {
            ParseError::UnterminatedCStyleComment(loc) => Some(*loc),
            ParseError::UnterminatedQuotedString(loc) => Some(*loc),
            ParseError::UnterminatedEntity(loc) => Some(*loc),
            ParseError::InvalidEscapeSequence(loc) => Some(*loc),
            ParseError::UnexpectedToken(e) => Some(e.location),
            ParseError::KeyTooLong(loc) => Some(*loc),
            ParseError::ValueTooLong(loc) => Some(*loc),
        }
    }

    /// Views the error as an unexpected-token error: `Ok` exactly when the
    /// error is of that kind.
    pub fn unexpected_token_error(&self) -> (r: Result<
        &QEntitiesUnexpectedTokenError,
        QEntitiesParseErrorCastError,
    >)
        ensures
            self.kind_spec() == QEntitiesParseErrorKind::UnexpectedToken <==> r is Ok,
            r matches Ok(e) ==> e.kind_spec() == self.token_spec() && e.loc_spec()
                == self.loc_spec(),
    {
        match &*self.repr {
            ParseError::UnexpectedToken(e) => Ok(e),
            _ => Err(QEntitiesParseErrorCastError { _sealed: () }),
        }
    }
}

/// Internal constructor: a parse error out of its internal representation.
fn parse_error(repr: ParseError) -> (r: QEntitiesParseError)
    ensures
        *r.repr == repr,
{
    QEntitiesParseError { repr: Box::new(repr) }
}

/// An error that can occur when attempting to cast a
/// [`QEntitiesParseError`] as an inner error type.
#[derive(Debug)]
pub struct QEntitiesParseErrorCastError {
    /// Sealant to prevent users from constructing this type.
    _sealed: (),
}

/// Whether an error reports exactly the grammar-level failure `kind` at
/// byte position `at` of the input `s`.
pub open spec fn err_matches(e: QEntitiesParseError, s: Seq<u8>, k: FailKind, at: int) -> bool {
    &&& e.kind_spec() == err_kind_of(k)
    &&& e.loc_spec() == loc_after(s.take(at))
    &&& (k matches FailKind::Unexpected { tok } ==> e.token_spec() == token_kind_of(tok))
}

/// Options that describe the available escape sequences when parsing quoted
/// strings within a q-entities file. An instance always allows a
/// back-slash to escape another back-slash (`\\`).
#[derive(Debug, Clone, Copy)]
pub struct QEntitiesParseEscapeOptions {
    /// Whether double quotes can be escaped.
    escape_double_quotes: bool,
}

impl QEntitiesParseEscapeOptions {
    /// Whether these options allow `\"` as an escape for a double quote.
    pub closed spec fn double_quotes_spec(self) -> bool {
        self.escape_double_quotes
    }

    /// Creates a new escape parse options instance that only allows
    /// back-slashes to escape themselves (`\\`).
    pub fn new() -> (r: Self)
        ensures
            !r.double_quotes_spec(),
    {
        Self { escape_double_quotes: false }
    }

    /// Changes whether or not double quotes (`"`) can be escaped.
    pub fn double_quotes(&mut self, value: bool)
        ensures
            final(self).double_quotes_spec() == value,
    {
        self.escape_double_quotes = value;
    }

    /// Same as [`double_quotes()`](Self::double_quotes) but takes `self` by
    /// value.
    pub fn with_double_quotes(self, value: bool) -> (r: Self)
        ensures
            r.double_quotes_spec() == value,
    {
        Self { escape_double_quotes: value }
    }
}

impl Default for QEntitiesParseEscapeOptions {
    /// The default escape options allow only `\\`.
    fn default() -> (r: Self)
        ensures
            !r.double_quotes_spec(),
    {
        Self::new()
    }
}

/// Options that describe how a q-entities file is parsed: which comment
/// styles are recognized, what terminates unquoted strings, which escape
/// sequences exist, and the per-key and per-value length limits.
#[derive(Debug, Clone, Copy)]
pub struct QEntitiesParseOptions {
    /// Whether C++ style comments are enabled.
    cpp_style_comments: bool,
    /// Whether C style comments are enabled.
    c_style_comments: bool,
    /// Whether control bytes terminate unquoted strings.
    controls_terminate_unquoted_strings: bool,
    /// Whether comments terminate unquoted strings.
    comments_terminate_unquoted_strings: bool,
    /// Whether escape sequences are enabled.
    escape: bool,
    /// Whether double quotes can be escaped.
    escape_double_quotes: bool,
    /// The maximum length that a key is allowed to be.
    max_key_length: usize,
    /// The maximum length that a value is allowed to be.
    max_value_length: usize,
}

impl QEntitiesParseOptions {
    /// The grammar rules these options denote.
    pub closed spec fn view(self) -> GrammarRules {
        GrammarRules {
            cpp_comments: self.cpp_style_comments,
            c_comments: self.c_style_comments,
            controls_terminate: self.controls_terminate_unquoted_strings,
            comments_terminate: self.comments_terminate_unquoted_strings,
            escape: self.escape,
            escape_double_quotes: self.escape_double_quotes,
            max_key_len: self.max_key_length as int,
            max_value_len: self.max_value_length as int,
        }
    }

    /// The baseline grammar: no comments, whitespace alone terminates
    /// unquoted strings, no escapes, unbounded lengths.
    pub open spec fn baseline_rules() -> GrammarRules {
        GrammarRules {
            cpp_comments: false,
            c_comments: false,
            controls_terminate: false,
            comments_terminate: false,
            escape: false,
            escape_double_quotes: false,
            max_key_len: usize::MAX as int,
            max_value_len: usize::MAX as int,
        }
    }

    /// Creates a new parse options instance with the only options enabled
    /// being those that satisfy the baseline grammar for a q-entities file.
    pub fn new() -> (r: Self)
        ensures
            r@ == Self::baseline_rules(),
    {
        Self {
            cpp_style_comments: false,
            c_style_comments: false,
            controls_terminate_unquoted_strings: false,
            comments_terminate_unquoted_strings: false,
            escape: false,
            escape_double_quotes: false,
            max_key_length: usize::MAX,
            max_value_length: usize::MAX,
        }
    }

    /// Preset for parsing q-entities found in _Quake_: the baseline grammar
    /// plus C++ style comments.
    pub fn quake() -> (r: Self)
        ensures
            r@ == (GrammarRules { cpp_comments: true, ..Self::baseline_rules() }),
    {
        let mut r = Self::new();
        r.cpp_style_comments = true;
        r
    }

    /// Preset for parsing q-entities found in _Quake II_: the same grammar
    /// as [`quake()`](Self::quake).
    pub fn quake2() -> (r: Self)
        ensures
            r@ == (GrammarRules { cpp_comments: true, ..Self::baseline_rules() }),
    {
        Self::quake()
    }

    /// Preset for parsing q-entities found in _Quake III: Arena_: the
    /// baseline grammar plus C++ style and C style comments.
    pub fn quake3() -> (r: Self)
        ensures
            r@ == (GrammarRules {
                cpp_comments: true,
                c_comments: true,
                ..Self::baseline_rules()
            }),
    {
        let mut r = Self::new();
        r.cpp_style_comments = true;
        r.c_style_comments = true;
        r
    }

    /// Preset for parsing q-entities found in most _Source Engine_ titles:
    /// the baseline grammar plus C++ style comments, with control bytes
    /// terminating unquoted strings.
    pub fn source_engine() -> (r: Self)
        ensures
            r@ == (GrammarRules {
                cpp_comments: true,
                controls_terminate: true,
                ..Self::baseline_rules()
            }),
    {
        let mut r = Self::new();
        r.cpp_style_comments = true;
        r.controls_terminate_unquoted_strings = true;
        r
    }

    /// Preset for parsing q-entities found in _Vampire The Masquerade:
    /// Bloodlines_: the baseline grammar plus C++ style comments, control
    /// bytes terminating unquoted strings, and escape sequences for
    /// back-slashes and double quotes.
    pub fn vtmb() -> (r: Self)
        ensures
            r@ == (GrammarRules {
                cpp_comments: true,
                controls_terminate: true,
                escape: true,
                escape_double_quotes: true,
                ..Self::baseline_rules()
            }),
    {
        let mut r = Self::new();
        r.cpp_style_comments = true;
        r.controls_terminate_unquoted_strings = true;
        r.escape = true;
        r.escape_double_quotes = true;
        r
    }

    /// Changes whether or not C++ style single-line comments are enabled.
    pub fn cpp_style_comments(&mut self, value: bool)
        ensures
            final(self)@ == (GrammarRules { cpp_comments: value, ..old(self)@ }),
    {
        self.cpp_style_comments = value;
    }

    /// Same as [`cpp_style_comments()`](Self::cpp_style_comments) but takes
    /// `self` by value.
    pub fn with_cpp_style_comments(self, value: bool) -> (r: Self)
        ensures
            r@ == (GrammarRules { cpp_comments: value, ..self@ }),
    {
        let mut r = self;
        r.cpp_style_comments = value;
        r
    }

    /// Changes whether or not C style multi-line comments are enabled.
    pub fn c_style_comments(&mut self, value: bool)
        ensures
            final(self)@ == (GrammarRules { c_comments: value, ..old(self)@ }),
    {
        self.c_style_comments = value;
    }

    /// Same as [`c_style_comments()`](Self::c_style_comments) but takes
    /// `self` by value.
    pub fn with_c_style_comments(self, value: bool) -> (r: Self)
        ensures
            r@ == (GrammarRules { c_comments: value, ..self@ }),
    {
        let mut r = self;
        r.c_style_comments = value;
        r
    }

    /// Changes whether or not control bytes terminate unquoted strings.
    pub fn controls_terminate_unquoted_strings(&mut self, value: bool)
        ensures
            final(self)@ == (GrammarRules { controls_terminate: value, ..old(self)@ }),
    {
        self.controls_terminate_unquoted_strings = value;
    }

    /// Same as
    /// [`controls_terminate_unquoted_strings()`](Self::controls_terminate_unquoted_strings)
    /// but takes `self` by value.
    pub fn with_controls_terminate_unquoted_strings(self, value: bool) -> (r: Self)
        ensures
            r@ == (GrammarRules { controls_terminate: value, ..self@ }),
    {
        let mut r = self;
        r.controls_terminate_unquoted_strings = value;
        r
    }

    /// Changes whether or not comments terminate unquoted strings.
    pub fn comments_terminate_unquoted_strings(&mut self, value: bool)
        ensures
            final(self)@ == (GrammarRules { comments_terminate: value, ..old(self)@ }),
    {
        self.comments_terminate_unquoted_strings = value;
    }

    /// Same as
    /// [`comments_terminate_unquoted_strings()`](Self::comments_terminate_unquoted_strings)
    /// but takes `self` by value.
    pub fn with_comments_terminate_unquoted_strings(self, value: bool) -> (r: Self)
        ensures
            r@ == (GrammarRules { comments_terminate: value, ..self@ }),
    {
        let mut r = self;
        r.comments_terminate_unquoted_strings = value;
        r
    }

    /// Changes the escape sequence options used when parsing quoted
    /// strings. `Some` always implies that a back-slash can escape another
    /// back-slash (`\\`); `None` disables escape sequences entirely.
    pub fn escape_options(&mut self, value: Option<QEntitiesParseEscapeOptions>)
        ensures
            final(self)@ == (GrammarRules {
                escape: value is Some,
                escape_double_quotes: (value matches Some(e) && e.double_quotes_spec()),
                ..old(self)@
            }),
    {
        match value {
            Some(e) => {
                self.escape = true;
                self.escape_double_quotes = e.escape_double_quotes;
            },
            None => {
                self.escape = false;
                self.escape_double_quotes = false;
            },
        }
    }

    /// Same as [`escape_options()`](Self::escape_options) but takes `self`
    /// by value.
    pub fn with_escape_options(self, value: Option<QEntitiesParseEscapeOptions>) -> (r: Self)
        ensures
            r@ == (GrammarRules {
                escape: value is Some,
                escape_double_quotes: (value matches Some(e) && e.double_quotes_spec()),
                ..self@
            }),
    {
        let mut r = self;
        r.escape_options(value);
        r
    }

    /// Changes the maximum allowed byte length of a parsed key. `None`
    /// means no limit.
    pub fn max_key_length(&mut self, value: Option<usize>)
        ensures
            final(self)@ == (GrammarRules {
                max_key_len: match value {
                    Some(n) => n as int,
                    None => usize::MAX as int,
                },
                ..old(self)@
            }),
    {
        match value {
            Some(n) => {
                self.max_key_length = n;
            },
            None => {
                self.max_key_length = usize::MAX;
            },
        }
    }

    /// Same as [`max_key_length()`](Self::max_key_length) but takes `self`
    /// by value.
    pub fn with_max_key_length(self, value: Option<usize>) -> (r: Self)
        ensures
            r@ == (GrammarRules {
                max_key_len: match value {
                    Some(n) => n as int,
                    None => usize::MAX as int,
                },
                ..self@
            }),
    {
        let mut r = self;
        r.max_key_length(value);
        r
    }

    /// Changes the maximum allowed byte length of a parsed value. `None`
    /// means no limit.
    pub fn max_value_length(&mut self, value: Option<usize>)
        ensures
            final(self)@ == (GrammarRules {
                max_value_len: match value {
                    Some(n) => n as int,
                    None => usize::MAX as int,
                },
                ..old(self)@
            }),
    {
        match value {
            Some(n) => {
                self.max_value_length = n;
            },
            None => {
                self.max_value_length = usize::MAX;
            },
        }
    }

    /// Same as [`max_value_length()`](Self::max_value_length) but takes
    /// `self` by value.
    pub fn with_max_value_length(self, value: Option<usize>) -> (r: Self)
        ensures
            r@ == (GrammarRules {
                max_value_len: match value {
                    Some(n) => n as int,
                    None => usize::MAX as int,
                },
                ..self@
            }),
    {
        let mut r = self;
        r.max_value_length(value);
        r
    }
}

impl Default for QEntitiesParseOptions {
    /// The default options are the baseline grammar.
    fn default() -> (r: Self)
        ensures
            r@ == Self::baseline_rules(),
    {
        Self::new()
    }
}


/// The next unconsumed byte at position `i` of input `s`, or `None` at the
/// end of input.
pub open spec fn byte_at(s: Seq<u8>, i: int) -> Option<u8> {
    if 0 <= i < s.len() {
        Some(s[i])
    } else {
        None
    }
}

/// A byte source feeding one parse: the input bytes and how many of them
/// were read out so far.
pub struct ByteSource<'a> {
    data: &'a [u8],
    pos: usize,
}

impl<'a> ByteSource<'a> {
    /// The whole input.
    pub closed spec fn data_spec(self) -> Seq<u8> {
        self.data@
    }

    /// How many bytes were read out of the source.
    pub closed spec fn pos_spec(self) -> int {
        self.pos as int
    }

    /// Validity: the read position lies within the input.
    pub closed spec fn wf(self) -> bool {
        self.pos <= self.data@.len()
    }

    /// Creates a source over the given bytes, nothing read yet.
    pub fn new(data: &'a [u8]) -> (r: Self)
        ensures
            r.wf(),
            r.data_spec() == data@,
            r.pos_spec() == 0,
    {
        ByteSource { data, pos: 0 }
    }

    /// Reads the next byte, or reports the end of input.
    pub fn read_byte(&mut self) -> (r: Option<u8>)
        requires
            old(self).wf(),
        ensures
            final(self).wf(),
            final(self).data_spec() == old(self).data_spec(),
            r == byte_at(old(self).data_spec(), old(self).pos_spec()),
            final(self).pos_spec() == old(self).pos_spec() + if r is Some {
                1int
            } else {
                0int
            },
    {
        if self.pos < self.data.len() {
            let b = *vstd::slice::slice_index_get(self.data, self.pos);
            self.pos = self.pos + 1;
            Some(b)
        } else {
            None
        }
    }
}

/// State that a [`PeekByte`] can be in.
enum PeekByteState {
    /// The byte is unavailable and needs to be updated from the source.
    Spoiled,
    /// The byte is available and represents the most recent state of the
    /// source.
    Fresh,
    /// The source has indicated that no more bytes are available.
    Unavailable,
}

/// One-byte lookahead over a [`ByteSource`]: a three-state cell holding no
/// cached byte, a cached byte, or the knowledge that the source is
/// exhausted, so that the source is never read twice for one byte.
pub struct PeekByte {
    state: PeekByteState,
    byte: u8,
}

impl PeekByte {
    /// Whether a peeked byte is cached and not yet consumed.
    pub closed spec fn pending(self) -> bool {
        self.state is Fresh
    }

    /// The cached byte, meaningful while one is pending.
    pub closed spec fn cached(self) -> u8 {
        self.byte
    }

    /// Agreement with a source: a pending byte is exactly the last byte
    /// read out of the source, and exhaustion means the source was read to
    /// its end.
    pub closed spec fn wf_with(self, src: ByteSource) -> bool {
        &&& src.wf()
        &&& (self.state is Fresh ==> src.pos_spec() >= 1 && self.byte == src.data_spec()[
            src.pos_spec() - 1])
        &&& (self.state is Unavailable ==> src.pos_spec() == src.data_spec().len())
    }

    /// How many bytes stand consumed, given the source this cell reads
    /// from: everything read out of the source but the pending byte.
    pub closed spec fn consumed(self, src: ByteSource) -> int {
        src.pos_spec() - if self.state is Fresh {
            1int
        } else {
            0int
        }
    }

    /// Creates a new empty peek-byte.
    pub fn new() -> (r: Self)
        ensures
            !r.pending(),
            forall|src: ByteSource| src.wf() && src.pos_spec() == 0 ==> r.wf_with(src),
    {
        PeekByte { state: PeekByteState::Spoiled, byte: 0 }
    }

    /// Assume that any previously peeked byte has spoiled and perform a
    /// fresh read from the source.
    pub fn peek_from_spoiled(&mut self, reader: &mut ByteSource) -> (r: Option<u8>)
        requires
            old(self).wf_with(*old(reader)),
            !old(self).pending(),
        ensures
            final(self).wf_with(*final(reader)),
            final(reader).data_spec() == old(reader).data_spec(),
            final(self).consumed(*final(reader)) == old(self).consumed(*old(reader)),
            r == byte_at(old(reader).data_spec(), old(self).consumed(*old(reader))),
            final(self).pending() == r is Some,
            r matches Some(b) ==> final(self).cached() == b,
    {
        match self.reader_step(reader) {
            Some(b) => {
                self.state = PeekByteState::Fresh;
                self.byte = b;
                Some(b)
            },
            None => {
                self.state = PeekByteState::Unavailable;
                None
            },
        }
    }

    /// Reads one byte out of the source on this cell's behalf.
    fn reader_step(&mut self, reader: &mut ByteSource) -> (r: Option<u8>)
        requires
            old(reader).wf(),
        ensures
            *final(self) == *old(self),
            final(reader).wf(),
            final(reader).data_spec() == old(reader).data_spec(),
            r == byte_at(old(reader).data_spec(), old(reader).pos_spec()),
            final(reader).pos_spec() == old(reader).pos_spec() + if r is Some {
                1int
            } else {
                0int
            },
    {
        reader.read_byte()
    }

    /// Either return the previously peeked byte or read it out of the
    /// provided source, consuming nothing.
    pub fn peek_from(&mut self, reader: &mut ByteSource) -> (r: Option<u8>)
        requires
            old(self).wf_with(*old(reader)),
        ensures
            final(self).wf_with(*final(reader)),
            final(reader).data_spec() == old(reader).data_spec(),
            final(self).consumed(*final(reader)) == old(self).consumed(*old(reader)),
            r == byte_at(old(reader).data_spec(), old(self).consumed(*old(reader))),
            final(self).pending() == r is Some,
            r matches Some(b) ==> final(self).cached() == b,
    {
        match self.state {
            PeekByteState::Spoiled => self.peek_from_spoiled(reader),
            PeekByteState::Fresh => Some(self.byte),
            PeekByteState::Unavailable => None,
        }
    }

    /// Attempt to take one byte, spoiling the cache, reading from the
    /// source only when nothing is cached.
    pub fn take_from(&mut self, reader: &mut ByteSource) -> (r: Option<u8>)
        requires
            old(self).wf_with(*old(reader)),
        ensures
            final(self).wf_with(*final(reader)),
            final(reader).data_spec() == old(reader).data_spec(),
            r == byte_at(old(reader).data_spec(), old(self).consumed(*old(reader))),
            final(self).consumed(*final(reader)) == old(self).consumed(*old(reader)) + if r
                is Some {
                1int
            } else {
                0int
            },
            !final(self).pending(),
    {
        match self.state {
            PeekByteState::Spoiled => {
                match self.reader_step(reader) {
                    Some(b) => Some(b),
                    None => {
                        self.state = PeekByteState::Unavailable;
                        None
                    },
                }
            },
            PeekByteState::Fresh => {
                self.state = PeekByteState::Spoiled;
                Some(self.byte)
            },
            PeekByteState::Unavailable => None,
        }
    }

    /// Takes the byte of a fresh peek. To be used only where a peek is
    /// known to have succeeded.
    pub fn take_fresh(&mut self) -> (r: u8)
        requires
            old(self).pending(),
        ensures
            r == old(self).cached(),
            !final(self).pending(),
            forall|src: ByteSource| old(self).wf_with(src) ==> final(self).wf_with(src),
            forall|src: ByteSource|
                #[trigger] final(self).consumed(src) == old(self).consumed(src) + 1,
    {
        self.state = PeekByteState::Spoiled;
        self.byte
    }
}

/// Advances a location over one consumed byte: `p` is the input prefix
/// consumed before it.
fn advance_location(loc: &mut QEntitiesParserLocation, byte: u8, Ghost(p): Ghost<Seq<u8>>)
    requires
        old(loc)@ == loc_after(p),
        p.len() + 2 <= u64::MAX,
    ensures
        final(loc)@ == loc_after(p.push(byte)),
{
    proof {
        lemma_loc_after_bounds(p);
        lemma_location_advance(p, byte);
    }
    loc.offset = loc.offset + 1;
    if byte == 10 || byte == 13 {
        loc.line = loc.line + 1;
        loc.column = 1;
    } else {
        loc.column = loc.column + 1;
    }
}

/// State for parsing the q-entities format out of a byte source.
///
/// This encapsulates both the lexer and the parser: entity and key-value
/// descriptors and interned chunk ids are written directly as tokens are
/// consumed, with no intermediate syntax tree.
struct Parser<'a> {
    /// The inner source from which bytes are read.
    source: ByteSource<'a>,
    /// The byte peeked from the source.
    peek_byte: PeekByte,
    /// The parser's current location within the input.
    location: QEntitiesParserLocation,
    /// Options used for parsing.
    options: QEntitiesParseOptions,
}

impl<'a> Parser<'a> {
    /// The whole input.
    spec fn src(self) -> Seq<u8> {
        self.source.data_spec()
    }

    /// How many input bytes stand consumed.
    spec fn consumed(self) -> int {
        self.peek_byte.consumed(self.source)
    }

    /// Validity: lookahead agrees with the source, the tracked location is
    /// the location after the consumed prefix, and the input fits the
    /// location counters.
    spec fn wf(self) -> bool {
        &&& self.peek_byte.wf_with(self.source)
        &&& 0 <= self.consumed() <= self.src().len()
        &&& self.location@ == loc_after(self.src().take(self.consumed()))
        &&& self.src().len() < u64::MAX
    }

    /// Create a new parser for an input.
    fn new(data: &'a [u8], options: QEntitiesParseOptions) -> (r: Self)
        requires
            data@.len() < u64::MAX,
        ensures
            r.wf(),
            r.src() == data@,
            r.consumed() == 0,
            r.options == options,
    {
        let r = Parser {
            source: ByteSource::new(data),
            peek_byte: PeekByte::new(),
            location: QEntitiesParserLocation { offset: 0, line: 1, column: 1 },
            options,
        };
        proof {
            assert(r.src().take(0) =~= Seq::<u8>::empty());
        }
        r
    }

    /// Peek the next unconsumed byte.
    fn peek_byte(&mut self) -> (r: Option<u8>)
        requires
            old(self).wf(),
        ensures
            final(self).wf(),
            final(self).src() == old(self).src(),
            final(self).consumed() == old(self).consumed(),
            final(self).options == old(self).options,
            final(self).location == old(self).location,
            r == byte_at(old(self).src(), old(self).consumed()),
            r is Some ==> final(self).peek_byte.pending(),
    {
        PeekByte::peek_from(&mut self.peek_byte, &mut self.source)
    }

    /// Attempt to read the next byte, moving the location forward upon
    /// success.
    fn next_byte(&mut self) -> (r: Option<u8>)
        requires
            old(self).wf(),
        ensures
            final(self).wf(),
            final(self).src() == old(self).src(),
            final(self).options == old(self).options,
            r == byte_at(old(self).src(), old(self).consumed()),
            final(self).consumed() == old(self).consumed() + if r is Some {
                1int
            } else {
                0int
            },
    {
        let r = PeekByte::take_from(&mut self.peek_byte, &mut self.source);
        if let Some(byte) = r {
            advance_location(
                &mut self.location,
                byte,
                Ghost(old(self).src().take(old(self).consumed())),
            );
            proof {
                assert(old(self).src().take(old(self).consumed()).push(byte) =~= old(
                    self,
                ).src().take(old(self).consumed() + 1));
            }
        }
        r
    }

    /// Identical to [`next_byte`](Self::next_byte) under the assumption
    /// that a previous peek succeeded, returning that peeked byte.
    fn next_byte_fresh(&mut self) -> (r: u8)
        requires
            old(self).wf(),
            old(self).peek_byte.pending(),
        ensures
            final(self).wf(),
            final(self).src() == old(self).src(),
            final(self).options == old(self).options,
            old(self).consumed() < old(self).src().len(),
            r == old(self).src()[old(self).consumed()],
            final(self).consumed() == old(self).consumed() + 1,
    {
        let byte = self.peek_byte.take_fresh();
        advance_location(
            &mut self.location,
            byte,
            Ghost(old(self).src().take(old(self).consumed())),
        );
        proof {
            assert(old(self).src().take(old(self).consumed()).push(byte) =~= old(self).src().take(
                old(self).consumed() + 1,
            ));
        }
        byte
    }
}


/// The kinds of sources strings can be parsed from within a q-entities
/// file.
#[derive(Debug, Clone, Copy)]
enum StringSourceKind {
    /// The source is a key.
    Key,
    /// The source is a value.
    Value,
}

/// The length limit that applies to a string source kind.
spec fn limit_of(o: GrammarRules, kind: StringSourceKind) -> int {
    match kind {
        StringSourceKind::Key => o.max_key_len,
        StringSourceKind::Value => o.max_value_len,
    }
}

/// The error kind reported when a string of this source kind is too long.
spec fn too_long_kind(kind: StringSourceKind) -> QEntitiesParseErrorKind {
    match kind {
        StringSourceKind::Key => QEntitiesParseErrorKind::KeyTooLong,
        StringSourceKind::Value => QEntitiesParseErrorKind::ValueTooLong,
    }
}

/// Whether a byte is ASCII whitespace.
fn byte_is_space(b: u8) -> (r: bool)
    ensures
        r == is_space(b),
{
    b == 32 || b == 9 || b == 10 || b == 12 || b == 13
}

impl<'a> Parser<'a> {
    /// Consumes bytes until the first line-ending byte or the end of input.
    #[verifier::loop_isolation(false)]
    fn skip_cpp_style_comment(&mut self)
        requires
            old(self).wf(),
        ensures
            final(self).wf(),
            final(self).src() == old(self).src(),
            final(self).options == old(self).options,
            final(self).consumed() == line_comment_end(old(self).src(), old(self).consumed()),
    {
        let ghost s0 = old(self).src();
        let ghost c0 = old(self).consumed();
        loop
            invariant
                self.wf(),
                self.src() == s0,
                self.options == old(self).options,
                0 <= self.consumed() <= s0.len(),
                line_comment_end(s0, self.consumed()) == line_comment_end(s0, c0),
            decreases s0.len() - self.consumed(),
        {
            match self.next_byte() {
                None => {
                    return ;
                },
                Some(byte) => {
                    if byte == 10 || byte == 13 {
                        return ;
                    }
                },
            }
        }
    }

    /// Consumes bytes until the pattern `*/` is encountered; when the end
    /// of input comes first, reports an unterminated C style comment
    /// located at `start`, the opener of the comment.
    #[verifier::loop_isolation(false)]
    fn skip_c_style_comment(&mut self, start: QEntitiesParserLocation) -> (r: Result<
        (),
        QEntitiesParseError,
    >)
        requires
            old(self).wf(),
        ensures
            final(self).wf(),
            final(self).src() == old(self).src(),
            final(self).options == old(self).options,
            match block_comment_end(old(self).src(), old(self).consumed()) {
                Some(j) => r is Ok && final(self).consumed() == j,
                None => r matches Err(e) && e.kind_spec()
                    == QEntitiesParseErrorKind::UnterminatedCStyleComment && e.loc_spec()
                    == start@,
            },
    {
        let ghost s0 = old(self).src();
        let ghost c0 = old(self).consumed();
        loop
            invariant
                self.wf(),
                self.src() == s0,
                self.options == old(self).options,
                0 <= self.consumed() <= s0.len(),
                block_comment_end(s0, self.consumed()) == block_comment_end(s0, c0),
            decreases s0.len() - self.consumed(),
        {
            match self.next_byte() {
                None => {
                    return Err(parse_error(ParseError::UnterminatedCStyleComment(start)));
                },
                Some(byte) => {
                    if byte == 42 {
                        match self.peek_byte() {
                            Some(b2) => {
                                if b2 == 47 {
                                    let _ = self.next_byte_fresh();
                                    return Ok(());
                                }
                            },
                            None => {},
                        }
                    }
                },
            }
        }
    }

    /// Consumes bytes until a byte that is neither whitespace nor part of a
    /// recognized comment is encountered, returning that byte and its
    /// location; `None` at the end of input.
    #[verifier::loop_isolation(false)]
    fn next_significant_byte(&mut self) -> (r: Result<
        Option<(u8, QEntitiesParserLocation)>,
        QEntitiesParseError,
    >)
        requires
            old(self).wf(),
        ensures
            final(self).wf(),
            final(self).src() == old(self).src(),
            final(self).options == old(self).options,
            match next_sig(old(self).src(), old(self).options@, old(self).consumed()) {
                SigScan::End => r matches Ok(rr) && rr is None && final(self).consumed() == old(
                    self,
                ).src().len(),
                SigScan::Tok { at } => r matches Ok(rr) && rr matches Some((b, loc)) && b == old(
                    self,
                ).src()[at] && loc@ == loc_after(old(self).src().take(at)) && final(self).consumed()
                    == at + 1,
                SigScan::UntermComment { at } => r matches Err(e) && e.kind_spec()
                    == QEntitiesParseErrorKind::UnterminatedCStyleComment && e.loc_spec()
                    == loc_after(old(self).src().take(at)),
            },
    {
        let ghost s0 = old(self).src();
        let ghost o = old(self).options@;
        let ghost c0 = old(self).consumed();
        loop
            invariant
                self.wf(),
                self.src() == s0,
                self.options == old(self).options,
                self.options@ == o,
                0 <= self.consumed() <= s0.len(),
                next_sig(s0, o, self.consumed()) == next_sig(s0, o, c0),
            decreases s0.len() - self.consumed(),
        {
            let ghost c = self.consumed();
            match self.peek_byte() {
                None => {
                    return Ok(None);
                },
                Some(byte) => {
                    let token_loc = self.location;
                    let _ = self.next_byte_fresh();
                    if byte_is_space(byte) {
                        // whitespace is discarded; the scan goes on
                    } else if byte == 47 {
                        match self.peek_byte() {
                            Some(b2) => {
                                if b2 == 47 && self.options.cpp_style_comments {
                                    let _ = self.next_byte_fresh();
                                    proof {
                                        lemma_line_comment_end_bounds(s0, c + 2);
                                    }
                                    self.skip_cpp_style_comment();
                                } else if b2 == 42 && self.options.c_style_comments {
                                    let _ = self.next_byte_fresh();
                                    proof {
                                        if block_comment_end(s0, c + 2) is Some {
                                            lemma_block_comment_end_bounds(s0, c + 2);
                                        }
                                    }
                                    match self.skip_c_style_comment(token_loc) {
                                        Ok(()) => {},
                                        Err(e) => {
                                            return Err(e);
                                        },
                                    }
                                } else {
                                    return Ok(Some((byte, token_loc)));
                                }
                            },
                            None => {
                                return Ok(Some((byte, token_loc)));
                            },
                        }
                    } else {
                        return Ok(Some((byte, token_loc)));
                    }
                },
            }
        }
    }

    /// Gets the maximum length for a string's source kind.
    fn string_source_max_length(&self, kind: StringSourceKind) -> (r: usize)
        ensures
            r as int == limit_of(self.options@, kind),
    {
        match kind {
            StringSourceKind::Key => self.options.max_key_length,
            StringSourceKind::Value => self.options.max_value_length,
        }
    }

    /// Helper to attempt pushing a byte to a buffer while returning an
    /// error if doing so would exceed a length limit; such an error is
    /// located at the start of the string being accumulated.
    fn push_string_buf(
        kind: StringSourceKind,
        buf: &mut Vec<u8>,
        byte: u8,
        max_length: usize,
        start_location: QEntitiesParserLocation,
    ) -> (r: Result<(), QEntitiesParseError>)
        ensures
            old(buf)@.len() < max_length ==> r is Ok && final(buf)@ == old(buf)@.push(byte),
            old(buf)@.len() >= max_length ==> final(buf)@ == old(buf)@ && (r matches Err(e)
                && e.kind_spec() == too_long_kind(kind) && e.loc_spec() == start_location@),
    {
        if buf.len() < max_length {
            buf.push(byte);
            Ok(())
        } else {
            Err(
                parse_error(
                    match kind {
                        StringSourceKind::Key => ParseError::KeyTooLong(start_location),
                        StringSourceKind::Value => ParseError::ValueTooLong(start_location),
                    },
                ),
            )
        }
    }

    /// Reads bytes into the given buffer until the terminating `"` byte;
    /// `start_location` is the location of the opening quote, which stands
    /// just before the first unconsumed byte.
    #[verifier::loop_isolation(false)]
    fn parse_quoted_string(
        &mut self,
        source_kind: StringSourceKind,
        buf: &mut Vec<u8>,
        start_location: QEntitiesParserLocation,
    ) -> (r: Result<(), QEntitiesParseError>)
        requires
            old(self).wf(),
        ensures
            final(self).wf(),
            final(self).src() == old(self).src(),
            final(self).options == old(self).options,
            match quoted(
                old(self).src(),
                old(self).options@,
                limit_of(old(self).options@, source_kind),
                old(self).consumed(),
            ) {
                StrScan::Done { content, after } => r is Ok && final(buf)@ == content
                    && final(self).consumed() == after,
                StrScan::Unterminated => r matches Err(e) && e.kind_spec()
                    == QEntitiesParseErrorKind::UnterminatedQuotedString && e.loc_spec()
                    == start_location@,
                StrScan::BadEscape { at } => r matches Err(e) && e.kind_spec()
                    == QEntitiesParseErrorKind::InvalidEscapeSequence && e.loc_spec() == loc_after(
                    old(self).src().take(at),
                ),
                StrScan::TooLong => r matches Err(e) && e.kind_spec() == too_long_kind(source_kind)
                    && e.loc_spec() == start_location@,
                StrScan::UntermComment { .. } => true,
            },
    {
        buf.clear();
        let max_length = self.string_source_max_length(source_kind);
        let ghost s0 = old(self).src();
        let ghost o = old(self).options@;
        let ghost max = limit_of(o, source_kind);
        let ghost c0 = old(self).consumed();
        proof {
            match quoted_rest(s0, o, max, c0, 0) {
                StrScan::Done { content, after } => {
                    assert(Seq::<u8>::empty() + content =~= content);
                },
                _ => {},
            }
        }
        loop
            invariant
                self.wf(),
                self.src() == s0,
                self.options == old(self).options,
                self.options@ == o,
                max == max_length as int,
                0 <= self.consumed() <= s0.len(),
                str_append(buf@, quoted_rest(s0, o, max, self.consumed(), buf@.len() as int))
                    == quoted_rest(s0, o, max, c0, 0),
            decreases s0.len() - self.consumed(),
        {
            let ghost c = self.consumed();
            let ghost cnt = buf@.len() as int;
            let escape_loc = self.location;
            match self.next_byte() {
                None => {
                    return Err(parse_error(ParseError::UnterminatedQuotedString(start_location)));
                },
                Some(byte) => {
                    if byte == 34 {
                        proof {
                            assert(buf@ + Seq::<u8>::empty() =~= buf@);
                        }
                        return Ok(());
                    } else if byte == 92 && self.options.escape {
                        let escaped: Option<u8> = match self.peek_byte() {
                            Some(b2) => {
                                if b2 == 92 || (b2 == 34 && self.options.escape_double_quotes) {
                                    Some(b2)
                                } else {
                                    None
                                }
                            },
                            None => None,
                        };
                        match escaped {
                            Some(escape_byte) => {
                                let _ = self.next_byte_fresh();
                                let ghost bufpre = buf@;
                                match Self::push_string_buf(
                                    source_kind,
                                    buf,
                                    escape_byte,
                                    max_length,
                                    start_location,
                                ) {
                                    Ok(()) => {
                                        proof {
                                            lemma_str_append_step(
                                                bufpre,
                                                escape_byte,
                                                quoted_rest(s0, o, max, c + 2, cnt + 1),
                                            );
                                        }
                                    },
                                    Err(e) => {
                                        return Err(e);
                                    },
                                }
                            },
                            None => {
                                return Err(
                                    parse_error(ParseError::InvalidEscapeSequence(escape_loc)),
                                );
                            },
                        }
                    } else {
                        let ghost bufpre = buf@;
                        match Self::push_string_buf(
                            source_kind,
                            buf,
                            byte,
                            max_length,
                            start_location,
                        ) {
                            Ok(()) => {
                                proof {
                                    lemma_str_append_step(
                                        bufpre,
                                        byte,
                                        quoted_rest(s0, o, max, c + 1, cnt + 1),
                                    );
                                }
                            },
                            Err(e) => {
                                return Err(e);
                            },
                        }
                    }
                },
            }
        }
    }

    /// Reads bytes into the given buffer until some terminating byte;
    /// `head_byte` is the string's first byte, already consumed, and
    /// `start_location` its location.
    #[verifier::loop_isolation(false)]
    fn parse_unquoted_string(
        &mut self,
        source_kind: StringSourceKind,
        head_byte: u8,
        buf: &mut Vec<u8>,
        start_location: QEntitiesParserLocation,
    ) -> (r: Result<(), QEntitiesParseError>)
        requires
            old(self).wf(),
            old(self).consumed() >= 1,
            old(self).src()[old(self).consumed() - 1] == head_byte,
        ensures
            final(self).wf(),
            final(self).src() == old(self).src(),
            final(self).options == old(self).options,
            match unquoted(
                old(self).src(),
                old(self).options@,
                limit_of(old(self).options@, source_kind),
                old(self).consumed() - 1,
            ) {
                StrScan::Done { content, after } => r is Ok && final(buf)@ == content
                    && final(self).consumed() == after,
                StrScan::TooLong => r matches Err(e) && e.kind_spec() == too_long_kind(source_kind)
                    && e.loc_spec() == start_location@,
                StrScan::UntermComment { at } => r matches Err(e) && e.kind_spec()
                    == QEntitiesParseErrorKind::UnterminatedCStyleComment && e.loc_spec()
                    == loc_after(old(self).src().take(at)),
                _ => true,
            },
    {
        buf.clear();
        let max_length = self.string_source_max_length(source_kind);
        let ghost s0 = old(self).src();
        let ghost o = old(self).options@;
        let ghost max = limit_of(o, source_kind);
        let ghost at0 = old(self).consumed() - 1;
        match Self::push_string_buf(source_kind, buf, head_byte, max_length, start_location) {
            Ok(()) => {},
            Err(e) => {
                return Err(e);
            },
        }
        proof {
            match unquoted_rest(s0, o, max, at0 + 1, 1) {
                StrScan::Done { content, after } => {
                    assert(seq![head_byte] + content =~= buf@ + content);
                },
                _ => {},
            }
        }
        loop
            invariant
                self.wf(),
                self.src() == s0,
                self.options == old(self).options,
                self.options@ == o,
                max == max_length as int,
                0 <= self.consumed() <= s0.len(),
                buf@.len() >= 1,
                str_append(buf@, unquoted_rest(s0, o, max, self.consumed(), buf@.len() as int))
                    == unquoted(s0, o, max, at0),
            decreases s0.len() - self.consumed(),
        {
            let ghost c = self.consumed();
            let ghost cnt = buf@.len() as int;
            match self.peek_byte() {
                None => {
                    proof {
                        assert(buf@ + Seq::<u8>::empty() =~= buf@);
                    }
                    return Ok(());
                },
                Some(byte) => {
                    if byte_is_space(byte) {
                        let _ = self.next_byte_fresh();
                        proof {
                            assert(buf@ + Seq::<u8>::empty() =~= buf@);
                        }
                        return Ok(());
                    } else if (byte == 123 || byte == 125 || byte == 34)
                        && self.options.controls_terminate_unquoted_strings {
                        proof {
                            assert(buf@ + Seq::<u8>::empty() =~= buf@);
                        }
                        return Ok(());
                    } else if byte == 47 && self.options.comments_terminate_unquoted_strings {
                        let slash_loc = self.location;
                        let _ = self.next_byte_fresh();
                        let follower: Option<u8> = self.peek_byte();
                        let is_line = match follower {
                            Some(b2) => b2 == 47 && self.options.cpp_style_comments,
                            None => false,
                        };
                        let is_block = match follower {
                            Some(b2) => b2 == 42 && self.options.c_style_comments,
                            None => false,
                        };
                        if is_line {
                            let _ = self.next_byte_fresh();
                            proof {
                                lemma_line_comment_end_bounds(s0, c + 2);
                            }
                            self.skip_cpp_style_comment();
                            proof {
                                assert(buf@ + Seq::<u8>::empty() =~= buf@);
                            }
                            return Ok(());
                        } else if is_block {
                            let _ = self.next_byte_fresh();
                            proof {
                                if block_comment_end(s0, c + 2) is Some {
                                    lemma_block_comment_end_bounds(s0, c + 2);
                                }
                            }
                            match self.skip_c_style_comment(slash_loc) {
                                Ok(()) => {
                                    proof {
                                        assert(buf@ + Seq::<u8>::empty() =~= buf@);
                                    }
                                    return Ok(());
                                },
                                Err(e) => {
                                    return Err(e);
                                },
                            }
                        } else {
                            let ghost bufpre = buf@;
                            match Self::push_string_buf(
                                source_kind,
                                buf,
                                byte,
                                max_length,
                                start_location,
                            ) {
                                Ok(()) => {
                                    proof {
                                        lemma_str_append_step(
                                            bufpre,
                                            byte,
                                            unquoted_rest(s0, o, max, c + 1, cnt + 1),
                                        );
                                    }
                                },
                                Err(e) => {
                                    return Err(e);
                                },
                            }
                        }
                    } else {
                        let _ = self.next_byte_fresh();
                        let ghost bufpre = buf@;
                        match Self::push_string_buf(
                            source_kind,
                            buf,
                            byte,
                            max_length,
                            start_location,
                        ) {
                            Ok(()) => {
                                proof {
                                    lemma_str_append_step(
                                        bufpre,
                                        byte,
                                        unquoted_rest(s0, o, max, c + 1, cnt + 1),
                                    );
                                }
                            },
                            Err(e) => {
                                return Err(e);
                            },
                        }
                    }
                },
            }
        }
    }
}


/// State the parser state machine can be in.
#[derive(Debug, Clone, Copy)]
enum ParseState {
    /// The parser is searching for the next entity.
    NextEntity,
    /// The parser is searching for a key.
    NextKey,
    /// The parser is searching for a value.
    NextValue,
}

/// The grammar-level state an executable parser state stands for.
spec fn pstate_of(st: ParseState) -> PState {
    match st {
        ParseState::NextEntity => PState::NextEntity,
        ParseState::NextKey => PState::NextKey,
        ParseState::NextValue => PState::NextValue,
    }
}

impl QEntitiesParseOptions {
    /// Parse a byte string as a q-entities file.
    ///
    /// Returns exactly what the grammar says: the frozen collection of
    /// entities on success, and on failure the one error the grammar
    /// assigns to the input, with the location of the start of the
    /// offending construct.
    #[verifier::loop_isolation(false)]
    #[verifier::rlimit(30)]
    pub fn parse(&self, source: &[u8]) -> (r: Result<QEntities, QEntitiesParseError>)
        requires
            source@.len() < u64::MAX,
        ensures
            match parse_entities(source@, self@) {
                ParseOutcome::Entities { ents } => r matches Ok(q) && q.wf() && q@ == ents,
                ParseOutcome::Fail { kind, at } => r matches Err(e) && err_matches(
                    e,
                    source@,
                    kind,
                    at,
                ),
            },
    {
        let mut parser = Parser::new(source, *self);
        let mut builder = QEntitiesBuilder::new();
        let mut key_scratch: Vec<u8> = Vec::new();
        let mut value_scratch: Vec<u8> = Vec::new();
        let mut state = ParseState::NextEntity;
        let mut entity_start_loc = QEntitiesParserLocation { offset: 0, line: 0, column: 0 };
        let ghost s0 = source@;
        let ghost o = self@;
        let ghost mut ent_at: int = 0;
        let ghost mut acc: Seq<Seq<(Seq<u8>, Seq<u8>)>> = Seq::empty();
        let ghost mut cur: Seq<(Seq<u8>, Seq<u8>)> = Seq::empty();
        let ghost mut keyg: Seq<u8> = Seq::empty();
        proof {
            assert(builder@ =~= acc);
        }
        loop
            invariant
                parser.wf(),
                parser.src() == s0,
                parser.options == *self,
                builder.wf(),
                0 <= parser.consumed() <= s0.len(),
                run(s0, o, parser.consumed(), pstate_of(state), ent_at, acc, cur, keyg)
                    == parse_entities(s0, o),
                state matches ParseState::NextEntity ==> builder@ == acc,
                !(state matches ParseState::NextEntity) ==> builder@ == acc.push(cur) && 0
                    <= ent_at <= s0.len() && entity_start_loc@ == loc_after(s0.take(ent_at)),
                state matches ParseState::NextValue ==> key_scratch@ == keyg,
            decreases s0.len() - parser.consumed(),
        {
            let ghost c = parser.consumed();
            proof {
                lemma_next_sig_bounds(s0, o, c);
            }
            match parser.next_significant_byte() {
                Err(e) => {
                    return Err(e);
                },
                Ok(None) => {
                    match state {
                        ParseState::NextEntity => {
                            return Ok(builder.finish());
                        },
                        _ => {
                            return Err(
                                parse_error(ParseError::UnterminatedEntity(entity_start_loc)),
                            );
                        },
                    }
                },
                Ok(Some((head, token_loc))) => {
                    let ghost at = parser.consumed() - 1;
                    proof {
                        lemma_quoted_rest_variants(s0, o, o.max_key_len, at + 1, 0);
                        lemma_quoted_rest_variants(s0, o, o.max_value_len, at + 1, 0);
                        lemma_unquoted_rest_variants(s0, o, o.max_key_len, at + 1, 1);
                        lemma_unquoted_rest_variants(s0, o, o.max_value_len, at + 1, 1);
                        lemma_quoted_rest_bounds(s0, o, o.max_key_len, at + 1, 0);
                        lemma_quoted_rest_bounds(s0, o, o.max_value_len, at + 1, 0);
                        lemma_unquoted_rest_bounds(s0, o, o.max_key_len, at + 1, 1);
                        lemma_unquoted_rest_bounds(s0, o, o.max_value_len, at + 1, 1);
                    }
                    match state {
                        ParseState::NextEntity => {
                            if head == 123 {
                                entity_start_loc = token_loc;
                                builder.entity();
                                proof {
                                    ent_at = at;
                                    cur = Seq::empty();
                                    keyg = Seq::empty();
                                }
                                state = ParseState::NextKey;
                            } else {
                                return Err(
                                    parse_error(
                                        ParseError::UnexpectedToken(
                                            QEntitiesUnexpectedTokenError::new(
                                                token_kind_of_byte(head),
                                                token_loc,
                                            ),
                                        ),
                                    ),
                                );
                            }
                        },
                        ParseState::NextKey => {
                            if head == 125 {
                                proof {
                                    acc = acc.push(cur);
                                    cur = Seq::empty();
                                    keyg = Seq::empty();
                                }
                                state = ParseState::NextEntity;
                            } else if head == 123 {
                                return Err(
                                    parse_error(
                                        ParseError::UnexpectedToken(
                                            QEntitiesUnexpectedTokenError::new(
                                                QEntitiesTokenKind::OpenBrace,
                                                token_loc,
                                            ),
                                        ),
                                    ),
                                );
                            } else if head == 34 {
                                match parser.parse_quoted_string(
                                    StringSourceKind::Key,
                                    &mut key_scratch,
                                    token_loc,
                                ) {
                                    Ok(()) => {
                                        proof {
                                            keyg = key_scratch@;
                                        }
                                        state = ParseState::NextValue;
                                    },
                                    Err(e) => {
                                        return Err(e);
                                    },
                                }
                            } else {
                                match parser.parse_unquoted_string(
                                    StringSourceKind::Key,
                                    head,
                                    &mut key_scratch,
                                    token_loc,
                                ) {
                                    Ok(()) => {
                                        proof {
                                            keyg = key_scratch@;
                                        }
                                        state = ParseState::NextValue;
                                    },
                                    Err(e) => {
                                        return Err(e);
                                    },
                                }
                            }
                        },
                        ParseState::NextValue => {
                            if head == 123 || head == 125 {
                                return Err(
                                    parse_error(
                                        ParseError::UnexpectedToken(
                                            QEntitiesUnexpectedTokenError::new(
                                                token_kind_of_byte(head),
                                                token_loc,
                                            ),
                                        ),
                                    ),
                                );
                            } else {
                                let scanned: Result<(), QEntitiesParseError> = if head == 34 {
                                    parser.parse_quoted_string(
                                        StringSourceKind::Value,
                                        &mut value_scratch,
                                        token_loc,
                                    )
                                } else {
                                    parser.parse_unquoted_string(
                                        StringSourceKind::Value,
                                        head,
                                        &mut value_scratch,
                                        token_loc,
                                    )
                                };
                                match scanned {
                                    Ok(()) => {
                                        builder.key_value(
                                            key_scratch.as_slice(),
                                            value_scratch.as_slice(),
                                        );
                                        proof {
                                            cur = cur.push((keyg, value_scratch@));
                                            keyg = Seq::empty();
                                            assert(builder@ =~= acc.push(cur));
                                        }
                                        state = ParseState::NextKey;
                                    },
                                    Err(e) => {
                                        return Err(e);
                                    },
                                }
                            }
                        },
                    }
                },
            }
        }
    }
}


} // verus!
