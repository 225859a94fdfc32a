//! Turns source text into tokens.
use vstd::prelude::*;
use crate::text::push_char;
use unicode_properties::UnicodeEmoji;
use unicode_xid::UnicodeXID;

verus! {

/// Doc-comment style of a comment.
#[derive(Clone, Copy, Debug, PartialEq, Eq, Structural)]
pub enum DocStyle {
    Outer,
    Inner,
}

/// The kind of a quoted literal.
#[derive(Clone, Copy, Debug, PartialEq, Eq, Structural)]
pub enum LiteralKind {
    Char { terminated: bool },
    Byte { terminated: bool },
    Str { terminated: bool },
    ByteStr { terminated: bool },
    CStr { terminated: bool },
    RawStr { n_hashes: Option<u8> },
    RawByteStr { n_hashes: Option<u8> },
    RawCStr { n_hashes: Option<u8> },
}

/// A lexical token.
#[derive(Clone, Debug, PartialEq, Eq)]
pub enum Token {
    /// `// comment`
    LineComment { doc_style: Option<DocStyle> },
    /// `/* comment */`
    BlockComment { doc_style: Option<DocStyle>, terminated: bool },
    /// A run of whitespace.
    Whitespace,
    /// An identifier that is not a keyword.
    Identifier { id: String },
    /// An identifier followed directly by an emoji.
    InvalidIdentifier,
    /// `r#ident`
    RawIdentifier,
    /// An unknown literal prefix.
    UnknownPrefix,
    /// A run of decimal digits.
    Number { number: String },
    /// A string literal; `string` holds the text between the quotes.
    StrLiteral { string: String, literal_kind: LiteralKind },
    /// A lone quote, read as the start of a lifetime.
    Lifetime { starts_with_number: bool },
    Fn,
    Let,
    If,
    Else,
    Pub,
    /// `->`
    RightArrow,
    /// `==`
    EqEq,
    /// `!=`
    NotEq,
    /// `<=`
    LtEq,
    /// `>=`
    GtEq,
    /// `<<`
    ShiftLeft,
    /// `>>`
    ShiftRight,
    /// `&&`
    AndAnd,
    /// `||`
    OrOr,
    Semicolon,
    Colon,
    Comma,
    Dot,
    OpenParen,
    CloseParen,
    OpenBrace,
    CloseBrace,
    OpenBracket,
    CloseBracket,
    At,
    Hash,
    Tilde,
    Question,
    Dollar,
    Eq,
    Bang,
    Lt,
    Gt,
    And,
    Or,
    Plus,
    Minus,
    Star,
    Slash,
    Percent,
    Caret,
    /// A character that starts no token.
    Unknown,
    /// End of input.
    Eof,
}

impl Token {
    pub fn new(token: Token) -> (r: Token)
        ensures
            r == token,
    {
        token
    }
}

/// What a token says, with its text as a sequence of characters.
pub ghost enum Lexeme {
    Plain(Token),
    Ident(Seq<char>),
    Num(Seq<char>),
    Str(Seq<char>, bool),
}

pub open spec fn lexeme_of(t: Token) -> Lexeme {
    match t {
        Token::Identifier { id } => Lexeme::Ident(id@),
        Token::Number { number } => Lexeme::Num(number@),
        Token::StrLiteral { string, literal_kind: LiteralKind::Str { terminated } } => Lexeme::Str(
            string@,
            terminated,
        ),
        _ => Lexeme::Plain(t),
    }
}

pub open spec fn lexemes(ts: Seq<Token>) -> Seq<Lexeme> {
    ts.map_values(|t: Token| lexeme_of(t))
}

/// Whether a lexeme is dropped before parsing.
pub open spec fn is_trivia(l: Lexeme) -> bool {
    match l {
        Lexeme::Plain(Token::Whitespace) => true,
        Lexeme::Plain(Token::LineComment { .. }) => true,
        Lexeme::Plain(Token::BlockComment { .. }) => true,
        _ => false,
    }
}

/// The Unicode property XID_Start of a character.
pub uninterp spec fn xid_start(c: char) -> bool;

/// The Unicode property XID_Continue of a character.
pub uninterp spec fn xid_continue(c: char) -> bool;

/// The Unicode property Emoji of a character.
pub uninterp spec fn emoji_char(c: char) -> bool;

pub open spec fn is_ascii_letter(c: char) -> bool {
    ('a' <= c && c <= 'z') || ('A' <= c && c <= 'Z')
}

pub open spec fn is_digit(c: char) -> bool {
    '0' <= c && c <= '9'
}

pub open spec fn is_ascii(c: char) -> bool {
    (c as u32) < 128
}

/// Relies on `UnicodeXID::is_xid_start` of unicode-xid: the XID_Start
/// property, which on ASCII holds of the letters alone.
#[verifier::external_body]
fn xid_start_of(c: char) -> (r: bool)
    ensures
        r == xid_start(c),
        is_ascii(c) ==> (r <==> is_ascii_letter(c)),
{
    UnicodeXID::is_xid_start(c)
}

/// Relies on `UnicodeXID::is_xid_continue` of unicode-xid: the XID_Continue
/// property, which on ASCII holds of letters, digits and `_` alone.
#[verifier::external_body]
fn xid_continue_of(c: char) -> (r: bool)
    ensures
        r == xid_continue(c),
        is_ascii(c) ==> (r <==> (is_ascii_letter(c) || is_digit(c) || c == '_')),
{
    UnicodeXID::is_xid_continue(c)
}

/// Relies on `UnicodeEmoji::is_emoji_char` of unicode-properties: the
/// Emoji property of the character.
#[verifier::external_body]
fn emoji_char_of(c: char) -> (r: bool)
    ensures
        r == emoji_char(c),
{
    UnicodeEmoji::is_emoji_char(c)
}

pub open spec fn spec_is_whitespace(c: char) -> bool {
    c == '\u{0009}' || c == '\u{000A}' || c == '\u{000B}' || c == '\u{000C}' || c == '\u{000D}'
        || c == '\u{0020}' || c == '\u{0085}' || c == '\u{200E}' || c == '\u{200F}' || c
        == '\u{2028}' || c == '\u{2029}'
}

/// `_`, an ASCII letter, or beyond ASCII a character of XID_Start.
pub open spec fn spec_is_id_start(c: char) -> bool {
    c == '_' || if is_ascii(c) {
        is_ascii_letter(c)
    } else {
        xid_start(c)
    }
}

/// An ASCII letter, digit or `_`, or beyond ASCII a character of
/// XID_Continue.
pub open spec fn spec_is_id_continue(c: char) -> bool {
    if is_ascii(c) {
        is_ascii_letter(c) || is_digit(c) || c == '_'
    } else {
        xid_continue(c)
    }
}

/// Returns true if the character is whitespace in the sense of the language.
pub fn is_whitespace(c: char) -> (r: bool)
    ensures
        r == spec_is_whitespace(c),
{
    c == '\u{0009}' || c == '\u{000A}' || c == '\u{000B}' || c == '\u{000C}' || c == '\u{000D}'
        || c == '\u{0020}' || c == '\u{0085}' || c == '\u{200E}' || c == '\u{200F}' || c
        == '\u{2028}' || c == '\u{2029}'
}

/// Returns true if the character may start an identifier.
pub fn is_id_start(c: char) -> (r: bool)
    ensures
        r == spec_is_id_start(c),
{
    c == '_' || xid_start_of(c)
}

/// Returns true if the character may continue an identifier.
pub fn is_id_continue(c: char) -> (r: bool)
    ensures
        r == spec_is_id_continue(c),
{
    xid_continue_of(c)
}


/// The character at `i`, or NUL past either end.
pub open spec fn char_at(cs: Seq<char>, i: int) -> char {
    if 0 <= i < cs.len() {
        cs[i]
    } else {
        '\0'
    }
}

/// A class of characters that a token runs over.
#[derive(Clone, Copy, Debug, PartialEq, Eq, Structural)]
pub enum CharClass {
    Whitespace,
    IdContinue,
    Digit,
    NotNewline,
    NotQuote,
}

pub open spec fn in_class(k: CharClass, c: char) -> bool {
    match k {
        CharClass::Whitespace => spec_is_whitespace(c),
        CharClass::IdContinue => spec_is_id_continue(c),
        CharClass::Digit => is_digit(c),
        CharClass::NotNewline => c != '\n',
        CharClass::NotQuote => c != '"',
    }
}

/// The end of the longest run of characters of class `k` that starts at `i`.
pub open spec fn run_end(cs: Seq<char>, i: int, k: CharClass) -> int
    decreases cs.len() - i,
{
    if i < 0 || i >= cs.len() || !in_class(k, cs[i]) {
        i
    } else {
        run_end(cs, i + 1, k)
    }
}

/// The end of a block comment whose text starts at `j`: just past the first
/// `*/`, or `None` when the input ends first.
pub open spec fn block_end(cs: Seq<char>, j: int) -> Option<int>
    decreases cs.len() - j,
{
    if j < 0 || j + 1 >= cs.len() {
        None
    } else if cs[j] == '*' && cs[j + 1] == '/' {
        Some(j + 2)
    } else {
        block_end(cs, j + 1)
    }
}

pub open spec fn keyword(s: Seq<char>) -> Option<Token> {
    if s.len() == 2 && s[0] == 'f' && s[1] == 'n' {
        Some(Token::Fn)
    } else if s.len() == 3 && s[0] == 'l' && s[1] == 'e' && s[2] == 't' {
        Some(Token::Let)
    } else if s.len() == 2 && s[0] == 'i' && s[1] == 'f' {
        Some(Token::If)
    } else if s.len() == 4 && s[0] == 'e' && s[1] == 'l' && s[2] == 's' && s[3] == 'e' {
        Some(Token::Else)
    } else if s.len() == 3 && s[0] == 'p' && s[1] == 'u' && s[2] == 'b' {
        Some(Token::Pub)
    } else {
        None
    }
}

/// Operators of two characters, which the lexer fuses.
pub open spec fn two_char_token(c: char, d: char) -> Option<Token> {
    if c == '-' && d == '>' {
        Some(Token::RightArrow)
    } else if c == '=' && d == '=' {
        Some(Token::EqEq)
    } else if c == '!' && d == '=' {
        Some(Token::NotEq)
    } else if c == '<' && d == '=' {
        Some(Token::LtEq)
    } else if c == '>' && d == '=' {
        Some(Token::GtEq)
    } else if c == '<' && d == '<' {
        Some(Token::ShiftLeft)
    } else if c == '>' && d == '>' {
        Some(Token::ShiftRight)
    } else if c == '&' && d == '&' {
        Some(Token::AndAnd)
    } else if c == '|' && d == '|' {
        Some(Token::OrOr)
    } else {
        None
    }
}

pub open spec fn one_char_token(c: char) -> Token {
    if c == ';' {
        Token::Semicolon
    } else if c == ':' {
        Token::Colon
    } else if c == ',' {
        Token::Comma
    } else if c == '.' {
        Token::Dot
    } else if c == '(' {
        Token::OpenParen
    } else if c == ')' {
        Token::CloseParen
    } else if c == '{' {
        Token::OpenBrace
    } else if c == '}' {
        Token::CloseBrace
    } else if c == '[' {
        Token::OpenBracket
    } else if c == ']' {
        Token::CloseBracket
    } else if c == '@' {
        Token::At
    } else if c == '#' {
        Token::Hash
    } else if c == '~' {
        Token::Tilde
    } else if c == '?' {
        Token::Question
    } else if c == '$' {
        Token::Dollar
    } else if c == '=' {
        Token::Eq
    } else if c == '!' {
        Token::Bang
    } else if c == '<' {
        Token::Lt
    } else if c == '>' {
        Token::Gt
    } else if c == '&' {
        Token::And
    } else if c == '|' {
        Token::Or
    } else if c == '+' {
        Token::Plus
    } else if c == '-' {
        Token::Minus
    } else if c == '*' {
        Token::Star
    } else if c == '/' {
        Token::Slash
    } else if c == '%' {
        Token::Percent
    } else if c == '^' {
        Token::Caret
    } else if c == '\'' {
        Token::Lifetime { starts_with_number: false }
    } else {
        Token::Unknown
    }
}

/// The token that starts at `i` (with `i` inside the input), and where it ends.
pub open spec fn scan(cs: Seq<char>, i: int) -> (Lexeme, int) {
    let c = cs[i];
    if spec_is_whitespace(c) {
        (Lexeme::Plain(Token::Whitespace), run_end(cs, i + 1, CharClass::Whitespace))
    } else if c == '/' && char_at(cs, i + 1) == '/' {
        (
            Lexeme::Plain(Token::LineComment { doc_style: None }),
            run_end(cs, i + 2, CharClass::NotNewline),
        )
    } else if c == '/' && char_at(cs, i + 1) == '*' {
        match block_end(cs, i + 2) {
            Some(e) => (Lexeme::Plain(Token::BlockComment { doc_style: None, terminated: true }), e),
            None => (
                Lexeme::Plain(Token::BlockComment { doc_style: None, terminated: false }),
                cs.len() as int,
            ),
        }
    } else if c == 'r' && char_at(cs, i + 1) == '#' && i + 2 < cs.len() && spec_is_id_start(
        cs[i + 2],
    ) {
        (Lexeme::Plain(Token::RawIdentifier), run_end(cs, i + 3, CharClass::IdContinue))
    } else if spec_is_id_start(c) {
        let e = run_end(cs, i + 1, CharClass::IdContinue);
        let n = char_at(cs, e);
        if !is_ascii(n) && emoji_char(n) {
            (Lexeme::Plain(Token::InvalidIdentifier), e)
        } else {
            match keyword(cs.subrange(i, e)) {
                Some(t) => (Lexeme::Plain(t), e),
                None => (Lexeme::Ident(cs.subrange(i, e)), e),
            }
        }
    } else if is_digit(c) {
        let e = run_end(cs, i + 1, CharClass::Digit);
        (Lexeme::Num(cs.subrange(i, e)), e)
    } else if c == '"' {
        let k = run_end(cs, i + 1, CharClass::NotQuote);
        if k < cs.len() {
            (Lexeme::Str(cs.subrange(i + 1, k), true), k + 1)
        } else {
            (Lexeme::Str(cs.subrange(i + 1, k), false), k)
        }
    } else {
        match two_char_token(c, char_at(cs, i + 1)) {
            Some(t) => (Lexeme::Plain(t), i + 2),
            None => (Lexeme::Plain(one_char_token(c)), i + 1),
        }
    }
}

/// The tokens of `cs` from `i` on, without whitespace and comments.
pub open spec fn lex_from(cs: Seq<char>, i: int) -> Seq<Lexeme>
    decreases cs.len() - i,
{
    if i < 0 || i >= cs.len() {
        Seq::empty()
    } else {
        let (l, e) = scan(cs, i);
        if e <= i || e > cs.len() {
            Seq::empty()
        } else if is_trivia(l) {
            lex_from(cs, e)
        } else {
            seq![l] + lex_from(cs, e)
        }
    }
}

pub proof fn lemma_run_end_bounds(cs: Seq<char>, i: int, k: CharClass)
    requires
        0 <= i <= cs.len(),
    ensures
        i <= run_end(cs, i, k) <= cs.len(),
        forall|j: int| i <= j < run_end(cs, i, k) ==> in_class(k, #[trigger] cs[j]),
        run_end(cs, i, k) < cs.len() ==> !in_class(k, cs[run_end(cs, i, k)]),
    decreases cs.len() - i,
{
    if i < cs.len() && in_class(k, cs[i]) {
        lemma_run_end_bounds(cs, i + 1, k);
    }
}

pub proof fn lemma_block_end_bounds(cs: Seq<char>, j: int)
    requires
        0 <= j,
    ensures
        block_end(cs, j) matches Some(e) ==> j + 2 <= e <= cs.len(),
    decreases cs.len() - j,
{
    if j + 1 < cs.len() && !(cs[j] == '*' && cs[j + 1] == '/') {
        lemma_block_end_bounds(cs, j + 1);
    }
}

pub proof fn lemma_scan_bounds(cs: Seq<char>, i: int)
    requires
        0 <= i < cs.len(),
    ensures
        i < scan(cs, i).1 <= cs.len(),
{
    lemma_run_end_bounds(cs, i + 1, CharClass::Whitespace);
    lemma_run_end_bounds(cs, i + 1, CharClass::IdContinue);
    lemma_run_end_bounds(cs, i + 1, CharClass::Digit);
    lemma_run_end_bounds(cs, i + 1, CharClass::NotQuote);
    lemma_block_end_bounds(cs, i + 2);
    if char_at(cs, i + 1) == '/' || char_at(cs, i + 1) == '#' {
        lemma_run_end_bounds(cs, i + 2, CharClass::NotNewline);
    }
    if i + 2 < cs.len() {
        lemma_run_end_bounds(cs, i + 3, CharClass::IdContinue);
    }
}

/// A cursor over the characters of the source text.
pub struct Cursor {
    chars: Vec<char>,
    pos: usize,
}

impl Cursor {
    pub closed spec fn spec_chars(&self) -> Seq<char> {
        self.chars@
    }

    pub closed spec fn spec_pos(&self) -> int {
        self.pos as int
    }

    pub closed spec fn wf(&self) -> bool {
        self.pos <= self.chars.len()
    }

    /// A cursor at the start of `input`.
    pub fn new(input: &str) -> (r: Cursor)
        ensures
            r.wf(),
            r.spec_chars() == input@,
            r.spec_pos() == 0,
    {
        let n = input.unicode_len();
        let mut chars: Vec<char> = Vec::new();
        let mut i: usize = 0;
        while i < n
            invariant
                n == input@.len(),
                i <= n,
                chars@ == input@.subrange(0, i as int),
            decreases n - i,
        {
            chars.push(input.get_char(i));
            i = i + 1;
            assert(chars@ =~= input@.subrange(0, i as int));
        }
        assert(chars@ =~= input@);
        Cursor { chars, pos: 0 }
    }

    /// The character at `i`, or NUL past the end.
    fn char_at(&self, i: usize) -> (r: char)
        ensures
            r == char_at(self.chars@, i as int),
    {
        if i < self.chars.len() {
            self.chars[i]
        } else {
            '\0'
        }
    }

    /// The character under the cursor, or NUL at the end of the input.
    pub fn first(&self) -> (r: char)
        requires
            self.wf(),
        ensures
            r == char_at(self.spec_chars(), self.spec_pos()),
    {
        self.char_at(self.pos)
    }

    /// Whether a character is of class `k`.
    fn in_class(c: char, k: CharClass) -> (r: bool)
        ensures
            r == in_class(k, c),
    {
        match k {
            CharClass::Whitespace => is_whitespace(c),
            CharClass::IdContinue => is_id_continue(c),
            CharClass::Digit => '0' <= c && c <= '9',
            CharClass::NotNewline => c != '\n',
            CharClass::NotQuote => c != '"',
        }
    }

    /// The end of the run of class `k` that starts at `i`.
    fn run_end(&self, i: usize, k: CharClass) -> (r: usize)
        requires
            i <= self.chars.len(),
        ensures
            r == run_end(self.chars@, i as int, k),
            i <= r <= self.chars.len(),
    {
        proof {
            lemma_run_end_bounds(self.chars@, i as int, k);
        }
        let mut j = i;
        while j < self.chars.len() && Self::in_class(self.chars[j], k)
            invariant
                i <= j <= self.chars.len(),
                run_end(self.chars@, j as int, k) == run_end(self.chars@, i as int, k),
            decreases self.chars.len() - j,
        {
            j = j + 1;
        }
        j
    }

    /// The end of a block comment whose text starts at `j`.
    fn block_end(&self, j: usize) -> (r: Option<usize>)
        requires
            j <= self.chars.len(),
        ensures
            r matches Some(e) ==> block_end(self.chars@, j as int) == Some(e as int),
            r is None ==> block_end(self.chars@, j as int) is None,
    {
        let mut k = j;
        while k < self.chars.len() && k + 1 < self.chars.len()
            invariant
                j <= k <= self.chars.len(),
                block_end(self.chars@, k as int) == block_end(self.chars@, j as int),
            decreases self.chars.len() - k,
        {
            if self.chars[k] == '*' && self.chars[k + 1] == '/' {
                return Some(k + 2);
            }
            k = k + 1;
        }
        None
    }

    /// The characters from `from` to `to` as a string.
    fn text(&self, from: usize, to: usize) -> (r: String)
        requires
            from <= to <= self.chars.len(),
        ensures
            r@ == self.chars@.subrange(from as int, to as int),
    {
        let mut s = String::new();
        let mut i = from;
        while i < to
            invariant
                from <= i <= to <= self.chars.len(),
                s@ == self.chars@.subrange(from as int, i as int),
            decreases to - i,
        {
            push_char(&mut s, self.chars[i]);
            i = i + 1;
            assert(s@ =~= self.chars@.subrange(from as int, i as int));
        }
        s
    }

    fn keyword(&self, from: usize, to: usize) -> (r: Option<Token>)
        requires
            from <= to <= self.chars.len(),
        ensures
            r == keyword(self.chars@.subrange(from as int, to as int)),
    {
        let n = to - from;
        let c = &self.chars;
        if n == 2 && c[from] == 'f' && c[from + 1] == 'n' {
            Some(Token::Fn)
        } else if n == 3 && c[from] == 'l' && c[from + 1] == 'e' && c[from + 2] == 't' {
            Some(Token::Let)
        } else if n == 2 && c[from] == 'i' && c[from + 1] == 'f' {
            Some(Token::If)
        } else if n == 4 && c[from] == 'e' && c[from + 1] == 'l' && c[from + 2] == 's' && c[from
            + 3] == 'e' {
            Some(Token::Else)
        } else if n == 3 && c[from] == 'p' && c[from + 1] == 'u' && c[from + 2] == 'b' {
            Some(Token::Pub)
        } else {
            None
        }
    }
}

impl Cursor {
    /// Reads the token under the cursor and moves past it.
    pub fn lex(&mut self) -> (r: Token)
        requires
            old(self).wf(),
        ensures
            final(self).wf(),
            final(self).spec_chars() == old(self).spec_chars(),
            old(self).spec_pos() >= old(self).spec_chars().len() ==> r == Token::Eof
                && final(self).spec_pos() == old(self).spec_pos(),
            old(self).spec_pos() < old(self).spec_chars().len() ==> (
            lexeme_of(r),
            final(self).spec_pos(),
            ) == scan(old(self).spec_chars(), old(self).spec_pos()),
    {
        if self.pos >= self.chars.len() {
            return Token::Eof;
        }
        let i = self.pos;
        let c = self.chars[i];
        let ghost cs = self.chars@;
        proof {
            lemma_scan_bounds(cs, i as int);
        }
        let next = self.char_at(i + 1);
        let (tok, end) = if is_whitespace(c) {
            (Token::Whitespace, self.run_end(i + 1, CharClass::Whitespace))
        } else if c == '/' && next == '/' {
            (Token::LineComment { doc_style: None }, self.run_end(i + 2, CharClass::NotNewline))
        } else if c == '/' && next == '*' {
            match self.block_end(i + 2) {
                Some(e) => (Token::BlockComment { doc_style: None, terminated: true }, e),
                None => (
                    Token::BlockComment { doc_style: None, terminated: false },
                    self.chars.len(),
                ),
            }
        } else if c == 'r' && next == '#' && i + 2 < self.chars.len() && is_id_start(
            self.chars[i + 2],
        ) {
            (Token::RawIdentifier, self.run_end(i + 3, CharClass::IdContinue))
        } else if is_id_start(c) {
            let e = self.run_end(i + 1, CharClass::IdContinue);
            let n = self.char_at(e);
            if !((n as u32) < 128) && emoji_char_of(n) {
                (Token::InvalidIdentifier, e)
            } else {
                match self.keyword(i, e) {
                    Some(t) => (t, e),
                    None => (Token::Identifier { id: self.text(i, e) }, e),
                }
            }
        } else if '0' <= c && c <= '9' {
            let e = self.run_end(i + 1, CharClass::Digit);
            (Token::Number { number: self.text(i, e) }, e)
        } else if c == '"' {
            let k = self.run_end(i + 1, CharClass::NotQuote);
            if k < self.chars.len() {
                (
                    Token::StrLiteral {
                        string: self.text(i + 1, k),
                        literal_kind: LiteralKind::Str { terminated: true },
                    },
                    k + 1,
                )
            } else {
                (
                    Token::StrLiteral {
                        string: self.text(i + 1, k),
                        literal_kind: LiteralKind::Str { terminated: false },
                    },
                    k,
                )
            }
        } else {
            match two_char(c, next) {
                Some(t) => (t, i + 2),
                None => (one_char(c), i + 1),
            }
        };
        self.pos = end;
        tok
    }
}

fn two_char(c: char, d: char) -> (r: Option<Token>)
    ensures
        r == two_char_token(c, d),
{
    if c == '-' && d == '>' {
        Some(Token::RightArrow)
    } else if c == '=' && d == '=' {
        Some(Token::EqEq)
    } else if c == '!' && d == '=' {
        Some(Token::NotEq)
    } else if c == '<' && d == '=' {
        Some(Token::LtEq)
    } else if c == '>' && d == '=' {
        Some(Token::GtEq)
    } else if c == '<' && d == '<' {
        Some(Token::ShiftLeft)
    } else if c == '>' && d == '>' {
        Some(Token::ShiftRight)
    } else if c == '&' && d == '&' {
        Some(Token::AndAnd)
    } else if c == '|' && d == '|' {
        Some(Token::OrOr)
    } else {
        None
    }
}

fn one_char(c: char) -> (r: Token)
    ensures
        r == one_char_token(c),
{
    match c {
        ';' => Token::Semicolon,
        ':' => Token::Colon,
        ',' => Token::Comma,
        '.' => Token::Dot,
        '(' => Token::OpenParen,
        ')' => Token::CloseParen,
        '{' => Token::OpenBrace,
        '}' => Token::CloseBrace,
        '[' => Token::OpenBracket,
        ']' => Token::CloseBracket,
        '@' => Token::At,
        '#' => Token::Hash,
        '~' => Token::Tilde,
        '?' => Token::Question,
        '$' => Token::Dollar,
        '=' => Token::Eq,
        '!' => Token::Bang,
        '<' => Token::Lt,
        '>' => Token::Gt,
        '&' => Token::And,
        '|' => Token::Or,
        '+' => Token::Plus,
        '-' => Token::Minus,
        '*' => Token::Star,
        '/' => Token::Slash,
        '%' => Token::Percent,
        '^' => Token::Caret,
        '\'' => Token::Lifetime { starts_with_number: false },
        _ => Token::Unknown,
    }
}

/// Splits the source text into tokens, dropping whitespace and comments.
pub fn tokenize(input: &str) -> (r: Vec<Token>)
    ensures
        lexemes(r@) == lex_from(input@, 0),
{
    let mut cursor = Cursor::new(input);
    let mut tokens: Vec<Token> = Vec::new();
    loop
        invariant
            cursor.wf(),
            cursor.spec_chars() == input@,
            lex_from(input@, 0) == lexemes(tokens@) + lex_from(
                input@,
                cursor.spec_pos(),
            ),
        decreases input@.len() - cursor.spec_pos(),
    {
        let ghost p = cursor.spec_pos();
        let at_end = cursor.pos >= cursor.chars.len();
        let token = cursor.lex();
        if at_end {
            assert(lex_from(input@, p) =~= Seq::empty());
            assert(lexemes(tokens@) + lex_from(input@, p) =~= lexemes(tokens@));
            assert(lexemes(tokens@) == lex_from(input@, 0));
            return tokens;
        }
        proof {
            lemma_scan_bounds(input@, p);
        }
        let keep = match token {
            Token::Whitespace => false,
            Token::LineComment { .. } => false,
            Token::BlockComment { .. } => false,
            _ => true,
        };
        let ghost before = tokens@;
        if keep {
            tokens.push(token);
            assert(lexemes(tokens@) =~= lexemes(before).push(lexeme_of(tokens@.last())));
        }
    }
}

} // verus!
