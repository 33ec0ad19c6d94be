//! Lexical analysis: turns raw source text into an ordered sequence of tokens
//! with line/column metadata, reporting unrecognized characters and oversized
//! integer literals as diagnostics instead of failing.

use vstd::prelude::*;

verus! {

/// The kind of a token. Compound operators (`==`, `!=`, `<=`, `>=`, `&&`,
/// `||`) are scanned with maximal munch and form single tokens.
#[derive(Debug)]
pub enum TokenType {
    Variable(String),
    Int(i32),
    Plus,
    Minus,
    Multiply,
    Divide,
    Modulo,
    Pow,
    LParen,
    RParen,
    LBrace,
    RBrace,
    Semicolon,
    Equal,
    DoubleEqual,
    NotEqual,
    GreaterThan,
    GreaterThanOrEqual,
    LessThan,
    LessThanOrEqual,
    Not,
    And,
    Or,
    TrueKeyword,
    FalseKeyword,
    IfKeyword,
    ElseKeyword,
    WhileKeyword,
    LetKeyword,
    PrintKeyword,
}

/// A token together with the position of its first character. Lines and
/// columns both start at zero; the column counts characters since the last
/// newline.
pub struct Token {
    pub token_type: TokenType,
    pub line: usize,
    pub column: usize,
}

impl Clone for TokenType {
    fn clone(&self) -> (r: Self)
        ensures
            r == *self,
    {
        match self {
            TokenType::Variable(s) => TokenType::Variable(s.clone()),
            TokenType::Int(i) => TokenType::Int(*i),
            TokenType::Plus => TokenType::Plus,
            TokenType::Minus => TokenType::Minus,
            TokenType::Multiply => TokenType::Multiply,
            TokenType::Divide => TokenType::Divide,
            TokenType::Modulo => TokenType::Modulo,
            TokenType::Pow => TokenType::Pow,
            TokenType::LParen => TokenType::LParen,
            TokenType::RParen => TokenType::RParen,
            TokenType::LBrace => TokenType::LBrace,
            TokenType::RBrace => TokenType::RBrace,
            TokenType::Semicolon => TokenType::Semicolon,
            TokenType::Equal => TokenType::Equal,
            TokenType::DoubleEqual => TokenType::DoubleEqual,
            TokenType::NotEqual => TokenType::NotEqual,
            TokenType::GreaterThan => TokenType::GreaterThan,
            TokenType::GreaterThanOrEqual => TokenType::GreaterThanOrEqual,
            TokenType::LessThan => TokenType::LessThan,
            TokenType::LessThanOrEqual => TokenType::LessThanOrEqual,
            TokenType::Not => TokenType::Not,
            TokenType::And => TokenType::And,
            TokenType::Or => TokenType::Or,
            TokenType::TrueKeyword => TokenType::TrueKeyword,
            TokenType::FalseKeyword => TokenType::FalseKeyword,
            TokenType::IfKeyword => TokenType::IfKeyword,
            TokenType::ElseKeyword => TokenType::ElseKeyword,
            TokenType::WhileKeyword => TokenType::WhileKeyword,
            TokenType::LetKeyword => TokenType::LetKeyword,
            TokenType::PrintKeyword => TokenType::PrintKeyword,
        }
    }
}

impl Clone for Token {
    fn clone(&self) -> (r: Self)
        ensures
            r == *self,
    {
        Token { token_type: self.token_type.clone(), line: self.line, column: self.column }
    }
}

/// A recoverable lexical diagnostic: the lexer reports it and scans on.
pub enum LexDiagnostic {
    /// A character that belongs to no token of the language.
    UnrecognizedCharacter { character: char, line: usize, column: usize },
    /// A run of digits whose value does not fit in a signed 32-bit integer.
    IntegerTooLarge { line: usize, column: usize },
}

/// Mathematical model of a `TokenType`.
pub enum SpecTokenKind {
    Variable(Seq<char>),
    Int(i32),
    Plus,
    Minus,
    Multiply,
    Divide,
    Modulo,
    Pow,
    LParen,
    RParen,
    LBrace,
    RBrace,
    Semicolon,
    Equal,
    DoubleEqual,
    NotEqual,
    GreaterThan,
    GreaterThanOrEqual,
    LessThan,
    LessThanOrEqual,
    Not,
    And,
    Or,
    TrueKeyword,
    FalseKeyword,
    IfKeyword,
    ElseKeyword,
    WhileKeyword,
    LetKeyword,
    PrintKeyword,
}

/// Mathematical model of a `Token`.
pub struct SpecToken {
    pub kind: SpecTokenKind,
    pub line: nat,
    pub column: nat,
}

/// Mathematical model of a `LexDiagnostic`.
pub enum SpecLexDiag {
    UnrecognizedCharacter { character: char, line: nat, column: nat },
    IntegerTooLarge { line: nat, column: nat },
}

pub open spec fn token_type_view(t: TokenType) -> SpecTokenKind {
    match t {
        TokenType::Variable(s) => SpecTokenKind::Variable(s@),
        TokenType::Int(i) => SpecTokenKind::Int(i),
        TokenType::Plus => SpecTokenKind::Plus,
        TokenType::Minus => SpecTokenKind::Minus,
        TokenType::Multiply => SpecTokenKind::Multiply,
        TokenType::Divide => SpecTokenKind::Divide,
        TokenType::Modulo => SpecTokenKind::Modulo,
        TokenType::Pow => SpecTokenKind::Pow,
        TokenType::LParen => SpecTokenKind::LParen,
        TokenType::RParen => SpecTokenKind::RParen,
        TokenType::LBrace => SpecTokenKind::LBrace,
        TokenType::RBrace => SpecTokenKind::RBrace,
        TokenType::Semicolon => SpecTokenKind::Semicolon,
        TokenType::Equal => SpecTokenKind::Equal,
        TokenType::DoubleEqual => SpecTokenKind::DoubleEqual,
        TokenType::NotEqual => SpecTokenKind::NotEqual,
        TokenType::GreaterThan => SpecTokenKind::GreaterThan,
        TokenType::GreaterThanOrEqual => SpecTokenKind::GreaterThanOrEqual,
        TokenType::LessThan => SpecTokenKind::LessThan,
        TokenType::LessThanOrEqual => SpecTokenKind::LessThanOrEqual,
        TokenType::Not => SpecTokenKind::Not,
        TokenType::And => SpecTokenKind::And,
        TokenType::Or => SpecTokenKind::Or,
        TokenType::TrueKeyword => SpecTokenKind::TrueKeyword,
        TokenType::FalseKeyword => SpecTokenKind::FalseKeyword,
        TokenType::IfKeyword => SpecTokenKind::IfKeyword,
        TokenType::ElseKeyword => SpecTokenKind::ElseKeyword,
        TokenType::WhileKeyword => SpecTokenKind::WhileKeyword,
        TokenType::LetKeyword => SpecTokenKind::LetKeyword,
        TokenType::PrintKeyword => SpecTokenKind::PrintKeyword,
    }
}

pub open spec fn token_view(t: Token) -> SpecToken {
    SpecToken { kind: token_type_view(t.token_type), line: t.line as nat, column: t.column as nat }
}

pub open spec fn tokens_view(ts: Seq<Token>) -> Seq<SpecToken> {
    Seq::new(ts.len(), |i: int| token_view(ts[i]))
}

pub open spec fn diag_view(d: LexDiagnostic) -> SpecLexDiag {
    match d {
        LexDiagnostic::UnrecognizedCharacter { character, line, column } =>
            SpecLexDiag::UnrecognizedCharacter {
                character,
                line: line as nat,
                column: column as nat,
            },
        LexDiagnostic::IntegerTooLarge { line, column } => SpecLexDiag::IntegerTooLarge {
            line: line as nat,
            column: column as nat,
        },
    }
}

pub open spec fn diags_view(ds: Seq<LexDiagnostic>) -> Seq<SpecLexDiag> {
    Seq::new(ds.len(), |i: int| diag_view(ds[i]))
}

/// Characters that may form a word: letters, digits and underscores. A word
/// is flushed as an integer literal, keyword or identifier token.
pub open spec fn is_word_char(c: char) -> bool {
    ||| ('a' as u32) <= (c as u32) && (c as u32) <= ('z' as u32)
    ||| ('A' as u32) <= (c as u32) && (c as u32) <= ('Z' as u32)
    ||| is_digit_char(c)
    ||| c == '_'
}

pub open spec fn is_digit_char(c: char) -> bool {
    ('0' as u32) <= (c as u32) && (c as u32) <= ('9' as u32)
}

pub open spec fn digit_val(c: char) -> int {
    (c as u32) as int - ('0' as u32) as int
}

/// The index just past the run of word characters that starts at `i`.
pub open spec fn word_end(s: Seq<char>, i: int) -> int
    decreases s.len() - i,
{
    if 0 <= i < s.len() && is_word_char(s[i]) {
        word_end(s, i + 1)
    } else {
        i
    }
}

/// `word_end` is the unique cut obeying its three characteristic properties.
proof fn lemma_word_end_unique(s: Seq<char>, i: int, j: int)
    requires
        0 <= i <= j <= s.len(),
        forall|k: int| i <= k < j ==> is_word_char(s[k]),
        j < s.len() ==> !is_word_char(s[j]),
    ensures
        word_end(s, i) == j,
    decreases j - i,
{
    if i < j {
        assert(is_word_char(s[i]));
        lemma_word_end_unique(s, i + 1, j);
    }
}

pub open spec fn all_digits(w: Seq<char>) -> bool {
    forall|k: int| 0 <= k < w.len() ==> is_digit_char(w[k])
}

/// The decimal value of a digit run.
pub open spec fn digits_val(w: Seq<char>) -> int
    decreases w.len(),
{
    if w.len() == 0 {
        0
    } else {
        digits_val(w.drop_last()) * 10 + digit_val(w.last())
    }
}

/// A digit run whose value does not fit in `i32` yields a diagnostic, not a
/// token.
pub open spec fn word_overflows(w: Seq<char>) -> bool {
    all_digits(w) && digits_val(w) > i32::MAX as int
}

/// Classification of a flushed word: all digits make an integer literal;
/// otherwise the reserved words make keyword tokens and anything else is an
/// identifier.
pub open spec fn word_token_kind(w: Seq<char>) -> SpecTokenKind {
    if all_digits(w) {
        SpecTokenKind::Int(digits_val(w) as i32)
    } else if w == "if"@ {
        SpecTokenKind::IfKeyword
    } else if w == "else"@ {
        SpecTokenKind::ElseKeyword
    } else if w == "while"@ {
        SpecTokenKind::WhileKeyword
    } else if w == "let"@ {
        SpecTokenKind::LetKeyword
    } else if w == "print"@ {
        SpecTokenKind::PrintKeyword
    } else if w == "true"@ {
        SpecTokenKind::TrueKeyword
    } else if w == "false"@ {
        SpecTokenKind::FalseKeyword
    } else {
        SpecTokenKind::Variable(w)
    }
}

/// Two-character operators, recognized before single-character ones
/// (maximal munch).
pub open spec fn compound_kind(c: char, d: char) -> Option<SpecTokenKind> {
    if c == '=' && d == '=' {
        Some(SpecTokenKind::DoubleEqual)
    } else if c == '!' && d == '=' {
        Some(SpecTokenKind::NotEqual)
    } else if c == '<' && d == '=' {
        Some(SpecTokenKind::LessThanOrEqual)
    } else if c == '>' && d == '=' {
        Some(SpecTokenKind::GreaterThanOrEqual)
    } else if c == '&' && d == '&' {
        Some(SpecTokenKind::And)
    } else if c == '|' && d == '|' {
        Some(SpecTokenKind::Or)
    } else {
        None
    }
}

pub open spec fn single_kind(c: char) -> Option<SpecTokenKind> {
    match c {
        '+' => Some(SpecTokenKind::Plus),
        '-' => Some(SpecTokenKind::Minus),
        '*' => Some(SpecTokenKind::Multiply),
        '/' => Some(SpecTokenKind::Divide),
        '%' => Some(SpecTokenKind::Modulo),
        '^' => Some(SpecTokenKind::Pow),
        '(' => Some(SpecTokenKind::LParen),
        ')' => Some(SpecTokenKind::RParen),
        '{' => Some(SpecTokenKind::LBrace),
        '}' => Some(SpecTokenKind::RBrace),
        ';' => Some(SpecTokenKind::Semicolon),
        '=' => Some(SpecTokenKind::Equal),
        '>' => Some(SpecTokenKind::GreaterThan),
        '<' => Some(SpecTokenKind::LessThan),
        '!' => Some(SpecTokenKind::Not),
        _ => None,
    }
}

/// One left-to-right scan of the suffix of `s` that starts at `i`, with the
/// scanner at line `line` and column `col`. Returns the tokens and the
/// diagnostics of that suffix, in source order.
pub open spec fn spec_lex(s: Seq<char>, i: int, line: nat, col: nat) -> (Seq<SpecToken>, Seq<
    SpecLexDiag,
>)
    decreases s.len() - i,
{
    if i < 0 || i >= s.len() {
        (Seq::empty(), Seq::empty())
    } else {
        let c = s[i];
        if is_word_char(c) {
            let j = word_end(s, i);
            // a word starts here, so the run is non-empty and in bounds
            if i < j <= s.len() {
                let w = s.subrange(i, j);
                let rest = spec_lex(s, j, line, (col + (j - i)) as nat);
                if word_overflows(w) {
                    (
                        rest.0,
                        seq![SpecLexDiag::IntegerTooLarge { line, column: col }] + rest.1,
                    )
                } else {
                    (
                        seq![SpecToken { kind: word_token_kind(w), line, column: col }] + rest.0,
                        rest.1,
                    )
                }
            } else {
                (Seq::empty(), Seq::empty())
            }
        } else if c == '\n' {
            spec_lex(s, i + 1, line + 1, 0)
        } else if c == ' ' || c == '\r' {
            spec_lex(s, i + 1, line, col + 1)
        } else if i + 1 < s.len() && compound_kind(c, s[i + 1]) is Some {
            let rest = spec_lex(s, i + 2, line, col + 2);
            (
                seq![
                    SpecToken { kind: compound_kind(c, s[i + 1])->Some_0, line, column: col },
                ] + rest.0,
                rest.1,
            )
        } else if single_kind(c) is Some {
            let rest = spec_lex(s, i + 1, line, col + 1);
            (
                seq![SpecToken { kind: single_kind(c)->Some_0, line, column: col }] + rest.0,
                rest.1,
            )
        } else {
            let rest = spec_lex(s, i + 1, line, col + 1);
            (
                rest.0,
                seq![SpecLexDiag::UnrecognizedCharacter { character: c, line, column: col }]
                    + rest.1,
            )
        }
    }
}

/// The tokens and diagnostics of a whole source text.
pub open spec fn spec_tokenize(s: Seq<char>) -> (Seq<SpecToken>, Seq<SpecLexDiag>) {
    spec_lex(s, 0, 0, 0)
}

proof fn lemma_digits_val_nonneg(w: Seq<char>)
    requires
        all_digits(w),
    ensures
        digits_val(w) >= 0,
    decreases w.len(),
{
    if w.len() > 0 {
        assert(all_digits(w.drop_last()));
        lemma_digits_val_nonneg(w.drop_last());
    }
}

proof fn lemma_tokens_view_push(ts: Seq<Token>, t: Token)
    ensures
        tokens_view(ts.push(t)) =~= tokens_view(ts) + seq![token_view(t)],
{
}

proof fn lemma_diags_view_push(ds: Seq<LexDiagnostic>, d: LexDiagnostic)
    ensures
        diags_view(ds.push(d)) =~= diags_view(ds) + seq![diag_view(d)],
{
}

fn word_char(c: char) -> (b: bool)
    ensures
        b == is_word_char(c),
{
    let u = c as u32;
    (('a' as u32) <= u && u <= ('z' as u32)) || (('A' as u32) <= u && u <= ('Z' as u32))
        || (('0' as u32) <= u && u <= ('9' as u32)) || u == ('_' as u32)
}

fn digit_char(c: char) -> (b: bool)
    ensures
        b == is_digit_char(c),
{
    let u = c as u32;
    ('0' as u32) <= u && u <= ('9' as u32)
}

fn str_eq(a: &str, b: &str) -> (r: bool)
    ensures
        r == (a@ == b@),
{
    let x: String = a.to_owned();
    let y: String = b.to_owned();
    x == y
}

fn compound_token(c: char, d: char) -> (r: Option<TokenType>)
    ensures
        match r {
            Some(t) => compound_kind(c, d) == Some(token_type_view(t)),
            None => compound_kind(c, d) is None,
        },
{
    if c == '=' && d == '=' {
        Some(TokenType::DoubleEqual)
    } else if c == '!' && d == '=' {
        Some(TokenType::NotEqual)
    } else if c == '<' && d == '=' {
        Some(TokenType::LessThanOrEqual)
    } else if c == '>' && d == '=' {
        Some(TokenType::GreaterThanOrEqual)
    } else if c == '&' && d == '&' {
        Some(TokenType::And)
    } else if c == '|' && d == '|' {
        Some(TokenType::Or)
    } else {
        None
    }
}

fn single_token(c: char) -> (r: Option<TokenType>)
    ensures
        match r {
            Some(t) => single_kind(c) == Some(token_type_view(t)),
            None => single_kind(c) is None,
        },
{
    match c {
        '+' => Some(TokenType::Plus),
        '-' => Some(TokenType::Minus),
        '*' => Some(TokenType::Multiply),
        '/' => Some(TokenType::Divide),
        '%' => Some(TokenType::Modulo),
        '^' => Some(TokenType::Pow),
        '(' => Some(TokenType::LParen),
        ')' => Some(TokenType::RParen),
        '{' => Some(TokenType::LBrace),
        '}' => Some(TokenType::RBrace),
        ';' => Some(TokenType::Semicolon),
        '=' => Some(TokenType::Equal),
        '>' => Some(TokenType::GreaterThan),
        '<' => Some(TokenType::LessThan),
        '!' => Some(TokenType::Not),
        _ => None,
    }
}

fn keyword_or_variable(w: &str) -> (t: TokenType)
    requires
        !all_digits(w@),
    ensures
        token_type_view(t) == word_token_kind(w@),
{
    if str_eq(w, "if") {
        TokenType::IfKeyword
    } else if str_eq(w, "else") {
        TokenType::ElseKeyword
    } else if str_eq(w, "while") {
        TokenType::WhileKeyword
    } else if str_eq(w, "let") {
        TokenType::LetKeyword
    } else if str_eq(w, "print") {
        TokenType::PrintKeyword
    } else if str_eq(w, "true") {
        TokenType::TrueKeyword
    } else if str_eq(w, "false") {
        TokenType::FalseKeyword
    } else {
        TokenType::Variable(w.to_owned())
    }
}

/// Scans the source once, left to right, with maximal munch: words are
/// flushed as integer literals, keywords or identifiers, two-character
/// operators are recognized before single-character ones, whitespace
/// separates tokens, and anything else becomes a diagnostic.
pub fn tokenize(source: &str) -> (r: (Vec<Token>, Vec<LexDiagnostic>))
    ensures
        tokens_view(r.0@) == spec_tokenize(source@).0,
        diags_view(r.1@) == spec_tokenize(source@).1,
{
    let s_len: usize = source.unicode_len();
    let mut tokens: Vec<Token> = Vec::new();
    let mut diags: Vec<LexDiagnostic> = Vec::new();
    let mut i: usize = 0;
    let mut line: usize = 0;
    let mut col: usize = 0;
    while i < s_len
        invariant
            s_len == source@.len(),
            i <= s_len,
            line <= i,
            col <= i,
            spec_tokenize(source@).0 =~= tokens_view(tokens@) + spec_lex(
                source@,
                i as int,
                line as nat,
                col as nat,
            ).0,
            spec_tokenize(source@).1 =~= diags_view(diags@) + spec_lex(
                source@,
                i as int,
                line as nat,
                col as nat,
            ).1,
        decreases s_len - i,
    {
        let ghost s = source@;
        let ghost toks0 = tokens@;
        let ghost diags0 = diags@;
        let ghost line0 = line as nat;
        let ghost col0 = col as nat;
        let c = source.get_char(i);
        if word_char(c) {
            let mut j: usize = i + 1;
            let mut all_dig: bool = digit_char(c);
            let mut val: u64 = if all_dig {
                (c as u32 - '0' as u32) as u64
            } else {
                0
            };
            let mut too_large: bool = false;
            proof {
                let w1 = s.subrange(i as int, j as int);
                assert(w1 =~= seq![s[i as int]]);
                assert(w1.drop_last() =~= Seq::<char>::empty());
                assert(digits_val(Seq::<char>::empty()) == 0);
                assert(digits_val(w1) == digit_val(s[i as int]));
                assert forall|k: int| 0 <= k < w1.len() implies w1[k] == s[i as int] by {}
                assert(all_digits(w1) == is_digit_char(s[i as int]));
            }
            while j < s_len && word_char(source.get_char(j))
                invariant
                    s == source@,
                    s_len == s.len(),
                    i < j <= s_len,
                    forall|k: int| i <= k < j ==> is_word_char(s[k]),
                    all_dig == all_digits(s.subrange(i as int, j as int)),
                    all_dig && !too_large ==> val == digits_val(s.subrange(i as int, j as int))
                        && val <= i32::MAX as u64,
                    all_dig && too_large ==> digits_val(s.subrange(i as int, j as int))
                        > i32::MAX as int,
                decreases s_len - j,
            {
                let c2 = source.get_char(j);
                proof {
                    let pre = s.subrange(i as int, j as int);
                    let post = s.subrange(i as int, j as int + 1);
                    assert(post.drop_last() =~= pre);
                    assert(post.last() == s[j as int]);
                    if all_dig {
                        lemma_digits_val_nonneg(pre);
                    }
                }
                if digit_char(c2) {
                    if all_dig && !too_large {
                        let d: u64 = (c2 as u32 - '0' as u32) as u64;
                        let grown: u64 = val * 10 + d;
                        if grown > 2147483647 {
                            too_large = true;
                        } else {
                            val = grown;
                        }
                    }
                } else {
                    all_dig = false;
                }
                proof {
                    let pre = s.subrange(i as int, j as int);
                    let post = s.subrange(i as int, j as int + 1);
                    assert(all_digits(post) == (all_digits(pre) && is_digit_char(s[j as int])));
                }
                j += 1;
            }
            proof {
                lemma_word_end_unique(s, i as int, j as int);
            }
            let ghost w = s.subrange(i as int, j as int);
            if all_dig {
                if too_large {
                    diags.push(LexDiagnostic::IntegerTooLarge { line, column: col });
                } else {
                    tokens.push(
                        Token { token_type: TokenType::Int(val as i32), line, column: col },
                    );
                }
            } else {
                let word = source.substring_char(i, j);
                let token_type = keyword_or_variable(word);
                tokens.push(Token { token_type, line, column: col });
            }
            proof {
                let rest = spec_lex(s, j as int, line0, (col0 + (j - i)) as nat);
                if all_dig && too_large {
                    lemma_diags_view_push(
                        diags0,
                        LexDiagnostic::IntegerTooLarge { line, column: col },
                    );
                    assert((diags_view(diags0) + seq![
                        SpecLexDiag::IntegerTooLarge { line: line0, column: col0 },
                    ]) + rest.1 =~= diags_view(diags0) + (seq![
                        SpecLexDiag::IntegerTooLarge { line: line0, column: col0 },
                    ] + rest.1));
                } else {
                    let t = SpecToken { kind: word_token_kind(w), line: line0, column: col0 };
                    lemma_tokens_view_push(toks0, tokens@.last());
                    assert(token_view(tokens@.last()) == t);
                    assert((tokens_view(toks0) + seq![t]) + rest.0 =~= tokens_view(toks0) + (
                    seq![t] + rest.0));
                }
            }
            col = col + (j - i);
            i = j;
        } else if c == '\n' {
            line += 1;
            col = 0;
            i += 1;
        } else if c == ' ' || c == '\r' {
            col += 1;
            i += 1;
        } else {
            let mut compound: Option<TokenType> = None;
            if i + 1 < s_len {
                compound = compound_token(c, source.get_char(i + 1));
            }
            match compound {
                Some(token_type) => {
                    tokens.push(Token { token_type, line, column: col });
                    proof {
                        let t = SpecToken {
                            kind: compound_kind(s[i as int], s[i as int + 1])->Some_0,
                            line: line0,
                            column: col0,
                        };
                        let rest = spec_lex(s, i as int + 2, line0, col0 + 2);
                        lemma_tokens_view_push(toks0, tokens@.last());
                        assert((tokens_view(toks0) + seq![t]) + rest.0 =~= tokens_view(toks0) + (
                        seq![t] + rest.0));
                    }
                    col += 2;
                    i += 2;
                },
                None => {
                    match single_token(c) {
                        Some(token_type) => {
                            tokens.push(Token { token_type, line, column: col });
                            proof {
                                let t = SpecToken {
                                    kind: single_kind(s[i as int])->Some_0,
                                    line: line0,
                                    column: col0,
                                };
                                let rest = spec_lex(s, i as int + 1, line0, col0 + 1);
                                lemma_tokens_view_push(toks0, tokens@.last());
                                assert((tokens_view(toks0) + seq![t]) + rest.0 =~= tokens_view(
                                    toks0,
                                ) + (seq![t] + rest.0));
                            }
                        },
                        None => {
                            diags.push(
                                LexDiagnostic::UnrecognizedCharacter {
                                    character: c,
                                    line,
                                    column: col,
                                },
                            );
                            proof {
                                let dg = SpecLexDiag::UnrecognizedCharacter {
                                    character: s[i as int],
                                    line: line0,
                                    column: col0,
                                };
                                let rest = spec_lex(s, i as int + 1, line0, col0 + 1);
                                lemma_diags_view_push(diags0, diags@.last());
                                assert((diags_view(diags0) + seq![dg]) + rest.1 =~= diags_view(
                                    diags0,
                                ) + (seq![dg] + rest.1));
                            }
                        },
                    }
                    col += 1;
                    i += 1;
                },
            }
        }
    }
    (tokens, diags)
}

} // verus!
