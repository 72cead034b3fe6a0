use vstd::prelude::*;

use crate::compiler::{CompileError, CompileErrorView, ErrorType};
use crate::resources::ResourceLoc;
use crate::text::{chars_of, same_text, text_between};

verus! {

/// One token of source text.
#[derive(Debug, Clone, PartialEq, Eq)]
pub enum Token {
    /// `let`
    VarDef,
    /// `fn`
    FunctionDef,
    /// `proc`
    ProcessDef,
    /// `import`
    Import,
    /// `if`
    If,
    /// `for`
    For,
    /// `while`
    While,
    /// `return`
    Return,
    /// `break`
    Break,
    /// `continue`
    Continue,
    /// `select`
    Select,
    /// `::`
    Relation,
    /// `.`
    Dot,
    /// `;`
    Semicolon,
    /// `++`
    Increment,
    /// `--`
    Decrement,
    /// `+`
    Sum,
    /// `-`
    Minus,
    /// `*`
    Multiply,
    /// `/`
    Divide,
    /// `%`
    Modulo,
    /// `=`
    Assign,
    /// `&`
    Concat,
    /// `&&`
    BoolAnd,
    /// `||`
    BoolOr,
    /// `!`
    BoolNot,
    /// `==`
    Equals,
    /// `!=`
    NotEquals,
    /// `>`
    Greater,
    /// `<`
    Less,
    /// `>=`
    GreaterEqual,
    /// `<=`
    LessEqual,
    /// `:`
    TypeDef,
    /// `,`
    Separator,
    /// A name: a letter, then letters, digits and `_`.
    Identifier(String),
    /// `@` and a name; the token holds the name.
    Annotation(String),
    /// A string literal; the token holds its text with the escapes decoded.
    String(String),
    /// A decimal literal; the token holds it as written.
    Number(String),
    /// An integer literal.
    Int(i64),
    /// `true`
    True,
    /// `false`
    False,
    /// `self`
    SelfType,
    /// `{`
    OpenBrace,
    /// `}`
    CloseBrace,
    /// `[`
    OpenBracket,
    /// `]`
    CloseBracket,
    /// `(`
    OpenParen,
    /// `)`
    CloseParen,
}

/// A token as a plain value: what [`Token`] holds, with texts as sequences
/// of characters.
pub enum TokenView {
    VarDef,
    FunctionDef,
    ProcessDef,
    Import,
    If,
    For,
    While,
    Return,
    Break,
    Continue,
    Select,
    Relation,
    Dot,
    Semicolon,
    Increment,
    Decrement,
    Sum,
    Minus,
    Multiply,
    Divide,
    Modulo,
    Assign,
    Concat,
    BoolAnd,
    BoolOr,
    BoolNot,
    Equals,
    NotEquals,
    Greater,
    Less,
    GreaterEqual,
    LessEqual,
    TypeDef,
    Separator,
    Identifier(Seq<char>),
    Annotation(Seq<char>),
    String(Seq<char>),
    Number(Seq<char>),
    Int(i64),
    True,
    False,
    SelfType,
    OpenBrace,
    CloseBrace,
    OpenBracket,
    CloseBracket,
    OpenParen,
    CloseParen,
}

impl View for Token {
    type V = TokenView;

    open spec fn view(&self) -> TokenView {
        match self {
            Token::VarDef => TokenView::VarDef,
            Token::FunctionDef => TokenView::FunctionDef,
            Token::ProcessDef => TokenView::ProcessDef,
            Token::Import => TokenView::Import,
            Token::If => TokenView::If,
            Token::For => TokenView::For,
            Token::While => TokenView::While,
            Token::Return => TokenView::Return,
            Token::Break => TokenView::Break,
            Token::Continue => TokenView::Continue,
            Token::Select => TokenView::Select,
            Token::Relation => TokenView::Relation,
            Token::Dot => TokenView::Dot,
            Token::Semicolon => TokenView::Semicolon,
            Token::Increment => TokenView::Increment,
            Token::Decrement => TokenView::Decrement,
            Token::Sum => TokenView::Sum,
            Token::Minus => TokenView::Minus,
            Token::Multiply => TokenView::Multiply,
            Token::Divide => TokenView::Divide,
            Token::Modulo => TokenView::Modulo,
            Token::Assign => TokenView::Assign,
            Token::Concat => TokenView::Concat,
            Token::BoolAnd => TokenView::BoolAnd,
            Token::BoolOr => TokenView::BoolOr,
            Token::BoolNot => TokenView::BoolNot,
            Token::Equals => TokenView::Equals,
            Token::NotEquals => TokenView::NotEquals,
            Token::Greater => TokenView::Greater,
            Token::Less => TokenView::Less,
            Token::GreaterEqual => TokenView::GreaterEqual,
            Token::LessEqual => TokenView::LessEqual,
            Token::TypeDef => TokenView::TypeDef,
            Token::Separator => TokenView::Separator,
            Token::Identifier(s) => TokenView::Identifier(s@),
            Token::Annotation(s) => TokenView::Annotation(s@),
            Token::String(s) => TokenView::String(s@),
            Token::Number(s) => TokenView::Number(s@),
            Token::Int(n) => TokenView::Int(*n),
            Token::True => TokenView::True,
            Token::False => TokenView::False,
            Token::SelfType => TokenView::SelfType,
            Token::OpenBrace => TokenView::OpenBrace,
            Token::CloseBrace => TokenView::CloseBrace,
            Token::OpenBracket => TokenView::OpenBracket,
            Token::CloseBracket => TokenView::CloseBracket,
            Token::OpenParen => TokenView::OpenParen,
            Token::CloseParen => TokenView::CloseParen,
        }
    }
}

/// The tokens of `ts`, each as a plain value.
pub open spec fn token_views(ts: Seq<Token>) -> Seq<TokenView> {
    ts.map_values(|t: Token| t@)
}

// ---------------------------------------------------------------------
// The shapes of the tokens
// ---------------------------------------------------------------------
/// Whether the character at `pos` is `c`.
pub open spec fn has(s: Seq<char>, pos: int, c: char) -> bool {
    0 <= pos < s.len() && s[pos] == c
}

pub open spec fn is_letter(c: char) -> bool {
    ('a' <= c && c <= 'z') || ('A' <= c && c <= 'Z')
}

pub open spec fn is_digit(c: char) -> bool {
    '0' <= c && c <= '9'
}

/// A character of a name after its first: a letter, a digit or `_`.
pub open spec fn is_word_char(c: char) -> bool {
    is_letter(c) || is_digit(c) || c == '_'
}

/// A character of a number literal: a digit or `_`.
pub open spec fn is_num_char(c: char) -> bool {
    is_digit(c) || c == '_'
}

/// How many characters from `pos` on can stand inside a name.
pub open spec fn word_run(s: Seq<char>, pos: int) -> nat
    decreases s.len() - pos,
{
    if 0 <= pos < s.len() && is_word_char(s[pos]) {
        1 + word_run(s, pos + 1)
    } else {
        0
    }
}

/// How many characters from `pos` on can stand inside a number literal.
pub open spec fn num_run(s: Seq<char>, pos: int) -> nat
    decreases s.len() - pos,
{
    if 0 <= pos < s.len() && is_num_char(s[pos]) {
        1 + num_run(s, pos + 1)
    } else {
        0
    }
}

/// How many characters from `pos` on belong to the inside of a string
/// literal that `quote` closes: a backslash takes the character after it
/// along, unless that is a line feed; the inside ends before the first
/// `quote` that no backslash took, before a backslash that can take
/// nothing, or with the text.
pub open spec fn string_run(s: Seq<char>, pos: int, quote: char) -> nat
    decreases s.len() - pos,
{
    if pos < 0 || pos >= s.len() {
        0
    } else if s[pos] == '\\' {
        if pos + 1 < s.len() && s[pos + 1] != '\n' {
            2 + string_run(s, pos + 2, quote)
        } else {
            0
        }
    } else if s[pos] == quote {
        0
    } else {
        1 + string_run(s, pos + 1, quote)
    }
}

/// Whether a string literal in `quote`s starts at `pos`: the inside must
/// be followed by the closing `quote`.
pub open spec fn string_at(s: Seq<char>, pos: int, quote: char) -> bool {
    has(s, pos, quote) && has(s, pos + 1 + string_run(s, pos + 1, quote), quote)
}

/// `s` from `pos` on, with each pair `a`, `b` replaced by `r`, the pairs
/// taken from left to right.
pub open spec fn replaced(s: Seq<char>, pos: int, a: char, b: char, r: char) -> Seq<char>
    decreases s.len() - pos,
{
    if pos < 0 || pos >= s.len() {
        Seq::empty()
    } else if pos + 1 < s.len() && s[pos] == a && s[pos + 1] == b {
        seq![r] + replaced(s, pos + 2, a, b, r)
    } else {
        seq![s[pos]] + replaced(s, pos + 1, a, b, r)
    }
}

/// The text that the inside `raw` of a string literal stands for: first
/// every two backslashes become one, then every backslash with an `n`
/// after it becomes a line feed.
pub open spec fn unescaped(raw: Seq<char>) -> Seq<char> {
    replaced(replaced(raw, 0, '\\', '\\', '\\'), 0, '\\', 'n', '\n')
}

/// The value of the digit `c`.
pub open spec fn digit_of(c: char) -> nat {
    if c == '1' {
        1
    } else if c == '2' {
        2
    } else if c == '3' {
        3
    } else if c == '4' {
        4
    } else if c == '5' {
        5
    } else if c == '6' {
        6
    } else if c == '7' {
        7
    } else if c == '8' {
        8
    } else if c == '9' {
        9
    } else {
        0
    }
}

/// The number that the digits `text` stand for in base ten.
pub open spec fn digits_value(text: Seq<char>) -> nat
    decreases text.len(),
{
    if text.len() == 0 {
        0
    } else {
        digits_value(text.drop_last()) * 10 + digit_of(text.last())
    }
}

pub open spec fn all_digits(text: Seq<char>) -> bool {
    forall|i: int| 0 <= i < text.len() ==> is_digit(#[trigger] text[i])
}

/// The integer that an integer literal stands for. It has none where it
/// holds a `_` or stands for more than an `i64` can hold.
pub open spec fn int_value(text: Seq<char>) -> Option<i64> {
    if all_digits(text) && digits_value(text) <= i64::MAX {
        Some(digits_value(text) as i64)
    } else {
        None
    }
}

/// Whether a decimal literal stands for a number: it does unless it holds
/// a `_`.
pub open spec fn decimal_ok(text: Seq<char>) -> bool {
    forall|i: int| 0 <= i < text.len() ==> #[trigger] text[i] != '_'
}

/// The length of the decimal literal at `pos`, or 0 where none starts
/// there: number characters, a `.`, and at least one number character.
pub open spec fn decimal_len(s: Seq<char>, pos: int) -> nat {
    let whole = num_run(s, pos);
    if has(s, pos + whole, '.') && num_run(s, pos + whole + 1) > 0 {
        whole + 1 + num_run(s, pos + whole + 1)
    } else {
        0
    }
}

/// The token that a reserved word stands for.
pub open spec fn keyword(word: Seq<char>) -> Option<TokenView> {
    if word == "true"@ {
        Some(TokenView::True)
    } else if word == "false"@ {
        Some(TokenView::False)
    } else if word == "let"@ {
        Some(TokenView::VarDef)
    } else if word == "fn"@ {
        Some(TokenView::FunctionDef)
    } else if word == "proc"@ {
        Some(TokenView::ProcessDef)
    } else if word == "import"@ {
        Some(TokenView::Import)
    } else if word == "if"@ {
        Some(TokenView::If)
    } else if word == "for"@ {
        Some(TokenView::For)
    } else if word == "while"@ {
        Some(TokenView::While)
    } else if word == "select"@ {
        Some(TokenView::Select)
    } else if word == "return"@ {
        Some(TokenView::Return)
    } else if word == "break"@ {
        Some(TokenView::Break)
    } else if word == "continue"@ {
        Some(TokenView::Continue)
    } else if word == "self"@ {
        Some(TokenView::SelfType)
    } else {
        None
    }
}

/// The token of a name: that of the reserved word it is, else an
/// identifier.
pub open spec fn word_token(word: Seq<char>) -> TokenView {
    match keyword(word) {
        Some(t) => t,
        None => TokenView::Identifier(word),
    }
}

/// The operator or bracket that starts at `pos`, with its length. Where
/// one symbol starts another, the longer one wins.
pub open spec fn symbol_at(s: Seq<char>, pos: int) -> Option<(TokenView, nat)> {
    if has(s, pos, '=') {
        if has(s, pos + 1, '=') {
            Some((TokenView::Equals, 2nat))
        } else {
            Some((TokenView::Assign, 1nat))
        }
    } else if has(s, pos, ';') {
        Some((TokenView::Semicolon, 1nat))
    } else if has(s, pos, ':') {
        if has(s, pos + 1, ':') {
            Some((TokenView::Relation, 2nat))
        } else {
            Some((TokenView::TypeDef, 1nat))
        }
    } else if has(s, pos, '+') {
        if has(s, pos + 1, '+') {
            Some((TokenView::Increment, 2nat))
        } else {
            Some((TokenView::Sum, 1nat))
        }
    } else if has(s, pos, '-') {
        if has(s, pos + 1, '-') {
            Some((TokenView::Decrement, 2nat))
        } else {
            Some((TokenView::Minus, 1nat))
        }
    } else if has(s, pos, '*') {
        Some((TokenView::Multiply, 1nat))
    } else if has(s, pos, '/') {
        Some((TokenView::Divide, 1nat))
    } else if has(s, pos, '%') {
        Some((TokenView::Modulo, 1nat))
    } else if has(s, pos, '&') {
        if has(s, pos + 1, '&') {
            Some((TokenView::BoolAnd, 2nat))
        } else {
            Some((TokenView::Concat, 1nat))
        }
    } else if has(s, pos, '|') && has(s, pos + 1, '|') {
        Some((TokenView::BoolOr, 2nat))
    } else if has(s, pos, '!') {
        if has(s, pos + 1, '=') {
            Some((TokenView::NotEquals, 2nat))
        } else {
            Some((TokenView::BoolNot, 1nat))
        }
    } else if has(s, pos, '>') {
        if has(s, pos + 1, '=') {
            Some((TokenView::GreaterEqual, 2nat))
        } else {
            Some((TokenView::Greater, 1nat))
        }
    } else if has(s, pos, '<') {
        if has(s, pos + 1, '=') {
            Some((TokenView::LessEqual, 2nat))
        } else {
            Some((TokenView::Less, 1nat))
        }
    } else if has(s, pos, '[') {
        Some((TokenView::OpenBracket, 1nat))
    } else if has(s, pos, ']') {
        Some((TokenView::CloseBracket, 1nat))
    } else if has(s, pos, '(') {
        Some((TokenView::OpenParen, 1nat))
    } else if has(s, pos, ')') {
        Some((TokenView::CloseParen, 1nat))
    } else if has(s, pos, '{') {
        Some((TokenView::OpenBrace, 1nat))
    } else if has(s, pos, '}') {
        Some((TokenView::CloseBrace, 1nat))
    } else if has(s, pos, ',') {
        Some((TokenView::Separator, 1nat))
    } else {
        None
    }
}

/// What stands at one position of a source text.
pub enum Scan {
    /// A token, and how many characters it takes.
    Found(TokenView, nat),
    /// A character that starts no token.
    Nothing,
    /// An integer literal without a value.
    BadInt,
    /// A decimal literal without a value.
    BadDecimal,
}

/// What stands at `pos`, a position inside `s`. The shapes are tried in
/// this order: operators and brackets, string literals in `"` and in `'`,
/// integer literals, decimal literals, `.`, names, annotations.
pub open spec fn scan(s: Seq<char>, pos: int) -> Scan {
    match symbol_at(s, pos) {
        Some((t, n)) => Scan::Found(t, n),
        None => scan_word(s, pos),
    }
}

/// What stands at `pos` where no operator or bracket starts there.
pub open spec fn scan_word(s: Seq<char>, pos: int) -> Scan {
    if string_at(s, pos, '"') {
        let n = string_run(s, pos + 1, '"');
        Scan::Found(TokenView::String(unescaped(s.subrange(pos + 1, pos + 1 + n))), n + 2)
    } else if string_at(s, pos, '\'') {
        let n = string_run(s, pos + 1, '\'');
        Scan::Found(TokenView::String(unescaped(s.subrange(pos + 1, pos + 1 + n))), n + 2)
    } else if 0 <= pos < s.len() && is_num_char(s[pos]) {
        let n = 1 + num_run(s, pos + 1);
        match int_value(s.subrange(pos, pos + n)) {
            Some(v) => Scan::Found(TokenView::Int(v), n),
            None => Scan::BadInt,
        }
    } else if decimal_len(s, pos) > 0 {
        let n = decimal_len(s, pos);
        if decimal_ok(s.subrange(pos, pos + n)) {
            Scan::Found(TokenView::Number(s.subrange(pos, pos + n)), n)
        } else {
            Scan::BadDecimal
        }
    } else if has(s, pos, '.') {
        Scan::Found(TokenView::Dot, 1)
    } else if 0 <= pos < s.len() && is_letter(s[pos]) {
        let n = 1 + word_run(s, pos + 1);
        Scan::Found(word_token(s.subrange(pos, pos + n)), n)
    } else if has(s, pos, '@') && pos + 1 < s.len() && is_letter(s[pos + 1]) {
        let n = 1 + word_run(s, pos + 2);
        Scan::Found(TokenView::Annotation(s.subrange(pos + 1, pos + 1 + n)), n + 1)
    } else {
        Scan::Nothing
    }
}

/// Why and where a source text could not be turned into tokens.
pub struct LexFault {
    /// The position of the first character of the literal.
    pub at: int,
    /// Whether the literal is a decimal one.
    pub decimal: bool,
}

/// The tokens of `s` from `pos` on, or the first literal without a value.
/// A token holds at least one character and ends inside the text
/// ([`lemma_scan_bound`]); the function asks for that only to show that the
/// reading ends.
pub open spec fn lex_from(s: Seq<char>, pos: int) -> Result<Seq<TokenView>, LexFault>
    decreases s.len() - pos,
{
    if pos < 0 || pos >= s.len() {
        Ok(Seq::empty())
    } else {
        match scan(s, pos) {
            Scan::Found(t, n) => {
                if 0 < n <= s.len() - pos {
                    match lex_from(s, pos + n) {
                        Ok(rest) => Ok(seq![t] + rest),
                        Err(fault) => Err(fault),
                    }
                } else {
                    Ok(Seq::empty())
                }
            },
            Scan::Nothing => lex_from(s, pos + 1),
            Scan::BadInt => Err(LexFault { at: pos, decimal: false }),
            Scan::BadDecimal => Err(LexFault { at: pos, decimal: true }),
        }
    }
}

/// The tokens of the source text `s`.
pub open spec fn lex(s: Seq<char>) -> Result<Seq<TokenView>, LexFault> {
    lex_from(s, 0)
}

/// How many line feeds stand before `pos`.
pub open spec fn newlines_before(s: Seq<char>, pos: int) -> nat
    decreases pos,
{
    if pos <= 0 || pos > s.len() {
        0
    } else if s[pos - 1] == '\n' {
        newlines_before(s, pos - 1) + 1
    } else {
        newlines_before(s, pos - 1)
    }
}

/// Where the line of `pos` starts: after the last line feed before `pos`.
pub open spec fn line_start(s: Seq<char>, pos: int) -> int
    decreases pos,
{
    if pos <= 0 || pos > s.len() {
        0
    } else if s[pos - 1] == '\n' {
        pos
    } else {
        line_start(s, pos - 1)
    }
}

/// The line of `pos`; the first line is line 1.
pub open spec fn line_of(s: Seq<char>, pos: int) -> nat {
    newlines_before(s, pos) + 1
}

/// The column of `pos`; the first character of a line is in column 1.
pub open spec fn column_of(s: Seq<char>, pos: int) -> nat {
    (pos - line_start(s, pos) + 1) as nat
}

/// The error that a fault in the source text `s` of the file `loc` is
/// reported as.
pub open spec fn fault_error(s: Seq<char>, loc: Seq<Seq<char>>, fault: LexFault)
    -> CompileErrorView {
    CompileErrorView {
        error_type: ErrorType::InvalidNumError,
        info: if fault.decimal {
            "Failed to parse number"@
        } else {
            "Failed to parse integer"@
        },
        loc,
        line_num: line_of(s, fault.at),
        line_index: column_of(s, fault.at),
    }
}

/// What [`tokenizer`] hands back for the source text `s` of the file
/// `loc`.
pub open spec fn tokenizer_result(
    s: Seq<char>,
    loc: Seq<Seq<char>>,
    r: Result<Vec<Token>, CompileError>,
) -> bool {
    match lex(s) {
        Ok(tokens) => r is Ok && token_views(r->Ok_0@) == tokens,
        Err(fault) => r is Err && r->Err_0@ == fault_error(s, loc, fault),
    }
}

// ---------------------------------------------------------------------
// Facts about the shapes
// ---------------------------------------------------------------------
/// A run of name characters ends inside the text.
proof fn lemma_word_run_bound(s: Seq<char>, pos: int)
    requires
        0 <= pos <= s.len(),
    ensures
        pos + word_run(s, pos) <= s.len(),
    decreases s.len() - pos,
{
    if pos < s.len() && is_word_char(s[pos]) {
        lemma_word_run_bound(s, pos + 1);
    }
}

/// A run of number characters ends inside the text.
proof fn lemma_num_run_bound(s: Seq<char>, pos: int)
    requires
        0 <= pos <= s.len(),
    ensures
        pos + num_run(s, pos) <= s.len(),
    decreases s.len() - pos,
{
    if pos < s.len() && is_num_char(s[pos]) {
        lemma_num_run_bound(s, pos + 1);
    }
}

/// The inside of a string literal ends inside the text.
proof fn lemma_string_run_bound(s: Seq<char>, pos: int, quote: char)
    requires
        0 <= pos <= s.len(),
    ensures
        pos + string_run(s, pos, quote) <= s.len(),
    decreases s.len() - pos,
{
    if pos < s.len() {
        if s[pos] == '\\' {
            if pos + 1 < s.len() && s[pos + 1] != '\n' {
                lemma_string_run_bound(s, pos + 2, quote);
            }
        } else if s[pos] != quote {
            lemma_string_run_bound(s, pos + 1, quote);
        }
    }
}

/// A token holds at least one character and ends inside the text.
pub proof fn lemma_scan_bound(s: Seq<char>, pos: int)
    requires
        0 <= pos < s.len(),
    ensures
        scan(s, pos) matches Scan::Found(_, n) ==> 0 < n <= s.len() - pos,
{
    lemma_string_run_bound(s, pos + 1, '"');
    lemma_string_run_bound(s, pos + 1, '\'');
    lemma_num_run_bound(s, pos + 1);
    lemma_num_run_bound(s, pos);
    lemma_word_run_bound(s, pos + 1);
    if pos + 2 <= s.len() {
        lemma_word_run_bound(s, pos + 2);
    }
    if pos + num_run(s, pos) + 1 <= s.len() {
        lemma_num_run_bound(s, pos + num_run(s, pos) + 1);
    }
}

/// The digits of a longer text stand for no less than those of its
/// beginning.
proof fn lemma_digits_value_grows(text: Seq<char>, k: int)
    requires
        0 <= k <= text.len(),
    ensures
        digits_value(text.take(k)) <= digits_value(text),
    decreases text.len(),
{
    if k == text.len() {
        assert(text.take(k) =~= text);
    } else {
        lemma_digits_value_grows(text.drop_last(), k);
        assert(text.drop_last().take(k) =~= text.take(k));
    }
}

// ---------------------------------------------------------------------
// Reading the shapes
// ---------------------------------------------------------------------
fn at(chars: &Vec<char>, pos: usize, c: char) -> (r: bool)
    ensures
        r == has(chars@, pos as int, c),
{
    pos < chars.len() && chars[pos] == c
}

fn letter(c: char) -> (r: bool)
    ensures
        r == is_letter(c),
{
    ('a' <= c && c <= 'z') || ('A' <= c && c <= 'Z')
}

fn digit(c: char) -> (r: bool)
    ensures
        r == is_digit(c),
{
    '0' <= c && c <= '9'
}

fn word_end(chars: &Vec<char>, pos: usize) -> (end: usize)
    requires
        pos <= chars.len(),
    ensures
        end == pos + word_run(chars@, pos as int),
        end <= chars.len(),
{
    let mut i: usize = pos;
    while i < chars.len() && (letter(chars[i]) || digit(chars[i]) || chars[i] == '_')
        invariant
            pos <= i <= chars.len(),
            pos + word_run(chars@, pos as int) == i + word_run(chars@, i as int),
        decreases chars.len() - i,
    {
        i += 1;
    }
    i
}

fn num_end(chars: &Vec<char>, pos: usize) -> (end: usize)
    requires
        pos <= chars.len(),
    ensures
        end == pos + num_run(chars@, pos as int),
        end <= chars.len(),
{
    let mut i: usize = pos;
    while i < chars.len() && (digit(chars[i]) || chars[i] == '_')
        invariant
            pos <= i <= chars.len(),
            pos + num_run(chars@, pos as int) == i + num_run(chars@, i as int),
        decreases chars.len() - i,
    {
        i += 1;
    }
    i
}

fn string_end(chars: &Vec<char>, pos: usize, quote: char) -> (end: usize)
    requires
        pos <= chars.len(),
    ensures
        end == pos + string_run(chars@, pos as int, quote),
        end <= chars.len(),
{
    let mut i: usize = pos;
    loop
        invariant
            pos <= i <= chars.len(),
            pos + string_run(chars@, pos as int, quote) == i + string_run(
                chars@,
                i as int,
                quote,
            ),
        ensures
            pos <= i <= chars.len(),
            i == pos + string_run(chars@, pos as int, quote),
        decreases chars.len() - i,
    {
        if i >= chars.len() {
            break ;
        }
        let c = chars[i];
        if c == '\\' {
            if i + 1 < chars.len() && chars[i + 1] != '\n' {
                i += 2;
            } else {
                break ;
            }
        } else if c == quote {
            break ;
        } else {
            i += 1;
        }
    }
    i
}

/// The characters `chars[from]`, ..., `chars[to - 1]`, with each pair `a`,
/// `b` replaced by `r`.
fn replace_pair(chars: &Vec<char>, a: char, b: char, r: char) -> (out: Vec<char>)
    ensures
        out@ == replaced(chars@, 0, a, b, r),
{
    let mut out: Vec<char> = Vec::new();
    let mut i: usize = 0;
    while i < chars.len()
        invariant
            i <= chars.len(),
            out@ + replaced(chars@, i as int, a, b, r) == replaced(chars@, 0, a, b, r),
        decreases chars.len() - i,
    {
        let ghost before = out@;
        if i + 1 < chars.len() && chars[i] == a && chars[i + 1] == b {
            out.push(r);
            assert(out@ + replaced(chars@, i + 2, a, b, r) =~= before + replaced(
                chars@,
                i as int,
                a,
                b,
                r,
            ));
            i += 2;
        } else {
            out.push(chars[i]);
            assert(out@ + replaced(chars@, i + 1, a, b, r) =~= before + replaced(
                chars@,
                i as int,
                a,
                b,
                r,
            ));
            i += 1;
        }
    }
    assert(out@ + replaced(chars@, i as int, a, b, r) =~= out@);
    out
}

fn slice(chars: &Vec<char>, from: usize, to: usize) -> (out: Vec<char>)
    requires
        from <= to <= chars.len(),
    ensures
        out@ == chars@.subrange(from as int, to as int),
{
    let mut out: Vec<char> = Vec::new();
    let mut i: usize = from;
    while i < to
        invariant
            from <= i <= to <= chars.len(),
            out@ == chars@.subrange(from as int, i as int),
        decreases to - i,
    {
        out.push(chars[i]);
        i += 1;
    }
    out
}

/// The text that the inside `chars[from..to]` of a string literal stands
/// for.
fn unescape(chars: &Vec<char>, from: usize, to: usize) -> (text: String)
    requires
        from <= to <= chars.len(),
    ensures
        text@ == unescaped(chars@.subrange(from as int, to as int)),
{
    let raw = slice(chars, from, to);
    let once = replace_pair(&raw, '\\', '\\', '\\');
    let twice = replace_pair(&once, '\\', 'n', '\n');
    let text = text_between(&twice, 0, twice.len());
    assert(twice@.subrange(0, twice@.len() as int) =~= twice@);
    text
}

fn digit_value(c: char) -> (d: i64)
    requires
        is_digit(c),
    ensures
        d == digit_of(c),
        0 <= d <= 9,
{
    if c == '1' {
        1
    } else if c == '2' {
        2
    } else if c == '3' {
        3
    } else if c == '4' {
        4
    } else if c == '5' {
        5
    } else if c == '6' {
        6
    } else if c == '7' {
        7
    } else if c == '8' {
        8
    } else if c == '9' {
        9
    } else {
        0
    }
}

/// The value of the integer literal `chars[from..to]`.
fn read_int(chars: &Vec<char>, from: usize, to: usize) -> (r: Option<i64>)
    requires
        from <= to <= chars.len(),
    ensures
        r == int_value(chars@.subrange(from as int, to as int)),
{
    let ghost text = chars@.subrange(from as int, to as int);
    let mut acc: i64 = 0;
    let mut i: usize = from;
    while i < to
        invariant
            from <= i <= to <= chars.len(),
            text == chars@.subrange(from as int, to as int),
            all_digits(text.take(i - from)),
            0 <= acc,
            acc == digits_value(text.take(i - from)),
        decreases to - i,
    {
        let c = chars[i];
        if !digit(c) {
            assert(text[i - from] == c);
            return None;
        }
        let d = digit_value(c);
        proof {
            let longer = text.take(i + 1 - from);
            assert(longer.drop_last() =~= text.take(i - from));
            assert(longer.last() == c);
            assert(digits_value(longer) == acc * 10 + d);
            lemma_digits_value_grows(text, i + 1 - from);
            assert forall|k: int| 0 <= k < longer.len() implies is_digit(
                #[trigger] longer[k],
            ) by {
                if k < i - from {
                    assert(text.take(i - from)[k] == longer[k]);
                }
            }
        }
        if acc > (i64::MAX - d) / 10 {
            return None;
        }
        acc = acc * 10 + d;
        i += 1;
    }
    assert(text.take(to - from) =~= text);
    Some(acc)
}

/// Whether the decimal literal `chars[from..to]` stands for a number.
fn check_decimal(chars: &Vec<char>, from: usize, to: usize) -> (r: bool)
    requires
        from <= to <= chars.len(),
    ensures
        r == decimal_ok(chars@.subrange(from as int, to as int)),
{
    let ghost text = chars@.subrange(from as int, to as int);
    let mut i: usize = from;
    while i < to
        invariant
            from <= i <= to <= chars.len(),
            text == chars@.subrange(from as int, to as int),
            forall|k: int| 0 <= k < i - from ==> #[trigger] text[k] != '_',
        decreases to - i,
    {
        if chars[i] == '_' {
            assert(text[i - from] == '_');
            return false;
        }
        i += 1;
    }
    true
}

/// The token of the name `word`.
fn name_token(word: String) -> (t: Token)
    ensures
        t@ == word_token(word@),
{
    let w = word.as_str();
    if same_text(w, "true") {
        Token::True
    } else if same_text(w, "false") {
        Token::False
    } else if same_text(w, "let") {
        Token::VarDef
    } else if same_text(w, "fn") {
        Token::FunctionDef
    } else if same_text(w, "proc") {
        Token::ProcessDef
    } else if same_text(w, "import") {
        Token::Import
    } else if same_text(w, "if") {
        Token::If
    } else if same_text(w, "for") {
        Token::For
    } else if same_text(w, "while") {
        Token::While
    } else if same_text(w, "select") {
        Token::Select
    } else if same_text(w, "return") {
        Token::Return
    } else if same_text(w, "break") {
        Token::Break
    } else if same_text(w, "continue") {
        Token::Continue
    } else if same_text(w, "self") {
        Token::SelfType
    } else {
        Token::Identifier(word)
    }
}

/// The operator or bracket that starts at `pos`, with its length.
fn symbol(chars: &Vec<char>, pos: usize) -> (r: Option<(Token, usize)>)
    requires
        pos < chars.len(),
    ensures
        match r {
            Some((t, n)) => symbol_at(chars@, pos as int) == Some((t@, n as nat)),
            None => symbol_at(chars@, pos as int) is None,
        },
{
    let c = chars[pos];
    if c == '=' {
        if at(chars, pos + 1, '=') {
            Some((Token::Equals, 2))
        } else {
            Some((Token::Assign, 1))
        }
    } else if c == ';' {
        Some((Token::Semicolon, 1))
    } else if c == ':' {
        if at(chars, pos + 1, ':') {
            Some((Token::Relation, 2))
        } else {
            Some((Token::TypeDef, 1))
        }
    } else if c == '+' {
        if at(chars, pos + 1, '+') {
            Some((Token::Increment, 2))
        } else {
            Some((Token::Sum, 1))
        }
    } else if c == '-' {
        if at(chars, pos + 1, '-') {
            Some((Token::Decrement, 2))
        } else {
            Some((Token::Minus, 1))
        }
    } else if c == '*' {
        Some((Token::Multiply, 1))
    } else if c == '/' {
        Some((Token::Divide, 1))
    } else if c == '%' {
        Some((Token::Modulo, 1))
    } else if c == '&' {
        if at(chars, pos + 1, '&') {
            Some((Token::BoolAnd, 2))
        } else {
            Some((Token::Concat, 1))
        }
    } else if c == '|' && at(chars, pos + 1, '|') {
        Some((Token::BoolOr, 2))
    } else if c == '!' {
        if at(chars, pos + 1, '=') {
            Some((Token::NotEquals, 2))
        } else {
            Some((Token::BoolNot, 1))
        }
    } else if c == '>' {
        if at(chars, pos + 1, '=') {
            Some((Token::GreaterEqual, 2))
        } else {
            Some((Token::Greater, 1))
        }
    } else if c == '<' {
        if at(chars, pos + 1, '=') {
            Some((Token::LessEqual, 2))
        } else {
            Some((Token::Less, 1))
        }
    } else if c == '[' {
        Some((Token::OpenBracket, 1))
    } else if c == ']' {
        Some((Token::CloseBracket, 1))
    } else if c == '(' {
        Some((Token::OpenParen, 1))
    } else if c == ')' {
        Some((Token::CloseParen, 1))
    } else if c == '{' {
        Some((Token::OpenBrace, 1))
    } else if c == '}' {
        Some((Token::CloseBrace, 1))
    } else if c == ',' {
        Some((Token::Separator, 1))
    } else {
        None
    }
}

/// What the scanner found at one position.
enum Step {
    Found(Token, usize),
    Nothing,
    BadInt,
    BadDecimal,
}

impl Step {
    spec fn matches_scan(self, scan: Scan) -> bool {
        match self {
            Step::Found(t, n) => scan == Scan::Found(t@, n as nat),
            Step::Nothing => scan == Scan::Nothing,
            Step::BadInt => scan == Scan::BadInt,
            Step::BadDecimal => scan == Scan::BadDecimal,
        }
    }
}

/// The string literal in `quote`s that starts at `pos`, with its length.
fn string_literal(chars: &Vec<char>, pos: usize, quote: char) -> (r: Option<(Token, usize)>)
    requires
        pos < chars.len(),
    ensures
        match r {
            Some((t, n)) => {
                &&& string_at(chars@, pos as int, quote)
                &&& n == string_run(chars@, pos + 1, quote) + 2
                &&& t@ == TokenView::String(
                    unescaped(
                        chars@.subrange(pos + 1, pos + 1 + string_run(chars@, pos + 1, quote)),
                    ),
                )
            },
            None => !string_at(chars@, pos as int, quote),
        },
{
    if chars[pos] != quote {
        return None;
    }
    let end = string_end(chars, pos + 1, quote);
    if at(chars, end, quote) {
        let text = unescape(chars, pos + 1, end);
        Some((Token::String(text), end + 1 - pos))
    } else {
        None
    }
}

/// What stands at `pos` where no operator or bracket starts there.
fn scan_word_at(chars: &Vec<char>, pos: usize) -> (step: Step)
    requires
        pos < chars.len(),
    ensures
        step.matches_scan(scan_word(chars@, pos as int)),
{
    let c = chars[pos];
    proof {
        lemma_scan_bound(chars@, pos as int);
    }
    if let Some((t, n)) = string_literal(chars, pos, '"') {
        return Step::Found(t, n);
    }
    if let Some((t, n)) = string_literal(chars, pos, '\'') {
        return Step::Found(t, n);
    }
    if digit(c) || c == '_' {
        let end = num_end(chars, pos + 1);
        return match read_int(chars, pos, end) {
            Some(v) => Step::Found(Token::Int(v), end - pos),
            None => Step::BadInt,
        };
    }
    let whole = num_end(chars, pos);
    if at(chars, whole, '.') {
        let end = num_end(chars, whole + 1);
        if end > whole + 1 {
            return if check_decimal(chars, pos, end) {
                Step::Found(Token::Number(text_between(chars, pos, end)), end - pos)
            } else {
                Step::BadDecimal
            };
        }
    }
    if c == '.' {
        return Step::Found(Token::Dot, 1);
    }
    if letter(c) {
        let end = word_end(chars, pos + 1);
        return Step::Found(name_token(text_between(chars, pos, end)), end - pos);
    }
    if c == '@' && pos + 1 < chars.len() && letter(chars[pos + 1]) {
        let end = word_end(chars, pos + 2);
        return Step::Found(Token::Annotation(text_between(chars, pos + 1, end)), end - pos);
    }
    Step::Nothing
}

/// The line and the column of `pos`.
fn place(chars: &Vec<char>, pos: usize) -> (r: (usize, usize))
    requires
        pos < chars.len(),
    ensures
        r.0 == line_of(chars@, pos as int),
        r.1 == column_of(chars@, pos as int),
{
    let mut line: usize = 1;
    let mut start: usize = 0;
    let mut i: usize = 0;
    while i < pos
        invariant
            i <= pos < chars.len(),
            line == newlines_before(chars@, i as int) + 1,
            line <= i + 1,
            start == line_start(chars@, i as int),
            start <= i,
        decreases pos - i,
    {
        if chars[i] == '\n' {
            line += 1;
            start = i + 1;
        }
        i += 1;
    }
    (line, pos - start + 1)
}

/// Turns source text into its tokens.
///
/// The text is read from left to right. At each position the longest
/// operator or bracket that starts there is taken, else a string literal, an
/// integer literal, a decimal literal, a `.`, a name or an annotation, in
/// this order; a name that is a reserved word becomes the token of that
/// word. A character that starts none of these is passed over. The first
/// number literal that has no value ends the work with an
/// `InvalidNumError` that names the line and column of the literal and the
/// file `resource`.
pub fn tokenizer(code: &str, resource: ResourceLoc) -> (r: Result<Vec<Token>, CompileError>)
    ensures
        tokenizer_result(code@, resource@, r),
{
    let chars = chars_of(code);
    let mut tokens: Vec<Token> = Vec::new();
    let mut current: usize = 0;
    assert(token_views(tokens@) =~= Seq::<TokenView>::empty());
    while current < chars.len()
        invariant
            current <= chars.len(),
            chars@ == code@,
            match lex_from(chars@, current as int) {
                Ok(rest) => lex(chars@) == Ok::<Seq<TokenView>, LexFault>(
                    token_views(tokens@) + rest,
                ),
                Err(fault) => lex(chars@) == Err::<Seq<TokenView>, LexFault>(fault),
            },
        decreases chars.len() - current,
    {
        proof {
            lemma_scan_bound(chars@, current as int);
        }
        let step = match symbol(&chars, current) {
            Some((t, n)) => Step::Found(t, n),
            None => scan_word_at(&chars, current),
        };
        assert(step.matches_scan(scan(chars@, current as int)));
        match step {
            Step::Found(t, n) => {
                let ghost before = token_views(tokens@);
                tokens.push(t);
                proof {
                    assert(token_views(tokens@) =~= before.push(t@));
                    match lex_from(chars@, current + n) {
                        Ok(rest) => {
                            assert(before + (seq![t@] + rest) =~= token_views(tokens@) + rest);
                        },
                        Err(fault) => {},
                    }
                }
                current += n;
            },
            Step::Nothing => {
                current += 1;
            },
            Step::BadInt => {
                let (line, column) = place(&chars, current);
                return Err(
                    CompileError::new(
                        ErrorType::InvalidNumError,
                        resource,
                        line,
                        column,
                        "Failed to parse integer",
                    ),
                );
            },
            Step::BadDecimal => {
                let (line, column) = place(&chars, current);
                return Err(
                    CompileError::new(
                        ErrorType::InvalidNumError,
                        resource,
                        line,
                        column,
                        "Failed to parse number",
                    ),
                );
            },
        }
    }
    assert(token_views(tokens@) + Seq::<TokenView>::empty() =~= token_views(tokens@));
    Ok(tokens)
}

// ---------------------------------------------------------------------
// What holds of every source text
// ---------------------------------------------------------------------
/// Reading the same source text of the same file twice gives the same
/// tokens, or the same error: whatever two runs of [`tokenizer`] hand back
/// for one input, it is the same.
pub proof fn lemma_tokenizer_deterministic(
    s: Seq<char>,
    loc: Seq<Seq<char>>,
    first: Result<Vec<Token>, CompileError>,
    second: Result<Vec<Token>, CompileError>,
)
    requires
        tokenizer_result(s, loc, first),
        tokenizer_result(s, loc, second),
    ensures
        first is Ok <==> second is Ok,
        first is Ok ==> token_views(first->Ok_0@) == token_views(second->Ok_0@),
        first is Err ==> first->Err_0@ == second->Err_0@,
{
}

/// Name characters all the way from `pos` to the end make one run.
proof fn lemma_word_run_full(s: Seq<char>, pos: int)
    requires
        0 <= pos <= s.len(),
        forall|i: int| pos <= i < s.len() ==> is_word_char(#[trigger] s[i]),
    ensures
        word_run(s, pos) == s.len() - pos,
    decreases s.len() - pos,
{
    if pos < s.len() {
        lemma_word_run_full(s, pos + 1);
    }
}

/// A source text that is one name and nothing else gives one token: that
/// of the name.
pub proof fn lemma_name_alone(word: Seq<char>)
    requires
        word.len() > 0,
        is_letter(word[0]),
        forall|i: int| 0 <= i < word.len() ==> is_word_char(#[trigger] word[i]),
    ensures
        lex(word) == Ok::<Seq<TokenView>, LexFault>(seq![word_token(word)]),
{
    lemma_word_run_full(word, 1);
    assert(symbol_at(word, 0) is None);
    assert(num_run(word, 0) == 0);
    assert(word.subrange(0, word.len() as int) =~= word);
    assert(scan(word, 0) == Scan::Found(word_token(word), word.len()));
    assert(lex_from(word, word.len() as int) == Ok::<Seq<TokenView>, LexFault>(Seq::empty()));
    assert(seq![word_token(word)] + Seq::<TokenView>::empty() =~= seq![word_token(word)]);
}

/// A source text that is a reserved word and nothing else gives exactly
/// one token, that of the word, and never an identifier.
pub proof fn lemma_keyword_alone(word: Seq<char>)
    requires
        keyword(word) is Some,
    ensures
        lex(word) == Ok::<Seq<TokenView>, LexFault>(seq![keyword(word)->0]),
        !(keyword(word)->0 is Identifier),
{
    reveal_strlit("true");
    reveal_strlit("false");
    reveal_strlit("let");
    reveal_strlit("fn");
    reveal_strlit("proc");
    reveal_strlit("import");
    reveal_strlit("if");
    reveal_strlit("for");
    reveal_strlit("while");
    reveal_strlit("select");
    reveal_strlit("return");
    reveal_strlit("break");
    reveal_strlit("continue");
    reveal_strlit("self");
    lemma_name_alone(word);
}

/// Whether none of `tokens` is an identifier that holds a reserved word.
pub open spec fn no_reserved_identifier(tokens: Seq<TokenView>) -> bool {
    forall|i: int|
        0 <= i < tokens.len() ==> ((#[trigger] tokens[i]) matches TokenView::Identifier(word)
            ==> keyword(word) is None)
}

/// Whatever the source text, no reserved word comes out as an identifier.
pub proof fn lemma_identifiers_are_not_reserved(s: Seq<char>, pos: int)
    ensures
        lex_from(s, pos) matches Ok(tokens) ==> no_reserved_identifier(tokens),
    decreases s.len() - pos,
{
    if 0 <= pos < s.len() {
        match scan(s, pos) {
            Scan::Found(t, n) => {
                if 0 < n <= s.len() - pos {
                    lemma_identifiers_are_not_reserved(s, pos + n);
                    match lex_from(s, pos + n) {
                        Ok(rest) => {
                            let tokens = seq![t] + rest;
                            assert forall|i: int| 0 <= i < tokens.len() implies ((
                            #[trigger] tokens[i]) matches TokenView::Identifier(word) ==> keyword(
                                word,
                            ) is None) by {
                                if i > 0 {
                                    assert(tokens[i] == rest[i - 1]);
                                }
                            }
                        },
                        Err(fault) => {},
                    }
                }
            },
            Scan::Nothing => {
                lemma_identifiers_are_not_reserved(s, pos + 1);
            },
            _ => {},
        }
    }
}

} // verus!
