//! The scanner: source text to tokens.
//!
//! The model, [`scan_all`], reads the source as a sequence of characters and
//! says which tokens and which errors come out; the positions it reports are
//! functions of the text alone ([`line_at`], [`col_at`]).

use vstd::prelude::*;
use vstd::string::*;
use crate::error::{LoxResult, LoxResultView, errors_view};
use crate::text::{chars_of, push_char, string_of};
use crate::token::{Literal, LiteralView, Token, TokenType, TokenView, tokens_view};

verus! {

/// `0` to `9`.
pub open spec fn is_digit(c: char) -> bool {
    '0' <= c && c <= '9'
}

/// A letter of the Latin alphabet or `_`.
pub open spec fn is_alpha(c: char) -> bool {
    ('a' <= c && c <= 'z') || ('A' <= c && c <= 'Z') || c == '_'
}

/// A character that may continue an identifier.
pub open spec fn is_alphanumeric(c: char) -> bool {
    is_alpha(c) || is_digit(c)
}

/// The line (counted from 1) on which the character after `src[..i]` stands.
pub open spec fn line_at(src: Seq<char>, i: int) -> int
    decreases i,
{
    if i <= 0 {
        1
    } else if src[i - 1] == '\n' {
        line_at(src, i - 1) + 1
    } else {
        line_at(src, i - 1)
    }
}

/// The column (counted from 1) of `src[i - 1]` on its line; 0 at the start of
/// a line.
pub open spec fn col_at(src: Seq<char>, i: int) -> int
    decreases i,
{
    if i <= 0 {
        0
    } else if src[i - 1] == '\n' {
        0
    } else {
        col_at(src, i - 1) + 1
    }
}

/// The reserved word that `text` spells, if any.
pub open spec fn keyword_of(text: Seq<char>) -> Option<TokenType> {
    if text == "and"@ {
        Some(TokenType::And)
    } else if text == "break"@ {
        Some(TokenType::Break)
    } else if text == "class"@ {
        Some(TokenType::Class)
    } else if text == "else"@ {
        Some(TokenType::Else)
    } else if text == "false"@ {
        Some(TokenType::False)
    } else if text == "for"@ {
        Some(TokenType::For)
    } else if text == "fun"@ {
        Some(TokenType::Fun)
    } else if text == "if"@ {
        Some(TokenType::If)
    } else if text == "nil"@ {
        Some(TokenType::Nil)
    } else if text == "or"@ {
        Some(TokenType::Or)
    } else if text == "print"@ {
        Some(TokenType::Print)
    } else if text == "return"@ {
        Some(TokenType::Return)
    } else if text == "super"@ {
        Some(TokenType::Super)
    } else if text == "this"@ {
        Some(TokenType::This)
    } else if text == "true"@ {
        Some(TokenType::True)
    } else if text == "var"@ {
        Some(TokenType::Var)
    } else if text == "while"@ {
        Some(TokenType::While)
    } else {
        None
    }
}

/// The classes of characters that the scanner consumes in runs.
#[derive(PartialEq, Eq, Structural, Clone, Copy, Debug)]
pub enum Run {
    /// Decimal digits.
    Digits,
    /// Letters, digits and `_`.
    Word,
    /// Everything up to the end of the line.
    Line,
    /// Everything up to the next `"`.
    Quoted,
}

/// Whether `c` continues a run of the given class.
pub open spec fn in_run(run: Run, c: char) -> bool {
    match run {
        Run::Digits => is_digit(c),
        Run::Word => is_alphanumeric(c),
        Run::Line => c != '\n',
        Run::Quoted => c != '"',
    }
}

/// The index at which the run of class `run` that starts at `i` ends: the
/// first index from `i` on whose character is not in the class, or the length
/// of the source.
pub open spec fn run_end(src: Seq<char>, i: int, run: Run) -> int
    decreases src.len() - i,
{
    if 0 <= i < src.len() && in_run(run, src[i]) {
        run_end(src, i + 1, run)
    } else {
        i
    }
}

/// Where the block comment ends whose body starts at `i`, with `depth`
/// comments open (block comments nest): the index after the `*/` that closes
/// the outermost one, or `None` where the source ends first.
pub open spec fn comment_end(src: Seq<char>, i: int, depth: nat) -> Option<int>
    decreases src.len() - i,
{
    if i < 0 || i >= src.len() || depth == 0 {
        None
    } else if src[i] == '*' && i + 1 < src.len() && src[i + 1] == '/' {
        if depth == 1 {
            Some(i + 2)
        } else {
            comment_end(src, i + 2, (depth - 1) as nat)
        }
    } else if src[i] == '/' && i + 1 < src.len() && src[i + 1] == '*' {
        comment_end(src, i + 2, depth + 1)
    } else {
        comment_end(src, i + 1, depth)
    }
}

/// Where the number that starts at `start` ends: digits, then, if a `.` and a
/// digit follow, the `.` and the digits after it.
pub open spec fn number_end(src: Seq<char>, start: int) -> int {
    let whole = run_end(src, start, Run::Digits);
    if whole + 1 < src.len() && src[whole] == '.' && is_digit(src[whole + 1]) {
        run_end(src, whole + 1, Run::Digits)
    } else {
        whole
    }
}

/// What scanning one lexeme yields: where the next lexeme starts, and the
/// token or the error that the lexeme gave, if any.
pub struct ScanStep {
    pub next: int,
    pub token: Option<TokenView>,
    pub error: Option<LoxResultView>,
}

/// The token of kind `ttype` for `src[start..end]`, placed at its last
/// character.
pub open spec fn token_at(
    src: Seq<char>,
    ttype: TokenType,
    start: int,
    end: int,
    literal: Option<LiteralView>,
) -> TokenView {
    TokenView {
        ttype,
        lexeme: src.subrange(start, end),
        literal,
        line: line_at(src, end) as usize,
        col: col_at(src, end) as usize,
    }
}

/// A step that yields one token without a literal.
pub open spec fn emit(src: Seq<char>, ttype: TokenType, start: int, end: int) -> ScanStep {
    ScanStep { next: end, token: Some(token_at(src, ttype, start, end, None)), error: None }
}

/// A step that yields nothing.
pub open spec fn skip(next: int) -> ScanStep {
    ScanStep { next, token: None, error: None }
}

/// A step that reports an error at the position reached.
pub open spec fn fail(src: Seq<char>, next: int, message: Seq<char>) -> ScanStep {
    ScanStep {
        next,
        token: None,
        error: Some(
            LoxResultView::Error {
                line: line_at(src, next) as usize,
                col: col_at(src, next) as usize,
                message,
            },
        ),
    }
}

/// An operator of one character that becomes another when `=` follows.
pub open spec fn twin(src: Seq<char>, start: int, two: TokenType, one: TokenType) -> ScanStep {
    if start + 1 < src.len() && src[start + 1] == '=' {
        emit(src, two, start, start + 2)
    } else {
        emit(src, one, start, start + 1)
    }
}

/// `/`: a line comment, a block comment, or the division operator.
pub open spec fn slash_step(src: Seq<char>, start: int) -> ScanStep {
    if start + 1 < src.len() && src[start + 1] == '/' {
        skip(run_end(src, start + 2, Run::Line))
    } else if start + 1 < src.len() && src[start + 1] == '*' {
        match comment_end(src, start + 2, 1) {
            Some(end) => skip(end),
            None => fail(src, src.len() as int, "Unterminated block comment"@),
        }
    } else {
        emit(src, TokenType::Slash, start, start + 1)
    }
}

/// `"`: a string literal up to the next `"`, which must exist.
pub open spec fn string_step(src: Seq<char>, start: int) -> ScanStep {
    let close = run_end(src, start + 1, Run::Quoted);
    if close >= src.len() {
        fail(src, src.len() as int, "Unterminated string"@)
    } else {
        ScanStep {
            next: close + 1,
            token: Some(
                token_at(
                    src,
                    TokenType::StringLiteral,
                    start,
                    close + 1,
                    Some(LiteralView::Str(src.subrange(start + 1, close))),
                ),
            ),
            error: None,
        }
    }
}

/// A numeric literal; its literal is the text as written.
pub open spec fn number_step(src: Seq<char>, start: int) -> ScanStep {
    let end = number_end(src, start);
    ScanStep {
        next: end,
        token: Some(
            token_at(
                src,
                TokenType::Number,
                start,
                end,
                Some(LiteralView::Number(src.subrange(start, end))),
            ),
        ),
        error: None,
    }
}

/// A reserved word, or an identifier whose literal is its name.
pub open spec fn identifier_step(src: Seq<char>, start: int) -> ScanStep {
    let end = run_end(src, start, Run::Word);
    let text = src.subrange(start, end);
    match keyword_of(text) {
        Some(ttype) => emit(src, ttype, start, end),
        None => ScanStep {
            next: end,
            token: Some(
                token_at(src, TokenType::Identifier, start, end, Some(LiteralView::Identifier(text))),
            ),
            error: None,
        },
    }
}

/// What the lexeme that starts at `start` yields.
pub open spec fn scan_step(src: Seq<char>, start: int) -> ScanStep
    recommends
        0 <= start < src.len(),
{
    let c = src[start];
    if c == '(' {
        emit(src, TokenType::LeftParen, start, start + 1)
    } else if c == ')' {
        emit(src, TokenType::RightParen, start, start + 1)
    } else if c == '{' {
        emit(src, TokenType::LeftBrace, start, start + 1)
    } else if c == '}' {
        emit(src, TokenType::RightBrace, start, start + 1)
    } else if c == ',' {
        emit(src, TokenType::Comma, start, start + 1)
    } else if c == '.' {
        emit(src, TokenType::Dot, start, start + 1)
    } else if c == '-' {
        emit(src, TokenType::Minus, start, start + 1)
    } else if c == '+' {
        emit(src, TokenType::Plus, start, start + 1)
    } else if c == ';' {
        emit(src, TokenType::Semicolon, start, start + 1)
    } else if c == '*' {
        emit(src, TokenType::Star, start, start + 1)
    } else if c == '!' {
        twin(src, start, TokenType::BangEqual, TokenType::Bang)
    } else if c == '=' {
        twin(src, start, TokenType::EqualEqual, TokenType::Equal)
    } else if c == '<' {
        twin(src, start, TokenType::LessEqual, TokenType::Less)
    } else if c == '>' {
        twin(src, start, TokenType::GreaterEqual, TokenType::Greater)
    } else if c == '/' {
        slash_step(src, start)
    } else if c == ' ' || c == '\r' || c == '\t' || c == '\n' {
        skip(start + 1)
    } else if c == '"' {
        string_step(src, start)
    } else if is_digit(c) {
        number_step(src, start)
    } else if is_alpha(c) {
        identifier_step(src, start)
    } else {
        fail(src, start + 1, "scanner can't handle "@.push(c))
    }
}

/// The tokens and the errors that scanning yields.
pub struct Scanned {
    pub tokens: Seq<TokenView>,
    pub errors: Seq<LoxResultView>,
}

/// Every run ends at or after its start, within the source.
pub proof fn lemma_run_end_bounds(src: Seq<char>, i: int, run: Run)
    requires
        0 <= i <= src.len(),
    ensures
        i <= run_end(src, i, run) <= src.len(),
    decreases src.len() - i,
{
    if i < src.len() && in_run(run, src[i]) {
        lemma_run_end_bounds(src, i + 1, run);
    }
}

/// A block comment that ends does so after its start, within the source.
pub proof fn lemma_comment_end_bounds(src: Seq<char>, i: int, depth: nat)
    requires
        0 <= i <= src.len(),
    ensures
        comment_end(src, i, depth) matches Some(end) ==> i < end <= src.len(),
    decreases src.len() - i,
{
    if i >= src.len() || depth == 0 {
    } else if src[i] == '*' && i + 1 < src.len() && src[i + 1] == '/' {
        if depth > 1 {
            lemma_comment_end_bounds(src, i + 2, (depth - 1) as nat);
        }
    } else if src[i] == '/' && i + 1 < src.len() && src[i + 1] == '*' {
        lemma_comment_end_bounds(src, i + 2, depth + 1);
    } else {
        lemma_comment_end_bounds(src, i + 1, depth);
    }
}

/// Every step moves forward and stays within the source.
pub proof fn lemma_scan_step_advances(src: Seq<char>, start: int)
    requires
        0 <= start < src.len(),
    ensures
        start < scan_step(src, start).next <= src.len(),
{
    lemma_run_end_bounds(src, start + 1, Run::Quoted);
    lemma_run_end_bounds(src, start, Run::Digits);
    lemma_run_end_bounds(src, start + 1, Run::Digits);
    lemma_run_end_bounds(src, start, Run::Word);
    lemma_run_end_bounds(src, start + 1, Run::Word);
    let whole = run_end(src, start, Run::Digits);
    if whole + 1 < src.len() {
        lemma_run_end_bounds(src, whole + 1, Run::Digits);
    }
    if start + 2 <= src.len() {
        lemma_run_end_bounds(src, start + 2, Run::Line);
        lemma_comment_end_bounds(src, start + 2, 1);
    }
}

/// Every character of a run is of the run's class.
pub proof fn lemma_run_covers(src: Seq<char>, i: int, run: Run, j: int)
    requires
        0 <= i <= j < run_end(src, i, run),
    ensures
        j < src.len(),
        in_run(run, src[j]),
    decreases src.len() - i,
{
    if 0 <= i < src.len() && in_run(run, src[i]) {
        if j > i {
            lemma_run_covers(src, i + 1, run, j);
        }
    }
}

/// A run ends where the source ends or at a character that is not of its
/// class.
pub proof fn lemma_run_stops(src: Seq<char>, i: int, run: Run)
    requires
        0 <= i <= src.len(),
    ensures
        run_end(src, i, run) == src.len() || !in_run(run, src[run_end(src, i, run)]),
    decreases src.len() - i,
{
    if i < src.len() && in_run(run, src[i]) {
        lemma_run_stops(src, i + 1, run);
    }
}

/// A run over characters of its class only goes on to the end, or up to
/// the first character that is not of the class.
pub proof fn lemma_run_reaches(text: Seq<char>, i: int, run: Run, end: int)
    requires
        0 <= i <= end <= text.len(),
        forall|j: int| i <= j < end ==> in_run(run, #[trigger] text[j]),
        end == text.len() || !in_run(run, text[end]),
    ensures
        run_end(text, i, run) == end,
    decreases end - i,
{
    if i < end {
        lemma_run_reaches(text, i + 1, run, end);
    }
}

/// Whether a lexeme that begins with `c` is a number, a string, an
/// identifier or a reserved word.
pub open spec fn begins_literal(c: char) -> bool {
    c == '"' || is_digit(c) || is_alpha(c)
}

/// Scanning is faithful to what it yields: where the lexeme at `start` is
/// a number, a string, an identifier or a reserved word, scanning the
/// lexeme of its token by itself yields that token again (its kind, its
/// lexeme and its literal) and the end marker, without an error.
pub proof fn lemma_scan_round_trip(src: Seq<char>, start: int)
    requires
        0 <= start < src.len(),
        begins_literal(src[start]),
        scan_step(src, start).token is Some,
    ensures
        ({
            let token = scan_step(src, start).token->Some_0;
            let again = scan_all(token.lexeme, 0);
            &&& again.errors.len() == 0
            &&& again.tokens.len() == 2
            &&& again.tokens[0].ttype == token.ttype
            &&& again.tokens[0].lexeme == token.lexeme
            &&& again.tokens[0].literal == token.literal
            &&& again.tokens[1].ttype == TokenType::Eof
        }),
{
    let step = scan_step(src, start);
    let token = step.token->Some_0;
    let end = step.next;
    let text = src.subrange(start, end);
    lemma_scan_step_advances(src, start);
    assert(token.lexeme == text);
    assert(text[0] == src[start]);
    let c = src[start];
    if c == '"' {
        let close = run_end(src, start + 1, Run::Quoted);
        lemma_run_end_bounds(src, start + 1, Run::Quoted);
        assert forall|j: int| 1 <= j < close - start implies in_run(
            Run::Quoted,
            #[trigger] text[j],
        ) by {
            lemma_run_covers(src, start + 1, Run::Quoted, start + j);
        }
        lemma_run_stops(src, start + 1, Run::Quoted);
        lemma_run_reaches(text, 1, Run::Quoted, close - start);
        assert(text.subrange(1, close - start) =~= src.subrange(start + 1, close));
    } else if is_digit(c) {
        let whole = run_end(src, start, Run::Digits);
        lemma_run_end_bounds(src, start, Run::Digits);
        lemma_run_stops(src, start, Run::Digits);
        let fraction = whole + 1 < src.len() && src[whole] == '.' && is_digit(src[whole + 1]);
        if fraction {
            lemma_run_end_bounds(src, whole + 1, Run::Digits);
            lemma_run_end_bounds(src, whole + 2, Run::Digits);
            assert(end == run_end(src, whole + 2, Run::Digits));
        } else {
            assert(end == whole);
        }
        assert(whole <= end);
        assert forall|j: int| 0 <= j < whole - start implies in_run(
            Run::Digits,
            #[trigger] text[j],
        ) by {
            lemma_run_covers(src, start, Run::Digits, start + j);
            assert(text[j] == src[start + j]);
        }
        if fraction {
            assert(text[whole - start] == src[whole]);
            lemma_run_reaches(text, 0, Run::Digits, whole - start);
            assert forall|j: int| whole + 1 - start <= j < end - start implies in_run(
                Run::Digits,
                #[trigger] text[j],
            ) by {
                lemma_run_covers(src, whole + 1, Run::Digits, start + j);
                assert(text[j] == src[start + j]);
            }
            lemma_run_reaches(text, whole + 1 - start, Run::Digits, end - start);
            assert(text[whole + 1 - start] == src[whole + 1]);
        } else {
            lemma_run_reaches(text, 0, Run::Digits, end - start);
        }
        assert(number_end(text, 0) == text.len());
    } else {
        lemma_run_end_bounds(src, start, Run::Word);
        assert forall|j: int| 0 <= j < end - start implies in_run(Run::Word, #[trigger] text[j]) by {
            lemma_run_covers(src, start, Run::Word, start + j);
        }
        lemma_run_reaches(text, 0, Run::Word, end - start);
    }
    assert(text.subrange(0, text.len() as int) =~= text);
    let first = scan_step(text, 0);
    assert(first.next == text.len());
    assert(first.error is None);
    assert(first.token is Some);
    let rest = scan_all(text, text.len() as int);
    assert(rest.tokens.len() == 1);
    assert(scan_all(text, 0).tokens =~= seq![first.token->Some_0] + rest.tokens);
}

/// The tokens and errors of the source from `start` on, the end marker
/// included.
pub open spec fn scan_all(src: Seq<char>, start: int) -> Scanned
    decreases src.len() - start,
{
    if start < 0 || start >= src.len() {
        Scanned {
            tokens: seq![
                token_at(src, TokenType::Eof, src.len() as int, src.len() as int, None),
            ],
            errors: seq![],
        }
    } else {
        let step = scan_step(src, start);
        proof {
            lemma_scan_step_advances(src, start);
        }
        let rest = scan_all(src, step.next);
        Scanned {
            tokens: match step.token {
                Some(t) => seq![t] + rest.tokens,
                None => rest.tokens,
            },
            errors: match step.error {
                Some(e) => seq![e] + rest.errors,
                None => rest.errors,
            },
        }
    }
}

/// Scanning always ends with the end marker: the tokens are never empty,
/// and the last one is `Eof`.
pub proof fn lemma_scan_ends_with_eof(src: Seq<char>, start: int)
    ensures
        scan_all(src, start).tokens.len() > 0,
        scan_all(src, start).tokens.last().ttype == TokenType::Eof,
    decreases src.len() - start,
{
    if 0 <= start < src.len() {
        lemma_scan_step_advances(src, start);
        lemma_scan_ends_with_eof(src, scan_step(src, start).next);
    }
}

/// A step's token or error as a sequence of at most one element.
pub open spec fn optional<T>(o: Option<T>) -> Seq<T> {
    match o {
        Some(t) => seq![t],
        None => seq![],
    }
}

/// The scanner: the source, the position reached in it, and the tokens and
/// errors found so far.
pub struct Scanner {
    source: Vec<char>,
    tokens: Vec<Token>,
    errors: Vec<LoxResult>,
    start: usize,
    current: usize,
    line: usize,
    col: usize,
}

fn is_digit_char(c: char) -> (b: bool)
    ensures
        b == is_digit(c),
{
    c >= '0' && c <= '9'
}

fn in_run_char(run: Run, c: char) -> (b: bool)
    ensures
        b == in_run(run, c),
{
    match run {
        Run::Digits => is_digit_char(c),
        Run::Word => Scanner::is_alphanumeric(c),
        Run::Line => c != '\n',
        Run::Quoted => c != '"',
    }
}

/// The reserved word that `text` spells, if any.
pub fn keyword(text: &String) -> (k: Option<TokenType>)
    ensures
        k == keyword_of(text@),
{
    if *text == String::from_str("and") {
        Some(TokenType::And)
    } else if *text == String::from_str("break") {
        Some(TokenType::Break)
    } else if *text == String::from_str("class") {
        Some(TokenType::Class)
    } else if *text == String::from_str("else") {
        Some(TokenType::Else)
    } else if *text == String::from_str("false") {
        Some(TokenType::False)
    } else if *text == String::from_str("for") {
        Some(TokenType::For)
    } else if *text == String::from_str("fun") {
        Some(TokenType::Fun)
    } else if *text == String::from_str("if") {
        Some(TokenType::If)
    } else if *text == String::from_str("nil") {
        Some(TokenType::Nil)
    } else if *text == String::from_str("or") {
        Some(TokenType::Or)
    } else if *text == String::from_str("print") {
        Some(TokenType::Print)
    } else if *text == String::from_str("return") {
        Some(TokenType::Return)
    } else if *text == String::from_str("super") {
        Some(TokenType::Super)
    } else if *text == String::from_str("this") {
        Some(TokenType::This)
    } else if *text == String::from_str("true") {
        Some(TokenType::True)
    } else if *text == String::from_str("var") {
        Some(TokenType::Var)
    } else if *text == String::from_str("while") {
        Some(TokenType::While)
    } else {
        None
    }
}

/// A copy of a vector of tokens.
pub fn clone_tokens(tokens: &Vec<Token>) -> (r: Vec<Token>)
    ensures
        tokens_view(r@) == tokens_view(tokens@),
{
    let mut r: Vec<Token> = Vec::new();
    let mut i: usize = 0;
    while i < tokens.len()
        invariant
            i <= tokens.len(),
            r.len() == i,
            forall|j: int| 0 <= j < i ==> r@[j]@ == tokens@[j]@,
        decreases tokens.len() - i,
    {
        r.push(tokens[i].clone());
        i += 1;
    }
    assert(tokens_view(r@) =~= tokens_view(tokens@));
    r
}

impl Scanner {
    /// The source as a sequence of characters.
    pub closed spec fn source(&self) -> Seq<char> {
        self.source@
    }

    /// The index of the next character to read.
    pub closed spec fn position(&self) -> int {
        self.current as int
    }

    /// The tokens found so far.
    pub closed spec fn tokens(&self) -> Seq<TokenView> {
        tokens_view(self.tokens@)
    }

    /// The errors recorded so far.
    pub closed spec fn errors(&self) -> Seq<LoxResultView> {
        errors_view(self.errors@)
    }

    /// The scanner's invariant: the position lies within the source, and the
    /// line and column kept are those of the position.
    pub closed spec fn wf(&self) -> bool {
        &&& self.source.len() < usize::MAX
        &&& self.start <= self.current <= self.source.len()
        &&& self.line == line_at(self.source@, self.current as int)
        &&& self.col == col_at(self.source@, self.current as int)
        &&& self.line <= self.current + 1
        &&& self.col <= self.current
    }

    /// Nothing but the position (and with it line and column) differs.
    spec fn moved_from(&self, before: &Scanner) -> bool {
        &&& self.wf()
        &&& self.source@ == before.source@
        &&& self.start == before.start
        &&& self.tokens@ == before.tokens@
        &&& self.errors@ == before.errors@
        &&& self.current >= before.current
    }

    /// The scanner took the step `step` from `before` and returned `r`.
    spec fn stepped(&self, before: &Scanner, r: Result<(), LoxResult>, step: ScanStep) -> bool {
        &&& self.wf()
        &&& self.source@ == before.source@
        &&& self.errors@ == before.errors@
        &&& self.current == step.next
        &&& tokens_view(self.tokens@) == tokens_view(before.tokens@) + optional(step.token)
        &&& match r {
            Ok(_) => step.error is None,
            Err(e) => step.error == Some(e@),
        }
    }

    /// A scanner at the start of `source`.
    pub fn new(source: &str) -> (s: Scanner)
        requires
            source@.len() < usize::MAX,
        ensures
            s.wf(),
            s.source() == source@,
            s.position() == 0,
            s.tokens() == Seq::<TokenView>::empty(),
            s.errors() == Seq::<LoxResultView>::empty(),
    {
        let s = Scanner {
            source: chars_of(source),
            tokens: Vec::new(),
            errors: Vec::new(),
            start: 0,
            current: 0,
            line: 1,
            col: 0,
        };
        assert(s.tokens() =~= Seq::<TokenView>::empty());
        assert(s.errors() =~= Seq::<LoxResultView>::empty());
        s
    }

    /// A scanner at the start of `source`; none for a source so long that
    /// its lines could not be counted.
    pub fn try_new(source: &str) -> (r: Option<Scanner>)
        ensures
            match r {
                Some(s) => source@.len() < usize::MAX && s.wf() && s.source() == source@
                    && s.position() == 0 && s.tokens() == Seq::<TokenView>::empty() && s.errors()
                    == Seq::<LoxResultView>::empty(),
                None => source@.len() >= usize::MAX,
            },
    {
        let chars = chars_of(source);
        if chars.len() == usize::MAX {
            return None;
        }
        let s = Scanner {
            source: chars,
            tokens: Vec::new(),
            errors: Vec::new(),
            start: 0,
            current: 0,
            line: 1,
            col: 0,
        };
        assert(s.tokens() =~= Seq::<TokenView>::empty());
        assert(s.errors() =~= Seq::<LoxResultView>::empty());
        Some(s)
    }

    /// Whether the whole source has been read.
    pub fn is_at_end(&self) -> (b: bool)
        ensures
            b == (self.position() >= self.source().len()),
    {
        self.current >= self.source.len()
    }

    /// The errors recorded so far.
    pub fn recorded_errors(&self) -> (r: &Vec<LoxResult>)
        ensures
            errors_view(r@) == self.errors(),
    {
        &self.errors
    }

    /// Scans one lexeme: at most one token is added, or one error returned.
    pub fn scan_token(&mut self) -> (r: Result<(), LoxResult>)
        requires
            old(self).wf(),
            old(self).position() < old(self).source().len(),
        ensures
            final(self).wf(),
            final(self).source() == old(self).source(),
            final(self).errors() == old(self).errors(),
            final(self).position() == scan_step(old(self).source(), old(self).position()).next,
            final(self).tokens() == old(self).tokens() + optional(
                scan_step(old(self).source(), old(self).position()).token,
            ),
            match r {
                Ok(_) => scan_step(old(self).source(), old(self).position()).error is None,
                Err(e) => scan_step(old(self).source(), old(self).position()).error == Some(e@),
            },
    {
        self.start = self.current;
        let c = self.advance();
        if c == '(' {
            self.add_token(TokenType::LeftParen, None);
        } else if c == ')' {
            self.add_token(TokenType::RightParen, None);
        } else if c == '{' {
            self.add_token(TokenType::LeftBrace, None);
        } else if c == '}' {
            self.add_token(TokenType::RightBrace, None);
        } else if c == ',' {
            self.add_token(TokenType::Comma, None);
        } else if c == '.' {
            self.add_token(TokenType::Dot, None);
        } else if c == '-' {
            self.add_token(TokenType::Minus, None);
        } else if c == '+' {
            self.add_token(TokenType::Plus, None);
        } else if c == ';' {
            self.add_token(TokenType::Semicolon, None);
        } else if c == '*' {
            self.add_token(TokenType::Star, None);
        } else if c == '!' {
            self.add_token_twin(TokenType::BangEqual, TokenType::Bang);
        } else if c == '=' {
            self.add_token_twin(TokenType::EqualEqual, TokenType::Equal);
        } else if c == '<' {
            self.add_token_twin(TokenType::LessEqual, TokenType::Less);
        } else if c == '>' {
            self.add_token_twin(TokenType::GreaterEqual, TokenType::Greater);
        } else if c == '/' {
            return self.handle_slash();
        } else if c == ' ' || c == '\r' || c == '\t' || c == '\n' {
            assert(tokens_view(self.tokens@) =~= tokens_view(old(self).tokens@) + optional::<
                TokenView,
            >(None));
        } else if c == '"' {
            return self.handle_string();
        } else {
            return self.handle_longer_lexemes(c);
        }
        Ok(())
    }

    /// Scans the rest of the source and appends the end marker. Returns all
    /// tokens found, and whether no error was met; the errors are recorded.
    pub fn scan_tokens(&mut self) -> (r: (Vec<Token>, bool))
        requires
            old(self).wf(),
        ensures
            final(self).wf(),
            final(self).source() == old(self).source(),
            final(self).position() == final(self).source().len(),
            final(self).tokens() == old(self).tokens() + scan_all(
                old(self).source(),
                old(self).position(),
            ).tokens,
            final(self).errors() == old(self).errors() + scan_all(
                old(self).source(),
                old(self).position(),
            ).errors,
            tokens_view(r.0@) == final(self).tokens(),
            r.1 == (scan_all(old(self).source(), old(self).position()).errors.len() == 0),
    {
        let mut ok = true;
        let ghost src = self.source@;
        let ghost found = Seq::<TokenView>::empty();
        let ghost failed = Seq::<LoxResultView>::empty();
        while !self.is_at_end()
            invariant
                self.wf(),
                self.source@ == src,
                src == old(self).source@,
                old(self).current <= self.current,
                tokens_view(self.tokens@) == tokens_view(old(self).tokens@) + found,
                errors_view(self.errors@) == errors_view(old(self).errors@) + failed,
                scan_all(src, old(self).current as int).tokens == found + scan_all(
                    src,
                    self.current as int,
                ).tokens,
                scan_all(src, old(self).current as int).errors == failed + scan_all(
                    src,
                    self.current as int,
                ).errors,
                ok == (failed.len() == 0),
            decreases self.source.len() - self.current,
        {
            let ghost step = scan_step(src, self.current as int);
            let ghost here = self.current as int;
            let ghost before_errors = errors_view(self.errors@);
            proof {
                lemma_scan_step_advances(src, here);
            }
            match self.scan_token() {
                Ok(_) => {},
                Err(e) => {
                    self.errors.push(e);
                    ok = false;
                    assert(errors_view(self.errors@) =~= before_errors.push(e@));
                },
            }
            proof {
                let rest = scan_all(src, step.next);
                assert(scan_all(src, here).tokens =~= optional(step.token) + rest.tokens);
                assert(scan_all(src, here).errors =~= optional(step.error) + rest.errors);
                assert(found + (optional(step.token) + rest.tokens) =~= (found + optional(
                    step.token,
                )) + rest.tokens);
                assert(failed + (optional(step.error) + rest.errors) =~= (failed + optional(
                    step.error,
                )) + rest.errors);
                found = found + optional(step.token);
                failed = failed + optional(step.error);
                assert(tokens_view(self.tokens@) =~= tokens_view(old(self).tokens@) + found);
                assert(errors_view(self.errors@) =~= errors_view(old(self).errors@) + failed);
            }
        }
        self.start = self.current;
        self.add_token(TokenType::Eof, None);
        proof {
            assert(self.source@.subrange(self.current as int, self.current as int)
                =~= Seq::<char>::empty());
            assert(tokens_view(self.tokens@) =~= tokens_view(old(self).tokens@) + scan_all(
                src,
                old(self).current as int,
            ).tokens);
            assert(errors_view(self.errors@) =~= errors_view(old(self).errors@) + scan_all(
                src,
                old(self).current as int,
            ).errors);
        }
        (clone_tokens(&self.tokens), ok)
    }

    fn advance(&mut self) -> (c: char)
        requires
            old(self).wf(),
            old(self).current < old(self).source.len(),
        ensures
            final(self).moved_from(old(self)),
            final(self).current == old(self).current + 1,
            c == old(self).source@[old(self).current as int],
    {
        let c = self.source[self.current];
        self.current += 1;
        if c == '\n' {
            self.line += 1;
            self.col = 0;
        } else {
            self.col += 1;
        }
        c
    }

    // Adds the token for `source[start..current]`.
    fn add_token(&mut self, ttype: TokenType, literal: Option<Literal>)
        requires
            old(self).wf(),
        ensures
            final(self).wf(),
            final(self).source@ == old(self).source@,
            final(self).errors@ == old(self).errors@,
            final(self).start == old(self).start,
            final(self).current == old(self).current,
            tokens_view(final(self).tokens@) == tokens_view(old(self).tokens@).push(
                token_at(
                    old(self).source@,
                    ttype,
                    old(self).start as int,
                    old(self).current as int,
                    crate::token::literal_option_view(literal),
                ),
            ),
    {
        let lexeme = string_of(&self.source, self.start, self.current);
        let token = Token::new(ttype, lexeme, literal, self.line, self.col);
        self.tokens.push(token);
        assert(tokens_view(self.tokens@) =~= tokens_view(old(self).tokens@).push(token@));
    }

    // Adds a one-character operator, or its two-character form when `=` follows.
    fn add_token_twin(&mut self, twin_type: TokenType, single_type: TokenType)
        requires
            old(self).wf(),
            old(self).current == old(self).start + 1,
        ensures
            final(self).stepped(
                old(self),
                Ok(()),
                twin(old(self).source@, old(self).start as int, twin_type, single_type),
            ),
    {
        let matches_second = self.matches('=');
        self.add_token(
            if matches_second {
                twin_type
            } else {
                single_type
            },
            None,
        );
        assert(tokens_view(self.tokens@) =~= tokens_view(old(self).tokens@) + optional(
            twin(old(self).source@, old(self).start as int, twin_type, single_type).token,
        ));
    }

    // A slash starts a comment or is the division operator.
    fn handle_slash(&mut self) -> (r: Result<(), LoxResult>)
        requires
            old(self).wf(),
            old(self).current == old(self).start + 1,
        ensures
            final(self).stepped(old(self), r, slash_step(old(self).source@, old(self).start as int)),
    {
        if self.matches('/') {
            self.skip_run(Run::Line);
            assert(tokens_view(self.tokens@) =~= tokens_view(old(self).tokens@) + optional::<
                TokenView,
            >(None));
            Ok(())
        } else if self.matches('*') {
            let r = self.scan_comment();
            assert(tokens_view(self.tokens@) =~= tokens_view(old(self).tokens@) + optional::<
                TokenView,
            >(None));
            r
        } else {
            self.add_token(TokenType::Slash, None);
            assert(tokens_view(self.tokens@) =~= tokens_view(old(self).tokens@) + optional(
                slash_step(old(self).source@, old(self).start as int).token,
            ));
            Ok(())
        }
    }

    // Skips a block comment, whose opening has been read; block comments nest.
    fn scan_comment(&mut self) -> (r: Result<(), LoxResult>)
        requires
            old(self).wf(),
            old(self).current >= 1,
        ensures
            final(self).moved_from(old(self)),
            match comment_end(old(self).source@, old(self).current as int, 1) {
                Some(end) => r is Ok && final(self).current == end,
                None => final(self).current == final(self).source.len() && r is Err && r->Err_0@
                    == (LoxResultView::Error {
                    line: line_at(final(self).source@, final(self).source.len() as int) as usize,
                    col: col_at(final(self).source@, final(self).source.len() as int) as usize,
                    message: "Unterminated block comment"@,
                }),
            },
    {
        let mut depth: usize = 1;
        while self.current < self.source.len()
            invariant
                self.moved_from(old(self)),
                1 <= depth <= self.current,
                comment_end(self.source@, self.current as int, depth as nat) == comment_end(
                    old(self).source@,
                    old(self).current as int,
                    1,
                ),
            decreases self.source.len() - self.current,
        {
            let c = self.source[self.current];
            if c == '*' && self.current + 1 < self.source.len() && self.source[self.current + 1]
                == '/' {
                self.advance();
                self.advance();
                if depth == 1 {
                    return Ok(());
                }
                depth -= 1;
            } else if c == '/' && self.current + 1 < self.source.len() && self.source[self.current
                + 1] == '*' {
                self.advance();
                self.advance();
                depth += 1;
            } else {
                self.advance();
            }
        }
        Err(LoxResult::error(self.line, self.col, "Unterminated block comment"))
    }

    // A string literal, whose opening quote has been read.
    fn handle_string(&mut self) -> (r: Result<(), LoxResult>)
        requires
            old(self).wf(),
            old(self).current == old(self).start + 1,
        ensures
            final(self).stepped(old(self), r, string_step(old(self).source@, old(self).start as int)),
    {
        self.skip_run(Run::Quoted);
        if self.is_at_end() {
            assert(tokens_view(self.tokens@) =~= tokens_view(old(self).tokens@) + optional::<
                TokenView,
            >(None));
            return Err(LoxResult::error(self.line, self.col, "Unterminated string"));
        }
        self.advance();
        let s = string_of(&self.source, self.start + 1, self.current - 1);
        self.add_token(TokenType::StringLiteral, Some(Literal::Str(s)));
        assert(tokens_view(self.tokens@) =~= tokens_view(old(self).tokens@) + optional(
            string_step(old(self).source@, old(self).start as int).token,
        ));
        Ok(())
    }

    // A number, an identifier or a reserved word, whose first character `c`
    // has been read; any other character is an error.
    fn handle_longer_lexemes(&mut self, c: char) -> (r: Result<(), LoxResult>)
        requires
            old(self).wf(),
            old(self).current == old(self).start + 1,
            c == old(self).source@[old(self).start as int],
        ensures
            final(self).stepped(
                old(self),
                r,
                if is_digit(c) {
                    number_step(old(self).source@, old(self).start as int)
                } else if is_alpha(c) {
                    identifier_step(old(self).source@, old(self).start as int)
                } else {
                    fail(
                        old(self).source@,
                        old(self).start + 1,
                        "scanner can't handle "@.push(c),
                    )
                },
            ),
    {
        if is_digit_char(c) {
            self.handle_number();
            Ok(())
        } else if Self::is_alphabetic(c) {
            self.handle_identifier();
            Ok(())
        } else {
            let mut message = String::from_str("scanner can't handle ");
            push_char(&mut message, c);
            assert(tokens_view(self.tokens@) =~= tokens_view(old(self).tokens@) + optional::<
                TokenView,
            >(None));
            Err(LoxResult::Error { line: self.line, col: self.col, message })
        }
    }

    fn handle_number(&mut self)
        requires
            old(self).wf(),
            old(self).current == old(self).start + 1,
            is_digit(old(self).source@[old(self).start as int]),
        ensures
            final(self).stepped(
                old(self),
                Ok(()),
                number_step(old(self).source@, old(self).start as int),
            ),
    {
        self.skip_run(Run::Digits);
        // Look for a fractional part.
        if self.peek() == '.' && is_digit_char(self.peek_next()) {
            // Consume the "."
            self.advance();
            self.skip_run(Run::Digits);
        }
        let s = string_of(&self.source, self.start, self.current);
        self.add_token(TokenType::Number, Some(Literal::Number(s)));
        assert(tokens_view(self.tokens@) =~= tokens_view(old(self).tokens@) + optional(
            number_step(old(self).source@, old(self).start as int).token,
        ));
    }

    fn handle_identifier(&mut self)
        requires
            old(self).wf(),
            old(self).current == old(self).start + 1,
            is_alpha(old(self).source@[old(self).start as int]),
        ensures
            final(self).stepped(
                old(self),
                Ok(()),
                identifier_step(old(self).source@, old(self).start as int),
            ),
    {
        self.skip_run(Run::Word);
        let val = string_of(&self.source, self.start, self.current);
        match keyword(&val) {
            Some(kw_ttype) => self.add_token(kw_ttype, None),
            None => self.add_token(TokenType::Identifier, Some(Literal::Identifier(val))),
        }
        assert(tokens_view(self.tokens@) =~= tokens_view(old(self).tokens@) + optional(
            identifier_step(old(self).source@, old(self).start as int).token,
        ));
    }

    // Reads on to the end of the run of class `run`.
    fn skip_run(&mut self, run: Run)
        requires
            old(self).wf(),
        ensures
            final(self).moved_from(old(self)),
            final(self).current == run_end(old(self).source@, old(self).current as int, run),
    {
        while self.current < self.source.len() && in_run_char(run, self.source[self.current])
            invariant
                self.moved_from(old(self)),
                run_end(self.source@, self.current as int, run) == run_end(
                    old(self).source@,
                    old(self).current as int,
                    run,
                ),
            decreases self.source.len() - self.current,
        {
            self.advance();
        }
    }

    // Reads the next character if it is `expected`.
    fn matches(&mut self, expected: char) -> (b: bool)
        requires
            old(self).wf(),
        ensures
            final(self).moved_from(old(self)),
            b == (old(self).current < old(self).source.len() && old(self).source@[old(
                self,
            ).current as int] == expected),
            final(self).current == if b {
                old(self).current + 1
            } else {
                old(self).current as int
            },
    {
        if self.is_at_end() {
            return false;
        }
        if self.source[self.current] != expected {
            return false;
        }
        // if expected, advance
        self.advance();
        true
    }

    // The character after the next one, or NUL at the end.
    fn peek_next(&self) -> (c: char)
        requires
            self.wf(),
        ensures
            c == if self.current + 1 < self.source.len() {
                self.source@[self.current + 1]
            } else {
                '\0'
            },
    {
        if self.current + 1 >= self.source.len() {
            '\0'
        } else {
            self.source[self.current + 1]
        }
    }

    // The next character, or NUL at the end; it is not consumed.
    fn peek(&self) -> (c: char)
        requires
            self.wf(),
        ensures
            c == if self.current < self.source.len() {
                self.source@[self.current as int]
            } else {
                '\0'
            },
    {
        if self.is_at_end() {
            '\0'
        } else {
            self.source[self.current]
        }
    }

    fn is_alphabetic(c: char) -> (b: bool)
        ensures
            b == is_alpha(c),
    {
        (c >= 'a' && c <= 'z') || (c >= 'A' && c <= 'Z') || c == '_'
    }

    fn is_alphanumeric(c: char) -> (b: bool)
        ensures
            b == is_alphanumeric(c),
    {
        Self::is_alphabetic(c) || is_digit_char(c)
    }
}

} // verus!
