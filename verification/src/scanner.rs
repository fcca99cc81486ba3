//! The scanner: from source text to tokens.
//!
//! What the scanner yields is the function `scan` on the characters of the
//! text. A number literal is yielded as it is written, as a `Numeral`: to turn
//! it into the bit pattern of a `Number` is left to the caller.

use vstd::prelude::*;
use crate::token::{token_views, Token, TokenKind, TokenType};

verus! {

/// Whether a character is alphanumeric, as `char::is_alphanumeric` has it.
pub uninterp spec fn is_alphanumeric(c: char) -> bool;

/// `char::is_alphanumeric`: whether the character is a letter or a number in
/// the sense of the Unicode standard. The contract only gives the answer a
/// name.
#[verifier::external_body]
fn alphanumeric(c: char) -> (r: bool)
    ensures
        r == is_alphanumeric(c),
{
    c.is_alphanumeric()
}

/// `String::push`: appends one character to the text.
#[verifier::external_body]
fn string_push(text: &mut String, c: char)
    ensures
        final(text)@ == old(text)@.push(c),
{
    text.push(c);
}

/// The three kinds of run that the scanner reads to its end: the rest of a
/// name or numeral, the inside of a string, the rest of a comment.
#[derive(Debug, Clone, Copy, PartialEq, Eq, Structural)]
pub enum Run {
    Word,
    Quoted,
    Line,
}

/// Whether a character continues a run.
pub open spec fn in_run(run: Run, c: char) -> bool {
    match run {
        Run::Word => is_alphanumeric(c) || c == '_',
        Run::Quoted => c != '"',
        Run::Line => c != '\n',
    }
}

/// The number of characters from `pos` on that continue a run.
pub open spec fn run_length(chars: Seq<char>, pos: int, run: Run) -> nat
    decreases chars.len() - pos,
{
    if 0 <= pos < chars.len() && in_run(run, chars[pos]) {
        1 + run_length(chars, pos + 1, run)
    } else {
        0
    }
}

/// Whether the text holds `word` at `pos`.
pub open spec fn starts_with(chars: Seq<char>, pos: int, word: Seq<char>) -> bool {
    pos + word.len() <= chars.len() && chars.subrange(pos, pos + word.len()) == word
}

/// The keyword that the text holds at `pos`, if it holds one, and its
/// spelling. A keyword is recognised wherever its letters stand, whatever
/// follows them.
pub open spec fn keyword_at(chars: Seq<char>, pos: int) -> Option<(TokenKind, Seq<char>)> {
    if starts_with(chars, pos, "and"@) {
        Some((TokenKind::And, "and"@))
    } else if starts_with(chars, pos, "class"@) {
        Some((TokenKind::Class, "class"@))
    } else if starts_with(chars, pos, "else"@) {
        Some((TokenKind::Else, "else"@))
    } else if starts_with(chars, pos, "false"@) {
        Some((TokenKind::False, "false"@))
    } else if starts_with(chars, pos, "for"@) {
        Some((TokenKind::For, "for"@))
    } else if starts_with(chars, pos, "fun"@) {
        Some((TokenKind::Fun, "fun"@))
    } else if starts_with(chars, pos, "if"@) {
        Some((TokenKind::If, "if"@))
    } else if starts_with(chars, pos, "nil"@) {
        Some((TokenKind::Nil, "nil"@))
    } else if starts_with(chars, pos, "or"@) {
        Some((TokenKind::Or, "or"@))
    } else if starts_with(chars, pos, "print"@) {
        Some((TokenKind::Print, "print"@))
    } else if starts_with(chars, pos, "return"@) {
        Some((TokenKind::Return, "return"@))
    } else if starts_with(chars, pos, "super"@) {
        Some((TokenKind::Super, "super"@))
    } else if starts_with(chars, pos, "this"@) {
        Some((TokenKind::This, "this"@))
    } else if starts_with(chars, pos, "true"@) {
        Some((TokenKind::True, "true"@))
    } else if starts_with(chars, pos, "var"@) {
        Some((TokenKind::Var, "var"@))
    } else if starts_with(chars, pos, "while"@) {
        Some((TokenKind::While, "while"@))
    } else {
        None
    }
}

/// What the scanner reads at one position: a token or nothing, and where it
/// goes on.
pub ghost struct Lexed {
    pub token: Option<Token>,
    pub next: int,
}

/// A token of one character.
pub open spec fn single(kind: TokenKind, pos: int) -> Lexed {
    Lexed { token: Some(Token::bare(kind)), next: pos + 1 }
}

/// A token of two characters if `=` follows, else one of one character.
pub open spec fn with_equal(chars: Seq<char>, pos: int, two: TokenKind, one: TokenKind) -> Lexed {
    if pos + 1 < chars.len() && chars[pos + 1] == '=' {
        Lexed { token: Some(Token::bare(two)), next: pos + 2 }
    } else {
        single(one, pos)
    }
}

/// The position after a run that ends at `end`, and after the character
/// that ended it, if one did.
pub open spec fn past(chars: Seq<char>, end: int) -> int {
    if end < chars.len() {
        end + 1
    } else {
        end
    }
}

/// A decimal digit.
pub open spec fn is_digit(c: char) -> bool {
    '0' <= c <= '9'
}

/// A character that can start a name: an ASCII letter or an underscore.
pub open spec fn starts_name(c: char) -> bool {
    ('a' <= c <= 'z') || ('A' <= c <= 'Z') || c == '_'
}

/// What the scanner reads at `pos`, which lies inside the text.
pub open spec fn lex(chars: Seq<char>, pos: int) -> Lexed {
    let c = chars[pos];
    if c == '(' {
        single(TokenKind::LeftParen, pos)
    } else if c == ')' {
        single(TokenKind::RightParen, pos)
    } else if c == '{' {
        single(TokenKind::LeftBrace, pos)
    } else if c == '}' {
        single(TokenKind::RightBrace, pos)
    } else if c == ',' {
        single(TokenKind::Comma, pos)
    } else if c == '.' {
        single(TokenKind::Dot, pos)
    } else if c == '-' {
        single(TokenKind::Minus, pos)
    } else if c == '+' {
        single(TokenKind::Plus, pos)
    } else if c == ';' {
        single(TokenKind::Semicolon, pos)
    } else if c == '*' {
        single(TokenKind::Star, pos)
    } else if c == '/' {
        if pos + 1 < chars.len() && chars[pos + 1] == '/' {
            Lexed {
                token: None,
                next: past(chars, pos + 1 + run_length(chars, pos + 1, Run::Line)),
            }
        } else {
            single(TokenKind::Slash, pos)
        }
    } else if c == '!' {
        with_equal(chars, pos, TokenKind::BangEqual, TokenKind::Bang)
    } else if c == '=' {
        with_equal(chars, pos, TokenKind::EqualEqual, TokenKind::Equal)
    } else if c == '<' {
        with_equal(chars, pos, TokenKind::LessEqual, TokenKind::Less)
    } else if c == '>' {
        with_equal(chars, pos, TokenKind::GreaterEqual, TokenKind::Greater)
    } else if c == '"' {
        let end = pos + 1 + run_length(chars, pos + 1, Run::Quoted);
        Lexed {
            token: Some(Token::with_text(TokenKind::String, chars.subrange(pos + 1, end))),
            next: past(chars, end),
        }
    } else if is_digit(c) {
        let end = pos + 1 + run_length(chars, pos + 1, Run::Word);
        Lexed {
            token: Some(Token::with_text(TokenKind::Numeral, chars.subrange(pos, end))),
            next: end,
        }
    } else if starts_name(c) {
        match keyword_at(chars, pos) {
            Some((kind, word)) => Lexed { token: Some(Token::bare(kind)), next: pos + word.len() },
            None => {
                let end = pos + 1 + run_length(chars, pos + 1, Run::Word);
                Lexed {
                    token: Some(Token::with_text(TokenKind::Identifier, chars.subrange(pos, end))),
                    next: end,
                }
            },
        }
    } else if c == ' ' || c == '\r' || c == '\t' {
        Lexed { token: None, next: pos + 1 }
    } else {
        Lexed { token: Some(Token::with_text(TokenKind::Error, seq![c])), next: pos + 1 }
    }
}

/// The tokens of the text from `pos` on, with `Eof` at the end. Every
/// reading consumes at least one character.
pub open spec fn scan_from(chars: Seq<char>, pos: int) -> Seq<Token>
    decreases
        (if pos < chars.len() {
            chars.len() - pos
        } else {
            0
        }),
{
    if pos < 0 || pos >= chars.len() {
        seq![Token::bare(TokenKind::Eof)]
    } else {
        let read = lex(chars, pos);
        let rest = scan_from(
            chars,
            if read.next > pos {
                read.next
            } else {
                pos + 1
            },
        );
        match read.token {
            Some(token) => seq![token] + rest,
            None => rest,
        }
    }
}

/// The tokens of a text.
pub open spec fn scan(chars: Seq<char>) -> Seq<Token> {
    scan_from(chars, 0)
}

/// The tokens of a text end with `Eof`, and hold no other `Eof`.
pub proof fn law_scan_ends_with_eof(chars: Seq<char>, pos: int)
    ensures
        scan_from(chars, pos).len() >= 1,
        scan_from(chars, pos).last() == Token::bare(TokenKind::Eof),
        forall|i: int|
            0 <= i < scan_from(chars, pos).len() - 1 ==> (#[trigger] scan_from(chars, pos)[i]).kind
                != TokenKind::Eof,
    decreases
        (if pos < chars.len() {
            chars.len() - pos
        } else {
            0
        }),
{
    if 0 <= pos < chars.len() {
        let read = lex(chars, pos);
        let next = if read.next > pos {
            read.next
        } else {
            pos + 1
        };
        law_scan_ends_with_eof(chars, next);
        let rest = scan_from(chars, next);
        let all = scan_from(chars, pos);
        match read.token {
            Some(token) => {
                assert(token.kind != TokenKind::Eof);
                assert(all =~= seq![token] + rest);
                assert forall|i: int| 0 <= i < all.len() - 1 implies (#[trigger] all[i]).kind
                    != TokenKind::Eof by {
                    if i > 0 {
                        assert(all[i] == rest[i - 1]);
                    }
                }
            },
            None => {},
        }
    }
}

/// A run ends inside the text or at its end.
pub proof fn lemma_run_in_text(chars: Seq<char>, pos: int, run: Run)
    requires
        0 <= pos <= chars.len(),
    ensures
        pos + run_length(chars, pos, run) <= chars.len(),
    decreases chars.len() - pos,
{
    if pos < chars.len() && in_run(run, chars[pos]) {
        lemma_run_in_text(chars, pos + 1, run);
    }
}

/// The characters of a source text.
pub struct Scanner {
    chars: Vec<char>,
}

impl View for Scanner {
    type V = Seq<char>;

    closed spec fn view(&self) -> Seq<char> {
        self.chars@
    }
}

/// A cursor into the text of a scanner, with a stack of remembered
/// positions.
pub struct ScannerIter<'a> {
    scanner: &'a Scanner,
    index: usize,
    stack: Vec<usize>,
}

/// The mathematical model of a cursor.
pub ghost struct Cursor {
    pub chars: Seq<char>,
    pub index: int,
    pub marks: Seq<int>,
}

impl<'a> View for ScannerIter<'a> {
    type V = Cursor;

    closed spec fn view(&self) -> Cursor {
        Cursor {
            chars: self.scanner.chars@,
            index: self.index as int,
            marks: self.stack@.map_values(|m: usize| m as int),
        }
    }
}

impl<'a> ScannerIter<'a> {
    /// The cursor and every remembered position lie inside the text or at
    /// its end.
    pub open spec fn wf(&self) -> bool {
        &&& 0 <= self@.index <= self@.chars.len()
        &&& forall|i: int| 0 <= i < self@.marks.len() ==> 0 <= #[trigger] self@.marks[i] <= self@.chars.len()
    }

    /// The character under the cursor, if the cursor is not at the end.
    pub fn peek(&self) -> (r: Option<&char>)
        requires
            self.wf(),
        ensures
            r == if self@.index < self@.chars.len() {
                Some(&self@.chars[self@.index])
            } else {
                None::<&char>
            },
    {
        if self.index < self.scanner.chars.len() {
            Some(&self.scanner.chars[self.index])
        } else {
            None
        }
    }

    /// The character under the cursor, which then moves on; nothing at the
    /// end.
    pub fn next(&mut self) -> (r: Option<&'a char>)
        requires
            old(self).wf(),
        ensures
            final(self).wf(),
            r == if old(self)@.index < old(self)@.chars.len() {
                Some(&old(self)@.chars[old(self)@.index])
            } else {
                None::<&char>
            },
            final(self)@ == (Cursor {
                index: if old(self)@.index < old(self)@.chars.len() {
                    old(self)@.index + 1
                } else {
                    old(self)@.index
                },
                ..old(self)@
            }),
    {
        if self.index < self.scanner.chars.len() {
            let c = &self.scanner.chars[self.index];
            self.index += 1;
            Some(c)
        } else {
            None
        }
    }

    /// Moves the cursor one character back.
    pub fn prev(&mut self)
        requires
            old(self).wf(),
            old(self)@.index > 0,
        ensures
            final(self).wf(),
            final(self)@ == (Cursor { index: old(self)@.index - 1, ..old(self)@ }),
    {
        self.index -= 1;
    }

    /// Remembers where the cursor is.
    pub fn save(&mut self)
        requires
            old(self).wf(),
        ensures
            final(self).wf(),
            final(self)@ == (Cursor {
                marks: old(self)@.marks.push(old(self)@.index),
                ..old(self)@
            }),
    {
        self.stack.push(self.index);
        assert(self@.marks =~= old(self)@.marks.push(old(self)@.index));
    }

    /// Forgets the position remembered last.
    fn forget(&mut self)
        requires
            old(self).wf(),
            old(self)@.marks.len() > 0,
        ensures
            final(self).wf(),
            final(self)@ == (Cursor { marks: old(self)@.marks.drop_last(), ..old(self)@ }),
    {
        let ghost marks = self@.marks;
        let _ = self.stack.pop();
        assert(self@.marks =~= marks.drop_last());
    }

    /// Moves the cursor to the position remembered last, and forgets it.
    pub fn restore(&mut self)
        requires
            old(self).wf(),
            old(self)@.marks.len() > 0,
        ensures
            final(self).wf(),
            final(self)@ == (Cursor {
                index: old(self)@.marks.last(),
                marks: old(self)@.marks.drop_last(),
                ..old(self)@
            }),
    {
        let ghost marks = self@.marks;
        let mark = self.stack.pop();
        assert(self@.marks =~= marks.drop_last());
        match mark {
            Some(index) => {
                assert(index as int == marks[marks.len() - 1]);
                self.index = index;
            },
            None => {},
        }
    }
}

/// The model of a token that may be missing.
pub open spec fn token_option_view(token: Option<TokenType>) -> Option<Token> {
    match token {
        Some(t) => Some(t@),
        None => None,
    }
}

/// Decides `in_run`.
fn run_holds(run: Run, c: char) -> (r: bool)
    ensures
        r == in_run(run, c),
{
    match run {
        Run::Word => alphanumeric(c) || c == '_',
        Run::Quoted => c != '"',
        Run::Line => c != '\n',
    }
}

/// Appends the run under the cursor to `text` and leaves the cursor on the
/// character that ends it.
fn take_run(it: &mut ScannerIter, text: &mut String, run: Run)
    requires
        old(it).wf(),
    ensures
        final(it).wf(),
        final(it)@ == (Cursor {
            index: old(it)@.index + run_length(old(it)@.chars, old(it)@.index, run),
            ..old(it)@
        }),
        final(text)@ == old(text)@ + old(it)@.chars.subrange(old(it)@.index, final(it)@.index),
{
    let ghost start = it@.index;
    let ghost chars = it@.chars;
    proof {
        assert(text@ =~= old(text)@ + chars.subrange(start, start));
    }
    loop
        invariant
            it.wf(),
            it@ == (Cursor { index: it@.index, ..old(it)@ }),
            chars == old(it)@.chars,
            start == old(it)@.index,
            start <= it@.index,
            run_length(chars, start, run) == (it@.index - start) + run_length(
                chars,
                it@.index,
                run,
            ),
            text@ == old(text)@ + chars.subrange(start, it@.index),
        decreases chars.len() - it@.index,
    {
        let ghost at = it@.index;
        match it.next() {
            Some(c) => {
                if run_holds(run, *c) {
                    string_push(text, *c);
                    proof {
                        assert(chars.subrange(start, at + 1) =~= chars.subrange(start, at).push(
                            chars[at],
                        ));
                        assert(text@ =~= old(text)@ + chars.subrange(start, at + 1));
                    }
                } else {
                    it.prev();
                    return ;
                }
            },
            None => {
                return ;
            },
        }
    }
}

/// Reads `word` if the text holds it where the character before the cursor
/// starts it; leaves the cursor where it is if not.
fn keyword(it: &mut ScannerIter, word: &str) -> (found: bool)
    requires
        old(it).wf(),
        old(it)@.index >= 1,
        word@.len() >= 1,
    ensures
        final(it).wf(),
        found == starts_with(old(it)@.chars, old(it)@.index - 1, word@),
        final(it)@ == (Cursor {
            index: if found {
                old(it)@.index - 1 + word@.len()
            } else {
                old(it)@.index
            },
            ..old(it)@
        }),
{
    let ghost chars = it@.chars;
    let ghost start = it@.index - 1;
    let n = word.unicode_len();
    it.save();
    it.prev();
    let mut i: usize = 0;
    while i < n
        invariant
            it.wf(),
            n == word@.len(),
            i <= n,
            it@ == (Cursor {
                index: start + i,
                marks: old(it)@.marks.push(start + 1),
                ..old(it)@
            }),
            chars == old(it)@.chars,
            start == old(it)@.index - 1,
            0 <= start,
            start + i <= chars.len(),
            forall|j: int| 0 <= j < i ==> chars[start + j] == word@[j],
        decreases n - i,
    {
        let expected = word.get_char(i);
        let matched = match it.next() {
            Some(c) => *c == expected,
            None => false,
        };
        assert(matched == (start + i < chars.len() && chars[start + i] == word@[i as int]));
        if !matched {
            proof {
                if starts_with(chars, start, word@) {
                    let sub = chars.subrange(start, start + word@.len());
                    assert(sub[i as int] == chars[start + i]);
                }
                assert(it@.marks.drop_last() =~= old(it)@.marks);
            }
            it.restore();
            return false;
        }
        i += 1;
    }
    proof {
        assert(chars.subrange(start, start + word@.len()) =~= word@);
        assert(it@.marks.drop_last() =~= old(it)@.marks);
    }
    it.forget();
    true
}

/// Reads a keyword or a name whose first character, `c`, lies before the
/// cursor.
fn lex_word(it: &mut ScannerIter, c: char) -> (token: TokenType)
    requires
        old(it).wf(),
        old(it)@.index >= 1,
        c == old(it)@.chars[old(it)@.index - 1],
        starts_name(c),
    ensures
        final(it).wf(),
        final(it)@ == (Cursor {
            index: lex(old(it)@.chars, old(it)@.index - 1).next,
            ..old(it)@
        }),
        Some(token@) == lex(old(it)@.chars, old(it)@.index - 1).token,
        final(it)@.index >= old(it)@.index,
{
    proof {
        reveal_strlit("and");
        reveal_strlit("class");
        reveal_strlit("else");
        reveal_strlit("false");
        reveal_strlit("for");
        reveal_strlit("fun");
        reveal_strlit("if");
        reveal_strlit("nil");
        reveal_strlit("or");
        reveal_strlit("print");
        reveal_strlit("return");
        reveal_strlit("super");
        reveal_strlit("this");
        reveal_strlit("true");
        reveal_strlit("var");
        reveal_strlit("while");
    }
    if keyword(it, "and") {
        TokenType::And
    } else if keyword(it, "class") {
        TokenType::Class
    } else if keyword(it, "else") {
        TokenType::Else
    } else if keyword(it, "false") {
        TokenType::False
    } else if keyword(it, "for") {
        TokenType::For
    } else if keyword(it, "fun") {
        TokenType::Fun
    } else if keyword(it, "if") {
        TokenType::If
    } else if keyword(it, "nil") {
        TokenType::Nil
    } else if keyword(it, "or") {
        TokenType::Or
    } else if keyword(it, "print") {
        TokenType::Print
    } else if keyword(it, "return") {
        TokenType::Return
    } else if keyword(it, "super") {
        TokenType::Super
    } else if keyword(it, "this") {
        TokenType::This
    } else if keyword(it, "true") {
        TokenType::True
    } else if keyword(it, "var") {
        TokenType::Var
    } else if keyword(it, "while") {
        TokenType::While
    } else {
        TokenType::Identifier(word_from(it, c))
    }
}

/// Reads the rest of a name or numeral whose first character, `c`, lies
/// before the cursor.
fn word_from(it: &mut ScannerIter, c: char) -> (text: String)
    requires
        old(it).wf(),
        old(it)@.index >= 1,
        c == old(it)@.chars[old(it)@.index - 1],
    ensures
        final(it).wf(),
        final(it)@ == (Cursor {
            index: old(it)@.index + run_length(old(it)@.chars, old(it)@.index, Run::Word),
            ..old(it)@
        }),
        text@ == old(it)@.chars.subrange(old(it)@.index - 1, final(it)@.index),
{
    let mut text = String::new();
    string_push(&mut text, c);
    take_run(it, &mut text, Run::Word);
    proof {
        let chars = it@.chars;
        let pos = old(it)@.index - 1;
        lemma_run_in_text(chars, pos + 1, Run::Word);
        assert(text@ =~= chars.subrange(pos, it@.index));
    }
    text
}

/// Reads `two` if `=` is under the cursor, else `one`.
fn lex_with_equal(it: &mut ScannerIter, two: TokenType, one: TokenType) -> (token: TokenType)
    requires
        old(it).wf(),
        old(it)@.index >= 1,
    ensures
        final(it).wf(),
        final(it)@ == (Cursor {
            index: if old(it)@.index < old(it)@.chars.len() && old(it)@.chars[old(it)@.index]
                == '=' {
                old(it)@.index + 1
            } else {
                old(it)@.index
            },
            ..old(it)@
        }),
        token@ == if old(it)@.index < old(it)@.chars.len() && old(it)@.chars[old(it)@.index]
            == '=' {
            two@
        } else {
            one@
        },
{
    let follows = match it.peek() {
        Some(c) => *c == '=',
        None => false,
    };
    if follows {
        let _ = it.next();
        two
    } else {
        one
    }
}

/// Reads what starts with `c`, the character before the cursor.
fn lex_one(it: &mut ScannerIter, c: char) -> (token: Option<TokenType>)
    requires
        old(it).wf(),
        old(it)@.index >= 1,
        c == old(it)@.chars[old(it)@.index - 1],
    ensures
        final(it).wf(),
        final(it)@ == (Cursor {
            index: lex(old(it)@.chars, old(it)@.index - 1).next,
            ..old(it)@
        }),
        token_option_view(token) == lex(old(it)@.chars, old(it)@.index - 1).token,
        final(it)@.index >= old(it)@.index,
{
    let ghost chars = it@.chars;
    let ghost pos = it@.index - 1;
    if c == '(' {
        Some(TokenType::LeftParen)
    } else if c == ')' {
        Some(TokenType::RightParen)
    } else if c == '{' {
        Some(TokenType::LeftBrace)
    } else if c == '}' {
        Some(TokenType::RightBrace)
    } else if c == ',' {
        Some(TokenType::Comma)
    } else if c == '.' {
        Some(TokenType::Dot)
    } else if c == '-' {
        Some(TokenType::Minus)
    } else if c == '+' {
        Some(TokenType::Plus)
    } else if c == ';' {
        Some(TokenType::Semicolon)
    } else if c == '*' {
        Some(TokenType::Star)
    } else if c == '/' {
        let comment = match it.peek() {
            Some(next) => *next == '/',
            None => false,
        };
        if comment {
            let mut skipped = String::new();
            take_run(it, &mut skipped, Run::Line);
            proof {
                lemma_run_in_text(chars, pos + 1, Run::Line);
            }
            let _ = it.next();
            None
        } else {
            Some(TokenType::Slash)
        }
    } else if c == '!' {
        Some(lex_with_equal(it, TokenType::BangEqual, TokenType::Bang))
    } else if c == '=' {
        Some(lex_with_equal(it, TokenType::EqualEqual, TokenType::Equal))
    } else if c == '<' {
        Some(lex_with_equal(it, TokenType::LessEqual, TokenType::Less))
    } else if c == '>' {
        Some(lex_with_equal(it, TokenType::GreaterEqual, TokenType::Greater))
    } else if c == '"' {
        let mut text = String::new();
        take_run(it, &mut text, Run::Quoted);
        proof {
            lemma_run_in_text(chars, pos + 1, Run::Quoted);
            assert(text@ =~= chars.subrange(pos + 1, it@.index));
        }
        let _ = it.next();
        Some(TokenType::String(text))
    } else if c >= '0' && c <= '9' {
        Some(TokenType::Numeral(word_from(it, c)))
    } else if (c >= 'a' && c <= 'z') || (c >= 'A' && c <= 'Z') || c == '_' {
        Some(lex_word(it, c))
    } else if c == ' ' || c == '\r' || c == '\t' {
        None
    } else {
        let mut text = String::new();
        string_push(&mut text, c);
        assert(text@ =~= seq![c]);
        Some(TokenType::Error(text))
    }
}

impl Scanner {
    /// A scanner over the characters of `str`.
    pub fn new(str: &str) -> (s: Scanner)
        ensures
            s@ == str@,
    {
        let mut chars: Vec<char> = Vec::new();
        for c in it: str.chars()
            invariant
                it.seq() == str@,
                chars@ == str@.take(it.index() as int),
        {
            chars.push(c);
        }
        Scanner { chars }
    }

    /// A cursor at the start of the text.
    pub fn iter(&self) -> (it: ScannerIter<'_>)
        ensures
            it.wf(),
            it@ == (Cursor { chars: self@, index: 0, marks: Seq::empty() }),
    {
        let it = ScannerIter { scanner: self, index: 0, stack: Vec::new() };
        assert(it@.marks =~= Seq::<int>::empty());
        it
    }

    /// The tokens of the text, with `Eof` at the end.
    pub fn scan_tokens(&self) -> (tokens: Vec<TokenType>)
        ensures
            token_views(tokens@) == scan(self@),
    {
        let mut tokens: Vec<TokenType> = Vec::new();
        let mut it = self.iter();
        proof {
            assert(token_views(tokens@) =~= Seq::<Token>::empty());
            assert(token_views(tokens@) + scan_from(self@, 0) =~= scan(self@));
        }
        loop
            invariant
                it.wf(),
                it@.chars == self@,
                token_views(tokens@) + scan_from(self@, it@.index) == scan(self@),
            decreases self@.len() - it@.index,
        {
            let ghost pos = it@.index;
            let ghost before = tokens@;
            let c = match it.next() {
                Some(c) => *c,
                None => {
                    proof {
                        assert(token_views(tokens@.push(TokenType::Eof)) =~= token_views(tokens@)
                            + seq![Token::bare(TokenKind::Eof)]);
                    }
                    tokens.push(TokenType::Eof);
                    return tokens;
                },
            };
            match lex_one(&mut it, c) {
                Some(token) => {
                    proof {
                        assert(token_views(before.push(token)) =~= token_views(before) + seq![
                            token@,
                        ]);
                        assert((token_views(before) + seq![token@]) + scan_from(self@, it@.index)
                            =~= token_views(before) + (seq![token@] + scan_from(
                            self@,
                            it@.index,
                        )));
                    }
                    tokens.push(token);
                },
                None => {},
            }
        }
    }
}

} // verus!
