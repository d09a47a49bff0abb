//! The scanner: turns source bytes into tokens, synthesising the layout
//! tokens `Indent`, `Dedent` and `NewLine` from whitespace (the off-side
//! rule). A space is one column wide, a tab four; widths are compared by
//! total only.

use vstd::prelude::*;

use crate::token::Token;
use crate::token::TokenType;

verus! {

// ---------------------------------------------------------------------------
// Byte classification
// ---------------------------------------------------------------------------

pub open spec fn spec_is_digit(c: u8) -> bool {
    48 <= c <= 57
}

pub open spec fn spec_is_alpha(c: u8) -> bool {
    (97 <= c <= 122) || (65 <= c <= 90) || c == 95
}

pub open spec fn spec_is_alnum(c: u8) -> bool {
    spec_is_alpha(c) || spec_is_digit(c)
}

pub open spec fn is_space_or_tab(c: u8) -> bool {
    c == 32 || c == 9
}

// ---------------------------------------------------------------------------
// Positions reached by the scanning loops, as functions of the source text
// ---------------------------------------------------------------------------

/// Number of newline bytes in `src[0..end]`.
pub open spec fn nl_count(src: Seq<u8>, end: int) -> int
    decreases end,
{
    if end <= 0 || end > src.len() {
        0
    } else {
        nl_count(src, end - 1) + if src[end - 1] == 10 { 1int } else { 0int }
    }
}

/// First position at or after `i` that does not hold a space or a tab.
pub open spec fn skip_ws(src: Seq<u8>, i: int) -> int
    decreases src.len() - i,
{
    if 0 <= i < src.len() && is_space_or_tab(src[i]) {
        skip_ws(src, i + 1)
    } else {
        i
    }
}

/// Scans forward from `i` over spaces, tabs and further newlines — the
/// whitespace that follows a newline — accumulating the column width of the
/// line begun last (a space is 1, a tab 4; a newline resets the width).
/// Yields the stop position, that width, and whether the end of the source
/// was reached instead of a byte of code.
///
/// A blank line never contributes an indentation signal: its width is thrown
/// away by the reset, so only the line of the next non-blank byte counts.
pub open spec fn blank_scan(src: Seq<u8>, i: int, col: int) -> (int, int, bool)
    decreases src.len() - i,
{
    if i < 0 || i >= src.len() {
        (i, col, true)
    } else if src[i] == 32 {
        blank_scan(src, i + 1, col + 1)
    } else if src[i] == 9 {
        blank_scan(src, i + 1, col + 4)
    } else if src[i] == 10 {
        blank_scan(src, i + 1, 0)
    } else {
        (i, col, false)
    }
}

/// Where the line that `blank_scan` stops on begins: just past the last
/// newline consumed before the stop position, or `ls` when none is.
pub open spec fn blank_line_start(src: Seq<u8>, i: int, ls: int) -> int
    decreases src.len() - i,
{
    if i < 0 || i >= src.len() {
        ls
    } else if src[i] == 32 || src[i] == 9 {
        blank_line_start(src, i + 1, ls)
    } else if src[i] == 10 {
        blank_line_start(src, i + 1, i + 1)
    } else {
        ls
    }
}

/// First position at or after `i` that does not hold an identifier byte.
pub open spec fn ident_end(src: Seq<u8>, i: int) -> int
    decreases src.len() - i,
{
    if 0 <= i < src.len() && spec_is_alnum(src[i]) {
        ident_end(src, i + 1)
    } else {
        i
    }
}

/// First position at or after `i` that does not hold a digit.
pub open spec fn digits_end(src: Seq<u8>, i: int) -> int
    decreases src.len() - i,
{
    if 0 <= i < src.len() && spec_is_digit(src[i]) {
        digits_end(src, i + 1)
    } else {
        i
    }
}

/// End position of a number lexeme whose digits start at `i`: the integer
/// digits, then a fractional part only when a `.` is followed directly by a
/// digit (a trailing dot is not part of the number).
pub open spec fn number_end(src: Seq<u8>, i: int) -> int {
    let j = digits_end(src, i);
    if j + 1 < src.len() && src[j] == 46 && spec_is_digit(src[j + 1]) {
        digits_end(src, j + 1)
    } else {
        j
    }
}

/// Position one past the closing quote of a string whose body starts at `i`,
/// or `None` when the string is unterminated.
pub open spec fn string_end(src: Seq<u8>, i: int) -> Option<int>
    decreases src.len() - i,
{
    if i < 0 || i >= src.len() {
        None
    } else if src[i] == 34 {
        Some(i + 1)
    } else {
        string_end(src, i + 1)
    }
}

/// The token type of an identifier lexeme: a keyword where the bytes match
/// one exactly, `Identifier` otherwise.
pub open spec fn keyword_type(s: Seq<u8>) -> TokenType {
    if s =~= seq![97u8, 110, 100] {
        TokenType::And  // and
    } else if s =~= seq![101u8, 108, 115, 101] {
        TokenType::Else  // else
    } else if s =~= seq![102u8, 97, 108, 115, 101] {
        TokenType::False  // false
    } else if s =~= seq![102u8, 111, 114] {
        TokenType::For  // for
    } else if s =~= seq![102u8, 110] {
        TokenType::Fn  // fn
    } else if s =~= seq![105u8, 102] {
        TokenType::If  // if
    } else if s =~= seq![110u8, 117, 108, 108] {
        TokenType::Null  // null
    } else if s =~= seq![111u8, 114] {
        TokenType::Or  // or
    } else if s =~= seq![114u8, 101, 116, 117, 114, 110] {
        TokenType::Return  // return
    } else if s =~= seq![116u8, 114, 117, 101] {
        TokenType::True  // true
    } else if s =~= seq![118u8, 97, 114] {
        TokenType::Var  // var
    } else if s =~= seq![119u8, 104, 105, 108, 101] {
        TokenType::While  // while
    } else {
        TokenType::Identifier
    }
}

/// How many entries of the indent stack lie strictly above the target — the
/// dedents (or one inconsistency error) still owed before ordinary scanning
/// may resume.
pub open spec fn count_gt(s: Seq<usize>, t: usize) -> int
    decreases s.len(),
{
    if s.len() == 0 {
        0
    } else {
        count_gt(s.drop_last(), t) + if s.last() > t { 1int } else { 0int }
    }
}

// ---------------------------------------------------------------------------
// Lemmas about the position functions
// ---------------------------------------------------------------------------

pub broadcast proof fn lemma_count_gt_nonneg(s: Seq<usize>, t: usize)
    ensures
        #[trigger] count_gt(s, t) >= 0,
    decreases s.len(),
{
    if s.len() > 0 {
        lemma_count_gt_nonneg(s.drop_last(), t);
    }
}

pub proof fn lemma_nl_count_bounds(src: Seq<u8>, end: int)
    ensures
        0 <= nl_count(src, end),
        end >= 0 ==> nl_count(src, end) <= end,
    decreases end,
{
    if 0 < end <= src.len() {
        lemma_nl_count_bounds(src, end - 1);
    }
}

pub proof fn lemma_nl_count_step(src: Seq<u8>, i: int)
    requires
        0 <= i < src.len(),
        src[i] != 10,
    ensures
        nl_count(src, i + 1) == nl_count(src, i),
{
}

pub proof fn lemma_skip_ws_bounds(src: Seq<u8>, i: int)
    requires
        0 <= i <= src.len(),
    ensures
        i <= skip_ws(src, i) <= src.len(),
        skip_ws(src, i) < src.len() ==> !is_space_or_tab(src[skip_ws(src, i)]),
    decreases src.len() - i,
{
    if i < src.len() && is_space_or_tab(src[i]) {
        lemma_skip_ws_bounds(src, i + 1);
    }
}

pub proof fn lemma_ident_end_bounds(src: Seq<u8>, i: int)
    requires
        0 <= i <= src.len(),
    ensures
        i <= ident_end(src, i) <= src.len(),
    decreases src.len() - i,
{
    if i < src.len() && spec_is_alnum(src[i]) {
        lemma_ident_end_bounds(src, i + 1);
    }
}

pub proof fn lemma_digits_end_bounds(src: Seq<u8>, i: int)
    requires
        0 <= i <= src.len(),
    ensures
        i <= digits_end(src, i) <= src.len(),
    decreases src.len() - i,
{
    if i < src.len() && spec_is_digit(src[i]) {
        lemma_digits_end_bounds(src, i + 1);
    }
}

pub proof fn lemma_string_end_bounds(src: Seq<u8>, i: int)
    requires
        0 <= i <= src.len(),
    ensures
        (string_end(src, i) matches Some(e) ==> i < e <= src.len()),
    decreases src.len() - i,
{
    if i < src.len() && src[i] != 34 {
        lemma_string_end_bounds(src, i + 1);
    }
}

// ---------------------------------------------------------------------------
// The scanner
// ---------------------------------------------------------------------------

pub struct Scanner {
    pub source: Vec<u8>,
    /// The start of the token currently being scanned (byte index).
    pub start: usize,
    /// One past the most recently consumed byte: the cursor.
    pub next: usize,
    /// Current line, 1-based.
    pub line: usize,
    /// Column widths of the indentation levels currently open; always begins
    /// with 0 and increases strictly.
    pub indent_stack: Vec<usize>,
    /// The indentation column of the next logical line of code.
    pub indent_target: usize,
    /// Kind of the last token emitted, error tokens aside.
    pub previous_token: Option<TokenType>,
    /// What the last error token meant, for the compiler's report.
    pub error_message: &'static str,
    /// How many `Indent` tokens have been emitted so far.
    pub indents: Ghost<int>,
    /// How many `Dedent` tokens have been emitted so far.
    pub dedents: Ghost<int>,
    /// False once an inconsistent dedent has desynchronised the indent stack.
    pub indent_ok: Ghost<bool>,
}

impl Scanner {
    pub open spec fn src(self) -> Seq<u8> {
        self.source@
    }

    pub open spec fn spec_start(self) -> int {
        self.start as int
    }

    pub open spec fn spec_next(self) -> int {
        self.next as int
    }

    pub open spec fn spec_line(self) -> int {
        self.line as int
    }

    pub open spec fn stack(self) -> Seq<usize> {
        self.indent_stack@
    }

    pub open spec fn target(self) -> usize {
        self.indent_target
    }

    pub open spec fn prev(self) -> Option<TokenType> {
        self.previous_token
    }

    pub open spec fn wf(self) -> bool {
        &&& 4 * self.src().len() <= usize::MAX as int
        &&& self.start <= self.next <= self.src().len()
        &&& self.line >= 1
        &&& self.line == 1 + nl_count(self.src(), self.next as int)
        &&& self.stack().len() >= 1
        &&& self.stack()[0] == 0
        &&& (forall|i: int, j: int|
            0 <= i < j < self.stack().len() ==> self.stack()[i] < self.stack()[j])
        &&& (self.indent_ok@ ==> self.indents@ + 1 == self.dedents@ + self.stack().len())
        &&& self.indents@ >= 0
        &&& self.dedents@ >= 0
    }

    // The measure under which repeated scanning reaches `Eof`: bytes left,
    // then dedents owed, then whether one indent is owed.

    pub open spec fn dec1(self) -> int {
        self.src().len() - self.next
    }

    pub open spec fn dec2(self) -> int {
        count_gt(self.stack(), self.indent_target)
    }

    pub open spec fn dec3(self) -> int {
        if self.indent_target > self.stack().last() {
            1int
        } else {
            0int
        }
    }
}

/// The scanning measure strictly shrinks, lexicographically.
pub open spec fn measure_lt(post: Scanner, pre: Scanner) -> bool {
    ||| post.dec1() < pre.dec1()
    ||| (post.dec1() == pre.dec1() && post.dec2() < pre.dec2())
    ||| (post.dec1() == pre.dec1() && post.dec2() == pre.dec2() && post.dec3() < pre.dec3())
}

pub open spec fn measure_eq(post: Scanner, pre: Scanner) -> bool {
    post.dec1() == pre.dec1() && post.dec2() == pre.dec2() && post.dec3() == pre.dec3()
}

/// What one scanning step does: the full relation between the scanner before
/// a call, the scanner after it, and the token returned. The caller's
/// `previous_token` update is not covered here.
///
/// The clauses under "indentation resolution" and "newline" carry the layout
/// laws: every `Indent` pushes one entry and every `Dedent` pops one, so over
/// a whole scan that ends balanced the counts agree; blank lines never set
/// the indent target (`blank_scan` discards their widths); and a line after a
/// `:` that fails to indent strictly deeper yields an `Error` token, as does
/// a deeper line after anything else.
pub open spec fn scan_post(pre: Scanner, post: Scanner, t: Token) -> bool {
    let src = pre.src();
    &&& post.wf()
    &&& post.src() == src
    // Emission counters.
    &&& post.indents@ == pre.indents@ + (if t.token_type == TokenType::Indent {
        1int
    } else {
        0int
    })
    &&& post.dedents@ == pre.dedents@ + (if t.token_type == TokenType::Dedent {
        1int
    } else {
        0int
    })
    &&& (post.indent_ok@ ==> pre.indent_ok@)
    &&& (t.token_type != TokenType::Error ==> post.indent_ok@ == pre.indent_ok@)
    // Progress: every token but `Eof` shrinks the measure.
    &&& (t.token_type != TokenType::Eof ==> measure_lt(post, pre))
    &&& (t.token_type == TokenType::Eof ==> post.next == src.len()
        && post.target() == post.stack().last() && (measure_lt(post, pre) || measure_eq(
        post,
        pre,
    )))
    // A full scan that ends with the indentation resolved and the target back
    // at the margin has emitted as many dedents as indents.
    &&& (t.token_type == TokenType::Eof && post.indent_ok@ && post.indent_target == 0
        ==> post.dedents@ == post.indents@)
    // Token span sanity.
    &&& t.start + t.length <= src.len()
    &&& 1 <= t.line <= post.line
    // Phase 1: indentation resolution owes a token.
    &&& (pre.target() != pre.stack().last() ==> {
        &&& post.next == pre.next && post.start == post.next && post.line == pre.line
        &&& post.indent_target == pre.indent_target
        &&& t.start == pre.start && t.start + t.length == pre.next && t.line == pre.line
        &&& (t.token_type == TokenType::Indent <==> pre.target() > pre.stack().last())
        &&& (pre.target() > pre.stack().last() ==> post.stack() == pre.stack().push(
            pre.indent_target,
        ))
        &&& (pre.target() < pre.stack().last() ==> {
            &&& post.stack() == pre.stack().drop_last()
            &&& (t.token_type == TokenType::Dedent <==> pre.target() <= pre.stack()[
                pre.stack().len() - 2])
            &&& (t.token_type == TokenType::Dedent || t.token_type == TokenType::Error)
            &&& (t.token_type == TokenType::Error ==> !post.indent_ok@ && post.error_message@
                == "Inconsistent indent."@)
        })
    })
    // Phase 2: ordinary scanning from the first non-blank byte.
    &&& (pre.target() == pre.stack().last() ==> {
        let p = skip_ws(src, pre.next as int);
        &&& post.stack() == pre.stack()
        &&& (p >= src.len() ==> t == (Token {
            token_type: TokenType::Eof,
            start: src.len() as usize,
            length: 0,
            line: pre.line,
        }) && post.next == src.len() && post.indent_target == pre.indent_target)
        &&& (p < src.len() && src[p] == 10 ==> newline_case(pre, post, t, p))
        &&& (p < src.len() && src[p] != 10 ==> {
            &&& post.indent_target == pre.indent_target
            &&& post.start == post.next && post.line >= pre.line
            &&& char_token_case(src, p, pre.line as int, post.line as int, t)
            &&& post.next == t.start + t.length
            &&& (src[p] == 34 && string_end(src, p + 1) is None ==> post.error_message@
                == "Unterminated string."@)
            &&& (!spec_is_alpha(src[p]) && !spec_is_digit(src[p]) && !one_or_two_start(src[p])
                && src[p] != 34 && src[p] != 10 ==> post.error_message@
                == "Unexpected character."@)
        })
    })
}

/// A newline was consumed at `p`: the whitespace that follows is measured by
/// `blank_scan`, and the width of the next non-blank line either becomes the
/// indent target or — checked against the token before the newline — is
/// rejected with an `Error` token.
pub open spec fn newline_case(pre: Scanner, post: Scanner, t: Token, p: int) -> bool {
    let src = pre.src();
    let scan = blank_scan(src, p + 1, 0);
    let bls = blank_line_start(src, p + 1, p + 1);
    let col = scan.1;
    let cur = pre.stack().last();
    &&& post.next == scan.0
    // The file ended: the target returns to the margin so that remaining
    // indents are closed by dedents before `Eof`.
    &&& (scan.2 ==> t == (Token {
        token_type: TokenType::NewLine,
        start: p as usize,
        length: 1,
        line: pre.line,
    }) && post.indent_target == 0 && post.start == bls)
    &&& (!scan.2 ==> {
        &&& (pre.prev() == Some(TokenType::Colon) && col <= cur ==> t == (Token {
            token_type: TokenType::Error,
            start: bls as usize,
            length: (scan.0 - bls) as usize,
            line: post.line,
        }) && post.indent_target == pre.indent_target && post.start == post.next
            && post.error_message@ == "Must indent the following code after ':'."@)
        &&& (pre.prev() is Some && pre.prev() != Some(TokenType::Colon) && col > cur ==> t == (
        Token {
            token_type: TokenType::Error,
            start: bls as usize,
            length: (scan.0 - bls) as usize,
            line: post.line,
        }) && post.indent_target == pre.indent_target && post.start == post.next
            && post.error_message@ == "Cannot indent code after newline."@)
        &&& ((pre.prev() is None || (pre.prev() == Some(TokenType::Colon) && col > cur) || (
        pre.prev() is Some && pre.prev() != Some(TokenType::Colon) && col <= cur)) ==> t == (Token {
            token_type: TokenType::NewLine,
            start: p as usize,
            length: 1,
            line: pre.line,
        }) && post.indent_target == col && post.start == bls)
    })
}

/// Classification of a token that begins at the non-blank byte `p`.
pub open spec fn char_token_case(src: Seq<u8>, p: int, line0: int, line1: int, t: Token) -> bool {
    let c = src[p];
    &&& (spec_is_alpha(c) ==> t == (Token {
        token_type: keyword_type(src.subrange(p, ident_end(src, p + 1))),
        start: p as usize,
        length: (ident_end(src, p + 1) - p) as usize,
        line: line0 as usize,
    }))
    &&& (spec_is_digit(c) ==> t == (Token {
        token_type: TokenType::Number,
        start: p as usize,
        length: (number_end(src, p + 1) - p) as usize,
        line: line0 as usize,
    }))
    &&& (c == 34 ==> match string_end(src, p + 1) {
        Some(e) => t == (Token {
            token_type: TokenType::String,
            start: p as usize,
            length: (e - p) as usize,
            line: line1 as usize,
        }),
        None => t == (Token {
            token_type: TokenType::Error,
            start: p as usize,
            length: (src.len() - p) as usize,
            line: line1 as usize,
        }),
    })
    &&& (c == 40 ==> t == one_char_token(TokenType::LeftParen, p, line0))
    &&& (c == 41 ==> t == one_char_token(TokenType::RightParen, p, line0))
    &&& (c == 44 ==> t == one_char_token(TokenType::Comma, p, line0))
    &&& (c == 45 ==> t == one_char_token(TokenType::Minus, p, line0))
    &&& (c == 43 ==> t == one_char_token(TokenType::Plus, p, line0))
    &&& (c == 47 ==> t == one_char_token(TokenType::Slash, p, line0))
    &&& (c == 42 ==> t == one_char_token(TokenType::Star, p, line0))
    &&& (c == 58 ==> t == one_char_token(TokenType::Colon, p, line0))
    &&& (c == 33 ==> t == two_char_or(src, p, line0, TokenType::BangEqual, TokenType::Bang))
    &&& (c == 61 ==> t == two_char_or(src, p, line0, TokenType::EqualEqual, TokenType::Equal))
    &&& (c == 60 ==> t == two_char_or(src, p, line0, TokenType::LessEqual, TokenType::Less))
    &&& (c == 62 ==> t == two_char_or(src, p, line0, TokenType::GreaterEqual, TokenType::Greater))
    &&& (!spec_is_alpha(c) && !spec_is_digit(c) && !one_or_two_start(c) && c != 34 ==> t
        == one_char_token(TokenType::Error, p, line0))
}

pub open spec fn one_or_two_start(c: u8) -> bool {
    c == 40 || c == 41 || c == 44 || c == 45 || c == 43 || c == 47 || c == 42 || c == 58 || c == 33
        || c == 61 || c == 60 || c == 62
}

pub open spec fn one_char_token(tt: TokenType, p: int, line: int) -> Token {
    Token { token_type: tt, start: p as usize, length: 1, line: line as usize }
}

/// An operator that may pair with a following `=`.
pub open spec fn two_char_or(src: Seq<u8>, p: int, line: int, long: TokenType, short: TokenType) -> Token {
    if p + 1 < src.len() && src[p + 1] == 61 {
        Token { token_type: long, start: p as usize, length: 2, line: line as usize }
    } else {
        Token { token_type: short, start: p as usize, length: 1, line: line as usize }
    }
}

/// Fields that no scanning primitive changes: everything but the cursor
/// trio (`start`, `next`, `line`) and the error message.
pub open spec fn same_frame(pre: Scanner, post: Scanner) -> bool {
    &&& post.source == pre.source
    &&& post.indent_stack == pre.indent_stack
    &&& post.indent_target == pre.indent_target
    &&& post.previous_token == pre.previous_token
    &&& post.indents == pre.indents
    &&& post.dedents == pre.dedents
    &&& post.indent_ok == pre.indent_ok
}

impl Scanner {
    pub fn new(source: Vec<u8>) -> (s: Scanner)
        requires
            4 * source@.len() <= usize::MAX as int,
        ensures
            s.wf(),
            s.src() == source@,
            s.start == 0,
            s.next == 0,
            s.line == 1,
            s.stack() =~= seq![0usize],
            s.indent_target == 0,
            s.prev() is None,
            s.indents@ == 0,
            s.dedents@ == 0,
            s.indent_ok@ == true,
    {
        let mut indent_stack: Vec<usize> = Vec::new();
        indent_stack.push(0);
        Scanner {
            source,
            start: 0,
            next: 0,
            line: 1,
            indent_stack,
            indent_target: 0,
            previous_token: None,
            error_message: "",
            indents: Ghost(0),
            dedents: Ghost(0),
            indent_ok: Ghost(true),
        }
    }

    /// What the most recent error token meant.
    pub fn last_error_message(&self) -> (r: &'static str)
        ensures
            r == self.error_message,
    {
        self.error_message
    }

    fn is_alpha(&self, c: u8) -> (r: bool)
        ensures
            r == spec_is_alpha(c),
    {
        (c >= 'a' as u8 && c <= 'z' as u8) || (c >= 'A' as u8 && c <= 'Z' as u8) || c == '_' as u8
    }

    fn is_digit(&self, c: u8) -> (r: bool)
        ensures
            r == spec_is_digit(c),
    {
        c >= '0' as u8 && c <= '9' as u8
    }

    fn end_reached(&self) -> (r: bool)
        requires
            self.next <= self.src().len(),
        ensures
            r == (self.spec_next() == self.src().len()),
    {
        self.next >= self.source.len()
    }

    fn peek(&self) -> (r: Option<u8>)
        requires
            self.next <= self.src().len(),
        ensures
            r == (if self.spec_next() < self.src().len() {
                Some(self.src()[self.spec_next()])
            } else {
                None::<u8>
            }),
    {
        if self.next < self.source.len() {
            Some(self.source[self.next])
        } else {
            None
        }
    }

    fn peek_next(&self) -> (r: Option<u8>)
        requires
            self.next <= self.src().len(),
            self.src().len() < usize::MAX as int,
        ensures
            r == (if self.spec_next() + 1 < self.src().len() {
                Some(self.src()[self.spec_next() + 1])
            } else {
                None::<u8>
            }),
    {
        if self.next + 1 < self.source.len() {
            Some(self.source[self.next + 1])
        } else {
            None
        }
    }

    fn advance(&mut self) -> (r: Option<u8>)
        requires
            old(self).next <= old(self).src().len(),
        ensures
            same_frame(*old(self), *final(self)),
            final(self).start == old(self).start,
            final(self).line == old(self).line,
            final(self).error_message == old(self).error_message,
            old(self).spec_next() < old(self).src().len() ==> r == Some(
                old(self).src()[old(self).spec_next()],
            ) && final(self).next == old(self).next + 1,
            old(self).spec_next() == old(self).src().len() ==> r is None && *final(self) == *old(
                self,
            ),
    {
        if self.next < self.source.len() {
            let c = self.source[self.next];
            self.next = self.next + 1;
            Some(c)
        } else {
            None
        }
    }

    fn expect(&mut self, expected: u8) -> (r: bool)
        requires
            old(self).next <= old(self).src().len(),
        ensures
            same_frame(*old(self), *final(self)),
            final(self).start == old(self).start,
            final(self).line == old(self).line,
            final(self).error_message == old(self).error_message,
            r == (old(self).spec_next() < old(self).src().len() && old(self).src()[old(
                self,
            ).spec_next()] == expected),
            r ==> final(self).next == old(self).next + 1,
            !r ==> *final(self) == *old(self),
    {
        match self.peek() {
            Some(c) => {
                if c != expected {
                    return false;
                }
                self.advance();
                true
            },
            None => false,
        }
    }

    fn make_token(&mut self, token_type: TokenType) -> (t: Token)
        requires
            old(self).start <= old(self).next,
        ensures
            same_frame(*old(self), *final(self)),
            final(self).next == old(self).next,
            final(self).line == old(self).line,
            final(self).start == old(self).next,
            final(self).error_message == old(self).error_message,
            t == (Token {
                token_type,
                start: old(self).start,
                length: (old(self).next - old(self).start) as usize,
                line: old(self).line,
            }),
    {
        let token = Token::new(token_type, self.start, self.next - self.start, self.line);
        self.start = self.next;
        token
    }

    fn make_err_token(&mut self, message: &'static str) -> (t: Token)
        requires
            old(self).start <= old(self).next,
        ensures
            same_frame(*old(self), *final(self)),
            final(self).next == old(self).next,
            final(self).line == old(self).line,
            final(self).start == old(self).next,
            t == (Token {
                token_type: TokenType::Error,
                start: old(self).start,
                length: (old(self).next - old(self).start) as usize,
                line: old(self).line,
            }),
            final(self).error_message == message,
    {
        self.error_message = message;
        self.make_token(TokenType::Error)
    }

    /// The bytes of the lexeme currently delimited by `start` and `next`.
    fn lexeme(&self) -> (r: Vec<u8>)
        requires
            self.start <= self.next <= self.src().len(),
        ensures
            r@ == self.src().subrange(self.spec_start(), self.spec_next()),
    {
        let mut out: Vec<u8> = Vec::new();
        let mut i = self.start;
        while i < self.next
            invariant
                self.start <= i <= self.next <= self.src().len(),
                out@ =~= self.src().subrange(self.spec_start(), i as int),
            decreases self.next - i,
        {
            out.push(self.source[i]);
            proof {
                assert(out@ =~= self.src().subrange(self.spec_start(), i + 1));
            }
            i = i + 1;
        }
        out
    }

    /// Skips spaces and tabs inside the current line.
    fn whitespace(&mut self)
        requires
            old(self).next <= old(self).src().len(),
        ensures
            same_frame(*old(self), *final(self)),
            final(self).start == old(self).start,
            final(self).line == old(self).line,
            final(self).error_message == old(self).error_message,
            final(self).next == skip_ws(old(self).src(), old(self).spec_next()),
            nl_count(final(self).src(), final(self).spec_next()) == nl_count(
                old(self).src(),
                old(self).spec_next(),
            ),
    {
        loop
            invariant
                self.next <= self.src().len(),
                same_frame(*old(self), *self),
                self.start == old(self).start,
                self.line == old(self).line,
                self.error_message == old(self).error_message,
                skip_ws(self.src(), self.spec_next()) == skip_ws(
                    old(self).src(),
                    old(self).spec_next(),
                ),
                nl_count(self.src(), self.spec_next()) == nl_count(
                    old(self).src(),
                    old(self).spec_next(),
                ),
            decreases self.src().len() - self.next,
        {
            match self.peek() {
                Some(c) => {
                    if c == ' ' as u8 || c == '\t' as u8 {
                        self.advance();
                    } else {
                        return ;
                    }
                },
                None => {
                    return ;
                },
            }
        }
    }
}


impl Scanner {
    /// Emits the `Indent`, `Dedent` or inconsistency `Error` token owed when
    /// the indent target differs from the innermost open level; one token per
    /// call, so a deep unwind spreads over successive calls.
    fn resolve_indent(&mut self) -> (r: Option<Token>)
        requires
            old(self).wf(),
        ensures
            final(self).wf(),
            final(self).source == old(self).source,
            final(self).next == old(self).next,
            final(self).line == old(self).line,
            final(self).previous_token == old(self).previous_token,
            final(self).indent_target == old(self).indent_target,
            (r is None <==> old(self).target() == old(self).stack().last()),
            r is None ==> *final(self) == *old(self),
            (r matches Some(t) ==> {
                &&& measure_lt(*final(self), *old(self))
                &&& final(self).start == final(self).next
                &&& t.start == old(self).start && t.start + t.length == old(self).next && t.line
                    == old(self).line
                &&& (t.token_type == TokenType::Indent || t.token_type == TokenType::Dedent
                    || t.token_type == TokenType::Error)
                &&& (t.token_type == TokenType::Indent <==> old(self).target() > old(
                    self,
                ).stack().last())
                &&& (old(self).target() > old(self).stack().last() ==> final(self).stack() == old(
                    self,
                ).stack().push(old(self).indent_target))
                &&& (old(self).target() < old(self).stack().last() ==> {
                    &&& final(self).stack() == old(self).stack().drop_last()
                    &&& (t.token_type == TokenType::Dedent <==> old(self).target() <= old(
                        self,
                    ).stack()[old(self).stack().len() - 2])
                    &&& (t.token_type == TokenType::Error ==> !final(self).indent_ok@ && final(self).error_message@ == "Inconsistent indent."@)
                })
                &&& final(self).indents@ == old(self).indents@ + (
                if t.token_type == TokenType::Indent {
                    1int
                } else {
                    0int
                })
                &&& final(self).dedents@ == old(self).dedents@ + (
                if t.token_type == TokenType::Dedent {
                    1int
                } else {
                    0int
                })
                &&& (final(self).indent_ok@ ==> old(self).indent_ok@)
                &&& (t.token_type != TokenType::Error ==> final(self).indent_ok@ == old(
                    self,
                ).indent_ok@)
            }),
    {
        let ghost pre = *self;
        let current_indent = self.indent_stack[self.indent_stack.len() - 1];

        if self.indent_target == current_indent {
            return None;
        }
        if self.indent_target > current_indent {
            self.indent_stack.push(self.indent_target);
            proof {
                self.indents@ = self.indents@ + 1;
                assert(self.stack().drop_last() =~= pre.stack());
                assert forall|i: int, j: int| 0 <= i < j < self.stack().len() implies self.stack()[i]
                    < self.stack()[j] by {
                    if j < self.stack().len() - 1 {
                        assert(pre.stack()[i] < pre.stack()[j]);
                    } else if i < self.stack().len() - 1 {
                        assert(pre.stack()[i] <= pre.stack()[pre.stack().len() - 1]);
                    }
                }
            }
            return Some(self.make_token(TokenType::Indent));
        }
        // The target sits below the innermost level: close one level.
        proof {
            if self.indent_stack@.len() == 1 {
                assert(pre.stack().last() == 0);
            }
        }
        self.indent_stack.pop();
        proof {
            assert(self.stack() =~= pre.stack().drop_last());
        }
        let new_top = self.indent_stack[self.indent_stack.len() - 1];
        if self.indent_target > new_top {
            // Dedenting must land on a level that is already open.
            proof {
                self.indent_ok@ = false;
            }
            return Some(self.make_err_token("Inconsistent indent."));
        }
        proof {
            self.dedents@ = self.dedents@ + 1;
        }
        return Some(self.make_token(TokenType::Dedent));
    }

    /// Consumes a newline if one is due, measures the indentation of the next
    /// non-blank line (blank lines carry no signal), validates it against the
    /// token before the newline, and either sets the indent target or yields
    /// an `Error` token.
    fn newline(&mut self) -> (r: Option<Token>)
        requires
            old(self).wf(),
            old(self).start == old(self).next,
        ensures
            final(self).wf(),
            final(self).source == old(self).source,
            final(self).indent_stack == old(self).indent_stack,
            final(self).previous_token == old(self).previous_token,
            final(self).indents == old(self).indents,
            final(self).dedents == old(self).dedents,
            final(self).indent_ok == old(self).indent_ok,
            (r is None <==> !(old(self).spec_next() < old(self).src().len() && old(self).src()[old(
                self,
            ).spec_next()] == 10)),
            r is None ==> *final(self) == *old(self),
            (r matches Some(t) ==> {
                &&& newline_case(*old(self), *final(self), t, old(self).spec_next())
                &&& measure_lt(*final(self), *old(self))
                &&& t.start + t.length <= final(self).src().len()
                &&& 1 <= t.line <= final(self).line
                &&& final(self).start <= final(self).next
            }),
    {
        let ghost pre = *self;
        if !self.expect('\n' as u8) {
            return None;
        }
        let newline_token = self.make_token(TokenType::NewLine);
        proof {
            lemma_nl_count_bounds(pre.src(), pre.spec_next());
        }
        self.line = self.line + 1;
        let mut col: usize = 0;
        let ghost i0 = pre.spec_next() + 1;
        loop
            invariant
                pre == *old(self),
                pre.wf(),
                pre.spec_next() < pre.src().len() && pre.src()[pre.spec_next()] == 10,
                i0 == pre.spec_next() + 1,
                pre.line <= self.line,
                self.wf(),
                self.source == pre.source,
                self.indent_stack == pre.indent_stack,
                self.previous_token == pre.previous_token,
                self.indents == pre.indents,
                self.dedents == pre.dedents,
                self.indent_ok == pre.indent_ok,
                self.indent_target == pre.indent_target,
                pre.spec_next() < self.spec_next() <= self.src().len(),
                self.start <= self.next,
                col <= 4 * self.spec_next(),
                blank_scan(self.src(), self.spec_next(), col as int) == blank_scan(pre.src(), i0, 0),
                blank_line_start(self.src(), self.spec_next(), self.spec_start())
                    == blank_line_start(pre.src(), i0, i0),
                newline_token == (Token {
                    token_type: TokenType::NewLine,
                    start: pre.start,
                    length: 1,
                    line: pre.line,
                }),
                pre.start == pre.next,
            decreases self.src().len() - self.next,
        {
            match self.peek() {
                None => {
                    self.indent_target = 0;
                    return Some(newline_token);
                },
                Some(c) => {
                    if c == ' ' as u8 {
                        col = col + 1;
                        self.advance();
                    } else if c == '\t' as u8 {
                        col = col + 4;
                        self.advance();
                    } else if c == '\n' as u8 {
                        proof {
                            lemma_nl_count_bounds(self.src(), self.spec_next());
                        }
                        self.advance();
                        self.start = self.next;
                        self.line = self.line + 1;
                        col = 0;
                    } else {
                        let current = self.indent_stack[self.indent_stack.len() - 1];
                        match self.previous_token {
                            Some(prev) => {
                                if prev == TokenType::Colon {
                                    if col <= current {
                                        return Some(self.make_err_token(
                                            "Must indent the following code after ':'.",
                                        ));
                                    }
                                } else {
                                    if col > current {
                                        return Some(self.make_err_token(
                                            "Cannot indent code after newline.",
                                        ));
                                    }
                                }
                            },
                            None => {},
                        }
                        self.indent_target = col;
                        return Some(newline_token);
                    }
                },
            }
        }
    }
}


impl Scanner {
    /// Scans a string literal; the opening quote is already consumed. The
    /// token spans both quotes; an embedded newline is allowed and counted.
    fn string(&mut self) -> (t: Token)
        requires
            old(self).wf(),
            old(self).start + 1 == old(self).next,
            old(self).spec_start() < old(self).src().len(),
            old(self).src()[old(self).spec_start()] == 34,
        ensures
            final(self).wf(),
            same_frame(*old(self), *final(self)),
            final(self).start == final(self).next,
            match string_end(old(self).src(), old(self).spec_next()) {
                Some(e) => t == (Token {
                    token_type: TokenType::String,
                    start: old(self).start,
                    length: (e - old(self).spec_start()) as usize,
                    line: final(self).line,
                }) && final(self).next == e,
                None => t == (Token {
                    token_type: TokenType::Error,
                    start: old(self).start,
                    length: (old(self).src().len() - old(self).spec_start()) as usize,
                    line: final(self).line,
                }) && final(self).next == old(self).src().len() && final(self).error_message@
                    == "Unterminated string."@,
            },
            final(self).line >= old(self).line,
    {
        let ghost pre = *self;
        loop
            invariant
                pre == *old(self),
                pre.wf(),
                self.wf(),
                same_frame(pre, *self),
                self.start == pre.start,
                pre.next <= self.next,
                pre.line <= self.line,
                string_end(self.src(), self.spec_next()) == string_end(pre.src(), pre.spec_next()),
            decreases self.src().len() - self.next,
        {
            match self.peek() {
                Some(c) => {
                    if c != '"' as u8 {
                        if c == '\n' as u8 {
                            proof {
                                lemma_nl_count_bounds(self.src(), self.spec_next());
                            }
                            self.line = self.line + 1;
                        }
                        self.advance();
                    } else {
                        self.advance();
                        return self.make_token(TokenType::String);
                    }
                },
                None => {
                    return self.make_err_token("Unterminated string.");
                },
            }
        }
    }

    /// Scans a number: digits, then a fractional part only when a dot is
    /// directly followed by a digit. The first digit is already consumed.
    fn number(&mut self) -> (t: Token)
        requires
            old(self).wf(),
            old(self).start + 1 == old(self).next,
            old(self).spec_start() < old(self).src().len(),
            spec_is_digit(old(self).src()[old(self).spec_start()]),
        ensures
            final(self).wf(),
            same_frame(*old(self), *final(self)),
            final(self).start == final(self).next,
            final(self).line == old(self).line,
            final(self).next == number_end(old(self).src(), old(self).spec_next()),
            t == (Token {
                token_type: TokenType::Number,
                start: old(self).start,
                length: (number_end(old(self).src(), old(self).spec_next()) - old(
                    self,
                ).spec_start()) as usize,
                line: old(self).line,
            }),
    {
        let ghost pre = *self;
        loop
            invariant
                pre == *old(self),
                pre.wf(),
                self.wf(),
                same_frame(pre, *self),
                self.start == pre.start,
                pre.next <= self.next,
                self.line == pre.line,
                digits_end(self.src(), self.spec_next()) == digits_end(pre.src(), pre.spec_next()),
            ensures
                pre == *old(self),
                self.wf(),
                same_frame(pre, *self),
                self.start == pre.start,
                pre.next <= self.next,
                self.line == pre.line,
                self.spec_next() == digits_end(pre.src(), pre.spec_next()),
                !(self.spec_next() < self.src().len() && spec_is_digit(
                    self.src()[self.spec_next()],
                )),
            decreases self.src().len() - self.next,
        {
            let keep = match self.peek() {
                Some(c) => self.is_digit(c),
                None => false,
            };
            if !keep {
                break ;
            }
            self.advance();
        }
        let frac = match self.peek() {
            Some(c) => {
                if c == '.' as u8 {
                    match self.peek_next() {
                        Some(c2) => self.is_digit(c2),
                        None => false,
                    }
                } else {
                    false
                }
            },
            None => false,
        };
        if frac {
            // Consume the dot; the digits that follow belong to the number.
            self.advance();
            let ghost mid = *self;
            loop
                invariant
                    pre == *old(self),
                    pre.wf(),
                    mid.wf(),
                    self.wf(),
                    same_frame(pre, *self),
                    self.start == pre.start,
                    mid.next <= self.next,
                    self.line == pre.line,
                    mid.spec_next() == digits_end(pre.src(), pre.spec_next()) + 1,
                    self.src() == pre.src(),
                    number_end(pre.src(), pre.spec_next()) == digits_end(pre.src(), mid.spec_next()),
                    digits_end(self.src(), self.spec_next()) == digits_end(
                        pre.src(),
                        mid.spec_next(),
                    ),
                ensures
                    pre == *old(self),
                    self.wf(),
                    same_frame(pre, *self),
                    self.start == pre.start,
                    self.line == pre.line,
                    self.spec_next() == digits_end(pre.src(), mid.spec_next()),
                    number_end(pre.src(), pre.spec_next()) == digits_end(pre.src(), mid.spec_next()),
                decreases self.src().len() - self.next,
            {
                let keep = match self.peek() {
                    Some(c) => self.is_digit(c),
                    None => false,
                };
                if !keep {
                    break ;
                }
                self.advance();
            }
        }
        self.make_token(TokenType::Number)
    }

    /// Scans an identifier or keyword; the first byte is already consumed.
    fn identifier(&mut self) -> (t: Token)
        requires
            old(self).wf(),
            old(self).start + 1 == old(self).next,
            old(self).spec_start() < old(self).src().len(),
            spec_is_alpha(old(self).src()[old(self).spec_start()]),
        ensures
            final(self).wf(),
            same_frame(*old(self), *final(self)),
            final(self).start == final(self).next,
            final(self).line == old(self).line,
            final(self).next == ident_end(old(self).src(), old(self).spec_next()),
            t == (Token {
                token_type: keyword_type(
                    old(self).src().subrange(
                        old(self).spec_start(),
                        ident_end(old(self).src(), old(self).spec_next()),
                    ),
                ),
                start: old(self).start,
                length: (ident_end(old(self).src(), old(self).spec_next()) - old(
                    self,
                ).spec_start()) as usize,
                line: old(self).line,
            }),
    {
        let ghost pre = *self;
        loop
            invariant
                pre == *old(self),
                pre.wf(),
                self.wf(),
                same_frame(pre, *self),
                self.start == pre.start,
                pre.next <= self.next,
                self.line == pre.line,
                ident_end(self.src(), self.spec_next()) == ident_end(pre.src(), pre.spec_next()),
            ensures
                pre == *old(self),
                self.wf(),
                same_frame(pre, *self),
                self.start == pre.start,
                pre.next <= self.next,
                self.line == pre.line,
                self.spec_next() == ident_end(pre.src(), pre.spec_next()),
            decreases self.src().len() - self.next,
        {
            let keep = match self.peek() {
                Some(c) => {
                    if self.is_alpha(c) {
                        true
                    } else {
                        self.is_digit(c)
                    }
                },
                None => false,
            };
            if !keep {
                break ;
            }
            self.advance();
        }
        let token_type = self.identifier_type();
        self.make_token(token_type)
    }

    /// Decides whether the current lexeme is a keyword.
    fn identifier_type(&self) -> (tt: TokenType)
        requires
            self.start <= self.next <= self.src().len(),
        ensures
            tt == keyword_type(self.src().subrange(self.spec_start(), self.spec_next())),
    {
        let ghost s = self.src().subrange(self.spec_start(), self.spec_next());
        let l = self.next - self.start;
        proof {
            assert(s.len() == l);
        }
        if l == 2 {
            let b0 = self.source[self.start];
            let b1 = self.source[self.start + 1];
            proof {
                assert(s[0] == b0 && s[1] == b1);
            }
            if b0 == 'f' as u8 && b1 == 'n' as u8 {
                proof {
                    assert(s =~= seq![102u8, 110]);
                }
                return TokenType::Fn;
            }
            if b0 == 'i' as u8 && b1 == 'f' as u8 {
                proof {
                    assert(s =~= seq![105u8, 102]);
                }
                return TokenType::If;
            }
            if b0 == 'o' as u8 && b1 == 'r' as u8 {
                proof {
                    assert(s =~= seq![111u8, 114]);
                }
                return TokenType::Or;
            }
            return TokenType::Identifier;
        }
        if l == 3 {
            let b0 = self.source[self.start];
            let b1 = self.source[self.start + 1];
            let b2 = self.source[self.start + 2];
            proof {
                assert(s[0] == b0 && s[1] == b1 && s[2] == b2);
            }
            if b0 == 'a' as u8 && b1 == 'n' as u8 && b2 == 'd' as u8 {
                proof {
                    assert(s =~= seq![97u8, 110, 100]);
                }
                return TokenType::And;
            }
            if b0 == 'f' as u8 && b1 == 'o' as u8 && b2 == 'r' as u8 {
                proof {
                    assert(s =~= seq![102u8, 111, 114]);
                }
                return TokenType::For;
            }
            if b0 == 'v' as u8 && b1 == 'a' as u8 && b2 == 'r' as u8 {
                proof {
                    assert(s =~= seq![118u8, 97, 114]);
                }
                return TokenType::Var;
            }
            return TokenType::Identifier;
        }
        if l == 4 {
            let b0 = self.source[self.start];
            let b1 = self.source[self.start + 1];
            let b2 = self.source[self.start + 2];
            let b3 = self.source[self.start + 3];
            proof {
                assert(s[0] == b0 && s[1] == b1 && s[2] == b2 && s[3] == b3);
            }
            if b0 == 'e' as u8 && b1 == 'l' as u8 && b2 == 's' as u8 && b3 == 'e' as u8 {
                proof {
                    assert(s =~= seq![101u8, 108, 115, 101]);
                }
                return TokenType::Else;
            }
            if b0 == 'n' as u8 && b1 == 'u' as u8 && b2 == 'l' as u8 && b3 == 'l' as u8 {
                proof {
                    assert(s =~= seq![110u8, 117, 108, 108]);
                }
                return TokenType::Null;
            }
            if b0 == 't' as u8 && b1 == 'r' as u8 && b2 == 'u' as u8 && b3 == 'e' as u8 {
                proof {
                    assert(s =~= seq![116u8, 114, 117, 101]);
                }
                return TokenType::True;
            }
            return TokenType::Identifier;
        }
        if l == 5 {
            let b0 = self.source[self.start];
            let b1 = self.source[self.start + 1];
            let b2 = self.source[self.start + 2];
            let b3 = self.source[self.start + 3];
            let b4 = self.source[self.start + 4];
            proof {
                assert(s[0] == b0 && s[1] == b1 && s[2] == b2 && s[3] == b3 && s[4] == b4);
            }
            if b0 == 'f' as u8 && b1 == 'a' as u8 && b2 == 'l' as u8 && b3 == 's' as u8 && b4
                == 'e' as u8 {
                proof {
                    assert(s =~= seq![102u8, 97, 108, 115, 101]);
                }
                return TokenType::False;
            }
            if b0 == 'w' as u8 && b1 == 'h' as u8 && b2 == 'i' as u8 && b3 == 'l' as u8 && b4
                == 'e' as u8 {
                proof {
                    assert(s =~= seq![119u8, 104, 105, 108, 101]);
                }
                return TokenType::While;
            }
            return TokenType::Identifier;
        }
        if l == 6 {
            let b0 = self.source[self.start];
            let b1 = self.source[self.start + 1];
            let b2 = self.source[self.start + 2];
            let b3 = self.source[self.start + 3];
            let b4 = self.source[self.start + 4];
            let b5 = self.source[self.start + 5];
            proof {
                assert(s[0] == b0 && s[1] == b1 && s[2] == b2 && s[3] == b3 && s[4] == b4 && s[5]
                    == b5);
            }
            if b0 == 'r' as u8 && b1 == 'e' as u8 && b2 == 't' as u8 && b3 == 'u' as u8 && b4
                == 'r' as u8 && b5 == 'n' as u8 {
                proof {
                    assert(s =~= seq![114u8, 101, 116, 117, 114, 110]);
                }
                return TokenType::Return;
            }
            return TokenType::Identifier;
        }
        TokenType::Identifier
    }
}


impl Scanner {
    #[verifier::rlimit(100)]
    fn next_token(&mut self) -> (t: Token)
        requires
            old(self).wf(),
        ensures
            scan_post(*old(self), *final(self), t),
            final(self).previous_token == old(self).previous_token,
    {
        let ghost pre = *self;
        let resolved = self.resolve_indent();
        match resolved {
            Some(token) => {
                return token;
            },
            None => {},
        }
        self.whitespace();
        self.start = self.next;
        let ghost p = self.spec_next();
        proof {
            lemma_skip_ws_bounds(pre.src(), pre.spec_next());
        }
        let after_newline = self.newline();
        match after_newline {
            Some(token) => {
                return token;
            },
            None => {},
        }
        let advanced = self.advance();
        let c = match advanced {
            None => {
                let t = self.make_token(TokenType::Eof);
                proof {
                    if self.indent_ok@ && self.indent_target == 0 && self.stack().len() >= 2 {
                        assert(self.stack()[0] < self.stack()[self.stack().len() - 1]);
                    }
                }
                return t;
            },
            Some(c) => c,
        };
        if self.is_alpha(c) {
            proof {
                lemma_ident_end_bounds(pre.src(), p + 1);
            }
            let t = self.identifier();
            return t;
        }
        if self.is_digit(c) {
            proof {
                lemma_digits_end_bounds(pre.src(), p + 1);
                if digits_end(pre.src(), p + 1) + 1 <= pre.src().len() {
                    lemma_digits_end_bounds(pre.src(), digits_end(pre.src(), p + 1) + 1);
                }
            }
            let t = self.number();
            return t;
        }
        if c == '(' as u8 {
            return self.make_token(TokenType::LeftParen);
        }
        if c == ')' as u8 {
            return self.make_token(TokenType::RightParen);
        }
        if c == ',' as u8 {
            return self.make_token(TokenType::Comma);
        }
        if c == '-' as u8 {
            return self.make_token(TokenType::Minus);
        }
        if c == '+' as u8 {
            return self.make_token(TokenType::Plus);
        }
        if c == '/' as u8 {
            return self.make_token(TokenType::Slash);
        }
        if c == '*' as u8 {
            return self.make_token(TokenType::Star);
        }
        if c == ':' as u8 {
            return self.make_token(TokenType::Colon);
        }
        if c == '!' as u8 {
            let matched = self.expect('=' as u8);
            proof {
                if matched {
                    lemma_nl_count_step(pre.src(), p + 1);
                }
            }
            return if matched {
                self.make_token(TokenType::BangEqual)
            } else {
                self.make_token(TokenType::Bang)
            };
        }
        if c == '=' as u8 {
            let matched = self.expect('=' as u8);
            proof {
                if matched {
                    lemma_nl_count_step(pre.src(), p + 1);
                }
            }
            return if matched {
                self.make_token(TokenType::EqualEqual)
            } else {
                self.make_token(TokenType::Equal)
            };
        }
        if c == '<' as u8 {
            let matched = self.expect('=' as u8);
            proof {
                if matched {
                    lemma_nl_count_step(pre.src(), p + 1);
                }
            }
            return if matched {
                self.make_token(TokenType::LessEqual)
            } else {
                self.make_token(TokenType::Less)
            };
        }
        if c == '>' as u8 {
            let matched = self.expect('=' as u8);
            proof {
                if matched {
                    lemma_nl_count_step(pre.src(), p + 1);
                }
            }
            return if matched {
                self.make_token(TokenType::GreaterEqual)
            } else {
                self.make_token(TokenType::Greater)
            };
        }
        if c == '"' as u8 {
            proof {
                lemma_string_end_bounds(pre.src(), p + 1);
            }
            let t = self.string();
            return t;
        }
        self.make_err_token("Unexpected character.")
    }

    /// Produces the next token and remembers its kind (error tokens aside)
    /// for the indentation checks that follow a newline.
    pub fn scan_token(&mut self) -> (t: Token)
        requires
            old(self).wf(),
        ensures
            scan_post(*old(self), *final(self), t),
            final(self).previous_token == (if t.token_type != TokenType::Error {
                Some(t.token_type)
            } else {
                old(self).previous_token
            }),
    {
        let token = self.next_token();
        if token.token_type != TokenType::Error {
            self.previous_token = Some(token.token_type);
        }
        token
    }
}


} // verus!
