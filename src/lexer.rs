use vstd::prelude::*;
use crate::token::Token;

verus! {

pub const NULL_CHAR: char = '\0';

/// What `char::is_alphabetic` returns on `c`.
pub uninterp spec fn alphabetic(c: char) -> bool;

/// What `char::is_numeric` returns on `c`.
pub uninterp spec fn numeric(c: char) -> bool;

/// What `char::is_whitespace` returns on `c`.
pub uninterp spec fn whitespace(c: char) -> bool;

/// Relies on `char::is_alphabetic`: a Unicode property of the character alone.
#[verifier::external_body]
fn is_alphabetic(c: char) -> (r: bool)
    ensures
        r == alphabetic(c),
{
    c.is_alphabetic()
}

/// Relies on `char::is_numeric`: a Unicode property of the character alone.
#[verifier::external_body]
fn is_numeric(c: char) -> (r: bool)
    ensures
        r == numeric(c),
{
    c.is_numeric()
}

/// Relies on `char::is_whitespace`: a Unicode property of the character alone.
#[verifier::external_body]
fn is_whitespace(c: char) -> (r: bool)
    ensures
        r == whitespace(c),
{
    c.is_whitespace()
}

/// The classes of characters that the lexer consumes in runs.
#[derive(Debug, Clone, Copy, PartialEq, Eq, Structural)]
pub enum CharClass {
    /// Letters, digits and `_`.
    Word,
    /// Digits and `.`.
    Number,
    /// Anything but a double quote.
    NotQuote,
    Whitespace,
}

impl CharClass {
    pub open spec fn spec_accepts(self, c: char) -> bool {
        match self {
            CharClass::Word => alphabetic(c) || numeric(c) || c == '_',
            CharClass::Number => numeric(c) || c == '.',
            CharClass::NotQuote => c != '"',
            CharClass::Whitespace => whitespace(c),
        }
    }

    pub fn accepts(self, c: char) -> (r: bool)
        ensures
            r == self.spec_accepts(c),
    {
        match self {
            CharClass::Word => is_alphabetic(c) || is_numeric(c) || c == '_',
            CharClass::Number => is_numeric(c) || c == '.',
            CharClass::NotQuote => c != '"',
            CharClass::Whitespace => is_whitespace(c),
        }
    }
}

/// The character under the cursor at `p`; the null character past the end.
pub open spec fn char_at(input: Seq<char>, p: int) -> char {
    if 0 <= p < input.len() {
        input[p]
    } else {
        NULL_CHAR
    }
}

/// The first position from `p` on whose character ends a run of `class` (or the input).
pub open spec fn scan(input: Seq<char>, p: int, class: CharClass) -> int
    decreases input.len() - p,
{
    if p < 0 || p >= input.len() || input[p] == NULL_CHAR || !class.spec_accepts(input[p]) {
        p
    } else {
        scan(input, p + 1, class)
    }
}

/// The position after reading one character at `p`.
pub open spec fn advance(input: Seq<char>, p: int) -> int {
    if p < input.len() {
        p + 1
    } else {
        input.len() as int
    }
}

/// The keyword spelled by `w`, if any.
pub open spec fn keyword(w: Seq<char>) -> Option<Token> {
    if w == "f"@ {
        Some(Token::FunctionDeclarator)
    } else if w == "int"@ {
        Some(Token::TypeInteger)
    } else if w == "str"@ {
        Some(Token::TypeString)
    } else if w == "if"@ {
        Some(Token::If)
    } else if w == "else"@ {
        Some(Token::Else)
    } else if w == "return"@ {
        Some(Token::Return)
    } else if w == "bool"@ {
        Some(Token::TypeBoolean)
    } else if w == "true"@ {
        Some(Token::True)
    } else if w == "false"@ {
        Some(Token::False)
    } else {
        None
    }
}

pub open spec fn is_ascii_digit(c: char) -> bool {
    '0' <= c <= '9'
}

/// The decimal value of a run of ASCII digits.
pub open spec fn digits_value(s: Seq<char>) -> int
    decreases s.len(),
{
    if s.len() == 0 {
        0
    } else {
        digits_value(s.drop_last()) * 10 + (s.last() as int - '0' as int)
    }
}

/// The 32-bit integer that `s` spells, if it is a non-empty run of ASCII digits that fits.
pub open spec fn parse_i32(s: Seq<char>) -> Option<i32> {
    if s.len() > 0 && (forall|i: int| 0 <= i < s.len() ==> is_ascii_digit(#[trigger] s[i])) && digits_value(s)
        <= i32::MAX {
        Some(digits_value(s) as i32)
    } else {
        None
    }
}

pub open spec fn unbalanced_message() -> Seq<char> {
    "Unbalanced '\"'"@
}

pub open spec fn bad_number_message() -> Seq<char> {
    "Invalid integer literal"@
}

/// The line number after reading the first `n` characters of `s`.
pub open spec fn line_of(s: Seq<char>, n: int) -> int
    decreases n,
{
    if n <= 0 {
        1
    } else {
        line_of(s, n - 1) + if s[n - 1] == '\n' {
            1int
        } else {
            0int
        }
    }
}

/// The column number after reading the first `n` characters of `s`.
pub open spec fn column_of(s: Seq<char>, n: int) -> int
    decreases n,
{
    if n <= 0 {
        1
    } else if s[n - 1] == '\n' {
        1
    } else {
        column_of(s, n - 1) + 1
    }
}

proof fn lemma_counters_bounded(s: Seq<char>, n: int)
    requires
        0 <= n,
    ensures
        1 <= line_of(s, n) <= n + 1,
        1 <= column_of(s, n) <= n + 1,
    decreases n,
{
    if n > 0 {
        lemma_counters_bounded(s, n - 1);
    }
}

/// What a lexing step found, before it is turned into a token.
pub enum Scanned {
    /// A token without text.
    Fixed(Token),
    /// The text between two double quotes.
    Quoted(Seq<char>),
    /// An identifier or keyword.
    Word(Seq<char>),
    /// A number literal.
    Number(Seq<char>),
    /// A string literal without its closing quote.
    Unbalanced,
}

/// One lexing step from position `pos`: what it finds, and where the cursor ends.
pub open spec fn scan_token(input: Seq<char>, pos: int) -> (Scanned, int) {
    let p = scan(input, pos, CharClass::Whitespace);
    let c = char_at(input, p);
    if c == NULL_CHAR {
        (Scanned::Fixed(Token::Eof), p)
    } else if c == '+' {
        (Scanned::Fixed(Token::Plus), p + 1)
    } else if c == '(' {
        (Scanned::Fixed(Token::Lparen), p + 1)
    } else if c == ')' {
        (Scanned::Fixed(Token::Rparen), p + 1)
    } else if c == ';' {
        (Scanned::Fixed(Token::Semicolon), p + 1)
    } else if c == ',' {
        (Scanned::Fixed(Token::Comma), p + 1)
    } else if c == '.' {
        (Scanned::Fixed(Token::Dot), p + 1)
    } else if c == '>' {
        (Scanned::Fixed(Token::GratherThan), p + 1)
    } else if c == '=' {
        (Scanned::Fixed(Token::Equal), p + 1)
    } else if c == '-' {
        if p + 1 < input.len() && input[p + 1] == '>' {
            (Scanned::Fixed(Token::Arrow), p + 2)
        } else {
            (Scanned::Fixed(Token::Minus), p + 1)
        }
    } else if c == '"' {
        let q = scan(input, p + 1, CharClass::NotQuote);
        if char_at(input, q) == '"' {
            (Scanned::Quoted(input.subrange(p + 1, q)), advance(input, q))
        } else {
            (Scanned::Unbalanced, advance(input, q))
        }
    } else if alphabetic(c) {
        let q = scan(input, p, CharClass::Word);
        (Scanned::Word(input.subrange(p, q)), q)
    } else if numeric(c) {
        let q = scan(input, p, CharClass::Number);
        (Scanned::Number(input.subrange(p, q)), q)
    } else {
        (Scanned::Fixed(Token::Illegal(c)), p + 1)
    }
}

/// Whether `r` is the result that the lexing step `s` stands for.
pub open spec fn delivers(s: Scanned, r: Result<Token, String>) -> bool {
    match s {
        Scanned::Fixed(t) => r == Ok::<Token, String>(t),
        Scanned::Quoted(text) => r matches Ok(Token::String(x)) && x@ == text,
        Scanned::Word(w) => match keyword(w) {
            Some(t) => r == Ok::<Token, String>(t),
            None => r matches Ok(Token::Identifier(x)) && x@ == w,
        },
        Scanned::Number(d) => match parse_i32(d) {
            Some(v) => r == Ok::<Token, String>(Token::Int(v)),
            None => r matches Err(m) && m@ == bad_number_message(),
        },
        Scanned::Unbalanced => r matches Err(m) && m@ == unbalanced_message(),
    }
}

/// A cursor over source characters that yields one token at a time.
pub struct Lexer {
    input: Vec<char>,
    curr_char: char,
    pos: usize,
    read_pos: usize,
    line: usize,
    colm: usize,
}

impl Lexer {
    pub closed spec fn source(&self) -> Seq<char> {
        self.input@
    }

    /// The position of the character under the cursor.
    pub closed spec fn position(&self) -> int {
        self.pos as int
    }

    closed spec fn counters_ok(&self) -> bool {
        &&& self.input@.len() < usize::MAX
        &&& self.read_pos <= self.input@.len()
        &&& self.line == line_of(self.input@, self.read_pos as int)
        &&& self.colm == column_of(self.input@, self.read_pos as int)
    }

    /// The character under the cursor.
    pub closed spec fn current(&self) -> char {
        self.curr_char
    }

    /// The line counter: one more than the newlines read so far.
    pub closed spec fn line(&self) -> int {
        self.line as int
    }

    /// The column counter: one more than the characters read since the last newline.
    pub closed spec fn column(&self) -> int {
        self.colm as int
    }

    /// The cursor's character and counters agree with its position.
    pub open spec fn cursor_consistent(&self) -> bool {
        &&& self.current() == char_at(self.source(), self.position())
        &&& self.line() == line_of(self.source(), advance(self.source(), self.position()))
        &&& self.column() == column_of(self.source(), advance(self.source(), self.position()))
    }

    pub closed spec fn wf(&self) -> bool {
        &&& self.counters_ok()
        &&& self.pos <= self.input@.len()
        &&& self.read_pos == advance(self.input@, self.pos as int)
        &&& self.curr_char == char_at(self.input@, self.pos as int)
    }

    pub fn new(input: &[char]) -> (r: Self)
        requires
            input@.len() < usize::MAX,
        ensures
            r.wf(),
            r.source() == input@,
            r.position() == 0,
            r.cursor_consistent(),
    {
        let mut chars: Vec<char> = Vec::new();
        let mut i: usize = 0;
        while i < input.len()
            invariant
                i <= input@.len(),
                chars@ == input@.subrange(0, i as int),
            decreases input@.len() - i,
        {
            chars.push(input[i]);
            i = i + 1;
            proof {
                assert(chars@ =~= input@.subrange(0, i as int));
            }
        }
        proof {
            assert(chars@ =~= input@);
        }
        let mut l = Lexer { input: chars, curr_char: NULL_CHAR, pos: 0, read_pos: 0, line: 1, colm: 1 };
        l.read_char();
        l
    }

    fn read_char(&mut self)
        requires
            old(self).counters_ok(),
        ensures
            final(self).wf(),
            final(self).input@ == old(self).input@,
            final(self).pos == if old(self).read_pos < old(self).input@.len() {
                old(self).read_pos as int
            } else {
                old(self).input@.len() as int
            },
            old(self).read_pos < old(self).input@.len() ==> {
                let c = old(self).input@[old(self).read_pos as int];
                &&& final(self).curr_char == c
                &&& final(self).read_pos == old(self).read_pos + 1
                &&& final(self).line == old(self).line + if c == '\n' {
                    1int
                } else {
                    0int
                }
                &&& final(self).colm == if c == '\n' {
                    1
                } else {
                    old(self).colm + 1
                }
            },
            old(self).read_pos >= old(self).input@.len() ==> final(self).curr_char == NULL_CHAR
                && final(self).read_pos == old(self).read_pos && final(self).line == old(self).line
                && final(self).colm == old(self).colm,
    {
        proof {
            lemma_counters_bounded(self.input@, self.read_pos as int);
        }
        if self.read_pos >= self.input.len() {
            self.pos = self.read_pos;
            self.curr_char = NULL_CHAR;
            return;
        }
        self.curr_char = self.input[self.read_pos];
        self.pos = self.read_pos;
        self.read_pos = self.read_pos + 1;
        if self.curr_char == '\n' {
            self.line = self.line + 1;
            self.colm = 1;
        } else {
            self.colm = self.colm + 1;
        }
    }

    /// No number literal comes next whose text is not a 32-bit decimal.
    pub open spec fn number_ahead_ok(&self) -> bool {
        match scan_token(self.source(), self.position()).0 {
            Scanned::Number(d) => parse_i32(d) is Some,
            _ => true,
        }
    }

    fn duplicate(&self) -> (r: Lexer)
        ensures
            r.input@ == self.input@,
            r.curr_char == self.curr_char,
            r.pos == self.pos,
            r.read_pos == self.read_pos,
            r.line == self.line,
            r.colm == self.colm,
    {
        let mut input: Vec<char> = Vec::new();
        let mut i: usize = 0;
        while i < self.input.len()
            invariant
                i <= self.input@.len(),
                input@ == self.input@.subrange(0, i as int),
            decreases self.input@.len() - i,
        {
            input.push(self.input[i]);
            i = i + 1;
            proof {
                assert(input@ =~= self.input@.subrange(0, i as int));
            }
        }
        proof {
            assert(input@ =~= self.input@);
        }
        Lexer {
            input,
            curr_char: self.curr_char,
            pos: self.pos,
            read_pos: self.read_pos,
            line: self.line,
            colm: self.colm,
        }
    }

    /// Reads the next token; the cursor moves past it. The only error is an unclosed string literal.
    pub fn next_token(&mut self) -> (r: Result<Token, String>)
        requires
            old(self).wf(),
            old(self).number_ahead_ok(),
        ensures
            final(self).wf(),
            final(self).source() == old(self).source(),
            final(self).cursor_consistent(),
            delivers(scan_token(old(self).source(), old(self).position()).0, r),
            final(self).position() == scan_token(old(self).source(), old(self).position()).1,
            r is Err ==> scan_token(old(self).source(), old(self).position()).0 is Unbalanced,
    {
        self.lex_step()
    }

    /// Reads the next token like `next_token`, and also reports a number literal that does not
    /// fit a 32-bit decimal as an error.
    pub fn try_next_token(&mut self) -> (r: Result<Token, String>)
        requires
            old(self).wf(),
        ensures
            final(self).wf(),
            final(self).source() == old(self).source(),
            final(self).cursor_consistent(),
            delivers(scan_token(old(self).source(), old(self).position()).0, r),
            final(self).position() == scan_token(old(self).source(), old(self).position()).1,
    {
        let mut probe = self.duplicate();
        let r = probe.lex_step();
        let bad_number = match &r {
            Err(m) => same_text(m, "Invalid integer literal"),
            Ok(_) => false,
        };
        proof {
            reveal_strlit("Invalid integer literal");
            reveal_strlit("Unbalanced '\"'");
        }
        if bad_number {
            *self = probe;
            return r;
        }
        self.next_token()
    }

    fn lex_step(&mut self) -> (r: Result<Token, String>)
        requires
            old(self).wf(),
        ensures
            final(self).wf(),
            final(self).source() == old(self).source(),
            final(self).cursor_consistent(),
            delivers(scan_token(old(self).source(), old(self).position()).0, r),
            final(self).position() == scan_token(old(self).source(), old(self).position()).1,
    {
        self.skip_whitespace();
        if self.eof() {
            return Ok(Token::Eof);
        }
        let token = match self.curr_char {
            '+' => Some(Token::Plus),
            '(' => Some(Token::Lparen),
            ')' => Some(Token::Rparen),
            ';' => Some(Token::Semicolon),
            ',' => Some(Token::Comma),
            '.' => Some(Token::Dot),
            '>' => Some(Token::GratherThan),
            '=' => Some(Token::Equal),
            '-' => {
                if self.next_char_is('>') {
                    self.read_char();
                    Some(Token::Arrow)
                } else {
                    Some(Token::Minus)
                }
            },
            '"' => {
                let token = self.read_string();
                self.read_char();
                return token;
            },
            _ => None,
        };
        match token {
            Some(t) => {
                self.read_char();
                return Ok(t);
            },
            None => {},
        }
        if is_alphabetic(self.curr_char) {
            return Ok(self.read_identifier());
        }
        if is_numeric(self.curr_char) {
            return self.read_number();
        }
        let illegal = Token::Illegal(self.curr_char);
        self.read_char();
        Ok(illegal)
    }

    fn read_identifier(&mut self) -> (r: Token)
        requires
            old(self).wf(),
        ensures
            final(self).wf(),
            final(self).input@ == old(self).input@,
            final(self).pos == scan(old(self).input@, old(self).pos as int, CharClass::Word),
            delivers(
                Scanned::Word(old(self).input@.subrange(old(self).pos as int, final(self).pos as int)),
                Ok::<Token, String>(r),
            ),
    {
        let literal = self.chop_while(CharClass::Word);
        if same_text(&literal, "f") {
            Token::FunctionDeclarator
        } else if same_text(&literal, "int") {
            Token::TypeInteger
        } else if same_text(&literal, "str") {
            Token::TypeString
        } else if same_text(&literal, "if") {
            Token::If
        } else if same_text(&literal, "else") {
            Token::Else
        } else if same_text(&literal, "return") {
            Token::Return
        } else if same_text(&literal, "bool") {
            Token::TypeBoolean
        } else if same_text(&literal, "true") {
            Token::True
        } else if same_text(&literal, "false") {
            Token::False
        } else {
            Token::Identifier(literal)
        }
    }

    fn read_string(&mut self) -> (r: Result<Token, String>)
        requires
            old(self).wf(),
            old(self).pos < old(self).input@.len(),
        ensures
            final(self).wf(),
            final(self).input@ == old(self).input@,
            final(self).pos == scan(old(self).input@, old(self).pos + 1, CharClass::NotQuote),
            if char_at(old(self).input@, final(self).pos as int) == '"' {
                delivers(Scanned::Quoted(old(self).input@.subrange(old(self).pos + 1, final(self).pos as int)), r)
            } else {
                delivers(Scanned::Unbalanced, r)
            },
    {
        self.read_char();
        let literal = self.chop_while(CharClass::NotQuote);
        if self.curr_char != '"' {
            return Err("Unbalanced '\"'".to_string());
        }
        Ok(Token::String(literal))
    }

    fn read_number(&mut self) -> (r: Result<Token, String>)
        requires
            old(self).wf(),
        ensures
            final(self).wf(),
            final(self).input@ == old(self).input@,
            final(self).pos == scan(old(self).input@, old(self).pos as int, CharClass::Number),
            delivers(Scanned::Number(old(self).input@.subrange(old(self).pos as int, final(self).pos as int)), r),
    {
        let start = self.pos;
        self.chop_while(CharClass::Number);
        match parse_decimal(&self.input, start, self.pos) {
            Some(v) => Ok(Token::Int(v)),
            None => Err("Invalid integer literal".to_string()),
        }
    }

    fn skip_whitespace(&mut self)
        requires
            old(self).wf(),
        ensures
            final(self).wf(),
            final(self).input@ == old(self).input@,
            final(self).pos == scan(old(self).input@, old(self).pos as int, CharClass::Whitespace),
    {
        self.chop_while(CharClass::Whitespace);
    }

    fn chop_while(&mut self, class: CharClass) -> (r: String)
        requires
            old(self).wf(),
        ensures
            final(self).wf(),
            final(self).input@ == old(self).input@,
            final(self).pos == scan(old(self).input@, old(self).pos as int, class),
            old(self).pos <= final(self).pos,
            r@ == old(self).input@.subrange(old(self).pos as int, final(self).pos as int),
    {
        let start = self.pos;
        while !self.eof() && class.accepts(self.curr_char)
            invariant
                self.wf(),
                self.input@ == old(self).input@,
                start <= self.pos,
                scan(self.input@, start as int, class) == scan(self.input@, self.pos as int, class),
            decreases self.input@.len() - self.pos,
        {
            self.read_char();
        }
        self.chop(start, self.pos)
    }

    /// Relies on collecting characters into a `String` (`FromIterator<&char>`): they are kept in order.
    #[verifier::external_body]
    fn chop(&self, begin: usize, end: usize) -> (r: String)
        requires
            begin <= end <= self.input@.len(),
        ensures
            r@ == self.input@.subrange(begin as int, end as int),
    {
        self.input[begin..end].iter().collect::<String>()
    }

    fn eof(&self) -> (r: bool)
        ensures
            r == (self.curr_char == NULL_CHAR),
    {
        self.curr_char == NULL_CHAR
    }

    fn next_char_is(&self, x: char) -> (r: bool)
        requires
            self.wf(),
        ensures
            r == (self.read_pos < self.input@.len() && self.input@[self.read_pos as int] == x),
    {
        if self.read_pos >= self.input.len() {
            return false;
        }
        self.input[self.read_pos] == x
    }
}

/// Whether `s` holds exactly the characters of `w`.
fn same_text(s: &String, w: &str) -> (r: bool)
    ensures
        r == (s@ == w@),
{
    *s == w.to_string()
}

proof fn lemma_digits_prefix(s: Seq<char>, k: int)
    requires
        0 <= k <= s.len(),
        forall|i: int| 0 <= i < s.len() ==> is_ascii_digit(#[trigger] s[i]),
    ensures
        digits_value(s.subrange(0, k)) <= digits_value(s),
        0 <= digits_value(s.subrange(0, k)),
    decreases s.len(),
{
    if k < s.len() {
        lemma_digits_prefix(s.drop_last(), k);
        assert(s.drop_last().subrange(0, k) =~= s.subrange(0, k));
        lemma_digits_prefix(s.drop_last(), s.len() - 1);
        assert(s.drop_last().subrange(0, s.len() - 1) =~= s.drop_last());
    } else {
        assert(s.subrange(0, k) =~= s);
        if s.len() > 0 {
            lemma_digits_prefix(s.drop_last(), s.len() - 1);
            assert(s.drop_last().subrange(0, s.len() - 1) =~= s.drop_last());
        }
    }
}

/// The 32-bit value of `input[begin..end]`, or `None` unless it is a run of ASCII digits that fits.
fn parse_decimal(input: &Vec<char>, begin: usize, end: usize) -> (r: Option<i32>)
    requires
        begin <= end <= input@.len(),
    ensures
        r == parse_i32(input@.subrange(begin as int, end as int)),
{
    let ghost s = input@.subrange(begin as int, end as int);
    if begin == end {
        return None;
    }
    let mut v: i64 = 0;
    let mut i: usize = begin;
    while i < end
        invariant
            begin <= i <= end <= input@.len(),
            s == input@.subrange(begin as int, end as int),
            forall|j: int| 0 <= j < i - begin ==> is_ascii_digit(#[trigger] s[j]),
            v == digits_value(s.subrange(0, i - begin)),
            0 <= v <= i32::MAX,
        decreases end - i,
    {
        let c = input[i];
        if !('0' <= c && c <= '9') {
            assert(!is_ascii_digit(s[i - begin]));
            return None;
        }
        let d = (c as u32 - '0' as u32) as i64;
        proof {
            let t = s.subrange(0, i + 1 - begin);
            assert(t.drop_last() =~= s.subrange(0, i - begin));
            assert(t.last() == c);
        }
        v = v * 10 + d;
        i = i + 1;
        if v > i32::MAX as i64 {
            proof {
                if forall|j: int| 0 <= j < s.len() ==> is_ascii_digit(#[trigger] s[j]) {
                    lemma_digits_prefix(s, i - begin);
                }
            }
            return None;
        }
    }
    proof {
        assert(s.subrange(0, s.len() as int) =~= s);
    }
    Some(v as i32)
}

} // verus!
