pub mod chars;
pub mod laws;
pub mod spec;
pub mod tokens;

use vstd::prelude::*;
use crate::lexer::chars::{char_is_numeric, is_ident_char, is_ascii_digit, is_numeric, CharClass};
use crate::lexer::spec::{decimal_value, is_blank, lex_next, lex_token, number_end, scan, skip, valid_integer, word_token};
use crate::lexer::tokens::{Token, TokenType, TokenTypeV};
use crate::text::{chars_of, owned, push_char, str_eq};

verus! {

/// `scan` stays between its start and the end of the input.
pub proof fn lemma_scan_bounds(cs: Seq<char>, i: int, cls: CharClass)
    requires
        0 <= i <= cs.len(),
    ensures
        i <= scan(cs, i, cls) <= cs.len(),
        forall|k: int| i <= k < scan(cs, i, cls) ==> cls.contains(#[trigger] cs[k]),
        scan(cs, i, cls) < cs.len() ==> !cls.contains(cs[scan(cs, i, cls)]),
    decreases cs.len() - i,
{
    if i < cs.len() && cls.contains(cs[i]) {
        lemma_scan_bounds(cs, i + 1, cls);
    }
}

/// `number_end` stays between its start and the end of the input.
pub proof fn lemma_number_end_bounds(cs: Seq<char>, i: int, is_float: bool)
    requires
        0 <= i <= cs.len(),
    ensures
        i <= number_end(cs, i, is_float).0 <= cs.len(),
        is_float ==> number_end(cs, i, is_float).1,
    decreases cs.len() - i,
{
    if i < cs.len() {
        if is_numeric(cs[i]) {
            lemma_number_end_bounds(cs, i + 1, is_float);
        } else if cs[i] == '.' && i + 1 < cs.len() && is_numeric(cs[i + 1]) && !is_float {
            lemma_number_end_bounds(cs, i + 1, true);
        }
    }
}

/// `skip` stays between its start and the end of the input, and counts at
/// most one position per character.
pub proof fn lemma_skip_bounds(cs: Seq<char>, i: int, p: int)
    requires
        0 <= i <= cs.len(),
    ensures
        i <= skip(cs, i, p).0 <= cs.len(),
        p <= skip(cs, i, p).1,
        skip(cs, i, p).1 - p <= skip(cs, i, p).0 - i,
    decreases cs.len() - i,
{
    if i < cs.len() {
        if is_blank(cs[i]) {
            lemma_skip_bounds(cs, i + 1, p + 1);
        } else if cs[i] == '#' {
            let j = scan(cs, i + 1, CharClass::NotNewline);
            lemma_scan_bounds(cs, i + 1, CharClass::NotNewline);
            lemma_skip_bounds(cs, j, p + (j - (i + 1)));
        }
    }
}


/// Every prefix of a sequence of ASCII digits has a value no larger than the whole.
pub proof fn lemma_decimal_prefix(s: Seq<char>, k: int)
    requires
        0 <= k <= s.len(),
        forall|m: int| 0 <= m < s.len() ==> is_ascii_digit(#[trigger] s[m]),
    ensures
        0 <= decimal_value(s.take(k)) <= decimal_value(s),
    decreases s.len(),
{
    if s.len() > 0 {
        let t = s.drop_last();
        assert forall|m: int| 0 <= m < t.len() implies is_ascii_digit(#[trigger] t[m]) by {
            assert(t[m] == s[m]);
        }
        if k == s.len() {
            assert(s.take(k) =~= s);
            lemma_decimal_prefix(t, t.len() as int);
            assert(t.take(t.len() as int) =~= t);
        } else {
            lemma_decimal_prefix(t, k);
            assert(t.take(k) =~= s.take(k));
            lemma_decimal_prefix(t, t.len() as int);
            assert(t.take(t.len() as int) =~= t);
        }
    } else {
        assert(s.take(k) =~= s);
    }
}

/// Reading one more digit: the value of a prefix extended by one character.
pub proof fn lemma_decimal_step(s: Seq<char>, k: int)
    requires
        0 <= k < s.len(),
    ensures
        decimal_value(s.take(k + 1)) == decimal_value(s.take(k)) * 10 + (s[k] as int - '0' as int),
{
    assert(s.take(k + 1).drop_last() =~= s.take(k));
}

/// A lexical analyzer that splits the program into [`Token`]s.
pub struct Lexer {
    /// The raw program characters.
    raw_data: Vec<char>,
    /// The index of the next character to read.
    index: usize,
    /// The position counter.
    pos: usize,
}

impl Lexer {
    #[verifier::type_invariant]
    spec fn well_formed(self) -> bool {
        &&& self.index <= self.raw_data@.len()
        &&& self.pos <= self.index
    }

    /// The characters of the program.
    pub closed spec fn text(&self) -> Seq<char> {
        self.raw_data@
    }

    /// The index of the next character to read.
    pub closed spec fn next_index(&self) -> int {
        self.index as int
    }

    /// The position counter.
    pub closed spec fn position(&self) -> int {
        self.pos as int
    }

    /// Create a lexer with the program data in plain text.
    ///
    /// # Arguments
    /// * `text` - The raw program.
    pub fn from_text(text: &str) -> (r: Self)
        ensures
            r.text() == text@,
            r.next_index() == 0,
            r.position() == 0,
    {
        Lexer { raw_data: chars_of(text), index: 0, pos: 0 }
    }

    /// Create a token by eating characters while a condition is met.
    ///
    /// # Arguments
    /// * `raw_token` - The raw string token to append characters to.
    /// * `cond` - The condition that must be met.
    fn get_next_char_while(&mut self, raw_token: &mut String, cond: CharClass)
        ensures
            final(self).text() == old(self).text(),
            final(self).next_index() == scan(old(self).text(), old(self).next_index(), cond),
            final(self).position() == old(self).position() + (final(self).next_index()
                - old(self).next_index()),
            final(raw_token)@ == old(raw_token)@ + old(self).text().subrange(
                old(self).next_index(),
                final(self).next_index(),
            ),
    {
        proof {
            use_type_invariant(&*self);
            lemma_scan_bounds(self.raw_data@, self.index as int, cond);
        }
        let ghost cs = self.raw_data@;
        let ghost start = self.index as int;
        let ghost start_pos = self.pos as int;
        let ghost start_token = raw_token@;
        while self.index < self.raw_data.len() && cond.test(self.raw_data[self.index])
            invariant
                self.raw_data@ == cs,
                0 <= start <= self.index <= cs.len(),
                self.pos - start_pos == self.index - start,
                self.pos <= self.index,
                scan(cs, self.index as int, cond) == scan(cs, start, cond),
                raw_token@ == start_token + cs.subrange(start, self.index as int),
            decreases cs.len() - self.index,
        {
            let c = self.raw_data[self.index];
            let ghost old_index = self.index as int;
            push_char(raw_token, c);
            self.index = self.index + 1;
            self.pos = self.pos + 1;
            assert(cs.subrange(start, old_index + 1) =~= cs.subrange(start, old_index).push(c));
            assert(raw_token@ =~= start_token + cs.subrange(start, self.index as int));
        }
    }

    /// Check if a character is a part of an identifier.
    ///
    /// Identifiers must start with an alphabetic character or underscore, and then can have
    /// alphanumeric characters and underscores.
    pub fn is_in_identifier(c: char) -> (r: bool)
        ensures
            r == is_ident_char(c),
    {
        crate::lexer::chars::is_in_identifier(c)
    }

    /// The character at `index + offset`, if there is one.
    fn peek_at(&self, offset: usize) -> (r: Option<char>)
        requires
            offset <= 2,
        ensures
            self.next_index() + offset < self.text().len() ==> r == Some(
                self.text()[self.next_index() + offset],
            ),
            self.next_index() + offset >= self.text().len() ==> r is None,
    {
        proof {
            use_type_invariant(self);
        }
        if self.index < self.raw_data.len() && offset < self.raw_data.len() - self.index {
            Some(self.raw_data[self.index + offset])
        } else {
            None
        }
    }
}

} // verus!

verus! {

/// Reads the text of an integer literal as an `i64`: `None` when a
/// character is not an ASCII digit or the value does not fit.
pub fn parse_integer(s: &str) -> (r: Option<i64>)
    ensures
        r is Some <==> valid_integer(s@),
        r matches Some(v) ==> v == decimal_value(s@),
{
    let n = s.unicode_len();
    if n == 0 {
        return None;
    }
    let ghost t = s@;
    let mut acc: i64 = 0;
    let mut k: usize = 0;
    while k < n
        invariant
            n == t.len(),
            t == s@,
            k <= n,
            forall|m: int| 0 <= m < k ==> is_ascii_digit(#[trigger] t[m]),
            acc == decimal_value(t.take(k as int)),
            0 <= acc,
        decreases n - k,
    {
        let c = s.get_char(k);
        if !('0' <= c && c <= '9') {
            return None;
        }
        let d = (c as u32 - '0' as u32) as i64;
        proof {
            lemma_decimal_step(t, k as int);
        }
        if acc > (i64::MAX - d) / 10 {
            proof {
                if forall|m: int| 0 <= m < t.len() ==> is_ascii_digit(#[trigger] t[m]) {
                    lemma_decimal_prefix(t, k + 1);
                }
            }
            return None;
        }
        acc = acc * 10 + d;
        k = k + 1;
    }
    assert(t.take(n as int) =~= t);
    Some(acc)
}

} // verus!

verus! {

/// The token type of a word made of identifier characters: a keyword, or an identifier.
pub fn word_token_of(name: String) -> (r: TokenType)
    ensures
        r@ == word_token(name@),
{
    let w = name.as_str();
    if str_eq(w, "if") {
        TokenType::If
    } else if str_eq(w, "else") {
        TokenType::Else
    } else if str_eq(w, "let") {
        TokenType::Let
    } else if str_eq(w, "fn") {
        TokenType::Fn
    } else if str_eq(w, "extern") {
        TokenType::Extern
    } else if str_eq(w, "return") {
        TokenType::Return
    } else if str_eq(w, "true") {
        TokenType::True
    } else if str_eq(w, "false") {
        TokenType::False
    } else if str_eq(w, "const") {
        TokenType::Const
    } else if str_eq(w, "struct") {
        TokenType::Struct
    } else if str_eq(w, "enum") {
        TokenType::Enum
    } else if str_eq(w, "trait") {
        TokenType::Trait
    } else if str_eq(w, "impl") {
        TokenType::Impl
    } else if str_eq(w, "match") {
        TokenType::Match
    } else if str_eq(w, "for") {
        TokenType::For
    } else if str_eq(w, "while") {
        TokenType::While
    } else if str_eq(w, "end") {
        TokenType::End
    } else if str_eq(w, "as") {
        TokenType::As
    } else if str_eq(w, "in") {
        TokenType::In
    } else if str_eq(w, "bool") {
        TokenType::Bool
    } else if str_eq(w, "self") {
        TokenType::SelfKeyword
    } else if str_eq(w, "Self") {
        TokenType::SelfType
    } else if str_eq(w, "do") {
        TokenType::Do
    } else if str_eq(w, "break") {
        TokenType::Break
    } else if str_eq(w, "continue") {
        TokenType::Continue
    } else if str_eq(w, "import") {
        TokenType::Import
    } else {
        TokenType::Identifier(name)
    }
}

impl Lexer {
    /// Whether the next character to read is `ch`.
    fn next_is(&self, ch: char) -> (r: bool)
        ensures
            r == (self.next_index() < self.text().len() && self.text()[self.next_index()] == ch),
    {
        proof {
            use_type_invariant(self);
        }
        self.index < self.raw_data.len() && self.raw_data[self.index] == ch
    }

    /// Eats the next character when it is `ch`, without counting it.
    fn eat_if(&mut self, ch: char) -> (r: bool)
        ensures
            final(self).text() == old(self).text(),
            final(self).position() == old(self).position(),
            r == (old(self).next_index() < old(self).text().len() && old(self).text()[old(
                self,
            ).next_index()] == ch),
            final(self).next_index() == old(self).next_index() + if r {
                1int
            } else {
                0int
            },
    {
        proof {
            use_type_invariant(&*self);
        }
        if self.index < self.raw_data.len() && self.raw_data[self.index] == ch {
            self.index = self.index + 1;
            true
        } else {
            false
        }
    }

    /// Skips blanks and comments.
    fn skip_blanks(&mut self)
        ensures
            final(self).text() == old(self).text(),
            (final(self).next_index(), final(self).position()) == skip(
                old(self).text(),
                old(self).next_index(),
                old(self).position(),
            ),
    {
        let ghost cs = self.raw_data@;
        let ghost target = skip(cs, self.index as int, self.pos as int);
        loop
            invariant
                self.raw_data@ == cs,
                skip(cs, self.index as int, self.pos as int) == target,
            ensures
                self.raw_data@ == cs,
                (self.index as int, self.pos as int) == target,
            decreases cs.len() - self.index,
        {
            proof {
                use_type_invariant(&*self);
            }
            if self.index >= self.raw_data.len() {
                break;
            }
            let c = self.raw_data[self.index];
            if c == ' ' || c == '\t' || c == '\n' {
                self.index = self.index + 1;
                self.pos = self.pos + 1;
            } else if c == '#' {
                self.index = self.index + 1;
                let mut dump = String::new();
                proof {
                    lemma_scan_bounds(cs, self.index as int, CharClass::NotNewline);
                }
                self.get_next_char_while(&mut dump, CharClass::NotNewline);
            } else {
                break;
            }
        }
    }

    /// Eats the rest of a number literal whose first character was just read,
    /// appending it to `value`; tells whether the literal has a fractional part.
    fn eat_number(&mut self, value: &mut String) -> (is_float: bool)
        requires
            old(self).next_index() >= 1,
        ensures
            final(self).text() == old(self).text(),
            (final(self).next_index(), is_float) == number_end(
                old(self).text(),
                old(self).next_index(),
                false,
            ),
            final(self).position() == old(self).position() + (final(self).next_index()
                - old(self).next_index()),
            final(value)@ == old(value)@ + old(self).text().subrange(
                old(self).next_index(),
                final(self).next_index(),
            ),
    {
        let ghost cs = self.raw_data@;
        let ghost start = self.index as int;
        let ghost start_pos = self.pos as int;
        let ghost start_value = value@;
        let ghost target = number_end(cs, start, false);
        let mut is_float = false;
        proof {
            use_type_invariant(&*self);
        }
        loop
            invariant
                self.raw_data@ == cs,
                0 <= start <= self.index <= cs.len(),
                self.pos - start_pos == self.index - start,
                number_end(cs, self.index as int, is_float) == target,
                value@ == start_value + cs.subrange(start, self.index as int),
            ensures
                self.raw_data@ == cs,
                (self.index as int, is_float) == target,
                self.pos - start_pos == self.index - start,
                value@ == start_value + cs.subrange(start, self.index as int),
            decreases cs.len() - self.index,
        {
            proof {
                use_type_invariant(&*self);
            }
            if self.index >= self.raw_data.len() {
                break;
            }
            let d = self.raw_data[self.index];
            let ghost old_index = self.index as int;
            if char_is_numeric(d) {
                push_char(value, d);
                self.index = self.index + 1;
                self.pos = self.pos + 1;
            } else if d == '.' {
                let after = self.peek_at(1);
                let take = match after {
                    Some(e) => char_is_numeric(e) && !is_float,
                    None => false,
                };
                if take {
                    is_float = true;
                    push_char(value, d);
                    self.index = self.index + 1;
                    self.pos = self.pos + 1;
                } else {
                    break;
                }
            } else {
                break;
            }
            assert(cs.subrange(start, old_index + 1) =~= cs.subrange(start, old_index).push(d));
            assert(value@ =~= start_value + cs.subrange(start, self.index as int));
        }
        is_float
    }

    /// Identifies the next token: `None` when only blanks and comments are
    /// left; an error when an integer literal does not denote an `i64`.
    pub fn next_token(&mut self) -> (r: Option<Result<Token, String>>)
        ensures
            final(self).text() == old(self).text(),
            match lex_next(old(self).text(), old(self).next_index(), old(self).position()) {
                None => {
                    &&& r is None
                    &&& (final(self).next_index(), final(self).position()) == skip(
                        old(self).text(),
                        old(self).next_index(),
                        old(self).position(),
                    )
                },
                Some(l) => {
                    &&& final(self).next_index() == l.next
                    &&& final(self).position() == l.pos
                    &&& match r {
                        Some(Ok(t)) => l.token == Ok::<TokenTypeV, Seq<char>>(t.type_@)
                            && t.range.start == l.pos && t.range.end == l.pos,
                        Some(Err(e)) => l.token == Err::<TokenTypeV, Seq<char>>(e@),
                        None => false,
                    }
                },
            },
    {
        let ghost cs = self.raw_data@;
        proof {
            use_type_invariant(&*self);
            lemma_skip_bounds(cs, self.index as int, self.pos as int);
        }
        self.skip_blanks();
        proof {
            use_type_invariant(&*self);
        }
        if self.index >= self.raw_data.len() {
            return None;
        }
        let ghost i = self.index as int;
        let ghost p = self.pos as int + 1;
        let c = self.raw_data[self.index];
        self.index = self.index + 1;
        self.pos = self.pos + 1;
        let token: Result<TokenType, String>;
        if c == '@' {
            token = Ok(TokenType::At);
        } else if Lexer::is_in_identifier(c) && !char_is_numeric(c) {
            let mut name = String::new();
            push_char(&mut name, c);
            proof {
                lemma_scan_bounds(cs, i + 1, CharClass::Identifier);
            }
            self.get_next_char_while(&mut name, CharClass::Identifier);
            assert(name@ =~= cs.subrange(i, self.index as int));
            token = Ok(word_token_of(name));
        } else if char_is_numeric(c) {
            let mut value = String::new();
            push_char(&mut value, c);
            proof {
                lemma_number_end_bounds(cs, i + 1, false);
            }
            let is_float = self.eat_number(&mut value);
            assert(value@ =~= cs.subrange(i, self.index as int));
            if is_float {
                token = Ok(TokenType::Float(value));
            } else {
                match parse_integer(value.as_str()) {
                    Some(v) => {
                        token = Ok(TokenType::Integer(v));
                    },
                    None => {
                        let mut message = owned("Integer literal ");
                        message.append(value.as_str());
                        message.append(" is invalid");
                        token = Err(message);
                    },
                }
            }
        } else if c == '"' {
            let mut value = String::new();
            proof {
                lemma_scan_bounds(cs, i + 1, CharClass::NotQuote);
            }
            self.get_next_char_while(&mut value, CharClass::NotQuote);
            assert(value@ =~= cs.subrange(i + 1, self.index as int));
            proof {
                use_type_invariant(&*self);
            }
            if self.index < self.raw_data.len() {
                self.index = self.index + 1;
            }
            token = Ok(TokenType::Str(value));
        } else if c == ';' {
            token = Ok(TokenType::Semicolon);
        } else if c == ',' {
            token = Ok(TokenType::Comma);
        } else if c == '(' {
            token = Ok(TokenType::LParen);
        } else if c == ')' {
            token = Ok(TokenType::RParen);
        } else if c == '[' {
            token = Ok(TokenType::LBrack);
        } else if c == ']' {
            token = Ok(TokenType::RBrack);
        } else if c == '{' {
            token = Ok(TokenType::LBrace);
        } else if c == '}' {
            token = Ok(TokenType::RBrace);
        } else if c == '+' {
            token = Ok(
                if self.eat_if('=') {
                    TokenType::PlusEq
                } else {
                    TokenType::Plus
                },
            );
        } else if c == '-' {
            token = Ok(
                if self.eat_if('=') {
                    TokenType::MinusEq
                } else if self.eat_if('>') {
                    TokenType::Arrow
                } else {
                    TokenType::Minus
                },
            );
        } else if c == '*' {
            token = Ok(
                if self.eat_if('=') {
                    TokenType::MulEq
                } else {
                    TokenType::Mul
                },
            );
        } else if c == '/' {
            token = Ok(
                if self.eat_if('=') {
                    TokenType::DivEq
                } else {
                    TokenType::Div
                },
            );
        } else if c == '<' {
            token = Ok(
                if self.eat_if('=') {
                    TokenType::LessEq
                } else {
                    TokenType::Less
                },
            );
        } else if c == '>' {
            token = Ok(
                if self.eat_if('=') {
                    TokenType::GreaterEq
                } else {
                    TokenType::Greater
                },
            );
        } else if c == '=' {
            token = Ok(
                if self.eat_if('=') {
                    TokenType::Equal
                } else {
                    TokenType::Assign
                },
            );
        } else if c == '!' {
            token = Ok(
                if self.eat_if('=') {
                    TokenType::NotEq
                } else {
                    TokenType::Not
                },
            );
        } else if c == '.' {
            token = Ok(
                if self.eat_if('.') {
                    TokenType::Spread
                } else {
                    TokenType::Dot
                },
            );
        } else if c == ':' {
            token = Ok(
                if self.eat_if(':') {
                    TokenType::DoubleColon
                } else {
                    TokenType::Colon
                },
            );
        } else if c == '|' {
            token = Ok(
                if self.eat_if('>') {
                    TokenType::Pipeline
                } else {
                    TokenType::Unknown
                },
            );
        } else {
            token = Ok(TokenType::Unknown);
        }
        match token {
            Ok(type_) => Some(Ok(Token { type_, range: std::ops::Range { start: self.pos, end: self.pos } })),
            Err(e) => Some(Err(e)),
        }
    }
}

} // verus!

verus! {

/// Every token eats at least its first character and never reads past the
/// end of the input, so lexing a finite text ends.
pub proof fn lemma_lex_token_progress(cs: Seq<char>, i: int, p: int)
    requires
        0 <= i < cs.len(),
    ensures
        i < lex_token(cs, i, p).next <= cs.len(),
        p <= lex_token(cs, i, p).pos,
        lex_token(cs, i, p).pos - p <= lex_token(cs, i, p).next - (i + 1),
{
    lemma_scan_bounds(cs, i + 1, CharClass::Identifier);
    lemma_scan_bounds(cs, i + 1, CharClass::NotQuote);
    lemma_number_end_bounds(cs, i + 1, false);
}

/// The token types of the whole text from index `i` with position counter `p`,
/// up to and including the first invalid integer literal.
pub open spec fn lex_all(cs: Seq<char>, i: int, p: int) -> Seq<Result<TokenTypeV, Seq<char>>>
    decreases cs.len() - i,
{
    match lex_next(cs, i, p) {
        None => Seq::empty(),
        Some(l) => if i < l.next <= cs.len() && l.token is Ok {
            seq![l.token] + lex_all(cs, l.next, l.pos)
        } else {
            seq![l.token]
        },
    }
}

/// Lexing from a point makes progress: the next token ends after the point.
pub proof fn lemma_lex_next_progress(cs: Seq<char>, i: int, p: int)
    requires
        0 <= i <= cs.len(),
    ensures
        lex_next(cs, i, p) matches Some(l) ==> i < l.next <= cs.len(),
{
    lemma_skip_bounds(cs, i, p);
    let (j, q) = skip(cs, i, p);
    if 0 <= j < cs.len() {
        lemma_lex_token_progress(cs, j, q + 1);
    }
}

/// The token types of a sequence of tokens, each as a successful outcome.
pub open spec fn lexed_types(ts: Seq<Token>) -> Seq<Result<TokenTypeV, Seq<char>>> {
    ts.map_values(|t: Token| Ok::<TokenTypeV, Seq<char>>(t.type_@))
}

impl Lexer {
    /// Splits a whole program into its tokens; stops with the message of the
    /// first integer literal that does not denote an `i64`.
    pub fn tokenize(text: &str) -> (r: Result<Vec<Token>, String>)
        ensures
            r matches Ok(v) ==> lexed_types(v@) == lex_all(text@, 0, 0),
            r matches Err(e) ==> lex_all(text@, 0, 0).last() == Err::<TokenTypeV, Seq<char>>(e@),
    {
        let mut lexer = Lexer::from_text(text);
        let ghost cs = text@;
        let mut tokens: Vec<Token> = Vec::new();
        loop
            invariant
                cs == text@,
                lexer.text() == cs,
                0 <= lexer.next_index() <= cs.len(),
                lexed_types(tokens@) + lex_all(
                    cs,
                    lexer.next_index(),
                    lexer.position(),
                ) == lex_all(cs, 0, 0),
            decreases cs.len() - lexer.next_index(),
        {
            let ghost i = lexer.next_index();
            let ghost p = lexer.position();
            proof {
                lemma_lex_next_progress(cs, i, p);
            }
            let ghost before = tokens@;
            match lexer.next_token() {
                None => {
                    assert(lex_all(cs, i, p) =~= Seq::<Result<TokenTypeV, Seq<char>>>::empty());
                    assert(lexed_types(tokens@) + lex_all(cs, i, p) =~= lexed_types(tokens@));

                    return Ok(tokens);
                },
                Some(Ok(t)) => {
                    tokens.push(t);
                    assert(lexed_types(tokens@)
                        =~= lexed_types(before).push(
                        lex_next(cs, i, p).unwrap().token,
                    ));
                },
                Some(Err(e)) => {
                    let ghost prefix = lexed_types(before);
                    assert(lex_all(cs, i, p) =~= seq![Err::<TokenTypeV, Seq<char>>(e@)]);
                    assert((prefix + lex_all(cs, i, p)).last() == Err::<TokenTypeV, Seq<char>>(e@));
                    return Err(e);
                },
            }
        }
    }
}

} // verus!
