use vstd::prelude::*;

verus! {

#[derive(Debug, PartialEq)]
pub enum TokenizerError {
    UnexpectedCharacter(char, usize),
    UnterminatedString(usize),
    InvalidNumeric(String, usize),
    EmptyInput,
    InvalidIdentifier(String, usize),
    UnexpectedEof,
}

#[derive(Debug, PartialEq, Clone)]
pub enum Token {
    Select,
    From,
    Where,
    Insert,
    Delete,
    Into,
    Values,
    // Identifiers and literals
    Identifier(String),
    StringLiteral(String),
    NumericLiteral(String),
    // Symbols
    Semicolon,
    Asterisk,
    OpenBracket,
    CloseBracket,
    Comma,
    Index,
    Table,
    Database,
    // Binary operators
    Equals,
    NotEquals,
    GreaterThan,
    LessThan,
    GreaterThanOrEquals,
    LessThanOrEquals,
    And,
    Or,
    // Data definition
    CreateTable,
    Create,
    Drop,
    Alter,
    // End of input
    Eof,
}

impl Token {
    /// A copy of the token.
    pub fn duplicate(&self) -> (r: Token)
        ensures
            r == *self,
    {
        match self {
            Token::Select => Token::Select,
            Token::From => Token::From,
            Token::Where => Token::Where,
            Token::Insert => Token::Insert,
            Token::Delete => Token::Delete,
            Token::Into => Token::Into,
            Token::Values => Token::Values,
            Token::Identifier(s) => Token::Identifier(s.clone()),
            Token::StringLiteral(s) => Token::StringLiteral(s.clone()),
            Token::NumericLiteral(s) => Token::NumericLiteral(s.clone()),
            Token::Semicolon => Token::Semicolon,
            Token::Asterisk => Token::Asterisk,
            Token::OpenBracket => Token::OpenBracket,
            Token::CloseBracket => Token::CloseBracket,
            Token::Comma => Token::Comma,
            Token::Index => Token::Index,
            Token::Table => Token::Table,
            Token::Database => Token::Database,
            Token::Equals => Token::Equals,
            Token::NotEquals => Token::NotEquals,
            Token::GreaterThan => Token::GreaterThan,
            Token::LessThan => Token::LessThan,
            Token::GreaterThanOrEquals => Token::GreaterThanOrEquals,
            Token::LessThanOrEquals => Token::LessThanOrEquals,
            Token::And => Token::And,
            Token::Or => Token::Or,
            Token::CreateTable => Token::CreateTable,
            Token::Create => Token::Create,
            Token::Drop => Token::Drop,
            Token::Alter => Token::Alter,
            Token::Eof => Token::Eof,
        }
    }
}

/// How a token is written in a diagnostic: its variant name, and a payload in
/// double quotes.
pub open spec fn token_text(t: Token) -> Seq<char> {
    match t {
        Token::Select => "Select"@,
        Token::From => "From"@,
        Token::Where => "Where"@,
        Token::Insert => "Insert"@,
        Token::Delete => "Delete"@,
        Token::Into => "Into"@,
        Token::Values => "Values"@,
        Token::Semicolon => "Semicolon"@,
        Token::Asterisk => "Asterisk"@,
        Token::OpenBracket => "OpenBracket"@,
        Token::CloseBracket => "CloseBracket"@,
        Token::Comma => "Comma"@,
        Token::Index => "Index"@,
        Token::Table => "Table"@,
        Token::Database => "Database"@,
        Token::Equals => "Equals"@,
        Token::NotEquals => "NotEquals"@,
        Token::GreaterThan => "GreaterThan"@,
        Token::LessThan => "LessThan"@,
        Token::GreaterThanOrEquals => "GreaterThanOrEquals"@,
        Token::LessThanOrEquals => "LessThanOrEquals"@,
        Token::And => "And"@,
        Token::Or => "Or"@,
        Token::CreateTable => "CreateTable"@,
        Token::Create => "Create"@,
        Token::Drop => "Drop"@,
        Token::Alter => "Alter"@,
        Token::Eof => "Eof"@,
        Token::Identifier(s) => "Identifier(\""@ + s@ + "\")"@,
        Token::StringLiteral(s) => "StringLiteral(\""@ + s@ + "\")"@,
        Token::NumericLiteral(s) => "NumericLiteral(\""@ + s@ + "\")"@,
    }
}

impl Token {
    /// The token as written in a diagnostic.
    pub fn describe(&self) -> (r: String)
        ensures
            r@ == token_text(*self),
    {
        match self {
            Token::Select => "Select".to_owned(),
            Token::From => "From".to_owned(),
            Token::Where => "Where".to_owned(),
            Token::Insert => "Insert".to_owned(),
            Token::Delete => "Delete".to_owned(),
            Token::Into => "Into".to_owned(),
            Token::Values => "Values".to_owned(),
            Token::Semicolon => "Semicolon".to_owned(),
            Token::Asterisk => "Asterisk".to_owned(),
            Token::OpenBracket => "OpenBracket".to_owned(),
            Token::CloseBracket => "CloseBracket".to_owned(),
            Token::Comma => "Comma".to_owned(),
            Token::Index => "Index".to_owned(),
            Token::Table => "Table".to_owned(),
            Token::Database => "Database".to_owned(),
            Token::Equals => "Equals".to_owned(),
            Token::NotEquals => "NotEquals".to_owned(),
            Token::GreaterThan => "GreaterThan".to_owned(),
            Token::LessThan => "LessThan".to_owned(),
            Token::GreaterThanOrEquals => "GreaterThanOrEquals".to_owned(),
            Token::LessThanOrEquals => "LessThanOrEquals".to_owned(),
            Token::And => "And".to_owned(),
            Token::Or => "Or".to_owned(),
            Token::CreateTable => "CreateTable".to_owned(),
            Token::Create => "Create".to_owned(),
            Token::Drop => "Drop".to_owned(),
            Token::Alter => "Alter".to_owned(),
            Token::Eof => "Eof".to_owned(),
            Token::Identifier(s) => "Identifier(\"".to_owned().concat(s.as_str()).concat("\")"),
            Token::StringLiteral(s) => "StringLiteral(\"".to_owned().concat(s.as_str()).concat("\")"),
            Token::NumericLiteral(s) => "NumericLiteral(\"".to_owned().concat(s.as_str()).concat("\")"),
        }
    }
}

/// A token without a payload.
pub open spec fn is_bare(t: Token) -> bool {
    match t {
        Token::Select => true,
        Token::From => true,
        Token::Where => true,
        Token::Insert => true,
        Token::Delete => true,
        Token::Into => true,
        Token::Values => true,
        Token::Semicolon => true,
        Token::Asterisk => true,
        Token::OpenBracket => true,
        Token::CloseBracket => true,
        Token::Comma => true,
        Token::Index => true,
        Token::Table => true,
        Token::Database => true,
        Token::Equals => true,
        Token::NotEquals => true,
        Token::GreaterThan => true,
        Token::LessThan => true,
        Token::GreaterThanOrEquals => true,
        Token::LessThanOrEquals => true,
        Token::And => true,
        Token::Or => true,
        Token::CreateTable => true,
        Token::Create => true,
        Token::Drop => true,
        Token::Alter => true,
        Token::Eof => true,
        _ => false,
    }
}

/// The variant of a token, as a number.
pub open spec fn tag_of(t: Token) -> u8 {
    match t {
        Token::Select => 0,
        Token::From => 1,
        Token::Where => 2,
        Token::Insert => 3,
        Token::Delete => 4,
        Token::Into => 5,
        Token::Values => 6,
        Token::Identifier(_) => 7,
        Token::StringLiteral(_) => 8,
        Token::NumericLiteral(_) => 9,
        Token::Semicolon => 10,
        Token::Asterisk => 11,
        Token::OpenBracket => 12,
        Token::CloseBracket => 13,
        Token::Comma => 14,
        Token::Index => 15,
        Token::Table => 16,
        Token::Database => 17,
        Token::Equals => 18,
        Token::NotEquals => 19,
        Token::GreaterThan => 20,
        Token::LessThan => 21,
        Token::GreaterThanOrEquals => 22,
        Token::LessThanOrEquals => 23,
        Token::And => 24,
        Token::Or => 25,
        Token::CreateTable => 26,
        Token::Create => 27,
        Token::Drop => 28,
        Token::Alter => 29,
        Token::Eof => 30,
    }
}

impl Token {
    pub fn tag(&self) -> (r: u8)
        ensures
            r == tag_of(*self),
    {
        match self {
            Token::Select => 0,
            Token::From => 1,
            Token::Where => 2,
            Token::Insert => 3,
            Token::Delete => 4,
            Token::Into => 5,
            Token::Values => 6,
            Token::Identifier(_) => 7,
            Token::StringLiteral(_) => 8,
            Token::NumericLiteral(_) => 9,
            Token::Semicolon => 10,
            Token::Asterisk => 11,
            Token::OpenBracket => 12,
            Token::CloseBracket => 13,
            Token::Comma => 14,
            Token::Index => 15,
            Token::Table => 16,
            Token::Database => 17,
            Token::Equals => 18,
            Token::NotEquals => 19,
            Token::GreaterThan => 20,
            Token::LessThan => 21,
            Token::GreaterThanOrEquals => 22,
            Token::LessThanOrEquals => 23,
            Token::And => 24,
            Token::Or => 25,
            Token::CreateTable => 26,
            Token::Create => 27,
            Token::Drop => 28,
            Token::Alter => 29,
            Token::Eof => 30,
        }
    }
}

/// ASCII whitespace: space, tab, line feed, form feed, carriage return.
pub open spec fn is_space(c: char) -> bool {
    c == ' ' || c == '\t' || c == '\n' || c == '\r' || c == '\x0C'
}

pub open spec fn is_letter(c: char) -> bool {
    (65 <= c as u32 <= 90) || (97 <= c as u32 <= 122)
}

pub open spec fn is_digit(c: char) -> bool {
    48 <= c as u32 <= 57
}

pub open spec fn starts_word(c: char) -> bool {
    is_letter(c) || c == '_'
}

pub open spec fn in_word(c: char) -> bool {
    is_letter(c) || is_digit(c) || c == '_'
}

/// The first index at or after `p` whose character is not whitespace, or the length.
pub open spec fn skip_space(s: Seq<char>, p: int) -> int
    decreases s.len() - p,
{
    if 0 <= p < s.len() && is_space(s[p]) {
        skip_space(s, p + 1)
    } else {
        p
    }
}

/// The first index at or after `p` whose character cannot continue a word.
pub open spec fn word_end(s: Seq<char>, p: int) -> int
    decreases s.len() - p,
{
    if 0 <= p < s.len() && in_word(s[p]) {
        word_end(s, p + 1)
    } else {
        p
    }
}

/// The first index at or after `p` whose character is not a digit.
pub open spec fn digits_end(s: Seq<char>, p: int) -> int
    decreases s.len() - p,
{
    if 0 <= p < s.len() && is_digit(s[p]) {
        digits_end(s, p + 1)
    } else {
        p
    }
}

/// The first index at or after `p` that holds a single quote, or the length.
pub open spec fn quote_end(s: Seq<char>, p: int) -> int
    decreases s.len() - p,
{
    if 0 <= p < s.len() && s[p] != '\'' {
        quote_end(s, p + 1)
    } else {
        p
    }
}

/// `w` equals the upper-case ASCII word `kw` when lower-case letters are folded.
pub open spec fn same_word_folded(w: Seq<char>, kw: Seq<char>) -> bool {
    &&& w.len() == kw.len()
    &&& forall|i: int|
        0 <= i < w.len() ==> (w[i] == kw[i] || (97 <= w[i] as u32 <= 122 && w[i] as u32
            == kw[i] as u32 + 32))
}

/// The keyword token that the word spells, in any letter case.
pub open spec fn keyword_of(w: Seq<char>) -> Option<Token> {
    if same_word_folded(w, "SELECT"@) {
        Some(Token::Select)
    } else if same_word_folded(w, "FROM"@) {
        Some(Token::From)
    } else if same_word_folded(w, "INTO"@) {
        Some(Token::Into)
    } else if same_word_folded(w, "WHERE"@) {
        Some(Token::Where)
    } else if same_word_folded(w, "INSERT"@) {
        Some(Token::Insert)
    } else if same_word_folded(w, "DELETE"@) {
        Some(Token::Delete)
    } else if same_word_folded(w, "AND"@) {
        Some(Token::And)
    } else if same_word_folded(w, "OR"@) {
        Some(Token::Or)
    } else if same_word_folded(w, "VALUES"@) {
        Some(Token::Values)
    } else {
        None
    }
}

/// The token for a word: a keyword, or else an identifier with its case kept.
pub open spec fn word_token(w: Seq<char>, t: Token) -> bool {
    match keyword_of(w) {
        Some(k) => t == k,
        None => t matches Token::Identifier(x) && x@ == w,
    }
}

/// A token made of the character at `q` alone, if there is one.
pub open spec fn symbol_of(c: char) -> Option<Token> {
    if c == '=' {
        Some(Token::Equals)
    } else if c == ';' {
        Some(Token::Semicolon)
    } else if c == '*' {
        Some(Token::Asterisk)
    } else if c == '(' {
        Some(Token::OpenBracket)
    } else if c == ')' {
        Some(Token::CloseBracket)
    } else if c == ',' {
        Some(Token::Comma)
    } else {
        None
    }
}

/// Scanning `s` from index `p` yields `r` and leaves the scanner at `next`.
/// Positions count characters from the start of the text.
pub open spec fn scans(s: Seq<char>, p: int, r: Result<Token, TokenizerError>, next: int) -> bool {
    let q = skip_space(s, p);
    if q >= s.len() {
        r == Ok::<Token, TokenizerError>(Token::Eof) && next == q
    } else {
        let c = s[q];
        let followed_by_eq = q + 1 < s.len() && s[q + 1] == '=';
        if symbol_of(c) is Some {
            r == Ok::<Token, TokenizerError>(symbol_of(c)->0) && next == q + 1
        } else if c == '>' {
            if followed_by_eq {
                r == Ok::<Token, TokenizerError>(Token::GreaterThanOrEquals) && next == q + 2
            } else {
                r == Ok::<Token, TokenizerError>(Token::GreaterThan) && next == q + 1
            }
        } else if c == '<' {
            if followed_by_eq {
                r == Ok::<Token, TokenizerError>(Token::LessThanOrEquals) && next == q + 2
            } else {
                r == Ok::<Token, TokenizerError>(Token::LessThan) && next == q + 1
            }
        } else if c == '!' && followed_by_eq {
            r == Ok::<Token, TokenizerError>(Token::NotEquals) && next == q + 2
        } else if c == '\'' {
            let e = quote_end(s, q + 1);
            if e < s.len() {
                &&& r matches Ok(Token::StringLiteral(x))
                &&& x@ == s.subrange(q + 1, e)
                &&& next == e + 1
            } else {
                r == Err::<Token, TokenizerError>(TokenizerError::UnterminatedString(q as usize))
                    && next == q
            }
        } else if starts_word(c) {
            let e = word_end(s, q + 1);
            &&& r matches Ok(t)
            &&& word_token(s.subrange(q, e), t)
            &&& next == e
        } else if is_digit(c) {
            let e = digits_end(s, q + 1);
            &&& r matches Ok(Token::NumericLiteral(x))
            &&& x@ == s.subrange(q, e)
            &&& next == e
        } else {
            r == Err::<Token, TokenizerError>(TokenizerError::UnexpectedCharacter(c, q as usize))
                && next == q
        }
    }
}

/// Produces the tokens of a query text one call at a time.
pub struct Tokenizer<'a> {
    input: &'a str,
    chars: Vec<char>,
    position: usize,
}

impl<'a> Tokenizer<'a> {
    /// The text being scanned.
    pub closed spec fn text(&self) -> Seq<char> {
        self.chars@
    }

    /// The index of the next character to be read.
    pub closed spec fn pos(&self) -> int {
        self.position as int
    }

    pub closed spec fn wf(&self) -> bool {
        &&& self.chars@ == self.input@
        &&& self.position <= self.chars.len()
    }

    pub fn new(input: &'a str) -> (r: Self)
        ensures
            r.wf(),
            r.text() == input@,
            r.pos() == 0,
    {
        let n = input.unicode_len();
        let mut chars: Vec<char> = Vec::new();
        let mut i: usize = 0;
        while i < n
            invariant
                n == input@.len(),
                i <= n,
                chars@ == input@.subrange(0, i as int),
            decreases n - i,
        {
            chars.push(input.get_char(i));
            i = i + 1;
            assert(chars@ =~= input@.subrange(0, i as int));
        }
        assert(chars@ =~= input@);
        Tokenizer { input, chars, position: 0 }
    }

    /// Reads the next token. Once the text is used up every call yields `Eof`.
    pub fn get_next_token(&mut self) -> (r: Result<Token, TokenizerError>)
        requires
            old(self).wf(),
        ensures
            final(self).wf(),
            final(self).text() == old(self).text(),
            scans(old(self).text(), old(self).pos(), r, final(self).pos()),
    {
        self.skip_whitespace();
        let q = self.position;
        let n = self.chars.len();
        if q >= n {
            return Ok(Token::Eof);
        }
        let c = self.chars[q];
        let followed_by_eq = q + 1 < n && self.chars[q + 1] == '=';
        if let Some(t) = Self::symbol(c) {
            self.position = q + 1;
            return Ok(t);
        }
        if c == '>' {
            if followed_by_eq {
                self.position = q + 2;
                Ok(Token::GreaterThanOrEquals)
            } else {
                self.position = q + 1;
                Ok(Token::GreaterThan)
            }
        } else if c == '<' {
            if followed_by_eq {
                self.position = q + 2;
                Ok(Token::LessThanOrEquals)
            } else {
                self.position = q + 1;
                Ok(Token::LessThan)
            }
        } else if c == '!' && followed_by_eq {
            self.position = q + 2;
            Ok(Token::NotEquals)
        } else if c == '\'' {
            self.read_string_literal()
        } else if Self::is_word_start(c) {
            let word = self.read_identifier();
            Ok(self.lookup_ident(q, self.position, word))
        } else if Self::is_digit_char(c) {
            let literal = self.read_numeric_literal();
            Ok(Token::NumericLiteral(literal))
        } else {
            Err(TokenizerError::UnexpectedCharacter(c, q))
        }
    }

    fn symbol(c: char) -> (r: Option<Token>)
        ensures
            r == symbol_of(c),
    {
        if c == '=' {
            Some(Token::Equals)
        } else if c == ';' {
            Some(Token::Semicolon)
        } else if c == '*' {
            Some(Token::Asterisk)
        } else if c == '(' {
            Some(Token::OpenBracket)
        } else if c == ')' {
            Some(Token::CloseBracket)
        } else if c == ',' {
            Some(Token::Comma)
        } else {
            None
        }
    }

    fn is_word_start(c: char) -> (r: bool)
        ensures
            r == starts_word(c),
    {
        let u = c as u32;
        (65 <= u && u <= 90) || (97 <= u && u <= 122) || c == '_'
    }

    fn is_word_char(c: char) -> (r: bool)
        ensures
            r == in_word(c),
    {
        let u = c as u32;
        (65 <= u && u <= 90) || (97 <= u && u <= 122) || (48 <= u && u <= 57) || c == '_'
    }

    fn is_digit_char(c: char) -> (r: bool)
        ensures
            r == is_digit(c),
    {
        let u = c as u32;
        48 <= u && u <= 57
    }

    /// The text from index `from` up to `to`, as a `String`.
    fn slice(&self, from: usize, to: usize) -> (r: String)
        requires
            self.wf(),
            from <= to <= self.chars.len(),
        ensures
            r@ == self.text().subrange(from as int, to as int),
    {
        self.input.substring_char(from, to).to_owned()
    }

    /// Reads a word whose first character is at the current position.
    fn read_identifier(&mut self) -> (r: String)
        requires
            old(self).wf(),
            old(self).position < old(self).chars.len(),
        ensures
            final(self).wf(),
            final(self).text() == old(self).text(),
            final(self).pos() == word_end(old(self).text(), old(self).pos() + 1),
            old(self).pos() < final(self).pos(),
            r@ == old(self).text().subrange(old(self).pos(), final(self).pos()),
    {
        let start = self.position;
        let mut i = start + 1;
        while i < self.chars.len() && Self::is_word_char(self.chars[i])
            invariant
                self.wf(),
                start < i <= self.chars.len(),
                word_end(self.chars@, start + 1) == word_end(self.chars@, i as int),
            decreases self.chars.len() - i,
        {
            i = i + 1;
        }
        self.position = i;
        self.slice(start, i)
    }

    /// Reads a run of digits whose first digit is at the current position.
    fn read_numeric_literal(&mut self) -> (r: String)
        requires
            old(self).wf(),
            old(self).position < old(self).chars.len(),
        ensures
            final(self).wf(),
            final(self).text() == old(self).text(),
            final(self).pos() == digits_end(old(self).text(), old(self).pos() + 1),
            r@ == old(self).text().subrange(old(self).pos(), final(self).pos()),
    {
        let start = self.position;
        let mut i = start + 1;
        while i < self.chars.len() && Self::is_digit_char(self.chars[i])
            invariant
                self.wf(),
                start < i <= self.chars.len(),
                digits_end(self.chars@, start + 1) == digits_end(self.chars@, i as int),
            decreases self.chars.len() - i,
        {
            i = i + 1;
        }
        self.position = i;
        self.slice(start, i)
    }

    /// Reads a quoted literal whose opening quote is at the current position.
    fn read_string_literal(&mut self) -> (r: Result<Token, TokenizerError>)
        requires
            old(self).wf(),
            old(self).position < old(self).chars.len(),
        ensures
            final(self).wf(),
            final(self).text() == old(self).text(),
            ({
                let s = old(self).text();
                let q = old(self).pos();
                let e = quote_end(s, q + 1);
                if e < s.len() {
                    &&& r matches Ok(Token::StringLiteral(x))
                    &&& x@ == s.subrange(q + 1, e)
                    &&& final(self).pos() == e + 1
                } else {
                    r == Err::<Token, TokenizerError>(
                        TokenizerError::UnterminatedString(q as usize),
                    ) && final(self).pos() == q
                }
            }),
    {
        let start = self.position;
        let mut i = start + 1;
        while i < self.chars.len() && self.chars[i] != '\''
            invariant
                self.wf(),
                start < i <= self.chars.len(),
                quote_end(self.chars@, start + 1) == quote_end(self.chars@, i as int),
            decreases self.chars.len() - i,
        {
            i = i + 1;
        }
        if i >= self.chars.len() {
            return Err(TokenizerError::UnterminatedString(start));
        }
        let literal = self.slice(start + 1, i);
        self.position = i + 1;
        Ok(Token::StringLiteral(literal))
    }

    /// Whether the characters from `from` to `to` spell `kw` with lower-case letters folded.
    fn word_is(&self, from: usize, to: usize, kw: &str) -> (r: bool)
        requires
            from <= to <= self.chars.len(),
        ensures
            r == same_word_folded(self.chars@.subrange(from as int, to as int), kw@),
    {
        let ghost w = self.chars@.subrange(from as int, to as int);
        let n = kw.unicode_len();
        if to - from != n {
            return false;
        }
        let mut j: usize = 0;
        while j < n
            invariant
                n == kw@.len(),
                to - from == n,
                from <= to <= self.chars.len(),
                w == self.chars@.subrange(from as int, to as int),
                j <= n,
                forall|i: int|
                    0 <= i < j ==> (w[i] == kw@[i] || (97 <= w[i] as u32 <= 122 && w[i] as u32
                        == kw@[i] as u32 + 32)),
            decreases n - j,
        {
            let a = self.chars[from + j];
            let b = kw.get_char(j);
            let au = a as u32;
            if !(a == b || (97 <= au && au <= 122 && au == b as u32 + 32)) {
                assert(w[j as int] == a);
                return false;
            }
            j = j + 1;
        }
        true
    }

    /// The keyword that the word spells, or an identifier holding the word.
    fn lookup_ident(&self, from: usize, to: usize, word: String) -> (r: Token)
        requires
            from <= to <= self.chars.len(),
            word@ == self.chars@.subrange(from as int, to as int),
        ensures
            word_token(word@, r),
    {
        if self.word_is(from, to, "SELECT") {
            Token::Select
        } else if self.word_is(from, to, "FROM") {
            Token::From
        } else if self.word_is(from, to, "INTO") {
            Token::Into
        } else if self.word_is(from, to, "WHERE") {
            Token::Where
        } else if self.word_is(from, to, "INSERT") {
            Token::Insert
        } else if self.word_is(from, to, "DELETE") {
            Token::Delete
        } else if self.word_is(from, to, "AND") {
            Token::And
        } else if self.word_is(from, to, "OR") {
            Token::Or
        } else if self.word_is(from, to, "VALUES") {
            Token::Values
        } else {
            Token::Identifier(word)
        }
    }

    /// Moves past whitespace.
    fn skip_whitespace(&mut self)
        requires
            old(self).wf(),
        ensures
            final(self).wf(),
            final(self).text() == old(self).text(),
            final(self).pos() == skip_space(old(self).text(), old(self).pos()),
    {
        while self.position < self.chars.len() && Self::is_space_char(self.chars[self.position])
            invariant
                self.wf(),
                self.text() == old(self).text(),
                skip_space(self.chars@, old(self).pos()) == skip_space(
                    self.chars@,
                    self.position as int,
                ),
            decreases self.chars.len() - self.position,
        {
            self.position = self.position + 1;
        }
    }

    fn is_space_char(c: char) -> (r: bool)
        ensures
            r == is_space(c),
    {
        c == ' ' || c == '\t' || c == '\n' || c == '\r' || c == '\x0C'
    }
}

} // verus!
