use vstd::prelude::*;

use crate::column::DataType;
use crate::tokenizer::{Token, is_bare, token_text, is_digit};

verus! {

#[derive(Debug, PartialEq)]
pub enum ParserError {
    UnexpectedToken(String, usize),
    InvalidInteger(String, usize),
}

#[derive(Debug, PartialEq)]
pub enum Statements {
    Select(SelectStatement),
    Insert(InsertStatement),
    CreateTable(CreateTableStatement),
}

#[derive(Debug, PartialEq)]
pub enum SelectColumn {
    Wildcard,
    Identifier(String),
}

#[derive(Debug, PartialEq)]
pub enum Literal {
    String(String),
    Integer(i64),
    Boolean(bool),
}

#[derive(Debug, PartialEq)]
pub enum BinaryOperator {
    Equals,
    NotEquals,
    GreaterThan,
    LessThan,
    GreaterThanOrEquals,
    LessThanOrEquals,
    And,
    Or,
}

#[derive(Debug, PartialEq)]
pub enum Expression {
    Literal(Literal),
    Identifier(String),
    Binary(Box<Expression>, BinaryOperator, Box<Expression>),
}

#[derive(Debug, PartialEq)]
pub struct SelectStatement {
    pub columns: Vec<SelectColumn>,
    pub from_table: String,
    pub where_clause: Option<Expression>,
}

#[derive(Debug, PartialEq)]
pub struct InsertStatement {
    pub table_name: String,
    pub values: Vec<Literal>,
    pub columns: Vec<String>,
}

#[derive(Debug, PartialEq)]
pub struct ColumnDefinition {
    pub name: String,
    pub data_type: DataType,
}

#[derive(Debug, PartialEq)]
pub struct CreateTableStatement {
    pub table_name: String,
    pub columns: Vec<ColumnDefinition>,
}

/// The decimal digits of `n`.
pub open spec fn decimal(n: nat) -> Seq<char>
    decreases n,
{
    if n < 10 {
        seq![digit_char(n)]
    } else {
        decimal(n / 10) + seq![digit_char(n % 10)]
    }
}

pub open spec fn digit_char(d: nat) -> char {
    if d == 0 {
        '0'
    } else if d == 1 {
        '1'
    } else if d == 2 {
        '2'
    } else if d == 3 {
        '3'
    } else if d == 4 {
        '4'
    } else if d == 5 {
        '5'
    } else if d == 6 {
        '6'
    } else if d == 7 {
        '7'
    } else if d == 8 {
        '8'
    } else {
        '9'
    }
}

/// The text of one decimal digit.
fn digit_text(d: usize) -> (r: &'static str)
    requires
        d < 10,
    ensures
        r@ == seq![digit_char(d as nat)],
{
    if d == 0 {
        proof {
            reveal_strlit("0");
        }
        "0"
    } else if d == 1 {
        proof {
            reveal_strlit("1");
        }
        "1"
    } else if d == 2 {
        proof {
            reveal_strlit("2");
        }
        "2"
    } else if d == 3 {
        proof {
            reveal_strlit("3");
        }
        "3"
    } else if d == 4 {
        proof {
            reveal_strlit("4");
        }
        "4"
    } else if d == 5 {
        proof {
            reveal_strlit("5");
        }
        "5"
    } else if d == 6 {
        proof {
            reveal_strlit("6");
        }
        "6"
    } else if d == 7 {
        proof {
            reveal_strlit("7");
        }
        "7"
    } else if d == 8 {
        proof {
            reveal_strlit("8");
        }
        "8"
    } else {
        proof {
            reveal_strlit("9");
        }
        "9"
    }
}

/// The decimal digits of `n`.
fn decimal_text(n: usize) -> (r: String)
    ensures
        r@ == decimal(n as nat),
    decreases n,
{
    if n < 10 {
        digit_text(n).to_owned()
    } else {
        decimal_text(n / 10).concat(digit_text(n % 10))
    }
}

/// The value of a sequence of decimal digits.
pub open spec fn digits_value(s: Seq<char>) -> int
    decreases s.len(),
{
    if s.len() == 0 {
        0
    } else {
        digits_value(s.drop_last()) * 10 + (s.last() as u32 - 48)
    }
}

/// `s` without a leading sign.
pub open spec fn unsigned_part(s: Seq<char>) -> Seq<char> {
    if s.len() > 0 && (s[0] == '-' || s[0] == '+') {
        s.drop_first()
    } else {
        s
    }
}

pub open spec fn all_digits(t: Seq<char>) -> bool {
    forall|i: int| 0 <= i < t.len() ==> is_digit(#[trigger] t[i])
}

/// The 64-bit integer that `s` denotes: an optional `+` or `-` and then one or
/// more decimal digits, within range.
pub open spec fn int_of(s: Seq<char>) -> Option<i64> {
    let body = unsigned_part(s);
    let v = if s.len() > 0 && s[0] == '-' {
        -digits_value(body)
    } else {
        digits_value(body)
    };
    if body.len() > 0 && all_digits(body) && i64::MIN <= v <= i64::MAX {
        Some(v as i64)
    } else {
        None
    }
}

/// The value of a run of digits is not negative.
proof fn lemma_digits_value_nonneg(t: Seq<char>)
    requires
        forall|i: int| 0 <= i < t.len() ==> is_digit(#[trigger] t[i]),
    ensures
        digits_value(t) >= 0,
    decreases t.len(),
{
    if t.len() > 0 {
        lemma_digits_value_nonneg(t.drop_last());
    }
}

/// A run of digits is worth at least as much as any of its prefixes.
proof fn lemma_digits_value_prefix(t: Seq<char>, k: int)
    requires
        0 <= k <= t.len(),
        forall|i: int| 0 <= i < t.len() ==> is_digit(#[trigger] t[i]),
    ensures
        digits_value(t.subrange(0, k)) <= digits_value(t),
    decreases t.len(),
{
    if k == t.len() {
        assert(t.subrange(0, k) =~= t);
    } else {
        let u = t.drop_last();
        lemma_digits_value_prefix(u, k);
        lemma_digits_value_nonneg(u);
        assert(u.subrange(0, k) =~= t.subrange(0, k));
    }
}

/// The 64-bit integer that `s` denotes, as `int_of` states.
fn parse_i64(s: &str) -> (r: Option<i64>)
    ensures
        r == int_of(s@),
{
    let n = s.unicode_len();
    if n == 0 {
        return None;
    }
    let first = s.get_char(0);
    let negative = first == '-';
    let start: usize = if first == '-' || first == '+' {
        1
    } else {
        0
    };
    let ghost body = s@.subrange(start as int, n as int);
    assert(start == 1 ==> body =~= s@.drop_first());
    assert(start == 0 ==> body =~= s@);
    assert(body == unsigned_part(s@));
    if start == n {
        return None;
    }
    let mut acc: i64 = 0;
    let mut i: usize = start;
    assert(s@.subrange(start as int, start as int) =~= Seq::<char>::empty());
    while i < n
        invariant
            n == s@.len(),
            start <= i <= n,
            start < n,
            negative == (s@[0] == '-'),
            start == 1 <==> (s@[0] == '-' || s@[0] == '+'),
            body == s@.subrange(start as int, n as int),
            body == unsigned_part(s@),
            forall|j: int| start <= j < i ==> is_digit(#[trigger] s@[j]),
            negative ==> acc == -digits_value(s@.subrange(start as int, i as int)),
            !negative ==> acc == digits_value(s@.subrange(start as int, i as int)),
        decreases n - i,
    {
        let c = s.get_char(i);
        let u = c as u32;
        if !(48 <= u && u <= 57) {
            assert(body[i - start] == c);
            assert(!is_digit(body[i - start]));
            assert(!all_digits(body));
            return None;
        }
        let d = (u - 48) as i128;
        let prefix = Ghost(s@.subrange(start as int, i + 1));
        assert(prefix@.drop_last() =~= s@.subrange(start as int, i as int));
        assert(prefix@.last() == c);
        assert(digits_value(prefix@) == digits_value(s@.subrange(start as int, i as int)) * 10 + (u - 48));
        let next: i128 = if negative {
            (acc as i128) * 10 - d
        } else {
            (acc as i128) * 10 + d
        };
        if next < i64::MIN as i128 || next > i64::MAX as i128 {
            proof {
                if all_digits(body) {
                    lemma_digits_value_prefix(body, i + 1 - start);
                    assert(body.subrange(0, i + 1 - start) =~= prefix@);
                    lemma_digits_value_nonneg(prefix@);
                    assert(digits_value(prefix@) <= digits_value(body));
                }
            }
            return None;
        }
        acc = next as i64;
        i = i + 1;
    }
    assert(s@.subrange(start as int, i as int) =~= body);
    Some(acc)
}

impl ParserError {
    /// The error as a message.
    pub fn to_string(&self) -> (r: String)
        ensures
            r@ == match self {
                ParserError::UnexpectedToken(m, p) => "Unexpected Token '"@ + m@
                    + "' at position '"@ + decimal(*p as nat) + "'"@,
                ParserError::InvalidInteger(m, p) => "Invalid Integer '"@ + m@
                    + "' at position '"@ + decimal(*p as nat) + "'"@,
            },
    {
        match self {
            ParserError::UnexpectedToken(m, p) => "Unexpected Token '".to_owned().concat(
                m.as_str(),
            ).concat("' at position '").concat(decimal_text(*p).as_str()).concat("'"),
            ParserError::InvalidInteger(m, p) => "Invalid Integer '".to_owned().concat(
                m.as_str(),
            ).concat("' at position '").concat(decimal_text(*p).as_str()).concat("'"),
        }
    }
}

/// Why a parse failed: the message and the position of the offending token.
pub enum Failure {
    Unexpected(Seq<char>, int),
    BadInteger(Seq<char>, int),
}

/// The result of parsing a phrase: its value and the position after it, or a failure.
pub enum Parsed<T> {
    Done(T, int),
    Failed(Failure),
}

/// The content of a SELECT statement.
pub struct SelectShape {
    pub columns: Seq<SelectColumn>,
    pub from_table: String,
    pub where_clause: Option<Expression>,
}

impl SelectStatement {
    pub open spec fn shape(&self) -> SelectShape {
        SelectShape {
            columns: self.columns@,
            from_table: self.from_table,
            where_clause: self.where_clause,
        }
    }
}

/// `e` is the error that reports `f`.
pub open spec fn reports(e: ParserError, f: Failure) -> bool {
    match f {
        Failure::Unexpected(m, p) => e matches ParserError::UnexpectedToken(x, q) && x@ == m && q
            == p,
        Failure::BadInteger(m, p) => e matches ParserError::InvalidInteger(x, q) && x@ == m && q
            == p,
    }
}

pub open spec fn token_at(ts: Seq<Token>, p: int) -> Option<Token> {
    if 0 <= p < ts.len() {
        Some(ts[p])
    } else {
        None
    }
}

pub open spec fn end_of_input(p: int) -> Failure {
    Failure::Unexpected("End of input"@, p)
}

/// A bare token `want` expected at `p`.
pub open spec fn expect(ts: Seq<Token>, p: int, want: Token) -> Parsed<()> {
    match token_at(ts, p) {
        None => Parsed::Failed(end_of_input(p)),
        Some(t) => if t == want {
            Parsed::Done((), p + 1)
        } else {
            Parsed::Failed(
                Failure::Unexpected("Expected "@ + token_text(want) + ", found "@ + token_text(t), p),
            )
        },
    }
}

/// Prefixes the columns `acc` to a parsed column list.
pub open spec fn glue(acc: Seq<SelectColumn>, r: Parsed<Seq<SelectColumn>>) -> Parsed<
    Seq<SelectColumn>,
> {
    match r {
        Parsed::Done(rest, e) => Parsed::Done(acc + rest, e),
        Parsed::Failed(f) => Parsed::Failed(f),
    }
}

/// `identifier (',' identifier)*` from `p`.
pub open spec fn column_list(ts: Seq<Token>, p: int) -> Parsed<Seq<SelectColumn>>
    decreases ts.len() - p,
{
    if p < 0 || p >= ts.len() {
        Parsed::Failed(end_of_input(p))
    } else {
        match ts[p] {
            Token::Identifier(name) => if p + 1 < ts.len() && ts[p + 1] == Token::Comma {
                glue(seq![SelectColumn::Identifier(name)], column_list(ts, p + 2))
            } else {
                Parsed::Done(seq![SelectColumn::Identifier(name)], p + 1)
            },
            t => Parsed::Failed(
                Failure::Unexpected("Expected column name or '*', found "@ + token_text(t), p),
            ),
        }
    }
}

/// `'*' | identifier (',' identifier)*` from `p`.
pub open spec fn select_columns(ts: Seq<Token>, p: int) -> Parsed<Seq<SelectColumn>> {
    if token_at(ts, p) == Some(Token::Asterisk) {
        Parsed::Done(seq![SelectColumn::Wildcard], p + 1)
    } else {
        column_list(ts, p)
    }
}

pub open spec fn operator_of(t: Token) -> Option<BinaryOperator> {
    match t {
        Token::Equals => Some(BinaryOperator::Equals),
        Token::NotEquals => Some(BinaryOperator::NotEquals),
        Token::GreaterThan => Some(BinaryOperator::GreaterThan),
        Token::LessThan => Some(BinaryOperator::LessThan),
        Token::GreaterThanOrEquals => Some(BinaryOperator::GreaterThanOrEquals),
        Token::LessThanOrEquals => Some(BinaryOperator::LessThanOrEquals),
        Token::And => Some(BinaryOperator::And),
        Token::Or => Some(BinaryOperator::Or),
        _ => None,
    }
}

/// `identifier binary_operator literal` from `p`.
pub open spec fn expression(ts: Seq<Token>, p: int) -> Parsed<Expression> {
    match token_at(ts, p) {
        None => Parsed::Failed(end_of_input(p)),
        Some(Token::Identifier(name)) => match token_at(ts, p + 1) {
            None => Parsed::Failed(end_of_input(p + 1)),
            Some(o) => match operator_of(o) {
                None => Parsed::Failed(
                    Failure::Unexpected(
                        "Expected binary operator, found "@ + token_text(o),
                        p + 1,
                    ),
                ),
                Some(op) => match token_at(ts, p + 2) {
                    None => Parsed::Failed(end_of_input(p + 2)),
                    Some(Token::StringLiteral(s)) => Parsed::Done(
                        Expression::Binary(
                            Box::new(Expression::Identifier(name)),
                            op,
                            Box::new(Expression::Literal(Literal::String(s))),
                        ),
                        p + 3,
                    ),
                    Some(Token::NumericLiteral(n)) => match int_of(n@) {
                        Some(i) => Parsed::Done(
                            Expression::Binary(
                                Box::new(Expression::Identifier(name)),
                                op,
                                Box::new(Expression::Literal(Literal::Integer(i))),
                            ),
                            p + 3,
                        ),
                        None => Parsed::Failed(Failure::BadInteger(n@, p + 2)),
                    },
                    Some(t) => Parsed::Failed(
                        Failure::Unexpected(
                            "Expected literal in expression, found "@ + token_text(t),
                            p + 2,
                        ),
                    ),
                },
            },
        },
        Some(t) => Parsed::Failed(
            Failure::Unexpected("Expected identifier in expression, found "@ + token_text(t), p),
        ),
    }
}

/// The closing `;` at `d` of a SELECT statement whose other parts are given.
pub open spec fn finish_select(
    ts: Seq<Token>,
    d: int,
    columns: Seq<SelectColumn>,
    from_table: String,
    where_clause: Option<Expression>,
) -> Parsed<SelectShape> {
    match expect(ts, d, Token::Semicolon) {
        Parsed::Failed(f) => Parsed::Failed(f),
        Parsed::Done(_, e) => Parsed::Done(SelectShape { columns, from_table, where_clause }, e),
    }
}

/// `SELECT select_columns FROM identifier [WHERE expression] ';'`, where the
/// token at `p` is taken as the SELECT keyword.
pub open spec fn select_statement(ts: Seq<Token>, p: int) -> Parsed<SelectShape> {
    if p < 0 || p >= ts.len() {
        Parsed::Failed(end_of_input(p))
    } else {
        match select_columns(ts, p + 1) {
            Parsed::Failed(f) => Parsed::Failed(f),
            Parsed::Done(columns, a) => match expect(ts, a, Token::From) {
                Parsed::Failed(f) => Parsed::Failed(f),
                Parsed::Done(_, b) => match token_at(ts, b) {
                    None => Parsed::Failed(end_of_input(b)),
                    Some(Token::Identifier(name)) => if token_at(ts, b + 1) == Some(Token::Where) {
                        match expression(ts, b + 2) {
                            Parsed::Failed(f) => Parsed::Failed(f),
                            Parsed::Done(w, d) => finish_select(ts, d, columns, name, Some(w)),
                        }
                    } else {
                        finish_select(ts, b + 1, columns, name, None)
                    },
                    Some(t) => Parsed::Failed(
                        Failure::Unexpected("Expected table name, found "@ + token_text(t), b),
                    ),
                },
            },
        }
    }
}

/// One statement from `p`; only SELECT is supported.
pub open spec fn statement(ts: Seq<Token>, p: int) -> Parsed<SelectShape> {
    match token_at(ts, p) {
        None => Parsed::Failed(end_of_input(p)),
        Some(Token::Select) => select_statement(ts, p),
        Some(Token::Insert) => Parsed::Failed(Failure::Unexpected("INSERT"@, p)),
        Some(Token::CreateTable) => Parsed::Failed(Failure::Unexpected("CREATE TABLE"@, p)),
        Some(t) => Parsed::Failed(Failure::Unexpected(token_text(t), p)),
    }
}

pub struct Parser {
    tokens: Vec<Token>,
    position: usize,
}

impl Parser {
    pub closed spec fn tokens_spec(&self) -> Seq<Token> {
        self.tokens@
    }

    pub closed spec fn pos(&self) -> int {
        self.position as int
    }

    pub closed spec fn wf(&self) -> bool {
        self.position <= self.tokens.len()
    }

    pub fn new(tokens: Vec<Token>) -> (r: Self)
        ensures
            r.wf(),
            r.tokens_spec() == tokens@,
            r.pos() == 0,
    {
        Parser { tokens, position: 0 }
    }

    pub fn current_token(&self) -> (r: Result<&Token, ParserError>)
        requires
            self.wf(),
        ensures
            match token_at(self.tokens_spec(), self.pos()) {
                Some(t) => r == Ok::<&Token, ParserError>(&t),
                None => r matches Err(e) && reports(e, end_of_input(self.pos())),
            },
    {
        if self.position < self.tokens.len() {
            Ok(&self.tokens[self.position])
        } else {
            Err(ParserError::UnexpectedToken("End of input".to_owned(), self.position))
        }
    }

    pub fn consume_token(&mut self) -> (r: Result<Token, ParserError>)
        requires
            old(self).wf(),
        ensures
            final(self).wf(),
            final(self).tokens_spec() == old(self).tokens_spec(),
            match token_at(old(self).tokens_spec(), old(self).pos()) {
                Some(t) => r == Ok::<Token, ParserError>(t) && final(self).pos() == old(self).pos()
                    + 1,
                None => r matches Err(e) && reports(e, end_of_input(old(self).pos()))
                    && final(self).pos() == old(self).pos(),
            },
    {
        if self.position < self.tokens.len() {
            let token = self.tokens[self.position].duplicate();
            self.position = self.position + 1;
            Ok(token)
        } else {
            Err(ParserError::UnexpectedToken("End of input".to_owned(), self.position))
        }
    }
    /// Parses one statement at the cursor. INSERT and CREATE TABLE are
    /// recognised and refused; only SELECT is supported.
    pub fn parse_statement(&mut self) -> (r: Result<Statements, ParserError>)
        requires
            old(self).wf(),
        ensures
            final(self).wf(),
            final(self).tokens_spec() == old(self).tokens_spec(),
            match statement(old(self).tokens_spec(), old(self).pos()) {
                Parsed::Done(shape, e) => r matches Ok(Statements::Select(st)) && st.shape()
                    == shape && final(self).pos() == e,
                Parsed::Failed(f) => r matches Err(err) && reports(err, f),
            },
    {
        let current = match self.current_token() {
            Ok(t) => t.duplicate(),
            Err(e) => return Err(e),
        };
        match current {
            Token::Select => match self.parse_select_statement() {
                Ok(st) => Ok(Statements::Select(st)),
                Err(e) => Err(e),
            },
            Token::Insert => Err(ParserError::UnexpectedToken("INSERT".to_owned(), self.position)),
            Token::CreateTable => Err(
                ParserError::UnexpectedToken("CREATE TABLE".to_owned(), self.position),
            ),
            t => Err(ParserError::UnexpectedToken(t.describe(), self.position)),
        }
    }

    /// Parses a SELECT statement; the token at the cursor is taken as the keyword.
    pub fn parse_select_statement(&mut self) -> (r: Result<SelectStatement, ParserError>)
        requires
            old(self).wf(),
        ensures
            final(self).wf(),
            final(self).tokens_spec() == old(self).tokens_spec(),
            match select_statement(old(self).tokens_spec(), old(self).pos()) {
                Parsed::Done(shape, e) => r matches Ok(st) && st.shape() == shape
                    && final(self).pos() == e,
                Parsed::Failed(f) => r matches Err(err) && reports(err, f),
            },
    {
        let ghost ts = self.tokens@;
        if let Err(e) = self.consume_token() {
            return Err(e);
        }
        let columns = match self.parse_select_columns() {
            Ok(c) => c,
            Err(e) => return Err(e),
        };
        if let Err(e) = self.expect_token(&Token::From) {
            return Err(e);
        }
        let from_table = match self.consume_token() {
            Ok(Token::Identifier(name)) => name,
            Ok(t) => {
                return Err(
                    ParserError::UnexpectedToken(
                        "Expected table name, found ".to_owned().concat(t.describe().as_str()),
                        self.position - 1,
                    ),
                );
            },
            Err(e) => return Err(e),
        };
        let mut where_clause = None;
        let at_where = match self.current_token() {
            Ok(Token::Where) => true,
            _ => false,
        };
        if at_where {
            self.position = self.position + 1;
            match self.parse_expression() {
                Ok(w) => {
                    where_clause = Some(w);
                },
                Err(e) => return Err(e),
            }
        }
        if let Err(e) = self.expect_token(&Token::Semicolon) {
            return Err(e);
        }
        Ok(SelectStatement { columns, from_table, where_clause })
    }

    /// Parses `'*'` or a comma-separated list of column names.
    fn parse_select_columns(&mut self) -> (r: Result<Vec<SelectColumn>, ParserError>)
        requires
            old(self).wf(),
        ensures
            final(self).wf(),
            final(self).tokens_spec() == old(self).tokens_spec(),
            match select_columns(old(self).tokens_spec(), old(self).pos()) {
                Parsed::Done(cols, e) => r matches Ok(v) && v@ == cols && final(self).pos() == e,
                Parsed::Failed(f) => r matches Err(err) && reports(err, f),
            },
    {
        let ghost ts = self.tokens@;
        let ghost start = self.position as int;
        let at_star = match self.current_token() {
            Ok(Token::Asterisk) => true,
            _ => false,
        };
        if at_star {
            self.position = self.position + 1;
            let mut columns = Vec::new();
            columns.push(SelectColumn::Wildcard);
            assert(columns@ =~= seq![SelectColumn::Wildcard]);
            return Ok(columns);
        }
        let mut columns: Vec<SelectColumn> = Vec::new();
        assert(columns@ + Seq::<SelectColumn>::empty() =~= Seq::<SelectColumn>::empty());
        loop
            invariant_except_break
                column_list(ts, start) == glue(columns@, column_list(ts, self.position as int)),
            invariant
                self.wf(),
                self.tokens@ == ts,
                ts == old(self).tokens@,
                start == old(self).position,
                select_columns(ts, start) == column_list(ts, start),
            ensures
                column_list(ts, start) == Parsed::Done(columns@, self.position as int),
            decreases ts.len() - self.position,
        {
            let ghost p = self.position as int;
            let ghost before = columns@;
            match self.consume_token() {
                Ok(Token::Identifier(name)) => {
                    columns.push(SelectColumn::Identifier(name));
                },
                Ok(t) => {
                    return Err(
                        ParserError::UnexpectedToken(
                            "Expected column name or '*', found ".to_owned().concat(
                                t.describe().as_str(),
                            ),
                            self.position - 1,
                        ),
                    );
                },
                Err(e) => return Err(e),
            }
            let at_comma = match self.current_token() {
                Ok(Token::Comma) => true,
                _ => false,
            };
            if at_comma {
                self.position = self.position + 1;
                proof {
                    match column_list(ts, p + 2) {
                        Parsed::Done(rest, e) => {
                            assert(before + (seq![SelectColumn::Identifier(ts[p]->Identifier_0)]
                                + rest) =~= columns@ + rest);
                        },
                        Parsed::Failed(f) => {},
                    }
                }
            } else {
                assert(before + seq![SelectColumn::Identifier(ts[p]->Identifier_0)] =~= columns@);
                break;
            }
        }
        Ok(columns)
    }

    /// Parses `identifier binary_operator literal`.
    fn parse_expression(&mut self) -> (r: Result<Expression, ParserError>)
        requires
            old(self).wf(),
        ensures
            final(self).wf(),
            final(self).tokens_spec() == old(self).tokens_spec(),
            match expression(old(self).tokens_spec(), old(self).pos()) {
                Parsed::Done(x, e) => r == Ok::<Expression, ParserError>(x) && final(self).pos()
                    == e,
                Parsed::Failed(f) => r matches Err(err) && reports(err, f),
            },
    {
        let left = match self.consume_token() {
            Ok(Token::Identifier(name)) => Expression::Identifier(name),
            Ok(t) => {
                return Err(
                    ParserError::UnexpectedToken(
                        "Expected identifier in expression, found ".to_owned().concat(
                            t.describe().as_str(),
                        ),
                        self.position - 1,
                    ),
                );
            },
            Err(e) => return Err(e),
        };
        let op = match self.match_binary_operator() {
            Ok(op) => op,
            Err(e) => return Err(e),
        };
        let right = match self.consume_token() {
            Ok(Token::StringLiteral(s)) => Expression::Literal(Literal::String(s)),
            Ok(Token::NumericLiteral(n)) => match parse_i64(n.as_str()) {
                Some(v) => Expression::Literal(Literal::Integer(v)),
                None => return Err(ParserError::InvalidInteger(n, self.position - 1)),
            },
            Ok(t) => {
                return Err(
                    ParserError::UnexpectedToken(
                        "Expected literal in expression, found ".to_owned().concat(
                            t.describe().as_str(),
                        ),
                        self.position - 1,
                    ),
                );
            },
            Err(e) => return Err(e),
        };
        Ok(Expression::Binary(Box::new(left), op, Box::new(right)))
    }

    /// Consumes the token at the cursor, which must be the bare token `expected`.
    fn expect_token(&mut self, expected: &Token) -> (r: Result<Token, ParserError>)
        requires
            old(self).wf(),
            is_bare(*expected),
        ensures
            final(self).wf(),
            final(self).tokens_spec() == old(self).tokens_spec(),
            match expect(old(self).tokens_spec(), old(self).pos(), *expected) {
                Parsed::Done(_, e) => r == Ok::<Token, ParserError>(*expected) && final(self).pos()
                    == e,
                Parsed::Failed(f) => r matches Err(err) && reports(err, f),
            },
    {
        let token = match self.consume_token() {
            Ok(t) => t,
            Err(e) => return Err(e),
        };
        if token.tag() == expected.tag() {
            Ok(token)
        } else {
            Err(
                ParserError::UnexpectedToken(
                    "Expected ".to_owned().concat(expected.describe().as_str()).concat(
                        ", found ",
                    ).concat(token.describe().as_str()),
                    self.position - 1,
                ),
            )
        }
    }

    fn match_binary_operator(&mut self) -> (r: Result<BinaryOperator, ParserError>)
        requires
            old(self).wf(),
        ensures
            final(self).wf(),
            final(self).tokens_spec() == old(self).tokens_spec(),
            match token_at(old(self).tokens_spec(), old(self).pos()) {
                None => r matches Err(err) && reports(err, end_of_input(old(self).pos())),
                Some(t) => match operator_of(t) {
                    Some(op) => r == Ok::<BinaryOperator, ParserError>(op) && final(self).pos()
                        == old(self).pos() + 1,
                    None => r matches Err(err) && reports(
                        err,
                        Failure::Unexpected(
                            "Expected binary operator, found "@ + token_text(t),
                            old(self).pos(),
                        ),
                    ),
                },
            },
    {
        let token = match self.consume_token() {
            Ok(t) => t,
            Err(e) => return Err(e),
        };
        match token {
            Token::Equals => Ok(BinaryOperator::Equals),
            Token::NotEquals => Ok(BinaryOperator::NotEquals),
            Token::GreaterThan => Ok(BinaryOperator::GreaterThan),
            Token::LessThan => Ok(BinaryOperator::LessThan),
            Token::GreaterThanOrEquals => Ok(BinaryOperator::GreaterThanOrEquals),
            Token::LessThanOrEquals => Ok(BinaryOperator::LessThanOrEquals),
            Token::And => Ok(BinaryOperator::And),
            Token::Or => Ok(BinaryOperator::Or),
            t => Err(
                ParserError::UnexpectedToken(
                    "Expected binary operator, found ".to_owned().concat(t.describe().as_str()),
                    self.position - 1,
                ),
            ),
        }
    }
}

} // verus!
