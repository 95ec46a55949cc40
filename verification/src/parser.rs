//! From SQL text to a statement.

use crate::parser::ast::{
    BinaryOperator, ColumnDefinition, ColumnDefinitionView, CreateDatabase, CreateDatabaseView,
    CreateTable, CreateTableView, Expression, ExpressionView, Insert, InsertView, Predicate,
    Projection, ProjectionView, Query, QueryView, Statement, StatementView, Value, ValueView,
};
use crate::parser::tokenizer::{
    tokenize_spec, Keyword, Token, TokenView, TokenizeError, Tokenizer,
};
use crate::text::{decimal_text, join, usize_to_text};
use vstd::prelude::*;

pub mod ast;
pub mod tokenizer;

verus! {

/// Why a text is no statement: it does not tokenize, or a token is not where
/// the grammar wants it. A parse error carries the position of the cursor at
/// which parsing stopped; the first token has position 1.
#[derive(Debug, PartialEq, Eq, Hash)]
pub enum ParserError {
    TokenizeError(String),
    ParseError(String, usize),
}

pub enum ParserErrorView {
    TokenizeError(Seq<char>),
    ParseError(Seq<char>, int),
}

impl ParserErrorView {
    /// The error as one line of text.
    pub open spec fn text(self) -> Seq<char> {
        match self {
            ParserErrorView::TokenizeError(message) => "TokenizeError: "@ + message,
            ParserErrorView::ParseError(message, _) => "ParseError: "@ + message,
        }
    }
}

impl View for ParserError {
    type V = ParserErrorView;

    open spec fn view(&self) -> ParserErrorView {
        match self {
            ParserError::TokenizeError(message) => ParserErrorView::TokenizeError(message@),
            ParserError::ParseError(message, position) => ParserErrorView::ParseError(
                message@,
                *position as int,
            ),
        }
    }
}

impl Clone for ParserError {
    fn clone(&self) -> (r: Self)
        ensures
            r@ == self@,
    {
        match self {
            ParserError::TokenizeError(message) => ParserError::TokenizeError(message.clone()),
            ParserError::ParseError(message, position) => ParserError::ParseError(
                message.clone(),
                *position,
            ),
        }
    }
}

impl ParserError {
    pub fn to_string(&self) -> (r: String)
        ensures
            r@ == self@.text(),
    {
        match self {
            ParserError::TokenizeError(message) => join("TokenizeError: ", message.as_str()),
            ParserError::ParseError(message, _) => join("ParseError: ", message.as_str()),
        }
    }

    /// The parser's error for a text that does not tokenize.
    pub fn from_tokenize_error(e: TokenizeError) -> (r: Self)
        ensures
            r@ == ParserErrorView::TokenizeError(e@.message),
    {
        ParserError::TokenizeError(e.message)
    }
}

// ---------------------------------------------------------------------------
// The grammar
// ---------------------------------------------------------------------------

/// What a step of parsing gives: a value or an error, and the position of the
/// cursor after it.
pub struct Parsed<T> {
    pub value: Result<T, ParserErrorView>,
    pub pos: int,
}

/// The message of a token that is not where the grammar wants it: it names the
/// part of the statement that was being read, the token, and the token's
/// position.
pub open spec fn unexpected_message(stage: Seq<char>, found: Seq<char>, pos: int) -> Seq<char> {
    "Unexpected token found while processing "@ + stage + ". token: '"@ + found + "' at "@
        + decimal_text(pos as nat)
}

pub open spec fn unexpected<T>(stage: Seq<char>, found: Seq<char>, pos: int) -> Parsed<T> {
    Parsed { value: Err(ParserErrorView::ParseError(unexpected_message(stage, found, pos), pos)), pos }
}

pub open spec fn failed<T>(e: ParserErrorView, pos: int) -> Parsed<T> {
    Parsed { value: Err(e), pos }
}

pub open spec fn done<T>(value: T, pos: int) -> Parsed<T> {
    Parsed { value: Ok(value), pos }
}

/// The first token at or after `pos` that is no whitespace, with the position
/// after it; the end of input, one past the last position, where only
/// whitespace is left.
pub open spec fn skip_whitespace(tokens: Seq<TokenView>, pos: int) -> (TokenView, int)
    decreases tokens.len() - pos,
{
    if 0 <= pos < tokens.len() {
        if tokens[pos] is Whitespace {
            skip_whitespace(tokens, pos + 1)
        } else {
            (tokens[pos], pos + 1)
        }
    } else {
        (TokenView::EOF, tokens.len() as int + 1)
    }
}

/// The next token that is no whitespace, with the position of the cursor after
/// it. Past the last token it is the end of input, and the cursor stays.
pub open spec fn next_token_at(tokens: Seq<TokenView>, pos: int) -> (TokenView, int) {
    if 0 <= pos < tokens.len() {
        skip_whitespace(tokens, pos)
    } else {
        (TokenView::EOF, pos)
    }
}

/// A token that is read is no whitespace; one that is not the end of input
/// moves the cursor forward, within the tokens.
pub proof fn lemma_next_token_advances(tokens: Seq<TokenView>, pos: int)
    ensures
        !(next_token_at(tokens, pos).0 is Whitespace),
        !(next_token_at(tokens, pos).0 is EOF) ==> 0 <= pos < next_token_at(tokens, pos).1
            <= tokens.len(),
{
    if 0 <= pos < tokens.len() {
        lemma_skip_whitespace(tokens, pos);
    }
}

pub proof fn lemma_skip_whitespace(tokens: Seq<TokenView>, pos: int)
    requires
        0 <= pos <= tokens.len(),
    ensures
        !(skip_whitespace(tokens, pos).0 is Whitespace),
        !(skip_whitespace(tokens, pos).0 is EOF) ==> pos < skip_whitespace(tokens, pos).1
            <= tokens.len(),
        pos < skip_whitespace(tokens, pos).1 <= tokens.len() + 1,
    decreases tokens.len() - pos,
{
    if pos < tokens.len() && tokens[pos] is Whitespace {
        lemma_skip_whitespace(tokens, pos + 1);
    }
}

/// The projection list from `pos` on, after the items `items`: it ends before
/// FROM or at the end of input; commas separate its items.
pub open spec fn projections_at(tokens: Seq<TokenView>, pos: int, items: Seq<ProjectionView>)
    -> Parsed<Seq<ProjectionView>>
    decreases tokens.len() - pos,
{
    let (token, next) = next_token_at(tokens, pos);
    if token is EOF {
        done(items, next)
    } else {
        proof {
            lemma_next_token_advances(tokens, pos);
        }
        match token {
            TokenView::Keyword(Keyword::From) => done(items, next),
            TokenView::Comma | TokenView::Whitespace(_) => projections_at(tokens, next, items),
            TokenView::Mul => projections_at(tokens, next, items.push(ProjectionView::Wildcard)),
            TokenView::SingleQuotedString(s) => projections_at(
                tokens,
                next,
                items.push(
                    ProjectionView::Expression(
                        ExpressionView::Value(ValueView::QuotedString(s)),
                    ),
                ),
            ),
            TokenView::Number(n) => projections_at(
                tokens,
                next,
                items.push(ProjectionView::Expression(ExpressionView::Value(ValueView::Number(n)))),
            ),
            TokenView::Word(name) => projections_at(
                tokens,
                next,
                items.push(ProjectionView::Expression(ExpressionView::Ident(name))),
            ),
            _ => unexpected("projections"@, token.debug(), next),
        }
    }
}

/// The tables of a query: one name, or none at the end of input.
pub open spec fn froms_at(tokens: Seq<TokenView>, pos: int) -> Parsed<Seq<Seq<char>>> {
    let (token, next) = next_token_at(tokens, pos);
    match token {
        TokenView::EOF => done(Seq::empty(), next),
        TokenView::Word(name) => done(seq![name], next),
        _ => unexpected("from statement"@, token.debug(), next),
    }
}

/// Whether nothing but whitespace is left from `pos` on.
pub open spec fn ends_at(tokens: Seq<TokenView>, pos: int) -> bool {
    next_token_at(tokens, pos).0 is EOF
}

/// The operator that a token writes.
pub open spec fn operator_of(token: TokenView) -> Option<BinaryOperator> {
    match token {
        TokenView::Eq => Some(BinaryOperator::Eq),
        TokenView::Neq => Some(BinaryOperator::Neq),
        TokenView::Lt => Some(BinaryOperator::Lt),
        TokenView::Lte => Some(BinaryOperator::Lte),
        TokenView::Gt => Some(BinaryOperator::Gt),
        TokenView::Gte => Some(BinaryOperator::Gte),
        _ => None,
    }
}

/// The operand that a token writes: a literal, `true`, `false`, or a name.
pub open spec fn operand_of(token: TokenView) -> Option<ExpressionView> {
    match token {
        TokenView::SingleQuotedString(s) => Some(ExpressionView::Value(ValueView::QuotedString(s))),
        TokenView::Number(n) => Some(ExpressionView::Value(ValueView::Number(n))),
        TokenView::Word(word) => Some(
            if word == "true"@ {
                ExpressionView::Value(ValueView::Boolean(true))
            } else if word == "false"@ {
                ExpressionView::Value(ValueView::Boolean(false))
            } else {
                ExpressionView::Ident(word)
            },
        ),
        _ => None,
    }
}

pub open spec fn unexpected_end_of_expression(pos: int) -> ParserErrorView {
    ParserErrorView::ParseError("Unexpected EOF while parse_expression"@, pos)
}

/// The expression from `pos` on. `processing` is the operand that was read
/// just before, if one was: an operator then compares it with the expression
/// that follows the operator, and the end of input then ends the expression.
pub open spec fn expression_at(
    tokens: Seq<TokenView>,
    pos: int,
    processing: Option<ExpressionView>,
) -> Parsed<ExpressionView>
    decreases tokens.len() - pos,
{
    let (token, next) = next_token_at(tokens, pos);
    if token is EOF {
        match processing {
            Some(expression) => done(expression, next),
            None => failed(unexpected_end_of_expression(next), next),
        }
    } else {
        proof {
            lemma_next_token_advances(tokens, pos);
        }
        match (operand_of(token), operator_of(token)) {
            (Some(operand), _) => match processing {
                Some(_) => unexpected("expression"@, token.debug(), next),
                None => expression_at(tokens, next, Some(operand)),
            },
            (None, Some(op)) => match processing {
                Some(left) => {
                    let right = expression_at(tokens, next, None);
                    match right.value {
                        Ok(right_value) => done(
                            ExpressionView::BinOperator {
                                lhs: Box::new(left),
                                rhs: Box::new(right_value),
                                op,
                            },
                            right.pos,
                        ),
                        Err(e) => failed(e, right.pos),
                    }
                },
                None => unexpected("Left expression"@, token.debug(), next),
            },
            (None, None) => unexpected("expression"@, token.debug(), next),
        }
    }
}

/// The condition of a query: the one expression after WHERE; none where
/// there is no WHERE, or nothing follows it.
pub open spec fn predicate_at(tokens: Seq<TokenView>, pos: int) -> Parsed<Option<ExpressionView>> {
    let (token, next) = next_token_at(tokens, pos);
    if token == TokenView::Keyword(Keyword::Where) {
        if ends_at(tokens, next) {
            done(None, next_token_at(tokens, next).1)
        } else {
            let expression = expression_at(tokens, next, None);
            match expression.value {
                Ok(e) => done(Some(e), expression.pos),
                Err(e) => failed(e, expression.pos),
            }
        }
    } else {
        done(None, next)
    }
}

/// A query, from after SELECT on.
pub open spec fn select_at(tokens: Seq<TokenView>, pos: int) -> Parsed<StatementView> {
    let projections = projections_at(tokens, pos, Seq::empty());
    match projections.value {
        Err(e) => failed(e, projections.pos),
        Ok(items) => {
            let froms = froms_at(tokens, projections.pos);
            match froms.value {
                Err(e) => failed(e, froms.pos),
                Ok(names) => {
                    let predicate = predicate_at(tokens, froms.pos);
                    match predicate.value {
                        Err(e) => failed(e, predicate.pos),
                        Ok(condition) => done(
                            StatementView::Select(
                                QueryView {
                                    projections: items,
                                    froms: names,
                                    predicate: condition,
                                },
                            ),
                            predicate.pos,
                        ),
                    }
                },
            }
        },
    }
}

/// The values of an INSERT from `pos` on, after the values `values`, up to
/// the closing parenthesis; commas separate them.
pub open spec fn values_at(tokens: Seq<TokenView>, pos: int, values: Seq<ValueView>) -> Parsed<
    Seq<ValueView>,
>
    decreases tokens.len() - pos,
{
    let (token, next) = next_token_at(tokens, pos);
    if token is EOF {
        unexpected("insert values"@, token.debug(), next)
    } else {
        proof {
            lemma_next_token_advances(tokens, pos);
        }
        match token {
            TokenView::RParen => done(values, next),
            TokenView::Comma => values_at(tokens, next, values),
            TokenView::Number(n) => values_at(tokens, next, values.push(ValueView::Number(n))),
            TokenView::SingleQuotedString(s) => values_at(
                tokens,
                next,
                values.push(ValueView::QuotedString(s)),
            ),
            _ => unexpected("insert values"@, token.debug(), next),
        }
    }
}

/// The parenthesized values of an INSERT.
pub open spec fn insert_values_at(tokens: Seq<TokenView>, pos: int) -> Parsed<Seq<ValueView>> {
    let (token, next) = next_token_at(tokens, pos);
    if token is LParen {
        values_at(tokens, next, Seq::empty())
    } else {
        unexpected("insert values"@, token.debug(), next)
    }
}

/// An INSERT, from after INSERT on.
pub open spec fn insert_at(tokens: Seq<TokenView>, pos: int) -> Parsed<StatementView> {
    let (into, after_into) = next_token_at(tokens, pos);
    if into != TokenView::Keyword(Keyword::Into) {
        unexpected("insert into statement"@, into.debug(), after_into)
    } else {
        let (table, after_table) = next_token_at(tokens, after_into);
        match table {
            TokenView::Word(table_name) => {
                let (values, after_values) = next_token_at(tokens, after_table);
                if values != TokenView::Keyword(Keyword::Values) {
                    unexpected("insert into statement"@, values.debug(), after_values)
                } else {
                    let list = insert_values_at(tokens, after_values);
                    match list.value {
                        Ok(values) => done(
                            StatementView::Insert(InsertView { table_name, values }),
                            list.pos,
                        ),
                        Err(e) => failed(e, list.pos),
                    }
                }
            },
            _ => unexpected("insert into statement"@, table.debug(), after_table),
        }
    }
}

/// The first `n` of `tokens` as they are written in a message, separated by
/// commas.
pub open spec fn listed(tokens: Seq<TokenView>, n: int) -> Seq<char>
    decreases n,
{
    if n <= 0 {
        Seq::empty()
    } else if n == 1 {
        tokens[0].debug()
    } else {
        listed(tokens, n - 1) + ", "@ + tokens[n - 1].debug()
    }
}

/// Some tokens as they are written in a message: in brackets, separated by
/// commas.
pub open spec fn tokens_text(tokens: Seq<TokenView>) -> Seq<char> {
    "["@ + listed(tokens, tokens.len() as int) + "]"@
}

/// The tokens of one column definition from `pos` on, after the tokens
/// `part`, up to a comma or the closing parenthesis; and whether it was the
/// parenthesis.
pub open spec fn definition_tokens_at(tokens: Seq<TokenView>, pos: int, part: Seq<TokenView>)
    -> Parsed<(Seq<TokenView>, bool)>
    decreases tokens.len() - pos,
{
    let (token, next) = next_token_at(tokens, pos);
    if token is EOF {
        unexpected("create table column definitions"@, token.debug(), next)
    } else {
        proof {
            lemma_next_token_advances(tokens, pos);
        }
        match token {
            TokenView::RParen => done((part, true), next),
            TokenView::Comma => done((part, false), next),
            _ => definition_tokens_at(tokens, next, part.push(token)),
        }
    }
}

pub proof fn lemma_definition_tokens_advance(
    tokens: Seq<TokenView>,
    pos: int,
    part: Seq<TokenView>,
)
    ensures
        definition_tokens_at(tokens, pos, part).value is Ok ==> 0 <= pos < definition_tokens_at(
            tokens,
            pos,
            part,
        ).pos <= tokens.len(),
    decreases tokens.len() - pos,
{
    let (token, next) = next_token_at(tokens, pos);
    lemma_next_token_advances(tokens, pos);
    if !(token is EOF) {
        match token {
            TokenView::RParen => {},
            TokenView::Comma => {},
            _ => {
                lemma_definition_tokens_advance(tokens, next, part.push(token));
            },
        }
    }
}

/// The column that the tokens of one definition declare: they have to be two
/// words, the column's name and its type's.
pub open spec fn definition_of(part: Seq<TokenView>) -> Option<ColumnDefinitionView> {
    if part.len() == 2 {
        match (part[0], part[1]) {
            (TokenView::Word(name), TokenView::Word(column_type)) => Some(
                ColumnDefinitionView { name, column_type },
            ),
            _ => None,
        }
    } else {
        None
    }
}

/// The column definitions from `pos` on, after the definitions `columns`, up
/// to the closing parenthesis.
pub open spec fn definitions_at(
    tokens: Seq<TokenView>,
    pos: int,
    columns: Seq<ColumnDefinitionView>,
) -> Parsed<Seq<ColumnDefinitionView>>
    decreases tokens.len() - pos,
{
    let part = definition_tokens_at(tokens, pos, Seq::empty());
    match part.value {
        Err(e) => failed(e, part.pos),
        Ok((part_tokens, closed)) => match definition_of(part_tokens) {
            None => unexpected(
                "create table column definitions"@,
                tokens_text(part_tokens),
                part.pos,
            ),
            Some(column) => {
                if closed {
                    done(columns.push(column), part.pos)
                } else {
                    proof {
                        lemma_definition_tokens_advance(tokens, pos, Seq::empty());
                    }
                    definitions_at(tokens, part.pos, columns.push(column))
                }
            },
        },
    }
}

/// The parenthesized column definitions of a CREATE TABLE.
pub open spec fn column_definitions_at(tokens: Seq<TokenView>, pos: int) -> Parsed<
    Seq<ColumnDefinitionView>,
> {
    let (token, next) = next_token_at(tokens, pos);
    if token is LParen {
        definitions_at(tokens, next, Seq::empty())
    } else {
        unexpected("create table column definitions"@, token.debug(), next)
    }
}

pub open spec fn database_name_missing(pos: int) -> ParserErrorView {
    ParserErrorView::ParseError("a table is created in a database, and none is named"@, pos)
}

/// A CREATE TABLE, from after TABLE on. The table belongs to the database
/// that the parser was made for.
pub open spec fn create_table_at(
    tokens: Seq<TokenView>,
    pos: int,
    database_name: Option<Seq<char>>,
) -> Parsed<StatementView> {
    let (token, next) = next_token_at(tokens, pos);
    match token {
        TokenView::Word(table_name) => {
            let columns = column_definitions_at(tokens, next);
            match columns.value {
                Err(e) => failed(e, columns.pos),
                Ok(column_definitions) => match database_name {
                    None => failed(database_name_missing(columns.pos), columns.pos),
                    Some(database_name) => done(
                        StatementView::CreateTable(
                            CreateTableView { database_name, table_name, column_definitions },
                        ),
                        columns.pos,
                    ),
                },
            }
        },
        _ => unexpected("create table statement"@, token.debug(), next),
    }
}

/// A CREATE DATABASE, from after DATABASE on.
pub open spec fn create_database_at(tokens: Seq<TokenView>, pos: int) -> Parsed<StatementView> {
    let (token, next) = next_token_at(tokens, pos);
    match token {
        TokenView::Word(name) => done(
            StatementView::CreateDatabase(CreateDatabaseView { name }),
            next,
        ),
        _ => unexpected("create database statement"@, token.debug(), next),
    }
}

/// A CREATE statement, from after CREATE on.
pub open spec fn create_at(tokens: Seq<TokenView>, pos: int, database_name: Option<Seq<char>>)
    -> Parsed<StatementView> {
    let (token, next) = next_token_at(tokens, pos);
    match token {
        TokenView::Keyword(Keyword::Database) => create_database_at(tokens, next),
        TokenView::Keyword(Keyword::Table) => create_table_at(tokens, next, database_name),
        _ => unexpected("create statement"@, token.debug(), next),
    }
}

/// The statement that starts at `pos`.
pub open spec fn statement_at(tokens: Seq<TokenView>, pos: int, database_name: Option<Seq<char>>)
    -> Parsed<StatementView> {
    let (token, next) = next_token_at(tokens, pos);
    match token {
        TokenView::Keyword(Keyword::Select) => select_at(tokens, next),
        TokenView::Keyword(Keyword::Insert) => insert_at(tokens, next),
        TokenView::Keyword(Keyword::Create) => create_at(tokens, next, database_name),
        _ => unexpected("parse"@, token.debug(), next),
    }
}

pub open spec fn too_many_tokens(pos: int) -> ParserErrorView {
    ParserErrorView::ParseError("too many tokens"@, pos)
}

/// A parser as a mathematical value: its tokens, its cursor, and the database
/// that a table it creates belongs to.
pub struct ParserView {
    pub tokens: Seq<TokenView>,
    pub pos: int,
    pub database_name: Option<Seq<char>>,
}

impl ParserView {
    /// What `parse` gives, and where it leaves the cursor. The positions of
    /// the tokens have to fit the machine's word.
    pub open spec fn parse(self) -> Parsed<StatementView> {
        if self.tokens.len() >= usize::MAX {
            failed(too_many_tokens(self.pos), self.pos)
        } else {
            statement_at(self.tokens, self.pos, self.database_name)
        }
    }
}

/// What `parse_sql` gives for the text `query`.
pub open spec fn parse_sql_spec(database_name: Option<Seq<char>>, query: Seq<char>) -> Result<
    StatementView,
    ParserErrorView,
> {
    match tokenize_spec(query) {
        Err(e) => Err(ParserErrorView::TokenizeError(e.message)),
        Ok(tokens) => (ParserView { tokens, pos: 0, database_name }).parse().value,
    }
}

/// A result agrees with what the grammar gives.
pub open spec fn agrees<T: DeepView>(r: Result<T, ParserError>, value: Result<T::V, ParserErrorView>)
    -> bool {
    match r {
        Ok(v) => value == Ok::<T::V, ParserErrorView>(v.deep_view()),
        Err(e) => value == Err::<T::V, ParserErrorView>(e@),
    }
}

// ---------------------------------------------------------------------------
// The parser
// ---------------------------------------------------------------------------

#[derive(Debug, Clone, PartialEq, Eq, Hash)]
pub struct Parser {
    tokens: Vec<Token>,
    pos: usize,
    database_name: Option<String>,
}

impl View for Parser {
    type V = ParserView;

    closed spec fn view(&self) -> ParserView {
        ParserView {
            tokens: self.tokens.deep_view(),
            pos: self.pos as int,
            database_name: self.database_name.deep_view(),
        }
    }
}

impl Parser {
    /// The parser reads the same tokens for the same database as `other`.
    pub open spec fn reads_like(&self, other: &Parser) -> bool {
        &&& self@.tokens == other@.tokens
        &&& self@.database_name == other@.database_name
    }

    /// The parser after a step that gave `parsed`, `before` being the parser
    /// before the step.
    pub open spec fn follows<T>(&self, before: &Parser, parsed: Parsed<T>) -> bool {
        &&& self.reads_like(before)
        &&& self@.pos == parsed.pos
    }

    /// The positions of the tokens fit the machine's word.
    pub open spec fn in_reach(&self) -> bool {
        self@.tokens.len() < usize::MAX
    }

    /// A parser at the first of `tokens`. A table that the statement creates
    /// belongs to the database `database_name`.
    pub fn new(tokens: Vec<Token>, database_name: Option<String>) -> (r: Self)
        ensures
            r@ == (ParserView {
                tokens: tokens.deep_view(),
                pos: 0,
                database_name: database_name.deep_view(),
            }),
    {
        Self { tokens, pos: 0, database_name }
    }

    /// The statement that `query` writes, for the database `database_name`.
    pub fn parse_sql(database_name: Option<String>, query: &str) -> (r: Result<
        Statement,
        ParserError,
    >)
        ensures
            agrees(r, parse_sql_spec(database_name.deep_view(), query@)),
    {
        let mut tokenizer = Tokenizer::new(query);
        match tokenizer.tokenize() {
            Err(e) => Err(ParserError::from_tokenize_error(e)),
            Ok(tokens) => {
                let mut parser = Self::new(tokens, database_name);
                parser.parse()
            },
        }
    }

    /// The error of a token that is not where the grammar wants it.
    fn unexpected_token(stage: &str, found: &str, pos: usize) -> (r: ParserError)
        ensures
            r@ == ParserErrorView::ParseError(
                unexpected_message(stage@, found@, pos as int),
                pos as int,
            ),
    {
        let mut message = join("Unexpected token found while processing ", stage);
        message.append(". token: '");
        message.append(found);
        message.append("' at ");
        let position = usize_to_text(pos);
        message.append(position.as_str());
        ParserError::ParseError(message, pos)
    }

    fn unexpected_here(stage: &str, token: &Token, pos: usize) -> (r: ParserError)
        ensures
            r@ == ParserErrorView::ParseError(
                unexpected_message(stage@, token@.debug(), pos as int),
                pos as int,
            ),
    {
        let found = token.to_debug();
        Self::unexpected_token(stage, found.as_str(), pos)
    }

    /// The statement that the tokens write, from the cursor on. Parsing stops
    /// at the first token that is not where the grammar wants it; the error
    /// names it and its position.
    pub fn parse(&mut self) -> (r: Result<Statement, ParserError>)
        ensures
            final(self).follows(old(self), old(self)@.parse()),
            agrees(r, old(self)@.parse().value),
    {
        if self.tokens.len() >= usize::MAX {
            return Err(ParserError::ParseError("too many tokens".to_owned(), self.pos));
        }
        let (token, pos) = self.next_token();
        match token {
            Token::Keyword(Keyword::Select) => self.parse_select_statement(),
            Token::Keyword(Keyword::Insert) => self.parse_insert_statement(),
            Token::Keyword(Keyword::Create) => self.parse_create_statement(),
            unexpected_token => Err(Self::unexpected_here("parse", &unexpected_token, pos)),
        }
    }

    /// The next token that is no whitespace, and the position of the cursor
    /// after it; the end of input once the tokens are exhausted.
    fn next_token(&mut self) -> (r: (Token, usize))
        requires
            old(self).in_reach(),
        ensures
            final(self).reads_like(old(self)),
            final(self)@.pos == r.1,
            (r.0@, r.1 as int) == next_token_at(old(self)@.tokens, old(self)@.pos),
            !(r.0@ is Whitespace),
            !(r.0@ is EOF) ==> old(self)@.pos < r.1 <= old(self)@.tokens.len(),
    {
        proof {
            lemma_next_token_advances(self@.tokens, self@.pos);
        }
        if self.pos >= self.tokens.len() {
            return (Token::EOF, self.pos);
        }
        let ghost tokens = self@.tokens;
        let ghost start = self@.pos;
        loop
            invariant
                self.reads_like(old(self)),
                tokens == self@.tokens,
                tokens == old(self)@.tokens,
                tokens.len() < usize::MAX,
                start == old(self)@.pos,
                start < tokens.len(),
                start <= self.pos <= tokens.len(),
                skip_whitespace(tokens, self.pos as int) == skip_whitespace(tokens, start),
            decreases tokens.len() - self.pos,
        {
            if self.pos >= self.tokens.len() {
                self.pos += 1;
                return (Token::EOF, self.pos);
            }
            assert(tokens[self.pos as int] == self.tokens[self.pos as int]@);
            self.pos += 1;
            match &self.tokens[self.pos - 1] {
                Token::Whitespace(_) => {},
                token => {
                    return (token.clone(), self.pos);
                },
            }
        }
    }

    fn parse_select_statement(&mut self) -> (r: Result<Statement, ParserError>)
        requires
            old(self).in_reach(),
        ensures
            final(self).follows(old(self), select_at(old(self)@.tokens, old(self)@.pos)),
            agrees(r, select_at(old(self)@.tokens, old(self)@.pos).value),
    {
        let projections = match self.parse_projections() {
            Ok(projections) => projections,
            Err(e) => {
                return Err(e);
            },
        };
        let froms = match self.parse_froms() {
            Ok(froms) => froms,
            Err(e) => {
                return Err(e);
            },
        };
        let predicate = match self.parse_predicate() {
            Ok(predicate) => predicate,
            Err(e) => {
                return Err(e);
            },
        };
        Ok(Statement::Select(Query::new(projections, froms, predicate)))
    }

    fn parse_projections(&mut self) -> (r: Result<Vec<Projection>, ParserError>)
        requires
            old(self).in_reach(),
        ensures
            final(self).follows(
                old(self),
                projections_at(old(self)@.tokens, old(self)@.pos, Seq::empty()),
            ),
            agrees(r, projections_at(old(self)@.tokens, old(self)@.pos, Seq::empty()).value),
    {
        let ghost tokens = self@.tokens;
        let ghost start = self@.pos;
        let mut items: Vec<Projection> = Vec::new();
        assert(items.deep_view() =~= Seq::empty());
        loop
            invariant
                self.reads_like(old(self)),
                tokens == self@.tokens,
                tokens.len() < usize::MAX,
                start == old(self)@.pos,
                projections_at(tokens, self@.pos, items.deep_view()) == projections_at(
                    tokens,
                    start,
                    Seq::empty(),
                ),
            decreases tokens.len() - self@.pos,
        {
            let ghost before = items.deep_view();
            let (token, pos) = self.next_token();
            match token {
                Token::EOF => {
                    return Ok(items);
                },
                Token::Keyword(Keyword::From) => {
                    return Ok(items);
                },
                Token::Comma | Token::Whitespace(_) => {},
                Token::Mul => {
                    items.push(Projection::Wildcard);
                    assert(items.deep_view() =~= before.push(ProjectionView::Wildcard));
                },
                Token::SingleQuotedString(s) => {
                    let item = Projection::Expression(Expression::Value(Value::QuotedString(s)));
                    items.push(item);
                    assert(items.deep_view() =~= before.push(item@));
                },
                Token::Number(n) => {
                    let item = Projection::Expression(Expression::Value(Value::Number(n)));
                    items.push(item);
                    assert(items.deep_view() =~= before.push(item@));
                },
                Token::Word(name) => {
                    let item = Projection::Expression(Expression::Ident(name));
                    items.push(item);
                    assert(items.deep_view() =~= before.push(item@));
                },
                unexpected_token => {
                    return Err(Self::unexpected_here("projections", &unexpected_token, pos));
                },
            }
        }
    }

    fn parse_froms(&mut self) -> (r: Result<Vec<String>, ParserError>)
        requires
            old(self).in_reach(),
        ensures
            final(self).follows(old(self), froms_at(old(self)@.tokens, old(self)@.pos)),
            agrees(r, froms_at(old(self)@.tokens, old(self)@.pos).value),
    {
        let (token, pos) = self.next_token();
        let mut froms: Vec<String> = Vec::new();
        assert(froms.deep_view() =~= Seq::empty());
        match token {
            Token::EOF => Ok(froms),
            Token::Word(name) => {
                froms.push(name);
                assert(froms.deep_view() =~= seq![name@]);
                Ok(froms)
            },
            unexpected_token => Err(
                Self::unexpected_here("from statement", &unexpected_token, pos),
            ),
        }
    }

    fn parse_insert_statement(&mut self) -> (r: Result<Statement, ParserError>)
        requires
            old(self).in_reach(),
        ensures
            final(self).follows(old(self), insert_at(old(self)@.tokens, old(self)@.pos)),
            agrees(r, insert_at(old(self)@.tokens, old(self)@.pos).value),
    {
        let (into, after_into) = self.next_token();
        match into {
            Token::Keyword(Keyword::Into) => {},
            unexpected_token => {
                return Err(
                    Self::unexpected_here("insert into statement", &unexpected_token, after_into),
                );
            },
        }
        let (table, after_table) = self.next_token();
        match table {
            Token::Word(table_name) => {
                let (values, after_values) = self.next_token();
                match values {
                    Token::Keyword(Keyword::Values) => {
                        match self.parse_insert_values() {
                            Ok(values) => Ok(Statement::Insert(Insert::new(table_name, values))),
                            Err(e) => Err(e),
                        }
                    },
                    unexpected_token => Err(
                        Self::unexpected_here(
                            "insert into statement",
                            &unexpected_token,
                            after_values,
                        ),
                    ),
                }
            },
            unexpected_token => Err(
                Self::unexpected_here("insert into statement", &unexpected_token, after_table),
            ),
        }
    }

    fn parse_insert_values(&mut self) -> (r: Result<Vec<Value>, ParserError>)
        requires
            old(self).in_reach(),
        ensures
            final(self).follows(old(self), insert_values_at(old(self)@.tokens, old(self)@.pos)),
            agrees(r, insert_values_at(old(self)@.tokens, old(self)@.pos).value),
    {
        let (open, after_open) = self.next_token();
        match open {
            Token::LParen => {},
            unexpected_token => {
                return Err(Self::unexpected_here("insert values", &unexpected_token, after_open));
            },
        }
        let ghost tokens = self@.tokens;
        let ghost start = self@.pos;
        let mut results: Vec<Value> = Vec::new();
        assert(results.deep_view() =~= Seq::empty());
        loop
            invariant
                self.reads_like(old(self)),
                tokens == self@.tokens,
                tokens.len() < usize::MAX,
                values_at(tokens, self@.pos, results.deep_view()) == insert_values_at(
                    tokens,
                    old(self)@.pos,
                ),
            decreases tokens.len() - self@.pos,
        {
            let ghost before = results.deep_view();
            let (token, pos) = self.next_token();
            match token {
                Token::RParen => {
                    return Ok(results);
                },
                Token::EOF => {
                    return Err(Self::unexpected_here("insert values", &Token::EOF, pos));
                },
                Token::Comma => {},
                Token::Number(num) => {
                    let value = Value::Number(num);
                    results.push(value);
                    assert(results.deep_view() =~= before.push(value@));
                },
                Token::SingleQuotedString(s) => {
                    let value = Value::QuotedString(s);
                    results.push(value);
                    assert(results.deep_view() =~= before.push(value@));
                },
                unexpected_token => {
                    return Err(Self::unexpected_here("insert values", &unexpected_token, pos));
                },
            }
        }
    }

    fn parse_create_statement(&mut self) -> (r: Result<Statement, ParserError>)
        requires
            old(self).in_reach(),
        ensures
            final(self).follows(
                old(self),
                create_at(old(self)@.tokens, old(self)@.pos, old(self)@.database_name),
            ),
            agrees(
                r,
                create_at(old(self)@.tokens, old(self)@.pos, old(self)@.database_name).value,
            ),
    {
        let (token, pos) = self.next_token();
        match token {
            Token::Keyword(Keyword::Database) => self.parse_create_database_statement(),
            Token::Keyword(Keyword::Table) => self.parse_create_table_statement(),
            unexpected_token => Err(
                Self::unexpected_here("create statement", &unexpected_token, pos),
            ),
        }
    }

    fn parse_create_database_statement(&mut self) -> (r: Result<Statement, ParserError>)
        requires
            old(self).in_reach(),
        ensures
            final(self).follows(old(self), create_database_at(old(self)@.tokens, old(self)@.pos)),
            agrees(r, create_database_at(old(self)@.tokens, old(self)@.pos).value),
    {
        let (token, pos) = self.next_token();
        match token {
            Token::Word(database_name) => Ok(
                Statement::CreateDatabase(CreateDatabase::new(database_name)),
            ),
            unexpected_token => Err(
                Self::unexpected_here("create database statement", &unexpected_token, pos),
            ),
        }
    }

    fn parse_create_table_statement(&mut self) -> (r: Result<Statement, ParserError>)
        requires
            old(self).in_reach(),
        ensures
            final(self).follows(
                old(self),
                create_table_at(old(self)@.tokens, old(self)@.pos, old(self)@.database_name),
            ),
            agrees(
                r,
                create_table_at(old(self)@.tokens, old(self)@.pos, old(self)@.database_name).value,
            ),
    {
        let (token, pos) = self.next_token();
        match token {
            Token::Word(table_name) => {
                let columns = match self.parse_create_table_column_definitions() {
                    Ok(columns) => columns,
                    Err(e) => {
                        return Err(e);
                    },
                };
                match &self.database_name {
                    Some(database_name) => Ok(
                        Statement::CreateTable(
                            CreateTable::new(database_name.clone(), table_name, columns),
                        ),
                    ),
                    None => Err(
                        ParserError::ParseError(
                            "a table is created in a database, and none is named".to_owned(),
                            self.pos,
                        ),
                    ),
                }
            },
            unexpected_token => Err(
                Self::unexpected_here("create table statement", &unexpected_token, pos),
            ),
        }
    }

    /// The column definitions of a CREATE TABLE: in parentheses, separated by
    /// commas, each the name of a column and the name of its type.
    fn parse_create_table_column_definitions(&mut self) -> (r: Result<
        Vec<ColumnDefinition>,
        ParserError,
    >)
        requires
            old(self).in_reach(),
        ensures
            final(self).follows(
                old(self),
                column_definitions_at(old(self)@.tokens, old(self)@.pos),
            ),
            agrees(r, column_definitions_at(old(self)@.tokens, old(self)@.pos).value),
    {
        let (open, after_open) = self.next_token();
        match open {
            Token::LParen => {},
            unexpected_token => {
                return Err(
                    Self::unexpected_here(
                        "create table column definitions",
                        &unexpected_token,
                        after_open,
                    ),
                );
            },
        }
        let ghost tokens = self@.tokens;
        let mut results: Vec<ColumnDefinition> = Vec::new();
        assert(results.deep_view() =~= Seq::empty());
        loop
            invariant
                self.reads_like(old(self)),
                tokens == self@.tokens,
                tokens.len() < usize::MAX,
                definitions_at(tokens, self@.pos, results.deep_view()) == column_definitions_at(
                    tokens,
                    old(self)@.pos,
                ),
            decreases tokens.len() - self@.pos,
        {
            let ghost before = results.deep_view();
            let ghost at = self@.pos;
            proof {
                lemma_definition_tokens_advance(tokens, at, Seq::empty());
            }
            let (part, closed) = match self.parse_definition_tokens() {
                Ok(part) => part,
                Err(e) => {
                    return Err(e);
                },
            };
            let column = match Self::definition(&part) {
                Some(column) => column,
                None => {
                    let found = Self::list_tokens(&part);
                    return Err(
                        Self::unexpected_token(
                            "create table column definitions",
                            found.as_str(),
                            self.pos,
                        ),
                    );
                },
            };
            results.push(column);
            assert(results.deep_view() =~= before.push(column@));
            if closed {
                return Ok(results);
            }
        }
    }

    /// The tokens of one column definition, up to a comma or the closing
    /// parenthesis, and whether it was the parenthesis.
    fn parse_definition_tokens(&mut self) -> (r: Result<(Vec<Token>, bool), ParserError>)
        requires
            old(self).in_reach(),
        ensures
            final(self).follows(
                old(self),
                definition_tokens_at(old(self)@.tokens, old(self)@.pos, Seq::empty()),
            ),
            agrees(
                r,
                definition_tokens_at(old(self)@.tokens, old(self)@.pos, Seq::empty()).value,
            ),
    {
        let ghost tokens = self@.tokens;
        let mut part: Vec<Token> = Vec::new();
        assert(part.deep_view() =~= Seq::empty());
        loop
            invariant
                self.reads_like(old(self)),
                tokens == self@.tokens,
                tokens.len() < usize::MAX,
                definition_tokens_at(tokens, self@.pos, part.deep_view()) == definition_tokens_at(
                    tokens,
                    old(self)@.pos,
                    Seq::empty(),
                ),
            decreases tokens.len() - self@.pos,
        {
            let ghost before = part.deep_view();
            let (token, pos) = self.next_token();
            match token {
                Token::RParen => {
                    return Ok((part, true));
                },
                Token::EOF => {
                    return Err(
                        Self::unexpected_here("create table column definitions", &Token::EOF, pos),
                    );
                },
                Token::Comma => {
                    return Ok((part, false));
                },
                token => {
                    part.push(token);
                    assert(part.deep_view() =~= before.push(token@));
                },
            }
        }
    }

    /// The column that the tokens of one definition declare.
    fn definition(part: &Vec<Token>) -> (r: Option<ColumnDefinition>)
        ensures
            r.deep_view() == definition_of(part.deep_view()),
    {
        if part.len() != 2 {
            return None;
        }
        assert(part.deep_view()[0] == part[0]@);
        assert(part.deep_view()[1] == part[1]@);
        match (&part[0], &part[1]) {
            (Token::Word(column_name), Token::Word(column_type)) => Some(
                ColumnDefinition::new(column_name.clone(), column_type.clone()),
            ),
            _ => None,
        }
    }

    /// Some tokens as they are written in a message.
    fn list_tokens(part: &Vec<Token>) -> (r: String)
        ensures
            r@ == tokens_text(part.deep_view()),
    {
        let mut r = "[".to_owned();
        let mut i: usize = 0;
        while i < part.len()
            invariant
                i <= part.len(),
                r@ == "["@ + listed(part.deep_view(), i as int),
            decreases part.len() - i,
        {
            let ghost before = listed(part.deep_view(), i as int);
            assert(part.deep_view()[i as int] == part[i as int]@);
            if i > 0 {
                r.append(", ");
            }
            let text = part[i].to_debug();
            r.append(text.as_str());
            i += 1;
            proof {
                if i == 1 {
                    assert(before =~= Seq::empty());
                    assert("["@ + before + text@ =~= "["@ + text@);
                } else {
                    assert("["@ + before + ", "@ + text@ =~= "["@ + (before + ", "@ + text@));
                }
            }
        }
        r.append("]");
        r
    }

    /// Whether nothing but whitespace is left at the cursor. The cursor moves
    /// to the end where that is so, and stays where it is not.
    fn skip_stop_words(&mut self) -> (r: bool)
        requires
            old(self).in_reach(),
        ensures
            final(self).reads_like(old(self)),
            r == ends_at(old(self)@.tokens, old(self)@.pos),
            r ==> final(self)@.pos == next_token_at(old(self)@.tokens, old(self)@.pos).1,
            !r ==> final(self)@.pos == old(self)@.pos,
    {
        let start = self.pos;
        let (token, _) = self.next_token();
        match token {
            Token::EOF => true,
            _ => {
                self.pos = start;
                false
            },
        }
    }

    fn parse_predicate(&mut self) -> (r: Result<Predicate, ParserError>)
        requires
            old(self).in_reach(),
        ensures
            final(self).follows(old(self), predicate_at(old(self)@.tokens, old(self)@.pos)),
            agrees(r, predicate_at(old(self)@.tokens, old(self)@.pos).value),
    {
        let (token, _) = self.next_token();
        match token {
            Token::Keyword(Keyword::Where) => {
                if self.skip_stop_words() {
                    Ok(Predicate::empty())
                } else {
                    match self.parse_expression(None) {
                        Ok(expr) => Ok(Predicate::new(expr)),
                        Err(e) => Err(e),
                    }
                }
            },
            _ => Ok(Predicate::empty()),
        }
    }

    /// The operator that `token` writes.
    fn operator(token: &Token) -> (r: Option<BinaryOperator>)
        ensures
            r == operator_of(token@),
    {
        match token {
            Token::Eq => Some(BinaryOperator::Eq),
            Token::Neq => Some(BinaryOperator::Neq),
            Token::Lt => Some(BinaryOperator::Lt),
            Token::Lte => Some(BinaryOperator::Lte),
            Token::Gt => Some(BinaryOperator::Gt),
            Token::Gte => Some(BinaryOperator::Gte),
            _ => None,
        }
    }

    /// The operand that `token` writes.
    fn operand(token: &Token) -> (r: Option<Expression>)
        ensures
            r.deep_view() == operand_of(token@),
    {
        match token {
            Token::SingleQuotedString(s) => Some(Expression::quoted_string(s.as_str())),
            Token::Number(num) => Some(Expression::number(num.as_str())),
            Token::Word(ident) => Some(
                if ident.as_str().eq("true") {
                    Expression::boolean(true)
                } else if ident.as_str().eq("false") {
                    Expression::boolean(false)
                } else {
                    Expression::ident(ident.as_str())
                },
            ),
            _ => None,
        }
    }

    /// The expression at the cursor. `processing` is the operand that was read
    /// just before, if one was.
    fn parse_expression(&mut self, processing: Option<Expression>) -> (r: Result<
        Expression,
        ParserError,
    >)
        requires
            old(self).in_reach(),
        ensures
            final(self).follows(
                old(self),
                expression_at(old(self)@.tokens, old(self)@.pos, processing.deep_view()),
            ),
            agrees(
                r,
                expression_at(old(self)@.tokens, old(self)@.pos, processing.deep_view()).value,
            ),
        decreases old(self)@.tokens.len() - old(self)@.pos, 0int,
    {
        let (token, pos) = self.next_token();
        match token {
            Token::EOF => match processing {
                Some(expression) => Ok(expression),
                None => Err(
                    ParserError::ParseError(
                        "Unexpected EOF while parse_expression".to_owned(),
                        pos,
                    ),
                ),
            },
            token => match (Self::operand(&token), Self::operator(&token)) {
                (Some(expr), _) => self.continue_parse_expr(expr, processing, &token, pos),
                (None, Some(op)) => self.build_binoperator(op, processing, &token, pos),
                (None, None) => Err(Self::unexpected_here("expression", &token, pos)),
            },
        }
    }

    /// Goes on after the operand `expr`, which `token` wrote: an operand may
    /// not follow another.
    fn continue_parse_expr(
        &mut self,
        expr: Expression,
        processing: Option<Expression>,
        token: &Token,
        pos: usize,
    ) -> (r: Result<Expression, ParserError>)
        requires
            old(self).in_reach(),
            !(token@ is EOF),
            old(self)@.pos == pos,
        ensures
            final(self).follows(
                old(self),
                match processing.deep_view() {
                    Some(_) => unexpected::<ExpressionView>("expression"@, token@.debug(), pos as int),
                    None => expression_at(old(self)@.tokens, pos as int, Some(expr@)),
                },
            ),
            agrees(
                r,
                match processing.deep_view() {
                    Some(_) => unexpected::<ExpressionView>("expression"@, token@.debug(), pos as int),
                    None => expression_at(old(self)@.tokens, pos as int, Some(expr@)),
                }.value,
            ),
        decreases old(self)@.tokens.len() - old(self)@.pos, 1int,
    {
        match processing {
            Some(_) => Err(Self::unexpected_here("expression", token, pos)),
            None => self.parse_expression(Some(expr)),
        }
    }

    /// Goes on after the operator `op`, which `token` wrote: it compares the
    /// operand before it with the expression after it.
    fn build_binoperator(
        &mut self,
        op: BinaryOperator,
        processing: Option<Expression>,
        token: &Token,
        pos: usize,
    ) -> (r: Result<Expression, ParserError>)
        requires
            old(self).in_reach(),
            !(token@ is EOF),
            old(self)@.pos == pos,
        ensures
            final(self).follows(old(self), binoperator_at(old(self)@.tokens, pos as int, op, processing.deep_view(), token@)),
            agrees(r, binoperator_at(old(self)@.tokens, pos as int, op, processing.deep_view(), token@).value),
        decreases old(self)@.tokens.len() - old(self)@.pos, 1int,
    {
        match processing {
            Some(left) => {
                match self.parse_expression(None) {
                    Ok(right) => Ok(op.build(left, right)),
                    Err(e) => Err(e),
                }
            },
            None => Err(Self::unexpected_here("Left expression", token, pos)),
        }
    }
}

/// What follows the operator `op`, which `token` wrote at the cursor before
/// `pos`.
pub open spec fn binoperator_at(
    tokens: Seq<TokenView>,
    pos: int,
    op: BinaryOperator,
    processing: Option<ExpressionView>,
    token: TokenView,
) -> Parsed<ExpressionView> {
    match processing {
        Some(left) => {
            let right = expression_at(tokens, pos, None);
            match right.value {
                Ok(right_value) => done(
                    ExpressionView::BinOperator {
                        lhs: Box::new(left),
                        rhs: Box::new(right_value),
                        op,
                    },
                    right.pos,
                ),
                Err(e) => failed(e, right.pos),
            }
        },
        None => unexpected("Left expression"@, token.debug(), pos),
    }
}

// ---------------------------------------------------------------------------
// Whitespace changes no statement
// ---------------------------------------------------------------------------

/// The first `n` tokens without the whitespace among them.
pub open spec fn without_whitespace(tokens: Seq<TokenView>, n: int) -> Seq<TokenView>
    decreases n,
{
    if n <= 0 {
        Seq::empty()
    } else if n > tokens.len() {
        without_whitespace(tokens, tokens.len() as int)
    } else if tokens[n - 1] is Whitespace {
        without_whitespace(tokens, n - 1)
    } else {
        without_whitespace(tokens, n - 1).push(tokens[n - 1])
    }
}

/// The tokens without the whitespace among them.
pub open spec fn stripped(tokens: Seq<TokenView>) -> Seq<TokenView> {
    without_whitespace(tokens, tokens.len() as int)
}

/// The position among the tokens without whitespace that stands for the
/// position `pos` among the tokens.
pub open spec fn stripped_pos(tokens: Seq<TokenView>, pos: int) -> int {
    without_whitespace(tokens, pos).len() as int
}

/// Whether parsing the tokens without whitespace gave what parsing the tokens
/// gave: the same value at the position that stands for the same position, or
/// an error where that gave an error.
pub open spec fn same_parse<T>(tokens: Seq<TokenView>, with: Parsed<T>, without: Parsed<T>) -> bool {
    match with.value {
        Ok(value) => without.value == Ok::<T, ParserErrorView>(value) && without.pos
            == stripped_pos(tokens, with.pos),
        Err(_) => without.value is Err,
    }
}

proof fn lemma_without_whitespace(tokens: Seq<TokenView>, n: int, m: int)
    requires
        0 <= n <= m <= tokens.len(),
    ensures
        without_whitespace(tokens, n).len() <= without_whitespace(tokens, m).len() <= m,
        forall|k: int|
            0 <= k < without_whitespace(tokens, n).len() ==> #[trigger] without_whitespace(
                tokens,
                m,
            )[k] == without_whitespace(tokens, n)[k],
        forall|k: int|
            0 <= k < without_whitespace(tokens, m).len() ==> !(#[trigger] without_whitespace(
                tokens,
                m,
            )[k] is Whitespace),
    decreases m,
{
    if m > 0 {
        if n < m {
            lemma_without_whitespace(tokens, n, m - 1);
        } else {
            lemma_without_whitespace(tokens, m - 1, m - 1);
        }
    }
}

/// A token that is no whitespace stands among the tokens without whitespace
/// at the position that stands for its own.
proof fn lemma_stripped_token(tokens: Seq<TokenView>, i: int)
    requires
        0 <= i < tokens.len(),
        !(tokens[i] is Whitespace),
    ensures
        stripped_pos(tokens, i) < stripped(tokens).len(),
        stripped(tokens)[stripped_pos(tokens, i)] == tokens[i],
        stripped_pos(tokens, i + 1) == stripped_pos(tokens, i) + 1,
{
    lemma_without_whitespace(tokens, i + 1, tokens.len() as int);
    let next = without_whitespace(tokens, i + 1);
    assert(next == without_whitespace(tokens, i).push(tokens[i]));
    assert(next[stripped_pos(tokens, i)] == tokens[i]);
}

proof fn lemma_skip_whitespace_stripped(tokens: Seq<TokenView>, pos: int)
    requires
        0 <= pos <= tokens.len(),
    ensures
        next_token_at(stripped(tokens), stripped_pos(tokens, pos)) == (
            skip_whitespace(tokens, pos).0,
            stripped_pos(tokens, skip_whitespace(tokens, pos).1),
        ),
    decreases tokens.len() - pos,
{
    lemma_without_whitespace(tokens, pos, tokens.len() as int);
    if pos < tokens.len() {
        if tokens[pos] is Whitespace {
            assert(without_whitespace(tokens, pos + 1) == without_whitespace(tokens, pos));
            lemma_skip_whitespace_stripped(tokens, pos + 1);
        } else {
            lemma_stripped_token(tokens, pos);
            reveal_with_fuel(skip_whitespace, 2);
        }
    } else {
        assert(without_whitespace(tokens, tokens.len() as int + 1) == stripped(tokens));
    }
}

/// The next token of the tokens without whitespace is the next token of the
/// tokens, and the cursor after it stands for the same position.
proof fn lemma_next_token_stripped(tokens: Seq<TokenView>, pos: int)
    requires
        0 <= pos,
    ensures
        next_token_at(stripped(tokens), stripped_pos(tokens, pos)) == (
            next_token_at(tokens, pos).0,
            stripped_pos(tokens, next_token_at(tokens, pos).1),
        ),
        0 <= next_token_at(tokens, pos).1,
{
    if pos < tokens.len() {
        lemma_skip_whitespace_stripped(tokens, pos);
        lemma_skip_whitespace(tokens, pos);
    }
}

proof fn lemma_projections_stripped(tokens: Seq<TokenView>, pos: int, items: Seq<ProjectionView>)
    requires
        0 <= pos,
    ensures
        same_parse(
            tokens,
            projections_at(tokens, pos, items),
            projections_at(stripped(tokens), stripped_pos(tokens, pos), items),
        ),
        0 <= projections_at(tokens, pos, items).pos,
    decreases tokens.len() - pos,
{
    lemma_next_token_stripped(tokens, pos);
    lemma_next_token_advances(tokens, pos);
    let (token, next) = next_token_at(tokens, pos);
    match token {
        TokenView::Comma | TokenView::Whitespace(_) => {
            lemma_projections_stripped(tokens, next, items);
        },
        TokenView::Mul => {
            lemma_projections_stripped(tokens, next, items.push(ProjectionView::Wildcard));
        },
        TokenView::SingleQuotedString(s) => {
            lemma_projections_stripped(
                tokens,
                next,
                items.push(
                    ProjectionView::Expression(ExpressionView::Value(ValueView::QuotedString(s))),
                ),
            );
        },
        TokenView::Number(n) => {
            lemma_projections_stripped(
                tokens,
                next,
                items.push(ProjectionView::Expression(ExpressionView::Value(ValueView::Number(n)))),
            );
        },
        TokenView::Word(name) => {
            lemma_projections_stripped(
                tokens,
                next,
                items.push(ProjectionView::Expression(ExpressionView::Ident(name))),
            );
        },
        _ => {},
    }
}

proof fn lemma_expression_stripped(
    tokens: Seq<TokenView>,
    pos: int,
    processing: Option<ExpressionView>,
)
    requires
        0 <= pos,
    ensures
        same_parse(
            tokens,
            expression_at(tokens, pos, processing),
            expression_at(stripped(tokens), stripped_pos(tokens, pos), processing),
        ),
    decreases tokens.len() - pos,
{
    lemma_next_token_stripped(tokens, pos);
    lemma_next_token_advances(tokens, pos);
    let (token, next) = next_token_at(tokens, pos);
    if !(token is EOF) {
        match (operand_of(token), operator_of(token)) {
            (Some(operand), _) => {
                if processing is None {
                    lemma_expression_stripped(tokens, next, Some(operand));
                }
            },
            (None, Some(_)) => {
                if processing is Some {
                    lemma_expression_stripped(tokens, next, None);
                }
            },
            (None, None) => {},
        }
    }
}

proof fn lemma_values_stripped(tokens: Seq<TokenView>, pos: int, values: Seq<ValueView>)
    requires
        0 <= pos,
    ensures
        same_parse(
            tokens,
            values_at(tokens, pos, values),
            values_at(stripped(tokens), stripped_pos(tokens, pos), values),
        ),
    decreases tokens.len() - pos,
{
    lemma_next_token_stripped(tokens, pos);
    lemma_next_token_advances(tokens, pos);
    let (token, next) = next_token_at(tokens, pos);
    match token {
        TokenView::Comma => {
            lemma_values_stripped(tokens, next, values);
        },
        TokenView::Number(n) => {
            lemma_values_stripped(tokens, next, values.push(ValueView::Number(n)));
        },
        TokenView::SingleQuotedString(s) => {
            lemma_values_stripped(tokens, next, values.push(ValueView::QuotedString(s)));
        },
        _ => {},
    }
}

proof fn lemma_definition_tokens_stripped(tokens: Seq<TokenView>, pos: int, part: Seq<TokenView>)
    requires
        0 <= pos,
    ensures
        same_parse(
            tokens,
            definition_tokens_at(tokens, pos, part),
            definition_tokens_at(stripped(tokens), stripped_pos(tokens, pos), part),
        ),
    decreases tokens.len() - pos,
{
    lemma_next_token_stripped(tokens, pos);
    lemma_next_token_advances(tokens, pos);
    let (token, next) = next_token_at(tokens, pos);
    if !(token is EOF) {
        match token {
            TokenView::RParen => {},
            TokenView::Comma => {},
            _ => {
                lemma_definition_tokens_stripped(tokens, next, part.push(token));
            },
        }
    }
}

proof fn lemma_definitions_stripped(
    tokens: Seq<TokenView>,
    pos: int,
    columns: Seq<ColumnDefinitionView>,
)
    requires
        0 <= pos,
    ensures
        same_parse(
            tokens,
            definitions_at(tokens, pos, columns),
            definitions_at(stripped(tokens), stripped_pos(tokens, pos), columns),
        ),
    decreases tokens.len() - pos,
{
    lemma_definition_tokens_stripped(tokens, pos, Seq::empty());
    lemma_definition_tokens_advance(tokens, pos, Seq::empty());
    let part = definition_tokens_at(tokens, pos, Seq::empty());
    match part.value {
        Ok((part_tokens, closed)) => {
            match definition_of(part_tokens) {
                Some(column) => {
                    if !closed {
                        lemma_definitions_stripped(tokens, part.pos, columns.push(column));
                    }
                },
                None => {},
            }
        },
        Err(_) => {},
    }
}

/// Whitespace changes no statement. Where the tokens from the cursor on
/// write a statement, the tokens without the whitespace among them write the
/// same statement.
pub proof fn lemma_whitespace_changes_no_statement(
    tokens: Seq<TokenView>,
    pos: int,
    database_name: Option<Seq<char>>,
)
    requires
        0 <= pos,
    ensures
        same_parse(
            tokens,
            statement_at(tokens, pos, database_name),
            statement_at(stripped(tokens), stripped_pos(tokens, pos), database_name),
        ),
        stripped(tokens).len() <= tokens.len(),
{
    lemma_without_whitespace(tokens, 0, tokens.len() as int);
    lemma_next_token_stripped(tokens, pos);
    let (token, next) = next_token_at(tokens, pos);
    match token {
        TokenView::Keyword(Keyword::Select) => {
            lemma_projections_stripped(tokens, next, Seq::empty());
            let projections = projections_at(tokens, next, Seq::empty());
            if projections.value is Ok {
                lemma_next_token_stripped(tokens, projections.pos);
                let froms = froms_at(tokens, projections.pos);
                if froms.value is Ok {
                    lemma_next_token_stripped(tokens, froms.pos);
                    let after_where = next_token_at(tokens, froms.pos).1;
                    lemma_next_token_stripped(tokens, after_where);
                    lemma_expression_stripped(tokens, after_where, None);
                }
            }
        },
        TokenView::Keyword(Keyword::Insert) => {
            lemma_next_token_stripped(tokens, next);
            let after_into = next_token_at(tokens, next).1;
            lemma_next_token_stripped(tokens, after_into);
            let after_table = next_token_at(tokens, after_into).1;
            lemma_next_token_stripped(tokens, after_table);
            let after_values = next_token_at(tokens, after_table).1;
            lemma_next_token_stripped(tokens, after_values);
            lemma_values_stripped(tokens, next_token_at(tokens, after_values).1, Seq::empty());
        },
        TokenView::Keyword(Keyword::Create) => {
            lemma_next_token_stripped(tokens, next);
            let after_kind = next_token_at(tokens, next).1;
            lemma_next_token_stripped(tokens, after_kind);
            let after_name = next_token_at(tokens, after_kind).1;
            lemma_next_token_stripped(tokens, after_name);
            lemma_definitions_stripped(tokens, next_token_at(tokens, after_name).1, Seq::empty());
        },
        _ => {},
    }
}

/// Whitespace changes nothing that is parsed. Where a parser reads a
/// statement, a parser on the same tokens without the whitespace among them
/// reads the same statement.
pub proof fn lemma_whitespace_is_transparent(parser: ParserView)
    requires
        0 <= parser.pos,
        parser.parse().value is Ok,
    ensures
        (ParserView {
            tokens: stripped(parser.tokens),
            pos: stripped_pos(parser.tokens, parser.pos),
            database_name: parser.database_name,
        }).parse().value == parser.parse().value,
{
    lemma_whitespace_changes_no_statement(parser.tokens, parser.pos, parser.database_name);
}

} // verus!
