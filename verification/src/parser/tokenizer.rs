//! The tokenizer: SQL text to a flat sequence of tokens, whitespace included.

use crate::text::{chars_of, debug_quoted, is_digit, join, lowercase, quote, string_of, to_lowercase};
use vstd::prelude::*;

verus! {

/// The reserved words, matched without regard to the case of ASCII letters.
#[derive(Debug, Clone, Copy, PartialEq, Eq, Hash)]
pub enum Keyword {
    Create,
    Database,
    Table,
    Select,
    From,
    Where,
    Insert,
    Into,
    Values,
}

impl Keyword {
    /// The keyword as it is written in messages.
    pub open spec fn name(self) -> Seq<char> {
        match self {
            Keyword::Create => "Create"@,
            Keyword::Database => "Database"@,
            Keyword::Table => "Table"@,
            Keyword::Select => "Select"@,
            Keyword::From => "From"@,
            Keyword::Where => "Where"@,
            Keyword::Insert => "Insert"@,
            Keyword::Into => "Into"@,
            Keyword::Values => "Values"@,
        }
    }

    /// The keyword that `word` spells, if it spells one.
    pub open spec fn of_word(word: Seq<char>) -> Option<Keyword> {
        let w = lowercase(word);
        if w == "create"@ {
            Some(Keyword::Create)
        } else if w == "database"@ {
            Some(Keyword::Database)
        } else if w == "table"@ {
            Some(Keyword::Table)
        } else if w == "select"@ {
            Some(Keyword::Select)
        } else if w == "from"@ {
            Some(Keyword::From)
        } else if w == "where"@ {
            Some(Keyword::Where)
        } else if w == "insert"@ {
            Some(Keyword::Insert)
        } else if w == "into"@ {
            Some(Keyword::Into)
        } else if w == "values"@ {
            Some(Keyword::Values)
        } else {
            None
        }
    }

    pub fn find(s: &str) -> (r: Option<Keyword>)
        ensures
            r == Keyword::of_word(s@),
    {
        let lowered = to_lowercase(s);
        let w = lowered.as_str();
        if w.eq("create") {
            Some(Keyword::Create)
        } else if w.eq("database") {
            Some(Keyword::Database)
        } else if w.eq("table") {
            Some(Keyword::Table)
        } else if w.eq("select") {
            Some(Keyword::Select)
        } else if w.eq("from") {
            Some(Keyword::From)
        } else if w.eq("where") {
            Some(Keyword::Where)
        } else if w.eq("insert") {
            Some(Keyword::Insert)
        } else if w.eq("into") {
            Some(Keyword::Into)
        } else if w.eq("values") {
            Some(Keyword::Values)
        } else {
            None
        }
    }

    pub fn to_text(&self) -> (r: String)
        ensures
            r@ == self.name(),
    {
        match self {
            Keyword::Create => "Create".to_owned(),
            Keyword::Database => "Database".to_owned(),
            Keyword::Table => "Table".to_owned(),
            Keyword::Select => "Select".to_owned(),
            Keyword::From => "From".to_owned(),
            Keyword::Where => "Where".to_owned(),
            Keyword::Insert => "Insert".to_owned(),
            Keyword::Into => "Into".to_owned(),
            Keyword::Values => "Values".to_owned(),
        }
    }
}

#[derive(Debug, Clone, Copy, PartialEq, Eq, Hash)]
pub enum Whitespace {
    Space,
    Newline,
    Tab,
}

impl Whitespace {
    /// The whitespace as it is written in messages: a line feed and a tab are
    /// written as their escapes.
    pub open spec fn text(self) -> Seq<char> {
        match self {
            Whitespace::Space => " "@,
            Whitespace::Newline => "\\n"@,
            Whitespace::Tab => "\\t"@,
        }
    }

    /// The name of the variant.
    pub open spec fn variant(self) -> Seq<char> {
        match self {
            Whitespace::Space => "Space"@,
            Whitespace::Newline => "Newline"@,
            Whitespace::Tab => "Tab"@,
        }
    }

    pub fn to_text(&self) -> (r: String)
        ensures
            r@ == self.text(),
    {
        match self {
            Whitespace::Space => " ".to_owned(),
            Whitespace::Newline => "\\n".to_owned(),
            Whitespace::Tab => "\\t".to_owned(),
        }
    }
}

#[derive(Debug, PartialEq, Eq, Hash)]
pub enum Token {
    EOF,
    Keyword(Keyword),
    Word(String),
    Number(String),
    SingleQuotedString(String),
    Comma,
    Whitespace(Whitespace),
    Eq,
    Neq,
    Lt,
    Lte,
    Gt,
    Gte,
    Plus,
    Minus,
    Mul,
    Div,
    Mod,
    LParen,
    RParen,
    Period,
    SemiColon,
}

/// A token as a mathematical value.
pub enum TokenView {
    EOF,
    Keyword(Keyword),
    Word(Seq<char>),
    Number(Seq<char>),
    SingleQuotedString(Seq<char>),
    Comma,
    Whitespace(Whitespace),
    Eq,
    Neq,
    Lt,
    Lte,
    Gt,
    Gte,
    Plus,
    Minus,
    Mul,
    Div,
    Mod,
    LParen,
    RParen,
    Period,
    SemiColon,
}

impl TokenView {
    /// The token as it is written in messages.
    pub open spec fn text(self) -> Seq<char> {
        match self {
            TokenView::EOF => "EOF"@,
            TokenView::Keyword(keyword) => keyword.name(),
            TokenView::Word(word) => word,
            TokenView::Number(number) => number,
            TokenView::SingleQuotedString(s) => s,
            TokenView::Comma => ","@,
            TokenView::Whitespace(whitespace) => whitespace.text(),
            TokenView::Eq => "="@,
            TokenView::Neq => "!="@,
            TokenView::Lt => "<"@,
            TokenView::Lte => "<="@,
            TokenView::Gt => ">"@,
            TokenView::Gte => ">="@,
            TokenView::Plus => "+"@,
            TokenView::Minus => "-"@,
            TokenView::Mul => "*"@,
            TokenView::Div => "/"@,
            TokenView::Mod => "%"@,
            TokenView::LParen => "("@,
            TokenView::RParen => ")"@,
            TokenView::Period => "."@,
            TokenView::SemiColon => ";"@,
        }
    }
}

/// A variant's name with its payload in parentheses.
pub open spec fn with_payload(variant: Seq<char>, payload: Seq<char>) -> Seq<char> {
    variant + "("@ + payload + ")"@
}

impl TokenView {
    /// The token in its `Debug` form: the name of its variant and, where it
    /// has a payload, the payload in parentheses, a string as `std` quotes it.
    pub open spec fn debug(self) -> Seq<char> {
        match self {
            TokenView::EOF => "EOF"@,
            TokenView::Keyword(keyword) => with_payload("Keyword"@, keyword.name()),
            TokenView::Word(word) => with_payload("Word"@, debug_quoted(word)),
            TokenView::Number(number) => with_payload("Number"@, debug_quoted(number)),
            TokenView::SingleQuotedString(s) => with_payload(
                "SingleQuotedString"@,
                debug_quoted(s),
            ),
            TokenView::Comma => "Comma"@,
            TokenView::Whitespace(whitespace) => with_payload(
                "Whitespace"@,
                whitespace.variant(),
            ),
            TokenView::Eq => "Eq"@,
            TokenView::Neq => "Neq"@,
            TokenView::Lt => "Lt"@,
            TokenView::Lte => "Lte"@,
            TokenView::Gt => "Gt"@,
            TokenView::Gte => "Gte"@,
            TokenView::Plus => "Plus"@,
            TokenView::Minus => "Minus"@,
            TokenView::Mul => "Mul"@,
            TokenView::Div => "Div"@,
            TokenView::Mod => "Mod"@,
            TokenView::LParen => "LParen"@,
            TokenView::RParen => "RParen"@,
            TokenView::Period => "Period"@,
            TokenView::SemiColon => "SemiColon"@,
        }
    }
}

impl View for Token {
    type V = TokenView;

    open spec fn view(&self) -> TokenView {
        match self {
            Token::EOF => TokenView::EOF,
            Token::Keyword(keyword) => TokenView::Keyword(*keyword),
            Token::Word(word) => TokenView::Word(word@),
            Token::Number(number) => TokenView::Number(number@),
            Token::SingleQuotedString(s) => TokenView::SingleQuotedString(s@),
            Token::Comma => TokenView::Comma,
            Token::Whitespace(whitespace) => TokenView::Whitespace(*whitespace),
            Token::Eq => TokenView::Eq,
            Token::Neq => TokenView::Neq,
            Token::Lt => TokenView::Lt,
            Token::Lte => TokenView::Lte,
            Token::Gt => TokenView::Gt,
            Token::Gte => TokenView::Gte,
            Token::Plus => TokenView::Plus,
            Token::Minus => TokenView::Minus,
            Token::Mul => TokenView::Mul,
            Token::Div => TokenView::Div,
            Token::Mod => TokenView::Mod,
            Token::LParen => TokenView::LParen,
            Token::RParen => TokenView::RParen,
            Token::Period => TokenView::Period,
            Token::SemiColon => TokenView::SemiColon,
        }
    }
}

impl DeepView for Token {
    type V = TokenView;

    open spec fn deep_view(&self) -> TokenView {
        self@
    }
}

impl Clone for Token {
    fn clone(&self) -> (r: Self)
        ensures
            r@ == self@,
    {
        match self {
            Token::EOF => Token::EOF,
            Token::Keyword(keyword) => Token::Keyword(*keyword),
            Token::Word(word) => Token::Word(word.clone()),
            Token::Number(number) => Token::Number(number.clone()),
            Token::SingleQuotedString(s) => Token::SingleQuotedString(s.clone()),
            Token::Comma => Token::Comma,
            Token::Whitespace(whitespace) => Token::Whitespace(*whitespace),
            Token::Eq => Token::Eq,
            Token::Neq => Token::Neq,
            Token::Lt => Token::Lt,
            Token::Lte => Token::Lte,
            Token::Gt => Token::Gt,
            Token::Gte => Token::Gte,
            Token::Plus => Token::Plus,
            Token::Minus => Token::Minus,
            Token::Mul => Token::Mul,
            Token::Div => Token::Div,
            Token::Mod => Token::Mod,
            Token::LParen => Token::LParen,
            Token::RParen => Token::RParen,
            Token::Period => Token::Period,
            Token::SemiColon => Token::SemiColon,
        }
    }
}

fn variant_with(variant: &str, inner: &str) -> (r: String)
    ensures
        r@ == with_payload(variant@, inner@),
{
    let mut r = join(variant, "(");
    r.append(inner);
    r.append(")");
    r
}

impl Token {
    /// The token in its `Debug` form, as messages name it.
    pub fn to_debug(&self) -> (r: String)
        ensures
            r@ == self@.debug(),
    {
        match self {
            Token::EOF => "EOF".to_owned(),
            Token::Keyword(keyword) => variant_with("Keyword", keyword.to_text().as_str()),
            Token::Word(word) => variant_with("Word", quote(word.as_str()).as_str()),
            Token::Number(number) => variant_with("Number", quote(number.as_str()).as_str()),
            Token::SingleQuotedString(s) => variant_with(
                "SingleQuotedString",
                quote(s.as_str()).as_str(),
            ),
            Token::Comma => "Comma".to_owned(),
            Token::Whitespace(Whitespace::Space) => variant_with("Whitespace", "Space"),
            Token::Whitespace(Whitespace::Newline) => variant_with("Whitespace", "Newline"),
            Token::Whitespace(Whitespace::Tab) => variant_with("Whitespace", "Tab"),
            Token::Eq => "Eq".to_owned(),
            Token::Neq => "Neq".to_owned(),
            Token::Lt => "Lt".to_owned(),
            Token::Lte => "Lte".to_owned(),
            Token::Gt => "Gt".to_owned(),
            Token::Gte => "Gte".to_owned(),
            Token::Plus => "Plus".to_owned(),
            Token::Minus => "Minus".to_owned(),
            Token::Mul => "Mul".to_owned(),
            Token::Div => "Div".to_owned(),
            Token::Mod => "Mod".to_owned(),
            Token::LParen => "LParen".to_owned(),
            Token::RParen => "RParen".to_owned(),
            Token::Period => "Period".to_owned(),
            Token::SemiColon => "SemiColon".to_owned(),
        }
    }

    pub fn to_text(&self) -> (r: String)
        ensures
            r@ == self@.text(),
    {
        match self {
            Token::EOF => "EOF".to_owned(),
            Token::Keyword(keyword) => keyword.to_text(),
            Token::Word(word) => word.clone(),
            Token::Number(number) => number.clone(),
            Token::SingleQuotedString(s) => s.clone(),
            Token::Comma => ",".to_owned(),
            Token::Whitespace(whitespace) => whitespace.to_text(),
            Token::Eq => "=".to_owned(),
            Token::Neq => "!=".to_owned(),
            Token::Lt => "<".to_owned(),
            Token::Lte => "<=".to_owned(),
            Token::Gt => ">".to_owned(),
            Token::Gte => ">=".to_owned(),
            Token::Plus => "+".to_owned(),
            Token::Minus => "-".to_owned(),
            Token::Mul => "*".to_owned(),
            Token::Div => "/".to_owned(),
            Token::Mod => "%".to_owned(),
            Token::LParen => "(".to_owned(),
            Token::RParen => ")".to_owned(),
            Token::Period => ".".to_owned(),
            Token::SemiColon => ";".to_owned(),
        }
    }
}

/// A lexeme that is no token: its message names what was read.
#[derive(Debug, PartialEq, Eq, Hash)]
pub struct TokenizeError {
    pub message: String,
}

pub struct TokenizeErrorView {
    pub message: Seq<char>,
}

impl View for TokenizeError {
    type V = TokenizeErrorView;

    open spec fn view(&self) -> TokenizeErrorView {
        TokenizeErrorView { message: self.message@ }
    }
}

impl Clone for TokenizeError {
    fn clone(&self) -> (r: Self)
        ensures
            r@ == self@,
    {
        TokenizeError { message: self.message.clone() }
    }
}

/// A bare word runs up to whitespace, a comma or a parenthesis.
pub open spec fn ends_word(c: char) -> bool {
    c == ',' || c == ' ' || c == '\n' || c == '\t' || c == '(' || c == ')'
}

/// The first position at or after `from` that holds no digit, or the length.
pub open spec fn digits_end(s: Seq<char>, from: int) -> int
    decreases s.len() - from,
{
    if 0 <= from < s.len() && is_digit(s[from]) {
        digits_end(s, from + 1)
    } else {
        from
    }
}

/// The first position at or after `from` that ends a bare word, or the length.
pub open spec fn word_end(s: Seq<char>, from: int) -> int
    decreases s.len() - from,
{
    if 0 <= from < s.len() && !ends_word(s[from]) {
        word_end(s, from + 1)
    } else {
        from
    }
}

/// The first position at or after `from` that holds a single quote, or the
/// length.
pub open spec fn quote_end(s: Seq<char>, from: int) -> int
    decreases s.len() - from,
{
    if 0 <= from < s.len() && s[from] != '\'' {
        quote_end(s, from + 1)
    } else {
        from
    }
}

/// What a bare word becomes: a keyword where it spells one.
pub open spec fn word_token(word: Seq<char>) -> TokenView {
    match Keyword::of_word(word) {
        Some(keyword) => TokenView::Keyword(keyword),
        None => TokenView::Word(word),
    }
}

/// What comes out of an exclamation mark at `i`.
pub open spec fn lex_bang(s: Seq<char>, i: int) -> Result<(TokenView, int), TokenizeErrorView> {
    if i + 1 < s.len() && s[i + 1] == '=' {
        Ok((TokenView::Neq, i + 2))
    } else if i + 1 < s.len() {
        Err(TokenizeErrorView { message: "Unknown token: !"@.push(s[i + 1]) })
    } else {
        Err(TokenizeErrorView { message: "Unknown token: !"@ })
    }
}

/// The token that starts at `i`, with the position that follows it; or the
/// error that the text at `i` gives.
pub open spec fn lex(s: Seq<char>, i: int) -> Result<(TokenView, int), TokenizeErrorView>
    recommends
        0 <= i < s.len(),
{
    let c = s[i];
    let followed_by_eq = i + 1 < s.len() && s[i + 1] == '=';
    if c == '=' {
        Ok((TokenView::Eq, i + 1))
    } else if c == '!' {
        lex_bang(s, i)
    } else if c == '<' {
        if followed_by_eq {
            Ok((TokenView::Lte, i + 2))
        } else {
            Ok((TokenView::Lt, i + 1))
        }
    } else if c == '>' {
        if followed_by_eq {
            Ok((TokenView::Gte, i + 2))
        } else {
            Ok((TokenView::Gt, i + 1))
        }
    } else if c == '+' {
        Ok((TokenView::Plus, i + 1))
    } else if c == '-' {
        Ok((TokenView::Minus, i + 1))
    } else if c == '*' {
        Ok((TokenView::Mul, i + 1))
    } else if c == '/' {
        Ok((TokenView::Div, i + 1))
    } else if c == '%' {
        Ok((TokenView::Mod, i + 1))
    } else if c == '(' {
        Ok((TokenView::LParen, i + 1))
    } else if c == ')' {
        Ok((TokenView::RParen, i + 1))
    } else if c == '.' {
        Ok((TokenView::Period, i + 1))
    } else if c == ';' {
        Ok((TokenView::SemiColon, i + 1))
    } else if c == ',' {
        Ok((TokenView::Comma, i + 1))
    } else if c == ' ' {
        Ok((TokenView::Whitespace(Whitespace::Space), i + 1))
    } else if c == '\t' {
        Ok((TokenView::Whitespace(Whitespace::Tab), i + 1))
    } else if c == '\n' {
        Ok((TokenView::Whitespace(Whitespace::Newline), i + 1))
    } else if is_digit(c) {
        let end = digits_end(s, i + 1);
        Ok((TokenView::Number(s.subrange(i, end)), end))
    } else if c == '\'' {
        let end = quote_end(s, i + 1);
        if end < s.len() {
            Ok((TokenView::SingleQuotedString(s.subrange(i + 1, end)), end + 1))
        } else {
            Ok((TokenView::SingleQuotedString(s.subrange(i + 1, end)), end))
        }
    } else {
        let end = word_end(s, i + 1);
        Ok((word_token(s.subrange(i, end)), end))
    }
}

/// The tokens of `s` from position `i` on, or the first error.
pub open spec fn lex_from(s: Seq<char>, i: int) -> Result<Seq<TokenView>, TokenizeErrorView>
    decreases s.len() - i,
{
    if 0 <= i < s.len() {
        match lex(s, i) {
            Ok((token, next)) => {
                proof {
                    lemma_lex_advances(s, i);
                }
                match lex_from(s, next) {
                    Ok(rest) => Ok(seq![token] + rest),
                    Err(e) => Err(e),
                }
            },
            Err(e) => Err(e),
        }
    } else {
        Ok(Seq::empty())
    }
}

/// The tokens of `query`, whitespace included, or the first error.
pub open spec fn tokenize_spec(query: Seq<char>) -> Result<Seq<TokenView>, TokenizeErrorView> {
    lex_from(query, 0)
}

/// `tokens` in front of what `rest` gives.
pub open spec fn after_tokens(
    tokens: Seq<TokenView>,
    rest: Result<Seq<TokenView>, TokenizeErrorView>,
) -> Result<Seq<TokenView>, TokenizeErrorView> {
    match rest {
        Ok(more) => Ok(tokens + more),
        Err(e) => Err(e),
    }
}

pub proof fn lemma_digits_end_bounds(s: Seq<char>, from: int)
    requires
        0 <= from <= s.len(),
    ensures
        from <= digits_end(s, from) <= s.len(),
    decreases s.len() - from,
{
    if from < s.len() && is_digit(s[from]) {
        lemma_digits_end_bounds(s, from + 1);
    }
}

pub proof fn lemma_word_end_bounds(s: Seq<char>, from: int)
    requires
        0 <= from <= s.len(),
    ensures
        from <= word_end(s, from) <= s.len(),
    decreases s.len() - from,
{
    if from < s.len() && !ends_word(s[from]) {
        lemma_word_end_bounds(s, from + 1);
    }
}

pub proof fn lemma_quote_end_bounds(s: Seq<char>, from: int)
    requires
        0 <= from <= s.len(),
    ensures
        from <= quote_end(s, from) <= s.len(),
    decreases s.len() - from,
{
    if from < s.len() && s[from] != '\'' {
        lemma_quote_end_bounds(s, from + 1);
    }
}

/// Every token takes at least one character and ends within the text.
pub proof fn lemma_lex_advances(s: Seq<char>, i: int)
    requires
        0 <= i < s.len(),
    ensures
        lex(s, i) matches Ok((_, next)) ==> i < next <= s.len(),
{
    lemma_digits_end_bounds(s, i + 1);
    lemma_word_end_bounds(s, i + 1);
    lemma_quote_end_bounds(s, i + 1);
}

#[derive(Debug, PartialEq, Eq, Hash)]
pub struct Tokenizer {
    query: String,
}

impl Clone for Tokenizer {
    fn clone(&self) -> (r: Self)
        ensures
            r@ == self@,
    {
        Tokenizer { query: self.query.clone() }
    }
}

impl View for Tokenizer {
    type V = Seq<char>;

    closed spec fn view(&self) -> Seq<char> {
        self.query@
    }
}

impl Tokenizer {
    pub fn new(query: &str) -> (r: Self)
        ensures
            r@ == query@,
    {
        Self { query: query.to_owned() }
    }

    /// The tokens of the query, whitespace included. The only text that is
    /// refused is an exclamation mark that no equals sign follows.
    pub fn tokenize(&mut self) -> (r: Result<Vec<Token>, TokenizeError>)
        ensures
            final(self)@ == old(self)@,
            match r {
                Ok(tokens) => tokenize_spec(old(self)@) == Ok::<_, TokenizeErrorView>(
                    tokens.deep_view(),
                ),
                Err(e) => tokenize_spec(old(self)@) == Err::<Seq<TokenView>, _>(e@),
            },
    {
        let chars = chars_of(self.query.as_str());
        let mut tokens: Vec<Token> = Vec::new();
        let mut pos: usize = 0;
        loop
            invariant
                pos <= chars.len(),
                chars@ == self.query@,
                lex_from(chars@, 0) == after_tokens(tokens.deep_view(), lex_from(chars@, pos as int)),
            decreases chars.len() - pos,
        {
            let ghost before = tokens.deep_view();
            let ghost at = pos as int;
            proof {
                if pos < chars.len() {
                    lemma_lex_advances(chars@, at);
                }
            }
            match Self::get_next_token(&chars, &mut pos) {
                Err(e) => {
                    return Err(e);
                },
                Ok(None) => {
                    assert(before + Seq::<TokenView>::empty() =~= before);
                    return Ok(tokens);
                },
                Ok(Some(token)) => {
                    tokens.push(token);
                    assert(tokens.deep_view() =~= before.push(token@));
                    assert forall|rest: Seq<TokenView>|
                        before + (seq![token@] + rest) == #[trigger] (before.push(token@)
                            + rest) by {
                        assert(before + (seq![token@] + rest) =~= before.push(token@) + rest);
                    }
                },
            }
        }
    }

    /// The token at the cursor, which moves past it; nothing at the end of
    /// the text.
    fn get_next_token(chars: &Vec<char>, pos: &mut usize) -> (r: Result<
        Option<Token>,
        TokenizeError,
    >)
        requires
            *old(pos) <= chars.len(),
        ensures
            *old(pos) == chars.len() ==> r == Ok::<Option<Token>, TokenizeError>(None) && *final(pos) == *old(pos),
            *old(pos) < chars.len() ==> match r {
                Ok(Some(token)) => lex(chars@, *old(pos) as int) == Ok::<_, TokenizeErrorView>(
                    (token@, *final(pos) as int),
                ),
                Ok(None) => false,
                Err(e) => lex(chars@, *old(pos) as int) == Err::<(TokenView, int), _>(e@),
            },
    {
        let i: usize = *pos;
        if i >= chars.len() {
            return Ok(None);
        }
        let ghost s = chars@;
        let c = chars[i];
        let followed_by_eq = i + 1 < chars.len() && chars[i + 1] == '=';
        if c == '=' {
            *pos = i + 1;
            Ok(Some(Token::Eq))
        } else if c == '!' {
            if followed_by_eq {
                *pos = i + 2;
                Ok(Some(Token::Neq))
            } else if i + 1 < chars.len() {
                let mut message = "Unknown token: !".to_owned();
                message.push(chars[i + 1]);
                Err(TokenizeError { message })
            } else {
                Err(TokenizeError { message: "Unknown token: !".to_owned() })
            }
        } else if c == '<' {
            if followed_by_eq {
                *pos = i + 2;
                Ok(Some(Token::Lte))
            } else {
                *pos = i + 1;
                Ok(Some(Token::Lt))
            }
        } else if c == '>' {
            if followed_by_eq {
                *pos = i + 2;
                Ok(Some(Token::Gte))
            } else {
                *pos = i + 1;
                Ok(Some(Token::Gt))
            }
        } else if c == '+' {
            *pos = i + 1;
            Ok(Some(Token::Plus))
        } else if c == '-' {
            *pos = i + 1;
            Ok(Some(Token::Minus))
        } else if c == '*' {
            *pos = i + 1;
            Ok(Some(Token::Mul))
        } else if c == '/' {
            *pos = i + 1;
            Ok(Some(Token::Div))
        } else if c == '%' {
            *pos = i + 1;
            Ok(Some(Token::Mod))
        } else if c == '(' {
            *pos = i + 1;
            Ok(Some(Token::LParen))
        } else if c == ')' {
            *pos = i + 1;
            Ok(Some(Token::RParen))
        } else if c == '.' {
            *pos = i + 1;
            Ok(Some(Token::Period))
        } else if c == ';' {
            *pos = i + 1;
            Ok(Some(Token::SemiColon))
        } else if c == ',' {
            *pos = i + 1;
            Ok(Some(Token::Comma))
        } else if c == ' ' {
            *pos = i + 1;
            Ok(Some(Token::Whitespace(Whitespace::Space)))
        } else if c == '\t' {
            *pos = i + 1;
            Ok(Some(Token::Whitespace(Whitespace::Tab)))
        } else if c == '\n' {
            *pos = i + 1;
            Ok(Some(Token::Whitespace(Whitespace::Newline)))
        } else if '0' <= c && c <= '9' {
            let mut end: usize = i + 1;
            while end < chars.len() && '0' <= chars[end] && chars[end] <= '9'
                invariant
                    i < end <= chars.len(),
                    digits_end(chars@, end as int) == digits_end(chars@, i + 1),
                decreases chars.len() - end,
            {
                end += 1;
            }
            *pos = end;
            Ok(Some(Token::Number(string_of(chars, i, end))))
        } else if c == '\'' {
            let mut end: usize = i + 1;
            while end < chars.len() && chars[end] != '\''
                invariant
                    i < end <= chars.len(),
                    quote_end(chars@, end as int) == quote_end(chars@, i + 1),
                decreases chars.len() - end,
            {
                end += 1;
            }
            let s = string_of(chars, i + 1, end);
            if end < chars.len() {
                *pos = end + 1;
            } else {
                *pos = end;
            }
            Ok(Some(Token::SingleQuotedString(s)))
        } else {
            let mut end: usize = i + 1;
            while end < chars.len() && !Self::is_word_end(chars[end])
                invariant
                    i < end <= chars.len(),
                    word_end(chars@, end as int) == word_end(chars@, i + 1),
                decreases chars.len() - end,
            {
                end += 1;
            }
            *pos = end;
            let word = string_of(chars, i, end);
            match Keyword::find(word.as_str()) {
                Some(keyword) => Ok(Some(Token::Keyword(keyword))),
                None => Ok(Some(Token::Word(word))),
            }
        }
    }

    fn is_word_end(c: char) -> (r: bool)
        ensures
            r == ends_word(c),
    {
        c == ',' || c == ' ' || c == '\n' || c == '\t' || c == '(' || c == ')'
    }
}

} // verus!
