//! The parser: from the tokens of a module to its statements.

use vstd::prelude::*;
use vstd::string::StringExecFns;
use crate::error::{CompilerError, ErrorKind, agrees, errors_view};
use crate::lexer::token::{Token, TokenView, tokens_view};
use crate::lexer::token_kind::TokenKind;
use crate::parser::ast::expr::{
    Expr, ExprView, exprs_view, fields_view, lemma_exprs_view_push, lemma_fields_view_push,
};
use crate::parser::ast::stmt::{
    KungBranch, Stmt, branches_view, lemma_branches_view_push, lemma_params_view_push,
    lemma_stmts_view_push, params_view, stmts_view,
};
use crate::parser::grammar::{PState, TypedName};
use crate::parser::module::Module;
use crate::text::{parse_usize, str_eq};
use crate::toltype::TolType;

pub mod ast;
pub mod expressions;
pub mod grammar;
pub mod module;
pub mod statements;

verus! {

pub struct Parser {
    parent_module: Module,
    errors: Vec<CompilerError>,
    current: usize,
    ast_id: usize,
}

/// The primitive type that a word names.
pub fn primitive_of(word: &str) -> (r: Option<TolType>)
    ensures
        r is Some <==> grammar::primitive_type(word@) is Some,
        r matches Some(t) ==> grammar::primitive_type(word@) == Some(t@),
{
    if str_eq(word, "i8") {
        Some(TolType::I8)
    } else if str_eq(word, "i16") {
        Some(TolType::I16)
    } else if str_eq(word, "i32") {
        Some(TolType::I32)
    } else if str_eq(word, "i64") {
        Some(TolType::I64)
    } else if str_eq(word, "isukat") {
        Some(TolType::ISukat)
    } else if str_eq(word, "u8") {
        Some(TolType::U8)
    } else if str_eq(word, "u16") {
        Some(TolType::U16)
    } else if str_eq(word, "u32") {
        Some(TolType::U32)
    } else if str_eq(word, "u64") {
        Some(TolType::U64)
    } else if str_eq(word, "usukat") {
        Some(TolType::USukat)
    } else if str_eq(word, "lutang") {
        Some(TolType::Lutang)
    } else if str_eq(word, "dobletang") {
        Some(TolType::DobleTang)
    } else if str_eq(word, "bool") {
        Some(TolType::Bool)
    } else if str_eq(word, "kar") {
        Some(TolType::Kar)
    } else if str_eq(word, "wala") {
        Some(TolType::Wala)
    } else {
        None
    }
}

/// Whether a statement can start with a token of this kind.
pub fn is_statement_start(kind: TokenKind) -> (b: bool)
    ensures
        b == grammar::starts_statement(kind),
{
    matches!(
        kind,
        TokenKind::Paraan | TokenKind::Ang | TokenKind::Ibalik | TokenKind::Bagay
            | TokenKind::Kung | TokenKind::At | TokenKind::Itupad | TokenKind::Sa
    )
}

/// Whether `kinds` holds `kind`.
pub fn holds_kind(kinds: &[TokenKind], kind: TokenKind) -> (b: bool)
    ensures
        b == kinds@.contains(kind),
{
    let mut i: usize = 0;
    while i < kinds.len()
        invariant
            0 <= i <= kinds.len(),
            forall|j: int| 0 <= j < i ==> kinds@[j] != kind,
        decreases kinds.len() - i,
    {
        if kinds[i] == kind {
            return true;
        }
        i = i + 1;
    }
    false
}

impl Parser {
    /// The module that the parser holds, which it hands back when it is done.
    pub closed spec fn module(&self) -> Module {
        self.parent_module
    }

    /// The tokens that are parsed.
    pub closed spec fn tokens(&self) -> Seq<TokenView> {
        tokens_view(self.parent_module.tokens@)
    }

    /// How far parsing has come.
    pub closed spec fn state(&self) -> PState {
        PState {
            pos: self.current as int,
            next_id: self.ast_id,
            errors: errors_view(self.errors@),
        }
    }

    /// The next token exists, and there are ids left for every node that
    /// the tokens from here on can make.
    pub closed spec fn wf(&self) -> bool {
        &&& self.current < self.parent_module.tokens.len()
        &&& self.slack() >= 0
    }

    /// How many ids are left beyond two for each token that is still to come.
    pub closed spec fn slack(&self) -> int {
        usize::MAX - self.ast_id - 2 * (self.parent_module.tokens.len() - self.current)
    }

    /// Whether this is a later state of the same parse as `before`.
    pub closed spec fn follows(&self, before: &Self) -> bool {
        &&& self.wf()
        &&& self.parent_module == before.parent_module
        &&& before.current <= self.current
    }

    pub fn new(parent_module: Module) -> (p: Self)
        ensures
            p.module() == parent_module,
            p.tokens() == tokens_view(parent_module.tokens@),
            p.state() == PState::start(),
    {
        let p = Parser { parent_module, errors: Vec::new(), current: 0, ast_id: 0 };
        assert(errors_view(p.errors@) =~= Seq::empty());
        p
    }

    fn is_at_end(&self) -> (b: bool)
        requires
            self.wf(),
        ensures
            b == self.state().at_end(self.tokens()),
    {
        self.current + 1 >= self.parent_module.tokens.len()
    }

    fn peek(&self) -> (t: &Token)
        requires
            self.wf(),
        ensures
            t@ == self.state().peek(self.tokens()),
    {
        &self.parent_module.tokens[self.current]
    }

    /// The kind of the next token; the last token counts as the end marker.
    fn kind(&self) -> (k: TokenKind)
        requires
            self.wf(),
        ensures
            k == self.state().kind(self.tokens()),
    {
        if self.is_at_end() {
            TokenKind::Eof
        } else {
            *self.peek().kind()
        }
    }

    fn advance(&mut self)
        requires
            old(self).wf(),
        ensures
            final(self).follows(old(self)),
            final(self).state() == old(self).state().advance(old(self).tokens()),
            final(self).slack() == old(self).slack() + 2 * (final(self).current - old(self).current),
    {
        if !self.is_at_end() {
            self.current = self.current + 1;
        }
    }

    /// Gives out the next id.
    fn fresh_id(&mut self) -> (id: usize)
        requires
            old(self).wf(),
            old(self).slack() >= 1,
        ensures
            final(self).follows(old(self)),
            id == old(self).state().next_id,
            final(self).state() == old(self).state().fresh(),
            final(self).current == old(self).current,
            final(self).slack() == old(self).slack() - 1,
    {
        let id = self.ast_id;
        self.ast_id = self.ast_id + 1;
        id
    }

    /// Records a diagnostic.
    fn report(&mut self, e: CompilerError)
        requires
            old(self).wf(),
        ensures
            final(self).follows(old(self)),
            final(self).state() == old(self).state().report(e@),
            final(self).current == old(self).current,
            final(self).slack() == old(self).slack(),
    {
        assert(errors_view(self.errors@.push(e)) =~= errors_view(self.errors@).push(e@));
        self.errors.push(e);
    }

    /// The diagnostic that names what was expected and the lexeme found.
    fn expect_err(&self, expected: &str) -> (e: CompilerError)
        requires
            self.wf(),
        ensures
            e@ == self.state().expect_err(self.tokens(), expected@),
    {
        let mut msg = String::new();
        msg.append("Umasa ng ");
        msg.append(expected);
        msg.append(" pero nakita ay ");
        msg.append(self.peek().lexeme());
        CompilerError::new(msg.as_str(), ErrorKind::Error, self.peek().line(), self.peek().column())
    }

    /// Passes the next token where it is of the given kind.
    fn consume(&mut self, expected_kind: TokenKind, err: CompilerError) -> (r: Result<
        Token,
        CompilerError,
    >)
        requires
            old(self).wf(),
        ensures
            final(self).follows(old(self)),
            agrees(
                r,
                old(self).state().consume(old(self).tokens(), expected_kind, err@).result,
                |t: Token| t@,
            ),
            final(self).state() == old(self).state().consume(
                old(self).tokens(),
                expected_kind,
                err@,
            ).state,
            r is Ok ==> final(self).current == old(self).current + 1,
            r is Err ==> final(self).current == old(self).current,
            final(self).slack() == old(self).slack() + 2 * (final(self).current - old(self).current),
    {
        if !self.is_at_end() && self.kind() == expected_kind {
            let t = self.peek().clone();
            self.advance();
            Ok(t)
        } else {
            Err(err)
        }
    }

    /// Passes the next token where it is of the given kind, and fails with
    /// the diagnostic that names `expected` where it is not.
    fn expect(&mut self, expected_kind: TokenKind, expected: &str) -> (r: Result<
        Token,
        CompilerError,
    >)
        requires
            old(self).wf(),
        ensures
            final(self).follows(old(self)),
            agrees(
                r,
                old(self).state().expect(old(self).tokens(), expected_kind, expected@).result,
                |t: Token| t@,
            ),
            final(self).state() == old(self).state().expect(
                old(self).tokens(),
                expected_kind,
                expected@,
            ).state,
            r is Ok ==> final(self).current == old(self).current + 1,
            r is Err ==> final(self).current == old(self).current,
            final(self).slack() == old(self).slack() + 2 * (final(self).current - old(self).current),
    {
        let err = self.expect_err(expected);
        self.consume(expected_kind, err)
    }

    /// Skips tokens up to the next one that starts a statement or is one of
    /// `end_tokens`.
    fn synchronize_until(&mut self, end_tokens: &[TokenKind])
        requires
            old(self).wf(),
        ensures
            final(self).follows(old(self)),
            final(self).state() == grammar::synchronize_until(
                old(self).tokens(),
                old(self).state(),
                end_tokens@,
            ),
            final(self).slack() >= old(self).slack(),
    {
        while !self.is_at_end() && !holds_kind(end_tokens, self.kind()) && !is_statement_start(
            self.kind(),
        )
            invariant
                self.follows(old(self)),
                self.slack() >= old(self).slack(),
                grammar::synchronize_until(self.tokens(), self.state(), end_tokens@)
                    == grammar::synchronize_until(
                    old(self).tokens(),
                    old(self).state(),
                    end_tokens@,
                ),
            decreases self.parent_module.tokens.len() - self.current,
        {
            self.advance();
        }
    }

    /// Recovery after a statement that failed: at least one token is
    /// skipped, then all up to where a statement may start.
    fn synchronize(&mut self)
        requires
            old(self).wf(),
        ensures
            final(self).follows(old(self)),
            final(self).state() == grammar::synchronize(old(self).tokens(), old(self).state()),
            final(self).slack() >= old(self).slack(),
            !old(self).state().at_end(old(self).tokens()) ==> final(self).current > old(
                self,
            ).current,
    {
        if self.is_at_end() {
            return ;
        }
        self.advance();
        while !self.is_at_end() && !self.after_statement_end() && !is_statement_start(self.kind())
            invariant
                self.follows(old(self)),
                self.current > old(self).current,
                self.slack() >= old(self).slack(),
                grammar::sync_loop(self.tokens(), self.state()) == grammar::sync_loop(
                    old(self).tokens(),
                    old(self).state().advance(old(self).tokens()),
                ),
            decreases self.parent_module.tokens.len() - self.current,
        {
            self.advance();
        }
    }

    /// Whether the token just passed is a `;` or a `}`.
    fn after_statement_end(&self) -> (b: bool)
        requires
            self.wf(),
        ensures
            b == (self.state().pos < 1 || self.tokens()[self.state().pos - 1].kind
                == TokenKind::SemiColon || self.tokens()[self.state().pos - 1].kind
                == TokenKind::RightBrace),
    {
        if self.current < 1 {
            return true;
        }
        let previous = &self.parent_module.tokens[self.current - 1];
        matches!(previous.kind(), TokenKind::SemiColon | TokenKind::RightBrace)
    }

    /// The length between the brackets of an array type, if one is written.
    fn parse_array_length(&mut self) -> (r: Result<Option<usize>, CompilerError>)
        requires
            old(self).wf(),
        ensures
            final(self).follows(old(self)),
            agrees(
                r,
                grammar::parse_array_length(old(self).tokens(), old(self).state()).result,
                |n: Option<usize>| n,
            ),
            final(self).state() == grammar::parse_array_length(
                old(self).tokens(),
                old(self).state(),
            ).state,
            final(self).slack() == old(self).slack() + 2 * (final(self).current - old(self).current),
    {
        if self.kind() == TokenKind::RightBracket {
            return Ok(None);
        }
        let err = self.expect_err("literal na integer").add_note(
            "Literal na integer lang ang pwede sa loob ng []",
        );
        match self.consume(TokenKind::IntLit, err) {
            Err(e) => Err(e),
            Ok(int_lit) => match parse_usize(int_lit.lexeme()) {
                Some(val) => Ok(Some(val)),
                None => {
                    let mut msg = String::new();
                    msg.append("Nabigong gawing `usukat` ang ");
                    msg.append(int_lit.lexeme());
                    Err(
                        CompilerError::new(
                            msg.as_str(),
                            ErrorKind::Error,
                            int_lit.line(),
                            int_lit.column(),
                        ).add_note("Siguraduhing hindi ito negatibong numero"),
                    )
                },
            },
        }
    }

    fn parse_type(&mut self) -> (r: Result<TolType, CompilerError>)
        requires
            old(self).wf(),
        ensures
            final(self).follows(old(self)),
            agrees(
                r,
                grammar::parse_type(old(self).tokens(), old(self).state()).result,
                |t: TolType| t@,
            ),
            final(self).state() == grammar::parse_type(old(self).tokens(), old(self).state()).state,
            r is Ok ==> final(self).current > old(self).current,
            final(self).slack() == old(self).slack() + 2 * (final(self).current - old(self).current),
        decreases old(self).parent_module.tokens.len() - old(self).current,
    {
        if self.is_at_end() {
            return Err(self.expect_err("tipo"));
        }
        let word = self.peek().clone();
        self.advance();
        match primitive_of(word.lexeme()) {
            Some(t) => {
                return Ok(t);
            },
            None => {},
        }
        if str_eq(word.lexeme(), "[") {
            let len = match self.parse_array_length() {
                Err(e) => {
                    return Err(e);
                },
                Ok(n) => n,
            };
            match self.expect(TokenKind::RightBracket, "`]`") {
                Err(e) => {
                    return Err(e);
                },
                Ok(_) => {},
            }
            match self.parse_type() {
                Err(e) => Err(e),
                Ok(elem_type) => Ok(TolType::Array(Box::new(elem_type), len)),
            }
        } else if str_eq(word.lexeme(), "*") {
            if self.kind() == TokenKind::Maiba {
                self.advance();
                match self.parse_type() {
                    Err(e) => Err(e),
                    Ok(right_type) => Ok(TolType::MutablePointer(Box::new(right_type))),
                }
            } else {
                match self.parse_type() {
                    Err(e) => Err(e),
                    Ok(right_type) => Ok(TolType::Pointer(Box::new(right_type))),
                }
            }
        } else {
            Ok(TolType::UnknownIdentifier(word.lexeme().to_owned()))
        }
    }
}

impl Parser {
    /// One parameter, with the `,` after it where there is one.
    fn parse_param(&mut self) -> (r: Result<(Token, TolType), CompilerError>)
        requires
            old(self).wf(),
        ensures
            final(self).follows(old(self)),
            agrees(
                r,
                grammar::parse_param(old(self).tokens(), old(self).state()).result,
                |p: (Token, TolType)| (p.0@, p.1@),
            ),
            final(self).state() == grammar::parse_param(old(self).tokens(), old(self).state()).state,
            r is Ok ==> final(self).current > old(self).current,
            final(self).slack() == old(self).slack() + 2 * (final(self).current - old(self).current),
    {
        let param_identifier = match self.expect(TokenKind::Identifier, "pangalan") {
            Err(e) => {
                return Err(e);
            },
            Ok(t) => t,
        };
        let colon_err = self.expect_err("`:`").add_help("Lagyan mo ng `:` dito").add_note(
            "Ang `:` ay ginagamit sa pag hiwalay ng tipo sa maiiba",
        );
        match self.consume(TokenKind::Colon, colon_err) {
            Err(e) => {
                return Err(e);
            },
            Ok(_) => {},
        }
        let param_type = match self.parse_type() {
            Err(e) => {
                return Err(e);
            },
            Ok(t) => t,
        };
        if self.kind() == TokenKind::Comma {
            self.advance();
        } else if self.kind() != TokenKind::RightParen {
            return Err(
                CompilerError::new(
                    "Hindi naisarado ang `(` o hindi mo nilagyan ng `,`",
                    ErrorKind::Error,
                    self.peek().line(),
                    self.peek().column(),
                ).add_note(
                    "Ang `)` ay ginagamit sa pagsarado ng mga parameter, ang `,` naman ay ginagamit para ihiwalay ang mga parameter",
                ),
            );
        }
        Ok((param_identifier, param_type))
    }

    /// One field of a record, with the `,` after it where there is one.
    fn parse_field(&mut self) -> (r: Result<(Token, TolType), CompilerError>)
        requires
            old(self).wf(),
        ensures
            final(self).follows(old(self)),
            agrees(
                r,
                grammar::parse_field(old(self).tokens(), old(self).state()).result,
                |p: (Token, TolType)| (p.0@, p.1@),
            ),
            final(self).state() == grammar::parse_field(old(self).tokens(), old(self).state()).state,
            r is Ok ==> final(self).current > old(self).current,
            final(self).slack() == old(self).slack() + 2 * (final(self).current - old(self).current),
    {
        let field_id = match self.expect(TokenKind::Identifier, "pangalan") {
            Err(e) => {
                return Err(e);
            },
            Ok(t) => t,
        };
        match self.expect(TokenKind::Colon, "`:`") {
            Err(e) => {
                return Err(e);
            },
            Ok(_) => {},
        }
        let field_type = match self.parse_type() {
            Err(e) => {
                return Err(e);
            },
            Ok(t) => t,
        };
        if self.kind() == TokenKind::Comma {
            self.advance();
        } else if self.kind() != TokenKind::RightBrace {
            let mut msg = String::new();
            msg.append("Umaaasa ng `,` o `}` pero nakita ay `");
            msg.append(self.peek().lexeme());
            msg.append("`");
            return Err(
                CompilerError::new(
                    msg.as_str(),
                    ErrorKind::Error,
                    self.peek().line(),
                    self.peek().column(),
                ),
            );
        }
        Ok((field_id, field_type))
    }

    /// A parameter list, from after the `(` to before the `)`.
    fn parse_params(&mut self) -> (r: Result<Vec<(Token, TolType)>, CompilerError>)
        requires
            old(self).wf(),
        ensures
            final(self).follows(old(self)),
            agrees(
                r,
                grammar::parse_params(old(self).tokens(), old(self).state()).result,
                |v: Vec<(Token, TolType)>| params_view(v@),
            ),
            final(self).state() == grammar::parse_params(old(self).tokens(), old(self).state()).state,
            r is Ok ==> final(self).state().kind(final(self).tokens()) == TokenKind::RightParen,
            final(self).slack() == old(self).slack() + 2 * (final(self).current - old(self).current),
    {
        let mut params: Vec<(Token, TolType)> = Vec::new();
        assert(params_view(params@) =~= Seq::empty());
        if !self.is_at_end() && str_eq(self.peek().lexeme(), "ako") {
            let ako = self.peek().clone();
            self.advance();
            proof {
                lemma_params_view_push(params@, ako, TolType::AkoType);
            }
            params.push((ako, TolType::AkoType));
            assert(params_view(params@) =~= seq![(ako@, crate::toltype::TolTypeView::AkoType)]);
        }
        if self.kind() == TokenKind::Comma {
            self.advance();
        }
        let ghost goal = grammar::parse_params(old(self).tokens(), old(self).state());
        while self.kind() != TokenKind::RightParen
            invariant
                self.follows(old(self)),
                self.slack() == old(self).slack() + 2 * (self.current - old(self).current),
                goal == grammar::parse_params(old(self).tokens(), old(self).state()),
                goal == grammar::params_loop(self.tokens(), self.state(), params_view(params@)),
            decreases self.parent_module.tokens.len() - self.current,
        {
            let ghost before = params@;
            match self.parse_param() {
                Err(e) => {
                    return Err(e);
                },
                Ok(p) => {
                    proof {
                        lemma_params_view_push(before, p.0, p.1);
                    }
                    params.push(p);
                },
            }
        }
        Ok(params)
    }

    /// The fields of a record, braces included.
    fn parse_bagay_fields(&mut self) -> (r: Result<Vec<(Token, TolType)>, CompilerError>)
        requires
            old(self).wf(),
        ensures
            final(self).follows(old(self)),
            agrees(
                r,
                grammar::parse_bagay_fields(old(self).tokens(), old(self).state()).result,
                |v: Vec<(Token, TolType)>| params_view(v@),
            ),
            final(self).state() == grammar::parse_bagay_fields(
                old(self).tokens(),
                old(self).state(),
            ).state,
            r is Ok ==> final(self).current > old(self).current,
            final(self).slack() == old(self).slack() + 2 * (final(self).current - old(self).current),
    {
        match self.expect(TokenKind::LeftBrace, "`{`") {
            Err(e) => {
                return Err(e);
            },
            Ok(_) => {},
        }
        let mut fields: Vec<(Token, TolType)> = Vec::new();
        assert(params_view(fields@) =~= Seq::empty());
        let ghost goal = grammar::fields_loop(self.tokens(), self.state(), Seq::empty());
        let ghost whole = grammar::parse_bagay_fields(old(self).tokens(), old(self).state());
        assert(whole == (match goal.result {
            Err(e) => grammar::fail::<Seq<TypedName>>(e, goal.state),
            Ok(f) => grammar::ok(f, goal.state.advance(self.tokens())),
        }));
        while self.kind() != TokenKind::RightBrace
            invariant
                self.follows(old(self)),
                self.current > old(self).current,
                whole == grammar::parse_bagay_fields(old(self).tokens(), old(self).state()),
                whole == (match goal.result {
                    Err(e) => grammar::fail::<Seq<TypedName>>(e, goal.state),
                    Ok(f) => grammar::ok(f, goal.state.advance(self.tokens())),
                }),
                self.slack() == old(self).slack() + 2 * (self.current - old(self).current),
                goal == grammar::fields_loop(self.tokens(), self.state(), params_view(fields@)),
            decreases self.parent_module.tokens.len() - self.current,
        {
            let ghost before = fields@;
            match self.parse_field() {
                Err(e) => {
                    return Err(e);
                },
                Ok(p) => {
                    proof {
                        lemma_params_view_push(before, p.0, p.1);
                    }
                    fields.push(p);
                },
            }
        }
        self.advance();
        Ok(fields)
    }
}

/// How tightly an operator binds; 0 for what is no operator.
pub fn binding_power_of(kind: TokenKind) -> (p: i32)
    ensures
        p == expressions::binding_power(kind),
{
    match kind {
        TokenKind::Equal => 1,
        TokenKind::DotDot | TokenKind::DotDotEqual => 2,
        TokenKind::Plus | TokenKind::Minus => 3,
        TokenKind::Star | TokenKind::Slash => 4,
        TokenKind::Dot | TokenKind::ColonColon => 5,
        TokenKind::LeftParen | TokenKind::Bang => 6,
        _ => 0,
    }
}

/// The binding power that the right operand of an operator is parsed with.
pub fn right_power_of(kind: TokenKind) -> (p: i32)
    ensures
        p == expressions::right_power(kind),
{
    match kind {
        TokenKind::Equal => binding_power_of(kind) - 1,
        _ => binding_power_of(kind),
    }
}

impl Parser {
    /// An expression whose operators all bind more tightly than `precedence`.
    fn parse_expression(&mut self, precedence: i32) -> (r: Result<Expr, CompilerError>)
        requires
            old(self).wf(),
        ensures
            final(self).follows(old(self)),
            agrees(
                r,
                expressions::parse_expression(
                    old(self).tokens(),
                    old(self).state(),
                    precedence as int,
                ).result,
                |e: Expr| e@,
            ),
            final(self).state() == expressions::parse_expression(
                old(self).tokens(),
                old(self).state(),
                precedence as int,
            ).state,
            r is Ok ==> final(self).current > old(self).current,
            final(self).slack() >= old(self).slack() + (final(self).current - old(self).current),
        decreases old(self).parent_module.tokens.len() - old(self).current, 1nat,
    {
        let mut left = match self.nud() {
            Err(e) => {
                return Err(e);
            },
            Ok(e) => e,
        };
        let ghost goal = expressions::parse_expression(
            old(self).tokens(),
            old(self).state(),
            precedence as int,
        );
        while !self.is_at_end() && binding_power_of(*self.peek().kind()) > precedence
            invariant
                self.follows(old(self)),
                self.current > old(self).current,
                self.slack() >= old(self).slack() + (self.current - old(self).current),
                goal == expressions::parse_expression(
                    old(self).tokens(),
                    old(self).state(),
                    precedence as int,
                ),
                goal == expressions::expr_loop(
                    self.tokens(),
                    self.state(),
                    left@,
                    precedence as int,
                ),
            decreases self.parent_module.tokens.len() - self.current,
        {
            let op = self.peek().clone();
            self.advance();
            match self.led(&op, left) {
                Err(e) => {
                    return Err(e);
                },
                Ok(e) => {
                    left = e;
                },
            }
        }
        Ok(left)
    }

    /// An expression that starts with a token of its own.
    fn nud(&mut self) -> (r: Result<Expr, CompilerError>)
        requires
            old(self).wf(),
        ensures
            final(self).follows(old(self)),
            agrees(r, expressions::nud(old(self).tokens(), old(self).state()).result, |e: Expr| e@),
            final(self).state() == expressions::nud(old(self).tokens(), old(self).state()).state,
            r is Ok ==> final(self).current > old(self).current,
            final(self).slack() >= old(self).slack() + (final(self).current - old(self).current),
        decreases old(self).parent_module.tokens.len() - old(self).current, 0nat,
    {
        if self.is_at_end() {
            return Err(self.expect_err("expresyon"));
        }
        let current_tok = self.peek().clone();
        let kind = *current_tok.kind();
        if kind == TokenKind::IntLit {
            self.advance();
            let id = self.fresh_id();
            Ok(Expr::IntLit { token: current_tok, id })
        } else if kind == TokenKind::FloatLit {
            self.advance();
            let id = self.fresh_id();
            Ok(Expr::FloatLit { token: current_tok, id })
        } else if kind == TokenKind::StringLit {
            self.advance();
            let id = self.fresh_id();
            Ok(Expr::StringLit { token: current_tok, id })
        } else if kind == TokenKind::ByteStringLit {
            self.advance();
            let id = self.fresh_id();
            Ok(Expr::ByteStringLit { token: current_tok, id })
        } else if kind == TokenKind::Identifier {
            self.advance();
            let id = self.fresh_id();
            Ok(Expr::Identifier { token: current_tok, id })
        } else if kind == TokenKind::LeftParen {
            self.advance();
            let expr = match self.parse_expression(0) {
                Err(e) => {
                    return Err(e);
                },
                Ok(e) => e,
            };
            let err = self.expect_err("`)`").add_help("Lagyan mo ng `)`");
            match self.consume(TokenKind::RightParen, err) {
                Err(e) => Err(e),
                Ok(_) => Ok(expr),
            }
        } else if kind == TokenKind::At {
            self.advance();
            let name = self.peek().clone();
            self.advance();
            match self.expect(TokenKind::LeftParen, "`(`") {
                Err(e) => {
                    return Err(e);
                },
                Ok(_) => {},
            }
            let args = match self.parse_args(name.line(), name.column()) {
                Err(e) => {
                    return Err(e);
                },
                Ok(a) => a,
            };
            let id = self.fresh_id();
            Ok(Expr::MagicFnCall { name, args, id })
        } else if kind == TokenKind::Amper {
            self.advance();
            if self.kind() == TokenKind::Maiba {
                self.advance();
                let right = match self.parse_expression(0) {
                    Err(e) => {
                        return Err(e);
                    },
                    Ok(e) => e,
                };
                let id = self.fresh_id();
                Ok(
                    Expr::MutableAddressOf {
                        of: Box::new(right),
                        line: current_tok.line(),
                        column: current_tok.column(),
                        id,
                    },
                )
            } else {
                let right = match self.parse_expression(0) {
                    Err(e) => {
                        return Err(e);
                    },
                    Ok(e) => e,
                };
                let id = self.fresh_id();
                Ok(
                    Expr::AddressOf {
                        of: Box::new(right),
                        line: current_tok.line(),
                        column: current_tok.column(),
                        id,
                    },
                )
            }
        } else if kind == TokenKind::Star {
            self.advance();
            let right = match self.parse_expression(0) {
                Err(e) => {
                    return Err(e);
                },
                Ok(e) => e,
            };
            let id = self.fresh_id();
            Ok(
                Expr::Deref {
                    right: Box::new(right),
                    line: current_tok.line(),
                    column: current_tok.column(),
                    id,
                },
            )
        } else if kind == TokenKind::LeftBracket {
            self.advance();
            let elements = match self.parse_list(TokenKind::RightBracket, "`]` o `,`") {
                Err(e) => {
                    return Err(e);
                },
                Ok(v) => v,
            };
            match self.expect(TokenKind::RightBracket, "`}`") {
                Err(e) => {
                    return Err(e);
                },
                Ok(_) => {},
            }
            let id = self.fresh_id();
            Ok(
                Expr::Array {
                    elements,
                    line: current_tok.line(),
                    column: current_tok.column(),
                    id,
                },
            )
        } else {
            Err(self.expect_err("expresyon"))
        }
    }

    /// Expressions with `,` between them, up to `close` or the end of the
    /// tokens.
    fn parse_list(&mut self, close: TokenKind, expected: &str) -> (r: Result<
        Vec<Expr>,
        CompilerError,
    >)
        requires
            old(self).wf(),
        ensures
            final(self).follows(old(self)),
            agrees(
                r,
                expressions::list_loop(
                    old(self).tokens(),
                    old(self).state(),
                    Seq::empty(),
                    close,
                    expected@,
                ).result,
                |v: Vec<Expr>| exprs_view(v@),
            ),
            final(self).state() == expressions::list_loop(
                old(self).tokens(),
                old(self).state(),
                Seq::empty(),
                close,
                expected@,
            ).state,
            final(self).slack() >= old(self).slack() + (final(self).current - old(self).current),
        decreases old(self).parent_module.tokens.len() - old(self).current, 2nat,
    {
        let mut items: Vec<Expr> = Vec::new();
        assert(exprs_view(items@) =~= Seq::empty());
        let ghost goal = expressions::list_loop(
            old(self).tokens(),
            old(self).state(),
            Seq::empty(),
            close,
            expected@,
        );
        let mut done = false;
        while !done && !self.is_at_end() && self.kind() != close
            invariant
                self.follows(old(self)),
                self.slack() >= old(self).slack() + (self.current - old(self).current),
                goal == expressions::list_loop(
                    old(self).tokens(),
                    old(self).state(),
                    Seq::empty(),
                    close,
                    expected@,
                ),
                done ==> goal == grammar::ok(exprs_view(items@), self.state()),
                !done ==> goal == expressions::list_loop(
                    self.tokens(),
                    self.state(),
                    exprs_view(items@),
                    close,
                    expected@,
                ),
            decreases self.parent_module.tokens.len() - self.current, if done { 0nat } else { 1nat },
        {
            let ghost before = items@;
            match self.parse_expression(0) {
                Err(e) => {
                    return Err(e);
                },
                Ok(e) => {
                    proof {
                        lemma_exprs_view_push(before, e);
                    }
                    items.push(e);
                },
            }
            if self.kind() == TokenKind::Comma {
                self.advance();
            } else if self.kind() != close {
                return Err(self.expect_err(expected));
            } else {
                done = true;
            }
        }
        Ok(items)
    }

    /// The arguments of a call, from after the `(` to after the `)`.
    fn parse_args(&mut self, line: usize, column: usize) -> (r: Result<Vec<Expr>, CompilerError>)
        requires
            old(self).wf(),
        ensures
            final(self).follows(old(self)),
            agrees(
                r,
                expressions::parse_args(old(self).tokens(), old(self).state(), line, column).result,
                |v: Vec<Expr>| exprs_view(v@),
            ),
            final(self).state() == expressions::parse_args(
                old(self).tokens(),
                old(self).state(),
                line,
                column,
            ).state,
            r is Ok ==> final(self).current > old(self).current,
            final(self).slack() >= old(self).slack() + (final(self).current - old(self).current),
        decreases old(self).parent_module.tokens.len() - old(self).current, 3nat,
    {
        let args = match self.parse_list(TokenKind::RightParen, "`,` o `)`") {
            Err(e) => {
                return Err(e);
            },
            Ok(a) => a,
        };
        if self.is_at_end() {
            return Err(
                CompilerError::new("Ang `(` ay di naisarado", ErrorKind::Error, line, column),
            );
        }
        match self.expect(TokenKind::RightParen, "`)`") {
            Err(e) => Err(e),
            Ok(_) => Ok(args),
        }
    }

    /// What an operator makes of the expression to its left.
    fn led(&mut self, op: &Token, left: Expr) -> (r: Result<Expr, CompilerError>)
        requires
            old(self).wf(),
            old(self).slack() >= 1,
        ensures
            final(self).follows(old(self)),
            agrees(
                r,
                expressions::led(old(self).tokens(), old(self).state(), op@, left@).result,
                |e: Expr| e@,
            ),
            final(self).state() == expressions::led(
                old(self).tokens(),
                old(self).state(),
                op@,
                left@,
            ).state,
            final(self).slack() >= old(self).slack() - 1 + (final(self).current - old(
                self,
            ).current),
        decreases old(self).parent_module.tokens.len() - old(self).current, 5nat,
    {
        let kind = *op.kind();
        if kind == TokenKind::Dot {
            self.parse_member_access(left)
        } else if kind == TokenKind::LeftParen {
            self.parse_fncall(left, op.line(), op.column())
        } else if kind == TokenKind::Bang {
            self.parse_struct_expr(left, op.line(), op.column())
        } else if kind == TokenKind::ColonColon {
            self.parse_scope_resolution(left, op.line(), op.column())
        } else {
            let right = match self.parse_expression(right_power_of(kind)) {
                Err(e) => {
                    return Err(e);
                },
                Ok(e) => e,
            };
            let id = self.fresh_id();
            if kind == TokenKind::DotDot {
                Ok(
                    Expr::RangeExclusive {
                        start: Box::new(left),
                        end: Box::new(right),
                        line: op.line(),
                        column: op.column(),
                        id,
                    },
                )
            } else if kind == TokenKind::DotDotEqual {
                Ok(
                    Expr::RangeInclusive {
                        start: Box::new(left),
                        end: Box::new(right),
                        line: op.line(),
                        column: op.column(),
                        id,
                    },
                )
            } else if kind == TokenKind::Equal {
                Ok(
                    Expr::Assign {
                        left: Box::new(left),
                        right: Box::new(right),
                        line: op.line(),
                        column: op.column(),
                        id,
                    },
                )
            } else {
                Ok(Expr::Binary { op: op.clone(), left: Box::new(left), right: Box::new(right), id })
            }
        }
    }

    /// `left.member`, from after the `.`.
    fn parse_member_access(&mut self, left: Expr) -> (r: Result<Expr, CompilerError>)
        requires
            old(self).wf(),
            old(self).slack() >= 1,
        ensures
            final(self).follows(old(self)),
            agrees(
                r,
                expressions::parse_member_access(old(self).tokens(), old(self).state(), left@).result,
                |e: Expr| e@,
            ),
            final(self).state() == expressions::parse_member_access(
                old(self).tokens(),
                old(self).state(),
                left@,
            ).state,
            final(self).slack() >= old(self).slack() - 1 + (final(self).current - old(
                self,
            ).current),
    {
        let id = self.fresh_id();
        match self.expect(TokenKind::Identifier, "pangalan") {
            Err(e) => Err(e),
            Ok(member) => {
                let line = member.line();
                let column = member.column();
                Ok(Expr::MemberAccess { left: Box::new(left), member, line, column, id })
            },
        }
    }

    /// `left::field`, from after the `::`.
    fn parse_scope_resolution(&mut self, left: Expr, line: usize, column: usize) -> (r: Result<
        Expr,
        CompilerError,
    >)
        requires
            old(self).wf(),
            old(self).slack() >= 1,
        ensures
            final(self).follows(old(self)),
            agrees(
                r,
                expressions::parse_scope_resolution(
                    old(self).tokens(),
                    old(self).state(),
                    left@,
                    line,
                    column,
                ).result,
                |e: Expr| e@,
            ),
            final(self).state() == expressions::parse_scope_resolution(
                old(self).tokens(),
                old(self).state(),
                left@,
                line,
                column,
            ).state,
            final(self).slack() >= old(self).slack() - 1 + (final(self).current - old(
                self,
            ).current),
    {
        match self.expect(TokenKind::Identifier, "pangalan") {
            Err(e) => Err(e),
            Ok(field) => {
                let id = self.fresh_id();
                Ok(Expr::ScopeResolution { left: Box::new(left), field, line, column, id })
            },
        }
    }

    /// `callee(args)`, from after the `(`.
    fn parse_fncall(&mut self, callee: Expr, line: usize, column: usize) -> (r: Result<
        Expr,
        CompilerError,
    >)
        requires
            old(self).wf(),
            old(self).slack() >= 1,
        ensures
            final(self).follows(old(self)),
            agrees(
                r,
                expressions::parse_fncall(
                    old(self).tokens(),
                    old(self).state(),
                    callee@,
                    line,
                    column,
                ).result,
                |e: Expr| e@,
            ),
            final(self).state() == expressions::parse_fncall(
                old(self).tokens(),
                old(self).state(),
                callee@,
                line,
                column,
            ).state,
            final(self).slack() >= old(self).slack() - 1 + (final(self).current - old(
                self,
            ).current),
        decreases old(self).parent_module.tokens.len() - old(self).current, 4nat,
    {
        let args = match self.parse_args(line, column) {
            Err(e) => {
                return Err(e);
            },
            Ok(a) => a,
        };
        let id = self.fresh_id();
        Ok(Expr::FnCall { callee: Box::new(callee), args, line, column, id })
    }

    /// `callee!(name: value, ..)`, from after the `!`.
    fn parse_struct_expr(&mut self, callee: Expr, line: usize, column: usize) -> (r: Result<
        Expr,
        CompilerError,
    >)
        requires
            old(self).wf(),
            old(self).slack() >= 1,
        ensures
            final(self).follows(old(self)),
            agrees(
                r,
                expressions::parse_struct_expr(
                    old(self).tokens(),
                    old(self).state(),
                    callee@,
                    line,
                    column,
                ).result,
                |e: Expr| e@,
            ),
            final(self).state() == expressions::parse_struct_expr(
                old(self).tokens(),
                old(self).state(),
                callee@,
                line,
                column,
            ).state,
            final(self).slack() >= old(self).slack() - 1 + (final(self).current - old(
                self,
            ).current),
        decreases old(self).parent_module.tokens.len() - old(self).current, 4nat,
    {
        match self.expect(TokenKind::LeftParen, "`(`") {
            Err(e) => {
                return Err(e);
            },
            Ok(_) => {},
        }
        let mut fields: Vec<(Token, Expr)> = Vec::new();
        assert(fields_view(fields@) =~= Seq::empty());
        let ghost goal = expressions::struct_loop(self.tokens(), self.state(), Seq::empty());
        let ghost whole = expressions::parse_struct_expr(
            old(self).tokens(),
            old(self).state(),
            callee@,
            line,
            column,
        );
        let mut done = false;
        while !done && self.kind() != TokenKind::RightParen
            invariant
                self.follows(old(self)),
                self.current > old(self).current,
                whole == expressions::parse_struct_expr(
                    old(self).tokens(),
                    old(self).state(),
                    callee@,
                    line,
                    column,
                ),
                goal.result is Err ==> whole == grammar::fail::<ExprView>(
                    goal.result->Err_0,
                    goal.state,
                ),
                self.slack() >= old(self).slack() + (self.current - old(self).current),
                done ==> goal == grammar::ok(fields_view(fields@), self.state()),
                !done ==> goal == expressions::struct_loop(
                    self.tokens(),
                    self.state(),
                    fields_view(fields@),
                ),
            decreases self.parent_module.tokens.len() - self.current, if done { 0nat } else { 1nat },
        {
            let field_name = match self.expect(TokenKind::Identifier, "pangalan") {
                Err(e) => {
                    return Err(e);
                },
                Ok(t) => t,
            };
            match self.expect(TokenKind::Colon, "`:`") {
                Err(e) => {
                    return Err(e);
                },
                Ok(_) => {},
            }
            let field_expr = match self.parse_expression(0) {
                Err(e) => {
                    return Err(e);
                },
                Ok(e) => e,
            };
            proof {
                lemma_fields_view_push(fields@, field_name, field_expr);
            }
            if self.kind() == TokenKind::Comma {
                self.advance();
            } else if self.kind() != TokenKind::RightParen {
                return Err(self.expect_err("`}` o `,`"));
            } else {
                done = true;
            }
            fields.push((field_name, field_expr));
        }
        if self.is_at_end() {
            return Err(
                CompilerError::new("Ang `(` ay di naisarado", ErrorKind::Error, line, column),
            );
        }
        match self.expect(TokenKind::RightParen, "`)`") {
            Err(e) => {
                return Err(e);
            },
            Ok(_) => {},
        }
        let id = self.fresh_id();
        Ok(Expr::Struct { callee: Box::new(callee), fields, line, column, id })
    }
}

impl Parser {
    /// One statement, with the `;` where one has to end it.
    fn parse_statement(&mut self) -> (r: Result<Stmt, CompilerError>)
        requires
            old(self).wf(),
        ensures
            final(self).follows(old(self)),
            agrees(
                r,
                statements::parse_statement(old(self).tokens(), old(self).state()).result,
                |s: Stmt| s@,
            ),
            final(self).state() == statements::parse_statement(
                old(self).tokens(),
                old(self).state(),
            ).state,
            r is Ok ==> final(self).current > old(self).current,
            final(self).slack() >= old(self).slack(),
        decreases old(self).parent_module.tokens.len() - old(self).current, 10nat,
    {
        let kind = self.kind();
        if kind == TokenKind::Paraan {
            self.parse_par()
        } else if kind == TokenKind::Bagay {
            self.parse_bagay()
        } else if kind == TokenKind::Itupad {
            self.parse_itupad()
        } else if kind == TokenKind::Kung {
            self.parse_kung()
        } else if kind == TokenKind::Sa {
            self.parse_sa()
        } else {
            let inner = if kind == TokenKind::Ang {
                self.parse_ang()
            } else if kind == TokenKind::Ibalik {
                self.parse_ibalik()
            } else {
                self.parse_expr_stmt()
            };
            match inner {
                Err(e) => Err(e),
                Ok(stmt) => match self.expect(TokenKind::SemiColon, "`;`") {
                    Err(e) => Err(e),
                    Ok(_) => Ok(stmt),
                },
            }
        }
    }

    /// The return type that may stand between the parameters and the body.
    fn parse_return_type(&mut self) -> (r: Result<TolType, CompilerError>)
        requires
            old(self).wf(),
        ensures
            final(self).follows(old(self)),
            agrees(
                r,
                statements::parse_return_type(old(self).tokens(), old(self).state()).result,
                |t: TolType| t@,
            ),
            final(self).state() == statements::parse_return_type(
                old(self).tokens(),
                old(self).state(),
            ).state,
            final(self).slack() == old(self).slack() + 2 * (final(self).current - old(self).current),
    {
        if self.kind() == TokenKind::ThinArrow {
            self.advance();
        }
        if self.kind() != TokenKind::LeftBrace {
            self.parse_type()
        } else {
            Ok(TolType::Wala)
        }
    }

    /// `paraan name(params) [type] { .. }`.
    fn parse_par(&mut self) -> (r: Result<Stmt, CompilerError>)
        requires
            old(self).wf(),
        ensures
            final(self).follows(old(self)),
            agrees(
                r,
                statements::parse_par(old(self).tokens(), old(self).state()).result,
                |s: Stmt| s@,
            ),
            final(self).state() == statements::parse_par(old(self).tokens(), old(self).state()).state,
            r is Ok ==> final(self).current > old(self).current,
            final(self).slack() >= old(self).slack(),
        decreases old(self).parent_module.tokens.len() - old(self).current, 5nat,
    {
        let par_tok = match self.expect(TokenKind::Paraan, "par") {
            Err(e) => {
                return Err(e);
            },
            Ok(t) => t,
        };
        let par_identifier = match self.expect(TokenKind::Identifier, "pangalan") {
            Err(e) => {
                return Err(e);
            },
            Ok(t) => t,
        };
        let open_err = self.expect_err("`(`").add_help(
            "Lagyan mo ng `(` dito para simulan ang pag deklara ng mga parameter",
        );
        match self.consume(TokenKind::LeftParen, open_err) {
            Err(e) => {
                return Err(e);
            },
            Ok(_) => {},
        }
        let params = match self.parse_params() {
            Err(e) => {
                return Err(e);
            },
            Ok(p) => p,
        };
        let close_err = self.expect_err("`)`").add_help(
            "Lagyan mo ng `)` para tapusin ang listahan ng parameter",
        );
        match self.consume(TokenKind::RightParen, close_err) {
            Err(e) => {
                return Err(e);
            },
            Ok(_) => {},
        }
        let return_type = match self.parse_return_type() {
            Err(e) => {
                return Err(e);
            },
            Ok(t) => t,
        };
        let block = match self.parse_block() {
            Err(e) => {
                return Err(e);
            },
            Ok(b) => b,
        };
        let id = self.fresh_id();
        Ok(
            Stmt::Par {
                par_identifier,
                params,
                return_type,
                block: Box::new(block),
                line: par_tok.line(),
                column: par_tok.column(),
                id,
            },
        )
    }

    /// A method inside an `itupad` block.
    fn parse_method(&mut self) -> (r: Result<Stmt, CompilerError>)
        requires
            old(self).wf(),
        ensures
            final(self).follows(old(self)),
            agrees(
                r,
                statements::parse_method(old(self).tokens(), old(self).state()).result,
                |s: Stmt| s@,
            ),
            final(self).state() == statements::parse_method(
                old(self).tokens(),
                old(self).state(),
            ).state,
            r is Ok ==> final(self).current > old(self).current,
            final(self).slack() >= old(self).slack(),
        decreases old(self).parent_module.tokens.len() - old(self).current, 5nat,
    {
        let par_tok = match self.expect(TokenKind::Paraan, "`paraan`") {
            Err(e) => {
                return Err(e);
            },
            Ok(t) => t,
        };
        let met_identifier = match self.expect(TokenKind::Identifier, "pangalan") {
            Err(e) => {
                return Err(e);
            },
            Ok(t) => t,
        };
        match self.expect(TokenKind::LeftParen, "`(`") {
            Err(e) => {
                return Err(e);
            },
            Ok(_) => {},
        }
        let is_static = !(!self.is_at_end() && str_eq(self.peek().lexeme(), "ako"));
        let params = match self.parse_params() {
            Err(e) => {
                return Err(e);
            },
            Ok(p) => p,
        };
        self.advance();
        let return_type = match self.parse_return_type() {
            Err(e) => {
                return Err(e);
            },
            Ok(t) => t,
        };
        let block = match self.parse_block() {
            Err(e) => {
                return Err(e);
            },
            Ok(b) => b,
        };
        let id = self.fresh_id();
        Ok(
            Stmt::Method {
                is_static,
                met_identifier,
                params,
                return_type,
                block: Box::new(block),
                line: par_tok.line(),
                column: par_tok.column(),
                id,
            },
        )
    }

    /// After a statement of a block failed with `e`: keeps the diagnostic
    /// and skips to where parsing can go on, past the token at `start` at
    /// least.
    fn recover(&mut self, start: usize, e: CompilerError)
        requires
            old(self).wf(),
            start <= old(self).current,
            start + 1 < old(self).parent_module.tokens.len(),
        ensures
            final(self).follows(old(self)),
            final(self).state() == statements::recover(
                old(self).tokens(),
                start as int,
                old(self).state(),
                e@,
            ),
            final(self).current > start,
            final(self).slack() >= old(self).slack(),
    {
        self.report(e);
        let ends = [TokenKind::RightBrace];
        assert(ends@ =~= seq![TokenKind::RightBrace]);
        self.synchronize_until(&ends);
        if self.current <= start {
            self.advance();
        }
    }

    /// `{ statements }`.
    fn parse_block(&mut self) -> (r: Result<Stmt, CompilerError>)
        requires
            old(self).wf(),
        ensures
            final(self).follows(old(self)),
            agrees(
                r,
                statements::parse_block(old(self).tokens(), old(self).state()).result,
                |s: Stmt| s@,
            ),
            final(self).state() == statements::parse_block(
                old(self).tokens(),
                old(self).state(),
            ).state,
            r is Ok ==> final(self).current > old(self).current,
            final(self).slack() >= old(self).slack(),
        decreases old(self).parent_module.tokens.len() - old(self).current, 5nat,
    {
        let left_brace_tok = match self.expect(TokenKind::LeftBrace, "`{`") {
            Err(e) => {
                return Err(e);
            },
            Ok(t) => t,
        };
        let mut statements: Vec<Stmt> = Vec::new();
        assert(stmts_view(statements@) =~= Seq::empty());
        let ghost goal = statements::block_loop(self.tokens(), self.state(), Seq::empty());
        while !self.is_at_end() && self.kind() != TokenKind::RightBrace
            invariant
                self.follows(old(self)),
                self.current > old(self).current,
                self.slack() >= old(self).slack() + 2,
                goal == statements::block_loop(
                    self.tokens(),
                    self.state(),
                    stmts_view(statements@),
                ),
            decreases self.parent_module.tokens.len() - self.current,
        {
            let start = self.current;
            let ghost before = statements@;
            match self.parse_statement() {
                Ok(stmt) => {
                    proof {
                        lemma_stmts_view_push(before, stmt);
                    }
                    statements.push(stmt);
                },
                Err(e) => {
                    self.recover(start, e);
                },
            }
        }
        if self.is_at_end() {
            return Err(
                CompilerError::new(
                    "Hindi naisarado ang `{`",
                    ErrorKind::Error,
                    left_brace_tok.line(),
                    left_brace_tok.column(),
                ),
            );
        }
        match self.expect(TokenKind::RightBrace, "`}`") {
            Err(e) => {
                return Err(e);
            },
            Ok(_) => {},
        }
        let id = self.fresh_id();
        Ok(
            Stmt::Block {
                statements,
                line: left_brace_tok.line(),
                column: left_brace_tok.column(),
                id,
            },
        )
    }

    /// `ang [maiba] name [: type] = value`.
    fn parse_ang(&mut self) -> (r: Result<Stmt, CompilerError>)
        requires
            old(self).wf(),
        ensures
            final(self).follows(old(self)),
            agrees(
                r,
                statements::parse_ang(old(self).tokens(), old(self).state()).result,
                |s: Stmt| s@,
            ),
            final(self).state() == statements::parse_ang(old(self).tokens(), old(self).state()).state,
            r is Ok ==> final(self).current > old(self).current,
            final(self).slack() >= old(self).slack(),
        decreases old(self).parent_module.tokens.len() - old(self).current, 5nat,
    {
        let ang_err = self.expect_err("`ang`").add_note(
            "Ginamit ang `ang` para mag-deklara ng bagong pangalan",
        );
        let ang_tok = match self.consume(TokenKind::Ang, ang_err) {
            Err(e) => {
                return Err(e);
            },
            Ok(t) => t,
        };
        let mutable = self.kind() == TokenKind::Maiba;
        if mutable {
            self.advance();
        }
        let name_err = self.expect_err("pangalan").add_note(
            "Siguraduhing hindi keyword ang iyong nailagay",
        );
        let ang_identifier = match self.consume(TokenKind::Identifier, name_err) {
            Err(e) => {
                return Err(e);
            },
            Ok(t) => t,
        };
        let mut ang_type = TolType::Unknown;
        if self.kind() == TokenKind::Colon {
            self.advance();
            ang_type = match self.parse_type() {
                Err(e) => {
                    return Err(e);
                },
                Ok(t) => t,
            };
        }
        let eq_err = CompilerError::new(
            "Ang `=` ang maaari dito",
            ErrorKind::Error,
            self.peek().line(),
            self.peek().column(),
        );
        match self.consume(TokenKind::Equal, eq_err) {
            Err(e) => {
                return Err(e);
            },
            Ok(_) => {},
        }
        let rhs = match self.parse_expression(0) {
            Err(e) => {
                return Err(e);
            },
            Ok(e) => e,
        };
        let id = self.fresh_id();
        Ok(
            Stmt::Ang {
                mutable,
                ang_identifier,
                ang_type,
                rhs,
                line: ang_tok.line(),
                column: ang_tok.column(),
                id,
            },
        )
    }

    /// `ibalik value`.
    fn parse_ibalik(&mut self) -> (r: Result<Stmt, CompilerError>)
        requires
            old(self).wf(),
        ensures
            final(self).follows(old(self)),
            agrees(
                r,
                statements::parse_ibalik(old(self).tokens(), old(self).state()).result,
                |s: Stmt| s@,
            ),
            final(self).state() == statements::parse_ibalik(
                old(self).tokens(),
                old(self).state(),
            ).state,
            r is Ok ==> final(self).current > old(self).current,
            final(self).slack() >= old(self).slack(),
        decreases old(self).parent_module.tokens.len() - old(self).current, 5nat,
    {
        let ibalik_tok = match self.expect(TokenKind::Ibalik, "`ibalik`") {
            Err(e) => {
                return Err(e);
            },
            Ok(t) => t,
        };
        let rhs = match self.parse_expression(0) {
            Err(e) => {
                return Err(e);
            },
            Ok(e) => e,
        };
        let id = self.fresh_id();
        Ok(Stmt::Ibalik { rhs, line: ibalik_tok.line(), column: ibalik_tok.column(), id })
    }

    /// An expression that stands as a statement.
    fn parse_expr_stmt(&mut self) -> (r: Result<Stmt, CompilerError>)
        requires
            old(self).wf(),
        ensures
            final(self).follows(old(self)),
            agrees(
                r,
                statements::parse_expr_stmt(old(self).tokens(), old(self).state()).result,
                |s: Stmt| s@,
            ),
            final(self).state() == statements::parse_expr_stmt(
                old(self).tokens(),
                old(self).state(),
            ).state,
            r is Ok ==> final(self).current > old(self).current,
            final(self).slack() >= old(self).slack(),
        decreases old(self).parent_module.tokens.len() - old(self).current, 5nat,
    {
        let start_tok = self.peek().clone();
        let expr = match self.parse_expression(0) {
            Err(e) => {
                return Err(e);
            },
            Ok(e) => e,
        };
        let id = self.fresh_id();
        Ok(Stmt::ExprS { expr, line: start_tok.line(), column: start_tok.column(), id })
    }

    /// `bagay Name { field: type, .. }`.
    fn parse_bagay(&mut self) -> (r: Result<Stmt, CompilerError>)
        requires
            old(self).wf(),
        ensures
            final(self).follows(old(self)),
            agrees(
                r,
                statements::parse_bagay(old(self).tokens(), old(self).state()).result,
                |s: Stmt| s@,
            ),
            final(self).state() == statements::parse_bagay(
                old(self).tokens(),
                old(self).state(),
            ).state,
            r is Ok ==> final(self).current > old(self).current,
            final(self).slack() >= old(self).slack(),
    {
        match self.expect(TokenKind::Bagay, "`bagay`") {
            Err(e) => {
                return Err(e);
            },
            Ok(_) => {},
        }
        let bagay_identifier = match self.expect(TokenKind::Identifier, "pangalan") {
            Err(e) => {
                return Err(e);
            },
            Ok(t) => t,
        };
        let fields = match self.parse_bagay_fields() {
            Err(e) => {
                return Err(e);
            },
            Ok(f) => f,
        };
        let id = self.fresh_id();
        Ok(Stmt::Bagay { bagay_identifier, fields, id })
    }

    /// `itupad Type { methods }`.
    fn parse_itupad(&mut self) -> (r: Result<Stmt, CompilerError>)
        requires
            old(self).wf(),
        ensures
            final(self).follows(old(self)),
            agrees(
                r,
                statements::parse_itupad(old(self).tokens(), old(self).state()).result,
                |s: Stmt| s@,
            ),
            final(self).state() == statements::parse_itupad(
                old(self).tokens(),
                old(self).state(),
            ).state,
            r is Ok ==> final(self).current > old(self).current,
            final(self).slack() >= old(self).slack(),
        decreases old(self).parent_module.tokens.len() - old(self).current, 5nat,
    {
        let itupad_tok = match self.expect(TokenKind::Itupad, "`itupad`") {
            Err(e) => {
                return Err(e);
            },
            Ok(t) => t,
        };
        let itupad_for = match self.parse_type() {
            Err(e) => {
                return Err(e);
            },
            Ok(t) => t,
        };
        let itupad_block = match self.parse_itupad_block() {
            Err(e) => {
                return Err(e);
            },
            Ok(b) => b,
        };
        let id = self.fresh_id();
        Ok(
            Stmt::Itupad {
                itupad_for,
                itupad_block: Box::new(itupad_block),
                line: itupad_tok.line(),
                column: itupad_tok.column(),
                id,
            },
        )
    }

    /// `{ methods }`.
    fn parse_itupad_block(&mut self) -> (r: Result<Stmt, CompilerError>)
        requires
            old(self).wf(),
        ensures
            final(self).follows(old(self)),
            agrees(
                r,
                statements::parse_itupad_block(old(self).tokens(), old(self).state()).result,
                |s: Stmt| s@,
            ),
            final(self).state() == statements::parse_itupad_block(
                old(self).tokens(),
                old(self).state(),
            ).state,
            r is Ok ==> final(self).current > old(self).current,
            final(self).slack() >= old(self).slack(),
        decreases old(self).parent_module.tokens.len() - old(self).current, 5nat,
    {
        let lb_tok = match self.expect(TokenKind::LeftBrace, "`{`") {
            Err(e) => {
                return Err(e);
            },
            Ok(t) => t,
        };
        let mut methods: Vec<Stmt> = Vec::new();
        assert(stmts_view(methods@) =~= Seq::empty());
        let ghost goal = statements::itupad_loop(self.tokens(), self.state(), Seq::empty());
        while !self.is_at_end() && self.kind() != TokenKind::RightBrace
            invariant
                self.follows(old(self)),
                self.current > old(self).current,
                self.slack() >= old(self).slack() + 2,
                goal == statements::itupad_loop(self.tokens(), self.state(), stmts_view(methods@)),
            decreases self.parent_module.tokens.len() - self.current,
        {
            let start = self.current;
            let ghost before = methods@;
            match self.parse_method() {
                Ok(method) => {
                    proof {
                        lemma_stmts_view_push(before, method);
                    }
                    methods.push(method);
                },
                Err(e) => {
                    self.recover(start, e);
                },
            }
        }
        if self.is_at_end() {
            return Err(
                CompilerError::new(
                    "Hindi naisarado ang `{`",
                    ErrorKind::Error,
                    lb_tok.line(),
                    lb_tok.column(),
                ),
            );
        }
        match self.expect(TokenKind::RightBrace, "`}`") {
            Err(e) => {
                return Err(e);
            },
            Ok(_) => {},
        }
        let id = self.fresh_id();
        Ok(Stmt::ItupadBlock { methods, line: lb_tok.line(), column: lb_tok.column(), id })
    }

    /// `sa iterator => name { .. }`.
    fn parse_sa(&mut self) -> (r: Result<Stmt, CompilerError>)
        requires
            old(self).wf(),
        ensures
            final(self).follows(old(self)),
            agrees(
                r,
                statements::parse_sa(old(self).tokens(), old(self).state()).result,
                |s: Stmt| s@,
            ),
            final(self).state() == statements::parse_sa(old(self).tokens(), old(self).state()).state,
            r is Ok ==> final(self).current > old(self).current,
            final(self).slack() >= old(self).slack(),
        decreases old(self).parent_module.tokens.len() - old(self).current, 5nat,
    {
        let sa_tok = match self.expect(TokenKind::Sa, "`sa`") {
            Err(e) => {
                return Err(e);
            },
            Ok(t) => t,
        };
        let iterator = match self.parse_expression(0) {
            Err(e) => {
                return Err(e);
            },
            Ok(e) => e,
        };
        match self.expect(TokenKind::ThickArrow, "`=>`") {
            Err(e) => {
                return Err(e);
            },
            Ok(_) => {},
        }
        let bind = match self.expect(TokenKind::Identifier, "pangalan") {
            Err(e) => {
                return Err(e);
            },
            Ok(t) => t,
        };
        let block = match self.parse_block() {
            Err(e) => {
                return Err(e);
            },
            Ok(b) => b,
        };
        let id = self.fresh_id();
        Ok(
            Stmt::Sa {
                iterator,
                bind,
                block: Box::new(block),
                line: sa_tok.line(),
                column: sa_tok.column(),
                id,
            },
        )
    }

    /// One branch of a conditional.
    fn parse_branch(&mut self, with_condition: bool) -> (r: Result<KungBranch, CompilerError>)
        requires
            old(self).wf(),
        ensures
            final(self).follows(old(self)),
            agrees(
                r,
                statements::parse_branch(
                    old(self).tokens(),
                    old(self).state(),
                    with_condition,
                ).result,
                |b: KungBranch| b@,
            ),
            final(self).state() == statements::parse_branch(
                old(self).tokens(),
                old(self).state(),
                with_condition,
            ).state,
            r is Ok ==> final(self).current > old(self).current,
            final(self).slack() >= old(self).slack(),
        decreases old(self).parent_module.tokens.len() - old(self).current, 6nat,
    {
        if with_condition {
            let condition = match self.parse_expression(0) {
                Err(e) => {
                    return Err(e);
                },
                Ok(e) => e,
            };
            match self.parse_block() {
                Err(e) => Err(e),
                Ok(block) => Ok(KungBranch { condition: Some(condition), block }),
            }
        } else {
            match self.parse_block() {
                Err(e) => Err(e),
                Ok(block) => Ok(KungBranch { condition: None, block }),
            }
        }
    }

    /// The `kungdi` branches that follow, then the `kungwala` branch where
    /// there is one, after the branches in `parsed`.
    fn parse_more_branches(&mut self, parsed: Vec<KungBranch>) -> (r: Result<
        Vec<KungBranch>,
        CompilerError,
    >)
        requires
            old(self).wf(),
        ensures
            final(self).follows(old(self)),
            agrees(
                r,
                statements::kung_loop(
                    old(self).tokens(),
                    old(self).state(),
                    branches_view(parsed@),
                ).result,
                |v: Vec<KungBranch>| branches_view(v@),
            ),
            final(self).state() == statements::kung_loop(
                old(self).tokens(),
                old(self).state(),
                branches_view(parsed@),
            ).state,
            final(self).slack() >= old(self).slack(),
        decreases old(self).parent_module.tokens.len() - old(self).current, 11nat,
    {
        let mut branches = parsed;
        let ghost goal = statements::kung_loop(
            old(self).tokens(),
            old(self).state(),
            branches_view(parsed@),
        );
        while self.kind() == TokenKind::KungDi
            invariant
                self.follows(old(self)),
                self.slack() >= old(self).slack(),
                goal == statements::kung_loop(
                    old(self).tokens(),
                    old(self).state(),
                    branches_view(parsed@),
                ),
                goal == statements::kung_loop(
                    self.tokens(),
                    self.state(),
                    branches_view(branches@),
                ),
            decreases self.parent_module.tokens.len() - self.current,
        {
            self.advance();
            let ghost before = branches@;
            match self.parse_branch(true) {
                Err(e) => {
                    return Err(e);
                },
                Ok(b) => {
                    proof {
                        lemma_branches_view_push(before, b);
                    }
                    branches.push(b);
                },
            }
        }
        if self.kind() == TokenKind::KungWala {
            self.advance();
            let ghost before = branches@;
            match self.parse_branch(false) {
                Err(e) => {
                    return Err(e);
                },
                Ok(b) => {
                    proof {
                        lemma_branches_view_push(before, b);
                    }
                    branches.push(b);
                },
            }
        }
        Ok(branches)
    }

    /// `kung condition { .. }`, with its `kungdi` and `kungwala` branches.
    #[verifier::rlimit(60)]
    fn parse_kung(&mut self) -> (r: Result<Stmt, CompilerError>)
        requires
            old(self).wf(),
        ensures
            final(self).follows(old(self)),
            agrees(
                r,
                statements::parse_kung(old(self).tokens(), old(self).state()).result,
                |s: Stmt| s@,
            ),
            final(self).state() == statements::parse_kung(old(self).tokens(), old(self).state()).state,
            r is Ok ==> final(self).current > old(self).current,
            final(self).slack() >= old(self).slack(),
        decreases old(self).parent_module.tokens.len() - old(self).current, 5nat,
    {
        let kung_tok = match self.expect(TokenKind::Kung, "`kung`") {
            Err(e) => {
                return Err(e);
            },
            Ok(t) => t,
        };
        let first = match self.parse_branch(true) {
            Err(e) => {
                return Err(e);
            },
            Ok(b) => b,
        };
        let mut first_branches: Vec<KungBranch> = Vec::new();
        assert(branches_view(first_branches@) =~= Seq::empty());
        proof {
            lemma_branches_view_push(first_branches@, first);
        }
        first_branches.push(first);
        let branches = match self.parse_more_branches(first_branches) {
            Err(e) => {
                return Err(e);
            },
            Ok(b) => b,
        };
        let id = self.fresh_id();
        Ok(Stmt::Kung { branches, line: kung_tok.line(), column: kung_tok.column(), id })
    }

    /// Parses the tokens of the module into its statements. A statement
    /// that fails leaves its diagnostic, and parsing goes on after it.
    pub fn parse(&mut self)
        requires
            2 * old(self).tokens().len() <= usize::MAX,
        ensures
            final(self).module().same_but_ast(old(self).module()),
            final(self).tokens() == old(self).tokens(),
            stmts_view(final(self).module().ast@) == statements::parse_program(
                old(self).tokens(),
            ).statements,
            final(self).state() == statements::parse_program(old(self).tokens()).state,
    {
        self.current = 0;
        self.ast_id = 0;
        self.errors = Vec::new();
        assert(errors_view(self.errors@) =~= Seq::empty());
        let mut statements: Vec<Stmt> = Vec::new();
        assert(stmts_view(statements@) =~= Seq::empty());
        if self.parent_module.tokens.len() > 0 {
            let ghost goal = statements::parse_program(old(self).tokens());
            let mut done = false;
            while !done && !self.is_at_end() && self.kind() != TokenKind::Eof
                invariant
                    self.wf(),
                    self.parent_module == old(self).parent_module,
                    goal == statements::parse_program(old(self).tokens()),
                    !done ==> goal == statements::program_loop(
                        self.tokens(),
                        self.state(),
                        stmts_view(statements@),
                    ),
                    done ==> goal == (statements::Body {
                        statements: stmts_view(statements@),
                        state: self.state(),
                    }),
                decreases
                        self.parent_module.tokens.len() - self.current,
                        if done { 0nat } else { 1nat },
            {
                let start = self.current;
                let ghost before = statements@;
                match self.parse_statement() {
                    Ok(stmt) => {
                        proof {
                            lemma_stmts_view_push(before, stmt);
                        }
                        statements.push(stmt);
                    },
                    Err(e) => {
                        self.report(e);
                        self.synchronize();
                        if self.current <= start {
                            done = true;
                        }
                    },
                }
            }
        }
        self.parent_module.ast = statements;
    }

    /// Whether parsing has found anything wrong.
    pub fn has_error(&self) -> (b: bool)
        ensures
            b == (self.state().errors.len() > 0),
    {
        self.errors.len() > 0
    }

    /// The diagnostics of parsing, in the order in which they arose.
    pub fn errors(&self) -> (e: &Vec<CompilerError>)
        ensures
            errors_view(e@) == self.state().errors,
    {
        &self.errors
    }

    /// Hands the module back, with the statements that were parsed.
    pub fn finish(self) -> (m: Module)
        ensures
            m == self.module(),
    {
        self.parent_module
    }
}

} // verus!
