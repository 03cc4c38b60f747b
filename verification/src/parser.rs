//! The parser: tokens to syntax tree, by recursive descent.
//!
//! Grammar, loosely: a program is declarations to `EOF`; declarations are
//! `fun`, `let` or statements; statements are expression statements, `if`,
//! `while`, `for` (desugared here into a block of `let` + `while`),
//! `print`, `return` and blocks; expressions follow the usual precedence
//! from assignment down through `or`, `and`, equality, comparison, terms,
//! factors, unary operators and calls to primaries.

use vstd::prelude::*;

use crate::ast::Assignment;
use crate::ast::Binary;
use crate::ast::Call;
use crate::ast::Declaration;
use crate::ast::DeclarationWithLineNo;
use crate::ast::Expr;
use crate::ast::FunDecl;
use crate::ast::Get;
use crate::ast::Grouping;
use crate::ast::IfStmt;
use crate::ast::LetDecl;
use crate::ast::Literal;
use crate::ast::Logical;
use crate::ast::Program;
use crate::ast::ReturnStmt;
use crate::ast::SetProp;
use crate::ast::Statement;
use crate::ast::Unary;
use crate::ast::Variable;
use crate::ast::WhileStmt;
use crate::token::Token;
use crate::token::TokenType;

verus! {

/// A parse error: a message and the token it was found at.
#[derive(Debug)]
pub struct ParseError {
    pub message: String,
    pub token: Token,
}

/// The parser's cursor over the token stream.
pub struct Parser {
    pub tokens: Vec<Token>,
    pub current: usize,
}

/// Whether two token kinds match for the parser's lookahead: any
/// identifier matches any identifier; other kinds match structurally.
fn kind_matches(a: &TokenType, b: &TokenType) -> bool {
    match a {
        TokenType::Identifier(_) => matches!(b, TokenType::Identifier(_)),
        TokenType::Number(_) => matches!(b, TokenType::Number(_)),
        TokenType::Str(_) => matches!(b, TokenType::Str(_)),
        TokenType::LeftParen => matches!(b, TokenType::LeftParen),
        TokenType::RightParen => matches!(b, TokenType::RightParen),
        TokenType::LeftBrace => matches!(b, TokenType::LeftBrace),
        TokenType::RightBrace => matches!(b, TokenType::RightBrace),
        TokenType::Comma => matches!(b, TokenType::Comma),
        TokenType::Dot => matches!(b, TokenType::Dot),
        TokenType::Minus => matches!(b, TokenType::Minus),
        TokenType::Plus => matches!(b, TokenType::Plus),
        TokenType::Semicolon => matches!(b, TokenType::Semicolon),
        TokenType::Slash => matches!(b, TokenType::Slash),
        TokenType::Star => matches!(b, TokenType::Star),
        TokenType::Bang => matches!(b, TokenType::Bang),
        TokenType::BangEqual => matches!(b, TokenType::BangEqual),
        TokenType::Equal => matches!(b, TokenType::Equal),
        TokenType::EqualEqual => matches!(b, TokenType::EqualEqual),
        TokenType::Greater => matches!(b, TokenType::Greater),
        TokenType::GreaterEqual => matches!(b, TokenType::GreaterEqual),
        TokenType::Less => matches!(b, TokenType::Less),
        TokenType::LessEqual => matches!(b, TokenType::LessEqual),
        TokenType::And => matches!(b, TokenType::And),
        TokenType::Not => matches!(b, TokenType::Not),
        TokenType::Struct => matches!(b, TokenType::Struct),
        TokenType::Else => matches!(b, TokenType::Else),
        TokenType::False => matches!(b, TokenType::False),
        TokenType::Fun => matches!(b, TokenType::Fun),
        TokenType::For => matches!(b, TokenType::For),
        TokenType::If => matches!(b, TokenType::If),
        TokenType::Null => matches!(b, TokenType::Null),
        TokenType::Or => matches!(b, TokenType::Or),
        TokenType::Print => matches!(b, TokenType::Print),
        TokenType::Return => matches!(b, TokenType::Return),
        TokenType::Super => matches!(b, TokenType::Super),
        TokenType::Slf => matches!(b, TokenType::Slf),
        TokenType::True => matches!(b, TokenType::True),
        TokenType::Let => matches!(b, TokenType::Let),
        TokenType::While => matches!(b, TokenType::While),
        TokenType::Eof => matches!(b, TokenType::Eof),
    }
}

/// A copy of a token.
fn copy_token(t: &Token) -> (r: Token)
    ensures
        (r.typ is Eof) == (t.typ is Eof),
{
    let typ = match &t.typ {
        TokenType::Identifier(s) => TokenType::Identifier(s.clone()),
        TokenType::Number(s) => TokenType::Number(s.clone()),
        TokenType::Str(s) => TokenType::Str(s.clone()),
        TokenType::LeftParen => TokenType::LeftParen,
        TokenType::RightParen => TokenType::RightParen,
        TokenType::LeftBrace => TokenType::LeftBrace,
        TokenType::RightBrace => TokenType::RightBrace,
        TokenType::Comma => TokenType::Comma,
        TokenType::Dot => TokenType::Dot,
        TokenType::Minus => TokenType::Minus,
        TokenType::Plus => TokenType::Plus,
        TokenType::Semicolon => TokenType::Semicolon,
        TokenType::Slash => TokenType::Slash,
        TokenType::Star => TokenType::Star,
        TokenType::Bang => TokenType::Bang,
        TokenType::BangEqual => TokenType::BangEqual,
        TokenType::Equal => TokenType::Equal,
        TokenType::EqualEqual => TokenType::EqualEqual,
        TokenType::Greater => TokenType::Greater,
        TokenType::GreaterEqual => TokenType::GreaterEqual,
        TokenType::Less => TokenType::Less,
        TokenType::LessEqual => TokenType::LessEqual,
        TokenType::And => TokenType::And,
        TokenType::Not => TokenType::Not,
        TokenType::Struct => TokenType::Struct,
        TokenType::Else => TokenType::Else,
        TokenType::False => TokenType::False,
        TokenType::Fun => TokenType::Fun,
        TokenType::For => TokenType::For,
        TokenType::If => TokenType::If,
        TokenType::Null => TokenType::Null,
        TokenType::Or => TokenType::Or,
        TokenType::Print => TokenType::Print,
        TokenType::Return => TokenType::Return,
        TokenType::Super => TokenType::Super,
        TokenType::Slf => TokenType::Slf,
        TokenType::True => TokenType::True,
        TokenType::Let => TokenType::Let,
        TokenType::While => TokenType::While,
        TokenType::Eof => TokenType::Eof,
    };
    Token { typ, lexeme: t.lexeme.clone(), line: t.line }
}

impl Parser {
    /// The cursor lies on a token, and an `EOF` token closes the stream,
    /// so the cursor can never run past it.
    pub open spec fn wf(self) -> bool {
        &&& self.tokens@.len() > 0
        &&& (self.current as int) < self.tokens@.len()
        &&& self.tokens@.last().typ is Eof
    }

    /// A parser over a token stream, which must end with `EOF` as the
    /// scanner guarantees.
    pub fn new(tokens: Vec<Token>) -> (p: Parser)
        requires
            tokens@.len() > 0,
            tokens@.last().typ is Eof,
        ensures
            p.wf(),
    {
        Parser { tokens, current: 0 }
    }

    /// Parses a whole program.
    pub fn parse(&mut self) -> (r: Result<Program, ParseError>)
        requires
            old(self).wf(),
        ensures
            final(self).wf(),
    {
        self.program()
    }

    fn peek(&self) -> (r: &Token)
        requires
            self.wf(),
        ensures
            *r == self.tokens@[self.current as int],
    {
        &self.tokens[self.current]
    }

    fn is_at_end(&self) -> (r: bool)
        requires
            self.wf(),
        ensures
            r == (self.tokens@[self.current as int].typ is Eof),
    {
        matches!(self.tokens[self.current].typ, TokenType::Eof)
    }

    fn check(&self, typ: &TokenType) -> (r: bool)
        requires
            self.wf(),
        ensures
            r ==> !(self.tokens@[self.current as int].typ is Eof),
    {
        if self.is_at_end() {
            return false;
        }
        kind_matches(&self.tokens[self.current].typ, typ)
    }

    /// Consumes the current token (unless at `EOF`) and returns it.
    fn advance(&mut self) -> (r: Token)
        requires
            old(self).wf(),
        ensures
            final(self).wf(),
            final(self).tokens@ == old(self).tokens@,
            old(self).current <= final(self).current <= old(self).current + 1,
            !(old(self).tokens@[old(self).current as int].typ is Eof) ==> final(self).current
                == old(self).current + 1,
            (r.typ is Eof) == (old(self).tokens@[old(self).current as int].typ is Eof),
    {
        if !self.is_at_end() {
            let _n = self.tokens.len();
            self.current = self.current + 1;
            copy_token(&self.tokens[self.current - 1])
        } else {
            copy_token(&self.tokens[self.current])
        }
    }

    /// Consumes the current token when its kind matches one of `types`.
    fn matches(&mut self, types: &Vec<TokenType>) -> (r: bool)
        requires
            old(self).wf(),
        ensures
            final(self).wf(),
            final(self).tokens@ == old(self).tokens@,
            old(self).current <= final(self).current <= old(self).current + 1,
            r ==> final(self).current == old(self).current + 1,
            !r ==> final(self).current == old(self).current,
    {
        let mut i: usize = 0;
        #[verifier::loop_isolation(false)]
        while i < types.len()
            invariant
                *self == *old(self),
            decreases types@.len() - i,
        {
            if self.check(&types[i]) {
                let _ = self.advance();
                return true;
            }
            i = i + 1;
        }
        false
    }

    /// Consumes the current token when its kind matches, or reports
    /// `message` at it.
    fn consume(&mut self, typ: &TokenType, message: &str) -> (r: Result<Token, ParseError>)
        requires
            old(self).wf(),
        ensures
            final(self).wf(),
            final(self).tokens@ == old(self).tokens@,
            old(self).current <= final(self).current <= old(self).current + 1,
            r is Ok ==> final(self).current == old(self).current + 1,
    {
        if self.check(typ) {
            let t = self.advance();
            return Ok(t);
        }
        Err(
            ParseError {
                message: String::from_str(message),
                token: copy_token(&self.tokens[self.current]),
            },
        )
    }

    /// A copy of the token just consumed.
    fn previous(&self) -> (r: Token)
        requires
            self.wf(),
            self.current > 0,
    {
        copy_token(&self.tokens[self.current - 1])
    }

    fn program(&mut self) -> (r: Result<Program, ParseError>)
        requires
            old(self).wf(),
        ensures
            final(self).wf(),
            final(self).tokens@ == old(self).tokens@,
            final(self).current >= old(self).current,
        decreases self.tokens@.len() - self.current, 30int,
    {
        let mut declarations: Vec<DeclarationWithLineNo> = Vec::new();
        #[verifier::loop_isolation(false)]
        while !self.is_at_end()
            invariant
                self.wf(),
                self.tokens@ == old(self).tokens@,
                self.current >= old(self).current,
            decreases self.tokens@.len() - self.current,
        {
            let lineno = self.tokens[self.current].line;
            let decl = match self.declaration() {
                Ok(d) => d,
                Err(e) => {
                    return Err(e);
                },
            };
            declarations.push(DeclarationWithLineNo { decl, lineno });
        }
        Ok(Program { declarations })
    }

    fn declaration(&mut self) -> (r: Result<Declaration, ParseError>)
        requires
            old(self).wf(),
            !(old(self).tokens@[old(self).current as int].typ is Eof),
        ensures
            final(self).wf(),
            final(self).tokens@ == old(self).tokens@,
            final(self).current >= old(self).current,
            r is Ok ==> final(self).current > old(self).current,
        decreases self.tokens@.len() - self.current, 28int,
    {
        if matches!(self.tokens[self.current].typ, TokenType::Fun) {
            match self.fun_decl() {
                Ok(d) => Ok(Declaration::FunDecl(d)),
                Err(e) => Err(e),
            }
        } else if matches!(self.tokens[self.current].typ, TokenType::Let) {
            match self.let_decl() {
                Ok(d) => Ok(Declaration::LetDecl(d)),
                Err(e) => Err(e),
            }
        } else {
            match self.statement() {
                Ok(s) => Ok(Declaration::Statement(s)),
                Err(e) => Err(e),
            }
        }
    }

    fn fun_decl(&mut self) -> (r: Result<FunDecl, ParseError>)
        requires
            old(self).wf(),
        ensures
            final(self).wf(),
            final(self).tokens@ == old(self).tokens@,
            final(self).current >= old(self).current,
            r is Ok ==> final(self).current > old(self).current,
        decreases self.tokens@.len() - self.current, 27int,
    {
        let _fun = self.advance();
        let name = match self.consume(
            &TokenType::Identifier(String::new()),
            "Expect function name.",
        ) {
            Ok(t) => t,
            Err(e) => {
                return Err(e);
            },
        };
        match self.consume(&TokenType::LeftParen, "Expect '(' after function name.") {
            Ok(_) => {},
            Err(e) => {
                return Err(e);
            },
        }
        let params = match self.parameters() {
            Ok(p) => p,
            Err(e) => {
                return Err(e);
            },
        };
        match self.consume(&TokenType::LeftBrace, "Expect '{' before function body.") {
            Ok(_) => {},
            Err(e) => {
                return Err(e);
            },
        }
        let body = match self.block() {
            Ok(b) => b,
            Err(e) => {
                return Err(e);
            },
        };
        Ok(FunDecl { name, params, body })
    }

    fn parameters(&mut self) -> (r: Result<Vec<Token>, ParseError>)
        requires
            old(self).wf(),
        ensures
            final(self).wf(),
            final(self).tokens@ == old(self).tokens@,
            final(self).current >= old(self).current,
        decreases self.tokens@.len() - self.current, 5int,
    {
        let mut params: Vec<Token> = Vec::new();
        if !matches!(self.tokens[self.current].typ, TokenType::RightParen) {
            let first = match self.consume(
                &TokenType::Identifier(String::new()),
                "Expect parameter name.",
            ) {
                Ok(t) => t,
                Err(e) => {
                    return Err(e);
                },
            };
            params.push(first);
            let comma = vec![TokenType::Comma];
            #[verifier::loop_isolation(false)]
            while self.matches(&comma)
                invariant
                    self.wf(),
                    self.tokens@ == old(self).tokens@,
                    self.current >= old(self).current,
                decreases self.tokens@.len() - self.current,
            {
                let p = match self.consume(
                    &TokenType::Identifier(String::new()),
                    "Expect parameter name.",
                ) {
                    Ok(t) => t,
                    Err(e) => {
                        return Err(e);
                    },
                };
                params.push(p);
            }
        }
        if params.len() >= 255 {
            return Err(
                ParseError {
                    message: String::from_str("Can't have more than 255 parameters."),
                    token: copy_token(&self.tokens[self.current]),
                },
            );
        }
        let _ = self.consume(&TokenType::RightParen, "Expect ')' after parameters.");
        Ok(params)
    }

    fn let_decl(&mut self) -> (r: Result<LetDecl, ParseError>)
        requires
            old(self).wf(),
        ensures
            final(self).wf(),
            final(self).tokens@ == old(self).tokens@,
            final(self).current >= old(self).current,
            r is Ok ==> final(self).current > old(self).current,
        decreases self.tokens@.len() - self.current, 27int,
    {
        let _let = self.advance();
        let identifier = match self.consume(
            &TokenType::Identifier(String::new()),
            "Expect variable name.",
        ) {
            Ok(t) => t,
            Err(e) => {
                return Err(e);
            },
        };
        let equal = vec![TokenType::Equal];
        let initializer = if self.matches(&equal) {
            match self.expression() {
                Ok(e) => Some(e),
                Err(e) => {
                    return Err(e);
                },
            }
        } else {
            None
        };
        match self.consume(&TokenType::Semicolon, "Expect ';' after declaration.") {
            Ok(_) => {},
            Err(e) => {
                return Err(e);
            },
        }
        Ok(LetDecl { identifier, initializer })
    }

    fn statement(&mut self) -> (r: Result<Statement, ParseError>)
        requires
            old(self).wf(),
        ensures
            final(self).wf(),
            final(self).tokens@ == old(self).tokens@,
            final(self).current >= old(self).current,
            r is Ok ==> final(self).current > old(self).current,
        decreases self.tokens@.len() - self.current, 24int,
    {
        if matches!(self.tokens[self.current].typ, TokenType::If) {
            match self.if_stmt() {
                Ok(s) => Ok(Statement::IfStmt(s)),
                Err(e) => Err(e),
            }
        } else if matches!(self.tokens[self.current].typ, TokenType::While) {
            match self.while_stmt() {
                Ok(s) => Ok(Statement::WhileStmt(s)),
                Err(e) => Err(e),
            }
        } else if matches!(self.tokens[self.current].typ, TokenType::For) {
            // a `for` is desugared into a block of `let` + `while`
            self.for_stmt()
        } else if matches!(self.tokens[self.current].typ, TokenType::Return) {
            let token = self.advance();
            let expr = if matches!(self.tokens[self.current].typ, TokenType::Semicolon) {
                None
            } else {
                match self.expression() {
                    Ok(e) => Some(e),
                    Err(e) => {
                        return Err(e);
                    },
                }
            };
            match self.consume(&TokenType::Semicolon, "Expect ';' after return value.") {
                Ok(_) => {},
                Err(e) => {
                    return Err(e);
                },
            }
            Ok(Statement::ReturnStmt(ReturnStmt { token, expr }))
        } else if matches!(self.tokens[self.current].typ, TokenType::LeftBrace) {
            let _brace = self.advance();
            match self.block() {
                Ok(b) => Ok(Statement::Block(b)),
                Err(e) => Err(e),
            }
        } else if matches!(self.tokens[self.current].typ, TokenType::Print) {
            let _print = self.advance();
            let expr = match self.expression() {
                Ok(e) => e,
                Err(e) => {
                    return Err(e);
                },
            };
            match self.consume(&TokenType::Semicolon, "Expect ';' after value.") {
                Ok(_) => {},
                Err(e) => {
                    return Err(e);
                },
            }
            Ok(Statement::PrintStmt(expr))
        } else {
            self.expr_statement()
        }
    }

    fn expr_statement(&mut self) -> (r: Result<Statement, ParseError>)
        requires
            old(self).wf(),
        ensures
            final(self).wf(),
            final(self).tokens@ == old(self).tokens@,
            final(self).current >= old(self).current,
            r is Ok ==> final(self).current > old(self).current,
        decreases self.tokens@.len() - self.current, 22int,
    {
        let expr = match self.expression() {
            Ok(e) => e,
            Err(e) => {
                return Err(e);
            },
        };
        match self.consume(&TokenType::Semicolon, "Expect ';' after expression.") {
            Ok(_) => {},
            Err(e) => {
                return Err(e);
            },
        }
        Ok(Statement::ExprStmt(expr))
    }

    fn if_stmt(&mut self) -> (r: Result<IfStmt, ParseError>)
        requires
            old(self).wf(),
        ensures
            final(self).wf(),
            final(self).tokens@ == old(self).tokens@,
            final(self).current >= old(self).current,
            r is Ok ==> final(self).current > old(self).current,
        decreases self.tokens@.len() - self.current, 22int,
    {
        let _if = self.advance();
        match self.consume(&TokenType::LeftParen, "Expect '(' after if.") {
            Ok(_) => {},
            Err(e) => {
                return Err(e);
            },
        }
        let condition = match self.expression() {
            Ok(e) => e,
            Err(e) => {
                return Err(e);
            },
        };
        match self.consume(&TokenType::RightParen, "Expect ')' after if condition.") {
            Ok(_) => {},
            Err(e) => {
                return Err(e);
            },
        }
        let then_branch = match self.statement() {
            Ok(s) => s,
            Err(e) => {
                return Err(e);
            },
        };
        let else_branch = if matches!(self.tokens[self.current].typ, TokenType::Else) {
            let _else = self.advance();
            match self.statement() {
                Ok(s) => Some(Box::new(s)),
                Err(e) => {
                    return Err(e);
                },
            }
        } else {
            None
        };
        Ok(IfStmt { condition, then_branch: Box::new(then_branch), else_branch })
    }

    fn while_stmt(&mut self) -> (r: Result<WhileStmt, ParseError>)
        requires
            old(self).wf(),
        ensures
            final(self).wf(),
            final(self).tokens@ == old(self).tokens@,
            final(self).current >= old(self).current,
            r is Ok ==> final(self).current > old(self).current,
        decreases self.tokens@.len() - self.current, 22int,
    {
        let _while = self.advance();
        match self.consume(&TokenType::LeftParen, "Expect '(' after while.") {
            Ok(_) => {},
            Err(e) => {
                return Err(e);
            },
        }
        let condition = match self.expression() {
            Ok(e) => e,
            Err(e) => {
                return Err(e);
            },
        };
        match self.consume(&TokenType::RightParen, "Expect ')' after while condition.") {
            Ok(_) => {},
            Err(e) => {
                return Err(e);
            },
        }
        let body = match self.statement() {
            Ok(s) => s,
            Err(e) => {
                return Err(e);
            },
        };
        Ok(WhileStmt { condition, body: Box::new(body) })
    }

    fn for_stmt(&mut self) -> (r: Result<Statement, ParseError>)
        requires
            old(self).wf(),
        ensures
            final(self).wf(),
            final(self).tokens@ == old(self).tokens@,
            final(self).current >= old(self).current,
            r is Ok ==> final(self).current > old(self).current,
        decreases self.tokens@.len() - self.current, 22int,
    {
        let for_line_no = self.tokens[self.current].line;
        let _for = self.advance();
        match self.consume(&TokenType::LeftParen, "Expect '(' after for.") {
            Ok(_) => {},
            Err(e) => {
                return Err(e);
            },
        }
        let initializer: Option<Declaration> = if matches!(
            self.tokens[self.current].typ,
            TokenType::Semicolon,
        ) {
            let _semi = self.advance();
            None
        } else if matches!(self.tokens[self.current].typ, TokenType::Let) {
            match self.let_decl() {
                Ok(d) => Some(Declaration::LetDecl(d)),
                Err(e) => {
                    return Err(e);
                },
            }
        } else {
            match self.expr_statement() {
                Ok(s) => Some(Declaration::Statement(s)),
                Err(e) => {
                    return Err(e);
                },
            }
        };
        let condition = if matches!(self.tokens[self.current].typ, TokenType::Semicolon) {
            None
        } else {
            match self.expression() {
                Ok(e) => Some(e),
                Err(e) => {
                    return Err(e);
                },
            }
        };
        match self.consume(&TokenType::Semicolon, "Expect ';' after loop condition.") {
            Ok(_) => {},
            Err(e) => {
                return Err(e);
            },
        }
        let increment = if matches!(self.tokens[self.current].typ, TokenType::RightParen) {
            None
        } else {
            match self.expression() {
                Ok(e) => Some(e),
                Err(e) => {
                    return Err(e);
                },
            }
        };
        match self.consume(&TokenType::RightParen, "Expect ')' after for clauses.") {
            Ok(_) => {},
            Err(e) => {
                return Err(e);
            },
        }
        let body = match self.statement() {
            Ok(s) => s,
            Err(e) => {
                return Err(e);
            },
        };
        let lineno = self.tokens[self.current].line;
        let full_body = match increment {
            None => body,
            Some(incr) => {
                let mut decls: Vec<DeclarationWithLineNo> = Vec::new();
                decls.push(DeclarationWithLineNo { decl: Declaration::Statement(body), lineno });
                decls.push(
                    DeclarationWithLineNo {
                        decl: Declaration::Statement(Statement::ExprStmt(incr)),
                        lineno,
                    },
                );
                Statement::Block(decls)
            },
        };
        let while_stmt = WhileStmt {
            condition: match condition {
                Some(cond) => cond,
                None => Expr::Literal(Literal::True),
            },
            body: Box::new(full_body),
        };
        Ok(
            match initializer {
                None => Statement::WhileStmt(while_stmt),
                Some(var_decl) => {
                    let mut decls: Vec<DeclarationWithLineNo> = Vec::new();
                    decls.push(DeclarationWithLineNo { decl: var_decl, lineno: for_line_no });
                    decls.push(
                        DeclarationWithLineNo {
                            decl: Declaration::Statement(Statement::WhileStmt(while_stmt)),
                            lineno: for_line_no,
                        },
                    );
                    Statement::Block(decls)
                },
            },
        )
    }

    fn block(&mut self) -> (r: Result<Vec<DeclarationWithLineNo>, ParseError>)
        requires
            old(self).wf(),
        ensures
            final(self).wf(),
            final(self).tokens@ == old(self).tokens@,
            final(self).current >= old(self).current,
            r is Ok ==> final(self).current > old(self).current,
        decreases self.tokens@.len() - self.current, 29int,
    {
        // the opening brace has already been consumed
        let mut result: Vec<DeclarationWithLineNo> = Vec::new();
        #[verifier::loop_isolation(false)]
        while !matches!(self.tokens[self.current].typ, TokenType::RightBrace) && !self.is_at_end()
            invariant
                self.wf(),
                self.tokens@ == old(self).tokens@,
                self.current >= old(self).current,
            decreases self.tokens@.len() - self.current,
        {
            let lineno = self.tokens[self.current].line;
            let decl = match self.declaration() {
                Ok(d) => d,
                Err(e) => {
                    return Err(e);
                },
            };
            result.push(DeclarationWithLineNo { decl, lineno });
        }
        match self.consume(&TokenType::RightBrace, "Expect '}' after block.") {
            Ok(_) => {},
            Err(e) => {
                return Err(e);
            },
        }
        Ok(result)
    }

    /// Parses one expression.
    pub fn expression(&mut self) -> (r: Result<Expr, ParseError>)
        requires
            old(self).wf(),
        ensures
            final(self).wf(),
            final(self).tokens@ == old(self).tokens@,
            final(self).current >= old(self).current,
            r is Ok ==> final(self).current > old(self).current,
        decreases self.tokens@.len() - self.current, 18int,
    {
        self.assignment()
    }

    fn assignment(&mut self) -> (r: Result<Expr, ParseError>)
        requires
            old(self).wf(),
        ensures
            final(self).wf(),
            final(self).tokens@ == old(self).tokens@,
            final(self).current >= old(self).current,
            r is Ok ==> final(self).current > old(self).current,
        decreases self.tokens@.len() - self.current, 16int,
    {
        let expr = match self.logic_or() {
            Ok(e) => e,
            Err(e) => {
                return Err(e);
            },
        };
        let equal = vec![TokenType::Equal];
        if self.matches(&equal) {
            let equals = self.previous();
            let value = match self.assignment() {
                Ok(v) => v,
                Err(e) => {
                    return Err(e);
                },
            };
            return match expr {
                Expr::Variable(v) => Ok(
                    Expr::Assignment(Assignment { name: v.name, value: Box::new(value) }),
                ),
                Expr::Get(g) => Ok(
                    Expr::SetProp(
                        SetProp { object: g.object, name: g.name, value: Box::new(value) },
                    ),
                ),
                _ => Err(
                    ParseError {
                        message: String::from_str("Invalid assignment target."),
                        token: equals,
                    },
                ),
            };
        }
        Ok(expr)
    }

    fn logic_or(&mut self) -> (r: Result<Expr, ParseError>)
        requires
            old(self).wf(),
        ensures
            final(self).wf(),
            final(self).tokens@ == old(self).tokens@,
            final(self).current >= old(self).current,
            r is Ok ==> final(self).current > old(self).current,
        decreases self.tokens@.len() - self.current, 14int,
    {
        let mut expr = match self.logic_and() {
            Ok(e) => e,
            Err(e) => {
                return Err(e);
            },
        };
        let or_op = vec![TokenType::Or];
        #[verifier::loop_isolation(false)]
        while self.matches(&or_op)
            invariant
                self.wf(),
                self.tokens@ == old(self).tokens@,
                self.current > old(self).current,
            decreases self.tokens@.len() - self.current,
        {
            let operator = self.previous();
            let right = match self.logic_and() {
                Ok(e) => e,
                Err(e) => {
                    return Err(e);
                },
            };
            expr = Expr::Logical(
                Logical { left: Box::new(expr), operator, right: Box::new(right) },
            );
        }
        Ok(expr)
    }

    fn logic_and(&mut self) -> (r: Result<Expr, ParseError>)
        requires
            old(self).wf(),
        ensures
            final(self).wf(),
            final(self).tokens@ == old(self).tokens@,
            final(self).current >= old(self).current,
            r is Ok ==> final(self).current > old(self).current,
        decreases self.tokens@.len() - self.current, 12int,
    {
        let mut expr = match self.equality() {
            Ok(e) => e,
            Err(e) => {
                return Err(e);
            },
        };
        let and_op = vec![TokenType::And];
        #[verifier::loop_isolation(false)]
        while self.matches(&and_op)
            invariant
                self.wf(),
                self.tokens@ == old(self).tokens@,
                self.current > old(self).current,
            decreases self.tokens@.len() - self.current,
        {
            let operator = self.previous();
            let right = match self.equality() {
                Ok(e) => e,
                Err(e) => {
                    return Err(e);
                },
            };
            expr = Expr::Logical(
                Logical { left: Box::new(expr), operator, right: Box::new(right) },
            );
        }
        Ok(expr)
    }

    fn equality(&mut self) -> (r: Result<Expr, ParseError>)
        requires
            old(self).wf(),
        ensures
            final(self).wf(),
            final(self).tokens@ == old(self).tokens@,
            final(self).current >= old(self).current,
            r is Ok ==> final(self).current > old(self).current,
        decreases self.tokens@.len() - self.current, 10int,
    {
        let mut expr = match self.comparison() {
            Ok(e) => e,
            Err(e) => {
                return Err(e);
            },
        };
        let ops = vec![TokenType::BangEqual, TokenType::EqualEqual];
        #[verifier::loop_isolation(false)]
        while self.matches(&ops)
            invariant
                self.wf(),
                self.tokens@ == old(self).tokens@,
                self.current > old(self).current,
            decreases self.tokens@.len() - self.current,
        {
            let operator = self.previous();
            let right = match self.comparison() {
                Ok(e) => e,
                Err(e) => {
                    return Err(e);
                },
            };
            expr = Expr::Binary(Binary { left: Box::new(expr), operator, right: Box::new(right) });
        }
        Ok(expr)
    }

    fn comparison(&mut self) -> (r: Result<Expr, ParseError>)
        requires
            old(self).wf(),
        ensures
            final(self).wf(),
            final(self).tokens@ == old(self).tokens@,
            final(self).current >= old(self).current,
            r is Ok ==> final(self).current > old(self).current,
        decreases self.tokens@.len() - self.current, 8int,
    {
        let mut expr = match self.term() {
            Ok(e) => e,
            Err(e) => {
                return Err(e);
            },
        };
        let ops = vec![
            TokenType::Less,
            TokenType::LessEqual,
            TokenType::Greater,
            TokenType::GreaterEqual,
        ];
        #[verifier::loop_isolation(false)]
        while self.matches(&ops)
            invariant
                self.wf(),
                self.tokens@ == old(self).tokens@,
                self.current > old(self).current,
            decreases self.tokens@.len() - self.current,
        {
            let operator = self.previous();
            let right = match self.term() {
                Ok(e) => e,
                Err(e) => {
                    return Err(e);
                },
            };
            expr = Expr::Binary(Binary { left: Box::new(expr), operator, right: Box::new(right) });
        }
        Ok(expr)
    }

    fn term(&mut self) -> (r: Result<Expr, ParseError>)
        requires
            old(self).wf(),
        ensures
            final(self).wf(),
            final(self).tokens@ == old(self).tokens@,
            final(self).current >= old(self).current,
            r is Ok ==> final(self).current > old(self).current,
        decreases self.tokens@.len() - self.current, 6int,
    {
        let mut expr = match self.factor() {
            Ok(e) => e,
            Err(e) => {
                return Err(e);
            },
        };
        let ops = vec![TokenType::Minus, TokenType::Plus];
        #[verifier::loop_isolation(false)]
        while self.matches(&ops)
            invariant
                self.wf(),
                self.tokens@ == old(self).tokens@,
                self.current > old(self).current,
            decreases self.tokens@.len() - self.current,
        {
            let operator = self.previous();
            let right = match self.factor() {
                Ok(e) => e,
                Err(e) => {
                    return Err(e);
                },
            };
            expr = Expr::Binary(Binary { left: Box::new(expr), operator, right: Box::new(right) });
        }
        Ok(expr)
    }

    fn factor(&mut self) -> (r: Result<Expr, ParseError>)
        requires
            old(self).wf(),
        ensures
            final(self).wf(),
            final(self).tokens@ == old(self).tokens@,
            final(self).current >= old(self).current,
            r is Ok ==> final(self).current > old(self).current,
        decreases self.tokens@.len() - self.current, 4int,
    {
        let mut expr = match self.unary() {
            Ok(e) => e,
            Err(e) => {
                return Err(e);
            },
        };
        let ops = vec![TokenType::Slash, TokenType::Star];
        #[verifier::loop_isolation(false)]
        while self.matches(&ops)
            invariant
                self.wf(),
                self.tokens@ == old(self).tokens@,
                self.current > old(self).current,
            decreases self.tokens@.len() - self.current,
        {
            let operator = self.previous();
            let right = match self.unary() {
                Ok(e) => e,
                Err(e) => {
                    return Err(e);
                },
            };
            expr = Expr::Binary(Binary { left: Box::new(expr), operator, right: Box::new(right) });
        }
        Ok(expr)
    }

    fn unary(&mut self) -> (r: Result<Expr, ParseError>)
        requires
            old(self).wf(),
        ensures
            final(self).wf(),
            final(self).tokens@ == old(self).tokens@,
            final(self).current >= old(self).current,
            r is Ok ==> final(self).current > old(self).current,
        decreases self.tokens@.len() - self.current, 3int,
    {
        let ops = vec![TokenType::Minus, TokenType::Not];
        if self.matches(&ops) {
            let operator = self.previous();
            let right = match self.unary() {
                Ok(e) => e,
                Err(e) => {
                    return Err(e);
                },
            };
            return Ok(Expr::Unary(Unary { operator, right: Box::new(right) }));
        }
        self.call()
    }

    fn call(&mut self) -> (r: Result<Expr, ParseError>)
        requires
            old(self).wf(),
        ensures
            final(self).wf(),
            final(self).tokens@ == old(self).tokens@,
            final(self).current >= old(self).current,
            r is Ok ==> final(self).current > old(self).current,
        decreases self.tokens@.len() - self.current, 2int,
    {
        let mut result = match self.primary() {
            Ok(e) => e,
            Err(e) => {
                return Err(e);
            },
        };
        #[verifier::loop_isolation(false)]
        while matches!(self.tokens[self.current].typ, TokenType::LeftParen)
            || matches!(self.tokens[self.current].typ, TokenType::Dot)
            invariant
                self.wf(),
                self.tokens@ == old(self).tokens@,
                self.current > old(self).current,
            decreases self.tokens@.len() - self.current,
        {
            if matches!(self.tokens[self.current].typ, TokenType::LeftParen) {
                let paren = self.advance();
                let arguments = match self.arguments() {
                    Ok(a) => a,
                    Err(e) => {
                        return Err(e);
                    },
                };
                result = Expr::Call(Call { callee: Box::new(result), paren, arguments });
                match self.consume(&TokenType::RightParen, "Expect ')' after arguments.") {
                    Ok(_) => {},
                    Err(e) => {
                        return Err(e);
                    },
                }
            } else {
                let _dot = self.advance();
                let name = match self.consume(
                    &TokenType::Identifier(String::new()),
                    "Expect property name after '.'.",
                ) {
                    Ok(t) => t,
                    Err(e) => {
                        return Err(e);
                    },
                };
                result = Expr::Get(Get { object: Box::new(result), name });
            }
        }
        Ok(result)
    }

    fn arguments(&mut self) -> (r: Result<Vec<Expr>, ParseError>)
        requires
            old(self).wf(),
        ensures
            final(self).wf(),
            final(self).tokens@ == old(self).tokens@,
            final(self).current >= old(self).current,
        decreases self.tokens@.len() - self.current, 19int,
    {
        let mut arguments: Vec<Expr> = Vec::new();
        if !matches!(self.tokens[self.current].typ, TokenType::RightParen) {
            let first = match self.expression() {
                Ok(e) => e,
                Err(e) => {
                    return Err(e);
                },
            };
            arguments.push(first);
            let comma = vec![TokenType::Comma];
            #[verifier::loop_isolation(false)]
            while self.matches(&comma)
                invariant
                    self.wf(),
                    self.tokens@ == old(self).tokens@,
                    self.current > old(self).current,
                decreases self.tokens@.len() - self.current,
            {
                let e = match self.expression() {
                    Ok(e) => e,
                    Err(e) => {
                        return Err(e);
                    },
                };
                arguments.push(e);
            }
        }
        if arguments.len() >= 255 {
            return Err(
                ParseError {
                    message: String::from_str("Can't have more than 255 arguments."),
                    token: copy_token(&self.tokens[self.current]),
                },
            );
        }
        Ok(arguments)
    }

    fn primary(&mut self) -> (r: Result<Expr, ParseError>)
        requires
            old(self).wf(),
        ensures
            final(self).wf(),
            final(self).tokens@ == old(self).tokens@,
            final(self).current >= old(self).current,
            r is Ok ==> final(self).current > old(self).current,
        decreases self.tokens@.len() - self.current, 1int,
    {
        let token = self.advance();
        match &token.typ {
            TokenType::Str(s) => Ok(Expr::Literal(Literal::Str(s.clone()))),
            TokenType::Number(x) => Ok(Expr::Literal(Literal::Number(x.clone()))),
            TokenType::True => Ok(Expr::Literal(Literal::True)),
            TokenType::False => Ok(Expr::Literal(Literal::False)),
            TokenType::Null => Ok(Expr::Literal(Literal::Null)),
            TokenType::LeftParen => {
                let expr = match self.expression() {
                    Ok(e) => e,
                    Err(e) => {
                        return Err(e);
                    },
                };
                let next_token = self.advance();
                if !matches!(next_token.typ, TokenType::RightParen) {
                    return Err(
                        ParseError {
                            message: String::from_str("Expect ')' after expression."),
                            token: next_token,
                        },
                    );
                }
                Ok(Expr::Grouping(Grouping { expression: Box::new(expr) }))
            },
            TokenType::Identifier(_) => Ok(
                Expr::Variable(Variable { name: copy_token(&token) }),
            ),
            _ => Err(
                ParseError {
                    message: String::from_str("Expect expression"),
                    token: copy_token(&token),
                },
            ),
        }
    }
}

} // verus!
