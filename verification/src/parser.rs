//! The parser: recursive descent from tokens to the syntax tree.
//!
//! Each grammar level is one function. On a syntax error the parser
//! records a `{line, message}` detail and synchronises at a statement
//! boundary; the result is the statement list, or the batch of faults if
//! any were recorded. `for` loops are desugared here into `while` blocks,
//! so later phases never see them.

use std::rc::Rc;
use vstd::prelude::*;
use vstd::string::StringExecFns;
use crate::ast::AssignExpression;
use crate::ast::BinaryExpression;
use crate::ast::BinaryOperator;
use crate::ast::BlockStatement;
use crate::ast::CallExpression;
use crate::ast::ClassStatement;
use crate::ast::Expr;
use crate::ast::ExpressionStatement;
use crate::ast::FunctionStatement;
use crate::ast::GetExpression;
use crate::ast::GroupingExpression;
use crate::ast::IfStatement;
use crate::ast::LiteralExpression;
use crate::ast::LogicalExpression;
use crate::ast::LogicalOperator;
use crate::ast::NegExpression;
use crate::ast::NilExpression;
use crate::ast::NotExpression;
use crate::ast::Parameter;
use crate::ast::PrintStatement;
use crate::ast::ReturnStatement;
use crate::ast::SetExpression;
use crate::ast::Stmt;
use crate::ast::SuperExpression;
use crate::ast::ThisExpression;
use crate::ast::VarStatement;
use crate::ast::VariableExpression;
use crate::ast::WhileStatement;
use crate::ast::ExprView;
use crate::ast::FunctionStatementView;
use crate::ast::ParameterView;
use crate::ast::StmtView;
use crate::ast::VariableExpressionView;
use crate::ast::expr_view;
use crate::ast::params_view;
use crate::ast::exprs_view;
use crate::ast::function_view;
use crate::ast::functions_view;
use crate::ast::stmt_view;
use crate::ast::stmts_view;
use crate::error::Error;
use crate::error::ErrorDetail;
use crate::error::ErrorDetailView;
use crate::error::ErrorView;
use crate::loxtype::LoxType;
use crate::loxtype::LoxTypeView;
use crate::token::Literal;
use crate::token::LiteralView;
use crate::token::Token;
use crate::token::TokenType;
use crate::token::TokenView;
use crate::token::token_type_name;
use crate::token::tokens_view;

verus! {

/// What kind of function declaration is being parsed.
#[derive(Debug, Clone, Copy, PartialEq, Eq, Structural)]
pub enum FunctionKind {
    Function,
    Method,
}

/// The parser state: the token slice (whose last token is the end-of-input
/// sentinel, never consumed), the cursor, the faults so far, and the line
/// for faults at the very end.
pub struct Parser<'a> {
    tokens: &'a Vec<Token>,
    pos: usize,
    end: usize,
    errors: Vec<ErrorDetail>,
    last_line: u32,
}

/// Mathematical image of the parser state: the token images, the index of
/// the end-of-input sentinel, the line for faults at the very end, the
/// cursor, and the faults recorded so far.
#[verifier::ext_equal]
pub struct ParserV {
    pub toks: Seq<TokenView>,
    pub end: int,
    pub last_line: u32,
    pub pos: int,
    pub errors: Seq<ErrorDetailView>,
}

impl<'a> View for Parser<'a> {
    type V = ParserV;

    closed spec fn view(&self) -> ParserV {
        ParserV {
            toks: crate::token::tokens_view(self.tokens@),
            end: self.end as int,
            last_line: self.last_line,
            pos: self.pos as int,
            errors: crate::error::details_view(self.errors@),
        }
    }
}

impl<'a> Parser<'a> {
    /// The cursor stays inside the tokens, before the sentinel.
    pub open spec fn inv(&self) -> bool {
        0 <= self@.pos <= self@.end < self@.toks.len()
    }

    /// The token input is fixed.
    pub open spec fn same_input(&self, other: &Self) -> bool {
        self@.toks == other@.toks && self@.end == other@.end && self@.last_line
            == other@.last_line
    }

    /// Where the cursor stands.
    pub open spec fn position(&self) -> int {
        self@.pos
    }

    /// How many faults were recorded.
    pub open spec fn fault_count(&self) -> int {
        self@.errors.len() as int
    }

    /// A parser over a scanned token sequence (which always ends in the
    /// end-of-input sentinel).
    pub fn new(tokens: &'a Vec<Token>) -> (r: Self)
        requires
            tokens@.len() >= 1,
        ensures
            r.inv(),
            r.fault_count() == 0,
            r@.toks == tokens_view(tokens@),
            r@.end == tokens@.len() - 1,
            r@.pos == 0,
            r@.errors == Seq::<ErrorDetailView>::empty(),
            r@.last_line == (if tokens@.len() >= 2 {
                tokens@[tokens@.len() - 2]@.line
            } else {
                1u32
            }),
    {
        let last_line = if tokens.len() >= 2 {
            tokens[tokens.len() - 2].line
        } else {
            1
        };
        let r = Parser { tokens, pos: 0, end: tokens.len() - 1, errors: Vec::new(), last_line };
        proof {
            assert(r@.errors =~= Seq::<ErrorDetailView>::empty());
        }
        r
    }

    fn at_end(&self) -> (r: bool)
        requires
            self.inv(),
        ensures
            r == (self.position() == self.end as int),
    {
        self.pos >= self.end
    }

    /// The kind of the next token, or `None` at the end.
    fn peek_ty(&self) -> (r: Option<TokenType>)
        requires
            self.inv(),
        ensures
            r is Some <==> self.position() < self.end as int,
            r == (if self@.pos < self@.end {
                Some(self@.toks[self@.pos].ty)
            } else {
                None::<TokenType>
            }),
    {
        if self.pos < self.end {
            Some(self.tokens[self.pos].ty)
        } else {
            None
        }
    }

    fn advance(&mut self) -> (r: &'a Token)
        requires
            old(self).inv(),
            old(self).position() < old(self).end as int,
        ensures
            final(self).inv(),
            final(self).same_input(old(self)),
            final(self).position() == old(self).position() + 1,
            final(self).fault_count() == old(self).fault_count(),
            final(self)@ == adv_spec(old(self)@),
            r@ == old(self)@.toks[old(self)@.pos],
    {
        let t = &self.tokens[self.pos];
        self.pos = self.pos + 1;
        proof {
            assert(self@ =~= adv_spec(old(self)@));
        }
        t
    }

    /// Consumes the next token when it has the wanted kind.
    fn match_type(&mut self, tt: TokenType) -> (r: Option<&'a Token>)
        requires
            old(self).inv(),
        ensures
            final(self).inv(),
            final(self).same_input(old(self)),
            final(self).fault_count() == old(self).fault_count(),
            r is Some ==> final(self).position() == old(self).position() + 1,
            r is None ==> final(self).position() == old(self).position(),
            (opt_tok(r), final(self)@) == match_spec(old(self)@, tt),
    {
        if self.pos < self.end {
            if self.tokens[self.pos].ty == tt {
                let t = self.advance();
                return Some(t);
            }
        }
        None
    }

    /// Consumes the next token when it has the wanted kind, as a flag.
    fn is_next_token_type(&mut self, tt: TokenType) -> (r: bool)
        requires
            old(self).inv(),
        ensures
            final(self).inv(),
            final(self).same_input(old(self)),
            final(self).fault_count() == old(self).fault_count(),
            r ==> final(self).position() == old(self).position() + 1,
            !r ==> final(self).position() == old(self).position(),
            final(self)@ == match_spec(old(self)@, tt).1,
            r == (match_spec(old(self)@, tt).0 is Some),
    {
        match self.match_type(tt) {
            Some(_) => true,
            None => false,
        }
    }

    /// Requires the next token to have the wanted kind; otherwise the
    /// `Expect '<token>'.` fault.
    fn consume(&mut self, token_ty: TokenType) -> (r: Result<&'a Token, ErrorDetail>)
        requires
            old(self).inv(),
        ensures
            final(self).inv(),
            final(self).same_input(old(self)),
            final(self).fault_count() == old(self).fault_count(),
            r is Ok ==> final(self).position() == old(self).position() + 1,
            r is Err ==> final(self).position() == old(self).position(),
            (tok_res(r), final(self)@) == consume_spec(old(self)@, token_ty),
    {
        if self.pos < self.end {
            if self.tokens[self.pos].ty == token_ty {
                let t = self.advance();
                return Ok(t);
            }
            let line = self.tokens[self.pos].line;
            let mut msg = String::from_str("Expect '");
            let name = token_ty.name();
            msg.append(name.as_str());
            msg.append("'.");
            let d = ErrorDetail::from_string(line, msg);
            proof {
                assert(d@.message =~= expect_msg(token_ty));
            }
            return Err(d);
        }
        let mut msg = String::from_str("Expect '");
        let name = token_ty.name();
        msg.append(name.as_str());
        msg.append("'.");
        let d = ErrorDetail::from_string(self.last_line, msg);
        proof {
            assert(d@.message =~= expect_msg(token_ty));
        }
        Err(d)
    }

    /// Discards tokens to the next statement boundary after a fault.
    fn synchronize(&mut self)
        requires
            old(self).inv(),
        ensures
            final(self).inv(),
            final(self).same_input(old(self)),
            final(self).fault_count() == old(self).fault_count(),
            final(self).position() >= old(self).position(),
            final(self)@ == sync_spec(old(self)@),
        decreases old(self).end - old(self).pos,
    {
        while self.pos < self.end
            invariant
                self.inv(),
                self.same_input(old(self)),
                self.fault_count() == old(self).fault_count(),
                self.position() >= old(self).position(),
                sync_spec(old(self)@) == sync_spec(self@),
            decreases self.end - self.pos,
        {
            let ty = self.tokens[self.pos].ty;
            if ty == TokenType::Semicolon {
                let _ = self.advance();
                return ;
            }
            if ty == TokenType::Class || ty == TokenType::Fun || ty == TokenType::Var || ty
                == TokenType::For || ty == TokenType::If || ty == TokenType::While || ty
                == TokenType::Print || ty == TokenType::Return {
                return ;
            }
            let _ = self.advance();
        }
    }

    /// Parses the whole program: the statement list, or the recorded
    /// syntax faults as a batch.
    pub fn parse(self) -> (r: Result<Vec<Stmt>, Error>)
        requires
            self.inv(),
        ensures
            ({
                let (stmts, st2) = program_rest_spec(self@, Seq::<StmtView>::empty());
                match r {
                    Ok(ss) => st2.errors.len() == 0 && stmts_view(ss@) == stmts,
                    Err(e) => st2.errors.len() > 0 && e@ == ErrorView::SyntaxErrors(st2.errors),
                }
            }),
    {
        let mut this = self;
        let start: Vec<Stmt> = Vec::new();
        proof {
            assert(stmts_view(start@) =~= Seq::<StmtView>::empty());
        }
        let statements = this.program_rest(start);
        if this.errors.len() == 0 {
            Ok(statements)
        } else {
            Err(Error::SyntaxErrors(this.errors))
        }
    }

    /// The declarations up to the end of the input, with a fault recorded
    /// and the cursor synchronised past each syntax error.
    #[verifier::rlimit(50)]
    #[verifier::spinoff_prover]
    fn program_rest(&mut self, statements: Vec<Stmt>) -> (r: Vec<Stmt>)
        requires
            old(self).inv(),
        ensures
            final(self).inv(),
            final(self).same_input(old(self)),
            (stmts_view(r@), final(self)@) == program_rest_spec(
                old(self)@,
                stmts_view(statements@),
            ),
        decreases old(self).end - old(self).pos,
    {
        if self.pos < self.end {
            let pre_pos = self.pos;
            match self.declaration() {
                Ok(s) => {
                    let ghost s0 = statements@;
                    let mut statements2 = statements;
                    proof {
                        crate::ast::lemma_stmts_view_push(s0, s);
                    }
                    statements2.push(s);
                    self.program_rest(statements2)
                },
                Err(e) => {
                    let ghost pre_err = self@;
                    let ghost dv = e@;
                    self.errors.push(e);
                    proof {
                        assert(self@ =~= fault_spec(pre_err, dv));
                    }
                    self.synchronize();
                    if self.pos == pre_pos && self.pos < self.end {
                        let _ = self.advance();
                    }
                    self.program_rest(statements)
                },
            }
        } else {
            statements
        }
    }

    #[verifier::rlimit(50)]
    #[verifier::spinoff_prover]
    fn declaration(&mut self) -> (r: Result<Stmt, ErrorDetail>)
        requires
            old(self).inv(),
            old(self).position() < old(self).end as int,
        ensures
            final(self).inv(),
            final(self).same_input(old(self)),
            final(self).fault_count() >= old(self).fault_count(),
            final(self).position() >= old(self).position(),
            r is Ok ==> final(self).position() > old(self).position(),
            (stmt_res(r), final(self)@) == declaration_spec(old(self)@),
        decreases old(self).end - old(self).pos, 30int,
    {
        let ty = self.tokens[self.pos].ty;
        if ty == TokenType::Var {
            self.var_declaration()
        } else if ty == TokenType::Fun {
            let stmt = self.function(FunctionKind::Function)?;
            Ok(Stmt::Function(stmt))
        } else if ty == TokenType::Class {
            self.class_declaration()
        } else {
            self.statement()
        }
    }

    /// A function declaration (after `fun`) or a method: its name checked,
    /// the rest handed on.
    fn function(&mut self, kind: FunctionKind) -> (r: Result<FunctionStatement, ErrorDetail>)
        requires
            old(self).inv(),
            old(self).position() < old(self).end as int,
        ensures
            final(self).inv(),
            final(self).same_input(old(self)),
            final(self).fault_count() >= old(self).fault_count(),
            final(self).position() >= old(self).position(),
            r is Ok ==> final(self).position() > old(self).position(),
            (fun_res(r), final(self)@) == function_spec(old(self)@, kind),
        decreases old(self).end - old(self).pos, 29int,
    {
        if kind == FunctionKind::Function {
            let fun_token = self.advance();
            let line = fun_token.line;
            if self.at_end() || self.tokens[self.pos].ty != TokenType::Identifier {
                let message = "Expect function name.";
                return Err(ErrorDetail::new(line, message));
            }
            self.function_after_name(line)
        } else {
            if self.at_end() || self.tokens[self.pos].ty != TokenType::Identifier {
                let line2 = if self.pos < self.end {
                    self.tokens[self.pos].line
                } else {
                    self.last_line
                };
                return Err(ErrorDetail::new(line2, "Expect method name."));
            }
            let line = self.tokens[self.pos].line;
            self.function_after_name(line)
        }
    }

    /// The name, parameter list and body of a function declaration.
    #[verifier::rlimit(50)]
    #[verifier::spinoff_prover]
    fn function_after_name(&mut self, line: u32) -> (r: Result<FunctionStatement, ErrorDetail>)
        requires
            old(self).inv(),
            old(self).position() < old(self).end as int,
        ensures
            final(self).inv(),
            final(self).same_input(old(self)),
            final(self).fault_count() >= old(self).fault_count(),
            final(self).position() >= old(self).position(),
            r is Ok ==> final(self).position() > old(self).position(),
            (fun_res(r), final(self)@) == function_after_name_spec(old(self)@, line),
        decreases old(self).end - old(self).pos, 28int,
    {
        let name_token = self.advance();
        let name = name_token.lexeme.clone();
        self.consume(TokenType::LeftParen)?;
        let proceed = match self.peek_ty() {
            Some(t) => t != TokenType::RightParen,
            None => false,
        };
        let parameters: Vec<Parameter> = Vec::new();
        proof {
            assert(params_view(parameters@) =~= Seq::<ParameterView>::empty());
        }
        if proceed {
            self.fn_params(name, line, parameters)
        } else {
            self.fn_tail(name, line, parameters)
        }
    }

    /// The comma-separated parameter list of a function declaration, then
    /// its tail.
    #[verifier::rlimit(50)]
    #[verifier::spinoff_prover]
    fn fn_params(&mut self, name: String, line: u32, parameters: Vec<Parameter>) -> (r: Result<
        FunctionStatement,
        ErrorDetail,
    >)
        requires
            old(self).inv(),
        ensures
            final(self).inv(),
            final(self).same_input(old(self)),
            final(self).fault_count() >= old(self).fault_count(),
            final(self).position() >= old(self).position(),
            r is Ok ==> final(self).position() > old(self).position(),
            (fun_res(r), final(self)@) == params_rest_spec(
                old(self)@,
                name@,
                line,
                params_view(parameters@),
            ),
        decreases old(self).end - old(self).pos, 33int,
    {
        let identifier = self.consume(TokenType::Identifier)?;
        let ghost p0 = parameters@;
        let mut parameters2 = parameters;
        parameters2.push(Parameter { name: identifier.lexeme.clone(), line: identifier.line });
        proof {
            assert(params_view(parameters2@) =~= params_view(p0).push(
                ParameterView { name: identifier.lexeme@, line: identifier.line },
            ));
        }
        if self.is_next_token_type(TokenType::Comma) {
            self.fn_params(name, line, parameters2)
        } else {
            self.fn_tail(name, line, parameters2)
        }
    }

    /// The closing `)` of a parameter list, the 255 ceiling, and the body.
    #[verifier::rlimit(50)]
    #[verifier::spinoff_prover]
    fn fn_tail(&mut self, name: String, line: u32, parameters: Vec<Parameter>) -> (r: Result<
        FunctionStatement,
        ErrorDetail,
    >)
        requires
            old(self).inv(),
        ensures
            final(self).inv(),
            final(self).same_input(old(self)),
            final(self).fault_count() >= old(self).fault_count(),
            final(self).position() >= old(self).position(),
            r is Ok ==> final(self).position() > old(self).position(),
            (fun_res(r), final(self)@) == function_tail_spec(
                old(self)@,
                name@,
                line,
                params_view(parameters@),
            ),
        decreases old(self).end - old(self).pos, 32int,
    {
        let paren_token = self.consume(TokenType::RightParen)?;
        let ghost pre = self@;
        if parameters.len() > 255 {
            let d = ErrorDetail::new(paren_token.line, "Can't have more than 255 parameters.");
            let ghost dv = d@;
            self.errors.push(d);
            proof {
                assert(self@ =~= fault_spec(pre, dv));
            }
        }
        self.consume(TokenType::LeftBrace)?;
        let block = self.block_statement()?;
        Ok(
            FunctionStatement {
                name,
                parameters,
                statements: Rc::new(block.statements),
                line,
            },
        )
    }

    /// `class IDENT ( < IDENT )? { method* }`
    #[verifier::rlimit(50)]
    #[verifier::spinoff_prover]
    fn class_declaration(&mut self) -> (r: Result<Stmt, ErrorDetail>)
        requires
            old(self).inv(),
            old(self).position() < old(self).end as int,
        ensures
            final(self).inv(),
            final(self).same_input(old(self)),
            final(self).fault_count() >= old(self).fault_count(),
            final(self).position() >= old(self).position(),
            r is Ok ==> final(self).position() > old(self).position(),
            (stmt_res(r), final(self)@) == class_declaration_spec(old(self)@),
        decreases old(self).end - old(self).pos, 29int,
    {
        let class_token = self.advance();
        let line = class_token.line;
        let name_token = self.consume(TokenType::Identifier)?;
        let name = name_token.lexeme.clone();

        let maybe_superclass = if self.is_next_token_type(TokenType::Less) {
            let sup = self.consume(TokenType::Identifier)?;
            Some(
                VariableExpression {
                    name: sup.lexeme.clone(),
                    maybe_distance: None,
                    line: sup.line,
                },
            )
        } else {
            None
        };

        self.consume(TokenType::LeftBrace)?;
        let methods: Vec<FunctionStatement> = Vec::new();
        proof {
            assert(functions_view(methods@) =~= Seq::<FunctionStatementView>::empty());
        }
        self.class_methods(name, maybe_superclass, line, methods)
    }

    /// The methods of a class body up to the closing `}`, and the node.
    fn class_methods(
        &mut self,
        name: String,
        maybe_superclass: Option<VariableExpression>,
        line: u32,
        methods: Vec<FunctionStatement>,
    ) -> (r: Result<Stmt, ErrorDetail>)
        requires
            old(self).inv(),
        ensures
            final(self).inv(),
            final(self).same_input(old(self)),
            final(self).fault_count() >= old(self).fault_count(),
            final(self).position() >= old(self).position(),
            r is Ok ==> final(self).position() > old(self).position(),
            (stmt_res(r), final(self)@) == methods_rest_spec(
                old(self)@,
                name@,
                (match maybe_superclass {
                    Some(v) => Some(v@),
                    None => None::<VariableExpressionView>,
                }),
                line,
                functions_view(methods@),
            ),
        decreases old(self).end - old(self).pos, 30int,
    {
        let proceed = !self.at_end() && self.tokens[self.pos].ty != TokenType::RightBrace;
        if proceed {
            let method = self.function(FunctionKind::Method)?;
            let ghost m0 = methods@;
            let mut methods2 = methods;
            proof {
                crate::ast::lemma_functions_view_push(m0, method);
            }
            methods2.push(method);
            self.class_methods(name, maybe_superclass, line, methods2)
        } else {
            self.consume(TokenType::RightBrace)?;
            Ok(
                Stmt::Class(
                    ClassStatement { name, methods: Rc::new(methods), maybe_superclass, line },
                ),
            )
        }
    }

    #[verifier::rlimit(50)]
    #[verifier::spinoff_prover]
    fn var_declaration(&mut self) -> (r: Result<Stmt, ErrorDetail>)
        requires
            old(self).inv(),
            old(self).position() < old(self).end as int,
        ensures
            final(self).inv(),
            final(self).same_input(old(self)),
            final(self).fault_count() >= old(self).fault_count(),
            final(self).position() >= old(self).position(),
            r is Ok ==> final(self).position() > old(self).position(),
            (stmt_res(r), final(self)@) == var_declaration_spec(old(self)@),
        decreases old(self).end - old(self).pos, 28int,
    {
        let var_token = self.advance();
        let line = var_token.line;
        let name = self.consume(TokenType::Identifier)?;

        let initializer = if self.is_next_token_type(TokenType::Equal) {
            Some(Box::new(self.expression()?))
        } else {
            None
        };
        self.consume(TokenType::Semicolon)?;
        Ok(Stmt::Var(VarStatement { name: name.lexeme.clone(), initializer, line }))
    }

    #[verifier::rlimit(50)]
    #[verifier::spinoff_prover]
    fn statement(&mut self) -> (r: Result<Stmt, ErrorDetail>)
        requires
            old(self).inv(),
        ensures
            final(self).inv(),
            final(self).same_input(old(self)),
            final(self).fault_count() >= old(self).fault_count(),
            final(self).position() >= old(self).position(),
            r is Ok ==> final(self).position() > old(self).position(),
            (stmt_res(r), final(self)@) == statement_spec(old(self)@),
        decreases old(self).end - old(self).pos, 28int,
    {
        if self.at_end() {
            return self.expression_statement();
        }
        let ty = self.tokens[self.pos].ty;
        if ty == TokenType::For {
            let _ = self.advance();
            self.for_statement()
        } else if ty == TokenType::If {
            let _ = self.advance();
            self.if_statement()
        } else if ty == TokenType::LeftBrace {
            let _ = self.advance();
            let b = self.block_statement()?;
            Ok(Stmt::Block(b))
        } else if ty == TokenType::Print {
            self.print_statement()
        } else if ty == TokenType::Return {
            self.return_statement()
        } else if ty == TokenType::While {
            let _ = self.advance();
            self.while_statement()
        } else {
            self.expression_statement()
        }
    }

    #[verifier::rlimit(50)]
    #[verifier::spinoff_prover]
    fn return_statement(&mut self) -> (r: Result<Stmt, ErrorDetail>)
        requires
            old(self).inv(),
            old(self).position() < old(self).end as int,
        ensures
            final(self).inv(),
            final(self).same_input(old(self)),
            final(self).fault_count() >= old(self).fault_count(),
            final(self).position() >= old(self).position(),
            r is Ok ==> final(self).position() > old(self).position(),
            (stmt_res(r), final(self)@) == return_statement_spec(old(self)@),
        decreases old(self).end - old(self).pos, 27int,
    {
        let return_token = self.advance();
        let line = return_token.line;
        let has_value = match self.peek_ty() {
            Some(t) => t != TokenType::Semicolon,
            None => false,
        };
        let maybe_expression = if has_value {
            Some(Box::new(self.expression()?))
        } else {
            None
        };
        self.consume(TokenType::Semicolon)?;
        Ok(Stmt::Return(ReturnStatement { maybe_expression, line }))
    }

    /// `for (init; cond; incr) body` desugared to
    /// `{ init; while (cond) { body; incr; } }`; the condition defaults to
    /// `true`.
    #[verifier::rlimit(50)]
    #[verifier::spinoff_prover]
    fn for_statement(&mut self) -> (r: Result<Stmt, ErrorDetail>)
        requires
            old(self).inv(),
        ensures
            final(self).inv(),
            final(self).same_input(old(self)),
            final(self).fault_count() >= old(self).fault_count(),
            final(self).position() >= old(self).position(),
            r is Ok ==> final(self).position() > old(self).position(),
            (stmt_res(r), final(self)@) == for_statement_spec(old(self)@),
        decreases old(self).end - old(self).pos, 27int,
    {
        self.consume(TokenType::LeftParen)?;

        if self.is_next_token_type(TokenType::Semicolon) {
            self.for_cond(None)
        } else {
            let next_is_var = match self.peek_ty() {
                Some(t) => t == TokenType::Var,
                None => false,
            };
            let initializer = if next_is_var {
                self.var_declaration()?
            } else {
                self.expression_statement()?
            };
            self.for_cond(Some(initializer))
        }
    }

    /// The condition clause of a `for`, then the rest.
    #[verifier::rlimit(50)]
    #[verifier::spinoff_prover]
    fn for_cond(&mut self, init: Option<Stmt>) -> (r: Result<Stmt, ErrorDetail>)
        requires
            old(self).inv(),
        ensures
            final(self).inv(),
            final(self).same_input(old(self)),
            final(self).fault_count() >= old(self).fault_count(),
            final(self).position() >= old(self).position(),
            r is Ok ==> final(self).position() > old(self).position(),
            (stmt_res(r), final(self)@) == for_cond_spec(old(self)@, opt_stmt_view(init)),
        decreases old(self).end - old(self).pos, 26int,
    {
        if self.is_next_token_type(TokenType::Semicolon) {
            self.for_incr(init, None)
        } else {
            let c = self.expression()?;
            self.consume(TokenType::Semicolon)?;
            self.for_incr(init, Some(c))
        }
    }

    /// The increment clause of a `for`, then its body.
    #[verifier::rlimit(50)]
    #[verifier::spinoff_prover]
    fn for_incr(&mut self, init: Option<Stmt>, cond: Option<Expr>) -> (r: Result<
        Stmt,
        ErrorDetail,
    >)
        requires
            old(self).inv(),
        ensures
            final(self).inv(),
            final(self).same_input(old(self)),
            final(self).fault_count() >= old(self).fault_count(),
            final(self).position() >= old(self).position(),
            r is Ok ==> final(self).position() > old(self).position(),
            (stmt_res(r), final(self)@) == for_incr_spec(
                old(self)@,
                opt_stmt_view(init),
                opt_expr_view(cond),
            ),
        decreases old(self).end - old(self).pos, 26int,
    {
        if self.is_next_token_type(TokenType::RightParen) {
            self.for_body(init, cond, None)
        } else {
            let i = self.expression()?;
            self.consume(TokenType::RightParen)?;
            self.for_body(init, cond, Some(i))
        }
    }

    /// The body of a `for`, and the desugaring into a `while` block.
    #[verifier::rlimit(100)]
    #[verifier::spinoff_prover]
    fn for_body(&mut self, init: Option<Stmt>, cond: Option<Expr>, incr: Option<Expr>) -> (r:
        Result<Stmt, ErrorDetail>)
        requires
            old(self).inv(),
        ensures
            final(self).inv(),
            final(self).same_input(old(self)),
            final(self).fault_count() >= old(self).fault_count(),
            final(self).position() >= old(self).position(),
            r is Ok ==> final(self).position() > old(self).position(),
            (stmt_res(r), final(self)@) == for_body_spec(
                old(self)@,
                opt_stmt_view(init),
                opt_expr_view(cond),
                opt_expr_view(incr),
            ),
        decreases old(self).end - old(self).pos, 29int,
    {
        let ghost init_v = opt_stmt_view(init);
        let ghost cond_v = opt_expr_view(cond);
        let ghost incr_v = opt_expr_view(incr);
        let for_body = self.statement()?;
        let ghost bv = stmt_view(for_body);

        let condition = match cond {
            Some(c) => c,
            None => Expr::Literal(LiteralExpression(LoxType::Boolean(true))),
        };
        proof {
            assert(expr_view(condition) == (match cond_v {
                Some(c) => c,
                None => ExprView::Literal(LoxTypeView::Boolean(true)),
            }));
        }

        let mut body_statements: Vec<Stmt> = Vec::new();
        proof {
            assert(stmts_view(body_statements@) =~= Seq::<StmtView>::empty());
        }
        let ghost b0 = body_statements@;
        proof {
            crate::ast::lemma_stmts_view_push(b0, for_body);
        }
        body_statements.push(for_body);
        match incr {
            Some(increment) => {
                let ghost b1 = body_statements@;
                let inc_stmt = Stmt::Expression(ExpressionStatement(Box::new(increment)));
                let ghost iv = stmt_view(inc_stmt);
                proof {
                    crate::ast::lemma_stmts_view_push(b1, inc_stmt);
                }
                body_statements.push(inc_stmt);
                proof {
                    assert(incr_v matches Some(ix) && iv == StmtView::Expression(Box::new(ix)));
                    assert(stmts_view(body_statements@) =~= seq![bv, iv]);
                }
            },
            None => {
                proof {
                    assert(stmts_view(body_statements@) =~= seq![bv]);
                }
            },
        }
        let ghost body_stmts_v = stmts_view(body_statements@);
        let body = Stmt::Block(BlockStatement { statements: body_statements });
        let ghost bodyv = stmt_view(body);
        let ghost condv = expr_view(condition);
        proof {
            assert(bodyv == (StmtView::Block { statements: body_stmts_v }));
        }

        let while_statement = Stmt::While(
            WhileStatement { condition: Box::new(condition), body: Box::new(body) },
        );
        let ghost wv = stmt_view(while_statement);
        proof {
            assert(wv == (StmtView::While {
                condition: Box::new(condv),
                body: Box::new(bodyv),
            }));
        }
        let mut block_statements: Vec<Stmt> = Vec::new();
        proof {
            assert(stmts_view(block_statements@) =~= Seq::<StmtView>::empty());
        }
        match init {
            Some(initializer) => {
                let ghost c0 = block_statements@;
                proof {
                    crate::ast::lemma_stmts_view_push(c0, initializer);
                }
                block_statements.push(initializer);
            },
            None => {},
        }
        let ghost c1 = block_statements@;
        proof {
            crate::ast::lemma_stmts_view_push(c1, while_statement);
        }
        block_statements.push(while_statement);
        proof {
            match init_v {
                Some(ivx) => {
                    assert(stmts_view(block_statements@) =~= seq![ivx, wv]);
                },
                None => {
                    assert(stmts_view(block_statements@) =~= seq![wv]);
                },
            }
        }

        let result = Stmt::Block(BlockStatement { statements: block_statements });
        proof {
            let spec_r = for_body_spec(old(self)@, init_v, cond_v, incr_v);
            assert(self@ == spec_r.1);
            assert(spec_r.0 matches Ok(v) && stmt_view(result) =~~= v);
        }
        Ok(result)
    }

    #[verifier::rlimit(50)]
    #[verifier::spinoff_prover]
    fn while_statement(&mut self) -> (r: Result<Stmt, ErrorDetail>)
        requires
            old(self).inv(),
        ensures
            final(self).inv(),
            final(self).same_input(old(self)),
            final(self).fault_count() >= old(self).fault_count(),
            final(self).position() >= old(self).position(),
            r is Ok ==> final(self).position() > old(self).position(),
            (stmt_res(r), final(self)@) == while_statement_spec(old(self)@),
        decreases old(self).end - old(self).pos, 27int,
    {
        self.consume(TokenType::LeftParen)?;
        let condition = self.expression()?;
        self.consume(TokenType::RightParen)?;
        let body = self.statement()?;
        Ok(
            Stmt::While(
                WhileStatement { condition: Box::new(condition), body: Box::new(body) },
            ),
        )
    }

    #[verifier::rlimit(100)]
    #[verifier::spinoff_prover]
    fn if_statement(&mut self) -> (r: Result<Stmt, ErrorDetail>)
        requires
            old(self).inv(),
        ensures
            final(self).inv(),
            final(self).same_input(old(self)),
            final(self).fault_count() >= old(self).fault_count(),
            final(self).position() >= old(self).position(),
            r is Ok ==> final(self).position() > old(self).position(),
            (stmt_res(r), final(self)@) == if_statement_spec(old(self)@),
        decreases old(self).end - old(self).pos, 27int,
    {
        self.consume(TokenType::LeftParen)?;
        let condition = self.expression()?;
        self.consume(TokenType::RightParen)?;

        proof {
            assert(progress(old(self)@, self@));
        }
        let then_branch = self.statement()?;
        let else_branch = if self.is_next_token_type(TokenType::Else) {
            Some(Box::new(self.statement()?))
        } else {
            None
        };
        let result = Stmt::If(
            IfStatement {
                condition: Box::new(condition),
                then_branch: Box::new(then_branch),
                else_branch,
            },
        );
        proof {
            let spec_r = if_statement_spec(old(self)@);
            assert(self@ == spec_r.1);
            assert(spec_r.0 matches Ok(v) && stmt_view(result) =~~= v);
        }
        Ok(result)
    }

    #[verifier::rlimit(50)]
    #[verifier::spinoff_prover]
    fn print_statement(&mut self) -> (r: Result<Stmt, ErrorDetail>)
        requires
            old(self).inv(),
            old(self).position() < old(self).end as int,
        ensures
            final(self).inv(),
            final(self).same_input(old(self)),
            final(self).fault_count() >= old(self).fault_count(),
            final(self).position() >= old(self).position(),
            r is Ok ==> final(self).position() > old(self).position(),
            (stmt_res(r), final(self)@) == print_statement_spec(old(self)@),
        decreases old(self).end - old(self).pos, 27int,
    {
        let print_token = self.advance();
        let line = print_token.line;
        let expression = self.expression()?;
        self.consume(TokenType::Semicolon)?;
        Ok(Stmt::Print(PrintStatement { expression: Box::new(expression), line }))
    }

    /// The declarations up to the closing brace, which is consumed.
    #[verifier::rlimit(50)]
    #[verifier::spinoff_prover]
    fn block_statement(&mut self) -> (r: Result<BlockStatement, ErrorDetail>)
        requires
            old(self).inv(),
        ensures
            final(self).inv(),
            final(self).same_input(old(self)),
            final(self).fault_count() >= old(self).fault_count(),
            final(self).position() >= old(self).position(),
            r is Ok ==> final(self).position() > old(self).position(),
            (block_res(r), final(self)@) == block_statement_spec(old(self)@),
        decreases old(self).end - old(self).pos, 32int,
    {
        let statements: Vec<Stmt> = Vec::new();
        proof {
            assert(stmts_view(statements@) =~= Seq::<StmtView>::empty());
        }
        self.block_items(statements)
    }

    /// The declarations up to (and including) the closing brace.
    #[verifier::rlimit(50)]
    #[verifier::spinoff_prover]
    fn block_items(&mut self, statements: Vec<Stmt>) -> (r: Result<BlockStatement, ErrorDetail>)
        requires
            old(self).inv(),
        ensures
            final(self).inv(),
            final(self).same_input(old(self)),
            final(self).fault_count() >= old(self).fault_count(),
            final(self).position() >= old(self).position(),
            r is Ok ==> final(self).position() > old(self).position(),
            (block_res(r), final(self)@) == block_items_spec(old(self)@, stmts_view(statements@)),
        decreases old(self).end - old(self).pos, 31int,
    {
        let proceed = !self.at_end() && self.tokens[self.pos].ty != TokenType::RightBrace;
        if proceed {
            let s = self.declaration()?;
            let ghost s0 = statements@;
            let mut statements2 = statements;
            proof {
                crate::ast::lemma_stmts_view_push(s0, s);
            }
            statements2.push(s);
            self.block_items(statements2)
        } else {
            self.consume(TokenType::RightBrace)?;
            Ok(BlockStatement { statements })
        }
    }

    #[verifier::rlimit(50)]
    #[verifier::spinoff_prover]
    fn expression_statement(&mut self) -> (r: Result<Stmt, ErrorDetail>)
        requires
            old(self).inv(),
        ensures
            final(self).inv(),
            final(self).same_input(old(self)),
            final(self).fault_count() >= old(self).fault_count(),
            final(self).position() >= old(self).position(),
            r is Ok ==> final(self).position() > old(self).position(),
            (stmt_res(r), final(self)@) == expression_statement_spec(old(self)@),
        decreases old(self).end - old(self).pos, 27int,
    {
        let e = self.expression()?;
        self.consume(TokenType::Semicolon)?;
        Ok(Stmt::Expression(ExpressionStatement(Box::new(e))))
    }

    fn expression(&mut self) -> (r: Result<Expr, ErrorDetail>)
        requires
            old(self).inv(),
        ensures
            final(self).inv(),
            final(self).same_input(old(self)),
            final(self).fault_count() >= old(self).fault_count(),
            final(self).position() >= old(self).position(),
            r is Ok ==> final(self).position() > old(self).position(),
            (expr_res(r), final(self)@) == expression_spec(old(self)@),
        decreases old(self).end - old(self).pos, 20int,
    {
        self.assignment()
    }

    /// Parses the left side as a general expression, then reinterprets it
    /// on `=`: a variable becomes an assignment, a property read becomes a
    /// property write; anything else records `Invalid assignment target.`
    /// and keeps the left side.
    fn assignment(&mut self) -> (r: Result<Expr, ErrorDetail>)
        requires
            old(self).inv(),
        ensures
            final(self).inv(),
            final(self).same_input(old(self)),
            final(self).fault_count() >= old(self).fault_count(),
            final(self).position() >= old(self).position(),
            r is Ok ==> final(self).position() > old(self).position(),
            (expr_res(r), final(self)@) == assignment_spec(old(self)@),
        decreases old(self).end - old(self).pos, 19int,
    {
        let expr = self.or()?;

        match self.match_type(TokenType::Equal) {
            Some(eq_token) => {
                let eq_line = eq_token.line;
                let value = self.assignment()?;
                match expr {
                    Expr::Variable(var_expr) => Ok(
                        Expr::Assign(
                            AssignExpression {
                                name: var_expr.name,
                                value: Box::new(value),
                                maybe_distance: None,
                                line: eq_line,
                            },
                        ),
                    ),
                    Expr::Get(get_expr) => Ok(
                        Expr::SetProp(
                            SetExpression {
                                object: get_expr.object,
                                name: get_expr.name,
                                value: Box::new(value),
                                line: eq_line,
                            },
                        ),
                    ),
                    _ => {
                        let ghost pre = self@;
                        let d = ErrorDetail::new(eq_line, "Invalid assignment target.");
                        let ghost dv = d@;
                        self.errors.push(d);
                        proof {
                            assert(self@.errors =~= pre.errors.push(dv));
                            assert(self@ =~= fault_spec(pre, dv));
                        }
                        Ok(expr)
                    },
                }
            },
            None => Ok(expr),
        }
    }

    fn or(&mut self) -> (r: Result<Expr, ErrorDetail>)
        requires
            old(self).inv(),
        ensures
            final(self).inv(),
            final(self).same_input(old(self)),
            final(self).fault_count() >= old(self).fault_count(),
            final(self).position() >= old(self).position(),
            r is Ok ==> final(self).position() > old(self).position(),
            (expr_res(r), final(self)@) == or_spec(old(self)@),
        decreases old(self).end - old(self).pos, 18int,
    {
        let mut expr = self.and()?;

        while self.pos < self.end && self.tokens[self.pos].ty == TokenType::Or
            invariant
                self.inv(),
                self.same_input(old(self)),
                self.fault_count() >= old(self).fault_count(),
                self.position() > old(self).position(),
                or_spec(old(self)@) == or_rest_spec(self@, expr_view(expr)),
            decreases self.end - self.pos,
        {
            let _ = self.advance();
            let right = self.and()?;
            expr = Expr::Logical(
                LogicalExpression {
                    left: Box::new(expr),
                    right: Box::new(right),
                    operator: LogicalOperator::Or,
                },
            );
        }
        Ok(expr)
    }

    fn and(&mut self) -> (r: Result<Expr, ErrorDetail>)
        requires
            old(self).inv(),
        ensures
            final(self).inv(),
            final(self).same_input(old(self)),
            final(self).fault_count() >= old(self).fault_count(),
            final(self).position() >= old(self).position(),
            r is Ok ==> final(self).position() > old(self).position(),
            (expr_res(r), final(self)@) == and_spec(old(self)@),
        decreases old(self).end - old(self).pos, 17int,
    {
        let mut expr = self.equality()?;

        while self.pos < self.end && self.tokens[self.pos].ty == TokenType::And
            invariant
                self.inv(),
                self.same_input(old(self)),
                self.fault_count() >= old(self).fault_count(),
                self.position() > old(self).position(),
                and_spec(old(self)@) == and_rest_spec(self@, expr_view(expr)),
            decreases self.end - self.pos,
        {
            let _ = self.advance();
            let right = self.equality()?;
            expr = Expr::Logical(
                LogicalExpression {
                    left: Box::new(expr),
                    right: Box::new(right),
                    operator: LogicalOperator::And,
                },
            );
        }
        Ok(expr)
    }

    fn equality(&mut self) -> (r: Result<Expr, ErrorDetail>)
        requires
            old(self).inv(),
        ensures
            final(self).inv(),
            final(self).same_input(old(self)),
            final(self).fault_count() >= old(self).fault_count(),
            final(self).position() >= old(self).position(),
            r is Ok ==> final(self).position() > old(self).position(),
            (expr_res(r), final(self)@) == equality_spec(old(self)@),
        decreases old(self).end - old(self).pos, 16int,
    {
        let mut expr = self.comparison()?;

        while self.pos < self.end && (self.tokens[self.pos].ty == TokenType::BangEqual
            || self.tokens[self.pos].ty == TokenType::EqualEqual)
            invariant
                self.inv(),
                self.same_input(old(self)),
                self.fault_count() >= old(self).fault_count(),
                self.position() > old(self).position(),
                equality_spec(old(self)@) == equality_rest_spec(self@, expr_view(expr)),
            decreases self.end - self.pos,
        {
            let operator = self.advance();
            let op = if operator.ty == TokenType::BangEqual {
                BinaryOperator::NotEqual
            } else {
                BinaryOperator::Equal
            };
            let right = self.comparison()?;
            expr = Expr::Binary(
                BinaryExpression {
                    left: Box::new(expr),
                    right: Box::new(right),
                    operator: op,
                    line: operator.line,
                },
            );
        }
        Ok(expr)
    }

    #[verifier::rlimit(50)]
    fn comparison(&mut self) -> (r: Result<Expr, ErrorDetail>)
        requires
            old(self).inv(),
        ensures
            final(self).inv(),
            final(self).same_input(old(self)),
            final(self).fault_count() >= old(self).fault_count(),
            final(self).position() >= old(self).position(),
            r is Ok ==> final(self).position() > old(self).position(),
            (expr_res(r), final(self)@) == comparison_spec(old(self)@),
        decreases old(self).end - old(self).pos, 15int,
    {
        let mut expr = self.term()?;

        while self.pos < self.end && (self.tokens[self.pos].ty == TokenType::Greater
            || self.tokens[self.pos].ty == TokenType::GreaterEqual || self.tokens[self.pos].ty
            == TokenType::Less || self.tokens[self.pos].ty == TokenType::LessEqual)
            invariant
                self.inv(),
                self.same_input(old(self)),
                self.fault_count() >= old(self).fault_count(),
                self.position() > old(self).position(),
                comparison_spec(old(self)@) == comparison_rest_spec(self@, expr_view(expr)),
            decreases self.end - self.pos,
        {
            let operator = self.advance();
            let op = if operator.ty == TokenType::Greater {
                BinaryOperator::Greater
            } else if operator.ty == TokenType::GreaterEqual {
                BinaryOperator::GreaterOrEqual
            } else if operator.ty == TokenType::Less {
                BinaryOperator::Less
            } else {
                BinaryOperator::LessOrEqual
            };
            let right = self.term()?;
            expr = Expr::Binary(
                BinaryExpression {
                    left: Box::new(expr),
                    right: Box::new(right),
                    operator: op,
                    line: operator.line,
                },
            );
        }
        Ok(expr)
    }

    #[verifier::rlimit(50)]
    fn term(&mut self) -> (r: Result<Expr, ErrorDetail>)
        requires
            old(self).inv(),
        ensures
            final(self).inv(),
            final(self).same_input(old(self)),
            final(self).fault_count() >= old(self).fault_count(),
            final(self).position() >= old(self).position(),
            r is Ok ==> final(self).position() > old(self).position(),
            (expr_res(r), final(self)@) == term_spec(old(self)@),
        decreases old(self).end - old(self).pos, 14int,
    {
        let mut expr = self.factor()?;

        while self.pos < self.end && (self.tokens[self.pos].ty == TokenType::Minus
            || self.tokens[self.pos].ty == TokenType::Plus)
            invariant
                self.inv(),
                self.same_input(old(self)),
                self.fault_count() >= old(self).fault_count(),
                self.position() > old(self).position(),
                term_spec(old(self)@) == term_rest_spec(self@, expr_view(expr)),
            decreases self.end - self.pos,
        {
            let operator = self.advance();
            let op = if operator.ty == TokenType::Minus {
                BinaryOperator::Substract
            } else {
                BinaryOperator::Add
            };
            let right = self.factor()?;
            expr = Expr::Binary(
                BinaryExpression {
                    left: Box::new(expr),
                    right: Box::new(right),
                    operator: op,
                    line: operator.line,
                },
            );
        }
        Ok(expr)
    }

    #[verifier::rlimit(50)]
    fn factor(&mut self) -> (r: Result<Expr, ErrorDetail>)
        requires
            old(self).inv(),
        ensures
            final(self).inv(),
            final(self).same_input(old(self)),
            final(self).fault_count() >= old(self).fault_count(),
            final(self).position() >= old(self).position(),
            r is Ok ==> final(self).position() > old(self).position(),
            (expr_res(r), final(self)@) == factor_spec(old(self)@),
        decreases old(self).end - old(self).pos, 13int,
    {
        let mut expr = self.unary()?;

        while self.pos < self.end && (self.tokens[self.pos].ty == TokenType::Star
            || self.tokens[self.pos].ty == TokenType::Slash)
            invariant
                self.inv(),
                self.same_input(old(self)),
                self.fault_count() >= old(self).fault_count(),
                self.position() > old(self).position(),
                factor_spec(old(self)@) == factor_rest_spec(self@, expr_view(expr)),
            decreases self.end - self.pos,
        {
            let operator = self.advance();
            let op = if operator.ty == TokenType::Star {
                BinaryOperator::Multiply
            } else {
                BinaryOperator::Divide
            };
            let right = self.unary()?;
            expr = Expr::Binary(
                BinaryExpression {
                    left: Box::new(expr),
                    right: Box::new(right),
                    operator: op,
                    line: operator.line,
                },
            );
        }
        Ok(expr)
    }

    fn unary(&mut self) -> (r: Result<Expr, ErrorDetail>)
        requires
            old(self).inv(),
        ensures
            final(self).inv(),
            final(self).same_input(old(self)),
            final(self).fault_count() >= old(self).fault_count(),
            final(self).position() >= old(self).position(),
            r is Ok ==> final(self).position() > old(self).position(),
            (expr_res(r), final(self)@) == unary_spec(old(self)@),
        decreases old(self).end - old(self).pos, 12int,
    {
        if self.pos < self.end && (self.tokens[self.pos].ty == TokenType::Bang
            || self.tokens[self.pos].ty == TokenType::Minus) {
            let operator = self.advance();
            let expression = self.unary()?;
            if operator.ty == TokenType::Bang {
                return Ok(Expr::Not(NotExpression(Box::new(expression))));
            }
            return Ok(
                Expr::Neg(
                    NegExpression { expression: Box::new(expression), line: operator.line },
                ),
            );
        }
        self.call()
    }

    /// The arguments after the opening parenthesis, with the 255 ceiling.
    fn finish_call(&mut self, callee: Expr) -> (r: Result<Expr, ErrorDetail>)
        requires
            old(self).inv(),
        ensures
            final(self).inv(),
            final(self).same_input(old(self)),
            final(self).fault_count() >= old(self).fault_count(),
            final(self).position() >= old(self).position(),
            r is Ok ==> final(self).position() > old(self).position(),
            (expr_res(r), final(self)@) == finish_call_spec(old(self)@, expr_view(callee)),
        decreases old(self).end - old(self).pos, 28int,
    {
        let proceed = match self.peek_ty() {
            Some(t) => t != TokenType::RightParen,
            None => false,
        };
        let arguments: Vec<Expr> = Vec::new();
        proof {
            assert(exprs_view(arguments@) =~= Seq::<ExprView>::empty());
        }
        if proceed {
            self.args_rest(callee, arguments)
        } else {
            self.call_tail(callee, arguments)
        }
    }

    /// One more argument, then the rest of the list or the closing `)`.
    #[verifier::rlimit(50)]
    #[verifier::spinoff_prover]
    fn args_rest(&mut self, callee: Expr, arguments: Vec<Expr>) -> (r: Result<Expr, ErrorDetail>)
        requires
            old(self).inv(),
        ensures
            final(self).inv(),
            final(self).same_input(old(self)),
            final(self).fault_count() >= old(self).fault_count(),
            final(self).position() >= old(self).position(),
            r is Ok ==> final(self).position() > old(self).position(),
            (expr_res(r), final(self)@) == args_rest_spec(
                old(self)@,
                expr_view(callee),
                exprs_view(arguments@),
            ),
        decreases old(self).end - old(self).pos, 27int,
    {
        let a = self.expression()?;
        let ghost a0 = arguments@;
        let mut arguments2 = arguments;
        proof {
            crate::ast::lemma_exprs_view_push(a0, a);
        }
        arguments2.push(a);
        if self.is_next_token_type(TokenType::Comma) {
            self.args_rest(callee, arguments2)
        } else {
            self.call_tail(callee, arguments2)
        }
    }

    /// The closing `)` of a call, the 255 ceiling, and the node.
    #[verifier::rlimit(50)]
    #[verifier::spinoff_prover]
    fn call_tail(&mut self, callee: Expr, arguments: Vec<Expr>) -> (r: Result<Expr, ErrorDetail>)
        requires
            old(self).inv(),
        ensures
            final(self).inv(),
            final(self).same_input(old(self)),
            final(self).fault_count() >= old(self).fault_count(),
            final(self).position() >= old(self).position(),
            r is Ok ==> final(self).position() > old(self).position(),
            (expr_res(r), final(self)@) == call_tail_spec(
                old(self)@,
                expr_view(callee),
                exprs_view(arguments@),
            ),
    {
        let paren_token = self.consume(TokenType::RightParen)?;
        let ghost pre = self@;
        proof {
            crate::ast::lemma_exprs_view_len(arguments@);
        }
        if arguments.len() > 255 {
            let d = ErrorDetail::new(paren_token.line, "Can't have more than 255 arguments.");
            let ghost dv = d@;
            self.errors.push(d);
            proof {
                assert(self@ =~= fault_spec(pre, dv));
            }
        }
        Ok(
            Expr::Call(
                CallExpression { callee: Box::new(callee), arguments, line: paren_token.line },
            ),
        )
    }

    fn call(&mut self) -> (r: Result<Expr, ErrorDetail>)
        requires
            old(self).inv(),
        ensures
            final(self).inv(),
            final(self).same_input(old(self)),
            final(self).fault_count() >= old(self).fault_count(),
            final(self).position() >= old(self).position(),
            r is Ok ==> final(self).position() > old(self).position(),
            (expr_res(r), final(self)@) == call_spec(old(self)@),
        decreases old(self).end - old(self).pos, 11int,
    {
        let mut expr = self.primary()?;

        loop
            invariant_except_break
                self.inv(),
                self.same_input(old(self)),
                self.fault_count() >= old(self).fault_count(),
                self.position() > old(self).position(),
                call_spec(old(self)@) == call_rest_spec(self@, expr_view(expr)),
            ensures
                self.inv(),
                self.same_input(old(self)),
                self.fault_count() >= old(self).fault_count(),
                self.position() > old(self).position(),
                call_spec(old(self)@) == (Ok::<ExprView, ErrorDetailView>(expr_view(expr)), self@),
            decreases self.end - self.pos,
        {
            if self.is_next_token_type(TokenType::LeftParen) {
                expr = self.finish_call(expr)?;
            } else if self.pos < self.end && self.tokens[self.pos].ty == TokenType::Dot {
                let _ = self.advance();
                let name = self.consume(TokenType::Identifier)?;
                expr = Expr::Get(
                    GetExpression {
                        object: Box::new(expr),
                        name: name.lexeme.clone(),
                        line: name.line,
                    },
                );
            } else {
                break ;
            }
        }

        Ok(expr)
    }

    fn primary(&mut self) -> (r: Result<Expr, ErrorDetail>)
        requires
            old(self).inv(),
        ensures
            final(self).inv(),
            final(self).same_input(old(self)),
            final(self).fault_count() >= old(self).fault_count(),
            final(self).position() >= old(self).position(),
            r is Ok ==> final(self).position() > old(self).position(),
            (expr_res(r), final(self)@) == primary_spec(old(self)@),
        decreases old(self).end - old(self).pos, 9int,
    {
        if self.at_end() {
            return Err(ErrorDetail::new(self.last_line, "Expect expression."));
        }
        let token = self.advance();
        match token.ty {
            TokenType::Nil => Ok(Expr::Nil(NilExpression)),
            TokenType::True => Ok(Expr::Literal(LiteralExpression(LoxType::Boolean(true)))),
            TokenType::False => Ok(Expr::Literal(LiteralExpression(LoxType::Boolean(false)))),
            TokenType::Number => {
                match &token.literal {
                    Some(Literal::Number(n)) => Ok(
                        Expr::Literal(LiteralExpression(LoxType::Number(*n))),
                    ),
                    _ => Err(ErrorDetail::new(token.line, "Expect expression.")),
                }
            },
            TokenType::String => {
                match &token.literal {
                    Some(Literal::String(s)) => Ok(
                        Expr::Literal(LiteralExpression(LoxType::String(s.clone()))),
                    ),
                    _ => Err(ErrorDetail::new(token.line, "Expect expression.")),
                }
            },
            TokenType::LeftParen => {
                let expr = self.expression()?;
                self.consume(TokenType::RightParen)?;
                Ok(Expr::Grouping(GroupingExpression(Box::new(expr))))
            },
            TokenType::Identifier => Ok(
                Expr::Variable(
                    VariableExpression {
                        name: token.lexeme.clone(),
                        maybe_distance: None,
                        line: token.line,
                    },
                ),
            ),
            TokenType::This => Ok(
                Expr::This(ThisExpression { maybe_distance: None, line: token.line }),
            ),
            TokenType::Super => {
                self.consume(TokenType::Dot)?;
                let method = self.consume(TokenType::Identifier)?;
                Ok(
                    Expr::Super(
                        SuperExpression {
                            method: method.lexeme.clone(),
                            maybe_distance: None,
                            line: token.line,
                        },
                    ),
                )
            },
            _ => Err(ErrorDetail::new(token.line, "Expect expression.")),
        }
    }
}

} // verus!

verus! {

// ---- the grammar, mathematically ----
//
// Each `*_spec` function below is the image of one grammar level: from a
// parser state it yields the parsed node (or the fault that stopped it) and
// the state left behind. The executable parser is proved to compute exactly
// these functions. Termination is by the distance to the sentinel, then a
// rank per level; a grammar step never moves the cursor backwards, and the
// recursion guards that with `progress`, whose dead branch is `stuck`.

/// The image of a statement result.
pub open spec fn stmt_res(r: Result<Stmt, ErrorDetail>) -> Result<StmtView, ErrorDetailView> {
    match r {
        Ok(s) => Ok(stmt_view(s)),
        Err(d) => Err(d@),
    }
}

/// The image of an expression result.
pub open spec fn expr_res(r: Result<Expr, ErrorDetail>) -> Result<ExprView, ErrorDetailView> {
    match r {
        Ok(e) => Ok(expr_view(e)),
        Err(d) => Err(d@),
    }
}

/// The image of an optional statement.
pub open spec fn opt_stmt_view(s: Option<Stmt>) -> Option<StmtView> {
    match s {
        Some(x) => Some(stmt_view(x)),
        None => None,
    }
}

/// The image of an optional expression.
pub open spec fn opt_expr_view(e: Option<Expr>) -> Option<ExprView> {
    match e {
        Some(x) => Some(expr_view(x)),
        None => None,
    }
}

/// The image of a function-declaration result.
pub open spec fn fun_res(r: Result<FunctionStatement, ErrorDetail>) -> Result<
    FunctionStatementView,
    ErrorDetailView,
> {
    match r {
        Ok(f) => Ok(function_view(f)),
        Err(d) => Err(d@),
    }
}

/// The image of a block result: the statements between the braces.
pub open spec fn block_res(r: Result<BlockStatement, ErrorDetail>) -> Result<
    Seq<StmtView>,
    ErrorDetailView,
> {
    match r {
        Ok(b) => Ok(stmts_view(b.statements@)),
        Err(d) => Err(d@),
    }
}

/// The image of a token result.
pub open spec fn tok_res(r: Result<&Token, ErrorDetail>) -> Result<TokenView, ErrorDetailView> {
    match r {
        Ok(t) => Ok(t@),
        Err(d) => Err(d@),
    }
}

/// The image of an optional token.
pub open spec fn opt_tok(r: Option<&Token>) -> Option<TokenView> {
    match r {
        Some(t) => Some(t@),
        None => None,
    }
}

/// The cursor moved one token on.
pub open spec fn adv_spec(st: ParserV) -> ParserV {
    ParserV { pos: st.pos + 1, ..st }
}

/// One more recorded fault.
pub open spec fn fault_spec(st: ParserV, d: ErrorDetailView) -> ParserV {
    ParserV { errors: st.errors.push(d), ..st }
}

/// `Expect '<token>'.`
pub open spec fn expect_msg(ty: TokenType) -> Seq<char> {
    "Expect '"@ + token_type_name(ty) + "'."@
}

/// The image of `consume`: the next token when it has the wanted kind, else
/// the `Expect '<token>'.` fault at the offending (or last) line.
pub open spec fn consume_spec(st: ParserV, ty: TokenType) -> (Result<
    TokenView,
    ErrorDetailView,
>, ParserV) {
    if st.pos < st.end {
        if st.toks[st.pos].ty == ty {
            (Ok(st.toks[st.pos]), adv_spec(st))
        } else {
            (Err(ErrorDetailView { line: st.toks[st.pos].line, message: expect_msg(ty) }), st)
        }
    } else {
        (Err(ErrorDetailView { line: st.last_line, message: expect_msg(ty) }), st)
    }
}

/// The image of `match_type`: the next token if and only if it has the
/// wanted kind.
pub open spec fn match_spec(st: ParserV, ty: TokenType) -> (Option<TokenView>, ParserV) {
    if st.pos < st.end && st.toks[st.pos].ty == ty {
        (Some(st.toks[st.pos]), adv_spec(st))
    } else {
        (None, st)
    }
}

/// A token kind that begins a statement: synchronisation stops before it.
pub open spec fn at_boundary(ty: TokenType) -> bool {
    ty == TokenType::Class || ty == TokenType::Fun || ty == TokenType::Var || ty == TokenType::For
        || ty == TokenType::If || ty == TokenType::While || ty == TokenType::Print || ty
        == TokenType::Return
}

/// The image of `synchronize`: tokens discarded past the next `;` or up to
/// the next statement keyword.
pub open spec fn sync_spec(st: ParserV) -> ParserV
    decreases st.end - st.pos,
{
    if st.pos < st.end {
        if st.toks[st.pos].ty == TokenType::Semicolon {
            adv_spec(st)
        } else if at_boundary(st.toks[st.pos].ty) {
            st
        } else {
            sync_spec(adv_spec(st))
        }
    } else {
        st
    }
}

/// A grammar step went from `a` to `b`: same input, cursor strictly on.
pub open spec fn progress(a: ParserV, b: ParserV) -> bool {
    b.end == a.end && a.pos < b.pos && b.pos <= b.end
}

/// As `progress`, but the cursor may stand still.
pub open spec fn no_backtrack(a: ParserV, b: ParserV) -> bool {
    b.end == a.end && a.pos <= b.pos && b.pos <= b.end
}

/// The dead branch of a `progress` guard: parsing never moves the cursor
/// backwards, but the recursion must be well-founded on its own.
pub open spec fn stuck<A>(st: ParserV) -> (Result<A, ErrorDetailView>, ParserV) {
    (Err(ErrorDetailView { line: 0, message: Seq::<char>::empty() }), st)
}

/// `primary := true | false | nil | this | NUMBER | STRING | IDENT
///  | ( expression ) | super . IDENT`
pub open spec fn primary_spec(st: ParserV) -> (Result<ExprView, ErrorDetailView>, ParserV)
    decreases st.end - st.pos, 9int,
{
    if st.pos >= st.end {
        (Err(ErrorDetailView { line: st.last_line, message: "Expect expression."@ }), st)
    } else {
        let tok = st.toks[st.pos];
        let st1 = adv_spec(st);
        if tok.ty == TokenType::Nil {
            (Ok(ExprView::Nil), st1)
        } else if tok.ty == TokenType::True {
            (Ok(ExprView::Literal(LoxTypeView::Boolean(true))), st1)
        } else if tok.ty == TokenType::False {
            (Ok(ExprView::Literal(LoxTypeView::Boolean(false))), st1)
        } else if tok.ty == TokenType::Number {
            match tok.literal {
                Some(LiteralView::Number(n)) => (Ok(ExprView::Literal(LoxTypeView::Number(n))), st1),
                _ => (Err(ErrorDetailView { line: tok.line, message: "Expect expression."@ }), st1),
            }
        } else if tok.ty == TokenType::String {
            match tok.literal {
                Some(LiteralView::Str(s)) => (Ok(ExprView::Literal(LoxTypeView::Str(s))), st1),
                _ => (Err(ErrorDetailView { line: tok.line, message: "Expect expression."@ }), st1),
            }
        } else if tok.ty == TokenType::LeftParen {
            let (r, st2) = expression_spec(st1);
            match r {
                Ok(e) => match consume_spec(st2, TokenType::RightParen) {
                    (Ok(t), st3) => (Ok(ExprView::Grouping(Box::new(e))), st3),
                    (Err(d), st3) => (Err(d), st3),
                },
                Err(d) => (Err(d), st2),
            }
        } else if tok.ty == TokenType::Identifier {
            (
                Ok(
                    ExprView::Variable(
                        VariableExpressionView {
                            name: tok.lexeme,
                            maybe_distance: None,
                            line: tok.line,
                        },
                    ),
                ),
                st1,
            )
        } else if tok.ty == TokenType::This {
            (Ok(ExprView::This { maybe_distance: None, line: tok.line }), st1)
        } else if tok.ty == TokenType::Super {
            match consume_spec(st1, TokenType::Dot) {
                (Ok(t), st2) => match consume_spec(st2, TokenType::Identifier) {
                    (Ok(m), st3) => (
                        Ok(
                            ExprView::Super {
                                method: m.lexeme,
                                maybe_distance: None,
                                line: tok.line,
                            },
                        ),
                        st3,
                    ),
                    (Err(d), st3) => (Err(d), st3),
                },
                (Err(d), st2) => (Err(d), st2),
            }
        } else {
            (Err(ErrorDetailView { line: tok.line, message: "Expect expression."@ }), st1)
        }
    }
}

/// The arguments after `(`, the 255 ceiling at `)`, and the call node.
pub open spec fn args_rest_spec(st: ParserV, callee: ExprView, acc: Seq<ExprView>) -> (Result<
    ExprView,
    ErrorDetailView,
>, ParserV)
    decreases st.end - st.pos, 27int,
{
    let (r, st1) = expression_spec(st);
    match r {
        Ok(a) => {
            let (m, st2) = match_spec(st1, TokenType::Comma);
            match m {
                Some(t) => if progress(st, st2) {
                    args_rest_spec(st2, callee, acc.push(a))
                } else {
                    stuck(st2)
                },
                None => call_tail_spec(st2, callee, acc.push(a)),
            }
        },
        Err(d) => (Err(d), st1),
    }
}

/// The closing `)` of a call, the 255 ceiling, and the node.
pub open spec fn call_tail_spec(st: ParserV, callee: ExprView, args: Seq<ExprView>) -> (Result<
    ExprView,
    ErrorDetailView,
>, ParserV) {
    match consume_spec(st, TokenType::RightParen) {
        (Ok(paren), st1) => {
            let st2 = if args.len() > 255 {
                fault_spec(
                    st1,
                    ErrorDetailView {
                        line: paren.line,
                        message: "Can't have more than 255 arguments."@,
                    },
                )
            } else {
                st1
            };
            (
                Ok(ExprView::Call { callee: Box::new(callee), arguments: args, line: paren.line }),
                st2,
            )
        },
        (Err(d), st1) => (Err(d), st1),
    }
}

/// `finish_call`: the argument list (possibly empty) after the opening `(`.
pub open spec fn finish_call_spec(st: ParserV, callee: ExprView) -> (Result<
    ExprView,
    ErrorDetailView,
>, ParserV)
    decreases st.end - st.pos, 28int,
{
    if st.pos < st.end && st.toks[st.pos].ty != TokenType::RightParen {
        args_rest_spec(st, callee, Seq::<ExprView>::empty())
    } else {
        call_tail_spec(st, callee, Seq::<ExprView>::empty())
    }
}

/// The `( args )` and `. IDENT` suffixes of a call chain.
pub open spec fn call_rest_spec(st: ParserV, e: ExprView) -> (Result<ExprView, ErrorDetailView>, ParserV)
    decreases st.end - st.pos, 11int,
{
    if st.pos < st.end && st.toks[st.pos].ty == TokenType::LeftParen {
        let st1 = adv_spec(st);
        let (r, st2) = finish_call_spec(st1, e);
        match r {
            Ok(e2) => if progress(st, st2) {
                call_rest_spec(st2, e2)
            } else {
                stuck(st2)
            },
            Err(d) => (Err(d), st2),
        }
    } else if st.pos < st.end && st.toks[st.pos].ty == TokenType::Dot {
        let st1 = adv_spec(st);
        match consume_spec(st1, TokenType::Identifier) {
            (Ok(name), st2) => {
                let e2 = ExprView::Get { object: Box::new(e), name: name.lexeme, line: name.line };
                if progress(st, st2) {
                    call_rest_spec(st2, e2)
                } else {
                    stuck(st2)
                }
            },
            (Err(d), st2) => (Err(d), st2),
        }
    } else {
        (Ok(e), st)
    }
}

/// `call := primary ( "(" args? ")" | "." IDENT )*`
pub open spec fn call_spec(st: ParserV) -> (Result<ExprView, ErrorDetailView>, ParserV)
    decreases st.end - st.pos, 10int,
{
    let (r, st1) = primary_spec(st);
    match r {
        Ok(e) => if progress(st, st1) {
            call_rest_spec(st1, e)
        } else {
            stuck(st1)
        },
        Err(d) => (Err(d), st1),
    }
}

/// `unary := ( "!" | "-" ) unary | call`
pub open spec fn unary_spec(st: ParserV) -> (Result<ExprView, ErrorDetailView>, ParserV)
    decreases st.end - st.pos, 12int,
{
    if st.pos < st.end && (st.toks[st.pos].ty == TokenType::Bang || st.toks[st.pos].ty
        == TokenType::Minus) {
        let op = st.toks[st.pos];
        let (r, st1) = unary_spec(adv_spec(st));
        match r {
            Ok(e) => if op.ty == TokenType::Bang {
                (Ok(ExprView::Not(Box::new(e))), st1)
            } else {
                (Ok(ExprView::Neg { expression: Box::new(e), line: op.line }), st1)
            },
            Err(d) => (Err(d), st1),
        }
    } else {
        call_spec(st)
    }
}

/// The `( "/" | "*" ) unary` suffixes, folded leftwards.
pub open spec fn factor_rest_spec(st: ParserV, e: ExprView) -> (Result<
    ExprView,
    ErrorDetailView,
>, ParserV)
    decreases st.end - st.pos, 13int,
{
    if st.pos < st.end && (st.toks[st.pos].ty == TokenType::Star || st.toks[st.pos].ty
        == TokenType::Slash) {
        let op = st.toks[st.pos];
        let (r, st2) = unary_spec(adv_spec(st));
        match r {
            Ok(right) => {
                let bop = if op.ty == TokenType::Star {
                    BinaryOperator::Multiply
                } else {
                    BinaryOperator::Divide
                };
                let e2 = ExprView::Binary {
                    left: Box::new(e),
                    right: Box::new(right),
                    operator: bop,
                    line: op.line,
                };
                if progress(st, st2) {
                    factor_rest_spec(st2, e2)
                } else {
                    stuck(st2)
                }
            },
            Err(d) => (Err(d), st2),
        }
    } else {
        (Ok(e), st)
    }
}

/// `factor := unary ( ( "/" | "*" ) unary )*`
pub open spec fn factor_spec(st: ParserV) -> (Result<ExprView, ErrorDetailView>, ParserV)
    decreases st.end - st.pos, 14int,
{
    let (r, st1) = unary_spec(st);
    match r {
        Ok(e) => if progress(st, st1) {
            factor_rest_spec(st1, e)
        } else {
            stuck(st1)
        },
        Err(d) => (Err(d), st1),
    }
}

/// The `( "-" | "+" ) factor` suffixes, folded leftwards.
pub open spec fn term_rest_spec(st: ParserV, e: ExprView) -> (Result<ExprView, ErrorDetailView>, ParserV)
    decreases st.end - st.pos, 15int,
{
    if st.pos < st.end && (st.toks[st.pos].ty == TokenType::Minus || st.toks[st.pos].ty
        == TokenType::Plus) {
        let op = st.toks[st.pos];
        let (r, st2) = factor_spec(adv_spec(st));
        match r {
            Ok(right) => {
                let bop = if op.ty == TokenType::Minus {
                    BinaryOperator::Substract
                } else {
                    BinaryOperator::Add
                };
                let e2 = ExprView::Binary {
                    left: Box::new(e),
                    right: Box::new(right),
                    operator: bop,
                    line: op.line,
                };
                if progress(st, st2) {
                    term_rest_spec(st2, e2)
                } else {
                    stuck(st2)
                }
            },
            Err(d) => (Err(d), st2),
        }
    } else {
        (Ok(e), st)
    }
}

/// `term := factor ( ( "-" | "+" ) factor )*`
pub open spec fn term_spec(st: ParserV) -> (Result<ExprView, ErrorDetailView>, ParserV)
    decreases st.end - st.pos, 16int,
{
    let (r, st1) = factor_spec(st);
    match r {
        Ok(e) => if progress(st, st1) {
            term_rest_spec(st1, e)
        } else {
            stuck(st1)
        },
        Err(d) => (Err(d), st1),
    }
}

/// The comparison-operator suffixes, folded leftwards.
pub open spec fn comparison_rest_spec(st: ParserV, e: ExprView) -> (Result<
    ExprView,
    ErrorDetailView,
>, ParserV)
    decreases st.end - st.pos, 17int,
{
    if st.pos < st.end && (st.toks[st.pos].ty == TokenType::Greater || st.toks[st.pos].ty
        == TokenType::GreaterEqual || st.toks[st.pos].ty == TokenType::Less || st.toks[st.pos].ty
        == TokenType::LessEqual) {
        let op = st.toks[st.pos];
        let (r, st2) = term_spec(adv_spec(st));
        match r {
            Ok(right) => {
                let bop = if op.ty == TokenType::Greater {
                    BinaryOperator::Greater
                } else if op.ty == TokenType::GreaterEqual {
                    BinaryOperator::GreaterOrEqual
                } else if op.ty == TokenType::Less {
                    BinaryOperator::Less
                } else {
                    BinaryOperator::LessOrEqual
                };
                let e2 = ExprView::Binary {
                    left: Box::new(e),
                    right: Box::new(right),
                    operator: bop,
                    line: op.line,
                };
                if progress(st, st2) {
                    comparison_rest_spec(st2, e2)
                } else {
                    stuck(st2)
                }
            },
            Err(d) => (Err(d), st2),
        }
    } else {
        (Ok(e), st)
    }
}

/// `comparison := term ( ( ">" | ">=" | "<" | "<=" ) term )*`
pub open spec fn comparison_spec(st: ParserV) -> (Result<ExprView, ErrorDetailView>, ParserV)
    decreases st.end - st.pos, 18int,
{
    let (r, st1) = term_spec(st);
    match r {
        Ok(e) => if progress(st, st1) {
            comparison_rest_spec(st1, e)
        } else {
            stuck(st1)
        },
        Err(d) => (Err(d), st1),
    }
}

/// The `( "!=" | "==" ) comparison` suffixes, folded leftwards.
pub open spec fn equality_rest_spec(st: ParserV, e: ExprView) -> (Result<
    ExprView,
    ErrorDetailView,
>, ParserV)
    decreases st.end - st.pos, 19int,
{
    if st.pos < st.end && (st.toks[st.pos].ty == TokenType::BangEqual || st.toks[st.pos].ty
        == TokenType::EqualEqual) {
        let op = st.toks[st.pos];
        let (r, st2) = comparison_spec(adv_spec(st));
        match r {
            Ok(right) => {
                let bop = if op.ty == TokenType::BangEqual {
                    BinaryOperator::NotEqual
                } else {
                    BinaryOperator::Equal
                };
                let e2 = ExprView::Binary {
                    left: Box::new(e),
                    right: Box::new(right),
                    operator: bop,
                    line: op.line,
                };
                if progress(st, st2) {
                    equality_rest_spec(st2, e2)
                } else {
                    stuck(st2)
                }
            },
            Err(d) => (Err(d), st2),
        }
    } else {
        (Ok(e), st)
    }
}

/// `equality := comparison ( ( "!=" | "==" ) comparison )*`
pub open spec fn equality_spec(st: ParserV) -> (Result<ExprView, ErrorDetailView>, ParserV)
    decreases st.end - st.pos, 20int,
{
    let (r, st1) = comparison_spec(st);
    match r {
        Ok(e) => if progress(st, st1) {
            equality_rest_spec(st1, e)
        } else {
            stuck(st1)
        },
        Err(d) => (Err(d), st1),
    }
}

/// The `and` suffixes, folded leftwards.
pub open spec fn and_rest_spec(st: ParserV, e: ExprView) -> (Result<ExprView, ErrorDetailView>, ParserV)
    decreases st.end - st.pos, 21int,
{
    if st.pos < st.end && st.toks[st.pos].ty == TokenType::And {
        let (r, st2) = equality_spec(adv_spec(st));
        match r {
            Ok(right) => {
                let e2 = ExprView::Logical {
                    left: Box::new(e),
                    right: Box::new(right),
                    operator: LogicalOperator::And,
                };
                if progress(st, st2) {
                    and_rest_spec(st2, e2)
                } else {
                    stuck(st2)
                }
            },
            Err(d) => (Err(d), st2),
        }
    } else {
        (Ok(e), st)
    }
}

/// `logic_and := equality ( "and" equality )*`
pub open spec fn and_spec(st: ParserV) -> (Result<ExprView, ErrorDetailView>, ParserV)
    decreases st.end - st.pos, 22int,
{
    let (r, st1) = equality_spec(st);
    match r {
        Ok(e) => if progress(st, st1) {
            and_rest_spec(st1, e)
        } else {
            stuck(st1)
        },
        Err(d) => (Err(d), st1),
    }
}

/// The `or` suffixes, folded leftwards.
pub open spec fn or_rest_spec(st: ParserV, e: ExprView) -> (Result<ExprView, ErrorDetailView>, ParserV)
    decreases st.end - st.pos, 23int,
{
    if st.pos < st.end && st.toks[st.pos].ty == TokenType::Or {
        let (r, st2) = and_spec(adv_spec(st));
        match r {
            Ok(right) => {
                let e2 = ExprView::Logical {
                    left: Box::new(e),
                    right: Box::new(right),
                    operator: LogicalOperator::Or,
                };
                if progress(st, st2) {
                    or_rest_spec(st2, e2)
                } else {
                    stuck(st2)
                }
            },
            Err(d) => (Err(d), st2),
        }
    } else {
        (Ok(e), st)
    }
}

/// `logic_or := logic_and ( "or" logic_and )*`
pub open spec fn or_spec(st: ParserV) -> (Result<ExprView, ErrorDetailView>, ParserV)
    decreases st.end - st.pos, 24int,
{
    let (r, st1) = and_spec(st);
    match r {
        Ok(e) => if progress(st, st1) {
            or_rest_spec(st1, e)
        } else {
            stuck(st1)
        },
        Err(d) => (Err(d), st1),
    }
}

/// `assignment := logic_or ( "=" assignment )?`, with the left side
/// reinterpreted: a variable becomes an assignment, a property read a
/// property write; anything else records `Invalid assignment target.` and
/// keeps the left side.
pub open spec fn assignment_spec(st: ParserV) -> (Result<ExprView, ErrorDetailView>, ParserV)
    decreases st.end - st.pos, 25int,
{
    let (r, st1) = or_spec(st);
    match r {
        Ok(e) => {
            let (m, st2) = match_spec(st1, TokenType::Equal);
            match m {
                Some(eq) => if no_backtrack(st, st1) {
                    let (rv, st3) = assignment_spec(st2);
                    match rv {
                        Ok(v) => match e {
                            ExprView::Variable(ve) => (
                                Ok(
                                    ExprView::Assign {
                                        name: ve.name,
                                        value: Box::new(v),
                                        maybe_distance: None,
                                        line: eq.line,
                                    },
                                ),
                                st3,
                            ),
                            ExprView::Get { object, name, line } => (
                                Ok(
                                    ExprView::SetProp {
                                        object: object,
                                        name: name,
                                        value: Box::new(v),
                                        line: eq.line,
                                    },
                                ),
                                st3,
                            ),
                            _ => (
                                Ok(e),
                                fault_spec(
                                    st3,
                                    ErrorDetailView {
                                        line: eq.line,
                                        message: "Invalid assignment target."@,
                                    },
                                ),
                            ),
                        },
                        Err(d) => (Err(d), st3),
                    }
                } else {
                    stuck(st2)
                },
                None => (Ok(e), st2),
            }
        },
        Err(d) => (Err(d), st1),
    }
}

/// `expression := assignment`
pub open spec fn expression_spec(st: ParserV) -> (Result<ExprView, ErrorDetailView>, ParserV)
    decreases st.end - st.pos, 26int,
{
    assignment_spec(st)
}

} // verus!

verus! {

/// The closing `;` of a `var` declaration, and the node.
pub open spec fn var_tail_spec(
    st: ParserV,
    name: Seq<char>,
    initializer: Option<ExprView>,
    line: u32,
) -> (Result<StmtView, ErrorDetailView>, ParserV) {
    match consume_spec(st, TokenType::Semicolon) {
        (Ok(t), st1) => (
            Ok(
                StmtView::Var {
                    name,
                    initializer: match initializer {
                        Some(e) => Some(Box::new(e)),
                        None => None,
                    },
                    line,
                },
            ),
            st1,
        ),
        (Err(d), st1) => (Err(d), st1),
    }
}

/// `varDecl := "var" IDENT ( "=" expression )? ";"`
pub open spec fn var_declaration_spec(st: ParserV) -> (Result<StmtView, ErrorDetailView>, ParserV)
    decreases st.end - st.pos, 30int,
{
    if st.pos < st.end {
        let line = st.toks[st.pos].line;
        let st1 = adv_spec(st);
        match consume_spec(st1, TokenType::Identifier) {
            (Err(d), st2) => (Err(d), st2),
            (Ok(name), st2) => {
                let (m, st3) = match_spec(st2, TokenType::Equal);
                match m {
                    Some(t) => {
                        let (r, st4) = expression_spec(st3);
                        match r {
                            Ok(e) => var_tail_spec(st4, name.lexeme, Some(e), line),
                            Err(d) => (Err(d), st4),
                        }
                    },
                    None => var_tail_spec(st3, name.lexeme, None, line),
                }
            },
        }
    } else {
        stuck(st)
    }
}

/// `printStmt := "print" expression ";"`
pub open spec fn print_statement_spec(st: ParserV) -> (Result<StmtView, ErrorDetailView>, ParserV)
    decreases st.end - st.pos, 29int,
{
    if st.pos < st.end {
        let line = st.toks[st.pos].line;
        let (r, st1) = expression_spec(adv_spec(st));
        match r {
            Ok(e) => match consume_spec(st1, TokenType::Semicolon) {
                (Ok(t), st2) => (Ok(StmtView::Print { expression: Box::new(e), line }), st2),
                (Err(d), st2) => (Err(d), st2),
            },
            Err(d) => (Err(d), st1),
        }
    } else {
        stuck(st)
    }
}

/// `returnStmt := "return" expression? ";"`
pub open spec fn return_statement_spec(st: ParserV) -> (Result<StmtView, ErrorDetailView>, ParserV)
    decreases st.end - st.pos, 29int,
{
    if st.pos < st.end {
        let line = st.toks[st.pos].line;
        let st1 = adv_spec(st);
        if st1.pos < st1.end && st1.toks[st1.pos].ty != TokenType::Semicolon {
            let (r, st2) = expression_spec(st1);
            match r {
                Ok(e) => match consume_spec(st2, TokenType::Semicolon) {
                    (Ok(t), st3) => (
                        Ok(StmtView::Return { maybe_expression: Some(Box::new(e)), line }),
                        st3,
                    ),
                    (Err(d), st3) => (Err(d), st3),
                },
                Err(d) => (Err(d), st2),
            }
        } else {
            match consume_spec(st1, TokenType::Semicolon) {
                (Ok(t), st2) => (Ok(StmtView::Return { maybe_expression: None, line }), st2),
                (Err(d), st2) => (Err(d), st2),
            }
        }
    } else {
        stuck(st)
    }
}

/// `exprStmt := expression ";"`
pub open spec fn expression_statement_spec(st: ParserV) -> (Result<
    StmtView,
    ErrorDetailView,
>, ParserV)
    decreases st.end - st.pos, 29int,
{
    let (r, st1) = expression_spec(st);
    match r {
        Ok(e) => match consume_spec(st1, TokenType::Semicolon) {
            (Ok(t), st2) => (Ok(StmtView::Expression(Box::new(e))), st2),
            (Err(d), st2) => (Err(d), st2),
        },
        Err(d) => (Err(d), st1),
    }
}

/// `whileStmt := "(" expression ")" statement` (after `while`).
pub open spec fn while_statement_spec(st: ParserV) -> (Result<StmtView, ErrorDetailView>, ParserV)
    decreases st.end - st.pos, 29int,
{
    match consume_spec(st, TokenType::LeftParen) {
        (Err(d), st1) => (Err(d), st1),
        (Ok(t), st1) => {
            let (r, st2) = expression_spec(st1);
            match r {
                Err(d) => (Err(d), st2),
                Ok(cond) => match consume_spec(st2, TokenType::RightParen) {
                    (Err(d), st3) => (Err(d), st3),
                    (Ok(t2), st3) => if progress(st, st3) {
                        let (rb, st4) = statement_spec(st3);
                        match rb {
                            Ok(body) => (
                                Ok(
                                    StmtView::While {
                                        condition: Box::new(cond),
                                        body: Box::new(body),
                                    },
                                ),
                                st4,
                            ),
                            Err(d) => (Err(d), st4),
                        }
                    } else {
                        stuck(st3)
                    },
                },
            }
        },
    }
}

/// `ifStmt := "(" expression ")" statement ( "else" statement )?`
/// (after `if`).
pub open spec fn if_statement_spec(st: ParserV) -> (Result<StmtView, ErrorDetailView>, ParserV)
    decreases st.end - st.pos, 29int,
{
    match consume_spec(st, TokenType::LeftParen) {
        (Err(d), st1) => (Err(d), st1),
        (Ok(t), st1) => {
            let (r, st2) = expression_spec(st1);
            match r {
                Err(d) => (Err(d), st2),
                Ok(cond) => match consume_spec(st2, TokenType::RightParen) {
                    (Err(d), st3) => (Err(d), st3),
                    (Ok(t2), st3) => if progress(st, st3) {
                        let (rt, st4) = statement_spec(st3);
                        match rt {
                            Err(d) => (Err(d), st4),
                            Ok(then_branch) => {
                                let (m, st5) = match_spec(st4, TokenType::Else);
                                match m {
                                    Some(t3) => if progress(st, st5) {
                                        let (re, st6) = statement_spec(st5);
                                        match re {
                                            Ok(else_branch) => (
                                                Ok(
                                                    StmtView::If {
                                                        condition: Box::new(cond),
                                                        then_branch: Box::new(then_branch),
                                                        else_branch: Some(Box::new(else_branch)),
                                                    },
                                                ),
                                                st6,
                                            ),
                                            Err(d) => (Err(d), st6),
                                        }
                                    } else {
                                        stuck(st5)
                                    },
                                    None => (
                                        Ok(
                                            StmtView::If {
                                                condition: Box::new(cond),
                                                then_branch: Box::new(then_branch),
                                                else_branch: None,
                                            },
                                        ),
                                        st5,
                                    ),
                                }
                            },
                        }
                    } else {
                        stuck(st3)
                    },
                },
            }
        },
    }
}

/// The body of a `for` and its desugaring into a `while` block.
pub open spec fn for_body_spec(
    st: ParserV,
    init: Option<StmtView>,
    cond: Option<ExprView>,
    incr: Option<ExprView>,
) -> (Result<StmtView, ErrorDetailView>, ParserV)
    decreases st.end - st.pos, 31int,
{
    let (r, st1) = statement_spec(st);
    match r {
        Err(d) => (Err(d), st1),
        Ok(body) => {
            let cond2 = match cond {
                Some(c) => c,
                None => ExprView::Literal(LoxTypeView::Boolean(true)),
            };
            let body_stmts = match incr {
                Some(i) => seq![body, StmtView::Expression(Box::new(i))],
                None => seq![body],
            };
            let while_s = StmtView::While {
                condition: Box::new(cond2),
                body: Box::new(StmtView::Block { statements: body_stmts }),
            };
            let outer = match init {
                Some(s0) => seq![s0, while_s],
                None => seq![while_s],
            };
            (Ok(StmtView::Block { statements: outer }), st1)
        },
    }
}

/// The increment clause of a `for`, then its body.
pub open spec fn for_incr_spec(st: ParserV, init: Option<StmtView>, cond: Option<ExprView>) -> (
    Result<StmtView, ErrorDetailView>,
    ParserV,
)
    decreases st.end - st.pos, 29int,
{
    let (m, st1) = match_spec(st, TokenType::RightParen);
    match m {
        Some(t) => for_body_spec(st1, init, cond, None),
        None => {
            let (r, st2) = expression_spec(st);
            match r {
                Err(d) => (Err(d), st2),
                Ok(i) => match consume_spec(st2, TokenType::RightParen) {
                    (Err(d), st3) => (Err(d), st3),
                    (Ok(t), st3) => if progress(st, st3) {
                        for_body_spec(st3, init, cond, Some(i))
                    } else {
                        stuck(st3)
                    },
                },
            }
        },
    }
}

/// The condition clause of a `for`, then the rest.
pub open spec fn for_cond_spec(st: ParserV, init: Option<StmtView>) -> (Result<
    StmtView,
    ErrorDetailView,
>, ParserV)
    decreases st.end - st.pos, 29int,
{
    let (m, st1) = match_spec(st, TokenType::Semicolon);
    match m {
        Some(t) => for_incr_spec(st1, init, None),
        None => {
            let (r, st2) = expression_spec(st);
            match r {
                Err(d) => (Err(d), st2),
                Ok(c) => match consume_spec(st2, TokenType::Semicolon) {
                    (Err(d), st3) => (Err(d), st3),
                    (Ok(t), st3) => if progress(st, st3) {
                        for_incr_spec(st3, init, Some(c))
                    } else {
                        stuck(st3)
                    },
                },
            }
        },
    }
}

/// `forStmt := "(" (varDecl | exprStmt | ";") expression? ";" expression?
/// ")" statement` (after `for`), desugared to a `while` block.
pub open spec fn for_statement_spec(st: ParserV) -> (Result<StmtView, ErrorDetailView>, ParserV)
    decreases st.end - st.pos, 29int,
{
    match consume_spec(st, TokenType::LeftParen) {
        (Err(d), st1) => (Err(d), st1),
        (Ok(t), st1) => {
            let (m, st2) = match_spec(st1, TokenType::Semicolon);
            match m {
                Some(t2) => for_cond_spec(st2, None),
                None => if st2.pos < st2.end && st2.toks[st2.pos].ty == TokenType::Var {
                    let (ri, st3) = var_declaration_spec(st2);
                    match ri {
                        Err(d) => (Err(d), st3),
                        Ok(s) => if progress(st, st3) {
                            for_cond_spec(st3, Some(s))
                        } else {
                            stuck(st3)
                        },
                    }
                } else {
                    let (ri, st3) = expression_statement_spec(st2);
                    match ri {
                        Err(d) => (Err(d), st3),
                        Ok(s) => if progress(st, st3) {
                            for_cond_spec(st3, Some(s))
                        } else {
                            stuck(st3)
                        },
                    }
                },
            }
        },
    }
}

/// The declarations up to (and including) the closing `}`.
pub open spec fn block_items_spec(st: ParserV, acc: Seq<StmtView>) -> (Result<
    Seq<StmtView>,
    ErrorDetailView,
>, ParserV)
    decreases st.end - st.pos, 34int,
{
    if st.pos < st.end && st.toks[st.pos].ty != TokenType::RightBrace {
        let (r, st1) = declaration_spec(st);
        match r {
            Ok(s) => if progress(st, st1) {
                block_items_spec(st1, acc.push(s))
            } else {
                stuck(st1)
            },
            Err(d) => (Err(d), st1),
        }
    } else {
        match consume_spec(st, TokenType::RightBrace) {
            (Ok(t), st1) => (Ok(acc), st1),
            (Err(d), st1) => (Err(d), st1),
        }
    }
}

/// `block := declaration* "}"` (after the opening `{`).
pub open spec fn block_statement_spec(st: ParserV) -> (Result<Seq<StmtView>, ErrorDetailView>, ParserV)
    decreases st.end - st.pos, 35int,
{
    block_items_spec(st, Seq::<StmtView>::empty())
}

/// `statement := exprStmt | forStmt | ifStmt | printStmt | returnStmt
///  | whileStmt | block`
pub open spec fn statement_spec(st: ParserV) -> (Result<StmtView, ErrorDetailView>, ParserV)
    decreases st.end - st.pos, 30int,
{
    if st.pos >= st.end {
        expression_statement_spec(st)
    } else {
        let ty = st.toks[st.pos].ty;
        if ty == TokenType::For {
            for_statement_spec(adv_spec(st))
        } else if ty == TokenType::If {
            if_statement_spec(adv_spec(st))
        } else if ty == TokenType::LeftBrace {
            let (rb, st1) = block_statement_spec(adv_spec(st));
            match rb {
                Ok(ss) => (Ok(StmtView::Block { statements: ss }), st1),
                Err(d) => (Err(d), st1),
            }
        } else if ty == TokenType::Print {
            print_statement_spec(st)
        } else if ty == TokenType::Return {
            return_statement_spec(st)
        } else if ty == TokenType::While {
            while_statement_spec(adv_spec(st))
        } else {
            expression_statement_spec(st)
        }
    }
}

/// The closing `)`, the 255 ceiling, the `{`, the body, and the node of a
/// function declaration.
pub open spec fn function_tail_spec(
    st: ParserV,
    name: Seq<char>,
    line: u32,
    ps: Seq<ParameterView>,
) -> (Result<FunctionStatementView, ErrorDetailView>, ParserV)
    decreases st.end - st.pos, 32int,
{
    match consume_spec(st, TokenType::RightParen) {
        (Err(d), st1) => (Err(d), st1),
        (Ok(paren), st1) => {
            let st2 = if ps.len() > 255 {
                fault_spec(
                    st1,
                    ErrorDetailView {
                        line: paren.line,
                        message: "Can't have more than 255 parameters."@,
                    },
                )
            } else {
                st1
            };
            match consume_spec(st2, TokenType::LeftBrace) {
                (Err(d), st3) => (Err(d), st3),
                (Ok(t), st3) => {
                    let (rb, st4) = block_statement_spec(st3);
                    match rb {
                        Ok(ss) => (
                            Ok(
                                FunctionStatementView {
                                    name,
                                    parameters: ps,
                                    statements: ss,
                                    line,
                                },
                            ),
                            st4,
                        ),
                        Err(d) => (Err(d), st4),
                    }
                },
            }
        },
    }
}

/// The comma-separated parameter list of a function declaration, then its
/// tail.
pub open spec fn params_rest_spec(
    st: ParserV,
    name: Seq<char>,
    line: u32,
    acc: Seq<ParameterView>,
) -> (Result<FunctionStatementView, ErrorDetailView>, ParserV)
    decreases st.end - st.pos, 33int,
{
    match consume_spec(st, TokenType::Identifier) {
        (Err(d), st1) => (Err(d), st1),
        (Ok(id), st1) => {
            let acc2 = acc.push(ParameterView { name: id.lexeme, line: id.line });
            let (m, st2) = match_spec(st1, TokenType::Comma);
            match m {
                Some(t) => if progress(st, st2) {
                    params_rest_spec(st2, name, line, acc2)
                } else {
                    stuck(st2)
                },
                None => function_tail_spec(st2, name, line, acc2),
            }
        },
    }
}

/// The name, parameter list and body of a function declaration, after its
/// name token has been checked.
pub open spec fn function_after_name_spec(st: ParserV, line: u32) -> (Result<
    FunctionStatementView,
    ErrorDetailView,
>, ParserV)
    decreases st.end - st.pos, 30int,
{
    if st.pos < st.end {
        let name = st.toks[st.pos].lexeme;
        let st1 = adv_spec(st);
        match consume_spec(st1, TokenType::LeftParen) {
            (Err(d), st2) => (Err(d), st2),
            (Ok(t), st2) => if st2.pos < st2.end && st2.toks[st2.pos].ty != TokenType::RightParen {
                if progress(st, st2) {
                    params_rest_spec(st2, name, line, Seq::<ParameterView>::empty())
                } else {
                    stuck(st2)
                }
            } else {
                function_tail_spec(st2, name, line, Seq::<ParameterView>::empty())
            },
        }
    } else {
        stuck(st)
    }
}

/// `function := IDENT "(" params? ")" block`, for a declaration after
/// `fun` or for a method.
pub open spec fn function_spec(st: ParserV, kind: FunctionKind) -> (Result<
    FunctionStatementView,
    ErrorDetailView,
>, ParserV)
    decreases st.end - st.pos, 31int,
{
    if kind == FunctionKind::Function {
        if st.pos < st.end {
            let line = st.toks[st.pos].line;
            let st1 = adv_spec(st);
            if st1.pos >= st1.end || st1.toks[st1.pos].ty != TokenType::Identifier {
                (Err(ErrorDetailView { line, message: "Expect function name."@ }), st1)
            } else {
                function_after_name_spec(st1, line)
            }
        } else {
            stuck(st)
        }
    } else {
        if st.pos >= st.end || st.toks[st.pos].ty != TokenType::Identifier {
            let line2 = if st.pos < st.end {
                st.toks[st.pos].line
            } else {
                st.last_line
            };
            (Err(ErrorDetailView { line: line2, message: "Expect method name."@ }), st)
        } else {
            function_after_name_spec(st, st.toks[st.pos].line)
        }
    }
}

/// The methods of a class body up to the closing `}`, and the class node.
pub open spec fn methods_rest_spec(
    st: ParserV,
    name: Seq<char>,
    msuper: Option<VariableExpressionView>,
    line: u32,
    acc: Seq<FunctionStatementView>,
) -> (Result<StmtView, ErrorDetailView>, ParserV)
    decreases st.end - st.pos, 32int,
{
    if st.pos < st.end && st.toks[st.pos].ty != TokenType::RightBrace {
        let (r, st1) = function_spec(st, FunctionKind::Method);
        match r {
            Ok(f) => if progress(st, st1) {
                methods_rest_spec(st1, name, msuper, line, acc.push(f))
            } else {
                stuck(st1)
            },
            Err(d) => (Err(d), st1),
        }
    } else {
        match consume_spec(st, TokenType::RightBrace) {
            (Ok(t), st1) => (
                Ok(StmtView::Class { name, methods: acc, maybe_superclass: msuper, line }),
                st1,
            ),
            (Err(d), st1) => (Err(d), st1),
        }
    }
}

/// `classDecl := "class" IDENT ( "<" IDENT )? "{" function* "}"`
pub open spec fn class_declaration_spec(st: ParserV) -> (Result<StmtView, ErrorDetailView>, ParserV)
    decreases st.end - st.pos, 31int,
{
    if st.pos < st.end {
        let line = st.toks[st.pos].line;
        let st1 = adv_spec(st);
        match consume_spec(st1, TokenType::Identifier) {
            (Err(d), st2) => (Err(d), st2),
            (Ok(name_tok), st2) => {
                let (m, st3) = match_spec(st2, TokenType::Less);
                match m {
                    Some(t) => match consume_spec(st3, TokenType::Identifier) {
                        (Err(d), st4) => (Err(d), st4),
                        (Ok(sup), st4) => {
                            let msuper = Some(
                                VariableExpressionView {
                                    name: sup.lexeme,
                                    maybe_distance: None,
                                    line: sup.line,
                                },
                            );
                            match consume_spec(st4, TokenType::LeftBrace) {
                                (Err(d), st5) => (Err(d), st5),
                                (Ok(t2), st5) => if progress(st, st5) {
                                    methods_rest_spec(
                                        st5,
                                        name_tok.lexeme,
                                        msuper,
                                        line,
                                        Seq::<FunctionStatementView>::empty(),
                                    )
                                } else {
                                    stuck(st5)
                                },
                            }
                        },
                    },
                    None => match consume_spec(st3, TokenType::LeftBrace) {
                        (Err(d), st5) => (Err(d), st5),
                        (Ok(t2), st5) => if progress(st, st5) {
                            methods_rest_spec(
                                st5,
                                name_tok.lexeme,
                                None,
                                line,
                                Seq::<FunctionStatementView>::empty(),
                            )
                        } else {
                            stuck(st5)
                        },
                    },
                }
            },
        }
    } else {
        stuck(st)
    }
}

/// `declaration := classDecl | funDecl | varDecl | statement`
pub open spec fn declaration_spec(st: ParserV) -> (Result<StmtView, ErrorDetailView>, ParserV)
    decreases st.end - st.pos, 33int,
{
    if st.pos < st.end {
        let ty = st.toks[st.pos].ty;
        if ty == TokenType::Var {
            var_declaration_spec(st)
        } else if ty == TokenType::Fun {
            let (r, st1) = function_spec(st, FunctionKind::Function);
            match r {
                Ok(f) => (Ok(StmtView::Function(f)), st1),
                Err(d) => (Err(d), st1),
            }
        } else if ty == TokenType::Class {
            class_declaration_spec(st)
        } else {
            statement_spec(st)
        }
    } else {
        stuck(st)
    }
}

/// `program := declaration*`, with a fault recorded and the cursor
/// synchronised past each syntax error.
pub open spec fn program_rest_spec(st: ParserV, acc: Seq<StmtView>) -> (Seq<StmtView>, ParserV)
    decreases st.end - st.pos, 37int,
{
    if st.pos < st.end {
        let (r, st1) = declaration_spec(st);
        match r {
            Ok(s) => if progress(st, st1) {
                program_rest_spec(st1, acc.push(s))
            } else {
                (acc.push(s), st1)
            },
            Err(d) => {
                let st2 = sync_spec(fault_spec(st1, d));
                let st3 = if st2.pos == st.pos && st2.pos < st2.end {
                    adv_spec(st2)
                } else {
                    st2
                };
                if progress(st, st3) {
                    program_rest_spec(st3, acc)
                } else {
                    (acc, st3)
                }
            },
        }
    } else {
        (acc, st)
    }
}

/// The whole parse of a scanned token sequence: the statements read and
/// the faults recorded, from the start.
pub open spec fn parse_spec(toks: Seq<TokenView>) -> (Seq<StmtView>, Seq<ErrorDetailView>) {
    let last_line: u32 = if toks.len() >= 2 {
        toks[toks.len() - 2].line
    } else {
        1
    };
    let st0 = ParserV {
        toks,
        end: toks.len() - 1,
        last_line,
        pos: 0,
        errors: Seq::<ErrorDetailView>::empty(),
    };
    let (stmts, st) = program_rest_spec(st0, Seq::<StmtView>::empty());
    (stmts, st.errors)
}

} // verus!
