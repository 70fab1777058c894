//! Symbol and usage checking of hand-built blocks.

use protosnirk::ast::{
    Assignment, BinaryOperation, BinaryOperator, Block, Declaration, Expression, Identifier, Literal, Return,
    Statement, UnaryOperation, UnaryOperator,
};
use protosnirk::check::collector::ErrorCollector;
use protosnirk::check::errors::CheckerError;
use protosnirk::check::lint::UsageChecker;
use protosnirk::check::symbol::symbol_checker::SymbolChecker;
use protosnirk::lex::{TextLocation, Token, TokenData};

fn loc_at(index: usize, line: usize, column: usize) -> TextLocation {
    TextLocation { index, line, column }
}

fn token_at(text: &str, index: usize, line: usize, column: usize, data: TokenData) -> Token {
    Token { location: loc_at(index, line, column), text: text.to_string(), data }
}

fn name_token(text: &str, index: usize) -> Token {
    token_at(text, index, 0, index, TokenData::Ident)
}

fn ident_on(text: &str, index: usize, line: usize, column: usize) -> Identifier {
    Identifier::new(token_at(text, index, line, column, TokenData::Ident))
}

fn number_on(text: &str, index: usize, line: usize, column: usize) -> Expression {
    let token = token_at(text, index, line, column, TokenData::NumberLiteral);
    Expression::Literal(Literal::new_float(token, text.to_string()))
}

fn number(text: &str, index: usize) -> Expression {
    number_on(text, index, 0, index)
}

fn var_on(text: &str, index: usize, line: usize, column: usize) -> Expression {
    Expression::VariableRef(ident_on(text, index, line, column))
}

fn var(text: &str, index: usize) -> Expression {
    var_on(text, index, 0, index)
}

fn binop(op: BinaryOperator, left: Expression, right: Expression) -> Expression {
    Expression::BinaryOp(BinaryOperation::new(op, Box::new(left), Box::new(right)))
}

fn let_on(start: TextLocation, name: Identifier, mutable: bool, value: Expression) -> Statement {
    Statement::Declaration(Declaration::new(start, name, mutable, None, Box::new(value)))
}

/// `let [mut] name = value` on the first line, `let` at `start` and the
/// name at `name_index`.
fn let_stmt(start: usize, name: &str, name_index: usize, mutable: bool, value: Expression) -> Statement {
    let_on(loc_at(start, 0, start), ident_on(name, name_index, 0, name_index), mutable, value)
}

fn assign_on(name: Identifier, value: Expression) -> Statement {
    Statement::Expression(Expression::Assignment(Assignment::new(name, Box::new(value))))
}

fn assign(name: &str, index: usize, value: Expression) -> Statement {
    assign_on(ident_on(name, index, 0, index), value)
}

fn return_stmt(start: TextLocation, value: Expression) -> Statement {
    Statement::Return(Return::new(start, Some(Box::new(value))))
}

fn checked(block: &mut Block) -> (protosnirk::check::symbol::SymbolTable, ErrorCollector) {
    let errors = ErrorCollector::new();
    let mut sym_checker = SymbolChecker::new(errors);
    sym_checker.check_block(block);
    sym_checker.decompose()
}

fn warnings_of(block: &mut Block) -> ErrorCollector {
    let (sym_table, mut errors) = checked(block);
    UsageChecker {}.warn_for_unsused(&mut errors, &sym_table);
    errors
}

fn errors_of(block: &mut Block) -> ErrorCollector {
    let (_table, verifier) = checked(block);
    verifier
}

fn none() -> Vec<CheckerError> {
    Vec::new()
}

fn not_declared(name: &str, index: usize) -> CheckerError {
    CheckerError::new(name_token(name, index), vec![], format!("Variable {} was not declared", name))
}

// let x = 0
#[test]
fn it_detects_unused_declared() {
    let mut block = Block::new(vec![let_stmt(0, "x", 4, false, number("0", 8))]);
    let expected = vec![CheckerError::new(name_token("x", 4), vec![], "Variable x is declared but never used".to_string())];
    assert_eq!(warnings_of(&mut block).get_warnings(), &*expected);
}

// let x = 0 let mut y = 0 y = x y
#[test]
fn it_detects_usage_in_assignment_rvalue() {
    let mut block = Block::new(vec![
        let_stmt(0, "x", 4, false, number("0", 8)),
        let_stmt(10, "y", 18, true, number("0", 22)),
        assign("y", 24, var("x", 28)),
        Statement::Expression(var("y", 30)),
    ]);
    assert_eq!(warnings_of(&mut block).get_warnings(), &*none());
}

// let x = 0 return x
#[test]
fn it_detects_usage_in_return_value() {
    let mut block = Block::new(vec![
        let_stmt(0, "x", 4, false, number("0", 8)),
        return_stmt(loc_at(10, 0, 10), var("x", 17)),
    ]);
    assert_eq!(warnings_of(&mut block).get_warnings(), &*none());
}

// let x = 0 x
#[test]
fn it_detects_usage_in_implicit_return_expr() {
    let mut block = Block::new(vec![
        let_stmt(0, "x", 4, false, number("0", 8)),
        Statement::Expression(var("x", 10)),
    ]);
    assert_eq!(warnings_of(&mut block).get_warnings(), &*none());
}

// let x = 0 x + 1
#[test]
fn it_detects_usage_in_binary_operator_expr() {
    let mut block = Block::new(vec![
        let_stmt(0, "x", 4, false, number("0", 8)),
        Statement::Expression(binop(BinaryOperator::Addition, var("x", 10), number("1", 14))),
    ]);
    assert_eq!(warnings_of(&mut block).get_warnings(), &*none());
}

// let x = 0 let y = x
#[test]
fn it_detects_usage_in_declaration_rvalue() {
    let mut block = Block::new(vec![
        let_stmt(0, "x", 4, false, number("0", 8)),
        let_stmt(10, "y", 14, false, var("x", 18)),
    ]);
    let expected = vec![CheckerError::new(name_token("y", 14), vec![], "Variable y is declared but never used".to_string())];
    assert_eq!(warnings_of(&mut block).get_warnings(), &*expected);
}

// let x = 0 let mut y = 0 let Y = 0 y += Y
#[test]
fn it_detects_unused_declared_with_similar_variables_used() {
    let mut block = Block::new(vec![
        let_stmt(0, "x", 4, false, number("0", 8)),
        let_stmt(10, "y", 18, true, number("0", 22)),
        let_stmt(24, "Y", 28, false, number("0", 32)),
        assign("y", 34, binop(BinaryOperator::Addition, var("y", 34), var("Y", 39))),
    ]);
    let expected = vec![CheckerError::new(name_token("x", 4), vec![], "Variable x is declared but never used".to_string())];
    assert_eq!(warnings_of(&mut block).get_warnings(), &*expected);
}

// let x = 0 let x = 1
#[test]
fn it_finds_extra_declaration() {
    let mut block = Block::new(vec![
        let_stmt(0, "x", 4, false, number("0", 8)),
        let_stmt(10, "x", 14, false, number("1", 18)),
    ]);
    let expected = vec![CheckerError::new(
        name_token("x", 14),
        vec![name_token("x", 4)],
        "Variable x is already declared".into(),
    )];
    assert_eq!(errors_of(&mut block).get_errors(), &*expected);
}

// let mut y = 0 y = x + 1
#[test]
fn it_finds_missing_declaration() {
    let mut block = Block::new(vec![
        let_stmt(0, "y", 8, true, number("0", 12)),
        assign("y", 14, binop(BinaryOperator::Addition, var("x", 18), number("1", 22))),
    ]);
    assert_eq!(errors_of(&mut block).get_errors(), &*vec![not_declared("x", 18)]);
}

// let x = 0 let mut x = 1
#[test]
fn it_finds_extra_declaration_of_different_type() {
    let mut block = Block::new(vec![
        let_stmt(0, "x", 4, false, number("0", 8)),
        let_stmt(10, "x", 18, true, number("1", 22)),
    ]);
    let expected = vec![CheckerError::new(
        name_token("x", 18),
        vec![name_token("x", 4)],
        "Variable x is already declared".into(),
    )];
    assert_eq!(errors_of(&mut block).get_errors(), &*expected);
}

// let x = 0 return y
#[test]
fn it_finds_missing_declaration_in_return_stmt() {
    let mut block = Block::new(vec![
        let_stmt(0, "x", 4, false, number("0", 8)),
        return_stmt(loc_at(10, 0, 10), var("y", 17)),
    ]);
    assert_eq!(errors_of(&mut block).get_errors(), &*vec![not_declared("y", 17)]);
}

// let x = 0 x + y
#[test]
fn it_finds_missing_declaration_in_binary_op() {
    let mut block = Block::new(vec![
        let_stmt(0, "x", 4, false, number("0", 8)),
        Statement::Expression(binop(BinaryOperator::Addition, var("x", 10), var("y", 14))),
    ]);
    assert_eq!(errors_of(&mut block).get_errors(), &*vec![not_declared("y", 14)]);
}

// let x = 0 return -y
#[test]
fn it_finds_missing_declaration_in_unary_op() {
    let negated = Expression::UnaryOp(UnaryOperation::new(
        loc_at(17, 0, 17),
        UnaryOperator::Negation,
        Box::new(var("y", 18)),
    ));
    let mut block = Block::new(vec![
        let_stmt(0, "x", 4, false, number("0", 8)),
        return_stmt(loc_at(10, 0, 10), negated),
    ]);
    assert_eq!(errors_of(&mut block).get_errors(), &*vec![not_declared("y", 18)]);
}

// let x = 0 y
#[test]
fn it_finds_missing_declaration_in_var_ref_expr() {
    let mut block = Block::new(vec![
        let_stmt(0, "x", 4, false, number("0", 8)),
        Statement::Expression(var("y", 10)),
    ]);
    assert_eq!(errors_of(&mut block).get_errors(), &*vec![not_declared("y", 10)]);
}

// let x = 0 y = x
#[test]
fn it_finds_missing_declaration_in_assignment_lvalue() {
    let mut block = Block::new(vec![
        let_stmt(0, "x", 4, false, number("0", 8)),
        assign("y", 10, var("x", 14)),
    ]);
    assert_eq!(errors_of(&mut block).get_errors(), &*vec![not_declared("y", 10)]);
}

// let mut x = 0 x = y
#[test]
fn it_finds_missing_declaration_in_assignment_rvalue() {
    let mut block = Block::new(vec![
        let_stmt(0, "x", 8, true, number("0", 12)),
        assign("x", 14, var("y", 18)),
    ]);
    assert_eq!(errors_of(&mut block).get_errors(), &*vec![not_declared("y", 18)]);
}

// let x = x
#[test]
fn it_finds_circular_declaration() {
    let mut block = Block::new(vec![let_stmt(0, "x", 4, false, var("x", 8))]);
    assert_eq!(errors_of(&mut block).get_errors(), &*vec![not_declared("x", 8)]);
}

// let x = 0
// let mut y = -x - 1
// let z = 2
// y += z
// t += z * (2 % 2)
// return y - 2
#[test]
fn it_finds_missing_declaration_in_assignop_expression() {
    let neg_x = Expression::UnaryOp(UnaryOperation::new(
        loc_at(23, 1, 12),
        UnaryOperator::Negation,
        Box::new(var_on("x", 24, 1, 13)),
    ));
    let two_mod_two = binop(BinaryOperator::Modulus, number_on("2", 60, 4, 10), number_on("2", 64, 4, 14));
    let mut block = Block::new(vec![
        let_stmt(0, "x", 4, false, number("0", 8)),
        let_on(
            loc_at(11, 1, 0),
            ident_on("y", 19, 1, 8),
            true,
            binop(BinaryOperator::Subtraction, neg_x, number_on("1", 28, 1, 17)),
        ),
        let_on(loc_at(31, 2, 0), ident_on("z", 35, 2, 4), false, number_on("2", 39, 2, 8)),
        assign_on(
            ident_on("y", 42, 3, 0),
            binop(BinaryOperator::Addition, var_on("y", 42, 3, 0), var_on("z", 47, 3, 5)),
        ),
        assign_on(
            ident_on("t", 50, 4, 0),
            binop(
                BinaryOperator::Addition,
                var_on("t", 50, 4, 0),
                binop(BinaryOperator::Multiplication, var_on("z", 55, 4, 5), two_mod_two),
            ),
        ),
        return_stmt(
            loc_at(68, 5, 0),
            binop(BinaryOperator::Subtraction, var_on("y", 75, 5, 7), number_on("2", 79, 5, 11)),
        ),
    ]);
    let t_token = Token { location: loc_at(50, 4, 0), text: "t".to_string(), data: TokenData::Ident };
    let expected = vec![
        CheckerError::new(t_token.clone(), vec![], "Variable t was not declared".into()),
        CheckerError::new(t_token, vec![], "Variable t was not declared".into()),
    ];
    assert_eq!(errors_of(&mut block).get_errors(), &*expected);
}
