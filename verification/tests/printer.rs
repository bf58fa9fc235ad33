use jlox::expr::AstPrinter;
use jlox::expr::Expr;
use jlox::expr::Visitor;
use jlox::lexer::Token;
use jlox::lexer::TokenType;
use jlox::token::Decimal;

fn number(whole: &[u8], fraction: &[u8], lexeme: &str) -> Token {
    Token::new(
        TokenType::Number(Decimal::new(whole.to_vec(), fraction.to_vec()).unwrap()),
        lexeme.to_string(),
        1,
    )
}

#[test]
fn test_pretty_printer() {
    let left = Expr::Unary(
        Token::new(TokenType::Minus, "-".to_string(), 1),
        Box::new(Expr::Literal(Some(number(&[1, 2, 3], &[], "123")))),
    );

    let operator = Token::new(TokenType::Star, "*".to_string(), 1);

    let right = Expr::Grouping(Box::new(Expr::Literal(Some(number(&[4, 5], &[6, 7], "45.67")))));

    let expression = Expr::Binary(Box::new(left), operator, Box::new(right));

    let s = AstPrinter.print(&expression);
    assert_eq!(s, "(* (- 123) (group 45.67))".to_string());
}

#[test]
fn nil_literal_prints_as_nil() {
    assert_eq!(AstPrinter.print(&Expr::Literal(None)), "nil");
    let e = Expr::Grouping(Box::new(Expr::Literal(None)));
    assert_eq!(AstPrinter.print(&e), "(group nil)");
}

#[test]
fn literal_prints_its_lexeme() {
    let e = Expr::Literal(Some(Token::new(
        TokenType::Str("a b".to_string()),
        "\"a b\"".to_string(),
        1,
    )));
    assert_eq!(AstPrinter.print(&e), "\"a b\"");
}

#[test]
fn parenthesize_puts_a_space_before_each_child() {
    let one = Expr::Literal(Some(number(&[1], &[], "1")));
    let two = Expr::Literal(None);
    let three = Expr::Unary(
        Token::new(TokenType::Bang, "!".to_string(), 1),
        Box::new(Expr::Literal(Some(number(&[3], &[], "3")))),
    );
    assert_eq!(AstPrinter.parenthesize("list", vec![]), "(list)");
    assert_eq!(AstPrinter.parenthesize("list", vec![&one]), "(list 1)");
    assert_eq!(AstPrinter.parenthesize("list", vec![&one, &two, &three]), "(list 1 nil (! 3))");
}

#[test]
fn nested_binary_prints_in_prefix_order() {
    let plus = Expr::Binary(
        Box::new(Expr::Literal(Some(number(&[1], &[], "1")))),
        Token::new(TokenType::Plus, "+".to_string(), 1),
        Box::new(Expr::Literal(Some(number(&[2], &[], "2")))),
    );
    let e = Expr::Binary(
        Box::new(plus.clone()),
        Token::new(TokenType::Less, "<".to_string(), 1),
        Box::new(Expr::Unary(Token::new(TokenType::Minus, "-".to_string(), 1), Box::new(plus))),
    );
    assert_eq!(AstPrinter.print(&e), "(< (+ 1 2) (- (+ 1 2)))");
    assert_eq!(AstPrinter.print(&e.clone()), "(< (+ 1 2) (- (+ 1 2)))");
}

struct Counter {
    binary: usize,
    grouping: usize,
    literal: usize,
    unary: usize,
}

impl Visitor<&'static str> for Counter {
    fn visit_binary_expr(&mut self, _expr: &Expr) -> &'static str {
        self.binary += 1;
        "binary"
    }

    fn visit_grouping_expr(&mut self, _expr: &Expr) -> &'static str {
        self.grouping += 1;
        "grouping"
    }

    fn visit_literal_expr(&mut self, _expr: &Expr) -> &'static str {
        self.literal += 1;
        "literal"
    }

    fn visit_unary_expr(&mut self, _expr: &Expr) -> &'static str {
        self.unary += 1;
        "unary"
    }
}

#[test]
fn accept_calls_the_method_of_the_variant() {
    let mut counter = Counter { binary: 0, grouping: 0, literal: 0, unary: 0 };
    let literal = Expr::Literal(None);
    let grouping = Expr::Grouping(Box::new(Expr::Literal(None)));
    let unary =
        Expr::Unary(Token::new(TokenType::Minus, "-".to_string(), 1), Box::new(Expr::Literal(None)));
    let binary = Expr::Binary(
        Box::new(Expr::Literal(None)),
        Token::new(TokenType::Plus, "+".to_string(), 1),
        Box::new(Expr::Literal(None)),
    );
    assert_eq!(literal.accept(&mut counter), "literal");
    assert_eq!(grouping.accept(&mut counter), "grouping");
    assert_eq!(unary.accept(&mut counter), "unary");
    assert_eq!(binary.accept(&mut counter), "binary");
    assert_eq!(binary.accept(&mut counter), "binary");
    assert_eq!(
        (counter.binary, counter.grouping, counter.literal, counter.unary),
        (2, 1, 1, 1)
    );
}
