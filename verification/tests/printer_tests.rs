use rox::ast::Binary;
use rox::ast::Expr;
use rox::ast::Grouping;
use rox::ast::Literal;
use rox::ast::Unary;
use rox::printer::pretty_print;
use rox::token::Token;
use rox::token::TokenType;

#[test]
fn test_pretty_printer() {
    let minus_op = Token {
        typ: TokenType::Minus,
        lexeme: "-".to_string(),
        line: 1,
    };
    let star_op = Token {
        typ: TokenType::Star,
        lexeme: "*".to_string(),
        line: 1,
    };
    let expression = Expr::Binary(Binary {
        left: Box::new(Expr::Unary(Unary {
            operator: minus_op,
            right: Box::new(Expr::Literal(Literal::Number("123".to_string()))),
        })),
        operator: star_op,
        right: Box::new(Expr::Grouping(Grouping {
            expression: Box::new(Expr::Literal(Literal::Number("45.67".to_string()))),
        })),
    });
    let result = pretty_print(&expression);
    assert_eq!(result, "(* (- 123) (group 45.67))");
}
