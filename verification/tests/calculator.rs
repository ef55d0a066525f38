use ragent::calculator::{
    literal_text, parse_expression, tokenize, CalcError, CalculatorInput, CalculatorTool, Expr, ParseFailure, Tok,
};

fn eval(expr: &str, e: &Expr) -> Result<f64, CalcError> {
    match e {
        Expr::Num(a, b) => Ok(literal_text(expr, *a, *b).parse::<f64>().unwrap()),
        Expr::Neg(x) => Ok(-eval(expr, x)?),
        Expr::Paren(x) => eval(expr, x),
        Expr::Add(l, r) => Ok(eval(expr, l)? + eval(expr, r)?),
        Expr::Sub(l, r) => Ok(eval(expr, l)? - eval(expr, r)?),
        Expr::Mul(l, r) => Ok(eval(expr, l)? * eval(expr, r)?),
        Expr::Div(l, r) => {
            let a = eval(expr, l)?;
            let b = eval(expr, r)?;
            if b == 0.0 {
                return Err(CalcError::DivisionByZero);
            }
            Ok(a / b)
        }
    }
}

fn calc(expr: &str) -> Result<f64, CalcError> {
    let tool = CalculatorTool::new();
    let input = CalculatorInput { expression: expr.to_string() };
    match tool.parse(&input) {
        Ok(tree) => eval(expr, &tree),
        Err(ParseFailure { error, evaluated }) => {
            for done in &evaluated {
                eval(expr, done)?;
            }
            Err(error)
        }
    }
}

fn num(a: usize, b: usize) -> Box<Expr> {
    Box::new(Expr::Num(a, b))
}

#[test]
fn test_basic() {
    let out = calc("2 + 3 * 4").unwrap();
    assert!((out - 14.0).abs() < f64::EPSILON);
}

#[test]
fn test_parens() {
    let out = calc("(2 + 3) * 4").unwrap();
    assert!((out - 20.0).abs() < f64::EPSILON);
}

#[test]
fn precedence_tree() {
    let e = parse_expression("2 + 3 * 4").unwrap();
    assert_eq!(e, Expr::Add(num(0, 1), Box::new(Expr::Mul(num(4, 5), num(8, 9)))));
}

#[test]
fn parens_tree() {
    let e = parse_expression("(2+3)*4").unwrap();
    assert_eq!(
        e,
        Expr::Mul(Box::new(Expr::Paren(Box::new(Expr::Add(num(1, 2), num(3, 4))))), num(6, 7))
    );
}

#[test]
fn subtraction_is_left_associative() {
    let e = parse_expression("8-3-2").unwrap();
    assert_eq!(e, Expr::Sub(Box::new(Expr::Sub(num(0, 1), num(2, 3))), num(4, 5)));
    assert_eq!(calc("8-3-2").unwrap(), 3.0);
    assert_eq!(calc("8/4/2").unwrap(), 1.0);
}

#[test]
fn unary_minus() {
    let e = parse_expression("--2").unwrap();
    assert_eq!(e, Expr::Neg(Box::new(Expr::Neg(num(2, 3)))));
    assert_eq!(calc("-2 * -3").unwrap(), 6.0);
}

#[test]
fn decimals_and_whitespace() {
    assert_eq!(calc(" 1.5\t+\n.5 ").unwrap(), 2.0);
    assert_eq!(calc("3.").unwrap(), 3.0);
    assert_eq!(literal_text("12.75+1", 0, 5), "12.75");
}

#[test]
fn tokens_of_expression() {
    let t = tokenize("(12 - 3)/x").unwrap_err();
    assert_eq!(t, CalcError::UnexpectedChar('x'));
    let t = tokenize("(12 - 3)/4").unwrap();
    assert_eq!(
        t,
        vec![Tok::LParen, Tok::Num(1, 3), Tok::Minus, Tok::Num(6, 7), Tok::RParen, Tok::Slash, Tok::Num(9, 10)]
    );
}

#[test]
fn invalid_numbers() {
    assert_eq!(tokenize("1.2.3"), Err(CalcError::InvalidNumber(0, 5)));
    assert_eq!(tokenize("2 + ."), Err(CalcError::InvalidNumber(4, 5)));
}

#[test]
fn syntax_errors() {
    let err = |s: &str| parse_expression(s).err().map(|f| f.error);
    assert_eq!(err("2 +"), Some(CalcError::UnexpectedEnd));
    assert_eq!(err(""), Some(CalcError::UnexpectedEnd));
    assert_eq!(err("(2 + 3"), Some(CalcError::MissingParen));
    assert_eq!(err("2 * )"), Some(CalcError::UnexpectedToken(2)));
    assert_eq!(err("2 3"), Some(CalcError::TrailingTokens));
    assert_eq!(err("(1))"), Some(CalcError::TrailingTokens));
    assert_eq!(err("1 $"), Some(CalcError::UnexpectedChar('$')));
}

#[test]
fn failures_list_completed_operands() {
    let f = parse_expression("2 * (3 + ").unwrap_err();
    assert_eq!(f.error, CalcError::UnexpectedEnd);
    assert_eq!(f.evaluated, vec![Expr::Num(0, 1), Expr::Num(5, 6)]);
    let f = parse_expression("(2 + 3").unwrap_err();
    assert_eq!(f.evaluated, vec![Expr::Add(num(1, 2), num(5, 6))]);
    let f = parse_expression("4 4").unwrap_err();
    assert_eq!(f, ParseFailure { error: CalcError::TrailingTokens, evaluated: vec![Expr::Num(0, 1)] });
    assert!(parse_expression("1 $").unwrap_err().evaluated.is_empty());
}

#[test]
fn zero_division_before_syntax_error_wins() {
    assert_eq!(calc("1/0 +"), Err(CalcError::DivisionByZero));
    assert_eq!(calc("(1/0"), Err(CalcError::DivisionByZero));
    assert_eq!(calc("1/0 )"), Err(CalcError::DivisionByZero));
    assert_eq!(calc("1/1 +"), Err(CalcError::UnexpectedEnd));
}

#[test]
fn division_by_zero() {
    assert_eq!(calc("1 / (2 - 2)"), Err(CalcError::DivisionByZero));
    assert_eq!(calc("0 / 5").unwrap(), 0.0);
}

#[test]
fn tool_identity() {
    let t = CalculatorTool::new();
    assert_eq!(t.name(), "calculator");
    assert_eq!(t.description(), "Evaluate a mathematical expression. Supports +, -, *, /, parentheses.");
}

#[test]
fn error_messages() {
    assert_eq!(CalcError::UnexpectedChar('x').message(), "Unexpected char: x");
    assert_eq!(CalcError::InvalidNumber(0, 3).message(), "invalid float literal");
    assert_eq!(CalcError::UnexpectedEnd.message(), "Unexpected end");
    assert_eq!(CalcError::MissingParen.message(), "Missing )");
    assert_eq!(CalcError::UnexpectedToken(12).message(), "Unexpected token at 12");
    assert_eq!(CalcError::TrailingTokens.message(), "Unexpected tokens after expression");
    assert_eq!(CalcError::DivisionByZero.message(), "Division by zero");
}

#[test]
fn spacing_changes_only_where_literals_stand() {
    let pairs = [
        ("1+2*3.5", " 1 +\t2 *\n3.5 "),
        ("(7-2)/5", "( 7 - 2 ) / 5"),
        ("1+*2", "1 + * 2"),
        ("1+", "1 +   "),
    ];
    for (tight, loose) in pairs {
        let a = calc(tight);
        let b = calc(loose);
        assert_eq!(a, b);
        match (parse_expression(tight), parse_expression(loose)) {
            (Ok(x), Ok(y)) => {
                assert_eq!(eval(tight, &x).unwrap(), eval(loose, &y).unwrap());
            }
            (Err(x), Err(y)) => {
                assert_eq!(x.error.message(), y.error.message());
                assert_eq!(x.evaluated.len(), y.evaluated.len());
            }
            _ => panic!("outcomes differ"),
        }
    }
    assert_eq!(calc("1+2*3.5").unwrap(), 8.0);
    assert_eq!(tokenize("1.5 .5").unwrap().len(), 2);
    assert_eq!(tokenize("1.5.5").unwrap_err().message(), "invalid float literal");
}
