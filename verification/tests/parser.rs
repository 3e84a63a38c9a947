use khviz::eel::parser::{parse, BinOp, Expr, UnaryOp};

fn op(o: &BinOp) -> &'static str {
    match o {
        BinOp::Add => "+",
        BinOp::Sub => "-",
        BinOp::Mul => "*",
        BinOp::Div => "/",
        BinOp::Mod => "%",
        BinOp::Pow => "^",
        BinOp::Lt => "<",
        BinOp::Gt => ">",
        BinOp::BitAnd => "&",
        BinOp::BitOr => "|",
    }
}

fn sx(e: &Expr) -> String {
    match e {
        Expr::Number(n) => format!("#{}", n),
        Expr::Var(v) => v.clone(),
        Expr::Assign { var, val } => format!("(= {} {})", var, sx(val)),
        Expr::CompoundAssign { var, op: o, val } => format!("({}= {} {})", op(o), var, sx(val)),
        Expr::BinOp { op: o, lhs, rhs } => format!("({} {} {})", op(o), sx(lhs), sx(rhs)),
        Expr::Unary { op: UnaryOp::Neg, expr } => format!("(neg {})", sx(expr)),
        Expr::Unary { op: UnaryOp::Not, expr } => format!("(not {})", sx(expr)),
        Expr::Call { name, args } => {
            let a: Vec<String> = args.iter().map(sx).collect();
            format!("({} [{}])", name, a.join(" "))
        }
        Expr::Sequence(es) => {
            let a: Vec<String> = es.iter().map(sx).collect();
            format!("(seq {})", a.join(" "))
        }
    }
}

fn p(src: &str) -> String {
    sx(&parse(src))
}

#[test]
fn empty_program_is_zero() {
    assert_eq!(p(""), "#0");
    assert_eq!(p(";;; // nothing"), "#0");
}

#[test]
fn precedence_of_arithmetic() {
    assert_eq!(p("1 + 2 * 3"), "(+ #1 (* #2 #3))");
    assert_eq!(p("1 - 2 - 3"), "(- (- #1 #2) #3)");
    assert_eq!(p("a / b % c"), "(% (/ a b) c)");
}

#[test]
fn power_is_right_associative_over_unary_operands() {
    assert_eq!(p("2 ^ 3 ^ 2"), "(^ #2 (^ #3 #2))");
    assert_eq!(p("-x ^ 2"), "(^ (neg x) #2)");
    assert_eq!(p("!!a"), "(not (not a))");
}

#[test]
fn comparison_and_bit_operators() {
    assert_eq!(p("a < b & c > d | e"), "(| (& (< a b) (> c d)) e)");
    assert_eq!(p("a < b < c"), "(seq (< a b) #0 c)");
}

#[test]
fn assignments_are_right_associative() {
    assert_eq!(p("a = b = 3"), "(= a (= b #3))");
    assert_eq!(p("x += y * 2"), "(+= x (* y #2))");
    assert_eq!(p("q1 ^= 2"), "(^= q1 #2)");
}

#[test]
fn statements_form_a_sequence() {
    assert_eq!(p("a = 1; b = 2;"), "(seq (= a #1) (= b #2))");
    assert_eq!(p("a = 1"), "(= a #1)");
    assert_eq!(p("a, b, c"), "(seq a b c)");
}

#[test]
fn calls_and_arguments() {
    assert_eq!(p("sin(x)"), "(sin [x])");
    assert_eq!(p("max(a, b + 1)"), "(max [a (+ b #1)])");
    assert_eq!(p("rand()"), "(rand [])");
    assert_eq!(p("f(a,)"), "(f [a])");
    assert_eq!(p("f(a"), "(f [a])");
    assert_eq!(p("if(a > 0, b = 1, b = 2)"), "(if [(> a #0) (= b #1) (= b #2)])");
}

#[test]
fn parentheses_group() {
    assert_eq!(p("(1 + 2) * 3"), "(* (+ #1 #2) #3)");
    assert_eq!(p("(a, b)"), "(seq a b)");
    assert_eq!(p("(1 + 2"), "(+ #1 #2)");
}

#[test]
fn stray_tokens_read_as_zero() {
    assert_eq!(p(")"), "#0");
    assert_eq!(p("1 + )"), "(+ #1 #0)");
    assert_eq!(p("x = "), "(= x #0)");
}

#[test]
fn numbers_keep_source_text() {
    assert_eq!(p("1.25e2"), "#1.25e2");
    assert_eq!(p(".5 * 2"), "(* #.5 #2)");
}

#[test]
fn blank_programs_with_few_semicolons_are_zero() {
    assert_eq!(p("  // only a comment\n"), "#0");
    assert_eq!(p(";"), "#0");
    assert_eq!(p(" ; /* c */ ; "), "#0");
    assert_eq!(p(";;;"), "#0");
    assert_eq!(p(";\n;\t;  ;"), "#0");
}

#[test]
fn five_semicolons_read_as_two_zero_statements() {
    assert_eq!(p(";;;;;"), "(seq #0 #0)");
}

#[test]
fn unclosed_comment_hides_the_rest() {
    assert_eq!(p("x = 1; /* y = 2"), "(= x #1)");
}
