use crow::ast::{
    BinaryExpr, BinaryOp, Block, Expr, Ident, Literal, LocalDecl, Number, Stmt, TypeDef, TypeName,
};
use crow::errors::ErrorKind;
use crow::float::Float;
use crow::typechecker::TypeChecker;
use crow::types::TypeId;

fn whole(value: i64) -> Expr {
    Expr::Lit(Box::new(Literal::Num(Number::Int(value))))
}

fn fraction(value: f64) -> Expr {
    Expr::Lit(Box::new(Literal::Num(Number::Float(Float::from_bits(value.to_bits())))))
}

fn text(value: &str) -> Expr {
    Expr::Lit(Box::new(Literal::Str(value.to_string())))
}

fn binary(op: BinaryOp, lhs: Expr, rhs: Expr) -> Expr {
    Expr::Binary(Box::new(BinaryExpr { op, lhs, rhs }))
}

fn local(name: &str, ty: Option<&str>, rhs: Option<Expr>) -> Stmt {
    Stmt::Local(Box::new(LocalDecl {
        name: Ident::from_string(name),
        ty: ty.map(|name| TypeDef::Alias(TypeName { text: Ident::from_string(name) })),
        rhs,
    }))
}

#[test]
fn test_typecheck_block() {
    let block = Block {
        ty: TypeId::void_id(),
        stmts: vec![
            // Type inference case
            Stmt::Local(Box::new(LocalDecl {
                name: Ident::from_string("x"),
                ty: None,
                rhs: Some(Expr::Binary(Box::new(BinaryExpr {
                    op: BinaryOp::Add,
                    lhs: Expr::Lit(Box::new(Literal::Num(Number::Int(7)))),
                    rhs: Expr::Lit(Box::new(Literal::Num(Number::Int(11)))),
                }))),
            })),
            // Both type and initial value
            Stmt::Local(Box::new(LocalDecl {
                name: Ident::from_string("x"),
                ty: Some(TypeDef::Alias(TypeName {
                    text: Ident::from_string("Int"),
                })),
                rhs: Some(Expr::Lit(Box::new(Literal::Num(Number::Int(42))))),
            })),
        ],
    };

    let mut typechecker = TypeChecker::new();

    typechecker.check_block(&block).expect("typechecking block");
}

#[test]
fn test_typecheck_expression() {
    let expr = Expr::Binary(Box::new(BinaryExpr {
        op: BinaryOp::Add,
        lhs: Expr::Lit(Box::new(Literal::Num(Number::Int(1)))),
        rhs: Expr::Lit(Box::new(Literal::Num(Number::Float(Float::from_bits(2.0f64.to_bits()))))),
    }));

    let typechecker = TypeChecker::new();

    assert!(typechecker.check_expr(&expr).is_err());
}

#[test]
fn literals_have_their_types() {
    assert_eq!(Literal::Num(Number::Int(1)).type_id(), TypeId(1));
    assert_eq!(Literal::Num(Number::Float(Float::from_bits(0))).type_id(), TypeId(2));
    assert_eq!(Literal::Str(String::new()).type_id(), TypeId(3));
    assert_eq!(Ident::from_string("abc").text, "abc");
}

#[test]
fn expressions_have_the_type_of_their_operands() {
    let checker = TypeChecker::new();
    assert_eq!(checker.check_expr(&whole(1)).unwrap(), TypeId::int_id());
    assert_eq!(checker.check_expr(&binary(BinaryOp::Mul, whole(1), whole(2))).unwrap(), TypeId::int_id());
    assert_eq!(
        checker.check_expr(&binary(BinaryOp::Exp, fraction(1.0), fraction(2.0))).unwrap(),
        TypeId::float_id()
    );
    assert_eq!(
        checker.check_expr(&binary(BinaryOp::Add, text("a"), text("b"))).unwrap(),
        TypeId::string_id()
    );
    let nested = binary(BinaryOp::Sub, binary(BinaryOp::Add, whole(1), whole(2)), binary(BinaryOp::Div, whole(3), whole(4)));
    assert_eq!(checker.check_expr(&nested).unwrap(), TypeId::int_id());
}

#[test]
fn mismatched_operands_are_type_errors() {
    let checker = TypeChecker::new();
    let err = checker.check_expr(&binary(BinaryOp::Add, whole(1), fraction(2.0))).unwrap_err();
    assert_eq!(err.kind, ErrorKind::Type);
    assert!(err.is_typecheck_err());
    assert_eq!(err.message, "TypeId(1) Add TypeId(2)");
    let err = checker.check_expr(&binary(BinaryOp::Sub, text("a"), text("b"))).unwrap_err();
    assert_eq!(err.message, "TypeId(3) Sub TypeId(3)");
    let err = checker.check_expr(&binary(BinaryOp::Assign, text("a"), whole(1))).unwrap_err();
    assert_eq!(err.message, "TypeId(3) Assign TypeId(1)");
    // The left operand is checked first.
    let both = binary(
        BinaryOp::Mod,
        binary(BinaryOp::Mul, fraction(1.0), whole(1)),
        binary(BinaryOp::Div, whole(1), text("x")),
    );
    assert_eq!(checker.check_expr(&both).unwrap_err().message, "TypeId(2) Mul TypeId(1)");
}

#[test]
fn declarations_declare_locals() {
    let mut checker = TypeChecker::new();
    assert_eq!(checker.local_type("x"), None);
    assert_eq!(checker.check_stmt(&local("x", None, Some(whole(1)))).unwrap(), TypeId::int_id());
    assert_eq!(checker.local_type("x"), Some(TypeId::int_id()));
    assert_eq!(checker.check_stmt(&local("y", Some("Float"), None)).unwrap(), TypeId::float_id());
    assert_eq!(checker.local_type("y"), Some(TypeId::float_id()));
    // A later declaration shadows the earlier one.
    assert_eq!(
        checker.check_stmt(&local("x", Some("String"), Some(text("s")))).unwrap(),
        TypeId::string_id()
    );
    assert_eq!(checker.local_type("x"), Some(TypeId::string_id()));
    assert_eq!(checker.local_type("y"), Some(TypeId::float_id()));
    assert_eq!(checker.check_stmt(&local("v", Some("Void"), None)).unwrap(), TypeId::void_id());
    assert_eq!(checker.local_type("z"), None);
}

#[test]
fn bad_declarations_are_type_errors() {
    let mut checker = TypeChecker::new();
    let err = checker.check_stmt(&local("x", None, None)).unwrap_err();
    assert_eq!(err.kind, ErrorKind::Type);
    assert_eq!(err.message, "local variable declaration needs an explicit type, or an initial value");
    let err = checker.check_stmt(&local("x", Some("Point"), Some(whole(1)))).unwrap_err();
    assert_eq!(err.message, "unknown type alias: Point");
    let err = checker.check_stmt(&local("x", Some("Int"), Some(fraction(1.0)))).unwrap_err();
    assert_eq!(err.message, "mismatched types; expected TypeId(1), found TypeId(2)");
    let err = checker.check_stmt(&local("x", Some("Int"), Some(binary(BinaryOp::Add, whole(1), text("s"))))).unwrap_err();
    assert_eq!(err.message, "TypeId(1) Add TypeId(3)");
    // The name of the type is resolved before the value is checked.
    let err = checker.check_stmt(&local("x", Some("Nope"), Some(binary(BinaryOp::Add, whole(1), text("s"))))).unwrap_err();
    assert_eq!(err.message, "unknown type alias: Nope");
    assert_eq!(checker.local_type("x"), None);
}

#[test]
fn a_block_stops_at_its_first_error() {
    let mut checker = TypeChecker::new();
    let block = Block {
        ty: TypeId::void_id(),
        stmts: vec![
            local("a", None, Some(whole(1))),
            local("b", Some("Int"), Some(text("s"))),
            local("c", None, Some(whole(1))),
        ],
    };
    let err = checker.check_block(&block).unwrap_err();
    assert_eq!(err.message, "mismatched types; expected TypeId(1), found TypeId(3)");
    assert_eq!(checker.local_type("a"), Some(TypeId::int_id()));
    assert_eq!(checker.local_type("b"), None);
    assert_eq!(checker.local_type("c"), None);
    let empty = Block { ty: TypeId::void_id(), stmts: vec![] };
    assert_eq!(checker.check_block(&empty).unwrap(), TypeId::void_id());
}
