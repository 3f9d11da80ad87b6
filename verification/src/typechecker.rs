//! Type checker for blocks of local declarations over literals and binary
//! expressions.
use crate::ast::{BinaryExpr, BinaryOp, Block, Expr, LocalDecl, Stmt, TypeDef};
use crate::errors::{decimal, decimal_string, outcome, type_mismatch, Error, ErrorKind, ErrorView, Result};
use crate::types::{alias_views, built_in_aliases, init_type_aliases, init_type_table, Type, TypeId};
use vstd::prelude::*;
use vstd::string::*;

verus! {

/// A name and the type that stands behind it.
pub type Binding = (Seq<char>, TypeId);

pub struct TypeChecker {
    types: Vec<Type>,
    aliases: Vec<(String, TypeId)>,
    scope: Scope,
    scopes: Vec<Scope>,
}

struct Scope {
    /// Local variables declared in this scope.
    locals: Vec<Local>,
}

struct Local {
    name: String,
    ty: TypeId,
}

/// What the checker knows: the names of types, and the local variables of
/// the scope it is in, in the order of their first declaration.
#[verifier::ext_equal]
pub struct CheckerView {
    pub aliases: Seq<Binding>,
    pub locals: Seq<Binding>,
}

/// The place of the first binding of `name` at or after `from`.
pub open spec fn find(table: Seq<Binding>, name: Seq<char>, from: int) -> Option<int>
    decreases table.len() - from,
{
    if from < 0 || from >= table.len() {
        None
    } else if table[from].0 == name {
        Some(from)
    } else {
        find(table, name, from + 1)
    }
}

/// The bindings after declaring `name` with type `ty`: a binding of the
/// same name is replaced where it stands, a new name is added at the end.
pub open spec fn declared(locals: Seq<Binding>, name: Seq<char>, ty: TypeId) -> Seq<Binding> {
    match find(locals, name, 0) {
        Some(at) => locals.update(at, (name, ty)),
        None => locals.push((name, ty)),
    }
}

/// How an identifier of a type prints.
pub open spec fn id_text(id: TypeId) -> Seq<char> {
    "TypeId("@ + decimal(id.0 as nat) + ")"@
}

/// How a binary operator prints.
pub open spec fn op_text(op: BinaryOp) -> Seq<char> {
    match op {
        BinaryOp::Add => "Add"@,
        BinaryOp::Sub => "Sub"@,
        BinaryOp::Mul => "Mul"@,
        BinaryOp::Div => "Div"@,
        BinaryOp::Mod => "Mod"@,
        BinaryOp::Exp => "Exp"@,
        BinaryOp::Assign => "Assign"@,
    }
}

/// The type of a binary expression over operands of types `lhs` and
/// `rhs`: integers and floats combine with their own kind under every
/// operator, strings only under addition.
pub open spec fn binary_type(lhs: TypeId, op: BinaryOp, rhs: TypeId) -> core::result::Result<
    TypeId,
    ErrorView,
> {
    if lhs == TypeId::spec_int_id() && rhs == TypeId::spec_int_id() {
        Ok(TypeId::spec_int_id())
    } else if lhs == TypeId::spec_float_id() && rhs == TypeId::spec_float_id() {
        Ok(TypeId::spec_float_id())
    } else if lhs == TypeId::spec_string_id() && op == BinaryOp::Add && rhs
        == TypeId::spec_string_id() {
        Ok(TypeId::spec_string_id())
    } else {
        Err(type_mismatch(id_text(lhs) + " "@ + op_text(op) + " "@ + id_text(rhs)))
    }
}

/// Whether an expression is made of literals and binary operators alone.
pub open spec fn expr_checkable(expr: Expr) -> bool
    decreases expr,
{
    match expr {
        Expr::Binary(binary) => expr_checkable(binary.lhs) && expr_checkable(binary.rhs),
        Expr::Lit(_) => true,
        _ => false,
    }
}

/// The type of an expression, or the first mismatch in it, operands from
/// left to right.
pub open spec fn expr_type(expr: Expr) -> core::result::Result<TypeId, ErrorView>
    decreases expr,
{
    match expr {
        Expr::Binary(binary) => match expr_type(binary.lhs) {
            Err(err) => Err(err),
            Ok(lhs) => match expr_type(binary.rhs) {
                Err(err) => Err(err),
                Ok(rhs) => binary_type(lhs, binary.op, rhs),
            },
        },
        Expr::Lit(literal) => Ok(literal.spec_type_id()),
        _ => Ok(TypeId::spec_void_id()),
    }
}

/// The type that a name of a type stands for.
pub open spec fn alias_type(aliases: Seq<Binding>, name: Seq<char>) -> core::result::Result<
    TypeId,
    ErrorView,
> {
    match find(aliases, name, 0) {
        Some(at) => Ok(aliases[at].1),
        None => Err(type_mismatch("unknown type alias: "@ + name)),
    }
}

/// Whether a declaration names its type, if it gives one, and has an
/// initial value, if any, that is made of literals and binary operators.
pub open spec fn decl_checkable(decl: LocalDecl) -> bool {
    &&& decl.ty matches Some(def) ==> def is Alias
    &&& decl.rhs matches Some(expr) ==> expr_checkable(expr)
}

/// The type of the variable that a declaration declares. The declared
/// type is resolved first, then the initial value is checked; a
/// declaration needs one of the two, and where it has both they agree.
pub open spec fn decl_type(aliases: Seq<Binding>, decl: LocalDecl) -> core::result::Result<
    TypeId,
    ErrorView,
> {
    let named = match decl.ty {
        Some(TypeDef::Alias(name)) => Some(alias_type(aliases, name.text.text@)),
        _ => None,
    };
    let valued = match decl.rhs {
        Some(expr) => Some(expr_type(expr)),
        None => None,
    };
    match (named, valued) {
        (Some(Err(err)), _) => Err(err),
        (_, Some(Err(err))) => Err(err),
        (None, None) => Err(
            type_mismatch(
                "local variable declaration needs an explicit type, or an initial value"@,
            ),
        ),
        (Some(Ok(ty)), None) => Ok(ty),
        (None, Some(Ok(found))) => if found == TypeId::spec_void_id() {
            Err(type_mismatch("Void cannot be assigned to a variable"@))
        } else {
            Ok(found)
        },
        (Some(Ok(ty)), Some(Ok(found))) => if found == TypeId::spec_void_id() {
            Err(type_mismatch("Void cannot be assigned to a variable"@))
        } else if ty == found {
            Ok(ty)
        } else {
            Err(
                type_mismatch(
                    "mismatched types; expected "@ + id_text(ty) + ", found "@ + id_text(found),
                ),
            )
        },
    }
}

/// Whether a statement is a declaration that can be checked.
pub open spec fn stmt_checkable(stmt: Stmt) -> bool {
    stmt matches Stmt::Local(decl) && decl_checkable(*decl)
}

/// The checker after a statement, and the type of the statement.
pub open spec fn after_stmt(checker: CheckerView, stmt: Stmt) -> (
    CheckerView,
    core::result::Result<TypeId, ErrorView>,
) {
    match stmt {
        Stmt::Local(decl) => match decl_type(checker.aliases, *decl) {
            Ok(ty) => (
                CheckerView { locals: declared(checker.locals, decl.name.text@, ty), ..checker },
                Ok(ty),
            ),
            Err(err) => (checker, Err(err)),
        },
        _ => (checker, Ok(TypeId::spec_void_id())),
    }
}

/// The checker after the statements from `from` on, in order, up to the
/// first that fails; a block whose statements all pass has type `Void`.
pub open spec fn after_stmts(checker: CheckerView, stmts: Seq<Stmt>, from: int) -> (
    CheckerView,
    core::result::Result<TypeId, ErrorView>,
)
    decreases stmts.len() - from,
{
    if from < 0 || from >= stmts.len() {
        (checker, Ok(TypeId::spec_void_id()))
    } else {
        let (next, result) = after_stmt(checker, stmts[from]);
        match result {
            Ok(_) => after_stmts(next, stmts, from + 1),
            Err(err) => (next, Err(err)),
        }
    }
}

/// The names and types of a sequence of locals, in order.
closed spec fn bindings(locals: Seq<Local>) -> Seq<Binding> {
    Seq::new(locals.len(), |i: int| (locals[i].name@, locals[i].ty))
}

/// Writes the identifier of a type as it prints.
fn id_string(id: TypeId) -> (text: String)
    ensures
        text@ == id_text(id),
{
    let number = decimal_string(id.0 as u64);
    String::from_str("TypeId(").concat(number.as_str()).concat(")")
}

fn op_str(op: BinaryOp) -> (text: &'static str)
    ensures
        text@ == op_text(op),
{
    match op {
        BinaryOp::Add => "Add",
        BinaryOp::Sub => "Sub",
        BinaryOp::Mul => "Mul",
        BinaryOp::Div => "Div",
        BinaryOp::Mod => "Mod",
        BinaryOp::Exp => "Exp",
        BinaryOp::Assign => "Assign",
    }
}

fn type_error(message: String) -> (err: Error)
    ensures
        err@ == type_mismatch(message@),
{
    Error { message, kind: ErrorKind::Type }
}

impl View for TypeChecker {
    type V = CheckerView;

    closed spec fn view(&self) -> CheckerView {
        CheckerView { aliases: alias_views(self.aliases@), locals: bindings(self.scope.locals@) }
    }
}

impl TypeChecker {
    pub fn new() -> (checker: Self)
        ensures
            checker@ == (CheckerView { aliases: built_in_aliases(), locals: Seq::empty() }),
    {
        let checker = Self {
            types: init_type_table(),
            aliases: init_type_aliases(),
            scope: Scope { locals: Vec::new() },
            scopes: Vec::new(),
        };
        assert(checker@.locals =~= Seq::empty());
        checker
    }

    /// The type of the local variable `name`, if it is declared.
    pub fn local_type(&self, name: &str) -> (ty: Option<TypeId>)
        ensures
            ty == (match find(self@.locals, name@, 0) {
                Some(at) => Some(self@.locals[at].1),
                None => None,
            }),
    {
        let wanted = String::from_str(name);
        let mut i: usize = 0;
        while i < self.scope.locals.len()
            invariant
                i <= self.scope.locals@.len(),
                wanted@ == name@,
                find(self@.locals, name@, 0) == find(self@.locals, name@, i as int),
            decreases self.scope.locals@.len() - i,
        {
            if self.scope.locals[i].name == wanted {
                return Some(self.scope.locals[i].ty);
            }
            i += 1;
        }
        None
    }

    /// Resolve a type from a type definition syntax node that names it.
    fn resolve_type(&self, type_def: &TypeDef) -> (result: Result<TypeId>)
        requires
            type_def is Alias,
        ensures
            outcome(result) == alias_type(self@.aliases, type_def->Alias_0.text.text@),
    {
        match type_def {
            // The simple case is to lookup the type alias by string.
            TypeDef::Alias(name) => {
                let mut i: usize = 0;
                while i < self.aliases.len()
                    invariant
                        i <= self.aliases@.len(),
                        type_def is Alias,
                        type_def->Alias_0 == *name,
                        find(self@.aliases, name.text.text@, 0) == find(
                            self@.aliases,
                            name.text.text@,
                            i as int,
                        ),
                    decreases self.aliases@.len() - i,
                {
                    if self.aliases[i].0 == name.text.text {
                        assert(self@.aliases[i as int] == (
                            self.aliases@[i as int].0@,
                            self.aliases@[i as int].1,
                        ));
                        return Ok(self.aliases[i].1);
                    }
                    i += 1;
                }
                Err(
                    type_error(
                        String::from_str("unknown type alias: ").concat(name.text.text.as_str()),
                    ),
                )
            },
            TypeDef::Lit(_) => Ok(TypeId::void_id()),
        }
    }

    /// Type check the given block.
    pub fn check_block(&mut self, block: &Block) -> (result: Result<TypeId>)
        requires
            forall|i: int| 0 <= i < block.stmts@.len() ==> stmt_checkable(#[trigger] block.stmts@[i]),
        ensures
            (final(self)@, outcome(result)) == after_stmts(old(self)@, block.stmts@, 0),
    {
        let mut i: usize = 0;
        while i < block.stmts.len()
            invariant
                i <= block.stmts@.len(),
                forall|j: int|
                    0 <= j < block.stmts@.len() ==> stmt_checkable(#[trigger] block.stmts@[j]),
                after_stmts(self@, block.stmts@, i as int) == after_stmts(
                    old(self)@,
                    block.stmts@,
                    0,
                ),
            decreases block.stmts@.len() - i,
        {
            // The resulting type of a statement is discarded.
            match self.check_stmt(&block.stmts[i]) {
                Ok(_) => {},
                Err(err) => {
                    return Err(err);
                },
            }
            i += 1;
        }
        // Block with no return will return void.
        Ok(TypeId::void_id())
    }

    /// Type check the given statement.
    pub fn check_stmt(&mut self, stmt: &Stmt) -> (result: Result<TypeId>)
        requires
            stmt_checkable(*stmt),
        ensures
            (final(self)@, outcome(result)) == after_stmt(old(self)@, *stmt),
    {
        match stmt {
            Stmt::Local(local_decl) => self.check_local_decl(local_decl),
            _ => Ok(TypeId::void_id()),
        }
    }

    /// Type check the given local variable declaration.
    ///
    /// Variable declaration has three forms:
    ///
    /// 1. No type, RHS expression
    /// 2. Type, no RHS expression
    /// 3. Type and RHS expression
    ///
    /// A local variable declaration with no type and no right hand side expression is invalid.
    fn check_local_decl(&mut self, local_decl: &LocalDecl) -> (result: Result<TypeId>)
        requires
            decl_checkable(*local_decl),
        ensures
            outcome(result) == decl_type(old(self)@.aliases, *local_decl),
            final(self)@ == (match decl_type(old(self)@.aliases, *local_decl) {
                Ok(ty) => CheckerView {
                    locals: declared(old(self)@.locals, local_decl.name.text@, ty),
                    ..old(self)@
                },
                Err(_) => old(self)@,
            }),
    {
        // Type is explicitly user defined.
        let maybe_ty = match &local_decl.ty {
            Some(type_lit) => match self.resolve_type(type_lit) {
                Ok(ty) => Some(ty),
                Err(err) => {
                    return Err(err);
                },
            },
            None => None,
        };
        // Initial value is defined with an expression.
        let maybe_rhs_ty = match &local_decl.rhs {
            Some(expr) => match self.check_expr(expr) {
                Ok(ty) => Some(ty),
                Err(err) => {
                    return Err(err);
                },
            },
            None => None,
        };
        let ty = match (maybe_ty, maybe_rhs_ty) {
            // No type nor expression defined.
            (None, None) => {
                return Err(
                    type_error(
                        String::from_str(
                            "local variable declaration needs an explicit type, or an initial value",
                        ),
                    ),
                );
            },
            (Some(ty), None) => ty,
            (declared_ty, Some(expr_ty)) => {
                // Void cannot be used as a value.
                if expr_ty == TypeId::void_id() {
                    return Err(type_error(String::from_str("Void cannot be assigned to a variable")));
                }
                match declared_ty {
                    // Type inference.
                    None => expr_ty,
                    // Expression must be assignable to the defined type.
                    Some(ty) => {
                        if ty == expr_ty {
                            ty
                        } else {
                            let message = String::from_str("mismatched types; expected ").concat(
                                id_string(ty).as_str(),
                            ).concat(", found ").concat(id_string(expr_ty).as_str());
                            return Err(type_error(message));
                        }
                    },
                }
            },
        };
        self.declare_local(local_decl.name.text.clone(), ty);
        Ok(ty)
    }

    /// Type check the given expression node.
    pub fn check_expr(&self, expr: &Expr) -> (result: Result<TypeId>)
        requires
            expr_checkable(*expr),
        ensures
            outcome(result) == expr_type(*expr),
        decreases *expr,
    {
        match expr {
            Expr::Binary(binary_expr) => self.check_binary_expr(binary_expr),
            Expr::Lit(literal) => Ok(literal.type_id()),
            _ => Ok(TypeId::void_id()),
        }
    }

    fn check_binary_expr(&self, binary_expr: &BinaryExpr) -> (result: Result<TypeId>)
        requires
            expr_checkable(binary_expr.lhs),
            expr_checkable(binary_expr.rhs),
        ensures
            outcome(result) == (match expr_type(binary_expr.lhs) {
                Err(err) => Err(err),
                Ok(lhs) => match expr_type(binary_expr.rhs) {
                    Err(err) => Err(err),
                    Ok(rhs) => binary_type(lhs, binary_expr.op, rhs),
                },
            }),
        decreases *binary_expr,
    {
        let lhs_ty = match self.check_expr(&binary_expr.lhs) {
            Ok(ty) => ty,
            Err(err) => {
                return Err(err);
            },
        };
        let rhs_ty = match self.check_expr(&binary_expr.rhs) {
            Ok(ty) => ty,
            Err(err) => {
                return Err(err);
            },
        };
        let int_ty = TypeId::int_id();
        let float_ty = TypeId::float_id();
        let string_ty = TypeId::string_id();
        if lhs_ty == int_ty && rhs_ty == int_ty {
            Ok(int_ty)
        } else if lhs_ty == float_ty && rhs_ty == float_ty {
            Ok(float_ty)
        } else if lhs_ty == string_ty && binary_expr.op == BinaryOp::Add && rhs_ty == string_ty {
            Ok(string_ty)
        } else {
            let message = id_string(lhs_ty).concat(" ").concat(op_str(binary_expr.op)).concat(
                " ",
            ).concat(id_string(rhs_ty).as_str());
            Err(type_error(message))
        }
    }

    /// Declare a local variable in the current scope.
    fn declare_local(&mut self, name: String, ty: TypeId)
        ensures
            final(self)@ == (CheckerView { locals: declared(old(self)@.locals, name@, ty), ..old(self)@ }),
    {
        let mut i: usize = 0;
        while i < self.scope.locals.len()
            invariant
                i <= self.scope.locals@.len(),
                *self == *old(self),
                find(self@.locals, name@, 0) == find(self@.locals, name@, i as int),
            decreases self.scope.locals@.len() - i,
        {
            if self.scope.locals[i].name == name {
                // Existing local is shadowed.
                self.scope.locals[i] = Local { name, ty };
                assert(self@.locals =~= declared(old(self)@.locals, name@, ty));
                return ;
            }
            i += 1;
        }
        // New variable declared.
        self.scope.locals.push(Local { name, ty });
        assert(self@.locals =~= declared(old(self)@.locals, name@, ty));
    }
}

} // verus!
