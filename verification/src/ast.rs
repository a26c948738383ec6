//! The part of a JavaScript module's syntax tree that the analysis reads.
//!
//! Symbols are held as strings; nodes the analysis does not look into are
//! kept as an `Other` variant.
use vstd::prelude::*;

verus! {

/// A module: its items in source order.
#[derive(Debug)]
pub struct Module {
    /// Module items.
    pub body: Vec<ModuleItem>,
}

/// A module item.
#[derive(Debug)]
pub enum ModuleItem {
    /// An import declaration.
    Import(ImportDecl),
    /// An export declaration.
    Export(ExportDecl),
    /// A statement.
    Stmt(Stmt),
}

/// An import declaration: `import ... from 'src'`.
#[derive(Debug)]
pub struct ImportDecl {
    /// The module specifier.
    pub src: String,
    /// The imported bindings.
    pub specifiers: Vec<ImportSpecifier>,
}

/// A binding of an import declaration, by its local name.
#[derive(Debug)]
pub enum ImportSpecifier {
    /// `import name from ...`
    Default(String),
    /// `import { name } from ...` or `import { other as name } from ...`:
    /// the local name, and the imported name where it differs.
    Named(String, Option<String>),
    /// `import * as name from ...`
    Namespace(String),
}

/// An export declaration.
#[derive(Debug)]
pub enum ExportDecl {
    /// `export * from 'src'`
    All(String),
    /// `export { a, b as c }`, with the source of a re-export
    /// (`export { a } from 'src'`).
    Named(Option<String>, Vec<ExportSpecifier>),
    /// `export var|let|const ...`, `export function ...` or `export class ...`
    Decl(Decl),
    /// `export default expr`
    DefaultExpr(Box<Expr>),
    /// `export default function ...` or `export default class ...`, held as
    /// the function or class expression.
    DefaultDecl(Box<Expr>),
    /// Any other module declaration.
    Other,
}

/// A specifier of a named export.
#[derive(Debug)]
pub enum ExportSpecifier {
    /// `orig` or `orig as exported`: the original name, and the exported
    /// name where it differs.
    Named(String, Option<String>),
    /// A namespace or default specifier.
    Other,
}

/// A statement.
#[derive(Debug)]
pub enum Stmt {
    /// A declaration.
    Decl(Decl),
    /// `with (obj) body`
    With(Box<Expr>, Box<Stmt>),
    /// `while (test) body`
    While(Box<Expr>, Box<Stmt>),
    /// `do body while (test)`
    DoWhile(Box<Expr>, Box<Stmt>),
    /// `for (init; test; update) body`
    For(Option<VarDeclOrExpr>, Option<Box<Expr>>, Option<Box<Expr>>, Box<Stmt>),
    /// `for (left in right) body`
    ForIn(VarDeclOrPat, Box<Expr>, Box<Stmt>),
    /// `for (left of right) body`
    ForOf(VarDeclOrPat, Box<Expr>, Box<Stmt>),
    /// `label: body`
    Labeled(Box<Stmt>),
    /// `if (test) cons else alt`
    If(Box<Expr>, Box<Stmt>, Option<Box<Stmt>>),
    /// `try { block } catch (param) { body } finally { finalizer }`
    Try(Vec<Stmt>, Option<CatchClause>, Option<Vec<Stmt>>),
    /// `switch (discriminant) { cases }`
    Switch(Box<Expr>, Vec<SwitchCase>),
    /// `{ stmts }`
    Block(Vec<Stmt>),
    /// `return arg`
    Return(Option<Box<Expr>>),
    /// `throw arg`
    Throw(Box<Expr>),
    /// An expression statement.
    Expr(Box<Expr>),
    /// Any other statement.
    Other,
}

/// A catch clause: its parameter and body.
#[derive(Debug)]
pub struct CatchClause {
    /// The bound parameter.
    pub param: Option<Pat>,
    /// The body statements.
    pub body: Vec<Stmt>,
}

/// A case of a switch statement: its test (none for `default`) and its
/// statements.
#[derive(Debug)]
pub struct SwitchCase {
    /// The value the case matches.
    pub test: Option<Box<Expr>>,
    /// The statements of the case.
    pub cons: Vec<Stmt>,
}

/// A declaration.
#[derive(Debug)]
pub enum Decl {
    /// `function name(...) {...}`
    Fn(String, Function),
    /// `class name {...}`
    Class(String, Class),
    /// `var`, `let` or `const` declaration.
    Var(VarDecl),
    /// Any other declaration.
    Other,
}

/// The kind of a variable declaration.
#[derive(Debug, Clone, Copy, PartialEq, Eq, Structural)]
pub enum VarDeclKind {
    /// `var`
    Var,
    /// `let`
    Let,
    /// `const`
    Const,
}

/// A variable declaration.
#[derive(Debug)]
pub struct VarDecl {
    /// The kind of declaration.
    pub kind: VarDeclKind,
    /// The declarators.
    pub decls: Vec<VarDeclarator>,
}

/// A declarator: `name = init`.
#[derive(Debug)]
pub struct VarDeclarator {
    /// The bound pattern.
    pub name: Pat,
    /// The initializer.
    pub init: Option<Box<Expr>>,
}

/// The left of a `for` header.
#[derive(Debug)]
pub enum VarDeclOrExpr {
    /// A declaration.
    VarDecl(VarDecl),
    /// An expression.
    Expr(Box<Expr>),
}

/// The left of a `for ... in` or `for ... of` header.
#[derive(Debug)]
pub enum VarDeclOrPat {
    /// A declaration.
    VarDecl(VarDecl),
    /// A pattern.
    Pat(Pat),
}

/// A function: parameters and body.
#[derive(Debug)]
pub struct Function {
    /// The parameter patterns.
    pub params: Vec<Pat>,
    /// The body statements, if any.
    pub body: Option<Vec<Stmt>>,
}

/// The body of an arrow function.
#[derive(Debug)]
pub enum BlockStmtOrExpr {
    /// A block body.
    BlockStmt(Vec<Stmt>),
    /// An expression body.
    Expr(Box<Expr>),
}

/// An arrow function.
#[derive(Debug)]
pub struct ArrowExpr {
    /// The parameter patterns.
    pub params: Vec<Pat>,
    /// The body.
    pub body: BlockStmtOrExpr,
}

/// A class.
#[derive(Debug)]
pub struct Class {
    /// The super class expression.
    pub super_class: Option<Box<Expr>>,
    /// The members.
    pub body: Vec<ClassMember>,
}

/// A class member.
#[derive(Debug)]
pub enum ClassMember {
    /// The constructor: its plain parameters and body.
    Constructor(Vec<Pat>, Option<Vec<Stmt>>),
    /// A method: whether it is static, its key and its function.
    Method(bool, PropName, Function),
    /// A private method: whether it is static, its name (without `#`) and
    /// its function.
    PrivateMethod(bool, String, Function),
    /// A property: whether it is static, its key and its value.
    ClassProp(bool, PropName, Option<Box<Expr>>),
    /// A private property: whether it is static, its name (without `#`)
    /// and its value.
    PrivateProp(bool, String, Option<Box<Expr>>),
    /// A static initialization block: its statements.
    StaticBlock(Vec<Stmt>),
    /// Any other member.
    Other,
}

/// A property of an object literal or a spread.
#[derive(Debug)]
pub enum PropOrSpread {
    /// `...expr`
    Spread(Box<Expr>),
    /// `name` (shorthand)
    Shorthand(String),
    /// `key: value`
    KeyValue(PropName, Box<Expr>),
    /// A method, getter or setter: its key and function.
    Method(PropName, Function),
    /// Any other property.
    Other,
}

/// The callee of a call or the object of a member expression.
#[derive(Debug)]
pub enum ExprOrSuper {
    /// `super`
    Super,
    /// An expression.
    Expr(Box<Expr>),
}

/// A member expression: `obj.prop` or `obj[prop]`.
#[derive(Debug)]
pub struct MemberExpr {
    /// The object.
    pub obj: ExprOrSuper,
    /// The property.
    pub prop: Box<Expr>,
    /// Whether the property is computed (`obj[prop]`).
    pub computed: bool,
}

/// A call: callee and arguments.
#[derive(Debug)]
pub struct CallExpr {
    /// The callee.
    pub callee: ExprOrSuper,
    /// The arguments.
    pub args: Vec<Expr>,
}

/// A `new` expression: callee and arguments.
#[derive(Debug)]
pub struct NewExpr {
    /// The callee.
    pub callee: Box<Expr>,
    /// The arguments, if given.
    pub args: Option<Vec<Expr>>,
}

/// The left of an assignment.
#[derive(Debug)]
pub enum PatOrExpr {
    /// An expression.
    Expr(Box<Expr>),
    /// A pattern.
    Pat(Box<Pat>),
}

/// A literal.
#[derive(Debug)]
pub enum Lit {
    /// A string literal.
    Str(String),
    /// Any other literal.
    Other,
}

/// An expression.
#[derive(Debug)]
pub enum Expr {
    /// `this`
    This,
    /// An identifier.
    Ident(String),
    /// A private name `#name` (held without the `#`).
    PrivateName(String),
    /// A binary expression.
    Bin(Box<Expr>, Box<Expr>),
    /// A template literal: its expressions.
    Tpl(Vec<Expr>),
    /// A tagged template: the tag and the template's expressions.
    TaggedTpl(Box<Expr>, Vec<Expr>),
    /// A sequence expression (`a, b`).
    Sequence(Vec<Expr>),
    /// An array literal: its elements, holes as `None`.
    Array(Vec<Option<Expr>>),
    /// An object literal.
    Object(Vec<PropOrSpread>),
    /// A parenthesized expression.
    Paren(Box<Expr>),
    /// `yield arg`
    Yield(Option<Box<Expr>>),
    /// `test ? cons : alt`
    Cond(Box<Expr>, Box<Expr>, Box<Expr>),
    /// `await arg`
    Await(Box<Expr>),
    /// An arrow function.
    Arrow(ArrowExpr),
    /// A call.
    Call(CallExpr),
    /// An update expression (`x++`).
    Update(Box<Expr>),
    /// A unary expression.
    Unary(Box<Expr>),
    /// An assignment: left and right.
    Assign(PatOrExpr, Box<Expr>),
    /// An optional chain.
    OptChain(Box<Expr>),
    /// A member expression.
    Member(MemberExpr),
    /// A `new` expression.
    New(NewExpr),
    /// A function expression and its optional name.
    Fn(Option<String>, Function),
    /// A class expression and its optional name.
    Class(Option<String>, Class),
    /// A literal.
    Lit(Lit),
    /// A JSX element or fragment: the expressions it holds (of attributes,
    /// spreads and children, nested elements among them), in order.
    Jsx(Vec<Expr>),
    /// Any other expression.
    Other,
}

/// A binding pattern.
#[derive(Debug)]
pub enum Pat {
    /// An identifier.
    Ident(String),
    /// An object pattern.
    Object(Vec<ObjectPatProp>),
    /// An array pattern, holes as `None`.
    Array(Vec<Option<Pat>>),
    /// `...arg`
    Rest(Box<Pat>),
    /// `left = right`
    Assign(Box<Pat>, Box<Expr>),
    /// An expression in pattern position.
    Expr(Box<Expr>),
    /// Any other pattern.
    Other,
}

/// A property key.
#[derive(Debug)]
pub enum PropName {
    /// An identifier key.
    Ident(String),
    /// A computed key: `[expr]`.
    Computed(Box<Expr>),
    /// Any other key.
    Other,
}

/// A property of an object pattern.
#[derive(Debug)]
pub enum ObjectPatProp {
    /// `{ key }` or `{ key = value }`: the key and the default value.
    Assign(String, Option<Box<Expr>>),
    /// `{ key: value }`
    KeyValue(PropName, Box<Pat>),
    /// `{ ...arg }`
    Rest(Box<Pat>),
}

} // verus!
