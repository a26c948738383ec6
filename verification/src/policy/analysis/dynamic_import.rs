//! Helper functions to detect calls to `require` or `import`.
use vstd::prelude::*;

use crate::ast::{CallExpr, Expr, ExprOrSuper, Lit};
use crate::policy::analysis::member_expr::{member_leaves, targets, walk};
use crate::text::str_eq;

verus! {

/// Import that is a function call.
#[derive(Debug)]
pub struct DynamicCall {
    /// Function name.
    pub fn_name: &'static str,
    /// Argument passed to the function.
    pub arg: String,
    /// Property name when call is a member expression.
    pub member: Option<String>,
}

/// The string argument of a call to a function of the given name with a
/// single string literal argument.
pub open spec fn simple_call_arg(c: CallExpr, fn_name: Seq<char>) -> Option<Seq<char>> {
    if c.args@.len() == 1 {
        match c.callee {
            ExprOrSuper::Expr(callee) => match *callee {
                Expr::Ident(id) => if id@ == fn_name {
                    match c.args@[0] {
                        Expr::Lit(Lit::Str(s)) => Some(s@),
                        _ => None,
                    }
                } else {
                    None
                },
                _ => None,
            },
            ExprOrSuper::Super => None,
        }
    } else {
        None
    }
}

/// The argument and member name of a call to a function of the given name
/// with a single string literal argument, made directly or as the leftmost
/// leaf of a member expression; the member name is that of an identifier
/// second leaf.
pub open spec fn call_module(e: Expr, fn_name: Seq<char>) -> Option<(Seq<char>, Option<Seq<char>>)> {
    match e {
        Expr::Call(c) => match simple_call_arg(c, fn_name) {
            Some(arg) => Some((arg, None)),
            None => None,
        },
        Expr::Member(m) => {
            let leaves = member_leaves(m);
            if leaves.len() > 0 {
                match leaves[0] {
                    Expr::Call(c) => {
                        let member = if leaves.len() > 1 {
                            match leaves[1] {
                                Expr::Ident(id) => Some(id@),
                                _ => None,
                            }
                        } else {
                            None
                        };
                        match simple_call_arg(c, fn_name) {
                            Some(arg) => Some((arg, member)),
                            None => None,
                        }
                    },
                    _ => None,
                }
            } else {
                None
            }
        },
        _ => None,
    }
}

/// The content of a detected call: its argument and member name.
pub open spec fn call_view(c: DynamicCall) -> (Seq<char>, Option<Seq<char>>) {
    (
        c.arg@,
        match c.member {
            Some(m) => Some(m@),
            None => None,
        },
    )
}

/// Detect an expression that is a call to `require()`.
///
/// The call must be a simple call expression (single string argument).
pub fn is_require_expr(n: &Expr) -> (r: Option<DynamicCall>)
    ensures
        r is None <==> call_module(*n, "require"@) is None,
        r matches Some(c) ==> call_module(*n, "require"@) == Some(call_view(c)) && c.fn_name@ == "require"@,
{
    is_call_module(n, "require")
}

/// Detect an expression that is a call to `import()`.
///
/// The call must be a simple call expression (single string argument).
pub fn is_import_expr(n: &Expr) -> (r: Option<DynamicCall>)
    ensures
        r is None <==> call_module(*n, "import"@) is None,
        r matches Some(c) ==> call_module(*n, "import"@) == Some(call_view(c)) && c.fn_name@ == "import"@,
{
    is_call_module(n, "import")
}

fn is_call_module(n: &Expr, fn_name: &'static str) -> (r: Option<DynamicCall>)
    ensures
        r is None <==> call_module(*n, fn_name@) is None,
        r matches Some(c) ==> call_module(*n, fn_name@) == Some(call_view(c)) && c.fn_name == fn_name,
{
    match n {
        Expr::Call(call) => {
            return match is_simple_call(call, fn_name) {
                Some(arg) => Some(DynamicCall { arg, member: None, fn_name }),
                None => None,
            };
        },
        Expr::Member(m) => {
            let mut expressions: Vec<&Expr> = Vec::new();
            walk(m, &mut expressions);
            proof {
                assert(targets(expressions@) =~= member_leaves(*m));
            }
            if expressions.len() > 0 {
                if let Expr::Call(call) = expressions[0] {
                    let prop_name = if expressions.len() > 1 {
                        if let Expr::Ident(id) = expressions[1] {
                            Some(id.clone())
                        } else {
                            None
                        }
                    } else {
                        None
                    };
                    return match is_simple_call(call, fn_name) {
                        Some(arg) => Some(DynamicCall { arg, member: prop_name, fn_name }),
                        None => None,
                    };
                }
            }
        },
        _ => {},
    }
    None
}

/// Detect an expression that is a call to a function.
///
/// The call must have a single argument and the argument
/// must be a string literal.
fn is_simple_call(call: &CallExpr, fn_name: &str) -> (r: Option<String>)
    ensures
        r is None <==> simple_call_arg(*call, fn_name@) is None,
        r matches Some(s) ==> simple_call_arg(*call, fn_name@) == Some(s@),
{
    if call.args.len() == 1 {
        if let ExprOrSuper::Expr(n) = &call.callee {
            if let Expr::Ident(id) = &**n {
                if str_eq(id.as_str(), fn_name) {
                    if let Expr::Lit(lit) = &call.args[0] {
                        if let Lit::Str(s) = lit {
                            return Some(s.clone());
                        }
                    }
                }
            }
        }
    }
    None
}

} // verus!
