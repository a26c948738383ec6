//! Helper for detecting module exports.
use vstd::prelude::*;

use crate::ast::{Expr, ExprOrSuper, Pat, PatOrExpr};
use crate::text::str_eq;

verus! {

/// Whether an assignment target is `module.exports`, written as an
/// expression in pattern position.
pub open spec fn assigns_module_exports(n: PatOrExpr) -> bool {
    match n {
        PatOrExpr::Pat(pat) => match *pat {
            Pat::Expr(expr) => match *expr {
                Expr::Member(m) => match (m.obj, *m.prop) {
                    (ExprOrSuper::Expr(obj), Expr::Ident(prop)) => match *obj {
                        Expr::Ident(o) => o@ == "module"@ && prop@ == "exports"@,
                        _ => false,
                    },
                    _ => false,
                },
                _ => false,
            },
            _ => false,
        },
        _ => false,
    }
}

/// Determine if an expression refers to CJS module exports.
pub fn is_module_exports(n: &PatOrExpr) -> (r: bool)
    ensures
        r <==> assigns_module_exports(*n),
{
    match n {
        PatOrExpr::Pat(pat) => match &**pat {
            Pat::Expr(expr) => {
                match &**expr {
                    Expr::Member(m) => {
                        if let (ExprOrSuper::Expr(obj), Expr::Ident(prop)) = (&m.obj, &*m.prop) {
                            if let Expr::Ident(o) = &**obj {
                                return str_eq(o.as_str(), "module") && str_eq(prop.as_str(), "exports");
                            }
                        }
                    },
                    _ => {},
                }
            },
            _ => {},
        },
        _ => {},
    }
    false
}

} // verus!
