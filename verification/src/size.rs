//! Node counts of syntax trees: the budget of fresh names that compiling a
//! tree may take, and its computation with saturating arithmetic.

use vstd::prelude::*;
use crate::ast::{
    BlockEntry, Decl, Expr, TopLevel, ForInit, InitDecl, Init,
    Stmt, TranslationUnit, bodies_size, decl_size, expr_size, exprs_size, init_decls_size,
    items_size, stmt_size, unit_size, opt_expr_size, for_init_size,
};

verus! {

/// The expression nodes of a prefix of a sequence of expressions, plus those
/// of the next element, fit within those of the whole sequence.
pub proof fn lemma_exprs_size_prefix(es: Seq<Expr>, i: int)
    requires
        0 <= i < es.len(),
    ensures
        exprs_size(es.take(i + 1)) == exprs_size(es.take(i)) + expr_size(es[i]),
        exprs_size(es.take(i + 1)) <= exprs_size(es),
    decreases es.len(),
{
    assert(es.take(i + 1).drop_last() =~= es.take(i));
    if i + 1 < es.len() {
        lemma_exprs_size_prefix(es.drop_last(), i);
        assert(es.drop_last().take(i + 1) =~= es.take(i + 1));
        assert(es.drop_last().take(i) =~= es.take(i));
    } else {
        assert(es.take(i + 1) =~= es);
    }
}

/// The declarator counts of a prefix of a sequence of declarators, plus the
/// next one, fit within the whole sequence.
pub proof fn lemma_init_decls_size_prefix(ds: Seq<InitDecl>, i: int)
    requires
        0 <= i < ds.len(),
    ensures
        init_decls_size(ds.take(i + 1)) == init_decls_size(ds.take(i)) + 1 + match ds[i].initializer {
            Some(Init::Expression(x)) => expr_size(*x),
            _ => 0,
        },
        init_decls_size(ds.take(i + 1)) <= init_decls_size(ds),
    decreases ds.len(),
{
    assert(ds.take(i + 1).drop_last() =~= ds.take(i));
    if i + 1 < ds.len() {
        lemma_init_decls_size_prefix(ds.drop_last(), i);
        assert(ds.drop_last().take(i + 1) =~= ds.take(i + 1));
        assert(ds.drop_last().take(i) =~= ds.take(i));
    } else {
        assert(ds.take(i + 1) =~= ds);
    }
}

/// The sizes of a prefix of a sequence of block items, plus the next one,
/// fit within the whole sequence.
pub proof fn lemma_items_size_prefix(items: Seq<BlockEntry>, i: int)
    requires
        0 <= i < items.len(),
    ensures
        items_size(items.take(i + 1)) == items_size(items.take(i)) + 1 + match items[i] {
            BlockEntry::Declaration(d) => decl_size(d),
            BlockEntry::Statement(st) => stmt_size(st),
            BlockEntry::StaticAssert => 0,
        },
        items_size(items.take(i + 1)) <= items_size(items),
    decreases items.len(),
{
    assert(items.take(i + 1).drop_last() =~= items.take(i));
    if i + 1 < items.len() {
        lemma_items_size_prefix(items.drop_last(), i);
        assert(items.drop_last().take(i + 1) =~= items.take(i + 1));
        assert(items.drop_last().take(i) =~= items.take(i));
    } else {
        assert(items.take(i + 1) =~= items);
    }
}

/// The body sizes of a prefix of the top-level declarations, plus the next
/// one, fit within the whole sequence.
pub proof fn lemma_bodies_size_prefix(exts: Seq<TopLevel>, i: int)
    requires
        0 <= i < exts.len(),
    ensures
        bodies_size(exts.take(i + 1)) == bodies_size(exts.take(i)) + match exts[i] {
            TopLevel::FunctionDefinition(f) => stmt_size(f.statement),
            _ => 0,
        },
        bodies_size(exts.take(i + 1)) <= bodies_size(exts),
    decreases exts.len(),
{
    assert(exts.take(i + 1).drop_last() =~= exts.take(i));
    if i + 1 < exts.len() {
        lemma_bodies_size_prefix(exts.drop_last(), i);
        assert(exts.drop_last().take(i + 1) =~= exts.take(i + 1));
        assert(exts.drop_last().take(i) =~= exts.take(i));
    } else {
        assert(exts.take(i + 1) =~= exts);
    }
}


/// `n`, or `usize::MAX` when `n` is larger.
pub open spec fn capped(n: nat) -> nat {
    if n > usize::MAX {
        usize::MAX as nat
    } else {
        n
    }
}

fn sat_add(a: usize, b: usize, ghost_a: Ghost<nat>, ghost_b: Ghost<nat>) -> (r: usize)
    requires
        a == capped(ghost_a@),
        b == capped(ghost_b@),
    ensures
        r == capped(ghost_a@ + ghost_b@),
{
    a.saturating_add(b)
}

/// Number of expression nodes in `e`, saturating at `usize::MAX`.
pub fn expr_size_capped(e: &Expr) -> (r: usize)
    ensures
        r == capped(expr_size(*e)),
    decreases e,
{
    match e {
        Expr::UnaryOp(_, a) => {
            let n = expr_size_capped(a);
            sat_add(1, n, Ghost(1), Ghost(expr_size(**a)))
        },
        Expr::BinaryOp(_, a, b) => {
            let n = expr_size_capped(a);
            let m = expr_size_capped(b);
            let nm = sat_add(n, m, Ghost(expr_size(**a)), Ghost(expr_size(**b)));
            sat_add(1, nm, Ghost(1), Ghost(expr_size(**a) + expr_size(**b)))
        },
        Expr::Call(f, args) => {
            let mut total = expr_size_capped(f);
            let ghost base = expr_size(**f);
            proof {
                assert(args@.take(0) =~= Seq::<Expr>::empty());
            }
            let mut i: usize = 0;
            while i < args.len()
                invariant
                    i <= args@.len(),
                    *e == Expr::Call(*f, *args),
                    base == expr_size(**f),
                    total == capped(base + exprs_size(args@.take(i as int))),
                decreases args.len() - i,
            {
                proof {
                    lemma_exprs_size_prefix(args@, i as int);
                }
                assert(decreases_to!(*e => (*e)->Call_1));
                assert((*e)->Call_1 == *args);
                assert(decreases_to!(*args => args@));
                assert(decreases_to!(args@ => args@[i as int]));
                let n = expr_size_capped(&args[i]);
                total = sat_add(
                    total,
                    n,
                    Ghost(base + exprs_size(args@.take(i as int))),
                    Ghost(expr_size(args@[i as int])),
                );
                i = i + 1;
            }
            proof {
                assert(args@.take(i as int) =~= args@);
            }
            sat_add(1, total, Ghost(1), Ghost(base + exprs_size(args@)))
        },
        _ => 1,
    }
}

fn opt_expr_size_capped(e: &Option<Box<Expr>>) -> (r: usize)
    ensures
        r == capped(opt_expr_size(*e)),
{
    match e {
        Some(x) => expr_size_capped(x),
        None => 0,
    }
}

/// Number of declarators and initializer expression nodes in `d`,
/// saturating at `usize::MAX`.
pub fn decl_size_capped(d: &Decl) -> (r: usize)
    ensures
        r == capped(decl_size(*d)),
{
    let mut total: usize = 0;
    proof {
        assert(d.declarators@.take(0) =~= Seq::<InitDecl>::empty());
    }
    let mut i: usize = 0;
    while i < d.declarators.len()
        invariant
            i <= d.declarators@.len(),
            total == capped(init_decls_size(d.declarators@.take(i as int))),
        decreases d.declarators.len() - i,
    {
        proof {
            lemma_init_decls_size_prefix(d.declarators@, i as int);
        }
        let ghost this = 1 + match d.declarators@[i as int].initializer {
            Some(Init::Expression(x)) => expr_size(*x),
            _ => 0,
        };
        let n = match &d.declarators[i].initializer {
            Some(Init::Expression(x)) => {
                let m = expr_size_capped(x);
                sat_add(1, m, Ghost(1), Ghost(expr_size(**x)))
            },
            _ => 1,
        };
        total = sat_add(
            total,
            n,
            Ghost(init_decls_size(d.declarators@.take(i as int))),
            Ghost(this),
        );
        i = i + 1;
    }
    proof {
        assert(d.declarators@.take(i as int) =~= d.declarators@);
    }
    total
}

/// Number of statement and expression nodes in `st`, saturating at
/// `usize::MAX`.
pub fn stmt_size_capped(st: &Stmt) -> (r: usize)
    ensures
        r == capped(stmt_size(*st)),
    decreases st,
{
    match st {
        Stmt::Compound(items) => {
            let mut total: usize = 0;
            proof {
                assert(items@.take(0) =~= Seq::<BlockEntry>::empty());
            }
            let mut i: usize = 0;
            while i < items.len()
                invariant
                    i <= items@.len(),
                    *st == Stmt::Compound(*items),
                    total == capped(items_size(items@.take(i as int))),
                decreases items.len() - i,
            {
                proof {
                    lemma_items_size_prefix(items@, i as int);
                }
                let ghost this = 1 + match items@[i as int] {
                    BlockEntry::Declaration(d) => decl_size(d),
                    BlockEntry::Statement(s) => stmt_size(s),
                    BlockEntry::StaticAssert => 0,
                };
                assert(decreases_to!(*st => (*st)->Compound_0));
                assert((*st)->Compound_0 == *items);
                assert(decreases_to!(*items => items@));
                assert(decreases_to!(items@ => items@[i as int]));
                let n = match &items[i] {
                    BlockEntry::Declaration(d) => decl_size_capped(d),
                    BlockEntry::Statement(s) => stmt_size_capped(s),
                    BlockEntry::StaticAssert => 0,
                };
                let n1 = sat_add(1, n, Ghost(1), Ghost((this - 1) as nat));
                total = sat_add(total, n1, Ghost(items_size(items@.take(i as int))), Ghost(this));
                i = i + 1;
            }
            proof {
                assert(items@.take(i as int) =~= items@);
            }
            sat_add(1, total, Ghost(1), Ghost(items_size(items@)))
        },
        Stmt::Expression(x) | Stmt::Return(x) => {
            let n = opt_expr_size_capped(x);
            sat_add(1, n, Ghost(1), Ghost(opt_expr_size(*x)))
        },
        Stmt::If { condition, then_statement, else_statement } => {
            let a = expr_size_capped(condition);
            let b = stmt_size_capped(then_statement);
            let c = match else_statement {
                Some(x) => stmt_size_capped(x),
                None => 0,
            };
            let ghost ga = expr_size(**condition);
            let ghost gb = stmt_size(**then_statement);
            let ghost gc = (stmt_size(*st) - 1 - ga - gb) as nat;
            let ab = sat_add(a, b, Ghost(ga), Ghost(gb));
            let abc = sat_add(ab, c, Ghost(ga + gb), Ghost(gc));
            sat_add(1, abc, Ghost(1), Ghost(ga + gb + gc))
        },
        Stmt::While { expression, statement } | Stmt::DoWhile { statement, expression } => {
            let a = expr_size_capped(expression);
            let b = stmt_size_capped(statement);
            let ab = sat_add(a, b, Ghost(expr_size(**expression)), Ghost(stmt_size(**statement)));
            sat_add(1, ab, Ghost(1), Ghost(expr_size(**expression) + stmt_size(**statement)))
        },
        Stmt::For { initializer, condition, step, statement } => {
            let ghost gi = for_init_size(*initializer);
            let i = match initializer {
                ForInit::Expression(x) => expr_size_capped(x),
                ForInit::Declaration(d) => decl_size_capped(d),
                _ => 0,
            };
            let ghost gc = opt_expr_size(*condition);
            let ghost gs = opt_expr_size(*step);
            let c = opt_expr_size_capped(condition);
            let s = opt_expr_size_capped(step);
            let b = stmt_size_capped(statement);
            let ic = sat_add(i, c, Ghost(gi), Ghost(gc));
            let ics = sat_add(ic, s, Ghost(gi + gc), Ghost(gs));
            let icsb = sat_add(ics, b, Ghost(gi + gc + gs), Ghost(stmt_size(**statement)));
            sat_add(1, icsb, Ghost(1), Ghost(gi + gc + gs + stmt_size(**statement)))
        },
        _ => 1,
    }
}

/// Number of statement and expression nodes in the function bodies of
/// `u`, saturating at `usize::MAX`.
pub fn unit_size_capped(u: &TranslationUnit) -> (r: usize)
    ensures
        r == capped(unit_size(*u)),
{
    let exts = &u.0;
    let mut total: usize = 0;
    proof {
        assert(exts@.take(0) =~= Seq::<TopLevel>::empty());
    }
    let mut i: usize = 0;
    while i < exts.len()
        invariant
            i <= exts@.len(),
            *exts == u.0,
            total == capped(bodies_size(exts@.take(i as int))),
        decreases exts.len() - i,
    {
        proof {
            lemma_bodies_size_prefix(exts@, i as int);
        }
        if let TopLevel::FunctionDefinition(f) = &exts[i] {
            let n = stmt_size_capped(&f.statement);
            total = sat_add(
                total,
                n,
                Ghost(bodies_size(exts@.take(i as int))),
                Ghost(stmt_size(f.statement)),
            );
        }
        i = i + 1;
    }
    proof {
        assert(exts@.take(i as int) =~= exts@);
    }
    total
}

} // verus!
