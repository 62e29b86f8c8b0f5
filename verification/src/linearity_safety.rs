//! What acceptance by the linearity checker means for the ways control can
//! take through a statement: along every one of them a linear variable is
//! consumed at most once, and exactly once where the way ends in a return
//! or at the end of the variable's scope.

use crate::linearity_check::{
    borrowed, check_expr, check_expr_from, check_function, check_var, close_scope, count_in, deeper,
    first_unconsumed, join, lemma_check_expr_keeps_vars, lemma_first_unconsumed, lemma_lookup,
    lemma_lookup_same_vars, lemma_push_bindings, lemma_same_vars_take, lemma_same_vars_trans,
    lemma_walk_keeps_vars, lemma_walk_whens_keeps_vars, lookup, no_span, param_table,
    push_bindings, release, same_vars, stable, transition, visible, walk, walk_whens,
    with_reference, EntryModel, Flow, LinearityErrorModel, VarState,
};
use crate::span::Span;
use crate::stages::{TExpr, TStmt, TypedBinding, TypedWhen, ValueParameter};
use crate::type_system::linear;
use vstd::prelude::*;

verus! {

/// One way that control can take through a statement.
pub enum Path {
    /// Through a statement that has one way only.
    Straight,
    /// Through the body of a binding or of a borrow.
    Inside(Box<Path>),
    /// Through the first branch of an `if`.
    Then(Box<Path>),
    /// Through the second branch of an `if`.
    Else(Box<Path>),
    /// Through the `when` clause of the given index.
    When(nat, Box<Path>),
    /// Through the body of a loop, once for each round.
    Rounds(Seq<Path>),
    /// Through the first statement of a sequence, which returns.
    First(Box<Path>),
    /// Through the first statement of a sequence and then the second.
    Both(Box<Path>, Box<Path>),
}

/// Whether `p` is a way through `s`. Of the rounds of a loop only the last
/// can return.
pub open spec fn fits(s: TStmt, p: Path) -> bool
    decreases s, 0nat,
{
    match s {
        TStmt::TLet(_, _, _, _, _, body) => p matches Path::Inside(q) && fits(*body, *q),
        TStmt::TDestructure(_, _, _, _, body) => p matches Path::Inside(q) && fits(*body, *q),
        TStmt::TBorrow { body, .. } => p matches Path::Inside(q) && fits(*body, *q),
        TStmt::TIf(_, _, a, b) => match p {
            Path::Then(q) => fits(*a, *q),
            Path::Else(q) => fits(*b, *q),
            _ => false,
        },
        TStmt::TCase(_, _, whens, _) => match p {
            Path::When(k, q) => k < whens.len() && fits(*whens[k as int].2, *q),
            Path::Straight => whens.len() == 0,
            _ => false,
        },
        TStmt::TWhile(_, _, body) => p matches Path::Rounds(qs) && rounds_fit(*body, qs, qs.len()),
        TStmt::TFor(_, _, _, _, body) => p matches Path::Rounds(qs) && rounds_fit(
            *body,
            qs,
            qs.len(),
        ),
        TStmt::TBlock(_, a, b) => match p {
            Path::First(q) => fits(*a, *q) && ends_in_return(*a, *q),
            Path::Both(q1, q2) => fits(*a, *q1) && !ends_in_return(*a, *q1) && fits(*b, *q2),
            _ => false,
        },
        _ => p is Straight,
    }
}

/// Whether the first `n` of the rounds are ways through the body of a loop
/// of which none but the last of all returns.
pub open spec fn rounds_fit(body: TStmt, qs: Seq<Path>, n: nat) -> bool
    decreases body, n + 1,
{
    if n == 0 || n > qs.len() {
        n == 0
    } else {
        rounds_fit(body, qs, (n - 1) as nat) && fits(body, qs[n - 1]) && (n < qs.len() ==> !ends_in_return(
            body,
            qs[n - 1],
        ))
    }
}

/// Whether the way `p` through `s` ends in a return.
pub open spec fn ends_in_return(s: TStmt, p: Path) -> bool
    decreases s,
{
    match s {
        TStmt::TReturn(_, _) => true,
        TStmt::TLet(_, _, _, _, _, body) => p matches Path::Inside(q) && ends_in_return(*body, *q),
        TStmt::TDestructure(
            _,
            _,
            _,
            _,
            body,
        ) => p matches Path::Inside(q) && ends_in_return(*body, *q),
        TStmt::TBorrow { body, .. } => p matches Path::Inside(q) && ends_in_return(*body, *q),
        TStmt::TIf(_, _, a, b) => match p {
            Path::Then(q) => ends_in_return(*a, *q),
            Path::Else(q) => ends_in_return(*b, *q),
            _ => false,
        },
        TStmt::TCase(_, _, whens, _) => match p {
            Path::When(k, q) => k < whens.len() && ends_in_return(*whens[k as int].2, *q),
            _ => false,
        },
        TStmt::TWhile(_, _, body) => p matches Path::Rounds(qs) && qs.len() > 0 && ends_in_return(
            *body,
            qs.last(),
        ),
        TStmt::TFor(_, _, _, _, body) => p matches Path::Rounds(qs) && qs.len() > 0 && ends_in_return(
            *body,
            qs.last(),
        ),
        TStmt::TBlock(_, a, b) => match p {
            Path::First(_) => true,
            Path::Both(_, q2) => ends_in_return(*b, *q2),
            _ => false,
        },
        _ => false,
    }
}

/// How often the expression `e` consumes the variable `name`.
pub open spec fn uses(name: Seq<char>, e: TExpr) -> nat {
    count_in(name, e).consumed
}

/// How often the variable `name` is consumed along the way `p` through `s`.
/// A round of a `while` evaluates the condition and then the body, and a
/// `while` that ends without a return evaluates the condition once more; a
/// `for` evaluates its bounds once.
pub open spec fn consumed_on(name: Seq<char>, s: TStmt, p: Path) -> nat
    decreases s, 0nat,
{
    match s {
        TStmt::TLet(_, _, e, _, _, body) => uses(name, *e) + (match p {
            Path::Inside(q) => consumed_on(name, *body, *q),
            _ => 0,
        }),
        TStmt::TDestructure(_, _, _, e, body) => uses(name, *e) + (match p {
            Path::Inside(q) => consumed_on(name, *body, *q),
            _ => 0,
        }),
        TStmt::TAssign(_, target, value) => uses(name, *target) + uses(name, *value),
        TStmt::TAssignVar(_, _, e) => uses(name, *e),
        TStmt::TDiscarding(_, e) => uses(name, *e),
        TStmt::TInitialAssign(_, e) => uses(name, *e),
        TStmt::TLetTmp(_, _, e) => uses(name, *e),
        TStmt::TAssignTmp(_, e) => uses(name, *e),
        TStmt::TReturn(_, e) => uses(name, *e),
        TStmt::TIf(_, c, a, b) => uses(name, *c) + (match p {
            Path::Then(q) => consumed_on(name, *a, *q),
            Path::Else(q) => consumed_on(name, *b, *q),
            _ => 0,
        }),
        TStmt::TCase(_, e, whens, _) => uses(name, *e) + (match p {
            Path::When(k, q) => if k < whens.len() {
                consumed_on(name, *whens[k as int].2, *q)
            } else {
                0
            },
            _ => 0,
        }),
        TStmt::TWhile(_, c, body) => match p {
            Path::Rounds(qs) => qs.len() * uses(name, *c) + consumed_in_rounds(
                name,
                *body,
                qs,
                qs.len(),
            ) + (if ends_in_return(s, p) {
                0
            } else {
                uses(name, *c)
            }),
            _ => 0,
        },
        TStmt::TFor(_, _, from, to, body) => uses(name, *from) + uses(name, *to) + (match p {
            Path::Rounds(qs) => consumed_in_rounds(name, *body, qs, qs.len()),
            _ => 0,
        }),
        TStmt::TBorrow { body, .. } => match p {
            Path::Inside(q) => consumed_on(name, *body, *q),
            _ => 0,
        },
        TStmt::TBlock(_, a, b) => match p {
            Path::First(q) => consumed_on(name, *a, *q),
            Path::Both(q1, q2) => consumed_on(name, *a, *q1) + consumed_on(name, *b, *q2),
            _ => 0,
        },
        TStmt::TSkip(_) => 0,
    }
}

/// How often the variable is consumed in the body of a loop over the first
/// `n` rounds.
pub open spec fn consumed_in_rounds(name: Seq<char>, body: TStmt, qs: Seq<Path>, n: nat) -> nat
    decreases body, n + 1,
{
    if n == 0 || n > qs.len() {
        0
    } else {
        consumed_in_rounds(name, body, qs, (n - 1) as nat) + consumed_on(name, body, qs[n - 1])
    }
}

/// Whether one of the first `n` bindings is linear and goes by `name`.
pub open spec fn binds(bindings: Vec<TypedBinding>, n: nat, name: Seq<char>) -> bool
    decreases n,
{
    if n == 0 || n > bindings.len() {
        false
    } else {
        binds(bindings, (n - 1) as nat, name) || (linear(bindings[n - 1].ty@) && bindings[n
            - 1].rename@ == name)
    }
}

/// Whether the statement declares a linear variable that goes by `name`.
pub open spec fn declares(s: TStmt, name: Seq<char>) -> bool
    decreases s, 0nat,
{
    match s {
        TStmt::TLet(_, x, _, _, ty, body) => (linear(ty@) && x@ == name) || declares(*body, name),
        TStmt::TDestructure(_, _, bindings, _, body) => binds(
            bindings,
            bindings.len() as nat,
            name,
        ) || declares(*body, name),
        TStmt::TIf(_, _, a, b) => declares(*a, name) || declares(*b, name),
        TStmt::TCase(_, _, whens, _) => whens_declare(whens, whens.len() as nat, name),
        TStmt::TWhile(_, _, body) => declares(*body, name),
        TStmt::TFor(_, _, _, _, body) => declares(*body, name),
        TStmt::TBorrow { rename, ref_type, body, .. } => (linear(ref_type@) && rename@ == name)
            || declares(*body, name),
        TStmt::TBlock(_, a, b) => declares(*a, name) || declares(*b, name),
        _ => false,
    }
}

/// Whether one of the first `n` clauses declares a linear variable that
/// goes by `name`.
pub open spec fn whens_declare(whens: Vec<TypedWhen>, n: nat, name: Seq<char>) -> bool
    decreases whens, n,
{
    if n == 0 || n > whens.len() {
        false
    } else {
        whens_declare(whens, (n - 1) as nat, name) || binds(
            whens[n - 1].1,
            whens[n - 1].1.len() as nat,
            name,
        ) || declares(*whens[n - 1].2, name)
    }
}

/// What a state says of how often its variable was consumed: once if the
/// state is `Consumed`, never otherwise.
pub open spec fn used(state: VarState) -> nat {
    if state == VarState::Consumed {
        1
    } else {
        0
    }
}

/// An entry is the one its name refers to exactly when no later entry goes
/// by the same name.
pub proof fn lemma_visible(t: Seq<EntryModel>, i: int)
    requires
        0 <= i < t.len(),
    ensures
        visible(t, i) <==> forall|j: int| i < j < t.len() ==> t[j].name != t[i].name,
{
    lemma_lookup(t, t[i].name);
    if forall|j: int| i < j < t.len() ==> t[j].name != t[i].name {
        match lookup(t, t[i].name) {
            Some(k) => {
                if k < i {
                    assert(t[i].name != t[i].name);
                }
            },
            None => {
                assert(t[i].name != t[i].name);
            },
        }
    }
}

/// Tables with the same variables show the same entries.
pub proof fn lemma_visible_same_vars(a: Seq<EntryModel>, b: Seq<EntryModel>, i: int)
    requires
        visible(a, i),
        same_vars(a, b),
    ensures
        visible(b, i),
        a[i].name == b[i].name,
{
    lemma_lookup_same_vars(a, b, a[i].name);
}

/// An entry stays shown when entries of other names are added after it, and
/// when entries after it are dropped.
pub proof fn lemma_visible_longer(t: Seq<EntryModel>, longer: Seq<EntryModel>, i: int)
    requires
        visible(t, i),
        longer.len() >= t.len(),
        longer.take(t.len() as int) == t,
        forall|j: int| t.len() <= j < longer.len() ==> longer[j].name != t[i].name,
    ensures
        visible(longer, i),
        longer[i] == t[i],
{
    lemma_visible(t, i);
    assert forall|j: int| 0 <= j < t.len() implies longer[j] == t[j] by {
        assert(longer.take(t.len() as int)[j] == longer[j]);
    }
    lemma_visible(longer, i);
}

/// An entry that is visible in a table is visible in each of its prefixes that
/// hold it.
pub proof fn lemma_visible_shorter(longer: Seq<EntryModel>, base: int, i: int)
    requires
        visible(longer, i),
        0 <= i < base <= longer.len(),
    ensures
        visible(longer.take(base), i),
        longer.take(base)[i] == longer[i],
{
    lemma_visible(longer, i);
    lemma_visible(longer.take(base), i);
}

/// Bindings of other names are added after the entries that were there.
pub proof fn lemma_bindings_other_names(
    t: Seq<EntryModel>,
    bindings: Vec<TypedBinding>,
    n: nat,
    depth: int,
    name: Seq<char>,
)
    requires
        !binds(bindings, n, name),
    ensures
        forall|j: int|
            t.len() <= j < push_bindings(t, bindings, n, depth).len() ==> push_bindings(
                t,
                bindings,
                n,
                depth,
            )[j].name != name,
    decreases n,
{
    if n > 0 && n <= bindings.len() {
        lemma_bindings_other_names(t, bindings, (n - 1) as nat, depth, name);
        lemma_push_bindings(t, bindings, (n - 1) as nat, depth);
    }
}

/// No clause declares a name that the clauses together do not declare.
pub proof fn lemma_when_declares(whens: Vec<TypedWhen>, n: nat, name: Seq<char>, k: int)
    requires
        !whens_declare(whens, n, name),
        0 <= k < n <= whens.len(),
    ensures
        !binds(whens[k].1, whens[k].1.len() as nat, name),
        !declares(*whens[k].2, name),
    decreases n,
{
    if k < n - 1 {
        lemma_when_declares(whens, (n - 1) as nat, name, k);
    }
}

/// What an expression does to a variable's state is what it consumes of the
/// variable: the state says "consumed" afterwards exactly if it said so
/// before or the expression consumes the variable, which then it does once.
pub proof fn lemma_expr_accounts(t: Seq<EntryModel>, e: TExpr, k: int, i: int)
    requires
        0 <= k,
        visible(t, i),
        check_expr_from(t, e, k) is Ok,
    ensures
        same_vars(t, check_expr_from(t, e, k)->Ok_0),
        k <= i ==> used(check_expr_from(t, e, k)->Ok_0[i].state) == used(t[i].state) + uses(
            t[i].name,
            e,
        ),
        k > i ==> check_expr_from(t, e, k)->Ok_0[i] == t[i],
    decreases t.len() - k,
{
    lemma_check_expr_keeps_vars(t, e, k);
    if k < t.len() {
        match check_var(t, k, e) {
            Ok(next) => {
                assert(same_vars(t, next));
                lemma_visible_same_vars(t, next, i);
                lemma_expr_accounts(next, e, k + 1, i);
            },
            Err(_) => {},
        }
    }
}

/// A branch that arrives where branches meet arrives with the table that
/// goes on from there.
pub proof fn lemma_join(a: Flow, b: Flow, span: Span)
    requires
        join(a, b, span) is Ok,
    ensures
        a is Continues ==> join(a, b, span)->Ok_0 == a,
        b is Continues ==> join(a, b, span)->Ok_0 == b,
        a is Returned && b is Returned ==> join(a, b, span)->Ok_0 is Returned,
{
}

/// What a clause of a case statement leaves: its body walked from the table
/// with the clause's bindings, and the bindings' scope closed.
pub open spec fn clause_flow(t: Seq<EntryModel>, when: TypedWhen, depth: int, span: Span) -> Result<
    Flow,
    LinearityErrorModel,
> {
    close_scope(
        walk(push_bindings(t, when.1, when.1.len() as nat, depth), *when.2, depth),
        t.len() as int,
        span,
    )
}

/// Where the clauses of a case statement are accepted together, each is
/// accepted, and each that does not return leaves the table that the case
/// statement leaves.
pub proof fn lemma_whens_agree(
    t: Seq<EntryModel>,
    whens: Vec<TypedWhen>,
    from: nat,
    acc: Flow,
    depth: int,
    span: Span,
    k: int,
)
    requires
        walk_whens(t, whens, from, acc, depth, span) is Ok,
        from <= k < whens.len(),
    ensures
        clause_flow(t, whens[k], depth, span) is Ok,
        clause_flow(t, whens[k], depth, span)->Ok_0 is Continues ==> walk_whens(
            t,
            whens,
            from,
            acc,
            depth,
            span,
        )->Ok_0 == clause_flow(t, whens[k], depth, span)->Ok_0,
        acc is Continues ==> walk_whens(t, whens, from, acc, depth, span)->Ok_0 == acc,
    decreases whens.len() - from,
{
    let flow = clause_flow(t, whens[from as int], depth, span)->Ok_0;
    let joined = join(acc, flow, span)->Ok_0;
    lemma_join(acc, flow, span);
    if from < k {
        lemma_whens_agree(t, whens, from + 1, joined, depth, span, k);
    } else {
        lemma_whens_keep(t, whens, from + 1, joined, depth, span);
    }
    if from + 1 < whens.len() {
        lemma_whens_keep(t, whens, from + 1, joined, depth, span);
    }
}

/// What the earlier clauses left, if they left a table, is what the case
/// statement leaves.
pub proof fn lemma_whens_keep(
    t: Seq<EntryModel>,
    whens: Vec<TypedWhen>,
    from: nat,
    acc: Flow,
    depth: int,
    span: Span,
)
    requires
        walk_whens(t, whens, from, acc, depth, span) is Ok,
    ensures
        acc is Continues ==> walk_whens(t, whens, from, acc, depth, span)->Ok_0 == acc,
    decreases whens.len() - from,
{
    if from < whens.len() {
        let flow = clause_flow(t, whens[from as int], depth, span)->Ok_0;
        let joined = join(acc, flow, span)->Ok_0;
        lemma_join(acc, flow, span);
        lemma_whens_keep(t, whens, from + 1, joined, depth, span);
    }
}

/// What the checker's acceptance of a statement says of one way through it
/// and one variable in scope: if the way ends in a return, the variable has
/// been consumed exactly once by then, counting what the state said at the
/// start; if it does not, control goes on with a table in which the state
/// of the variable accounts for what the way consumed.
pub open spec fn accounted(t: Seq<EntryModel>, s: TStmt, depth: int, i: int, p: Path) -> bool {
    if ends_in_return(s, p) {
        used(t[i].state) + consumed_on(t[i].name, s, p) == 1
    } else {
        walk(t, s, depth) matches Ok(Flow::Continues(t2)) && same_vars(t, t2) && used(t2[i].state)
            == used(t[i].state) + consumed_on(t[i].name, s, p)
    }
}

/// The checker accounts for every consumption: see `accounted`.
pub proof fn lemma_safety(t: Seq<EntryModel>, s: TStmt, depth: int, i: int, p: Path)
    requires
        walk(t, s, depth) is Ok,
        fits(s, p),
        visible(t, i),
        !declares(s, t[i].name),
    ensures
        accounted(t, s, depth, i, p),
    decreases s, 1nat,
{
    lemma_walk_keeps_vars(t, s, depth);
    match s {
        TStmt::TSkip(_) => {},
        TStmt::TLet(_, _, _, _, _, _) => {
            safety_let(t, s, depth, i, p);
        },
        TStmt::TDestructure(_, _, _, _, _) => {
            safety_destructure(t, s, depth, i, p);
        },
        TStmt::TAssign(_, target, value) => {
            lemma_expr_accounts(t, *target, 0, i);
            let t1 = check_expr(t, *target)->Ok_0;
            lemma_visible_same_vars(t, t1, i);
            lemma_expr_accounts(t1, *value, 0, i);
        },
        TStmt::TAssignVar(_, _, e) => {
            lemma_expr_accounts(t, *e, 0, i);
        },
        TStmt::TDiscarding(_, e) => {
            lemma_expr_accounts(t, *e, 0, i);
        },
        TStmt::TInitialAssign(_, e) => {
            lemma_expr_accounts(t, *e, 0, i);
        },
        TStmt::TLetTmp(_, _, e) => {
            lemma_expr_accounts(t, *e, 0, i);
        },
        TStmt::TAssignTmp(_, e) => {
            lemma_expr_accounts(t, *e, 0, i);
        },
        TStmt::TReturn(_, e) => {
            lemma_expr_accounts(t, *e, 0, i);
            lemma_first_unconsumed(check_expr(t, *e)->Ok_0, 0);
        },
        TStmt::TIf(_, _, _, _) => {
            safety_if(t, s, depth, i, p);
        },
        TStmt::TCase(_, _, _, _) => {
            safety_case(t, s, depth, i, p);
        },
        TStmt::TWhile(_, _, _) => {
            safety_while(t, s, depth, i, p);
        },
        TStmt::TFor(_, _, _, _, _) => {
            safety_for(t, s, depth, i, p);
        },
        TStmt::TBorrow { .. } => {
            safety_borrow(t, s, depth, i, p);
        },
        TStmt::TBlock(_, _, _) => {
            safety_block(t, s, depth, i, p);
        },
    }
}

proof fn safety_let(t: Seq<EntryModel>, s: TStmt, depth: int, i: int, p: Path)
    requires
        s is TLet,
        walk(t, s, depth) is Ok,
        fits(s, p),
        visible(t, i),
        !declares(s, t[i].name),
    ensures
        accounted(t, s, depth, i, p),
    decreases s, 0nat,
{
    lemma_walk_keeps_vars(t, s, depth);
    if let TStmt::TLet(span, x, e, _, ty, body) = s {
        let q = *p->Inside_0;
        lemma_expr_accounts(t, *e, 0, i);
        let t1 = check_expr(t, *e)->Ok_0;
        lemma_visible_same_vars(t, t1, i);
        if linear(ty@) {
            let inner = t1.push(EntryModel { name: x@, depth, state: VarState::Unconsumed });
            assert(inner.take(t1.len() as int) =~= t1);
            lemma_visible_longer(t1, inner, i);
            lemma_safety(inner, *body, depth, i, q);
            if !ends_in_return(*body, q) {
                let t2 = walk(inner, *body, depth)->Ok_0->Continues_0;
                lemma_visible_same_vars(inner, t2, i);
                lemma_visible_shorter(t2, t1.len() as int, i);
            }
        } else {
            lemma_safety(t1, *body, depth, i, q);
        }
    }
}

proof fn safety_destructure(t: Seq<EntryModel>, s: TStmt, depth: int, i: int, p: Path)
    requires
        s is TDestructure,
        walk(t, s, depth) is Ok,
        fits(s, p),
        visible(t, i),
        !declares(s, t[i].name),
    ensures
        accounted(t, s, depth, i, p),
    decreases s, 0nat,
{
    lemma_walk_keeps_vars(t, s, depth);
    if let TStmt::TDestructure(span, _, bindings, e, body) = s {
        let q = *p->Inside_0;
        lemma_expr_accounts(t, *e, 0, i);
        let t1 = check_expr(t, *e)->Ok_0;
        lemma_visible_same_vars(t, t1, i);
        let inner = push_bindings(t1, bindings, bindings.len() as nat, depth);
        lemma_push_bindings(t1, bindings, bindings.len() as nat, depth);
        lemma_bindings_other_names(t1, bindings, bindings.len() as nat, depth, t1[i].name);
        lemma_visible_longer(t1, inner, i);
        lemma_safety(inner, *body, depth, i, q);
        if !ends_in_return(*body, q) {
            let t2 = walk(inner, *body, depth)->Ok_0->Continues_0;
            lemma_visible_same_vars(inner, t2, i);
            lemma_visible_shorter(t2, t1.len() as int, i);
        }
    }
}

proof fn safety_if(t: Seq<EntryModel>, s: TStmt, depth: int, i: int, p: Path)
    requires
        s is TIf,
        walk(t, s, depth) is Ok,
        fits(s, p),
        visible(t, i),
        !declares(s, t[i].name),
    ensures
        accounted(t, s, depth, i, p),
    decreases s, 0nat,
{
    lemma_walk_keeps_vars(t, s, depth);
    if let TStmt::TIf(span, c, a, b) = s {
        lemma_expr_accounts(t, *c, 0, i);
        let t1 = check_expr(t, *c)->Ok_0;
        lemma_visible_same_vars(t, t1, i);
        let fa = walk(t1, *a, depth)->Ok_0;
        let fb = walk(t1, *b, depth)->Ok_0;
        lemma_join(fa, fb, span);
        match p {
            Path::Then(q) => {
                lemma_safety(t1, *a, depth, i, *q);
            },
            Path::Else(q) => {
                lemma_safety(t1, *b, depth, i, *q);
            },
            _ => {},
        }
    }
}

proof fn safety_case(t: Seq<EntryModel>, s: TStmt, depth: int, i: int, p: Path)
    requires
        s is TCase,
        walk(t, s, depth) is Ok,
        fits(s, p),
        visible(t, i),
        !declares(s, t[i].name),
    ensures
        accounted(t, s, depth, i, p),
    decreases s, 0nat,
{
    lemma_walk_keeps_vars(t, s, depth);
    if let TStmt::TCase(span, e, whens, _) = s {
        lemma_expr_accounts(t, *e, 0, i);
        let t1 = check_expr(t, *e)->Ok_0;
        lemma_visible_same_vars(t, t1, i);
        if let Path::When(k, q) = p {
            let when = whens[k as int];
            lemma_whens_agree(t1, whens, 0, Flow::Returned, depth, span, k as int);
            lemma_when_declares(whens, whens.len() as nat, t1[i].name, k as int);
            let inner = push_bindings(t1, when.1, when.1.len() as nat, depth);
            lemma_push_bindings(t1, when.1, when.1.len() as nat, depth);
            lemma_bindings_other_names(t1, when.1, when.1.len() as nat, depth, t1[i].name);
            lemma_visible_longer(t1, inner, i);
            lemma_safety(inner, *when.2, depth, i, *q);
            if !ends_in_return(*when.2, *q) {
                let t2 = walk(inner, *when.2, depth)->Ok_0->Continues_0;
                lemma_visible_same_vars(inner, t2, i);
                lemma_visible_shorter(t2, t1.len() as int, i);
            }
        }
    }
}

/// The rounds of a loop whose body leaves the table as it finds it: no
/// round that does not return consumes the variable, and one that returns
/// brings its consumptions to one.
proof fn safety_rounds(
    t: Seq<EntryModel>,
    body: TStmt,
    depth: int,
    i: int,
    qs: Seq<Path>,
    n: nat,
)
    requires
        walk(t, body, depth) is Ok,
        walk(t, body, depth) matches Ok(Flow::Continues(t2)) ==> t2 == t,
        rounds_fit(body, qs, n),
        n <= qs.len(),
        visible(t, i),
        !declares(body, t[i].name),
    ensures
        n > 0 && ends_in_return(body, qs[n - 1]) ==> used(t[i].state) + consumed_in_rounds(
            t[i].name,
            body,
            qs,
            n,
        ) == 1,
        !(n > 0 && ends_in_return(body, qs[n - 1])) ==> consumed_in_rounds(
            t[i].name,
            body,
            qs,
            n,
        ) == 0,
    decreases body, n + 1,
{
    if n > 0 {
        assert(rounds_fit(body, qs, (n - 1) as nat));
        if n > 1 {
            assert(!ends_in_return(body, qs[n - 2]));
        }
        safety_rounds(t, body, depth, i, qs, (n - 1) as nat);
        lemma_safety(t, body, depth, i, qs[n - 1]);
    }
}

proof fn safety_while(t: Seq<EntryModel>, s: TStmt, depth: int, i: int, p: Path)
    requires
        s is TWhile,
        walk(t, s, depth) is Ok,
        fits(s, p),
        visible(t, i),
        !declares(s, t[i].name),
    ensures
        accounted(t, s, depth, i, p),
    decreases s, 0nat,
{
    if let TStmt::TWhile(span, c, body) = s {
        lemma_expr_accounts(t, *c, 0, i);
        let qs = p->Rounds_0;
        safety_rounds(t, *body, deeper(depth), i, qs, qs.len());
        assert(uses(t[i].name, *c) == 0);
        assert(qs.len() * uses(t[i].name, *c) == 0) by (nonlinear_arith)
            requires
                uses(t[i].name, *c) == 0,
        ;
    }
}

proof fn safety_for(t: Seq<EntryModel>, s: TStmt, depth: int, i: int, p: Path)
    requires
        s is TFor,
        walk(t, s, depth) is Ok,
        fits(s, p),
        visible(t, i),
        !declares(s, t[i].name),
    ensures
        accounted(t, s, depth, i, p),
    decreases s, 0nat,
{
    lemma_walk_keeps_vars(t, s, depth);
    if let TStmt::TFor(span, _, from, to, body) = s {
        lemma_expr_accounts(t, *from, 0, i);
        let t1 = check_expr(t, *from)->Ok_0;
        lemma_visible_same_vars(t, t1, i);
        lemma_expr_accounts(t1, *to, 0, i);
        let t2 = check_expr(t1, *to)->Ok_0;
        lemma_visible_same_vars(t1, t2, i);
        let qs = p->Rounds_0;
        safety_rounds(t2, *body, deeper(depth), i, qs, qs.len());
    }
}

proof fn safety_borrow(t: Seq<EntryModel>, s: TStmt, depth: int, i: int, p: Path)
    requires
        s is TBorrow,
        walk(t, s, depth) is Ok,
        fits(s, p),
        visible(t, i),
        !declares(s, t[i].name),
    ensures
        accounted(t, s, depth, i, p),
    decreases s, 0nat,
{
    lemma_walk_keeps_vars(t, s, depth);
    if let TStmt::TBorrow { span, original, rename, region, orig_type, ref_type, body, mode } = s {
        let q = *p->Inside_0;
        lemma_lookup(t, original@);
        let held = match lookup(t, original@) {
            Some(j) => t.update(j, t[j].in_state(borrowed(mode))),
            None => t,
        };
        assert(same_vars(t, held));
        lemma_visible_same_vars(t, held, i);
        let inner = with_reference(held, rename@, ref_type, depth);
        assert(inner.take(held.len() as int) =~= held);
        lemma_visible_longer(held, inner, i);
        lemma_safety(inner, *body, depth, i, q);
        if !ends_in_return(*body, q) {
            let t2 = walk(inner, *body, depth)->Ok_0->Continues_0;
            lemma_visible_same_vars(inner, t2, i);
            lemma_visible_shorter(t2, t.len() as int, i);
            if lookup(t, original@) == Some(i) {
                crate::linearity_check::lemma_walk_keeps_borrow(inner, *body, depth, i);
            }
        }
    }
}

proof fn safety_block(t: Seq<EntryModel>, s: TStmt, depth: int, i: int, p: Path)
    requires
        s is TBlock,
        walk(t, s, depth) is Ok,
        fits(s, p),
        visible(t, i),
        !declares(s, t[i].name),
    ensures
        accounted(t, s, depth, i, p),
    decreases s, 0nat,
{
    lemma_walk_keeps_vars(t, s, depth);
    if let TStmt::TBlock(_, a, b) = s {
        match p {
            Path::First(q) => {
                lemma_safety(t, *a, depth, i, *q);
            },
            Path::Both(q1, q2) => {
                lemma_safety(t, *a, depth, i, *q1);
                let t1 = walk(t, *a, depth)->Ok_0->Continues_0;
                lemma_visible_same_vars(t, t1, i);
                lemma_safety(t1, *b, depth, i, *q2);
                lemma_walk_keeps_vars(t1, *b, depth);
                if let Ok(Flow::Continues(t2)) = walk(t1, *b, depth) {
                    lemma_same_vars_trans(t, t1, t2);
                }
            },
            _ => {},
        }
    }
}

/// Linearity safety. Take a statement that the checker accepts from a table,
/// a variable of the table that no later entry hides and the statement does
/// not declare again, and any way through the statement. Along that way the
/// variable is consumed at most once, and not at all if it was consumed
/// before; and if the way ends in a return, the variable has been consumed
/// exactly once by then.
pub proof fn law_linearity_safety(t: Seq<EntryModel>, s: TStmt, depth: int, i: int, p: Path)
    requires
        walk(t, s, depth) is Ok,
        fits(s, p),
        visible(t, i),
        !declares(s, t[i].name),
    ensures
        consumed_on(t[i].name, s, p) <= 1,
        t[i].state == VarState::Consumed ==> consumed_on(t[i].name, s, p) == 0,
        ends_in_return(s, p) ==> used(t[i].state) + consumed_on(t[i].name, s, p) == 1,
{
    lemma_safety(t, s, depth, i, p);
}

/// A linear variable that a `let` declares is consumed exactly once along
/// every way through its scope, whether the way ends in a return or at the
/// end of the scope, if the checker accepts the `let` and the scope does
/// not declare the name again.
pub proof fn law_declared_consumed_once(t: Seq<EntryModel>, s: TStmt, depth: int, q: Path)
    requires
        s is TLet,
        linear(s->TLet_4@),
        walk(t, s, depth) is Ok,
        fits(*s->TLet_5, q),
        !declares(*s->TLet_5, s->TLet_1@),
    ensures
        consumed_on(s->TLet_1@, *s->TLet_5, q) == 1,
{
    let t1 = check_expr(t, *s->TLet_2)->Ok_0;
    let inner = t1.push(
        EntryModel { name: s->TLet_1@, depth, state: VarState::Unconsumed },
    );
    let i = t1.len() as int;
    lemma_visible(inner, i);
    lemma_safety(inner, *s->TLet_5, depth, i, q);
    if !ends_in_return(*s->TLet_5, q) {
        let t2 = walk(inner, *s->TLet_5, depth)->Ok_0->Continues_0;
        lemma_first_unconsumed(t2, i);
    }
}

/// Whether the parameter at `k` is linear and no later linear parameter
/// goes by its name.
pub open spec fn shown_parameter(params: Vec<ValueParameter>, k: int) -> bool {
    &&& 0 <= k < params.len()
    &&& linear(params[k].ty@)
    &&& forall|j: int|
        k < j < params.len() ==> !(linear(#[trigger] params[j].ty@) && params[j].name@
            == params[k].name@)
}

/// The table of the parameters holds an unconsumed entry for a linear
/// parameter that no later one hides, and no later entry hides that entry.
proof fn lemma_parameter_entry(params: Vec<ValueParameter>, n: nat, k: int) -> (i: int)
    requires
        shown_parameter(params, k),
        k < n <= params.len(),
    ensures
        0 <= i < param_table(params, n).len(),
        param_table(params, n)[i].name == params[k].name@,
        param_table(params, n)[i].state == VarState::Unconsumed,
        forall|j: int|
            i < j < param_table(params, n).len() ==> param_table(params, n)[j].name
                != params[k].name@,
    decreases n,
{
    let prev = param_table(params, (n - 1) as nat);
    if n - 1 == k {
        prev.len() as int
    } else {
        let i = lemma_parameter_entry(params, (n - 1) as nat, k);
        assert(linear(params[n - 1].ty@) ==> params[n - 1].name@ != params[k].name@);
        i
    }
}

/// A linear parameter is consumed exactly once along every way through the
/// body of a function that the checker accepts, if no later parameter goes
/// by its name and the body does not declare the name again.
pub proof fn law_parameter_consumed_once(
    params: Vec<ValueParameter>,
    body: TStmt,
    k: int,
    p: Path,
)
    requires
        check_function(params, body) is Ok,
        fits(body, p),
        shown_parameter(params, k),
        !declares(body, params[k].name@),
    ensures
        consumed_on(params[k].name@, body, p) == 1,
{
    let t = param_table(params, params.len() as nat);
    let i = lemma_parameter_entry(params, params.len() as nat, k);
    lemma_visible(t, i);
    lemma_safety(t, body, 0, i, p);
    if !ends_in_return(body, p) {
        let t2 = walk(t, body, 0)->Ok_0->Continues_0;
        lemma_first_unconsumed(t2, 0);
    }
}

/// The table from which the body of a `let` is walked, where the value of
/// the `let` left the table `t1`.
pub open spec fn let_table(t1: Seq<EntryModel>, s: TStmt, depth: int) -> Seq<EntryModel>
    recommends
        s is TLet,
{
    if linear(s->TLet_4@) {
        t1.push(EntryModel { name: s->TLet_1@, depth, state: VarState::Unconsumed })
    } else {
        t1
    }
}

/// The table from which the body of a borrow statement is walked.
pub open spec fn borrow_table(t: Seq<EntryModel>, s: TStmt, depth: int) -> Seq<EntryModel>
    recommends
        s is TBorrow,
{
    match lookup(t, s->TBorrow_original@) {
        None => with_reference(t, s->TBorrow_rename@, s->TBorrow_ref_type, depth),
        Some(i) => with_reference(
            t.update(i, t[i].in_state(borrowed(s->TBorrow_mode))),
            s->TBorrow_rename@,
            s->TBorrow_ref_type,
            depth,
        ),
    }
}

/// Whether the walk of the statement `s` from the table `t` comes to the
/// statement `inner` with the table `at`, at the depth `d`: `inner` is `s`
/// itself, or a statement inside `s` that the walk of `s` walks. What
/// follows a statement that returns is not walked.
pub open spec fn comes_to(
    t: Seq<EntryModel>,
    s: TStmt,
    depth: int,
    at: Seq<EntryModel>,
    inner: TStmt,
    d: int,
) -> bool
    decreases s, 0nat,
{
    (t == at && s == inner && depth == d) || match s {
        TStmt::TLet(_, _, e, _, _, body) => check_expr(t, *e) matches Ok(t1) && comes_to(
            let_table(t1, s, depth),
            *body,
            depth,
            at,
            inner,
            d,
        ),
        TStmt::TDestructure(_, _, bindings, e, body) => check_expr(t, *e) matches Ok(t1)
            && comes_to(
            push_bindings(t1, bindings, bindings.len() as nat, depth),
            *body,
            depth,
            at,
            inner,
            d,
        ),
        TStmt::TIf(_, c, a, b) => check_expr(t, *c) matches Ok(t1) && (comes_to(
            t1,
            *a,
            depth,
            at,
            inner,
            d,
        ) || comes_to(t1, *b, depth, at, inner, d)),
        TStmt::TCase(_, e, whens, _) => check_expr(t, *e) matches Ok(t1) && comes_to_in_whens(
            t1,
            whens,
            0,
            depth,
            at,
            inner,
            d,
        ),
        TStmt::TWhile(_, _, body) => comes_to(t, *body, deeper(depth), at, inner, d),
        TStmt::TFor(_, _, from, to, body) => check_expr(t, *from) matches Ok(t1) && check_expr(
            t1,
            *to,
        ) matches Ok(t2) && comes_to(t2, *body, deeper(depth), at, inner, d),
        TStmt::TBorrow { body, .. } => comes_to(
            borrow_table(t, s, depth),
            *body,
            depth,
            at,
            inner,
            d,
        ),
        TStmt::TBlock(_, a, b) => comes_to(t, *a, depth, at, inner, d) || (walk(t, *a, depth) matches Ok(
            Flow::Continues(t1),
        ) && comes_to(t1, *b, depth, at, inner, d)),
        _ => false,
    }
}

/// Whether the walk of the `when` clauses from index `k` on comes to the
/// statement `inner`.
pub open spec fn comes_to_in_whens(
    t: Seq<EntryModel>,
    whens: Vec<TypedWhen>,
    k: nat,
    depth: int,
    at: Seq<EntryModel>,
    inner: TStmt,
    d: int,
) -> bool
    decreases whens, whens.len() - k,
{
    if k >= whens.len() {
        false
    } else {
        comes_to(
            push_bindings(t, whens[k as int].1, whens[k as int].1.len() as nat, depth),
            *whens[k as int].2,
            depth,
            at,
            inner,
            d,
        ) || comes_to_in_whens(t, whens, k + 1, depth, at, inner, d)
    }
}

/// What the walk of an accepted statement comes to is accepted from the
/// table it is reached with.
pub proof fn lemma_comes_to_accepted(
    t: Seq<EntryModel>,
    s: TStmt,
    depth: int,
    at: Seq<EntryModel>,
    inner: TStmt,
    d: int,
)
    requires
        walk(t, s, depth) is Ok,
        comes_to(t, s, depth, at, inner, d),
    ensures
        walk(at, inner, d) is Ok,
    decreases s, 0nat,
{
    if !(t == at && s == inner && depth == d) {
        match s {
            TStmt::TLet(_, _, e, _, _, body) => {
                let t1 = check_expr(t, *e)->Ok_0;
                lemma_comes_to_accepted(let_table(t1, s, depth), *body, depth, at, inner, d);
            },
            TStmt::TDestructure(_, _, bindings, e, body) => {
                let t1 = check_expr(t, *e)->Ok_0;
                lemma_comes_to_accepted(
                    push_bindings(t1, bindings, bindings.len() as nat, depth),
                    *body,
                    depth,
                    at,
                    inner,
                    d,
                );
            },
            TStmt::TIf(_, c, a, b) => {
                let t1 = check_expr(t, *c)->Ok_0;
                if comes_to(t1, *a, depth, at, inner, d) {
                    lemma_comes_to_accepted(t1, *a, depth, at, inner, d);
                } else {
                    lemma_comes_to_accepted(t1, *b, depth, at, inner, d);
                }
            },
            TStmt::TCase(span, e, whens, _) => {
                let t1 = check_expr(t, *e)->Ok_0;
                lemma_comes_to_in_whens(t1, whens, 0, Flow::Returned, depth, span, at, inner, d);
            },
            TStmt::TWhile(_, _, body) => {
                lemma_comes_to_accepted(t, *body, deeper(depth), at, inner, d);
            },
            TStmt::TFor(_, _, from, to, body) => {
                let t1 = check_expr(t, *from)->Ok_0;
                let t2 = check_expr(t1, *to)->Ok_0;
                lemma_comes_to_accepted(t2, *body, deeper(depth), at, inner, d);
            },
            TStmt::TBorrow { body, .. } => {
                lemma_comes_to_accepted(borrow_table(t, s, depth), *body, depth, at, inner, d);
            },
            TStmt::TBlock(_, a, b) => {
                if comes_to(t, *a, depth, at, inner, d) {
                    lemma_comes_to_accepted(t, *a, depth, at, inner, d);
                } else {
                    let t1 = walk(t, *a, depth)->Ok_0->Continues_0;
                    lemma_comes_to_accepted(t1, *b, depth, at, inner, d);
                }
            },
            _ => {},
        }
    }
}

proof fn lemma_comes_to_in_whens(
    t: Seq<EntryModel>,
    whens: Vec<TypedWhen>,
    k: nat,
    acc: Flow,
    depth: int,
    span: Span,
    at: Seq<EntryModel>,
    inner: TStmt,
    d: int,
)
    requires
        walk_whens(t, whens, k, acc, depth, span) is Ok,
        comes_to_in_whens(t, whens, k, depth, at, inner, d),
    ensures
        walk(at, inner, d) is Ok,
    decreases whens, whens.len() - k,
{
    if k < whens.len() {
        let when = whens[k as int];
        let from = push_bindings(t, when.1, when.1.len() as nat, depth);
        if comes_to(from, *when.2, depth, at, inner, d) {
            lemma_comes_to_accepted(from, *when.2, depth, at, inner, d);
        } else {
            let flow = close_scope(walk(from, *when.2, depth), t.len() as int, span)->Ok_0;
            let joined = join(acc, flow, span)->Ok_0;
            lemma_comes_to_in_whens(t, whens, k + 1, joined, depth, span, at, inner, d);
        }
    }
}

/// Linearity safety for every `let`. Take a statement that the checker
/// accepts and a `let` of a linear variable that the walk of the
/// statement comes to, whose scope does not declare the name again. Along
/// every way through the scope of the `let` the variable is consumed
/// exactly once, whether the way ends in a return or at the end of the
/// scope.
pub proof fn law_every_let_consumed_once(
    t: Seq<EntryModel>,
    s: TStmt,
    depth: int,
    at: Seq<EntryModel>,
    inner: TStmt,
    d: int,
    q: Path,
)
    requires
        walk(t, s, depth) is Ok,
        comes_to(t, s, depth, at, inner, d),
        inner is TLet,
        linear(inner->TLet_4@),
        fits(*inner->TLet_5, q),
        !declares(*inner->TLet_5, inner->TLet_1@),
    ensures
        consumed_on(inner->TLet_1@, *inner->TLet_5, q) == 1,
{
    lemma_comes_to_accepted(t, s, depth, at, inner, d);
    law_declared_consumed_once(at, inner, d, q);
}

/// The same of the body of a function that the checker accepts: every
/// `let` of a linear variable that the walk of the body comes to has its
/// variable consumed exactly once along every way through its scope.
pub proof fn law_every_let_of_a_function_consumed_once(
    params: Vec<ValueParameter>,
    body: TStmt,
    at: Seq<EntryModel>,
    inner: TStmt,
    d: int,
    q: Path,
)
    requires
        check_function(params, body) is Ok,
        comes_to(param_table(params, params.len() as nat), body, 0, at, inner, d),
        inner is TLet,
        linear(inner->TLet_4@),
        fits(*inner->TLet_5, q),
        !declares(*inner->TLet_5, inner->TLet_1@),
    ensures
        consumed_on(inner->TLet_1@, *inner->TLet_5, q) == 1,
{
    law_every_let_consumed_once(
        param_table(params, params.len() as nat),
        body,
        0,
        at,
        inner,
        d,
        q,
    );
}

} // verus!
