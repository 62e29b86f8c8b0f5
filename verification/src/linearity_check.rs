//! The linearity checker: it walks a typed statement under a table of the
//! linear variables in scope and rejects a program that consumes a linear
//! value twice, drops one, or uses one against a live borrow.

use crate::common::{BorrowingMode, Identifier};
use crate::span::{Span, SpanContext, SpanLocation};
use crate::stages::{BorrowStmtKind, TExpr, TStmt, TypedBinding, TypedWhen, ValueParameter};
use crate::ty::Ty;
use crate::type_env::{TypedFunction, TypedInstance, TypedModule};
use crate::type_system::{is_linear, linear};
use std::ops::Range;
use vstd::prelude::*;

verus! {

/// How often a variable appears in an expression, by the way it is used.
/// Each field counts up to the largest `i32` and stays there.
#[derive(Clone, Copy, Debug)]
pub struct Appearances {
    pub consumed: i32,
    pub read: i32,
    pub write: i32,
    pub path: i32,
}

/// The exact numbers of appearances of a variable in an expression.
pub struct Counts {
    /// Uses as a value: a bare variable, an argument, a returned value.
    pub consumed: nat,
    /// Uses under `&x` or at the head of `&( x... )`.
    pub read: nat,
    /// Uses under `&!x` or `&~x`.
    pub write: nat,
    /// Uses as the head of a slot or index access that does not consume.
    pub path: nat,
}

impl Counts {
    /// No appearance of any kind.
    pub open spec fn zero() -> Counts {
        Counts { consumed: 0, read: 0, write: 0, path: 0 }
    }

    /// The appearances of both, kind by kind.
    pub open spec fn plus(self, other: Counts) -> Counts {
        Counts {
            consumed: self.consumed + other.consumed,
            read: self.read + other.read,
            write: self.write + other.write,
            path: self.path + other.path,
        }
    }
}

/// A number of appearances as an `i32` keeps it: itself, or the largest
/// `i32` when it is beyond that.
pub open spec fn clip(n: nat) -> int {
    if n > i32::MAX {
        i32::MAX as int
    } else {
        n as int
    }
}

impl View for Appearances {
    type V = Counts;

    open spec fn view(&self) -> Counts {
        Counts {
            consumed: self.consumed as nat,
            read: self.read as nat,
            write: self.write as nat,
            path: self.path as nat,
        }
    }
}

impl Appearances {
    /// No field is negative.
    pub open spec fn wf(self) -> bool {
        self.consumed >= 0 && self.read >= 0 && self.write >= 0 && self.path >= 0
    }

    /// The four fields hold the four exact numbers, clipped.
    pub open spec fn tallies(self, c: Counts) -> bool {
        &&& self.consumed == clip(c.consumed)
        &&& self.read == clip(c.read)
        &&& self.write == clip(c.write)
        &&& self.path == clip(c.path)
    }

    fn none() -> (r: Appearances)
        ensures
            r.tallies(Counts::zero()),
    {
        Appearances { consumed: 0, read: 0, write: 0, path: 0 }
    }

    fn merge(self, other: Appearances, Ghost(a): Ghost<Counts>, Ghost(b): Ghost<Counts>) -> (r:
        Appearances)
        requires
            self.tallies(a),
            other.tallies(b),
        ensures
            r.tallies(a.plus(b)),
    {
        Appearances {
            consumed: clipped_sum(self.consumed, other.consumed),
            read: clipped_sum(self.read, other.read),
            write: clipped_sum(self.write, other.write),
            path: clipped_sum(self.path, other.path),
        }
    }
}

impl Default for Appearances {
    fn default() -> (r: Appearances)
        ensures
            r.tallies(Counts::zero()),
    {
        Appearances { consumed: 0, read: 0, write: 0, path: 0 }
    }
}

fn clipped_sum(a: i32, b: i32) -> (r: i32)
    requires
        a >= 0,
        b >= 0,
    ensures
        r == if a + b > i32::MAX {
            i32::MAX as int
        } else {
            a + b
        },
{
    if a > i32::MAX - b {
        i32::MAX
    } else {
        a + b
    }
}

/// What the checker knows of a linear variable.
#[derive(Clone, Copy, Debug, PartialEq, Eq, Structural)]
pub enum VarState {
    Unconsumed,
    BorrowedRead,
    BorrowedWrite,
    Consumed,
}

impl Default for VarState {
    fn default() -> (r: VarState)
        ensures
            r == VarState::Unconsumed,
    {
        VarState::Unconsumed
    }
}

impl VarState {
    /// The state in words, as a diagnostic prints it.
    pub fn describe(&self) -> (r: &'static str)
        ensures
            r@ == match *self {
                VarState::Unconsumed => "not yet consumed"@,
                VarState::BorrowedRead => "borrowed (read-only)"@,
                VarState::BorrowedWrite => "borrowed (read-write)"@,
                VarState::Consumed => "consumed"@,
            },
    {
        match self {
            VarState::Unconsumed => "not yet consumed",
            VarState::BorrowedRead => "borrowed (read-only)",
            VarState::BorrowedWrite => "borrowed (read-write)",
            VarState::Consumed => "consumed",
        }
    }
}

/// A number of appearances, as far as the rules tell numbers apart.
#[derive(Clone, Copy, Debug, PartialEq, Eq, Structural)]
pub enum Partitions {
    Zero,
    One,
    MoreThanOne,
}

impl Partitions {
    /// The class of a number of appearances.
    pub open spec fn of(n: int) -> Partitions {
        if n > 1 {
            Partitions::MoreThanOne
        } else if n == 1 {
            Partitions::One
        } else {
            Partitions::Zero
        }
    }

    /// Whether a count is none, one or more than one.
    pub fn partition(n: i32) -> (r: Partitions)
        requires
            n >= 0,
        ensures
            r == Partitions::of(n as int),
    {
        if n > 1 {
            Partitions::MoreThanOne
        } else if n == 1 {
            Partitions::One
        } else {
            Partitions::Zero
        }
    }
}

/// The ways in which a program can break the rules of linearity.
#[derive(Clone, Copy, Debug, PartialEq, Eq, Structural)]
pub enum LinearityErrorKind {
    UseAfterConsume,
    MultipleConsumption,
    UnconsumedOnReturn,
    BorrowConflict,
    BranchStateMismatch,
    LoopStateMismatch,
}

/// What one expression does to a variable in state `state` in which the
/// variable appears as `c` counts: the variable's next state, or the rule
/// that the expression breaks.
///
/// An unconsumed variable may be consumed once, if the expression does
/// nothing else with it, or be borrowed for the length of the expression,
/// for reading or for writing but not both. A variable borrowed for reading
/// may be read and used as a path; one borrowed for writing only used as a
/// path. A consumed variable may not appear at all.
pub open spec fn transition(state: VarState, c: Counts) -> Result<VarState, LinearityErrorKind> {
    match state {
        VarState::Unconsumed => {
            if c.consumed == 0 {
                if c.read >= 1 && c.write >= 1 {
                    Err(LinearityErrorKind::BorrowConflict)
                } else {
                    Ok(VarState::Unconsumed)
                }
            } else if c.consumed == 1 && c.read == 0 && c.write == 0 && c.path == 0 {
                Ok(VarState::Consumed)
            } else {
                Err(LinearityErrorKind::MultipleConsumption)
            }
        },
        VarState::BorrowedRead => {
            if c.consumed >= 1 || c.write >= 1 {
                Err(LinearityErrorKind::BorrowConflict)
            } else {
                Ok(VarState::BorrowedRead)
            }
        },
        VarState::BorrowedWrite => {
            if c.consumed >= 1 || c.read >= 1 || c.write >= 1 {
                Err(LinearityErrorKind::BorrowConflict)
            } else {
                Ok(VarState::BorrowedWrite)
            }
        },
        VarState::Consumed => {
            if c.consumed >= 1 || c.read >= 1 || c.write >= 1 || c.path >= 1 {
                Err(LinearityErrorKind::UseAfterConsume)
            } else {
                Ok(VarState::Consumed)
            }
        },
    }
}

/// The next state of a variable, or the rule that is broken, from the
/// variable's state and its appearances in one expression.
pub fn next_state(state: VarState, apps: &Appearances) -> (r: Result<VarState, LinearityErrorKind>)
    requires
        apps.wf(),
    ensures
        r == transition(state, apps@),
{
    let consumed = Partitions::partition(apps.consumed);
    let read = Partitions::partition(apps.read);
    let write = Partitions::partition(apps.write);
    let path = Partitions::partition(apps.path);
    match state {
        VarState::Unconsumed => match (consumed, read, write, path) {
            (Partitions::Zero, Partitions::Zero, _, _) => Ok(VarState::Unconsumed),
            (Partitions::Zero, _, Partitions::Zero, _) => Ok(VarState::Unconsumed),
            (Partitions::Zero, _, _, _) => Err(LinearityErrorKind::BorrowConflict),
            (Partitions::One, Partitions::Zero, Partitions::Zero, Partitions::Zero) => Ok(
                VarState::Consumed,
            ),
            _ => Err(LinearityErrorKind::MultipleConsumption),
        },
        VarState::BorrowedRead => match (consumed, write) {
            (Partitions::Zero, Partitions::Zero) => Ok(VarState::BorrowedRead),
            _ => Err(LinearityErrorKind::BorrowConflict),
        },
        VarState::BorrowedWrite => match (consumed, read, write) {
            (Partitions::Zero, Partitions::Zero, Partitions::Zero) => Ok(VarState::BorrowedWrite),
            _ => Err(LinearityErrorKind::BorrowConflict),
        },
        VarState::Consumed => match (consumed, read, write, path) {
            (Partitions::Zero, Partitions::Zero, Partitions::Zero, Partitions::Zero) => Ok(
                VarState::Consumed,
            ),
            _ => Err(LinearityErrorKind::UseAfterConsume),
        },
    }
}

/// The rules tell no number above one from another, so the clipped counts
/// decide as the exact ones do.
pub proof fn lemma_transition_clipped(state: VarState, apps: Appearances, c: Counts)
    requires
        apps.tallies(c),
    ensures
        apps.wf(),
        transition(state, apps@) == transition(state, c),
{
}

impl Counts {
    /// One appearance as a value.
    pub open spec fn consumed_once() -> Counts {
        Counts { consumed: 1, read: 0, write: 0, path: 0 }
    }

    /// One appearance under a read borrow.
    pub open spec fn read_once() -> Counts {
        Counts { consumed: 0, read: 1, write: 0, path: 0 }
    }

    /// One appearance under a write borrow.
    pub open spec fn write_once() -> Counts {
        Counts { consumed: 0, read: 0, write: 1, path: 0 }
    }

    /// One appearance at the head of a path.
    pub open spec fn path_once() -> Counts {
        Counts { consumed: 0, read: 0, write: 0, path: 1 }
    }
}

/// The appearances of the variable `name` in the expression `e`, where `e`
/// is used as a value. A bare variable is consumed; `&x` reads and `&!x` and
/// `&~x` write; the head of a slot or index access is a path; every other
/// expression adds up what its operands hold.
pub open spec fn count_in(name: Seq<char>, e: TExpr) -> Counts
    decreases e, 0nat,
{
    match e {
        TExpr::TParamVar(n, _) | TExpr::TLocalVar(n, _) | TExpr::TTemporary(n, _) => if n@
            == name {
            Counts::consumed_once()
        } else {
            Counts::zero()
        },
        TExpr::TFuncall(_, _, args, _) | TExpr::TMethodCall(_, _, args, _) | TExpr::TFptrCall(
            _,
            args,
            _,
        ) | TExpr::TEmbed(_, _, args) => count_args(name, args, args.len() as nat),
        TExpr::TVarMethodCall { args, .. } => count_args(name, args, args.len() as nat),
        TExpr::TCast(x, _) | TExpr::TNegation(x) | TExpr::TDeref(x) => count_in(name, *x),
        TExpr::TArithmetic(_, a, b) | TExpr::TComparison(_, a, b) => count_in(name, *a).plus(
            count_in(name, *b),
        ),
        TExpr::TConjunction(a, b) | TExpr::TDisjunction(a, b) => count_in(name, *a).plus(
            count_in(name, *b),
        ),
        TExpr::TIfExpression(c, a, b) => count_in(name, *c).plus(count_in(name, *a)).plus(
            count_in(name, *b),
        ),
        TExpr::TRecordConstructor(_, fields) | TExpr::TUnionConstructor(_, _, fields) => count_fields(
            name,
            fields,
            fields.len() as nat,
        ),
        TExpr::TSlotAccessor(b, _, _) | TExpr::TPointerSlotAccessor(b, _, _) => count_place(
            name,
            *b,
            false,
        ),
        TExpr::TArrayIndex(b, i, _) | TExpr::TSpanIndex(b, i, _) => count_place(
            name,
            *b,
            false,
        ).plus(count_in(name, *i)),
        TExpr::TBorrowExpr(mode, n, _, _) => if n@ == name {
            match mode {
                BorrowingMode::ReadBorrow => Counts::read_once(),
                BorrowingMode::WriteBorrow => Counts::write_once(),
            }
        } else {
            Counts::zero()
        },
        TExpr::TReborrow(n, _, _) => if n@ == name {
            Counts::write_once()
        } else {
            Counts::zero()
        },
        TExpr::TRefPath(p, _) => count_place(name, *p, true),
        _ => Counts::zero(),
    }
}

/// The appearances of `name` in `e`, where `e` is the place that a slot
/// access, an index or `&( ... )` starts from. A bare variable there is not
/// consumed: it is a path, or a read when `read` is set. An index inside the
/// place is used as a value.
pub open spec fn count_place(name: Seq<char>, e: TExpr, read: bool) -> Counts
    decreases e, 1nat,
{
    match e {
        TExpr::TParamVar(n, _) | TExpr::TLocalVar(n, _) | TExpr::TTemporary(n, _) => if n@
            == name {
            if read {
                Counts::read_once()
            } else {
                Counts::path_once()
            }
        } else {
            Counts::zero()
        },
        TExpr::TSlotAccessor(b, _, _) | TExpr::TPointerSlotAccessor(b, _, _) | TExpr::TDeref(
            b,
        ) => count_place(name, *b, read),
        TExpr::TArrayIndex(b, i, _) | TExpr::TSpanIndex(b, i, _) => count_place(
            name,
            *b,
            read,
        ).plus(count_in(name, *i)),
        _ => count_in(name, e),
    }
}

/// The appearances of `name` in the first `n` of the arguments.
pub open spec fn count_args(name: Seq<char>, args: Vec<Box<TExpr>>, n: nat) -> Counts
    decreases args, n,
{
    if n == 0 || n > args.len() {
        Counts::zero()
    } else {
        count_args(name, args, (n - 1) as nat).plus(count_in(name, *args[n - 1]))
    }
}

/// The appearances of `name` in the values of the first `n` of the fields.
pub open spec fn count_fields(
    name: Seq<char>,
    fields: Vec<(Identifier, Box<TExpr>)>,
    n: nat,
) -> Counts
    decreases fields, n,
{
    if n == 0 || n > fields.len() {
        Counts::zero()
    } else {
        count_fields(name, fields, (n - 1) as nat).plus(count_in(name, *fields[n - 1].1))
    }
}

fn once(consumed: i32, read: i32, write: i32, path: i32) -> (r: Appearances)
    requires
        0 <= consumed <= 1,
        0 <= read <= 1,
        0 <= write <= 1,
        0 <= path <= 1,
    ensures
        r.tallies(
            Counts {
                consumed: consumed as nat,
                read: read as nat,
                write: write as nat,
                path: path as nat,
            },
        ),
{
    Appearances { consumed, read, write, path }
}

/// Counts the appearances of a variable in an expression used as a value.
pub fn count(name: &Identifier, texpr: &TExpr) -> (r: Appearances)
    ensures
        r.tallies(count_in(name@, *texpr)),
    decreases texpr, 0nat,
{
    match texpr {
        TExpr::TParamVar(n, _) | TExpr::TLocalVar(n, _) | TExpr::TTemporary(n, _) => {
            if n.same(name) {
                once(1, 0, 0, 0)
            } else {
                Appearances::none()
            }
        },
        TExpr::TFuncall(_, _, args, _) | TExpr::TMethodCall(_, _, args, _) | TExpr::TFptrCall(
            _,
            args,
            _,
        ) | TExpr::TEmbed(_, _, args) => count_list(name, args),
        TExpr::TVarMethodCall { args, .. } => count_list(name, args),
        TExpr::TCast(x, _) | TExpr::TNegation(x) | TExpr::TDeref(x) => count(name, x),
        TExpr::TArithmetic(_, a, b) | TExpr::TComparison(_, a, b) => {
            let ca = count(name, a);
            let cb = count(name, b);
            ca.merge(cb, Ghost(count_in(name@, **a)), Ghost(count_in(name@, **b)))
        },
        TExpr::TConjunction(a, b) | TExpr::TDisjunction(a, b) => {
            let ca = count(name, a);
            let cb = count(name, b);
            ca.merge(cb, Ghost(count_in(name@, **a)), Ghost(count_in(name@, **b)))
        },
        TExpr::TIfExpression(c, a, b) => {
            let cc = count(name, c);
            let ca = count(name, a);
            let cb = count(name, b);
            let first = cc.merge(ca, Ghost(count_in(name@, **c)), Ghost(count_in(name@, **a)));
            first.merge(
                cb,
                Ghost(count_in(name@, **c).plus(count_in(name@, **a))),
                Ghost(count_in(name@, **b)),
            )
        },
        TExpr::TRecordConstructor(_, fields) | TExpr::TUnionConstructor(_, _, fields) => {
            count_values(name, fields)
        },
        TExpr::TSlotAccessor(b, _, _) | TExpr::TPointerSlotAccessor(b, _, _) => count_at(
            name,
            b,
            false,
        ),
        TExpr::TArrayIndex(b, i, _) | TExpr::TSpanIndex(b, i, _) => {
            let cb = count_at(name, b, false);
            let ci = count(name, i);
            cb.merge(ci, Ghost(count_place(name@, **b, false)), Ghost(count_in(name@, **i)))
        },
        TExpr::TBorrowExpr(mode, n, _, _) => {
            if n.same(name) {
                match mode {
                    BorrowingMode::ReadBorrow => once(0, 1, 0, 0),
                    BorrowingMode::WriteBorrow => once(0, 0, 1, 0),
                }
            } else {
                Appearances::none()
            }
        },
        TExpr::TReborrow(n, _, _) => {
            if n.same(name) {
                once(0, 0, 1, 0)
            } else {
                Appearances::none()
            }
        },
        TExpr::TRefPath(p, _) => count_at(name, p, true),
        _ => Appearances::none(),
    }
}

/// Counts the appearances of a variable in an expression that a slot access,
/// an index or `&( ... )` starts from.
fn count_at(name: &Identifier, texpr: &TExpr, read: bool) -> (r: Appearances)
    ensures
        r.tallies(count_place(name@, *texpr, read)),
    decreases texpr, 1nat,
{
    match texpr {
        TExpr::TParamVar(n, _) | TExpr::TLocalVar(n, _) | TExpr::TTemporary(n, _) => {
            if n.same(name) {
                if read {
                    once(0, 1, 0, 0)
                } else {
                    once(0, 0, 0, 1)
                }
            } else {
                Appearances::none()
            }
        },
        TExpr::TSlotAccessor(b, _, _) | TExpr::TPointerSlotAccessor(b, _, _) | TExpr::TDeref(
            b,
        ) => count_at(name, b, read),
        TExpr::TArrayIndex(b, i, _) | TExpr::TSpanIndex(b, i, _) => {
            let cb = count_at(name, b, read);
            let ci = count(name, i);
            cb.merge(ci, Ghost(count_place(name@, **b, read)), Ghost(count_in(name@, **i)))
        },
        _ => count(name, texpr),
    }
}

fn count_list(name: &Identifier, args: &Vec<Box<TExpr>>) -> (r: Appearances)
    ensures
        r.tallies(count_args(name@, *args, args.len() as nat)),
    decreases args, 0nat,
{
    let mut total = Appearances::none();
    let mut i: usize = 0;
    while i < args.len()
        invariant
            0 <= i <= args.len(),
            total.tallies(count_args(name@, *args, i as nat)),
        decreases args.len() - i,
    {
        let c = count(name, &args[i]);
        total = total.merge(
            c,
            Ghost(count_args(name@, *args, i as nat)),
            Ghost(count_in(name@, *args[i as int])),
        );
        i = i + 1;
    }
    total
}

fn count_values(name: &Identifier, fields: &Vec<(Identifier, Box<TExpr>)>) -> (r: Appearances)
    ensures
        r.tallies(count_fields(name@, *fields, fields.len() as nat)),
    decreases fields, 0nat,
{
    let mut total = Appearances::none();
    let mut i: usize = 0;
    while i < fields.len()
        invariant
            0 <= i <= fields.len(),
            total.tallies(count_fields(name@, *fields, i as nat)),
        decreases fields.len() - i,
    {
        let c = count(name, &fields[i].1);
        total = total.merge(
            c,
            Ghost(count_fields(name@, *fields, i as nat)),
            Ghost(count_in(name@, *fields[i as int].1)),
        );
        i = i + 1;
    }
    total
}

/// One linear variable in scope.
#[derive(Debug)]
pub struct VarEntry {
    pub name: Identifier,
    /// How deep in loops the variable was declared.
    pub depth: i32,
    pub state: VarState,
}

/// One linear variable in scope, as a plain value.
pub struct EntryModel {
    pub name: Seq<char>,
    pub depth: int,
    pub state: VarState,
}

impl View for VarEntry {
    type V = EntryModel;

    open spec fn view(&self) -> EntryModel {
        EntryModel { name: self.name@, depth: self.depth as int, state: self.state }
    }
}

impl EntryModel {
    /// The same variable in another state.
    pub open spec fn in_state(self, state: VarState) -> EntryModel {
        EntryModel { name: self.name, depth: self.depth, state }
    }
}

/// The linear variables in scope, outermost first. The table is a list in
/// the order of declaration, not a map from names: the end of a scope
/// takes off the entries that the scope added, and a name may occur twice,
/// where a variable is declared by a name that an outer one has. The later
/// entry then hides the earlier one until its scope ends.
#[derive(Debug)]
pub struct StateTable {
    pub entries: Vec<VarEntry>,
}

impl View for StateTable {
    type V = Seq<EntryModel>;

    open spec fn view(&self) -> Seq<EntryModel> {
        self.entries@.map_values(|e: VarEntry| e@)
    }
}

/// The index of the innermost entry for `name`, if the table has one.
pub open spec fn lookup(t: Seq<EntryModel>, name: Seq<char>) -> Option<int>
    decreases t.len(),
{
    if t.len() == 0 {
        None
    } else if t.last().name == name {
        Some(t.len() - 1)
    } else {
        lookup(t.drop_last(), name)
    }
}

/// Whether the entry at `i` is the one that its name refers to.
pub open spec fn visible(t: Seq<EntryModel>, i: int) -> bool {
    0 <= i < t.len() && lookup(t, t[i].name) == Some(i)
}

/// The least index from `from` on whose variable is not consumed.
pub open spec fn first_unconsumed(t: Seq<EntryModel>, from: int) -> Option<int>
    decreases t.len() - from,
{
    if from < 0 || from >= t.len() {
        None
    } else if t[from].state != VarState::Consumed {
        Some(from)
    } else {
        first_unconsumed(t, from + 1)
    }
}

/// The entry that a name is looked up as is in the table and goes by the name,
/// and no later entry does.
pub proof fn lemma_lookup(t: Seq<EntryModel>, name: Seq<char>)
    ensures
        match lookup(t, name) {
            Some(i) => 0 <= i < t.len() && t[i].name == name && forall|j: int|
                i < j < t.len() ==> t[j].name != name,
            None => forall|j: int| 0 <= j < t.len() ==> t[j].name != name,
        },
    decreases t.len(),
{
    if t.len() > 0 && t.last().name != name {
        let rest = t.drop_last();
        lemma_lookup(rest, name);
        assert forall|j: int| 0 <= j < rest.len() implies rest[j] == t[j] by {}
    }
}

/// The first unconsumed entry from an index on is in the table and unconsumed,
/// and none between is.
pub proof fn lemma_first_unconsumed(t: Seq<EntryModel>, from: int)
    requires
        0 <= from,
    ensures
        match first_unconsumed(t, from) {
            Some(i) => from <= i < t.len() && t[i].state != VarState::Consumed && forall|j: int|
                from <= j < i ==> t[j].state == VarState::Consumed,
            None => forall|j: int| from <= j < t.len() ==> t[j].state == VarState::Consumed,
        },
    decreases t.len() - from,
{
    if from < t.len() && t[from].state == VarState::Consumed {
        lemma_first_unconsumed(t, from + 1);
    }
}

impl StateTable {
    /// The empty table.
    pub fn new() -> (r: StateTable)
        ensures
            r@ == Seq::<EntryModel>::empty(),
    {
        let r = StateTable { entries: Vec::new() };
        assert(r@ =~= Seq::<EntryModel>::empty());
        r
    }

    /// The number of entries.
    pub fn len(&self) -> (n: usize)
        ensures
            n == self@.len(),
    {
        self.entries.len()
    }

    /// Whether the table holds no entry.
    pub fn is_empty(&self) -> (r: bool)
        ensures
            r == (self@.len() == 0),
    {
        self.entries.len() == 0
    }

    /// Adds a variable as the innermost entry.
    pub fn insert(&mut self, name: Identifier, depth: i32, state: VarState)
        ensures
            final(self)@ == old(self)@.push(
                EntryModel { name: name@, depth: depth as int, state },
            ),
    {
        self.entries.push(VarEntry { name, depth, state });
        assert(self@ =~= old(self)@.push(EntryModel { name: name@, depth: depth as int, state }));
    }

    /// The depth and state that `name` refers to, if it is in the table.
    pub fn get(&self, name: &Identifier) -> (r: Option<(i32, VarState)>)
        ensures
            match lookup(self@, name@) {
                Some(i) => 0 <= i < self@.len() && r == Some((self.entries[i].depth, self@[i].state)),
                None => r is None,
            },
    {
        match self.index_of(name) {
            Some(i) => Some((self.entries[i].depth, self.entries[i].state)),
            None => None,
        }
    }

    /// The index of the innermost entry for `name`.
    pub fn index_of(&self, name: &Identifier) -> (r: Option<usize>)
        ensures
            match lookup(self@, name@) {
                Some(i) => r == Some(i as usize) && 0 <= i < self.entries.len(),
                None => r is None,
            },
    {
        let mut k: usize = self.entries.len();
        assert(self@.subrange(0, k as int) =~= self@);
        while k > 0
            invariant
                0 <= k <= self.entries.len(),
                lookup(self@, name@) == lookup(self@.subrange(0, k as int), name@),
            decreases k,
        {
            let ghost prefix = self@.subrange(0, k as int);
            assert(prefix.last() == self.entries[k - 1]@);
            assert(prefix.drop_last() =~= self@.subrange(0, k - 1));
            if self.entries[k - 1].name.same(name) {
                return Some(k - 1);
            }
            k = k - 1;
        }
        None
    }

    /// Puts the entry at `i` into another state.
    pub fn set_state(&mut self, i: usize, state: VarState)
        requires
            i < old(self)@.len(),
        ensures
            final(self)@ == old(self)@.update(i as int, old(self)@[i as int].in_state(state)),
    {
        let entry = VarEntry {
            name: self.entries[i].name.clone(),
            depth: self.entries[i].depth,
            state,
        };
        self.entries.set(i, entry);
        assert(self@ =~= old(self)@.update(i as int, old(self)@[i as int].in_state(state)));
    }

    /// Drops the entries from `len` on.
    pub fn truncate(&mut self, len: usize)
        requires
            len <= old(self)@.len(),
        ensures
            final(self)@ == old(self)@.take(len as int),
    {
        self.entries.truncate(len);
        assert(self@ =~= old(self)@.take(len as int));
    }

    /// Whether two tables hold the same variables in the same states.
    pub fn same(&self, other: &StateTable) -> (r: bool)
        ensures
            r == (self@ == other@),
    {
        if self.entries.len() != other.entries.len() {
            assert(self@.len() != other@.len());
            return false;
        }
        let mut i: usize = 0;
        while i < self.entries.len()
            invariant
                self.entries.len() == other.entries.len(),
                0 <= i <= self.entries.len(),
                forall|j: int| 0 <= j < i ==> self@[j] == other@[j],
            decreases self.entries.len() - i,
        {
            let a = &self.entries[i];
            let b = &other.entries[i];
            if !(a.name.same(&b.name) && a.depth == b.depth && a.state == b.state) {
                assert(self@[i as int] != other@[i as int]);
                return false;
            }
            i = i + 1;
        }
        assert(self@ =~= other@);
        true
    }
}

impl Clone for StateTable {
    fn clone(&self) -> (r: StateTable)
        ensures
            r@ == self@,
    {
        let mut entries: Vec<VarEntry> = Vec::new();
        let mut i: usize = 0;
        while i < self.entries.len()
            invariant
                0 <= i <= self.entries.len(),
                entries.len() == i,
                forall|j: int| 0 <= j < i ==> entries[j]@ == self.entries[j]@,
            decreases self.entries.len() - i,
        {
            let e = &self.entries[i];
            entries.push(VarEntry { name: e.name.clone(), depth: e.depth, state: e.state });
            i = i + 1;
        }
        let r = StateTable { entries };
        assert(r@ =~= self@);
        r
    }
}

/// A violation of linearity: where it was found, which rule is broken, and
/// the variable concerned (no name where two whole tables disagree).
#[derive(Debug)]
pub struct LinearityError {
    pub span: Span,
    pub kind: LinearityErrorKind,
    pub name: Identifier,
}

/// A violation of linearity as a plain value.
pub struct LinearityErrorModel {
    pub span: Span,
    pub kind: LinearityErrorKind,
    pub name: Seq<char>,
}

impl View for LinearityError {
    type V = LinearityErrorModel;

    open spec fn view(&self) -> LinearityErrorModel {
        LinearityErrorModel { span: self.span, kind: self.kind, name: self.name@ }
    }
}

/// How control leaves a statement: it goes on with the variables in some
/// state, or it has returned from the function.
pub enum Flow {
    Continues(Seq<EntryModel>),
    Returned,
}

/// The span given to a statement that carries none.
pub open spec fn no_span() -> Span {
    Span {
        context: SpanContext { path: None },
        range: Range {
            start: SpanLocation { line: 1, column: 1 },
            end: SpanLocation { line: 1, column: 1 },
        },
    }
}

/// The depth of a loop's body: one more than the loop's, as far as `i32` goes.
pub open spec fn deeper(depth: int) -> int {
    if depth < i32::MAX {
        depth + 1
    } else {
        depth
    }
}

/// What the expression `e` does to the variable at index `i`: nothing if the
/// entry is hidden by a later one of its name; otherwise the entry moves to
/// the state that `transition` gives, or the rule it names is broken.
pub open spec fn check_var(t: Seq<EntryModel>, i: int, e: TExpr) -> Result<
    Seq<EntryModel>,
    (LinearityErrorKind, Seq<char>),
> {
    if visible(t, i) {
        match transition(t[i].state, count_in(t[i].name, e)) {
            Ok(state) => Ok(t.update(i, t[i].in_state(state))),
            Err(kind) => Err((kind, t[i].name)),
        }
    } else {
        Ok(t)
    }
}

/// What the expression `e` does to the variables from index `i` on, taken in
/// order: the first broken rule, or the table after all of them.
pub open spec fn check_expr_from(t: Seq<EntryModel>, e: TExpr, i: int) -> Result<
    Seq<EntryModel>,
    (LinearityErrorKind, Seq<char>),
>
    decreases t.len() - i,
{
    if i < 0 || i >= t.len() {
        Ok(t)
    } else {
        match check_var(t, i, e) {
            Ok(next) => check_expr_from(next, e, i + 1),
            Err(fault) => Err(fault),
        }
    }
}

/// What the expression `e` does to the table.
pub open spec fn check_expr(t: Seq<EntryModel>, e: TExpr) -> Result<
    Seq<EntryModel>,
    (LinearityErrorKind, Seq<char>),
> {
    check_expr_from(t, e, 0)
}

/// An expression statement: the table after the expression, or its fault at
/// the statement's span.
pub open spec fn eval(
    t: Seq<EntryModel>,
    e: TExpr,
    span: Span,
) -> Result<Flow, LinearityErrorModel> {
    match check_expr(t, e) {
        Ok(next) => Ok(Flow::Continues(next)),
        Err(fault) => Err(LinearityErrorModel { span, kind: fault.0, name: fault.1 }),
    }
}

/// The table with the linear ones among the first `n` bindings added, in
/// order, each unconsumed.
pub open spec fn push_bindings(
    t: Seq<EntryModel>,
    bindings: Vec<TypedBinding>,
    n: nat,
    depth: int,
) -> Seq<
    EntryModel,
>
    decreases n,
{
    if n == 0 || n > bindings.len() {
        t
    } else {
        let prev = push_bindings(t, bindings, (n - 1) as nat, depth);
        let b = bindings[n - 1];
        if linear(b.ty@) {
            prev.push(EntryModel { name: b.rename@, depth, state: VarState::Unconsumed })
        } else {
            prev
        }
    }
}

/// The end of a scope whose variables are the entries from `base` on: where
/// control goes on, each of them must be consumed, and they leave the table.
pub open spec fn close_scope(r: Result<Flow, LinearityErrorModel>, base: int, span: Span) -> Result<
    Flow,
    LinearityErrorModel,
> {
    match r {
        Ok(Flow::Continues(t)) => match first_unconsumed(t, base) {
            Some(i) => Err(
                LinearityErrorModel {
                    span,
                    kind: LinearityErrorKind::UnconsumedOnReturn,
                    name: t[i].name,
                },
            ),
            None => Ok(Flow::Continues(t.take(base))),
        },
        _ => r,
    }
}

/// Where two branches meet. A branch that has returned does not arrive; two
/// that arrive must bring the same table.
pub open spec fn join(a: Flow, b: Flow, span: Span) -> Result<Flow, LinearityErrorModel> {
    match (a, b) {
        (Flow::Returned, _) => Ok(b),
        (_, Flow::Returned) => Ok(a),
        (Flow::Continues(ta), Flow::Continues(tb)) => if ta == tb {
            Ok(a)
        } else {
            Err(
                LinearityErrorModel {
                    span,
                    kind: LinearityErrorKind::BranchStateMismatch,
                    name: Seq::empty(),
                },
            )
        },
    }
}

/// A loop whose body was walked from `pre`: the body must leave the table as
/// it found it, unless it returns; after the loop the table is `pre`.
pub open spec fn stable(
    pre: Seq<EntryModel>,
    body: Result<Flow, LinearityErrorModel>,
    span: Span,
) -> Result<
    Flow,
    LinearityErrorModel,
> {
    match body {
        Err(e) => Err(e),
        Ok(Flow::Returned) => Ok(Flow::Continues(pre)),
        Ok(Flow::Continues(t)) => if t == pre {
            Ok(Flow::Continues(pre))
        } else {
            Err(
                LinearityErrorModel {
                    span,
                    kind: LinearityErrorKind::LoopStateMismatch,
                    name: Seq::empty(),
                },
            )
        },
    }
}

/// The state of a variable while a borrow statement of the given kind holds it.
pub open spec fn borrowed(mode: BorrowStmtKind) -> VarState {
    match mode {
        BorrowStmtKind::Read => VarState::BorrowedRead,
        _ => VarState::BorrowedWrite,
    }
}

/// The table inside a borrow statement: the reference is a variable of its
/// own when its type is linear.
pub open spec fn with_reference(
    t: Seq<EntryModel>,
    rename: Seq<char>,
    ref_type: Ty,
    depth: int,
) -> Seq<
    EntryModel,
> {
    if linear(ref_type@) {
        t.push(EntryModel { name: rename, depth, state: VarState::Unconsumed })
    } else {
        t
    }
}

/// The end of a borrow of the variable at `i`: it is unconsumed again.
pub open spec fn release(r: Result<Flow, LinearityErrorModel>, i: int) -> Result<
    Flow,
    LinearityErrorModel,
> {
    match r {
        Ok(Flow::Continues(t)) => Ok(
            Flow::Continues(t.update(i, t[i].in_state(VarState::Unconsumed))),
        ),
        _ => r,
    }
}

/// Walks the statement `s` from the table `t` at loop depth `depth`: how
/// control leaves the statement, or the first violation.
pub open spec fn walk(t: Seq<EntryModel>, s: TStmt, depth: int) -> Result<Flow, LinearityErrorModel>
    decreases s, 0nat,
{
    match s {
        TStmt::TSkip(_) => Ok(Flow::Continues(t)),
        TStmt::TLet(span, name, e, _, ty, body) => match check_expr(t, *e) {
            Err(fault) => Err(LinearityErrorModel { span, kind: fault.0, name: fault.1 }),
            Ok(t1) => if linear(ty@) {
                close_scope(
                    walk(
                        t1.push(EntryModel { name: name@, depth, state: VarState::Unconsumed }),
                        *body,
                        depth,
                    ),
                    t1.len() as int,
                    span,
                )
            } else {
                walk(t1, *body, depth)
            },
        },
        TStmt::TDestructure(span, _, bindings, e, body) => match check_expr(t, *e) {
            Err(fault) => Err(LinearityErrorModel { span, kind: fault.0, name: fault.1 }),
            Ok(t1) => close_scope(
                walk(push_bindings(t1, bindings, bindings.len() as nat, depth), *body, depth),
                t1.len() as int,
                span,
            ),
        },
        TStmt::TAssign(span, target, value) => match check_expr(t, *target) {
            Err(fault) => Err(LinearityErrorModel { span, kind: fault.0, name: fault.1 }),
            Ok(t1) => eval(t1, *value, span),
        },
        TStmt::TAssignVar(span, _, e) => eval(t, *e, span),
        TStmt::TDiscarding(span, e) => eval(t, *e, span),
        TStmt::TInitialAssign(_, e) => eval(t, *e, no_span()),
        TStmt::TLetTmp(_, _, e) => eval(t, *e, no_span()),
        TStmt::TAssignTmp(_, e) => eval(t, *e, no_span()),
        TStmt::TIf(span, c, a, b) => match check_expr(t, *c) {
            Err(fault) => Err(LinearityErrorModel { span, kind: fault.0, name: fault.1 }),
            Ok(t1) => match walk(t1, *a, depth) {
                Err(e) => Err(e),
                Ok(fa) => match walk(t1, *b, depth) {
                    Err(e) => Err(e),
                    Ok(fb) => join(fa, fb, span),
                },
            },
        },
        TStmt::TCase(span, e, whens, _) => match check_expr(t, *e) {
            Err(fault) => Err(LinearityErrorModel { span, kind: fault.0, name: fault.1 }),
            Ok(t1) => if whens.len() == 0 {
                Ok(Flow::Continues(t1))
            } else {
                walk_whens(t1, whens, 0, Flow::Returned, depth, span)
            },
        },
        TStmt::TWhile(span, c, body) => match check_expr(t, *c) {
            Err(fault) => Err(LinearityErrorModel { span, kind: fault.0, name: fault.1 }),
            Ok(t1) => if t1 == t {
                stable(t, walk(t, *body, deeper(depth)), span)
            } else {
                Err(
                    LinearityErrorModel {
                        span,
                        kind: LinearityErrorKind::LoopStateMismatch,
                        name: Seq::empty(),
                    },
                )
            },
        },
        TStmt::TFor(span, _, from, to, body) => match check_expr(t, *from) {
            Err(fault) => Err(LinearityErrorModel { span, kind: fault.0, name: fault.1 }),
            Ok(t1) => match check_expr(t1, *to) {
                Err(fault) => Err(LinearityErrorModel { span, kind: fault.0, name: fault.1 }),
                Ok(t2) => stable(t2, walk(t2, *body, deeper(depth)), span),
            },
        },
        TStmt::TBorrow { span, original, rename, region, orig_type, ref_type, body, mode } => {
            match lookup(t, original@) {
                None => close_scope(
                    walk(with_reference(t, rename@, ref_type, depth), *body, depth),
                    t.len() as int,
                    span,
                ),
                Some(i) => match t[i].state {
                    VarState::Unconsumed => release(
                        close_scope(
                            walk(
                                with_reference(
                                    t.update(i, t[i].in_state(borrowed(mode))),
                                    rename@,
                                    ref_type,
                                    depth,
                                ),
                                *body,
                                depth,
                            ),
                            t.len() as int,
                            span,
                        ),
                        i,
                    ),
                    VarState::Consumed => Err(
                        LinearityErrorModel {
                            span,
                            kind: LinearityErrorKind::UseAfterConsume,
                            name: original@,
                        },
                    ),
                    _ => Err(
                        LinearityErrorModel {
                            span,
                            kind: LinearityErrorKind::BorrowConflict,
                            name: original@,
                        },
                    ),
                },
            }
        },
        TStmt::TBlock(_, a, b) => match walk(t, *a, depth) {
            Err(e) => Err(e),
            Ok(Flow::Returned) => Ok(Flow::Returned),
            Ok(Flow::Continues(t1)) => walk(t1, *b, depth),
        },
        TStmt::TReturn(span, e) => match check_expr(t, *e) {
            Err(fault) => Err(LinearityErrorModel { span, kind: fault.0, name: fault.1 }),
            Ok(t1) => match first_unconsumed(t1, 0) {
                Some(i) => Err(
                    LinearityErrorModel {
                        span,
                        kind: LinearityErrorKind::UnconsumedOnReturn,
                        name: t1[i].name,
                    },
                ),
                None => Ok(Flow::Returned),
            },
        },
    }
}

/// Walks the `when` clauses from index `k` on, each from the table `t`, and
/// joins what they leave with `acc`, which the earlier clauses left.
pub open spec fn walk_whens(
    t: Seq<EntryModel>,
    whens: Vec<TypedWhen>,
    k: nat,
    acc: Flow,
    depth: int,
    span: Span,
) -> Result<Flow, LinearityErrorModel>
    decreases whens, whens.len() - k,
{
    if k >= whens.len() {
        Ok(acc)
    } else {
        let when = whens[k as int];
        match close_scope(
            walk(push_bindings(t, when.1, when.1.len() as nat, depth), *when.2, depth),
            t.len() as int,
            span,
        ) {
            Err(e) => Err(e),
            Ok(flow) => match join(acc, flow, span) {
                Err(e) => Err(e),
                Ok(joined) => walk_whens(t, whens, k + 1, joined, depth, span),
            },
        }
    }
}

/// Two tables hold the same variables, declared at the same depths, in the
/// same order; only the states may differ.
pub open spec fn same_vars(a: Seq<EntryModel>, b: Seq<EntryModel>) -> bool {
    &&& a.len() == b.len()
    &&& forall|i: int|
        0 <= i < a.len() ==> (#[trigger] a[i]).name == b[i].name && a[i].depth == b[i].depth
}

/// Which entry a name refers to depends on the names alone.
pub proof fn lemma_lookup_same_vars(a: Seq<EntryModel>, b: Seq<EntryModel>, name: Seq<char>)
    requires
        same_vars(a, b),
    ensures
        lookup(a, name) == lookup(b, name),
    decreases a.len(),
{
    if a.len() > 0 {
        assert(a.last().name == b.last().name);
        if a.last().name != name {
            let ra = a.drop_last();
            let rb = b.drop_last();
            assert forall|i: int| 0 <= i < ra.len() implies (#[trigger] ra[i]).name == rb[i].name
                && ra[i].depth == rb[i].depth by {
                assert(a[i].name == b[i].name);
            }
            lemma_lookup_same_vars(ra, rb, name);
        }
    }
}

/// An expression changes states only: the variables stay.
pub proof fn lemma_check_expr_keeps_vars(t: Seq<EntryModel>, e: TExpr, i: int)
    requires
        0 <= i,
    ensures
        check_expr_from(t, e, i) is Ok ==> same_vars(t, check_expr_from(t, e, i)->Ok_0),
    decreases t.len() - i,
{
    if i < t.len() {
        match check_var(t, i, e) {
            Ok(next) => {
                assert(same_vars(t, next));
                lemma_check_expr_keeps_vars(next, e, i + 1);
                if check_expr_from(next, e, i + 1) is Ok {
                    lemma_same_vars_trans(t, next, check_expr_from(next, e, i + 1)->Ok_0);
                }
            },
            Err(_) => {},
        }
    }
}

/// Tables that hold the same variables as a third hold the same variables as
/// each other.
pub proof fn lemma_same_vars_trans(a: Seq<EntryModel>, b: Seq<EntryModel>, c: Seq<EntryModel>)
    requires
        same_vars(a, b),
        same_vars(b, c),
    ensures
        same_vars(a, c),
{
    assert forall|i: int| 0 <= i < a.len() implies (#[trigger] a[i]).name == c[i].name && a[i].depth
        == c[i].depth by {
        assert(a[i].name == b[i].name);
        assert(b[i].name == c[i].name);
    }
}

/// Two tables with the same variables still have the same variables when
/// both are cut to the same length.
pub proof fn lemma_same_vars_take(a: Seq<EntryModel>, b: Seq<EntryModel>, base: int)
    requires
        same_vars(a, b),
        0 <= base <= a.len(),
    ensures
        same_vars(a.take(base), b.take(base)),
{
    let x = a.take(base);
    let y = b.take(base);
    assert forall|i: int| 0 <= i < x.len() implies (#[trigger] x[i]).name == y[i].name && x[i].depth
        == y[i].depth by {
        assert(a[i].name == b[i].name);
    }
}

/// Bindings are added after the entries that were there.
pub proof fn lemma_push_bindings(
    t: Seq<EntryModel>,
    bindings: Vec<TypedBinding>,
    n: nat,
    depth: int,
)
    ensures
        push_bindings(t, bindings, n, depth).len() >= t.len(),
        push_bindings(t, bindings, n, depth).take(t.len() as int) == t,
    decreases n,
{
    if n == 0 || n > bindings.len() {
        assert(t.take(t.len() as int) =~= t);
    } else {
        lemma_push_bindings(t, bindings, (n - 1) as nat, depth);
        let prev = push_bindings(t, bindings, (n - 1) as nat, depth);
        assert(push_bindings(t, bindings, n, depth).take(t.len() as int) =~= prev.take(
            t.len() as int,
        ));
    }
}

/// The end of a scope leaves the variables that were there before it.
pub proof fn lemma_close_scope_keeps_vars(
    t: Seq<EntryModel>,
    inner: Seq<EntryModel>,
    r: Result<Flow, LinearityErrorModel>,
    span: Span,
)
    requires
        inner.len() >= t.len(),
        inner.take(t.len() as int) == t,
        r matches Ok(Flow::Continues(t2)) ==> same_vars(inner, t2),
    ensures
        close_scope(r, t.len() as int, span) matches Ok(Flow::Continues(t3)) ==> same_vars(t, t3),
{
    if let Ok(Flow::Continues(t2)) = r {
        lemma_same_vars_take(inner, t2, t.len() as int);
    }
}

/// A statement changes states only: where control goes on after it, the
/// table holds the variables it held before, in the same order.
pub proof fn lemma_walk_keeps_vars(t: Seq<EntryModel>, s: TStmt, depth: int)
    ensures
        walk(t, s, depth) matches Ok(Flow::Continues(t2)) ==> same_vars(t, t2),
    decreases s, 0nat,
{
    match s {
        TStmt::TSkip(_) => {},
        TStmt::TLet(span, name, e, _, ty, body) => {
            lemma_check_expr_keeps_vars(t, *e, 0);
            if let Ok(t1) = check_expr(t, *e) {
                if linear(ty@) {
                    let inner = t1.push(
                        EntryModel { name: name@, depth, state: VarState::Unconsumed },
                    );
                    assert(inner.take(t1.len() as int) =~= t1);
                    lemma_walk_keeps_vars(inner, *body, depth);
                    lemma_close_scope_keeps_vars(t1, inner, walk(inner, *body, depth), span);
                } else {
                    lemma_walk_keeps_vars(t1, *body, depth);
                }
                if let Ok(Flow::Continues(t3)) = walk(t, s, depth) {
                    lemma_same_vars_trans(t, t1, t3);
                }
            }
        },
        TStmt::TDestructure(span, _, bindings, e, body) => {
            lemma_check_expr_keeps_vars(t, *e, 0);
            if let Ok(t1) = check_expr(t, *e) {
                let inner = push_bindings(t1, bindings, bindings.len() as nat, depth);
                lemma_push_bindings(t1, bindings, bindings.len() as nat, depth);
                lemma_walk_keeps_vars(inner, *body, depth);
                lemma_close_scope_keeps_vars(t1, inner, walk(inner, *body, depth), span);
                if let Ok(Flow::Continues(t3)) = walk(t, s, depth) {
                    lemma_same_vars_trans(t, t1, t3);
                }
            }
        },
        TStmt::TAssign(span, target, value) => {
            lemma_check_expr_keeps_vars(t, *target, 0);
            if let Ok(t1) = check_expr(t, *target) {
                lemma_check_expr_keeps_vars(t1, *value, 0);
                if let Ok(t2) = check_expr(t1, *value) {
                    lemma_same_vars_trans(t, t1, t2);
                }
            }
        },
        TStmt::TAssignVar(_, _, e) => {
            lemma_check_expr_keeps_vars(t, *e, 0);
        },
        TStmt::TDiscarding(_, e) => {
            lemma_check_expr_keeps_vars(t, *e, 0);
        },
        TStmt::TInitialAssign(_, e) => {
            lemma_check_expr_keeps_vars(t, *e, 0);
        },
        TStmt::TLetTmp(_, _, e) => {
            lemma_check_expr_keeps_vars(t, *e, 0);
        },
        TStmt::TAssignTmp(_, e) => {
            lemma_check_expr_keeps_vars(t, *e, 0);
        },
        TStmt::TIf(span, c, a, b) => {
            lemma_check_expr_keeps_vars(t, *c, 0);
            if let Ok(t1) = check_expr(t, *c) {
                lemma_walk_keeps_vars(t1, *a, depth);
                lemma_walk_keeps_vars(t1, *b, depth);
                if let Ok(Flow::Continues(t3)) = walk(t, s, depth) {
                    lemma_same_vars_trans(t, t1, t3);
                }
            }
        },
        TStmt::TCase(span, e, whens, _) => {
            lemma_check_expr_keeps_vars(t, *e, 0);
            if let Ok(t1) = check_expr(t, *e) {
                if whens.len() > 0 {
                    lemma_walk_whens_keeps_vars(t1, whens, 0, Flow::Returned, depth, span);
                }
                if let Ok(Flow::Continues(t3)) = walk(t, s, depth) {
                    lemma_same_vars_trans(t, t1, t3);
                }
            }
        },
        TStmt::TWhile(_, _, _) => {},
        TStmt::TFor(span, _, from, to, body) => {
            lemma_check_expr_keeps_vars(t, *from, 0);
            if let Ok(t1) = check_expr(t, *from) {
                lemma_check_expr_keeps_vars(t1, *to, 0);
                if let Ok(t2) = check_expr(t1, *to) {
                    lemma_same_vars_trans(t, t1, t2);
                }
            }
        },
        TStmt::TBorrow { span, original, rename, region, orig_type, ref_type, body, mode } => {
            match lookup(t, original@) {
                None => {
                    let inner = with_reference(t, rename@, ref_type, depth);
                    assert(inner.take(t.len() as int) =~= t);
                    lemma_walk_keeps_vars(inner, *body, depth);
                    lemma_close_scope_keeps_vars(t, inner, walk(inner, *body, depth), span);
                },
                Some(i) => {
                    lemma_lookup(t, original@);
                    let held = t.update(i, t[i].in_state(borrowed(mode)));
                    let inner = with_reference(held, rename@, ref_type, depth);
                    assert(inner.take(held.len() as int) =~= held);
                    lemma_walk_keeps_vars(inner, *body, depth);
                    lemma_close_scope_keeps_vars(held, inner, walk(inner, *body, depth), span);
                    assert(same_vars(t, held));
                    if let Ok(Flow::Continues(t3)) = close_scope(
                        walk(inner, *body, depth),
                        t.len() as int,
                        span,
                    ) {
                        let t4 = t3.update(i, t3[i].in_state(VarState::Unconsumed));
                        assert(same_vars(t3, t4));
                        lemma_same_vars_trans(t, held, t3);
                        lemma_same_vars_trans(t, t3, t4);
                    }
                },
            }
        },
        TStmt::TBlock(_, a, b) => {
            lemma_walk_keeps_vars(t, *a, depth);
            if let Ok(Flow::Continues(t1)) = walk(t, *a, depth) {
                lemma_walk_keeps_vars(t1, *b, depth);
                if let Ok(Flow::Continues(t2)) = walk(t1, *b, depth) {
                    lemma_same_vars_trans(t, t1, t2);
                }
            }
        },
        TStmt::TReturn(_, _) => {},
    }
}

/// The same of a run of `when` clauses, given that it holds of what the
/// earlier clauses left.
pub proof fn lemma_walk_whens_keeps_vars(
    t: Seq<EntryModel>,
    whens: Vec<TypedWhen>,
    k: nat,
    acc: Flow,
    depth: int,
    span: Span,
)
    requires
        acc matches Flow::Continues(ta) ==> same_vars(t, ta),
    ensures
        walk_whens(t, whens, k, acc, depth, span) matches Ok(Flow::Continues(t2)) ==> same_vars(
            t,
            t2,
        ),
    decreases whens, whens.len() - k,
{
    if k < whens.len() {
        let when = whens[k as int];
        let inner = push_bindings(t, when.1, when.1.len() as nat, depth);
        lemma_push_bindings(t, when.1, when.1.len() as nat, depth);
        lemma_walk_keeps_vars(inner, *when.2, depth);
        lemma_close_scope_keeps_vars(t, inner, walk(inner, *when.2, depth), span);
        if let Ok(flow) = close_scope(walk(inner, *when.2, depth), t.len() as int, span) {
            if let Ok(joined) = join(acc, flow, span) {
                lemma_walk_whens_keeps_vars(t, whens, k + 1, joined, depth, span);
            }
        }
    }
}

/// Whether what the checker computed is what the rules say: the same table
/// where control goes on, a return where it returns, the same violation
/// where there is one.
pub open spec fn agrees(
    r: Result<Option<StateTable>, LinearityError>,
    w: Result<Flow, LinearityErrorModel>,
) -> bool {
    match (r, w) {
        (Ok(Some(t)), Ok(Flow::Continues(m))) => t@ == m,
        (Ok(None), Ok(Flow::Returned)) => true,
        (Err(e), Err(m)) => e@ == m,
        _ => false,
    }
}

fn deepen(depth: i32) -> (r: i32)
    ensures
        r == deeper(depth as int),
{
    if depth < i32::MAX {
        depth + 1
    } else {
        depth
    }
}

fn fault_at(span: &Span, fault: (LinearityErrorKind, Identifier)) -> (r: LinearityError)
    ensures
        r@ == (LinearityErrorModel { span: *span, kind: fault.0, name: fault.1@ }),
{
    LinearityError { span: span.clone(), kind: fault.0, name: fault.1 }
}

fn mismatch(span: &Span, kind: LinearityErrorKind) -> (r: LinearityError)
    ensures
        r@ == (LinearityErrorModel { span: *span, kind, name: Seq::empty() }),
{
    LinearityError { span: span.clone(), kind, name: Identifier(String::new()) }
}

/// Checks how one variable of the table is used in an expression, and moves
/// it to its next state. An entry hidden by a later one of its name is left
/// alone. On a fault the table is unchanged.
pub fn check_var_in_expr(table: &mut StateTable, index: usize, texpr: &TExpr) -> (r: Result<
    (),
    (LinearityErrorKind, Identifier),
>)
    requires
        index < old(table)@.len(),
    ensures
        match check_var(old(table)@, index as int, *texpr) {
            Ok(t) => r is Ok && final(table)@ == t,
            Err(fault) => {
                &&& r is Err
                &&& r->Err_0.0 == fault.0
                &&& r->Err_0.1@ == fault.1
                &&& final(table)@ == old(table)@
            },
        },
{
    let name = table.entries[index].name.clone();
    assert(name@ == table@[index as int].name);
    let shown = match table.index_of(&name) {
        Some(i) => i == index,
        None => false,
    };
    if !shown {
        return Ok(());
    }
    let state = table.entries[index].state;
    let apps = count(&name, texpr);
    proof {
        lemma_transition_clipped(state, apps, count_in(name@, *texpr));
    }
    match next_state(state, &apps) {
        Ok(next) => {
            table.set_state(index, next);
            Ok(())
        },
        Err(kind) => Err((kind, name)),
    }
}

/// Applies an expression to a table: the table after it, or the first fault.
fn apply_expression(table: StateTable, texpr: &TExpr) -> (r: Result<
    StateTable,
    (LinearityErrorKind, Identifier),
>)
    ensures
        match check_expr(table@, *texpr) {
            Ok(t) => r is Ok && r->Ok_0@ == t,
            Err(fault) => r is Err && r->Err_0.0 == fault.0 && r->Err_0.1@ == fault.1,
        },
{
    let mut current = table;
    let n = current.len();
    let mut i: usize = 0;
    while i < n
        invariant
            0 <= i <= n,
            n == current@.len(),
            check_expr(table@, *texpr) == check_expr_from(current@, *texpr, i as int),
        decreases n - i,
    {
        match check_var_in_expr(&mut current, i, texpr) {
            Ok(()) => {},
            Err(fault) => {
                return Err(fault);
            },
        }
        i = i + 1;
    }
    Ok(current)
}

/// Checks every variable of the table against an expression. The table is
/// changed only when the expression breaks no rule.
pub fn check_expression(state_table: &mut StateTable, depth: i32, texpr: &TExpr) -> (ok: bool)
    ensures
        ok == (check_expr(old(state_table)@, *texpr) is Ok),
        ok ==> final(state_table)@ == check_expr(old(state_table)@, *texpr)->Ok_0,
        !ok ==> final(state_table)@ == old(state_table)@,
{
    match apply_expression(state_table.clone(), texpr) {
        Ok(next) => {
            *state_table = next;
            true
        },
        Err(_) => false,
    }
}

fn end_scope(
    r: Result<Option<StateTable>, LinearityError>,
    base: usize,
    span: &Span,
    Ghost(w): Ghost<Result<Flow, LinearityErrorModel>>,
) -> (out: Result<Option<StateTable>, LinearityError>)
    requires
        agrees(r, w),
        w matches Ok(Flow::Continues(t)) ==> base <= t.len(),
    ensures
        agrees(out, close_scope(w, base as int, *span)),
{
    match r {
        Ok(Some(table)) => {
            let mut table = table;
            let n = table.len();
            let mut i: usize = base;
            while i < n
                invariant
                    base <= i <= n,
                    n == table@.len(),
                    w == Ok::<Flow, LinearityErrorModel>(Flow::Continues(table@)),
                    first_unconsumed(table@, base as int) == first_unconsumed(table@, i as int),
                decreases n - i,
            {
                if table.entries[i].state != VarState::Consumed {
                    let name = table.entries[i].name.clone();
                    return Err(
                        LinearityError {
                            span: span.clone(),
                            kind: LinearityErrorKind::UnconsumedOnReturn,
                            name,
                        },
                    );
                }
                i = i + 1;
            }
            table.truncate(base);
            Ok(Some(table))
        },
        other => other,
    }
}

fn join_flows(a: Option<StateTable>, b: Option<StateTable>, span: &Span) -> (out: Result<
    Option<StateTable>,
    LinearityError,
>)
    ensures
        agrees(out, join(flow_of(a), flow_of(b), *span)),
{
    match (a, b) {
        (None, b) => Ok(b),
        (a, None) => Ok(a),
        (Some(ta), Some(tb)) => {
            if ta.same(&tb) {
                Ok(Some(ta))
            } else {
                Err(mismatch(span, LinearityErrorKind::BranchStateMismatch))
            }
        },
    }
}

/// What an optional table stands for: control going on with it, or a return.
pub open spec fn flow_of(t: Option<StateTable>) -> Flow {
    match t {
        Some(table) => Flow::Continues(table@),
        None => Flow::Returned,
    }
}

fn settle(
    pre: StateTable,
    body: Result<Option<StateTable>, LinearityError>,
    span: &Span,
    Ghost(w): Ghost<Result<Flow, LinearityErrorModel>>,
) -> (out: Result<Option<StateTable>, LinearityError>)
    requires
        agrees(body, w),
    ensures
        agrees(out, stable(pre@, w, *span)),
{
    match body {
        Err(e) => Err(e),
        Ok(None) => Ok(Some(pre)),
        Ok(Some(t)) => {
            if t.same(&pre) {
                Ok(Some(pre))
            } else {
                Err(mismatch(span, LinearityErrorKind::LoopStateMismatch))
            }
        },
    }
}

fn add_bindings(table: &mut StateTable, bindings: &Vec<TypedBinding>, depth: i32)
    ensures
        final(table)@ == push_bindings(
            old(table)@,
            *bindings,
            bindings.len() as nat,
            depth as int,
        ),
{
    let mut i: usize = 0;
    while i < bindings.len()
        invariant
            0 <= i <= bindings.len(),
            table@ == push_bindings(old(table)@, *bindings, i as nat, depth as int),
        decreases bindings.len() - i,
    {
        if is_linear(&bindings[i].ty) {
            table.insert(bindings[i].rename.clone(), depth, VarState::Unconsumed);
        }
        i = i + 1;
    }
}

/// Walks a statement from a table: the table with which control goes on,
/// `None` where the statement returns, or the first violation.
pub fn walk_statement(table: StateTable, stmt: &TStmt, depth: i32) -> (r: Result<
    Option<StateTable>,
    LinearityError,
>)
    ensures
        agrees(r, walk(table@, *stmt, depth as int)),
    decreases stmt, 0nat,
{
    match stmt {
        TStmt::TSkip(_) => Ok(Some(table)),
        TStmt::TLet(span, name, e, _, ty, body) => {
            let t1 = match apply_expression(table, e) {
                Ok(t1) => t1,
                Err(fault) => {
                    return Err(fault_at(span, fault));
                },
            };
            if is_linear(ty) {
                let base = t1.len();
                let mut inner = t1;
                inner.insert(name.clone(), depth, VarState::Unconsumed);
                proof {
                    lemma_walk_keeps_vars(inner@, **body, depth as int);
                }
                let r = walk_statement(inner, body, depth);
                end_scope(r, base, span, Ghost(walk(inner@, **body, depth as int)))
            } else {
                walk_statement(t1, body, depth)
            }
        },
        TStmt::TDestructure(span, _, bindings, e, body) => {
            let t1 = match apply_expression(table, e) {
                Ok(t1) => t1,
                Err(fault) => {
                    return Err(fault_at(span, fault));
                },
            };
            let base = t1.len();
            let mut inner = t1;
            add_bindings(&mut inner, bindings, depth);
            proof {
                lemma_push_bindings(t1@, *bindings, bindings.len() as nat, depth as int);
                lemma_walk_keeps_vars(inner@, **body, depth as int);
            }
            let r = walk_statement(inner, body, depth);
            end_scope(r, base, span, Ghost(walk(inner@, **body, depth as int)))
        },
        TStmt::TAssign(span, target, value) => {
            let t1 = match apply_expression(table, target) {
                Ok(t1) => t1,
                Err(fault) => {
                    return Err(fault_at(span, fault));
                },
            };
            evaluate(t1, value, span)
        },
        TStmt::TAssignVar(span, _, e) => evaluate(table, e, span),
        TStmt::TDiscarding(span, e) => evaluate(table, e, span),
        TStmt::TInitialAssign(_, e) => evaluate(table, e, &Span::default()),
        TStmt::TLetTmp(_, _, e) => evaluate(table, e, &Span::default()),
        TStmt::TAssignTmp(_, e) => evaluate(table, e, &Span::default()),
        TStmt::TIf(span, c, a, b) => {
            let t1 = match apply_expression(table, c) {
                Ok(t1) => t1,
                Err(fault) => {
                    return Err(fault_at(span, fault));
                },
            };
            let other = t1.clone();
            let fa = walk_statement(t1, a, depth)?;
            let fb = walk_statement(other, b, depth)?;
            join_flows(fa, fb, span)
        },
        TStmt::TCase(span, e, whens, _) => {
            let t1 = match apply_expression(table, e) {
                Ok(t1) => t1,
                Err(fault) => {
                    return Err(fault_at(span, fault));
                },
            };
            if whens.len() == 0 {
                return Ok(Some(t1));
            }
            walk_cases(&t1, whens, depth, span)
        },
        TStmt::TWhile(span, c, body) => {
            let pre = table.clone();
            let t1 = match apply_expression(table, c) {
                Ok(t1) => t1,
                Err(fault) => {
                    return Err(fault_at(span, fault));
                },
            };
            if !t1.same(&pre) {
                return Err(mismatch(span, LinearityErrorKind::LoopStateMismatch));
            }
            let r = walk_statement(t1, body, deepen(depth));
            settle(pre, r, span, Ghost(walk(pre@, **body, deeper(depth as int))))
        },
        TStmt::TFor(span, _, from, to, body) => {
            let t1 = match apply_expression(table, from) {
                Ok(t1) => t1,
                Err(fault) => {
                    return Err(fault_at(span, fault));
                },
            };
            let t2 = match apply_expression(t1, to) {
                Ok(t2) => t2,
                Err(fault) => {
                    return Err(fault_at(span, fault));
                },
            };
            let pre = t2.clone();
            let r = walk_statement(t2, body, deepen(depth));
            settle(pre, r, span, Ghost(walk(pre@, **body, deeper(depth as int))))
        },
        TStmt::TBorrow { span, original, rename, region, orig_type, ref_type, body, mode } => {
            let base = table.len();
            let mut inner = table;
            let held = inner.index_of(original);
            match held {
                None => {},
                Some(i) => {
                    match inner.entries[i].state {
                        VarState::Unconsumed => {
                            let during = match mode {
                                BorrowStmtKind::Read => VarState::BorrowedRead,
                                _ => VarState::BorrowedWrite,
                            };
                            inner.set_state(i, during);
                        },
                        VarState::Consumed => {
                            return Err(
                                fault_at(
                                    span,
                                    (LinearityErrorKind::UseAfterConsume, original.clone()),
                                ),
                            );
                        },
                        _ => {
                            return Err(
                                fault_at(
                                    span,
                                    (LinearityErrorKind::BorrowConflict, original.clone()),
                                ),
                            );
                        },
                    }
                },
            }
            if is_linear(ref_type) {
                inner.insert(rename.clone(), depth, VarState::Unconsumed);
            }
            proof {
                lemma_walk_keeps_vars(inner@, **body, depth as int);
            }
            let r = walk_statement(inner, body, depth);
            let closed = end_scope(r, base, span, Ghost(walk(inner@, **body, depth as int)));
            match held {
                None => closed,
                Some(i) => match closed {
                    Ok(Some(after)) => {
                        let mut after = after;
                        proof {
                            lemma_lookup(table@, original@);
                        }
                        after.set_state(i, VarState::Unconsumed);
                        Ok(Some(after))
                    },
                    other => other,
                },
            }
        },
        TStmt::TBlock(_, a, b) => {
            match walk_statement(table, a, depth)? {
                None => Ok(None),
                Some(t1) => walk_statement(t1, b, depth),
            }
        },
        TStmt::TReturn(span, e) => {
            let t1 = match apply_expression(table, e) {
                Ok(t1) => t1,
                Err(fault) => {
                    return Err(fault_at(span, fault));
                },
            };
            let ghost w: Result<Flow, LinearityErrorModel> = Ok(Flow::Continues(t1@));
            match end_scope(Ok(Some(t1)), 0, span, Ghost(w)) {
                Err(e) => Err(e),
                Ok(_) => Ok(None),
            }
        },
    }
}

fn walk_cases(t1: &StateTable, whens: &Vec<TypedWhen>, depth: i32, span: &Span) -> (r: Result<
    Option<StateTable>,
    LinearityError,
>)
    ensures
        agrees(r, walk_whens(t1@, *whens, 0, Flow::Returned, depth as int, *span)),
    decreases whens, 0nat,
{
    let base = t1.len();
    let mut acc: Option<StateTable> = None;
    let mut k: usize = 0;
    while k < whens.len()
        invariant
            0 <= k <= whens.len(),
            base == t1@.len(),
            walk_whens(t1@, *whens, 0, Flow::Returned, depth as int, *span) == walk_whens(
                t1@,
                *whens,
                k as nat,
                flow_of(acc),
                depth as int,
                *span,
            ),
        decreases whens.len() - k,
    {
        let when = &whens[k];
        let mut inner = t1.clone();
        add_bindings(&mut inner, &when.1, depth);
        proof {
            lemma_push_bindings(t1@, when.1, when.1.len() as nat, depth as int);
            lemma_walk_keeps_vars(inner@, *when.2, depth as int);
        }
        let r = walk_statement(inner, &when.2, depth);
        let flow = end_scope(r, base, span, Ghost(walk(inner@, *when.2, depth as int)))?;
        acc = join_flows(acc, flow, span)?;
        k = k + 1;
    }
    Ok(acc)
}

fn evaluate(table: StateTable, texpr: &TExpr, span: &Span) -> (r: Result<
    Option<StateTable>,
    LinearityError,
>)
    ensures
        agrees(r, eval(table@, *texpr, *span)),
{
    match apply_expression(table, texpr) {
        Ok(next) => Ok(Some(next)),
        Err(fault) => Err(fault_at(span, fault)),
    }
}

/// A table with the same variables, each consumed.
pub open spec fn all_consumed(t: Seq<EntryModel>) -> Seq<EntryModel> {
    Seq::new(t.len(), |i: int| t[i].in_state(VarState::Consumed))
}

fn consume_all(table: &mut StateTable)
    ensures
        final(table)@ == all_consumed(old(table)@),
{
    let ghost start = table@;
    let mut i: usize = 0;
    while i < table.len()
        invariant
            0 <= i <= table@.len(),
            table@.len() == start.len(),
            forall|j: int| 0 <= j < i ==> table@[j] == start[j].in_state(VarState::Consumed),
            forall|j: int| i <= j < start.len() ==> table@[j] == start[j],
        decreases table@.len() - i,
    {
        table.set_state(i, VarState::Consumed);
        i = i + 1;
    }
    assert(table@ =~= all_consumed(start));
}

/// Walks a statement from the given table. The answer is whether the
/// statement breaks no rule. Where it breaks none and control goes on after
/// it, the table is then the table after the statement. Where it breaks
/// none and returns, the table then holds the same variables, each
/// consumed: a return is accepted only where no variable is left
/// unconsumed, and nothing follows it. Where the statement breaks a rule
/// the table is left as it was.
///
/// A `let` may declare a name that the table already holds. That is meant:
/// the new entry hides the old one until the scope of the `let` ends, and
/// the old entry is then the variable of that name again.
pub fn check_statement(state_table: &mut StateTable, stmt: &TStmt, depth: i32) -> (ok: bool)
    ensures
        ok == (walk(old(state_table)@, *stmt, depth as int) is Ok),
        match walk(old(state_table)@, *stmt, depth as int) {
            Ok(Flow::Continues(t)) => final(state_table)@ == t,
            Ok(Flow::Returned) => final(state_table)@ == all_consumed(old(state_table)@),
            Err(_) => final(state_table)@ == old(state_table)@,
        },
{
    match walk_statement(state_table.clone(), stmt, depth) {
        Ok(Some(next)) => {
            *state_table = next;
            true
        },
        Ok(None) => {
            consume_all(state_table);
            true
        },
        Err(_) => false,
    }
}

/// The table at the start of a function: the linear ones among the first
/// `n` parameters, in order, each unconsumed.
pub open spec fn param_table(params: Vec<ValueParameter>, n: nat) -> Seq<EntryModel>
    decreases n,
{
    if n == 0 || n > params.len() {
        Seq::empty()
    } else {
        let prev = param_table(params, (n - 1) as nat);
        let p = params[n - 1];
        if linear(p.ty@) {
            prev.push(EntryModel { name: p.name@, depth: 0, state: VarState::Unconsumed })
        } else {
            prev
        }
    }
}

/// A function is accepted when its body, walked from its linear parameters,
/// breaks no rule and, where control reaches the end of the body, has
/// consumed every parameter.
pub open spec fn check_function(params: Vec<ValueParameter>, body: TStmt) -> Result<
    (),
    LinearityErrorModel,
> {
    match close_scope(walk(param_table(params, params.len() as nat), body, 0), 0, no_span()) {
        Ok(_) => Ok(()),
        Err(e) => Err(e),
    }
}

/// Checks a function's typed body against the rules of linearity.
pub fn linearity_check(params: &Vec<ValueParameter>, body: &TStmt) -> (r: Result<
    (),
    LinearityError,
>)
    ensures
        match check_function(*params, *body) {
            Ok(_) => r is Ok,
            Err(m) => r is Err && r->Err_0@ == m,
        },
{
    let mut table = StateTable::new();
    let mut i: usize = 0;
    while i < params.len()
        invariant
            0 <= i <= params.len(),
            table@ == param_table(*params, i as nat),
        decreases params.len() - i,
    {
        if is_linear(&params[i].ty) {
            table.insert(params[i].name.clone(), 0, VarState::Unconsumed);
        }
        i = i + 1;
    }
    let ghost w = walk(table@, *body, 0);
    let r = walk_statement(table, body, 0);
    match end_scope(r, 0, &Span::default(), Ghost(w)) {
        Ok(_) => Ok(()),
        Err(e) => Err(e),
    }
}

/// What a diagnostic says of a violation of the given kind, after the
/// variable's name.
pub open spec fn message_tail(kind: LinearityErrorKind) -> Seq<char> {
    match kind {
        LinearityErrorKind::UseAfterConsume => " used after consume"@,
        LinearityErrorKind::MultipleConsumption => " used more than once in a single expression"@,
        LinearityErrorKind::UnconsumedOnReturn => " dropped without consumption"@,
        LinearityErrorKind::BorrowConflict => " conflicts with live write borrow"@,
        LinearityErrorKind::BranchStateMismatch => "branches leave linear values in different states"@,
        LinearityErrorKind::LoopStateMismatch => "loop body changes the state of a linear value"@,
    }
}

/// What a diagnostic says of a violation of the given kind, before the
/// variable's name.
pub open spec fn message_head(kind: LinearityErrorKind) -> Seq<char> {
    match kind {
        LinearityErrorKind::UnconsumedOnReturn => "linear value "@,
        LinearityErrorKind::BorrowConflict => "borrow alias of "@,
        _ => Seq::empty(),
    }
}

impl LinearityError {
    /// The short human message of the violation.
    pub fn message(&self) -> (r: String)
        ensures
            r@ == message_head(self.kind) + self.name@ + message_tail(self.kind),
    {
        let head = match self.kind {
            LinearityErrorKind::UnconsumedOnReturn => "linear value ",
            LinearityErrorKind::BorrowConflict => "borrow alias of ",
            _ => "",
        };
        let tail = match self.kind {
            LinearityErrorKind::UseAfterConsume => " used after consume",
            LinearityErrorKind::MultipleConsumption => " used more than once in a single expression",
            LinearityErrorKind::UnconsumedOnReturn => " dropped without consumption",
            LinearityErrorKind::BorrowConflict => " conflicts with live write borrow",
            LinearityErrorKind::BranchStateMismatch => "branches leave linear values in different states",
            LinearityErrorKind::LoopStateMismatch => "loop body changes the state of a linear value",
        };
        proof {
            reveal_strlit("");
            assert(""@ =~= Seq::<char>::empty());
        }
        let mut text = String::from_str(head);
        text.append(self.name.0.as_str());
        text.append(tail);
        text
    }
}

/// An expression leaves a borrowed variable borrowed.
pub proof fn lemma_check_expr_keeps_borrow(t: Seq<EntryModel>, e: TExpr, k: int, i: int)
    requires
        0 <= k,
        0 <= i < t.len(),
        t[i].state == VarState::BorrowedRead || t[i].state == VarState::BorrowedWrite,
    ensures
        check_expr_from(t, e, k) matches Ok(t2) ==> t2.len() == t.len() && t2[i].state
            == t[i].state,
    decreases t.len() - k,
{
    if k < t.len() {
        match check_var(t, k, e) {
            Ok(next) => {
                lemma_check_expr_keeps_borrow(next, e, k + 1, i);
            },
            Err(_) => {},
        }
    }
}

/// While a variable is borrowed, no statement changes its state: where
/// control goes on after the statement, the variable is borrowed as before.
pub proof fn lemma_walk_keeps_borrow(t: Seq<EntryModel>, s: TStmt, depth: int, i: int)
    requires
        0 <= i < t.len(),
        t[i].state == VarState::BorrowedRead || t[i].state == VarState::BorrowedWrite,
    ensures
        walk(t, s, depth) matches Ok(Flow::Continues(t2)) ==> t2.len() == t.len() && t2[i].state
            == t[i].state,
    decreases s, 0nat,
{
    lemma_walk_keeps_vars(t, s, depth);
    match s {
        TStmt::TSkip(_) => {},
        TStmt::TLet(span, name, e, _, ty, body) => {
            lemma_check_expr_keeps_borrow(t, *e, 0, i);
            if let Ok(t1) = check_expr(t, *e) {
                if linear(ty@) {
                    let inner = t1.push(
                        EntryModel { name: name@, depth, state: VarState::Unconsumed },
                    );
                    lemma_walk_keeps_borrow(inner, *body, depth, i);
                } else {
                    lemma_walk_keeps_borrow(t1, *body, depth, i);
                }
            }
        },
        TStmt::TDestructure(span, _, bindings, e, body) => {
            lemma_check_expr_keeps_borrow(t, *e, 0, i);
            if let Ok(t1) = check_expr(t, *e) {
                let inner = push_bindings(t1, bindings, bindings.len() as nat, depth);
                lemma_push_bindings(t1, bindings, bindings.len() as nat, depth);
                assert(inner.take(t1.len() as int)[i] == inner[i]);
                lemma_walk_keeps_borrow(inner, *body, depth, i);
            }
        },
        TStmt::TAssign(span, target, value) => {
            lemma_check_expr_keeps_borrow(t, *target, 0, i);
            if let Ok(t1) = check_expr(t, *target) {
                lemma_check_expr_keeps_borrow(t1, *value, 0, i);
            }
        },
        TStmt::TAssignVar(_, _, e) => {
            lemma_check_expr_keeps_borrow(t, *e, 0, i);
        },
        TStmt::TDiscarding(_, e) => {
            lemma_check_expr_keeps_borrow(t, *e, 0, i);
        },
        TStmt::TInitialAssign(_, e) => {
            lemma_check_expr_keeps_borrow(t, *e, 0, i);
        },
        TStmt::TLetTmp(_, _, e) => {
            lemma_check_expr_keeps_borrow(t, *e, 0, i);
        },
        TStmt::TAssignTmp(_, e) => {
            lemma_check_expr_keeps_borrow(t, *e, 0, i);
        },
        TStmt::TIf(span, c, a, b) => {
            lemma_check_expr_keeps_borrow(t, *c, 0, i);
            if let Ok(t1) = check_expr(t, *c) {
                lemma_walk_keeps_borrow(t1, *a, depth, i);
                lemma_walk_keeps_borrow(t1, *b, depth, i);
            }
        },
        TStmt::TCase(span, e, whens, _) => {
            lemma_check_expr_keeps_borrow(t, *e, 0, i);
            if let Ok(t1) = check_expr(t, *e) {
                if whens.len() > 0 {
                    lemma_walk_whens_keeps_borrow(t1, whens, 0, Flow::Returned, depth, span, i);
                }
            }
        },
        TStmt::TWhile(_, _, _) => {},
        TStmt::TFor(span, _, from, to, body) => {
            lemma_check_expr_keeps_borrow(t, *from, 0, i);
            if let Ok(t1) = check_expr(t, *from) {
                lemma_check_expr_keeps_borrow(t1, *to, 0, i);
            }
        },
        TStmt::TBorrow { span, original, rename, region, orig_type, ref_type, body, mode } => {
            match lookup(t, original@) {
                None => {
                    let inner = with_reference(t, rename@, ref_type, depth);
                    lemma_walk_keeps_borrow(inner, *body, depth, i);
                },
                Some(j) => {
                    lemma_lookup(t, original@);
                    let held = t.update(j, t[j].in_state(borrowed(mode)));
                    let inner = with_reference(held, rename@, ref_type, depth);
                    if t[j].state == VarState::Unconsumed {
                        lemma_walk_keeps_borrow(inner, *body, depth, i);
                    }
                },
            }
        },
        TStmt::TBlock(_, a, b) => {
            lemma_walk_keeps_borrow(t, *a, depth, i);
            if let Ok(Flow::Continues(t1)) = walk(t, *a, depth) {
                lemma_walk_keeps_borrow(t1, *b, depth, i);
            }
        },
        TStmt::TReturn(_, _) => {},
    }
}

/// The same of a run of `when` clauses, given that it holds of what the
/// earlier clauses left.
pub proof fn lemma_walk_whens_keeps_borrow(
    t: Seq<EntryModel>,
    whens: Vec<TypedWhen>,
    k: nat,
    acc: Flow,
    depth: int,
    span: Span,
    i: int,
)
    requires
        0 <= i < t.len(),
        t[i].state == VarState::BorrowedRead || t[i].state == VarState::BorrowedWrite,
        acc matches Flow::Continues(ta) ==> ta.len() == t.len() && ta[i].state == t[i].state,
    ensures
        walk_whens(t, whens, k, acc, depth, span) matches Ok(Flow::Continues(t2)) ==> t2.len()
            == t.len() && t2[i].state == t[i].state,
    decreases whens, whens.len() - k,
{
    if k < whens.len() {
        let when = whens[k as int];
        let inner = push_bindings(t, when.1, when.1.len() as nat, depth);
        lemma_push_bindings(t, when.1, when.1.len() as nat, depth);
        assert(inner.take(t.len() as int)[i] == inner[i]);
        lemma_walk_keeps_borrow(inner, *when.2, depth, i);
        lemma_walk_keeps_vars(inner, *when.2, depth);
        if let Ok(flow) = close_scope(walk(inner, *when.2, depth), t.len() as int, span) {
            if let Ok(joined) = join(acc, flow, span) {
                lemma_walk_whens_keeps_borrow(t, whens, k + 1, joined, depth, span, i);
            }
        }
    }
}

/// Borrow nesting. Take a borrow statement that the checker accepts and
/// after which control goes on, whose origin is a linear variable in scope.
/// Before the statement the variable is unconsumed. The body is walked from
/// a table in which it is borrowed, for reading or for writing as the
/// statement asks; every statement inside that leaves the body's table to a
/// successor leaves the variable borrowed in the same way; and after the
/// statement the variable is unconsumed again.
pub proof fn law_borrow_nesting(
    t: Seq<EntryModel>,
    s: TStmt,
    depth: int,
    i: int,
    inside: TStmt,
    at: Seq<EntryModel>,
    d: int,
)
    requires
        s is TBorrow,
        lookup(t, s->TBorrow_original@) == Some(i),
        walk(t, s, depth) is Ok,
        at.len() > i,
        at[i].state == borrowed(s->TBorrow_mode),
    ensures
        0 <= i < t.len(),
        t[i].state == VarState::Unconsumed,
        body_table(t, s, depth, i)[i].state == borrowed(s->TBorrow_mode),
        walk(at, inside, d) matches Ok(Flow::Continues(next)) ==> next[i].state == borrowed(
            s->TBorrow_mode,
        ),
        walk(t, s, depth) matches Ok(Flow::Continues(after)) ==> after[i].state
            == VarState::Unconsumed,
{
    lemma_lookup(t, s->TBorrow_original@);
    lemma_walk_keeps_borrow(at, inside, d, i);
    let held = t.update(i, t[i].in_state(borrowed(s->TBorrow_mode)));
    let inner = with_reference(held, s->TBorrow_rename@, s->TBorrow_ref_type, depth);
    lemma_walk_keeps_vars(inner, *s->TBorrow_body, depth);
}

/// The table from which the body of a borrow statement is walked, when the
/// origin is the variable at index `i`.
pub open spec fn body_table(t: Seq<EntryModel>, s: TStmt, depth: int, i: int) -> Seq<EntryModel>
    recommends
        s is TBorrow,
{
    with_reference(
        t.update(i, t[i].in_state(borrowed(s->TBorrow_mode))),
        s->TBorrow_rename@,
        s->TBorrow_ref_type,
        depth,
    )
}

/// Where both branches of an `if` return, the `if` is accepted and returns,
/// whatever state each branch left the variables in.
pub proof fn law_if_both_return(t: Seq<EntryModel>, s: TStmt, depth: int)
    requires
        s is TIf,
        check_expr(t, *s->TIf_1) is Ok,
        walk(check_expr(t, *s->TIf_1)->Ok_0, *s->TIf_2, depth) == Ok::<Flow, LinearityErrorModel>(
            Flow::Returned,
        ),
        walk(check_expr(t, *s->TIf_1)->Ok_0, *s->TIf_3, depth) == Ok::<Flow, LinearityErrorModel>(
            Flow::Returned,
        ),
    ensures
        walk(t, s, depth) == Ok::<Flow, LinearityErrorModel>(Flow::Returned),
{
}

/// The functions from index `k` on are accepted when each is; the first
/// that is not gives the violation.
pub open spec fn check_functions(
    functions: Vec<TypedFunction>,
    k: nat,
) -> Result<(), LinearityErrorModel>
    decreases functions.len() - k,
{
    if k >= functions.len() {
        Ok(())
    } else {
        match check_function(functions[k as int].params, functions[k as int].body) {
            Err(e) => Err(e),
            Ok(_) => check_functions(functions, k + 1),
        }
    }
}

/// The instances from index `k` on are accepted when every method of each
/// is; the first method that is not gives the violation.
pub open spec fn check_instances(
    instances: Vec<TypedInstance>,
    k: nat,
) -> Result<(), LinearityErrorModel>
    decreases instances.len() - k,
{
    if k >= instances.len() {
        Ok(())
    } else {
        match check_functions(instances[k as int].methods, 0) {
            Err(e) => Err(e),
            Ok(_) => check_instances(instances, k + 1),
        }
    }
}

/// A typed module is accepted when its functions are, then the methods of
/// its instances, then the bodies that its typeclasses give their methods.
pub open spec fn check_module(module: TypedModule) -> Result<(), LinearityErrorModel> {
    match check_functions(module.functions, 0) {
        Err(e) => Err(e),
        Ok(_) => match check_instances(module.instances, 0) {
            Err(e) => Err(e),
            Ok(_) => check_functions(module.defaults, 0),
        },
    }
}

fn linearity_check_functions(functions: &Vec<TypedFunction>) -> (r: Result<(), LinearityError>)
    ensures
        match check_functions(*functions, 0) {
            Ok(_) => r is Ok,
            Err(m) => r is Err && r->Err_0@ == m,
        },
{
    let mut k: usize = 0;
    while k < functions.len()
        invariant
            0 <= k <= functions.len(),
            check_functions(*functions, 0) == check_functions(*functions, k as nat),
        decreases functions.len() - k,
    {
        linearity_check(&functions[k].params, &functions[k].body)?;
        k = k + 1;
    }
    Ok(())
}

/// Checks a typed module against the rules of linearity: its functions,
/// the methods of its instances and the bodies that its typeclasses give
/// their methods, in that order.
pub fn linearity_check_module(module: &TypedModule) -> (r: Result<(), LinearityError>)
    ensures
        match check_module(*module) {
            Ok(_) => r is Ok,
            Err(m) => r is Err && r->Err_0@ == m,
        },
{
    linearity_check_functions(&module.functions)?;
    let mut k: usize = 0;
    while k < module.instances.len()
        invariant
            0 <= k <= module.instances.len(),
            check_functions(module.functions, 0) is Ok,
            check_instances(module.instances, 0) == check_instances(module.instances, k as nat),
        decreases module.instances.len() - k,
    {
        linearity_check_functions(&module.instances[k].methods)?;
        k = k + 1;
    }
    linearity_check_functions(&module.defaults)
}

} // verus!
