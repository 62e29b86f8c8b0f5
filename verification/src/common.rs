//! Small types shared by the typed tree, the type representation and the
//! linearity checker.

use vstd::prelude::*;

verus! {

/// Whether a variable can be assigned after it is bound: `var` binds a mutable
/// one, `let` an immutable one.
#[derive(Clone, Copy, Debug, PartialEq, Eq, Structural)]
pub enum Mutability {
    Immutable,
    Mutable,
}

/// How a borrow expression takes its variable: for reading or for writing.
#[derive(Clone, Copy, Debug, PartialEq, Eq, Structural)]
pub enum BorrowingMode {
    ReadBorrow,
    WriteBorrow,
}

/// The name of a variable, a slot, a function or a type.
#[derive(Debug, Eq, Hash)]
pub struct Identifier(pub String);

impl Clone for Identifier {
    fn clone(&self) -> (r: Self)
        ensures
            r == *self,
    {
        Identifier(self.0.clone())
    }
}

impl View for Identifier {
    type V = Seq<char>;

    open spec fn view(&self) -> Seq<char> {
        self.0@
    }
}

impl DeepView for Identifier {
    type V = Seq<char>;

    open spec fn deep_view(&self) -> Seq<char> {
        self.0@
    }
}

impl Identifier {
    /// The name that `s` spells.
    pub fn new(s: &str) -> (r: Self)
        ensures
            r@ == s@,
    {
        Identifier(s.to_owned())
    }

    /// Whether two identifiers spell the same name.
    pub fn same(&self, other: &Identifier) -> (r: bool)
        ensures
            r == (self@ == other@),
    {
        self.0 == other.0
    }
}

impl PartialEq for Identifier {
    fn eq(&self, other: &Identifier) -> (r: bool) {
        self.0 == other.0
    }
}

impl vstd::std_specs::cmp::PartialEqSpecImpl for Identifier {
    open spec fn obeys_eq_spec() -> bool {
        true
    }

    open spec fn eq_spec(&self, other: &Identifier) -> bool {
        self.0@ == other.0@
    }
}

/// The name of a module.
#[derive(Debug)]
pub struct ModuleName(pub String);

impl Clone for ModuleName {
    fn clone(&self) -> (r: Self)
        ensures
            r == *self,
    {
        ModuleName(self.0.clone())
    }
}

impl View for ModuleName {
    type V = Seq<char>;

    open spec fn view(&self) -> Seq<char> {
        self.0@
    }
}

/// A name together with the module it was declared in and the name it goes by
/// where it is used.
#[derive(Debug)]
pub struct QIdent {
    pub source: ModuleName,
    pub original: Identifier,
    pub local: Identifier,
}

impl Clone for QIdent {
    fn clone(&self) -> (r: Self)
        ensures
            r == *self,
    {
        QIdent {
            source: self.source.clone(),
            original: self.original.clone(),
            local: self.local.clone(),
        }
    }
}

/// What a qualified name says, as plain sequences of characters.
pub struct QIdentView {
    pub source: Seq<char>,
    pub original: Seq<char>,
    pub local: Seq<char>,
}

impl View for QIdent {
    type V = QIdentView;

    open spec fn view(&self) -> QIdentView {
        QIdentView { source: self.source@, original: self.original@, local: self.local@ }
    }
}

impl QIdent {
    /// Whether two qualified names agree in all three parts.
    pub fn same(&self, other: &QIdent) -> (r: bool)
        ensures
            r == (self@ == other@),
    {
        self.source.0 == other.source.0 && self.original.0 == other.original.0 && self.local.0
            == other.local.0
    }
}

/// The number of a declaration.
#[derive(Clone, Copy, Debug, PartialEq, Eq, Structural)]
pub struct DeclId(pub i32);

/// The comparison operators.
#[derive(Clone, Copy, Debug, PartialEq, Eq, Structural)]
pub enum ComparisonOperator {
    Equal,
    NotEqual,
    LessThan,
    LessThanOrEqual,
    GreaterThan,
    GreaterThanOrEqual,
}

/// The arithmetic operators.
#[derive(Clone, Copy, Debug, PartialEq, Eq, Structural)]
pub enum ArithmeticOperator {
    Add,
    Subtract,
    Multiply,
    Divide,
}

impl DeepView for Mutability {
    type V = Mutability;

    open spec fn deep_view(&self) -> Mutability {
        *self
    }
}

impl DeepView for BorrowingMode {
    type V = BorrowingMode;

    open spec fn deep_view(&self) -> BorrowingMode {
        *self
    }
}

impl DeepView for DeclId {
    type V = DeclId;

    open spec fn deep_view(&self) -> DeclId {
        *self
    }
}

impl DeepView for ComparisonOperator {
    type V = ComparisonOperator;

    open spec fn deep_view(&self) -> ComparisonOperator {
        *self
    }
}

impl DeepView for ArithmeticOperator {
    type V = ArithmeticOperator;

    open spec fn deep_view(&self) -> ArithmeticOperator {
        *self
    }
}

impl DeepView for QIdent {
    type V = QIdentView;

    open spec fn deep_view(&self) -> QIdentView {
        self.view()
    }
}

impl DeepView for ModuleName {
    type V = Seq<char>;

    open spec fn deep_view(&self) -> Seq<char> {
        self.0@
    }
}

} // verus!
