//! What the type checker knows while it works: the declarations of the
//! module and of what it imports, and the variables and regions in scope.

use crate::common::{DeclId, Identifier, ModuleName, Mutability, QIdent, QIdentView};
use crate::stages::{TExpr, TExprView, TStmt, TStmtView, ValueParameter, ValueParameterView};
use crate::ty::{Region, Ty, TyView, Universe};
use vstd::prelude::*;

verus! {

/// How a variable came into scope.
#[derive(Clone, Copy, Debug, PartialEq, Eq, Structural)]
pub enum VariableKind {
    Parameter,
    Local,
}

impl DeepView for VariableKind {
    type V = VariableKind;

    open spec fn deep_view(&self) -> VariableKind {
        *self
    }
}

/// A variable in scope: its name, its type, whether it can be assigned to, and how it came into scope.
#[derive(Debug)]
pub struct Variable {
    pub name: Identifier,
    pub ty: Ty,
    pub mutability: Mutability,
    pub kind: VariableKind,
}

/// A value of `Variable` as plain data.
pub struct VariableView {
    pub name: Seq<char>,
    pub ty: TyView,
    pub mutability: Mutability,
    pub kind: VariableKind,
}

impl DeepView for Variable {
    type V = VariableView;

    open spec fn deep_view(&self) -> VariableView {
        VariableView {
            name: self.name.deep_view(),
            ty: self.ty.deep_view(),
            mutability: self.mutability.deep_view(),
            kind: self.kind.deep_view(),
        }
    }
}

/// A region in scope: the name a borrow statement gave it, and the region.
#[derive(Debug)]
pub struct RegionName {
    pub name: Identifier,
    pub region: Region,
}

/// A value of `RegionName` as plain data.
pub struct RegionNameView {
    pub name: Seq<char>,
    pub region: Region,
}

impl DeepView for RegionName {
    type V = RegionNameView;

    open spec fn deep_view(&self) -> RegionNameView {
        RegionNameView {
            name: self.name.deep_view(),
            region: self.region.deep_view(),
        }
    }
}

/// The scope inside a function: the names of types in scope, the first of a name hiding the others; the variables and regions in scope, innermost last; and the type the function returns. The number of a region is the count of the regions around it.
#[derive(Debug)]
pub struct Scope {
    pub types: Vec<TypeName>,
    pub variables: Vec<Variable>,
    pub regions: Vec<RegionName>,
    pub ret: Ty,
}

/// A value of `Scope` as plain data.
pub struct ScopeView {
    pub types: Seq<TypeNameView>,
    pub variables: Seq<VariableView>,
    pub regions: Seq<RegionNameView>,
    pub ret: TyView,
}

impl DeepView for Scope {
    type V = ScopeView;

    open spec fn deep_view(&self) -> ScopeView {
        ScopeView {
            types: self.types.deep_view(),
            variables: self.variables.deep_view(),
            regions: self.regions.deep_view(),
            ret: self.ret.deep_view(),
        }
    }
}

/// A type that goes by a name: the name and the type it stands for.
#[derive(Debug)]
pub struct TypeName {
    pub name: Identifier,
    pub ty: Ty,
}

/// A value of `TypeName` as plain data.
pub struct TypeNameView {
    pub name: Seq<char>,
    pub ty: TyView,
}

impl DeepView for TypeName {
    type V = TypeNameView;

    open spec fn deep_view(&self) -> TypeNameView {
        TypeNameView {
            name: self.name.deep_view(),
            ty: self.ty.deep_view(),
        }
    }
}

/// A record: its name, the type of its values and its slots.
#[derive(Debug)]
pub struct RecordInfo {
    pub name: Identifier,
    pub ty: Ty,
    pub slots: Vec<ValueParameter>,
}

/// A value of `RecordInfo` as plain data.
pub struct RecordInfoView {
    pub name: Seq<char>,
    pub ty: TyView,
    pub slots: Seq<ValueParameterView>,
}

impl DeepView for RecordInfo {
    type V = RecordInfoView;

    open spec fn deep_view(&self) -> RecordInfoView {
        RecordInfoView {
            name: self.name.deep_view(),
            ty: self.ty.deep_view(),
            slots: self.slots.deep_view(),
        }
    }
}

/// A case of a union: its name and its slots.
#[derive(Debug)]
pub struct CaseInfo {
    pub name: Identifier,
    pub slots: Vec<ValueParameter>,
}

/// A value of `CaseInfo` as plain data.
pub struct CaseInfoView {
    pub name: Seq<char>,
    pub slots: Seq<ValueParameterView>,
}

impl DeepView for CaseInfo {
    type V = CaseInfoView;

    open spec fn deep_view(&self) -> CaseInfoView {
        CaseInfoView {
            name: self.name.deep_view(),
            slots: self.slots.deep_view(),
        }
    }
}

/// A union: its name, the type of its values and its cases.
#[derive(Debug)]
pub struct UnionInfo {
    pub name: Identifier,
    pub ty: Ty,
    pub cases: Vec<CaseInfo>,
}

/// A value of `UnionInfo` as plain data.
pub struct UnionInfoView {
    pub name: Seq<char>,
    pub ty: TyView,
    pub cases: Seq<CaseInfoView>,
}

impl DeepView for UnionInfo {
    type V = UnionInfoView;

    open spec fn deep_view(&self) -> UnionInfoView {
        UnionInfoView {
            name: self.name.deep_view(),
            ty: self.ty.deep_view(),
            cases: self.cases.deep_view(),
        }
    }
}

/// A type parameter of a generic function: its name, the number of the type variable it stands for, and that variable as a type.
#[derive(Debug)]
pub struct TypeParameter {
    pub name: Identifier,
    pub id: u64,
    pub ty: Ty,
}

/// A value of `TypeParameter` as plain data.
pub struct TypeParameterView {
    pub name: Seq<char>,
    pub id: u64,
    pub ty: TyView,
}

impl DeepView for TypeParameter {
    type V = TypeParameterView;

    open spec fn deep_view(&self) -> TypeParameterView {
        TypeParameterView {
            name: self.name.deep_view(),
            id: self.id.deep_view(),
            ty: self.ty.deep_view(),
        }
    }
}

/// The signature of a function: its number, its name, its type parameters, its parameters and the type it returns. In the types of a generic function its type variables stand for the types of a call.
#[derive(Debug)]
pub struct FunctionSig {
    pub id: DeclId,
    pub name: QIdent,
    pub variables: Vec<TypeParameter>,
    pub params: Vec<ValueParameter>,
    pub ret: Ty,
}

/// A value of `FunctionSig` as plain data.
pub struct FunctionSigView {
    pub id: DeclId,
    pub name: QIdentView,
    pub variables: Seq<TypeParameterView>,
    pub params: Seq<ValueParameterView>,
    pub ret: TyView,
}

impl DeepView for FunctionSig {
    type V = FunctionSigView;

    open spec fn deep_view(&self) -> FunctionSigView {
        FunctionSigView {
            id: self.id.deep_view(),
            name: self.name.deep_view(),
            variables: self.variables.deep_view(),
            params: self.params.deep_view(),
            ret: self.ret.deep_view(),
        }
    }
}

/// A constant: its name and its type.
#[derive(Debug)]
pub struct ConstantInfo {
    pub name: QIdent,
    pub ty: Ty,
}

/// A value of `ConstantInfo` as plain data.
pub struct ConstantInfoView {
    pub name: QIdentView,
    pub ty: TyView,
}

impl DeepView for ConstantInfo {
    type V = ConstantInfoView;

    open spec fn deep_view(&self) -> ConstantInfoView {
        ConstantInfoView {
            name: self.name.deep_view(),
            ty: self.ty.deep_view(),
        }
    }
}

/// A method of a typeclass: the typeclass, the number and the universe of its type variable, and the name and the signature of the method, in which the type variable stands for the type of an instance.
#[derive(Debug)]
pub struct MethodInfo {
    pub typeclass: Identifier,
    pub variable: u64,
    pub universe: Universe,
    pub name: Identifier,
    pub params: Vec<ValueParameter>,
    pub ret: Ty,
}

/// A value of `MethodInfo` as plain data.
pub struct MethodInfoView {
    pub typeclass: Seq<char>,
    pub variable: u64,
    pub universe: Universe,
    pub name: Seq<char>,
    pub params: Seq<ValueParameterView>,
    pub ret: TyView,
}

impl DeepView for MethodInfo {
    type V = MethodInfoView;

    open spec fn deep_view(&self) -> MethodInfoView {
        MethodInfoView {
            typeclass: self.typeclass.deep_view(),
            variable: self.variable.deep_view(),
            universe: self.universe.deep_view(),
            name: self.name.deep_view(),
            params: self.params.deep_view(),
            ret: self.ret.deep_view(),
        }
    }
}

/// An instance of a typeclass: its number, the typeclass, and the type it is an instance for.
#[derive(Debug)]
pub struct InstanceInfo {
    pub id: DeclId,
    pub typeclass: Identifier,
    pub arg: Ty,
}

/// A value of `InstanceInfo` as plain data.
pub struct InstanceInfoView {
    pub id: DeclId,
    pub typeclass: Seq<char>,
    pub arg: TyView,
}

impl DeepView for InstanceInfo {
    type V = InstanceInfoView;

    open spec fn deep_view(&self) -> InstanceInfoView {
        InstanceInfoView {
            id: self.id.deep_view(),
            typeclass: self.typeclass.deep_view(),
            arg: self.arg.deep_view(),
        }
    }
}

/// The declarations in scope in a module: those of the module and those it imports.
#[derive(Debug)]
pub struct Env {
    pub module: ModuleName,
    pub types: Vec<TypeName>,
    pub records: Vec<RecordInfo>,
    pub unions: Vec<UnionInfo>,
    pub constants: Vec<ConstantInfo>,
    pub functions: Vec<FunctionSig>,
    pub methods: Vec<MethodInfo>,
    pub instances: Vec<InstanceInfo>,
}

/// A value of `Env` as plain data.
pub struct EnvView {
    pub module: Seq<char>,
    pub types: Seq<TypeNameView>,
    pub records: Seq<RecordInfoView>,
    pub unions: Seq<UnionInfoView>,
    pub constants: Seq<ConstantInfoView>,
    pub functions: Seq<FunctionSigView>,
    pub methods: Seq<MethodInfoView>,
    pub instances: Seq<InstanceInfoView>,
}

impl DeepView for Env {
    type V = EnvView;

    open spec fn deep_view(&self) -> EnvView {
        EnvView {
            module: self.module.deep_view(),
            types: self.types.deep_view(),
            records: self.records.deep_view(),
            unions: self.unions.deep_view(),
            constants: self.constants.deep_view(),
            functions: self.functions.deep_view(),
            methods: self.methods.deep_view(),
            instances: self.instances.deep_view(),
        }
    }
}

/// A function that has been type-checked: its name, its parameters, the type it returns and its typed body.
#[derive(Debug)]
pub struct TypedFunction {
    pub name: Identifier,
    pub params: Vec<ValueParameter>,
    pub ret: Ty,
    pub body: TStmt,
}

/// A value of `TypedFunction` as plain data.
pub struct TypedFunctionView {
    pub name: Seq<char>,
    pub params: Seq<ValueParameterView>,
    pub ret: TyView,
    pub body: TStmtView,
}

impl DeepView for TypedFunction {
    type V = TypedFunctionView;

    open spec fn deep_view(&self) -> TypedFunctionView {
        TypedFunctionView {
            name: self.name.deep_view(),
            params: self.params.deep_view(),
            ret: self.ret.deep_view(),
            body: self.body.deep_view(),
        }
    }
}

/// An entry of the export table: a symbol of the module and its type.
#[derive(Debug)]
pub struct Export {
    pub name: Identifier,
    pub ty: Ty,
}

/// A value of `Export` as plain data.
pub struct ExportView {
    pub name: Seq<char>,
    pub ty: TyView,
}

impl DeepView for Export {
    type V = ExportView;

    open spec fn deep_view(&self) -> ExportView {
        ExportView {
            name: self.name.deep_view(),
            ty: self.ty.deep_view(),
        }
    }
}

/// A constant that has been type-checked: its name, its type and its typed value.
#[derive(Debug)]
pub struct TypedConstant {
    pub name: Identifier,
    pub ty: Ty,
    pub value: TExpr,
}

/// A value of `TypedConstant` as plain data.
pub struct TypedConstantView {
    pub name: Seq<char>,
    pub ty: TyView,
    pub value: TExprView,
}

impl DeepView for TypedConstant {
    type V = TypedConstantView;

    open spec fn deep_view(&self) -> TypedConstantView {
        TypedConstantView {
            name: self.name.deep_view(),
            ty: self.ty.deep_view(),
            value: self.value.deep_view(),
        }
    }
}

/// An instance that has been type-checked: the typeclass, the type, and the typed methods.
#[derive(Debug)]
pub struct TypedInstance {
    pub typeclass: Identifier,
    pub arg: Ty,
    pub methods: Vec<TypedFunction>,
}

/// A value of `TypedInstance` as plain data.
pub struct TypedInstanceView {
    pub typeclass: Seq<char>,
    pub arg: TyView,
    pub methods: Seq<TypedFunctionView>,
}

impl DeepView for TypedInstance {
    type V = TypedInstanceView;

    open spec fn deep_view(&self) -> TypedInstanceView {
        TypedInstanceView {
            typeclass: self.typeclass.deep_view(),
            arg: self.arg.deep_view(),
            methods: self.methods.deep_view(),
        }
    }
}

/// A module that has been type-checked: its typed constants, functions and instances, the typed bodies that its typeclasses give their methods, and its export table.
#[derive(Debug)]
pub struct TypedModule {
    pub name: Identifier,
    pub constants: Vec<TypedConstant>,
    pub functions: Vec<TypedFunction>,
    pub instances: Vec<TypedInstance>,
    pub defaults: Vec<TypedFunction>,
    pub exports: Vec<Export>,
}

/// A value of `TypedModule` as plain data.
pub struct TypedModuleView {
    pub name: Seq<char>,
    pub constants: Seq<TypedConstantView>,
    pub functions: Seq<TypedFunctionView>,
    pub instances: Seq<TypedInstanceView>,
    pub defaults: Seq<TypedFunctionView>,
    pub exports: Seq<ExportView>,
}

impl DeepView for TypedModule {
    type V = TypedModuleView;

    open spec fn deep_view(&self) -> TypedModuleView {
        TypedModuleView {
            name: self.name.deep_view(),
            constants: self.constants.deep_view(),
            functions: self.functions.deep_view(),
            instances: self.instances.deep_view(),
            defaults: self.defaults.deep_view(),
            exports: self.exports.deep_view(),
        }
    }
}

} // verus!
