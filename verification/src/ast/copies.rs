//! Copies of the syntax tree. A copy is made part by part, so that what
//! it is as plain data is what the value copied is.

use crate::ast::common::{Ident, Pragma, TypeParam};
use crate::ast::constants::{ConstantDecl, ConstantDef};
use crate::ast::expressions::{
    ArithExpr, AtomicExpr, CastExpr, CmpExpr, CompoundExpr, Expression, FnCallArgs, FnCallExpr,
    IntrinExpr, LogicExpr, NamedArg, PathExpr, PathSegment, SelectExpr,
};
use crate::ast::functions::{FunctionDecl, FunctionDef, MethodDecl, MethodDef, Param};
use crate::ast::imports::{ImportedSymbol, ImportStmt};
use crate::ast::instances::InstanceBase;
use crate::ast::modules::{Module, ModuleBase, ModuleDeclItem, ModuleDefItem};
use crate::ast::records::{RecordDecl, Slot};
use crate::ast::statements::{
    AssignStmt, Binding, BorrowStmt, CaseStmt, CaseWhen, ForStmt, IfStmt, LetStmt,
    LetStmtTarget, Statement, WhileStmt,
};
use crate::ast::type_classes::TypeClassBase;
use crate::ast::types::{TypeDecl, TypeSpec};
use crate::ast::unions::{Case, UnionDecl};
use vstd::prelude::*;

verus! {

impl ArithExpr {
    /// A copy of the value: what it is, as plain data, is what the value is.
    pub fn copy(&self) -> (r: Self)
        ensures
            r.deep_view() == self.deep_view(),
        decreases self,
    {
        match self {
            ArithExpr::Add(x0, x1) => {
                let r = ArithExpr::Add(x0.copy(), x1.copy());
                r
            },
            ArithExpr::Sub(x0, x1) => {
                let r = ArithExpr::Sub(x0.copy(), x1.copy());
                r
            },
            ArithExpr::Mul(x0, x1) => {
                let r = ArithExpr::Mul(x0.copy(), x1.copy());
                r
            },
            ArithExpr::Div(x0, x1) => {
                let r = ArithExpr::Div(x0.copy(), x1.copy());
                r
            },
            ArithExpr::Neg(x0) => {
                let r = ArithExpr::Neg(x0.copy());
                r
            },
        }
    }
}

impl Clone for ArithExpr {
    fn clone(&self) -> (r: Self)
        ensures
            r.deep_view() == self.deep_view(),
    {
        self.copy()
    }
}

impl AssignStmt {
    /// A copy of the value: what it is, as plain data, is what the value is.
    pub fn copy(&self) -> (r: Self)
        ensures
            r.deep_view() == self.deep_view(),
    {
        let r = AssignStmt {
            target: self.target.copy(),
            value: self.value.copy(),
        };
        r
    }
}

impl Clone for AssignStmt {
    fn clone(&self) -> (r: Self)
        ensures
            r.deep_view() == self.deep_view(),
    {
        self.copy()
    }
}

impl AtomicExpr {
    /// A copy of the value: what it is, as plain data, is what the value is.
    pub fn copy(&self) -> (r: Self)
        ensures
            r.deep_view() == self.deep_view(),
        decreases self,
    {
        match self {
            AtomicExpr::ConstNil => AtomicExpr::ConstNil,
            AtomicExpr::ConstBool(x0) => {
                let r = AtomicExpr::ConstBool(*x0);
                r
            },
            AtomicExpr::ConstChar(x0) => {
                let r = AtomicExpr::ConstChar(*x0);
                r
            },
            AtomicExpr::ConstInt(x0) => {
                let r = AtomicExpr::ConstInt(*x0);
                r
            },
            AtomicExpr::ConstFloat(x0) => {
                let r = AtomicExpr::ConstFloat(x0.clone());
                r
            },
            AtomicExpr::ConstStr(x0) => {
                let r = AtomicExpr::ConstStr(x0.clone());
                r
            },
            AtomicExpr::FnCall(x0) => {
                let r = AtomicExpr::FnCall(x0.copy());
                r
            },
            AtomicExpr::Path(x0) => {
                let r = AtomicExpr::Path(x0.copy());
                r
            },
            AtomicExpr::RefPath(x0) => {
                let r = AtomicExpr::RefPath(x0.copy());
                r
            },
            AtomicExpr::Paren(x0) => {
                let r = AtomicExpr::Paren(Box::new((**x0).copy()));
                r
            },
            AtomicExpr::Intrinsic(x0) => {
                let r = AtomicExpr::Intrinsic(x0.copy());
                r
            },
            AtomicExpr::SizeOf(x0) => {
                let r = AtomicExpr::SizeOf(x0.copy());
                r
            },
            AtomicExpr::BorrowRead(x0) => {
                let r = AtomicExpr::BorrowRead(x0.clone());
                r
            },
            AtomicExpr::BorrowWrite(x0) => {
                let r = AtomicExpr::BorrowWrite(x0.clone());
                r
            },
            AtomicExpr::ReBorrow(x0) => {
                let r = AtomicExpr::ReBorrow(x0.clone());
                r
            },
            AtomicExpr::Deref(x0) => {
                let r = AtomicExpr::Deref(Box::new((**x0).copy()));
                r
            },
        }
    }
}

impl Clone for AtomicExpr {
    fn clone(&self) -> (r: Self)
        ensures
            r.deep_view() == self.deep_view(),
    {
        self.copy()
    }
}

impl Binding {
    /// A copy of the value: what it is, as plain data, is what the value is.
    pub fn copy(&self) -> (r: Self)
        ensures
            r.deep_view() == self.deep_view(),
    {
        let r = Binding {
            name: self.name.clone(),
            rename: match &self.rename { Some(x) => Some(x.clone()), None => None },
            ty: self.ty.copy(),
        };
        r
    }
}

impl Clone for Binding {
    fn clone(&self) -> (r: Self)
        ensures
            r.deep_view() == self.deep_view(),
    {
        self.copy()
    }
}

impl BorrowStmt {
    /// A copy of the value: what it is, as plain data, is what the value is.
    pub fn copy(&self) -> (r: Self)
        ensures
            r.deep_view() == self.deep_view(),
        decreases self,
    {
        let r = BorrowStmt {
            name: self.name.clone(),
            mut_mode: *&self.mut_mode,
            ty: self.ty.copy(),
            reg: self.reg.clone(),
            mode: *&self.mode,
            orig: self.orig.clone(),
            body: copy_statement_list(&self.body),
        };
        assert(r.deep_view().body =~= self.deep_view().body);
        r
    }
}

impl Clone for BorrowStmt {
    fn clone(&self) -> (r: Self)
        ensures
            r.deep_view() == self.deep_view(),
    {
        self.copy()
    }
}

impl Case {
    /// A copy of the value: what it is, as plain data, is what the value is.
    pub fn copy(&self) -> (r: Self)
        ensures
            r.deep_view() == self.deep_view(),
    {
        let r = Case {
            doc_string: match &self.doc_string { Some(x) => Some(x.clone()), None => None },
            name: self.name.clone(),
            fields: copy_slot_list(&self.fields),
        };
        r
    }
}

impl Clone for Case {
    fn clone(&self) -> (r: Self)
        ensures
            r.deep_view() == self.deep_view(),
    {
        self.copy()
    }
}

impl CaseStmt {
    /// A copy of the value: what it is, as plain data, is what the value is.
    pub fn copy(&self) -> (r: Self)
        ensures
            r.deep_view() == self.deep_view(),
        decreases self,
    {
        let r = CaseStmt {
            value: self.value.copy(),
            variants: copy_case_when_list(&self.variants),
        };
        assert(r.deep_view().variants =~= self.deep_view().variants);
        r
    }
}

impl Clone for CaseStmt {
    fn clone(&self) -> (r: Self)
        ensures
            r.deep_view() == self.deep_view(),
    {
        self.copy()
    }
}

impl CaseWhen {
    /// A copy of the value: what it is, as plain data, is what the value is.
    pub fn copy(&self) -> (r: Self)
        ensures
            r.deep_view() == self.deep_view(),
        decreases self,
    {
        let r = CaseWhen {
            ident: self.ident.clone(),
            bindings: copy_binding_list(&self.bindings),
            block: copy_statement_list(&self.block),
        };
        assert(r.deep_view().bindings =~= self.deep_view().bindings);
        assert(r.deep_view().block =~= self.deep_view().block);
        r
    }
}

impl Clone for CaseWhen {
    fn clone(&self) -> (r: Self)
        ensures
            r.deep_view() == self.deep_view(),
    {
        self.copy()
    }
}

impl CastExpr {
    /// A copy of the value: what it is, as plain data, is what the value is.
    pub fn copy(&self) -> (r: Self)
        ensures
            r.deep_view() == self.deep_view(),
        decreases self,
    {
        let r = CastExpr {
            value: self.value.copy(),
            ty: self.ty.copy(),
        };
        r
    }
}

impl Clone for CastExpr {
    fn clone(&self) -> (r: Self)
        ensures
            r.deep_view() == self.deep_view(),
    {
        self.copy()
    }
}

impl CmpExpr {
    /// A copy of the value: what it is, as plain data, is what the value is.
    pub fn copy(&self) -> (r: Self)
        ensures
            r.deep_view() == self.deep_view(),
        decreases self,
    {
        match self {
            CmpExpr::Eq(x0, x1) => {
                let r = CmpExpr::Eq(x0.copy(), x1.copy());
                r
            },
            CmpExpr::NotEq(x0, x1) => {
                let r = CmpExpr::NotEq(x0.copy(), x1.copy());
                r
            },
            CmpExpr::Lt(x0, x1) => {
                let r = CmpExpr::Lt(x0.copy(), x1.copy());
                r
            },
            CmpExpr::LtEq(x0, x1) => {
                let r = CmpExpr::LtEq(x0.copy(), x1.copy());
                r
            },
            CmpExpr::Gt(x0, x1) => {
                let r = CmpExpr::Gt(x0.copy(), x1.copy());
                r
            },
            CmpExpr::GtEq(x0, x1) => {
                let r = CmpExpr::GtEq(x0.copy(), x1.copy());
                r
            },
        }
    }
}

impl Clone for CmpExpr {
    fn clone(&self) -> (r: Self)
        ensures
            r.deep_view() == self.deep_view(),
    {
        self.copy()
    }
}

impl CompoundExpr {
    /// A copy of the value: what it is, as plain data, is what the value is.
    pub fn copy(&self) -> (r: Self)
        ensures
            r.deep_view() == self.deep_view(),
        decreases self,
    {
        match self {
            CompoundExpr::Cmp(x0) => {
                let r = CompoundExpr::Cmp(x0.copy());
                r
            },
            CompoundExpr::Logic(x0) => {
                let r = CompoundExpr::Logic(x0.copy());
                r
            },
            CompoundExpr::Arith(x0) => {
                let r = CompoundExpr::Arith(x0.copy());
                r
            },
            CompoundExpr::Select(x0) => {
                let r = CompoundExpr::Select(x0.copy());
                r
            },
            CompoundExpr::Cast(x0) => {
                let r = CompoundExpr::Cast(x0.copy());
                r
            },
        }
    }
}

impl Clone for CompoundExpr {
    fn clone(&self) -> (r: Self)
        ensures
            r.deep_view() == self.deep_view(),
    {
        self.copy()
    }
}

impl ConstantDecl {
    /// A copy of the value: what it is, as plain data, is what the value is.
    pub fn copy(&self) -> (r: Self)
        ensures
            r.deep_view() == self.deep_view(),
    {
        let r = ConstantDecl {
            doc_string: match &self.doc_string { Some(x) => Some(x.clone()), None => None },
            pragmas: copy_pragma_list(&self.pragmas),
            name: self.name.clone(),
            ty: self.ty.copy(),
        };
        r
    }
}

impl Clone for ConstantDecl {
    fn clone(&self) -> (r: Self)
        ensures
            r.deep_view() == self.deep_view(),
    {
        self.copy()
    }
}

impl ConstantDef {
    /// A copy of the value: what it is, as plain data, is what the value is.
    pub fn copy(&self) -> (r: Self)
        ensures
            r.deep_view() == self.deep_view(),
    {
        let r = ConstantDef {
            decl: self.decl.copy(),
            value: self.value.copy(),
        };
        r
    }
}

impl Clone for ConstantDef {
    fn clone(&self) -> (r: Self)
        ensures
            r.deep_view() == self.deep_view(),
    {
        self.copy()
    }
}

impl Expression {
    /// A copy of the value: what it is, as plain data, is what the value is.
    pub fn copy(&self) -> (r: Self)
        ensures
            r.deep_view() == self.deep_view(),
        decreases self,
    {
        match self {
            Expression::Atomic(x0) => {
                let r = Expression::Atomic(x0.copy());
                r
            },
            Expression::Compound(x0) => {
                let r = Expression::Compound(x0.copy());
                r
            },
        }
    }
}

impl Clone for Expression {
    fn clone(&self) -> (r: Self)
        ensures
            r.deep_view() == self.deep_view(),
    {
        self.copy()
    }
}

impl FnCallArgs {
    /// A copy of the value: what it is, as plain data, is what the value is.
    pub fn copy(&self) -> (r: Self)
        ensures
            r.deep_view() == self.deep_view(),
        decreases self,
    {
        match self {
            FnCallArgs::Empty => FnCallArgs::Empty,
            FnCallArgs::Positional(x0) => {
                let r = FnCallArgs::Positional(copy_expression_list(x0));
                assert(r.deep_view()->Positional_0 =~= self.deep_view()->Positional_0);
                r
            },
            FnCallArgs::Named(x0) => {
                let r = FnCallArgs::Named(copy_named_arg_list(x0));
                assert(r.deep_view()->Named_0 =~= self.deep_view()->Named_0);
                r
            },
        }
    }
}

impl Clone for FnCallArgs {
    fn clone(&self) -> (r: Self)
        ensures
            r.deep_view() == self.deep_view(),
    {
        self.copy()
    }
}

impl FnCallExpr {
    /// A copy of the value: what it is, as plain data, is what the value is.
    pub fn copy(&self) -> (r: Self)
        ensures
            r.deep_view() == self.deep_view(),
        decreases self,
    {
        let r = FnCallExpr {
            target: self.target.clone(),
            args: self.args.copy(),
        };
        r
    }
}

impl Clone for FnCallExpr {
    fn clone(&self) -> (r: Self)
        ensures
            r.deep_view() == self.deep_view(),
    {
        self.copy()
    }
}

impl ForStmt {
    /// A copy of the value: what it is, as plain data, is what the value is.
    pub fn copy(&self) -> (r: Self)
        ensures
            r.deep_view() == self.deep_view(),
        decreases self,
    {
        let r = ForStmt {
            name: self.name.clone(),
            start: self.start.copy(),
            end: self.end.copy(),
            contents: copy_statement_list(&self.contents),
        };
        assert(r.deep_view().contents =~= self.deep_view().contents);
        r
    }
}

impl Clone for ForStmt {
    fn clone(&self) -> (r: Self)
        ensures
            r.deep_view() == self.deep_view(),
    {
        self.copy()
    }
}

impl FunctionDecl {
    /// A copy of the value: what it is, as plain data, is what the value is.
    pub fn copy(&self) -> (r: Self)
        ensures
            r.deep_view() == self.deep_view(),
    {
        let r = FunctionDecl {
            doc_string: match &self.doc_string { Some(x) => Some(x.clone()), None => None },
            pragmas: copy_pragma_list(&self.pragmas),
            type_params: copy_type_param_list(&self.type_params),
            name: self.name.clone(),
            params: copy_param_list(&self.params),
            ret_type: self.ret_type.copy(),
        };
        r
    }
}

impl Clone for FunctionDecl {
    fn clone(&self) -> (r: Self)
        ensures
            r.deep_view() == self.deep_view(),
    {
        self.copy()
    }
}

impl FunctionDef {
    /// A copy of the value: what it is, as plain data, is what the value is.
    pub fn copy(&self) -> (r: Self)
        ensures
            r.deep_view() == self.deep_view(),
    {
        let r = FunctionDef {
            decl: self.decl.copy(),
            body: copy_statement_list(&self.body),
        };
        r
    }
}

impl Clone for FunctionDef {
    fn clone(&self) -> (r: Self)
        ensures
            r.deep_view() == self.deep_view(),
    {
        self.copy()
    }
}

impl IfStmt {
    /// A copy of the value: what it is, as plain data, is what the value is.
    pub fn copy(&self) -> (r: Self)
        ensures
            r.deep_view() == self.deep_view(),
        decreases self,
    {
        let r = IfStmt {
            value: self.value.copy(),
            contents: copy_statement_list(&self.contents),
            otherwise: match &self.otherwise {
                Some(x) => Some(copy_statement_list(x)),
                None => None,
            },
        };
        assert(r.deep_view().contents =~= self.deep_view().contents);
        proof {
            match (&r.otherwise, &self.otherwise) {
                (
                    Some(a),
                    Some(b),
                ) => assert(r.deep_view().otherwise->Some_0 =~= self.deep_view().otherwise->Some_0),
                _ => {},
            }
        }
        r
    }
}

impl Clone for IfStmt {
    fn clone(&self) -> (r: Self)
        ensures
            r.deep_view() == self.deep_view(),
    {
        self.copy()
    }
}

impl ImportStmt {
    /// A copy of the value: what it is, as plain data, is what the value is.
    pub fn copy(&self) -> (r: Self)
        ensures
            r.deep_view() == self.deep_view(),
    {
        let r = ImportStmt {
            module: copy_ident_list(&self.module),
            symbols: copy_imported_symbol_list(&self.symbols),
        };
        r
    }
}

impl Clone for ImportStmt {
    fn clone(&self) -> (r: Self)
        ensures
            r.deep_view() == self.deep_view(),
    {
        self.copy()
    }
}

impl ImportedSymbol {
    /// A copy of the value: what it is, as plain data, is what the value is.
    pub fn copy(&self) -> (r: Self)
        ensures
            r.deep_view() == self.deep_view(),
    {
        let r = ImportedSymbol {
            import_name: self.import_name.clone(),
            rename_into: match &self.rename_into { Some(x) => Some(x.clone()), None => None },
        };
        r
    }
}

impl Clone for ImportedSymbol {
    fn clone(&self) -> (r: Self)
        ensures
            r.deep_view() == self.deep_view(),
    {
        self.copy()
    }
}

impl InstanceBase<MethodDecl> {
    /// A copy of the value: what it is, as plain data, is what the value is.
    pub fn copy(&self) -> (r: Self)
        ensures
            r.deep_view() == self.deep_view(),
    {
        let r = InstanceBase {
            doc_string: match &self.doc_string { Some(x) => Some(x.clone()), None => None },
            pragmas: copy_pragma_list(&self.pragmas),
            type_params: copy_type_param_list(&self.type_params),
            name: self.name.clone(),
            arg: self.arg.copy(),
            methods: copy_method_decl_list(&self.methods),
        };
        r
    }
}

impl Clone for InstanceBase<MethodDecl> {
    fn clone(&self) -> (r: Self)
        ensures
            r.deep_view() == self.deep_view(),
    {
        self.copy()
    }
}

impl InstanceBase<MethodDef> {
    /// A copy of the value: what it is, as plain data, is what the value is.
    pub fn copy(&self) -> (r: Self)
        ensures
            r.deep_view() == self.deep_view(),
    {
        let r = InstanceBase {
            doc_string: match &self.doc_string { Some(x) => Some(x.clone()), None => None },
            pragmas: copy_pragma_list(&self.pragmas),
            type_params: copy_type_param_list(&self.type_params),
            name: self.name.clone(),
            arg: self.arg.copy(),
            methods: copy_method_def_list(&self.methods),
        };
        r
    }
}

impl Clone for InstanceBase<MethodDef> {
    fn clone(&self) -> (r: Self)
        ensures
            r.deep_view() == self.deep_view(),
    {
        self.copy()
    }
}

impl IntrinExpr {
    /// A copy of the value: what it is, as plain data, is what the value is.
    pub fn copy(&self) -> (r: Self)
        ensures
            r.deep_view() == self.deep_view(),
        decreases self,
    {
        match self {
            IntrinExpr::Embed { ty, exp, args } => {
                let r = IntrinExpr::Embed {
                    ty: ty.copy(),
                    exp: exp.clone(),
                    args: copy_expression_list(args),
                };
                assert(r.deep_view()->Embed_args =~= self.deep_view()->Embed_args);
                r
            },
        }
    }
}

impl Clone for IntrinExpr {
    fn clone(&self) -> (r: Self)
        ensures
            r.deep_view() == self.deep_view(),
    {
        self.copy()
    }
}

impl LetStmt {
    /// A copy of the value: what it is, as plain data, is what the value is.
    pub fn copy(&self) -> (r: Self)
        ensures
            r.deep_view() == self.deep_view(),
    {
        let r = LetStmt {
            is_mutable: *&self.is_mutable,
            target: self.target.copy(),
            value: self.value.copy(),
        };
        r
    }
}

impl Clone for LetStmt {
    fn clone(&self) -> (r: Self)
        ensures
            r.deep_view() == self.deep_view(),
    {
        self.copy()
    }
}

impl LetStmtTarget {
    /// A copy of the value: what it is, as plain data, is what the value is.
    pub fn copy(&self) -> (r: Self)
        ensures
            r.deep_view() == self.deep_view(),
    {
        match self {
            LetStmtTarget::Simple { name, ty } => {
                let r = LetStmtTarget::Simple {
                    name: name.clone(),
                    ty: ty.copy(),
                };
                r
            },
            LetStmtTarget::Destructure(x0) => {
                let r = LetStmtTarget::Destructure(copy_binding_list(x0));
                r
            },
        }
    }
}

impl Clone for LetStmtTarget {
    fn clone(&self) -> (r: Self)
        ensures
            r.deep_view() == self.deep_view(),
    {
        self.copy()
    }
}

impl LogicExpr {
    /// A copy of the value: what it is, as plain data, is what the value is.
    pub fn copy(&self) -> (r: Self)
        ensures
            r.deep_view() == self.deep_view(),
        decreases self,
    {
        match self {
            LogicExpr::And(x0, x1) => {
                let r = LogicExpr::And(x0.copy(), x1.copy());
                r
            },
            LogicExpr::Or(x0, x1) => {
                let r = LogicExpr::Or(x0.copy(), x1.copy());
                r
            },
            LogicExpr::Not(x0) => {
                let r = LogicExpr::Not(x0.copy());
                r
            },
        }
    }
}

impl Clone for LogicExpr {
    fn clone(&self) -> (r: Self)
        ensures
            r.deep_view() == self.deep_view(),
    {
        self.copy()
    }
}

impl MethodDecl {
    /// A copy of the value: what it is, as plain data, is what the value is.
    pub fn copy(&self) -> (r: Self)
        ensures
            r.deep_view() == self.deep_view(),
    {
        let r = MethodDecl {
            doc_string: match &self.doc_string { Some(x) => Some(x.clone()), None => None },
            type_params: copy_type_param_list(&self.type_params),
            name: self.name.clone(),
            params: copy_param_list(&self.params),
            ret_ty: self.ret_ty.copy(),
        };
        r
    }
}

impl Clone for MethodDecl {
    fn clone(&self) -> (r: Self)
        ensures
            r.deep_view() == self.deep_view(),
    {
        self.copy()
    }
}

impl MethodDef {
    /// A copy of the value: what it is, as plain data, is what the value is.
    pub fn copy(&self) -> (r: Self)
        ensures
            r.deep_view() == self.deep_view(),
    {
        let r = MethodDef {
            decl: self.decl.copy(),
            body: copy_statement_list(&self.body),
        };
        r
    }
}

impl Clone for MethodDef {
    fn clone(&self) -> (r: Self)
        ensures
            r.deep_view() == self.deep_view(),
    {
        self.copy()
    }
}

impl Module {
    /// A copy of the value: what it is, as plain data, is what the value is.
    pub fn copy(&self) -> (r: Self)
        ensures
            r.deep_view() == self.deep_view(),
    {
        match self {
            Module::Decl(x0) => {
                let r = Module::Decl(x0.copy());
                r
            },
            Module::Def(x0) => {
                let r = Module::Def(x0.copy());
                r
            },
        }
    }
}

impl Clone for Module {
    fn clone(&self) -> (r: Self)
        ensures
            r.deep_view() == self.deep_view(),
    {
        self.copy()
    }
}

impl ModuleBase<ModuleDeclItem> {
    /// A copy of the value: what it is, as plain data, is what the value is.
    pub fn copy(&self) -> (r: Self)
        ensures
            r.deep_view() == self.deep_view(),
    {
        let r = ModuleBase {
            doc_string: match &self.doc_string { Some(x) => Some(x.clone()), None => None },
            imports: copy_import_stmt_list(&self.imports),
            name: self.name.clone(),
            contents: copy_module_decl_item_list(&self.contents),
        };
        r
    }
}

impl Clone for ModuleBase<ModuleDeclItem> {
    fn clone(&self) -> (r: Self)
        ensures
            r.deep_view() == self.deep_view(),
    {
        self.copy()
    }
}

impl ModuleBase<ModuleDefItem> {
    /// A copy of the value: what it is, as plain data, is what the value is.
    pub fn copy(&self) -> (r: Self)
        ensures
            r.deep_view() == self.deep_view(),
    {
        let r = ModuleBase {
            doc_string: match &self.doc_string { Some(x) => Some(x.clone()), None => None },
            imports: copy_import_stmt_list(&self.imports),
            name: self.name.clone(),
            contents: copy_module_def_item_list(&self.contents),
        };
        r
    }
}

impl Clone for ModuleBase<ModuleDefItem> {
    fn clone(&self) -> (r: Self)
        ensures
            r.deep_view() == self.deep_view(),
    {
        self.copy()
    }
}

impl ModuleDeclItem {
    /// A copy of the value: what it is, as plain data, is what the value is.
    pub fn copy(&self) -> (r: Self)
        ensures
            r.deep_view() == self.deep_view(),
    {
        match self {
            ModuleDeclItem::Constant(x0) => {
                let r = ModuleDeclItem::Constant(x0.copy());
                r
            },
            ModuleDeclItem::Function(x0) => {
                let r = ModuleDeclItem::Function(x0.copy());
                r
            },
            ModuleDeclItem::Instance(x0) => {
                let r = ModuleDeclItem::Instance(x0.copy());
                r
            },
            ModuleDeclItem::Record(x0) => {
                let r = ModuleDeclItem::Record(x0.copy());
                r
            },
            ModuleDeclItem::Type(x0) => {
                let r = ModuleDeclItem::Type(x0.copy());
                r
            },
            ModuleDeclItem::TypeClass(x0) => {
                let r = ModuleDeclItem::TypeClass(x0.copy());
                r
            },
            ModuleDeclItem::Union(x0) => {
                let r = ModuleDeclItem::Union(x0.copy());
                r
            },
        }
    }
}

impl Clone for ModuleDeclItem {
    fn clone(&self) -> (r: Self)
        ensures
            r.deep_view() == self.deep_view(),
    {
        self.copy()
    }
}

impl ModuleDefItem {
    /// A copy of the value: what it is, as plain data, is what the value is.
    pub fn copy(&self) -> (r: Self)
        ensures
            r.deep_view() == self.deep_view(),
    {
        match self {
            ModuleDefItem::Constant(x0) => {
                let r = ModuleDefItem::Constant(x0.copy());
                r
            },
            ModuleDefItem::Function(x0) => {
                let r = ModuleDefItem::Function(x0.copy());
                r
            },
            ModuleDefItem::Instance(x0) => {
                let r = ModuleDefItem::Instance(x0.copy());
                r
            },
            ModuleDefItem::Record(x0) => {
                let r = ModuleDefItem::Record(x0.copy());
                r
            },
            ModuleDefItem::Type(x0) => {
                let r = ModuleDefItem::Type(x0.copy());
                r
            },
            ModuleDefItem::TypeClass(x0) => {
                let r = ModuleDefItem::TypeClass(x0.copy());
                r
            },
            ModuleDefItem::Union(x0) => {
                let r = ModuleDefItem::Union(x0.copy());
                r
            },
        }
    }
}

impl Clone for ModuleDefItem {
    fn clone(&self) -> (r: Self)
        ensures
            r.deep_view() == self.deep_view(),
    {
        self.copy()
    }
}

impl NamedArg {
    /// A copy of the value: what it is, as plain data, is what the value is.
    pub fn copy(&self) -> (r: Self)
        ensures
            r.deep_view() == self.deep_view(),
        decreases self,
    {
        let r = NamedArg {
            name: self.name.clone(),
            value: self.value.copy(),
        };
        r
    }
}

impl Clone for NamedArg {
    fn clone(&self) -> (r: Self)
        ensures
            r.deep_view() == self.deep_view(),
    {
        self.copy()
    }
}

impl Param {
    /// A copy of the value: what it is, as plain data, is what the value is.
    pub fn copy(&self) -> (r: Self)
        ensures
            r.deep_view() == self.deep_view(),
    {
        let r = Param {
            name: self.name.clone(),
            ty: self.ty.copy(),
        };
        r
    }
}

impl Clone for Param {
    fn clone(&self) -> (r: Self)
        ensures
            r.deep_view() == self.deep_view(),
    {
        self.copy()
    }
}

impl PathExpr {
    /// A copy of the value: what it is, as plain data, is what the value is.
    pub fn copy(&self) -> (r: Self)
        ensures
            r.deep_view() == self.deep_view(),
        decreases self,
    {
        let r = PathExpr {
            first: self.first.clone(),
            extra: copy_path_segment_list(&self.extra),
        };
        assert(r.deep_view().extra =~= self.deep_view().extra);
        r
    }
}

impl Clone for PathExpr {
    fn clone(&self) -> (r: Self)
        ensures
            r.deep_view() == self.deep_view(),
    {
        self.copy()
    }
}

impl PathSegment {
    /// A copy of the value: what it is, as plain data, is what the value is.
    pub fn copy(&self) -> (r: Self)
        ensures
            r.deep_view() == self.deep_view(),
        decreases self,
    {
        match self {
            PathSegment::SlotAccess(x0) => {
                let r = PathSegment::SlotAccess(x0.clone());
                r
            },
            PathSegment::PtrSlotAccess(x0) => {
                let r = PathSegment::PtrSlotAccess(x0.clone());
                r
            },
            PathSegment::ArrayIndex(x0) => {
                let r = PathSegment::ArrayIndex(Box::new((**x0).copy()));
                r
            },
        }
    }
}

impl Clone for PathSegment {
    fn clone(&self) -> (r: Self)
        ensures
            r.deep_view() == self.deep_view(),
    {
        self.copy()
    }
}

impl Pragma {
    /// A copy of the value: what it is, as plain data, is what the value is.
    pub fn copy(&self) -> (r: Self)
        ensures
            r.deep_view() == self.deep_view(),
    {
        let r = Pragma {
            name: self.name.clone(),
            args: self.args.copy(),
        };
        r
    }
}

impl Clone for Pragma {
    fn clone(&self) -> (r: Self)
        ensures
            r.deep_view() == self.deep_view(),
    {
        self.copy()
    }
}

impl RecordDecl {
    /// A copy of the value: what it is, as plain data, is what the value is.
    pub fn copy(&self) -> (r: Self)
        ensures
            r.deep_view() == self.deep_view(),
    {
        let r = RecordDecl {
            doc_string: match &self.doc_string { Some(x) => Some(x.clone()), None => None },
            pragmas: copy_pragma_list(&self.pragmas),
            name: self.name.clone(),
            type_params: copy_type_param_list(&self.type_params),
            universe: *&self.universe,
            slots: copy_slot_list(&self.slots),
        };
        r
    }
}

impl Clone for RecordDecl {
    fn clone(&self) -> (r: Self)
        ensures
            r.deep_view() == self.deep_view(),
    {
        self.copy()
    }
}

impl SelectExpr {
    /// A copy of the value: what it is, as plain data, is what the value is.
    pub fn copy(&self) -> (r: Self)
        ensures
            r.deep_view() == self.deep_view(),
        decreases self,
    {
        let r = SelectExpr {
            condition: Box::new((**&self.condition).copy()),
            value_true: Box::new((**&self.value_true).copy()),
            value_false: Box::new((**&self.value_false).copy()),
        };
        r
    }
}

impl Clone for SelectExpr {
    fn clone(&self) -> (r: Self)
        ensures
            r.deep_view() == self.deep_view(),
    {
        self.copy()
    }
}

impl Slot {
    /// A copy of the value: what it is, as plain data, is what the value is.
    pub fn copy(&self) -> (r: Self)
        ensures
            r.deep_view() == self.deep_view(),
    {
        let r = Slot {
            doc_string: match &self.doc_string { Some(x) => Some(x.clone()), None => None },
            name: self.name.clone(),
            ty: self.ty.copy(),
        };
        r
    }
}

impl Clone for Slot {
    fn clone(&self) -> (r: Self)
        ensures
            r.deep_view() == self.deep_view(),
    {
        self.copy()
    }
}

impl Statement {
    /// A copy of the value: what it is, as plain data, is what the value is.
    pub fn copy(&self) -> (r: Self)
        ensures
            r.deep_view() == self.deep_view(),
        decreases self,
    {
        match self {
            Statement::Assign(x0) => {
                let r = Statement::Assign(x0.copy());
                r
            },
            Statement::Borrow(x0) => {
                let r = Statement::Borrow(x0.copy());
                r
            },
            Statement::Case(x0) => {
                let r = Statement::Case(x0.copy());
                r
            },
            Statement::Discard(x0) => {
                let r = Statement::Discard(x0.copy());
                r
            },
            Statement::For(x0) => {
                let r = Statement::For(x0.copy());
                r
            },
            Statement::If(x0) => {
                let r = Statement::If(x0.copy());
                r
            },
            Statement::Let(x0) => {
                let r = Statement::Let(x0.copy());
                r
            },
            Statement::Return(x0) => {
                let r = Statement::Return(x0.copy());
                r
            },
            Statement::While(x0) => {
                let r = Statement::While(x0.copy());
                r
            },
        }
    }
}

impl Clone for Statement {
    fn clone(&self) -> (r: Self)
        ensures
            r.deep_view() == self.deep_view(),
    {
        self.copy()
    }
}

impl TypeClassBase<MethodDecl> {
    /// A copy of the value: what it is, as plain data, is what the value is.
    pub fn copy(&self) -> (r: Self)
        ensures
            r.deep_view() == self.deep_view(),
    {
        let r = TypeClassBase {
            doc_string: match &self.doc_string { Some(x) => Some(x.clone()), None => None },
            pragmas: copy_pragma_list(&self.pragmas),
            name: self.name.clone(),
            type_param: self.type_param.copy(),
            methods: copy_method_decl_list(&self.methods),
        };
        r
    }
}

impl Clone for TypeClassBase<MethodDecl> {
    fn clone(&self) -> (r: Self)
        ensures
            r.deep_view() == self.deep_view(),
    {
        self.copy()
    }
}

impl TypeClassBase<MethodDef> {
    /// A copy of the value: what it is, as plain data, is what the value is.
    pub fn copy(&self) -> (r: Self)
        ensures
            r.deep_view() == self.deep_view(),
    {
        let r = TypeClassBase {
            doc_string: match &self.doc_string { Some(x) => Some(x.clone()), None => None },
            pragmas: copy_pragma_list(&self.pragmas),
            name: self.name.clone(),
            type_param: self.type_param.copy(),
            methods: copy_method_def_list(&self.methods),
        };
        r
    }
}

impl Clone for TypeClassBase<MethodDef> {
    fn clone(&self) -> (r: Self)
        ensures
            r.deep_view() == self.deep_view(),
    {
        self.copy()
    }
}

impl TypeDecl {
    /// A copy of the value: what it is, as plain data, is what the value is.
    pub fn copy(&self) -> (r: Self)
        ensures
            r.deep_view() == self.deep_view(),
    {
        let r = TypeDecl {
            doc_string: match &self.doc_string { Some(x) => Some(x.clone()), None => None },
            pragmas: copy_pragma_list(&self.pragmas),
            name: self.name.clone(),
            universe: *&self.universe,
        };
        r
    }
}

impl Clone for TypeDecl {
    fn clone(&self) -> (r: Self)
        ensures
            r.deep_view() == self.deep_view(),
    {
        self.copy()
    }
}

impl TypeParam {
    /// A copy of the value: what it is, as plain data, is what the value is.
    pub fn copy(&self) -> (r: Self)
        ensures
            r.deep_view() == self.deep_view(),
    {
        let r = TypeParam {
            name: self.name.clone(),
            universe: *&self.universe,
            params: copy_ident_list(&self.params),
        };
        r
    }
}

impl Clone for TypeParam {
    fn clone(&self) -> (r: Self)
        ensures
            r.deep_view() == self.deep_view(),
    {
        self.copy()
    }
}

impl TypeSpec {
    /// A copy of the value: what it is, as plain data, is what the value is.
    pub fn copy(&self) -> (r: Self)
        ensures
            r.deep_view() == self.deep_view(),
        decreases self,
    {
        match self {
            TypeSpec::Simple { name } => {
                let r = TypeSpec::Simple {
                    name: name.clone(),
                };
                r
            },
            TypeSpec::Generic { name, type_params } => {
                let r = TypeSpec::Generic {
                    name: name.clone(),
                    type_params: copy_type_spec_list(type_params),
                };
                assert(r.deep_view()->Generic_type_params =~= self.deep_view()->Generic_type_params);
                r
            },
            TypeSpec::BorrowRead { lhs, rhs } => {
                let r = TypeSpec::BorrowRead {
                    lhs: Box::new((**lhs).copy()),
                    rhs: Box::new((**rhs).copy()),
                };
                r
            },
            TypeSpec::BorrowWrite { lhs, rhs } => {
                let r = TypeSpec::BorrowWrite {
                    lhs: Box::new((**lhs).copy()),
                    rhs: Box::new((**rhs).copy()),
                };
                r
            },
            TypeSpec::SpanRead { lhs, rhs } => {
                let r = TypeSpec::SpanRead {
                    lhs: Box::new((**lhs).copy()),
                    rhs: Box::new((**rhs).copy()),
                };
                r
            },
            TypeSpec::SpanWrite { lhs, rhs } => {
                let r = TypeSpec::SpanWrite {
                    lhs: Box::new((**lhs).copy()),
                    rhs: Box::new((**rhs).copy()),
                };
                r
            },
        }
    }
}

impl Clone for TypeSpec {
    fn clone(&self) -> (r: Self)
        ensures
            r.deep_view() == self.deep_view(),
    {
        self.copy()
    }
}

impl UnionDecl {
    /// A copy of the value: what it is, as plain data, is what the value is.
    pub fn copy(&self) -> (r: Self)
        ensures
            r.deep_view() == self.deep_view(),
    {
        let r = UnionDecl {
            doc_string: match &self.doc_string { Some(x) => Some(x.clone()), None => None },
            pragmas: copy_pragma_list(&self.pragmas),
            name: self.name.clone(),
            type_params: copy_type_param_list(&self.type_params),
            cases: copy_case_list(&self.cases),
        };
        r
    }
}

impl Clone for UnionDecl {
    fn clone(&self) -> (r: Self)
        ensures
            r.deep_view() == self.deep_view(),
    {
        self.copy()
    }
}

impl WhileStmt {
    /// A copy of the value: what it is, as plain data, is what the value is.
    pub fn copy(&self) -> (r: Self)
        ensures
            r.deep_view() == self.deep_view(),
        decreases self,
    {
        let r = WhileStmt {
            value: self.value.copy(),
            contents: copy_statement_list(&self.contents),
        };
        assert(r.deep_view().contents =~= self.deep_view().contents);
        r
    }
}

impl Clone for WhileStmt {
    fn clone(&self) -> (r: Self)
        ensures
            r.deep_view() == self.deep_view(),
    {
        self.copy()
    }
}

/// Copies of the values of a list, in order.
pub fn copy_statement_list(items: &Vec<Statement>) -> (r: Vec<Statement>)
    ensures
        r.deep_view() == items.deep_view(),
        r.len() == items.len(),
        forall|i: int| 0 <= i < r.len() ==> (#[trigger] r[i]).deep_view() == items[i].deep_view(),
    decreases items,
{
    let mut out: Vec<Statement> = Vec::new();
    let mut i: usize = 0;
    while i < items.len()
        invariant
            0 <= i <= items.len(),
            out.len() == i,
            forall|j: int| 0 <= j < i ==> (#[trigger] out[j]).deep_view() == items[j].deep_view(),
        decreases items.len() - i,
    {
        out.push(items[i].copy());
        i = i + 1;
    }
    assert(out.deep_view() =~= items.deep_view());
    out
}

/// Copies of the values of a list, in order.
pub fn copy_slot_list(items: &Vec<Slot>) -> (r: Vec<Slot>)
    ensures
        r.deep_view() == items.deep_view(),
        r.len() == items.len(),
        forall|i: int| 0 <= i < r.len() ==> (#[trigger] r[i]).deep_view() == items[i].deep_view(),
{
    let mut out: Vec<Slot> = Vec::new();
    let mut i: usize = 0;
    while i < items.len()
        invariant
            0 <= i <= items.len(),
            out.len() == i,
            forall|j: int| 0 <= j < i ==> (#[trigger] out[j]).deep_view() == items[j].deep_view(),
        decreases items.len() - i,
    {
        out.push(items[i].copy());
        i = i + 1;
    }
    assert(out.deep_view() =~= items.deep_view());
    out
}

/// Copies of the values of a list, in order.
pub fn copy_case_when_list(items: &Vec<CaseWhen>) -> (r: Vec<CaseWhen>)
    ensures
        r.deep_view() == items.deep_view(),
        r.len() == items.len(),
        forall|i: int| 0 <= i < r.len() ==> (#[trigger] r[i]).deep_view() == items[i].deep_view(),
    decreases items,
{
    let mut out: Vec<CaseWhen> = Vec::new();
    let mut i: usize = 0;
    while i < items.len()
        invariant
            0 <= i <= items.len(),
            out.len() == i,
            forall|j: int| 0 <= j < i ==> (#[trigger] out[j]).deep_view() == items[j].deep_view(),
        decreases items.len() - i,
    {
        out.push(items[i].copy());
        i = i + 1;
    }
    assert(out.deep_view() =~= items.deep_view());
    out
}

/// Copies of the values of a list, in order.
pub fn copy_binding_list(items: &Vec<Binding>) -> (r: Vec<Binding>)
    ensures
        r.deep_view() == items.deep_view(),
        r.len() == items.len(),
        forall|i: int| 0 <= i < r.len() ==> (#[trigger] r[i]).deep_view() == items[i].deep_view(),
{
    let mut out: Vec<Binding> = Vec::new();
    let mut i: usize = 0;
    while i < items.len()
        invariant
            0 <= i <= items.len(),
            out.len() == i,
            forall|j: int| 0 <= j < i ==> (#[trigger] out[j]).deep_view() == items[j].deep_view(),
        decreases items.len() - i,
    {
        out.push(items[i].copy());
        i = i + 1;
    }
    assert(out.deep_view() =~= items.deep_view());
    out
}

/// Copies of the values of a list, in order.
pub fn copy_pragma_list(items: &Vec<Pragma>) -> (r: Vec<Pragma>)
    ensures
        r.deep_view() == items.deep_view(),
        r.len() == items.len(),
        forall|i: int| 0 <= i < r.len() ==> (#[trigger] r[i]).deep_view() == items[i].deep_view(),
{
    let mut out: Vec<Pragma> = Vec::new();
    let mut i: usize = 0;
    while i < items.len()
        invariant
            0 <= i <= items.len(),
            out.len() == i,
            forall|j: int| 0 <= j < i ==> (#[trigger] out[j]).deep_view() == items[j].deep_view(),
        decreases items.len() - i,
    {
        out.push(items[i].copy());
        i = i + 1;
    }
    assert(out.deep_view() =~= items.deep_view());
    out
}

/// Copies of the values of a list, in order.
pub fn copy_expression_list(items: &Vec<Expression>) -> (r: Vec<Expression>)
    ensures
        r.deep_view() == items.deep_view(),
        r.len() == items.len(),
        forall|i: int| 0 <= i < r.len() ==> (#[trigger] r[i]).deep_view() == items[i].deep_view(),
    decreases items,
{
    let mut out: Vec<Expression> = Vec::new();
    let mut i: usize = 0;
    while i < items.len()
        invariant
            0 <= i <= items.len(),
            out.len() == i,
            forall|j: int| 0 <= j < i ==> (#[trigger] out[j]).deep_view() == items[j].deep_view(),
        decreases items.len() - i,
    {
        out.push(items[i].copy());
        i = i + 1;
    }
    assert(out.deep_view() =~= items.deep_view());
    out
}

/// Copies of the values of a list, in order.
pub fn copy_named_arg_list(items: &Vec<NamedArg>) -> (r: Vec<NamedArg>)
    ensures
        r.deep_view() == items.deep_view(),
        r.len() == items.len(),
        forall|i: int| 0 <= i < r.len() ==> (#[trigger] r[i]).deep_view() == items[i].deep_view(),
    decreases items,
{
    let mut out: Vec<NamedArg> = Vec::new();
    let mut i: usize = 0;
    while i < items.len()
        invariant
            0 <= i <= items.len(),
            out.len() == i,
            forall|j: int| 0 <= j < i ==> (#[trigger] out[j]).deep_view() == items[j].deep_view(),
        decreases items.len() - i,
    {
        out.push(items[i].copy());
        i = i + 1;
    }
    assert(out.deep_view() =~= items.deep_view());
    out
}

/// Copies of the values of a list, in order.
pub fn copy_type_param_list(items: &Vec<TypeParam>) -> (r: Vec<TypeParam>)
    ensures
        r.deep_view() == items.deep_view(),
        r.len() == items.len(),
        forall|i: int| 0 <= i < r.len() ==> (#[trigger] r[i]).deep_view() == items[i].deep_view(),
{
    let mut out: Vec<TypeParam> = Vec::new();
    let mut i: usize = 0;
    while i < items.len()
        invariant
            0 <= i <= items.len(),
            out.len() == i,
            forall|j: int| 0 <= j < i ==> (#[trigger] out[j]).deep_view() == items[j].deep_view(),
        decreases items.len() - i,
    {
        out.push(items[i].copy());
        i = i + 1;
    }
    assert(out.deep_view() =~= items.deep_view());
    out
}

/// Copies of the values of a list, in order.
pub fn copy_param_list(items: &Vec<Param>) -> (r: Vec<Param>)
    ensures
        r.deep_view() == items.deep_view(),
        r.len() == items.len(),
        forall|i: int| 0 <= i < r.len() ==> (#[trigger] r[i]).deep_view() == items[i].deep_view(),
{
    let mut out: Vec<Param> = Vec::new();
    let mut i: usize = 0;
    while i < items.len()
        invariant
            0 <= i <= items.len(),
            out.len() == i,
            forall|j: int| 0 <= j < i ==> (#[trigger] out[j]).deep_view() == items[j].deep_view(),
        decreases items.len() - i,
    {
        out.push(items[i].copy());
        i = i + 1;
    }
    assert(out.deep_view() =~= items.deep_view());
    out
}

/// Copies of the values of a list, in order.
pub fn copy_ident_list(items: &Vec<Ident>) -> (r: Vec<Ident>)
    ensures
        r.deep_view() == items.deep_view(),
        r.len() == items.len(),
        forall|i: int| 0 <= i < r.len() ==> (#[trigger] r[i]).deep_view() == items[i].deep_view(),
{
    let mut out: Vec<Ident> = Vec::new();
    let mut i: usize = 0;
    while i < items.len()
        invariant
            0 <= i <= items.len(),
            out.len() == i,
            forall|j: int| 0 <= j < i ==> (#[trigger] out[j]).deep_view() == items[j].deep_view(),
        decreases items.len() - i,
    {
        out.push(items[i].clone());
        i = i + 1;
    }
    assert(out.deep_view() =~= items.deep_view());
    out
}

/// Copies of the values of a list, in order.
pub fn copy_imported_symbol_list(items: &Vec<ImportedSymbol>) -> (r: Vec<ImportedSymbol>)
    ensures
        r.deep_view() == items.deep_view(),
        r.len() == items.len(),
        forall|i: int| 0 <= i < r.len() ==> (#[trigger] r[i]).deep_view() == items[i].deep_view(),
{
    let mut out: Vec<ImportedSymbol> = Vec::new();
    let mut i: usize = 0;
    while i < items.len()
        invariant
            0 <= i <= items.len(),
            out.len() == i,
            forall|j: int| 0 <= j < i ==> (#[trigger] out[j]).deep_view() == items[j].deep_view(),
        decreases items.len() - i,
    {
        out.push(items[i].copy());
        i = i + 1;
    }
    assert(out.deep_view() =~= items.deep_view());
    out
}

/// Copies of the values of a list, in order.
pub fn copy_method_decl_list(items: &Vec<MethodDecl>) -> (r: Vec<MethodDecl>)
    ensures
        r.deep_view() == items.deep_view(),
        r.len() == items.len(),
        forall|i: int| 0 <= i < r.len() ==> (#[trigger] r[i]).deep_view() == items[i].deep_view(),
{
    let mut out: Vec<MethodDecl> = Vec::new();
    let mut i: usize = 0;
    while i < items.len()
        invariant
            0 <= i <= items.len(),
            out.len() == i,
            forall|j: int| 0 <= j < i ==> (#[trigger] out[j]).deep_view() == items[j].deep_view(),
        decreases items.len() - i,
    {
        out.push(items[i].copy());
        i = i + 1;
    }
    assert(out.deep_view() =~= items.deep_view());
    out
}

/// Copies of the values of a list, in order.
pub fn copy_method_def_list(items: &Vec<MethodDef>) -> (r: Vec<MethodDef>)
    ensures
        r.deep_view() == items.deep_view(),
        r.len() == items.len(),
        forall|i: int| 0 <= i < r.len() ==> (#[trigger] r[i]).deep_view() == items[i].deep_view(),
{
    let mut out: Vec<MethodDef> = Vec::new();
    let mut i: usize = 0;
    while i < items.len()
        invariant
            0 <= i <= items.len(),
            out.len() == i,
            forall|j: int| 0 <= j < i ==> (#[trigger] out[j]).deep_view() == items[j].deep_view(),
        decreases items.len() - i,
    {
        out.push(items[i].copy());
        i = i + 1;
    }
    assert(out.deep_view() =~= items.deep_view());
    out
}

/// Copies of the values of a list, in order.
pub fn copy_import_stmt_list(items: &Vec<ImportStmt>) -> (r: Vec<ImportStmt>)
    ensures
        r.deep_view() == items.deep_view(),
        r.len() == items.len(),
        forall|i: int| 0 <= i < r.len() ==> (#[trigger] r[i]).deep_view() == items[i].deep_view(),
{
    let mut out: Vec<ImportStmt> = Vec::new();
    let mut i: usize = 0;
    while i < items.len()
        invariant
            0 <= i <= items.len(),
            out.len() == i,
            forall|j: int| 0 <= j < i ==> (#[trigger] out[j]).deep_view() == items[j].deep_view(),
        decreases items.len() - i,
    {
        out.push(items[i].copy());
        i = i + 1;
    }
    assert(out.deep_view() =~= items.deep_view());
    out
}

/// Copies of the values of a list, in order.
pub fn copy_module_decl_item_list(items: &Vec<ModuleDeclItem>) -> (r: Vec<ModuleDeclItem>)
    ensures
        r.deep_view() == items.deep_view(),
        r.len() == items.len(),
        forall|i: int| 0 <= i < r.len() ==> (#[trigger] r[i]).deep_view() == items[i].deep_view(),
{
    let mut out: Vec<ModuleDeclItem> = Vec::new();
    let mut i: usize = 0;
    while i < items.len()
        invariant
            0 <= i <= items.len(),
            out.len() == i,
            forall|j: int| 0 <= j < i ==> (#[trigger] out[j]).deep_view() == items[j].deep_view(),
        decreases items.len() - i,
    {
        out.push(items[i].copy());
        i = i + 1;
    }
    assert(out.deep_view() =~= items.deep_view());
    out
}

/// Copies of the values of a list, in order.
pub fn copy_module_def_item_list(items: &Vec<ModuleDefItem>) -> (r: Vec<ModuleDefItem>)
    ensures
        r.deep_view() == items.deep_view(),
        r.len() == items.len(),
        forall|i: int| 0 <= i < r.len() ==> (#[trigger] r[i]).deep_view() == items[i].deep_view(),
{
    let mut out: Vec<ModuleDefItem> = Vec::new();
    let mut i: usize = 0;
    while i < items.len()
        invariant
            0 <= i <= items.len(),
            out.len() == i,
            forall|j: int| 0 <= j < i ==> (#[trigger] out[j]).deep_view() == items[j].deep_view(),
        decreases items.len() - i,
    {
        out.push(items[i].copy());
        i = i + 1;
    }
    assert(out.deep_view() =~= items.deep_view());
    out
}

/// Copies of the values of a list, in order.
pub fn copy_path_segment_list(items: &Vec<PathSegment>) -> (r: Vec<PathSegment>)
    ensures
        r.deep_view() == items.deep_view(),
        r.len() == items.len(),
        forall|i: int| 0 <= i < r.len() ==> (#[trigger] r[i]).deep_view() == items[i].deep_view(),
    decreases items,
{
    let mut out: Vec<PathSegment> = Vec::new();
    let mut i: usize = 0;
    while i < items.len()
        invariant
            0 <= i <= items.len(),
            out.len() == i,
            forall|j: int| 0 <= j < i ==> (#[trigger] out[j]).deep_view() == items[j].deep_view(),
        decreases items.len() - i,
    {
        out.push(items[i].copy());
        i = i + 1;
    }
    assert(out.deep_view() =~= items.deep_view());
    out
}

/// Copies of the values of a list, in order.
pub fn copy_type_spec_list(items: &Vec<TypeSpec>) -> (r: Vec<TypeSpec>)
    ensures
        r.deep_view() == items.deep_view(),
        r.len() == items.len(),
        forall|i: int| 0 <= i < r.len() ==> (#[trigger] r[i]).deep_view() == items[i].deep_view(),
    decreases items,
{
    let mut out: Vec<TypeSpec> = Vec::new();
    let mut i: usize = 0;
    while i < items.len()
        invariant
            0 <= i <= items.len(),
            out.len() == i,
            forall|j: int| 0 <= j < i ==> (#[trigger] out[j]).deep_view() == items[j].deep_view(),
        decreases items.len() - i,
    {
        out.push(items[i].copy());
        i = i + 1;
    }
    assert(out.deep_view() =~= items.deep_view());
    out
}

/// Copies of the values of a list, in order.
pub fn copy_case_list(items: &Vec<Case>) -> (r: Vec<Case>)
    ensures
        r.deep_view() == items.deep_view(),
        r.len() == items.len(),
        forall|i: int| 0 <= i < r.len() ==> (#[trigger] r[i]).deep_view() == items[i].deep_view(),
{
    let mut out: Vec<Case> = Vec::new();
    let mut i: usize = 0;
    while i < items.len()
        invariant
            0 <= i <= items.len(),
            out.len() == i,
            forall|j: int| 0 <= j < i ==> (#[trigger] out[j]).deep_view() == items[j].deep_view(),
        decreases items.len() - i,
    {
        out.push(items[i].copy());
        i = i + 1;
    }
    assert(out.deep_view() =~= items.deep_view());
    out
}

} // verus!
