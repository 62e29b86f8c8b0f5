//! Typing of a module body. The declarations that the body imports and
//! those it makes are gathered in one list, imported ones first; the
//! environment is built from that list in passes, the names of types
//! first, then records, unions, constants, the signatures of functions
//! and the methods of typeclasses, and last the instances in scope. Then
//! the values of constants, the bodies of functions, the methods of the
//! instances of the body and the bodies that its typeclasses give their
//! methods are typed. A function may be generic; the type parameters of a
//! record or of a union are not types in scope, so that a generic record
//! or union is not accepted.

use crate::ast::common::{Ident, TypeParam, TypeParamView};
use crate::ast::constants::{ConstantDecl, ConstantDeclView, ConstantDef, ConstantDefView};
use crate::ast::functions::{
    FunctionDecl, FunctionDeclView, FunctionDef, FunctionDefView, MethodDecl, MethodDeclView,
    MethodDef, MethodDefView, Param, ParamView,
};
use crate::ast::imports::{ImportedSymbol, ImportedSymbolView, ImportStmt, ImportStmtView};
use crate::ast::instances::{InstanceBase, InstanceBaseView};
use crate::ast::modules::{
    ModuleBaseView, ModuleDecl, ModuleDeclItem, ModuleDeclItemView, ModuleDef, ModuleDefItem,
    ModuleDefItemView,
};
use crate::ast::records::{RecordDecl, RecordDeclView, Slot, SlotView};
use crate::ast::type_classes::TypeClassBase;
use crate::ast::types::{TypeDecl, TypeDeclView};
use crate::ast::unions::{Case, CaseView, UnionDecl, UnionDeclView};
use crate::common::{DeclId, Identifier, ModuleName, Mutability, QIdent, QIdentView};
use crate::linearity_check::no_span;
use crate::resolver::{
    bind_params, blank_span, bound_params, Context, find_constant, find_constant_in,
    find_function, find_function_in, find_method_of, find_method_of_in, name_of, resolve_type,
    resolved_ty, type_expression, typed_expression,
};
use crate::resolver::statements::{copy_type_names, type_block, typed_block};
use crate::stages::{ValueParameter, ValueParameterView};
use crate::ty::{Ty, TypeVariable, TyView, Universe};
use crate::type_check::{
    asked, check_same_type, check_slot_universes, same_ty, slots_fit_universe, TypeError,
    TypeErrorKind,
};
use crate::type_env::{
    CaseInfo, CaseInfoView, ConstantInfo, ConstantInfoView, Env, EnvView, Export, ExportView,
    FunctionSig, FunctionSigView, InstanceInfo, InstanceInfoView, MethodInfo, MethodInfoView,
    RecordInfo, RecordInfoView, RegionName, RegionNameView, Scope, ScopeView, TypedConstant,
    TypedConstantView, TypedFunction, TypedFunctionView, TypedInstance, TypedInstanceView,
    TypedModule, TypedModuleView, TypeName, TypeNameView, TypeParameter, TypeParameterView,
    UnionInfo, UnionInfoView, Variable, VariableKind, VariableView,
};
use crate::type_system::{substitute, substituted};
use vstd::prelude::*;

verus! {

/// A declaration that gives a name to a type, a constant, a function or a
/// typeclass. A typeclass is declared by an interface or defined by a
/// body; what either says of the signatures of its methods is the same.
pub enum Declared<'a> {
    Type(&'a TypeDecl),
    Record(&'a RecordDecl),
    Union(&'a UnionDecl),
    Constant(&'a ConstantDecl),
    Function(&'a FunctionDecl),
    TypeClass(&'a TypeClassBase<MethodDecl>),
    TypeClassBody(&'a TypeClassBase<MethodDef>),
}

/// What a typeclass declares: its name, its type parameter and the
/// signatures of its methods.
pub struct ClassView {
    pub name: Seq<char>,
    pub type_param: TypeParamView,
    pub methods: Seq<MethodDeclView>,
}

/// A value of `Declared` as plain data.
pub enum DeclaredView {
    Type(TypeDeclView),
    Record(RecordDeclView),
    Union(UnionDeclView),
    Constant(ConstantDeclView),
    Function(FunctionDeclView),
    TypeClass(ClassView),
}

/// The signatures of methods that are defined.
pub open spec fn declared_methods(defs: Seq<MethodDefView>) -> Seq<MethodDeclView> {
    Seq::new(defs.len(), |i: int| defs[i].decl)
}

impl<'a> DeepView for Declared<'a> {
    type V = DeclaredView;

    open spec fn deep_view(&self) -> DeclaredView {
        match self {
            Declared::Type(d) => DeclaredView::Type(d.deep_view()),
            Declared::Record(d) => DeclaredView::Record(d.deep_view()),
            Declared::Union(d) => DeclaredView::Union(d.deep_view()),
            Declared::Constant(d) => DeclaredView::Constant(d.deep_view()),
            Declared::Function(d) => DeclaredView::Function(d.deep_view()),
            Declared::TypeClass(d) => DeclaredView::TypeClass(
                ClassView {
                    name: d.name.deep_view(),
                    type_param: d.type_param.deep_view(),
                    methods: d.methods.deep_view(),
                },
            ),
            Declared::TypeClassBody(d) => DeclaredView::TypeClass(
                ClassView {
                    name: d.name.deep_view(),
                    type_param: d.type_param.deep_view(),
                    methods: declared_methods(d.methods.deep_view()),
                },
            ),
        }
    }
}

/// A declaration in scope: the module that makes it, the name it has
/// there, the name it goes by here, and the declaration.
pub struct Source<'a> {
    pub module: &'a Ident,
    pub original: &'a Ident,
    pub local: &'a Ident,
    pub item: Declared<'a>,
}

/// A value of `Source` as plain data.
pub struct SourceView {
    pub module: Seq<char>,
    pub original: Seq<char>,
    pub local: Seq<char>,
    pub item: DeclaredView,
}

impl<'a> DeepView for Source<'a> {
    type V = SourceView;

    open spec fn deep_view(&self) -> SourceView {
        SourceView {
            module: self.module.deep_view(),
            original: self.original.deep_view(),
            local: self.local.deep_view(),
            item: self.item.deep_view(),
        }
    }
}

/// The name that a declaration gives.
pub open spec fn declared_name(d: DeclaredView) -> Seq<char> {
    match d {
        DeclaredView::Type(d) => d.name,
        DeclaredView::Record(d) => d.name,
        DeclaredView::Union(d) => d.name,
        DeclaredView::Constant(d) => d.name,
        DeclaredView::Function(d) => d.name,
        DeclaredView::TypeClass(d) => d.name,
    }
}

/// What an item of an interface declares, if it is of a kind that this
/// checker enters in the environment.
pub open spec fn declared_by_decl(item: ModuleDeclItemView) -> Option<DeclaredView> {
    match item {
        ModuleDeclItemView::Constant(d) => Some(DeclaredView::Constant(d)),
        ModuleDeclItemView::Function(d) => Some(DeclaredView::Function(d)),
        ModuleDeclItemView::Record(d) => Some(DeclaredView::Record(d)),
        ModuleDeclItemView::Type(d) => Some(DeclaredView::Type(d)),
        ModuleDeclItemView::Union(d) => Some(DeclaredView::Union(d)),
        ModuleDeclItemView::TypeClass(d) => Some(
            DeclaredView::TypeClass(
                ClassView { name: d.name, type_param: d.type_param, methods: d.methods },
            ),
        ),
        _ => None,
    }
}

/// What an item of a body declares, likewise.
pub open spec fn declared_by_def(item: ModuleDefItemView) -> Option<DeclaredView> {
    match item {
        ModuleDefItemView::Constant(d) => Some(DeclaredView::Constant(d.decl)),
        ModuleDefItemView::Function(d) => Some(DeclaredView::Function(d.decl)),
        ModuleDefItemView::Record(d) => Some(DeclaredView::Record(d)),
        ModuleDefItemView::Type(d) => Some(DeclaredView::Type(d)),
        ModuleDefItemView::Union(d) => Some(DeclaredView::Union(d)),
        ModuleDefItemView::TypeClass(d) => Some(
            DeclaredView::TypeClass(
                ClassView {
                    name: d.name,
                    type_param: d.type_param,
                    methods: declared_methods(d.methods),
                },
            ),
        ),
        _ => None,
    }
}

fn name_declared<'a>(d: &Declared<'a>) -> (r: &'a Ident)
    ensures
        r.deep_view() == declared_name(d.deep_view()),
{
    match d {
        Declared::Type(d) => &d.name,
        Declared::Record(d) => &d.name,
        Declared::Union(d) => &d.name,
        Declared::Constant(d) => &d.name,
        Declared::Function(d) => &d.name,
        Declared::TypeClass(d) => &d.name,
        Declared::TypeClassBody(d) => &d.name,
    }
}

fn decl_declares<'a>(item: &'a ModuleDeclItem) -> (r: Option<Declared<'a>>)
    ensures
        r.deep_view() == declared_by_decl(item.deep_view()),
{
    match item {
        ModuleDeclItem::Constant(d) => Some(Declared::Constant(d)),
        ModuleDeclItem::Function(d) => Some(Declared::Function(d)),
        ModuleDeclItem::Record(d) => Some(Declared::Record(d)),
        ModuleDeclItem::Type(d) => Some(Declared::Type(d)),
        ModuleDeclItem::Union(d) => Some(Declared::Union(d)),
        ModuleDeclItem::TypeClass(d) => Some(Declared::TypeClass(d)),
        _ => None,
    }
}

fn def_declares<'a>(item: &'a ModuleDefItem) -> (r: Option<Declared<'a>>)
    ensures
        r.deep_view() == declared_by_def(item.deep_view()),
{
    match item {
        ModuleDefItem::Constant(d) => Some(Declared::Constant(&d.decl)),
        ModuleDefItem::Function(d) => Some(Declared::Function(&d.decl)),
        ModuleDefItem::Record(d) => Some(Declared::Record(d)),
        ModuleDefItem::Type(d) => Some(Declared::Type(d)),
        ModuleDefItem::Union(d) => Some(Declared::Union(d)),
        ModuleDefItem::TypeClass(d) => Some(Declared::TypeClassBody(d)),
        _ => None,
    }
}

/// The index of the first interface that goes by a name.
pub open spec fn find_interface_in(
    interfaces: Seq<ModuleBaseView<ModuleDeclItemView>>,
    name: Seq<char>,
    from: int,
) -> Option<int>
    decreases interfaces.len() - from,
{
    if from < 0 || from >= interfaces.len() {
        None
    } else if interfaces[from].name == name {
        Some(from)
    } else {
        find_interface_in(interfaces, name, from + 1)
    }
}

/// The index of the first item of an interface that declares a name.
pub open spec fn find_declared_in(
    items: Seq<ModuleDeclItemView>,
    name: Seq<char>,
    from: int,
) -> Option<int>
    decreases items.len() - from,
{
    if from < 0 || from >= items.len() {
        None
    } else if declared_by_decl(items[from]) matches Some(d) && declared_name(d) == name {
        Some(from)
    } else {
        find_declared_in(items, name, from + 1)
    }
}

/// Computes `find_interface_in`.
pub fn find_interface(interfaces: &Vec<ModuleDecl>, name: &Ident) -> (r: Option<usize>)
    ensures
        match find_interface_in(interfaces.deep_view(), name.deep_view(), 0) {
            Some(i) => r == Some(i as usize) && 0 <= i < interfaces.len(),
            None => r is None,
        },
{
    let mut k: usize = 0;
    while k < interfaces.len()
        invariant
            0 <= k <= interfaces.len(),
            find_interface_in(interfaces.deep_view(), name.deep_view(), 0) == find_interface_in(
                interfaces.deep_view(),
                name.deep_view(),
                k as int,
            ),
        decreases interfaces.len() - k,
    {
        assert(interfaces.deep_view()[k as int] == interfaces[k as int].deep_view());
        if interfaces[k].name.name == name.name {
            return Some(k);
        }
        k = k + 1;
    }
    None
}

/// Computes `find_declared_in`.
pub fn find_declared(items: &Vec<ModuleDeclItem>, name: &Ident) -> (r: Option<usize>)
    ensures
        match find_declared_in(items.deep_view(), name.deep_view(), 0) {
            Some(i) => r == Some(i as usize) && 0 <= i < items.len() && declared_by_decl(
                items.deep_view()[i],
            ) is Some,
            None => r is None,
        },
{
    let mut k: usize = 0;
    while k < items.len()
        invariant
            0 <= k <= items.len(),
            find_declared_in(items.deep_view(), name.deep_view(), 0) == find_declared_in(
                items.deep_view(),
                name.deep_view(),
                k as int,
            ),
        decreases items.len() - k,
    {
        assert(items.deep_view()[k as int] == items[k as int].deep_view());
        match decl_declares(&items[k]) {
            Some(d) => {
                if name_declared(&d).name == name.name {
                    return Some(k);
                }
            },
            None => {},
        }
        k = k + 1;
    }
    None
}

/// Whether what was computed for a list of declarations is what the rules
/// give.
pub open spec fn sources_as(
    r: Result<Vec<Source>, TypeErrorKind>,
    rule: Result<Seq<SourceView>, TypeErrorKind>,
) -> bool {
    match (r, rule) {
        (Ok(s), Ok(v)) => s.deep_view() == v,
        (Err(a), Err(b)) => a == b,
        _ => false,
    }
}

/// The declaration that an imported symbol stands for: the interface must
/// declare the symbol. Here it goes by the name it is renamed to, or by
/// its own.
pub open spec fn imported_symbol(
    m: ModuleBaseView<ModuleDeclItemView>,
    s: ImportedSymbolView,
) -> Result<SourceView, TypeErrorKind> {
    match find_declared_in(m.contents, s.import_name, 0) {
        None => Err(TypeErrorKind::UndefinedSymbol),
        Some(i) => Ok(
            SourceView {
                module: m.name,
                original: s.import_name,
                local: match s.rename_into {
                    Some(other) => other,
                    None => s.import_name,
                },
                item: declared_by_decl(m.contents[i])->Some_0,
            },
        ),
    }
}

/// The declarations that the symbols of one import from index `k` on stand
/// for, added to those before.
pub open spec fn imported_symbols(
    m: ModuleBaseView<ModuleDeclItemView>,
    symbols: Seq<ImportedSymbolView>,
    k: nat,
    acc: Seq<SourceView>,
) -> Result<Seq<SourceView>, TypeErrorKind>
    decreases symbols.len() - k,
{
    if k >= symbols.len() {
        Ok(acc)
    } else {
        match imported_symbol(m, symbols[k as int]) {
            Err(kind) => Err(kind),
            Ok(s) => imported_symbols(m, symbols, k + 1, acc.push(s)),
        }
    }
}

/// The interface that an import names: the one that goes by the last name
/// of the import's path.
pub open spec fn imported_interface(
    interfaces: Seq<ModuleBaseView<ModuleDeclItemView>>,
    import: ImportStmtView,
) -> Option<int> {
    if import.module.len() == 0 {
        None
    } else {
        find_interface_in(interfaces, import.module.last(), 0)
    }
}

/// The declarations that the imports from index `k` on bring, added to
/// those before. An import must name an interface at hand.
pub open spec fn imported(
    interfaces: Seq<ModuleBaseView<ModuleDeclItemView>>,
    imports: Seq<ImportStmtView>,
    k: nat,
    acc: Seq<SourceView>,
) -> Result<Seq<SourceView>, TypeErrorKind>
    decreases imports.len() - k,
{
    if k >= imports.len() {
        Ok(acc)
    } else {
        match imported_interface(interfaces, imports[k as int]) {
            None => Err(TypeErrorKind::UndefinedSymbol),
            Some(i) => match imported_symbols(interfaces[i], imports[k as int].symbols, 0, acc) {
                Err(kind) => Err(kind),
                Ok(more) => imported(interfaces, imports, k + 1, more),
            },
        }
    }
}

/// The declarations that the items of a body from index `k` on make, added
/// to those before.
pub open spec fn declared_here(
    module: Seq<char>,
    items: Seq<ModuleDefItemView>,
    k: nat,
    acc: Seq<SourceView>,
) -> Seq<SourceView>
    decreases items.len() - k,
{
    if k >= items.len() {
        acc
    } else {
        match declared_by_def(items[k as int]) {
            Some(d) => declared_here(
                module,
                items,
                k + 1,
                acc.push(SourceView { module, original: declared_name(d), local: declared_name(d), item: d }),
            ),
            None => declared_here(module, items, k + 1, acc),
        }
    }
}

/// The declarations in scope in a body: those it imports, then its own.
pub open spec fn sources_of(
    module: ModuleBaseView<ModuleDefItemView>,
    interfaces: Seq<ModuleBaseView<ModuleDeclItemView>>,
) -> Result<Seq<SourceView>, TypeErrorKind> {
    match imported(interfaces, module.imports, 0, Seq::empty()) {
        Err(kind) => Err(kind),
        Ok(brought) => Ok(declared_here(module.name, module.contents, 0, brought)),
    }
}

fn import_symbols<'a>(m: &'a ModuleDecl, symbols: &'a Vec<ImportedSymbol>, acc: Vec<Source<'a>>) -> (r: Result<Vec<Source<'a>>, TypeErrorKind>)
    ensures
        sources_as(r, imported_symbols(m.deep_view(), symbols.deep_view(), 0, acc.deep_view())),
{
    let mut out = acc;
    let mut k: usize = 0;
    while k < symbols.len()
        invariant
            0 <= k <= symbols.len(),
            imported_symbols(m.deep_view(), symbols.deep_view(), 0, acc.deep_view()) == imported_symbols(
                m.deep_view(),
                symbols.deep_view(),
                k as nat,
                out.deep_view(),
            ),
        decreases symbols.len() - k,
    {
        assert(symbols.deep_view()[k as int] == symbols[k as int].deep_view());
        let s = &symbols[k];
        match find_declared(&m.contents, &s.import_name) {
            None => {
                return Err(TypeErrorKind::UndefinedSymbol);
            },
            Some(i) => {
                assert(m.deep_view().contents[i as int] == m.contents[i as int].deep_view());
                match decl_declares(&m.contents[i]) {
                    None => {
                        return Err(TypeErrorKind::UndefinedSymbol);
                    },
                    Some(item) => {
                        let local = match &s.rename_into {
                            Some(other) => other,
                            None => &s.import_name,
                        };
                        let source = Source {
                            module: &m.name,
                            original: &s.import_name,
                            local,
                            item,
                        };
                        let ghost before = out.deep_view();
                        let ghost added = source.deep_view();
                        out.push(source);
                        assert(out.deep_view() =~= before.push(added));
                    },
                }
            },
        }
        k = k + 1;
    }
    Ok(out)
}

fn import_all<'a>(interfaces: &'a Vec<ModuleDecl>, imports: &'a Vec<ImportStmt>) -> (r: Result<Vec<Source<'a>>, TypeErrorKind>)
    ensures
        sources_as(r, imported(interfaces.deep_view(), imports.deep_view(), 0, Seq::empty())),
{
    let mut out: Vec<Source<'a>> = Vec::new();
    let mut k: usize = 0;
    assert(out.deep_view() =~= Seq::empty());
    while k < imports.len()
        invariant
            0 <= k <= imports.len(),
            imported(interfaces.deep_view(), imports.deep_view(), 0, Seq::empty()) == imported(
                interfaces.deep_view(),
                imports.deep_view(),
                k as nat,
                out.deep_view(),
            ),
        decreases imports.len() - k,
    {
        assert(imports.deep_view()[k as int] == imports[k as int].deep_view());
        let import = &imports[k];
        let n = import.module.len();
        if n == 0 {
            return Err(TypeErrorKind::UndefinedSymbol);
        }
        assert(import.deep_view().module.last() == import.module[n - 1].deep_view());
        match find_interface(interfaces, &import.module[n - 1]) {
            None => {
                return Err(TypeErrorKind::UndefinedSymbol);
            },
            Some(i) => {
                assert(interfaces.deep_view()[i as int] == interfaces[i as int].deep_view());
                out = import_symbols(&interfaces[i], &import.symbols, out)?;
            },
        }
        k = k + 1;
    }
    Ok(out)
}

/// Gathers the declarations in scope in a body.
pub fn gather<'a>(module: &'a ModuleDef, interfaces: &'a Vec<ModuleDecl>) -> (r: Result<Vec<Source<'a>>, TypeErrorKind>)
    ensures
        sources_as(r, sources_of(module.deep_view(), interfaces.deep_view())),
{
    let brought = import_all(interfaces, &module.imports)?;
    let ghost start = brought.deep_view();
    let mut out = brought;
    let mut k: usize = 0;
    while k < module.contents.len()
        invariant
            0 <= k <= module.contents.len(),
            declared_here(module.deep_view().name, module.deep_view().contents, 0, start) == declared_here(
                module.deep_view().name,
                module.deep_view().contents,
                k as nat,
                out.deep_view(),
            ),
        decreases module.contents.len() - k,
    {
        assert(module.deep_view().contents[k as int] == module.contents[k as int].deep_view());
        match def_declares(&module.contents[k]) {
            Some(item) => {
                let name = name_declared(&item);
                let source = Source { module: &module.name, original: name, local: name, item };
                let ghost before = out.deep_view();
                let ghost added = source.deep_view();
                out.push(source);
                assert(out.deep_view() =~= before.push(added));
            },
            None => {},
        }
        k = k + 1;
    }
    Ok(out)
}

/// Whether no two declarations in scope go by one name.
pub open spec fn distinct_names(sources: Seq<SourceView>) -> bool {
    forall|i: int, j: int| 0 <= i < j < sources.len() ==> sources[i].local != sources[j].local
}

/// Whether no name is declared twice.
pub fn check_distinct(sources: &Vec<Source>) -> (r: bool)
    ensures
        r == distinct_names(sources.deep_view()),
{
    let ghost sv = sources.deep_view();
    let mut j: usize = 0;
    while j < sources.len()
        invariant
            0 <= j <= sources.len(),
            sv == sources.deep_view(),
            forall|a: int, b: int| 0 <= a < b < j ==> sv[a].local != sv[b].local,
        decreases sources.len() - j,
    {
        let mut i: usize = 0;
        while i < j
            invariant
                0 <= i <= j < sources.len(),
                sv == sources.deep_view(),
                forall|a: int| 0 <= a < i ==> sv[a].local != sv[j as int].local,
            decreases j - i,
        {
            assert(sv[i as int] == sources[i as int].deep_view());
            assert(sv[j as int] == sources[j as int].deep_view());
            if sources[i].local.name == sources[j].local.name {
                return false;
            }
            i = i + 1;
        }
        j = j + 1;
    }
    true
}

/// The universe that a declaration names.
pub open spec fn universe_named(u: crate::lexer::Universe) -> Universe {
    match u {
        crate::lexer::Universe::Free => Universe::FreeUniverse,
        crate::lexer::Universe::Linear => Universe::LinearUniverse,
        crate::lexer::Universe::Region => Universe::RegionUniverse,
        crate::lexer::Universe::Type => Universe::TypeUniverse,
    }
}

fn universe_of_name(u: &crate::ast::common::Universe) -> (r: Universe)
    ensures
        r == universe_named(u.deep_view()),
{
    match u.0 {
        crate::lexer::Universe::Free => Universe::FreeUniverse,
        crate::lexer::Universe::Linear => Universe::LinearUniverse,
        crate::lexer::Universe::Region => Universe::RegionUniverse,
        crate::lexer::Universe::Type => Universe::TypeUniverse,
    }
}

/// The qualified name of a declaration in scope.
pub open spec fn qualified_name(s: SourceView) -> QIdentView {
    QIdentView { source: s.module, original: s.original, local: s.local }
}

/// The type that a declaration of a type, a record or a union stands for:
/// a named type without arguments.
pub open spec fn named_ty(s: SourceView, universe: Universe) -> TyView {
    TyView::NamedType(qualified_name(s), Seq::empty(), universe)
}

fn qualified(s: &Source) -> (r: QIdent)
    ensures
        r@ == qualified_name(s.deep_view()),
{
    QIdent {
        source: ModuleName(s.module.name.clone()),
        original: name_of(s.original),
        local: name_of(s.local),
    }
}

fn named_type(s: &Source, universe: Universe) -> (r: Ty)
    ensures
        r@ == named_ty(s.deep_view(), universe),
{
    proof {
        reveal_with_fuel(Ty::model, 2);
    }
    let r = Ty::NamedType(qualified(s), Vec::new(), universe);
    assert(r@->NamedType_1 =~= Seq::empty());
    r
}

/// The universe of the type that a declaration stands for, if it declares
/// a type. A union, whose declaration names no universe, is in the free
/// universe.
pub open spec fn declared_universe(d: DeclaredView) -> Option<Universe> {
    match d {
        DeclaredView::Type(t) => Some(universe_named(t.universe)),
        DeclaredView::Record(r) => Some(universe_named(r.universe)),
        DeclaredView::Union(_) => Some(Universe::FreeUniverse),
        _ => None,
    }
}

/// The names of types that the declarations from index `k` on give, added
/// to those before.
pub open spec fn type_names(
    sources: Seq<SourceView>,
    k: nat,
    acc: Seq<TypeNameView>,
) -> Seq<TypeNameView>
    decreases sources.len() - k,
{
    if k >= sources.len() {
        acc
    } else {
        match declared_universe(sources[k as int].item) {
            Some(u) => type_names(
                sources,
                k + 1,
                acc.push(TypeNameView { name: sources[k as int].local, ty: named_ty(sources[k as int], u) }),
            ),
            None => type_names(sources, k + 1, acc),
        }
    }
}

fn universe_declared(d: &Declared) -> (r: Option<Universe>)
    ensures
        r == declared_universe(d.deep_view()),
{
    match d {
        Declared::Type(t) => Some(universe_of_name(&t.universe)),
        Declared::Record(r) => Some(universe_of_name(&r.universe)),
        Declared::Union(_) => Some(Universe::FreeUniverse),
        _ => None,
    }
}

/// Collects the names of the types in scope.
pub fn collect_type_names(sources: &Vec<Source>) -> (r: Vec<TypeName>)
    ensures
        r.deep_view() == type_names(sources.deep_view(), 0, Seq::empty()),
{
    let mut out: Vec<TypeName> = Vec::new();
    let mut k: usize = 0;
    assert(out.deep_view() =~= Seq::empty());
    while k < sources.len()
        invariant
            0 <= k <= sources.len(),
            type_names(sources.deep_view(), 0, Seq::empty()) == type_names(
                sources.deep_view(),
                k as nat,
                out.deep_view(),
            ),
        decreases sources.len() - k,
    {
        assert(sources.deep_view()[k as int] == sources[k as int].deep_view());
        match universe_declared(&sources[k].item) {
            Some(u) => {
                let added = TypeName {
                    name: name_of(sources[k].local),
                    ty: named_type(&sources[k], u),
                };
                let ghost before = out.deep_view();
                let ghost view = added.deep_view();
                out.push(added);
                assert(out.deep_view() =~= before.push(view));
            },
            None => {},
        }
        k = k + 1;
    }
    out
}

/// Whether what was computed for a list of slots or parameters is what the
/// rules give.
pub open spec fn slots_as(
    r: Result<Vec<ValueParameter>, TypeErrorKind>,
    rule: Result<Seq<ValueParameterView>, TypeErrorKind>,
) -> bool {
    match (r, rule) {
        (Ok(s), Ok(v)) => s.deep_view() == v,
        (Err(a), Err(b)) => a == b,
        _ => false,
    }
}

/// The slots from index `k` on with their types resolved, added to those
/// before. No region is in scope in a declaration.
pub open spec fn typed_slots(
    types: Seq<TypeNameView>,
    slots: Seq<SlotView>,
    k: nat,
    acc: Seq<ValueParameterView>,
) -> Result<
    Seq<ValueParameterView>,
    TypeErrorKind,
>
    decreases slots.len() - k,
{
    if k >= slots.len() {
        Ok(acc)
    } else {
        match resolved_ty(types, Seq::empty(), slots[k as int].ty) {
            Err(kind) => Err(kind),
            Ok(ty) => typed_slots(
                types,
                slots,
                k + 1,
                acc.push(ValueParameterView { name: slots[k as int].name, ty }),
            ),
        }
    }
}

/// The same of the parameters of a function.
pub open spec fn typed_params(
    types: Seq<TypeNameView>,
    params: Seq<ParamView>,
    k: nat,
    acc: Seq<ValueParameterView>,
) -> Result<
    Seq<ValueParameterView>,
    TypeErrorKind,
>
    decreases params.len() - k,
{
    if k >= params.len() {
        Ok(acc)
    } else {
        match resolved_ty(types, Seq::empty(), params[k as int].ty) {
            Err(kind) => Err(kind),
            Ok(ty) => typed_params(
                types,
                params,
                k + 1,
                acc.push(ValueParameterView { name: params[k as int].name, ty }),
            ),
        }
    }
}

fn no_regions() -> (r: Vec<RegionName>)
    ensures
        r.deep_view() == Seq::<RegionNameView>::empty(),
{
    let r: Vec<RegionName> = Vec::new();
    assert(r.deep_view() =~= Seq::empty());
    r
}

/// Resolves the types of the slots of a record or of a case.
pub fn type_slots(
    types: &Vec<TypeName>,
    slots: &Vec<Slot>,
) -> (r: Result<Vec<ValueParameter>, TypeErrorKind>)
    ensures
        slots_as(r, typed_slots(types.deep_view(), slots.deep_view(), 0, Seq::empty())),
{
    let regions = no_regions();
    let mut out: Vec<ValueParameter> = Vec::new();
    let mut k: usize = 0;
    assert(out.deep_view() =~= Seq::empty());
    while k < slots.len()
        invariant
            0 <= k <= slots.len(),
            regions.deep_view() == Seq::<RegionNameView>::empty(),
            typed_slots(types.deep_view(), slots.deep_view(), 0, Seq::empty()) == typed_slots(
                types.deep_view(),
                slots.deep_view(),
                k as nat,
                out.deep_view(),
            ),
        decreases slots.len() - k,
    {
        assert(slots.deep_view()[k as int] == slots[k as int].deep_view());
        let ty = resolve_type(types, &regions, &slots[k].ty)?;
        let added = ValueParameter { name: name_of(&slots[k].name), ty };
        let ghost before = out.deep_view();
        let ghost view = added.deep_view();
        out.push(added);
        assert(out.deep_view() =~= before.push(view));
        k = k + 1;
    }
    Ok(out)
}

/// Resolves the types of the parameters of a function.
pub fn type_params(
    types: &Vec<TypeName>,
    params: &Vec<Param>,
) -> (r: Result<Vec<ValueParameter>, TypeErrorKind>)
    ensures
        slots_as(r, typed_params(types.deep_view(), params.deep_view(), 0, Seq::empty())),
{
    let regions = no_regions();
    let mut out: Vec<ValueParameter> = Vec::new();
    let mut k: usize = 0;
    assert(out.deep_view() =~= Seq::empty());
    while k < params.len()
        invariant
            0 <= k <= params.len(),
            regions.deep_view() == Seq::<RegionNameView>::empty(),
            typed_params(types.deep_view(), params.deep_view(), 0, Seq::empty()) == typed_params(
                types.deep_view(),
                params.deep_view(),
                k as nat,
                out.deep_view(),
            ),
        decreases params.len() - k,
    {
        assert(params.deep_view()[k as int] == params[k as int].deep_view());
        let ty = resolve_type(types, &regions, &params[k].ty)?;
        let added = ValueParameter { name: name_of(&params[k].name), ty };
        let ghost before = out.deep_view();
        let ghost view = added.deep_view();
        out.push(added);
        assert(out.deep_view() =~= before.push(view));
        k = k + 1;
    }
    Ok(out)
}

/// What the environment holds of a record: its slots with their types
/// resolved, each of a universe below the record's.
pub open spec fn record_of(types: Seq<TypeNameView>, s: SourceView, r: RecordDeclView) -> Result<
    RecordInfoView,
    TypeErrorKind,
> {
    match typed_slots(types, r.slots, 0, Seq::empty()) {
        Err(kind) => Err(kind),
        Ok(slots) => match slots_fit_universe(universe_named(r.universe), slots) {
            Err(kind) => Err(kind),
            Ok(_) => Ok(
                RecordInfoView {
                    name: s.local,
                    ty: named_ty(s, universe_named(r.universe)),
                    slots,
                },
            ),
        },
    }
}

/// The records among the declarations from index `k` on, added to those
/// before.
pub open spec fn records_of(
    types: Seq<TypeNameView>,
    sources: Seq<SourceView>,
    k: nat,
    acc: Seq<RecordInfoView>,
) -> Result<
    Seq<RecordInfoView>,
    TypeErrorKind,
>
    decreases sources.len() - k,
{
    if k >= sources.len() {
        Ok(acc)
    } else {
        match sources[k as int].item {
            DeclaredView::Record(r) => match record_of(types, sources[k as int], r) {
                Err(kind) => Err(kind),
                Ok(info) => records_of(types, sources, k + 1, acc.push(info)),
            },
            _ => records_of(types, sources, k + 1, acc),
        }
    }
}

/// Collects the records in scope.
pub fn collect_records(types: &Vec<TypeName>, sources: &Vec<Source>) -> (r: Result<
    Vec<RecordInfo>,
    TypeErrorKind,
>)
    ensures
        match (r, records_of(types.deep_view(), sources.deep_view(), 0, Seq::empty())) {
            (Ok(x), Ok(v)) => x.deep_view() == v,
            (Err(a), Err(b)) => a == b,
            _ => false,
        },
{
    let mut out: Vec<RecordInfo> = Vec::new();
    let mut k: usize = 0;
    assert(out.deep_view() =~= Seq::empty());
    while k < sources.len()
        invariant
            0 <= k <= sources.len(),
            records_of(types.deep_view(), sources.deep_view(), 0, Seq::empty()) == records_of(
                types.deep_view(),
                sources.deep_view(),
                k as nat,
                out.deep_view(),
            ),
        decreases sources.len() - k,
    {
        assert(sources.deep_view()[k as int] == sources[k as int].deep_view());
        match &sources[k].item {
            Declared::Record(r) => {
                let slots = type_slots(types, &r.slots)?;
                let universe = universe_of_name(&r.universe);
                check_slot_universes(universe, &slots)?;
                let added = RecordInfo {
                    name: name_of(sources[k].local),
                    ty: named_type(&sources[k], universe),
                    slots,
                };
                let ghost before = out.deep_view();
                let ghost view = added.deep_view();
                out.push(added);
                assert(out.deep_view() =~= before.push(view));
            },
            _ => {},
        }
        k = k + 1;
    }
    Ok(out)
}

/// What the environment holds of a case of a union: its slots with their
/// types resolved, each of the free universe.
pub open spec fn case_of(
    types: Seq<TypeNameView>,
    c: CaseView,
) -> Result<CaseInfoView, TypeErrorKind> {
    match typed_slots(types, c.fields, 0, Seq::empty()) {
        Err(kind) => Err(kind),
        Ok(slots) => match slots_fit_universe(Universe::FreeUniverse, slots) {
            Err(kind) => Err(kind),
            Ok(_) => Ok(CaseInfoView { name: c.name, slots }),
        },
    }
}

/// The cases from index `k` on, added to those before.
pub open spec fn cases_of(
    types: Seq<TypeNameView>,
    cases: Seq<CaseView>,
    k: nat,
    acc: Seq<CaseInfoView>,
) -> Result<
    Seq<CaseInfoView>,
    TypeErrorKind,
>
    decreases cases.len() - k,
{
    if k >= cases.len() {
        Ok(acc)
    } else {
        match case_of(types, cases[k as int]) {
            Err(kind) => Err(kind),
            Ok(info) => cases_of(types, cases, k + 1, acc.push(info)),
        }
    }
}

/// The unions among the declarations from index `k` on, added to those
/// before.
pub open spec fn unions_of(
    types: Seq<TypeNameView>,
    sources: Seq<SourceView>,
    k: nat,
    acc: Seq<UnionInfoView>,
) -> Result<
    Seq<UnionInfoView>,
    TypeErrorKind,
>
    decreases sources.len() - k,
{
    if k >= sources.len() {
        Ok(acc)
    } else {
        match sources[k as int].item {
            DeclaredView::Union(u) => match cases_of(types, u.cases, 0, Seq::empty()) {
                Err(kind) => Err(kind),
                Ok(cases) => unions_of(
                    types,
                    sources,
                    k + 1,
                    acc.push(
                        UnionInfoView {
                            name: sources[k as int].local,
                            ty: named_ty(sources[k as int], Universe::FreeUniverse),
                            cases,
                        },
                    ),
                ),
            },
            _ => unions_of(types, sources, k + 1, acc),
        }
    }
}

fn collect_cases(
    types: &Vec<TypeName>,
    cases: &Vec<Case>,
) -> (r: Result<Vec<CaseInfo>, TypeErrorKind>)
    ensures
        match (r, cases_of(types.deep_view(), cases.deep_view(), 0, Seq::empty())) {
            (Ok(x), Ok(v)) => x.deep_view() == v,
            (Err(a), Err(b)) => a == b,
            _ => false,
        },
{
    let mut out: Vec<CaseInfo> = Vec::new();
    let mut k: usize = 0;
    assert(out.deep_view() =~= Seq::empty());
    while k < cases.len()
        invariant
            0 <= k <= cases.len(),
            cases_of(types.deep_view(), cases.deep_view(), 0, Seq::empty()) == cases_of(
                types.deep_view(),
                cases.deep_view(),
                k as nat,
                out.deep_view(),
            ),
        decreases cases.len() - k,
    {
        assert(cases.deep_view()[k as int] == cases[k as int].deep_view());
        let slots = type_slots(types, &cases[k].fields)?;
        check_slot_universes(Universe::FreeUniverse, &slots)?;
        let added = CaseInfo { name: name_of(&cases[k].name), slots };
        let ghost before = out.deep_view();
        let ghost view = added.deep_view();
        out.push(added);
        assert(out.deep_view() =~= before.push(view));
        k = k + 1;
    }
    Ok(out)
}

/// Collects the unions in scope.
pub fn collect_unions(types: &Vec<TypeName>, sources: &Vec<Source>) -> (r: Result<
    Vec<UnionInfo>,
    TypeErrorKind,
>)
    ensures
        match (r, unions_of(types.deep_view(), sources.deep_view(), 0, Seq::empty())) {
            (Ok(x), Ok(v)) => x.deep_view() == v,
            (Err(a), Err(b)) => a == b,
            _ => false,
        },
{
    let mut out: Vec<UnionInfo> = Vec::new();
    let mut k: usize = 0;
    assert(out.deep_view() =~= Seq::empty());
    while k < sources.len()
        invariant
            0 <= k <= sources.len(),
            unions_of(types.deep_view(), sources.deep_view(), 0, Seq::empty()) == unions_of(
                types.deep_view(),
                sources.deep_view(),
                k as nat,
                out.deep_view(),
            ),
        decreases sources.len() - k,
    {
        assert(sources.deep_view()[k as int] == sources[k as int].deep_view());
        match &sources[k].item {
            Declared::Union(u) => {
                let cases = collect_cases(types, &u.cases)?;
                let added = UnionInfo {
                    name: name_of(sources[k].local),
                    ty: named_type(&sources[k], Universe::FreeUniverse),
                    cases,
                };
                let ghost before = out.deep_view();
                let ghost view = added.deep_view();
                out.push(added);
                assert(out.deep_view() =~= before.push(view));
            },
            _ => {},
        }
        k = k + 1;
    }
    Ok(out)
}

/// The constants among the declarations from index `k` on, each with its
/// type resolved, added to those before.
pub open spec fn constants_of(
    types: Seq<TypeNameView>,
    sources: Seq<SourceView>,
    k: nat,
    acc: Seq<ConstantInfoView>,
) -> Result<
    Seq<ConstantInfoView>,
    TypeErrorKind,
>
    decreases sources.len() - k,
{
    if k >= sources.len() {
        Ok(acc)
    } else {
        match sources[k as int].item {
            DeclaredView::Constant(c) => match resolved_ty(types, Seq::empty(), c.ty) {
                Err(kind) => Err(kind),
                Ok(ty) => constants_of(
                    types,
                    sources,
                    k + 1,
                    acc.push(ConstantInfoView { name: qualified_name(sources[k as int]), ty }),
                ),
            },
            _ => constants_of(types, sources, k + 1, acc),
        }
    }
}

/// Collects the constants in scope.
pub fn collect_constants(types: &Vec<TypeName>, sources: &Vec<Source>) -> (r: Result<
    Vec<ConstantInfo>,
    TypeErrorKind,
>)
    ensures
        match (r, constants_of(types.deep_view(), sources.deep_view(), 0, Seq::empty())) {
            (Ok(x), Ok(v)) => x.deep_view() == v,
            (Err(a), Err(b)) => a == b,
            _ => false,
        },
{
    let regions = no_regions();
    let mut out: Vec<ConstantInfo> = Vec::new();
    let mut k: usize = 0;
    assert(out.deep_view() =~= Seq::empty());
    while k < sources.len()
        invariant
            0 <= k <= sources.len(),
            regions.deep_view() == Seq::<RegionNameView>::empty(),
            constants_of(types.deep_view(), sources.deep_view(), 0, Seq::empty()) == constants_of(
                types.deep_view(),
                sources.deep_view(),
                k as nat,
                out.deep_view(),
            ),
        decreases sources.len() - k,
    {
        assert(sources.deep_view()[k as int] == sources[k as int].deep_view());
        match &sources[k].item {
            Declared::Constant(c) => {
                let ty = resolve_type(types, &regions, &c.ty)?;
                let added = ConstantInfo { name: qualified(&sources[k]), ty };
                let ghost before = out.deep_view();
                let ghost view = added.deep_view();
                out.push(added);
                assert(out.deep_view() =~= before.push(view));
            },
            _ => {},
        }
        k = k + 1;
    }
    Ok(out)
}

/// The number of the function that comes after `count` others. The numbers
/// stop at the largest that a declaration can have.
pub open spec fn function_number(count: nat) -> DeclId {
    if count <= i32::MAX {
        DeclId(count as i32)
    } else {
        DeclId(i32::MAX)
    }
}

/// The type parameters of a generic declaration from index `k` on, added to
/// those before. Each stands for a type variable of its own, numbered by
/// its place, of the universe and with the constraints that it names.
pub open spec fn type_parameters(
    params: Seq<TypeParamView>,
    k: nat,
    acc: Seq<TypeParameterView>,
) -> Seq<TypeParameterView>
    decreases params.len() - k,
{
    if k >= params.len() {
        acc
    } else {
        type_parameters(
            params,
            k + 1,
            acc.push(
                TypeParameterView {
                    name: params[k as int].name,
                    id: variable_number(k),
                    ty: TyView::TyVar(
                        variable_number(k),
                        universe_named(params[k as int].universe),
                        params[k as int].params,
                    ),
                },
            ),
        )
    }
}

/// The names of types inside a generic declaration: its type parameters
/// from index `k` on, which hide the types of their names, and the types
/// in scope.
pub open spec fn generic_types(
    types: Seq<TypeNameView>,
    variables: Seq<TypeParameterView>,
    k: nat,
) -> Seq<TypeNameView>
    decreases variables.len() - k,
{
    if k >= variables.len() {
        types
    } else {
        seq![TypeNameView { name: variables[k as int].name, ty: variables[k as int].ty }]
            + generic_types(types, variables, k + 1)
    }
}

/// The signature of a function: its type parameters, and its parameters
/// and the type it returns, resolved with the type parameters in scope.
pub open spec fn signature_of(
    types: Seq<TypeNameView>,
    s: SourceView,
    f: FunctionDeclView,
    count: nat,
) -> Result<
    FunctionSigView,
    TypeErrorKind,
> {
    let variables = type_parameters(f.type_params, 0, Seq::empty());
    let inside = generic_types(types, variables, 0);
    match typed_params(inside, f.params, 0, Seq::empty()) {
        Err(kind) => Err(kind),
        Ok(params) => match resolved_ty(inside, Seq::empty(), f.ret_type) {
            Err(kind) => Err(kind),
            Ok(ret) => Ok(
                FunctionSigView {
                    id: function_number(count),
                    name: qualified_name(s),
                    variables,
                    params,
                    ret,
                },
            ),
        },
    }
}

/// Computes `type_parameters`.
pub fn type_parameters_of(params: &Vec<TypeParam>) -> (r: Vec<TypeParameter>)
    ensures
        r.deep_view() == type_parameters(params.deep_view(), 0, Seq::empty()),
{
    let mut out: Vec<TypeParameter> = Vec::new();
    let mut k: usize = 0;
    assert(out.deep_view() =~= Seq::empty());
    while k < params.len()
        invariant
            0 <= k <= params.len(),
            type_parameters(params.deep_view(), 0, Seq::empty()) == type_parameters(
                params.deep_view(),
                k as nat,
                out.deep_view(),
            ),
        decreases params.len() - k,
    {
        assert(params.deep_view()[k as int] == params[k as int].deep_view());
        let p = &params[k];
        let mut constraints: Vec<Identifier> = Vec::new();
        let mut j: usize = 0;
        while j < p.params.len()
            invariant
                0 <= j <= p.params.len(),
                constraints.len() == j,
                forall|i: int| 0 <= i < j ==> constraints[i]@ == p.params[i].deep_view(),
            decreases p.params.len() - j,
        {
            constraints.push(name_of(&p.params[j]));
            j = j + 1;
        }
        let id = number_variable(k);
        let ty = Ty::TyVar(TypeVariable { id, universe: universe_of_name(&p.universe), constraints });
        assert(ty@->TyVar_2 =~= p.params.deep_view());
        let added = TypeParameter { name: name_of(&p.name), id, ty };
        let ghost before = out.deep_view();
        let ghost view = added.deep_view();
        out.push(added);
        assert(out.deep_view() =~= before.push(view));
        k = k + 1;
    }
    out
}

/// Computes `generic_types`.
pub fn types_in_generic(types: &Vec<TypeName>, variables: &Vec<TypeParameter>) -> (r: Vec<TypeName>)
    ensures
        r.deep_view() == generic_types(types.deep_view(), variables.deep_view(), 0),
{
    let mut out: Vec<TypeName> = Vec::new();
    let mut k: usize = 0;
    assert(out.deep_view() + generic_types(types.deep_view(), variables.deep_view(), 0)
        =~= generic_types(types.deep_view(), variables.deep_view(), 0));
    while k < variables.len()
        invariant
            0 <= k <= variables.len(),
            out.deep_view() + generic_types(types.deep_view(), variables.deep_view(), k as nat)
                == generic_types(types.deep_view(), variables.deep_view(), 0),
        decreases variables.len() - k,
    {
        assert(variables.deep_view()[k as int] == variables[k as int].deep_view());
        let added = TypeName { name: variables[k].name.clone(), ty: variables[k].ty.clone() };
        let ghost before = out.deep_view();
        let ghost view = added.deep_view();
        out.push(added);
        assert(out.deep_view() =~= before.push(view));
        assert(out.deep_view() + generic_types(
            types.deep_view(),
            variables.deep_view(),
            (k + 1) as nat,
        ) =~= before + generic_types(types.deep_view(), variables.deep_view(), k as nat));
        k = k + 1;
    }
    copy_types(types, &mut out);
    out
}

/// The signatures of the functions among the declarations from index `k`
/// on, added to those before. A function is numbered by its place among
/// the functions.
pub open spec fn signatures_of(
    types: Seq<TypeNameView>,
    sources: Seq<SourceView>,
    k: nat,
    acc: Seq<FunctionSigView>,
) -> Result<
    Seq<FunctionSigView>,
    TypeErrorKind,
>
    decreases sources.len() - k,
{
    if k >= sources.len() {
        Ok(acc)
    } else {
        match sources[k as int].item {
            DeclaredView::Function(f) => match signature_of(
                types,
                sources[k as int],
                f,
                acc.len(),
            ) {
                Err(kind) => Err(kind),
                Ok(sig) => signatures_of(types, sources, k + 1, acc.push(sig)),
            },
            _ => signatures_of(types, sources, k + 1, acc),
        }
    }
}

fn number_function(count: usize) -> (r: DeclId)
    ensures
        r == function_number(count as nat),
{
    if count <= 0x7fff_ffff {
        DeclId(count as i32)
    } else {
        DeclId(0x7fff_ffff)
    }
}

/// Collects the signatures of the functions in scope.
pub fn collect_signatures(types: &Vec<TypeName>, sources: &Vec<Source>) -> (r: Result<
    Vec<FunctionSig>,
    TypeErrorKind,
>)
    ensures
        match (r, signatures_of(types.deep_view(), sources.deep_view(), 0, Seq::empty())) {
            (Ok(x), Ok(v)) => x.deep_view() == v,
            (Err(a), Err(b)) => a == b,
            _ => false,
        },
{
    let regions = no_regions();
    let mut out: Vec<FunctionSig> = Vec::new();
    let mut k: usize = 0;
    assert(out.deep_view() =~= Seq::empty());
    while k < sources.len()
        invariant
            0 <= k <= sources.len(),
            regions.deep_view() == Seq::<RegionNameView>::empty(),
            signatures_of(types.deep_view(), sources.deep_view(), 0, Seq::empty()) == signatures_of(
                types.deep_view(),
                sources.deep_view(),
                k as nat,
                out.deep_view(),
            ),
        decreases sources.len() - k,
    {
        assert(sources.deep_view()[k as int] == sources[k as int].deep_view());
        match &sources[k].item {
            Declared::Function(f) => {
                let variables = type_parameters_of(&f.type_params);
                let inside = types_in_generic(types, &variables);
                let params = type_params(&inside, &f.params)?;
                let ret = resolve_type(&inside, &regions, &f.ret_type)?;
                let added = FunctionSig {
                    id: number_function(out.len()),
                    name: qualified(&sources[k]),
                    variables,
                    params,
                    ret,
                };
                let ghost before = out.deep_view();
                let ghost view = added.deep_view();
                out.push(added);
                assert(out.deep_view() =~= before.push(view));
            },
            _ => {},
        }
        k = k + 1;
    }
    Ok(out)
}

/// The environment of a body: what it imports and what it declares. No two
/// declarations may go by one name, and no two instances in scope may be
/// instances of one typeclass for one type.
pub open spec fn environment_of(
    module: ModuleBaseView<ModuleDefItemView>,
    interfaces: Seq<ModuleBaseView<ModuleDeclItemView>>,
) -> Result<EnvView, TypeErrorKind> {
    match sources_of(module, interfaces) {
        Err(kind) => Err(kind),
        Ok(sources) => if !distinct_names(sources) {
            Err(TypeErrorKind::TypeMismatch)
        } else {
            environment_from(module, interfaces, sources)
        },
    }
}

/// The environment that a list of declarations gives, with the instances
/// of the body and of the interfaces at hand.
pub open spec fn environment_from(
    module: ModuleBaseView<ModuleDefItemView>,
    interfaces: Seq<ModuleBaseView<ModuleDeclItemView>>,
    sources: Seq<SourceView>,
) -> Result<EnvView, TypeErrorKind> {
    let types = type_names(sources, 0, Seq::empty());
    match records_of(types, sources, 0, Seq::empty()) {
        Err(kind) => Err(kind),
        Ok(records) => match unions_of(types, sources, 0, Seq::empty()) {
            Err(kind) => Err(kind),
            Ok(unions) => match constants_of(types, sources, 0, Seq::empty()) {
                Err(kind) => Err(kind),
                Ok(constants) => match signatures_of(types, sources, 0, Seq::empty()) {
                    Err(kind) => Err(kind),
                    Ok(functions) => match methods_of(types, sources, 0, 0, Seq::empty()) {
                        Err(kind) => Err(kind),
                        Ok(methods) => match instances_of(types, module, interfaces) {
                            Err(kind) => Err(kind),
                            Ok(instances) => if !distinct_instances(instances) {
                                Err(TypeErrorKind::OverlappingInstance)
                            } else {
                                Ok(
                                    EnvView {
                                        module: module.name,
                                        types,
                                        records,
                                        unions,
                                        constants,
                                        functions,
                                        methods,
                                        instances,
                                    },
                                )
                            },
                        },
                    },
                },
            },
        },
    }
}

/// Whether what was computed for an environment is what the rules give.
pub open spec fn environment_as(
    r: Result<Env, TypeErrorKind>,
    rule: Result<EnvView, TypeErrorKind>,
) -> bool {
    match (r, rule) {
        (Ok(e), Ok(v)) => e.deep_view() == v,
        (Err(a), Err(b)) => a == b,
        _ => false,
    }
}

/// Builds the environment of a body from the interfaces at hand.
pub fn environment(
    module: &ModuleDef,
    interfaces: &Vec<ModuleDecl>,
) -> (r: Result<Env, TypeErrorKind>)
    ensures
        environment_as(r, environment_of(module.deep_view(), interfaces.deep_view())),
{
    let sources = gather(module, interfaces)?;
    if !check_distinct(&sources) {
        return Err(TypeErrorKind::TypeMismatch);
    }
    let types = collect_type_names(&sources);
    let records = collect_records(&types, &sources)?;
    let unions = collect_unions(&types, &sources)?;
    let constants = collect_constants(&types, &sources)?;
    let functions = collect_signatures(&types, &sources)?;
    let methods = collect_methods(&types, &sources)?;
    let instances = collect_instances(&types, module, interfaces)?;
    if !check_distinct_instances(&instances) {
        return Err(TypeErrorKind::OverlappingInstance);
    }
    Ok(
        Env {
            module: ModuleName(module.name.name.clone()),
            types,
            records,
            unions,
            constants,
            functions,
            methods,
            instances,
        },
    )
}

/// The variables that the parameters from index `k` on are inside the
/// function, added to those before. A parameter cannot be assigned.
pub open spec fn parameter_variables(
    params: Seq<ValueParameterView>,
    k: nat,
    acc: Seq<VariableView>,
) -> Seq<VariableView>
    decreases params.len() - k,
{
    if k >= params.len() {
        acc
    } else {
        parameter_variables(
            params,
            k + 1,
            acc.push(
                VariableView {
                    name: params[k as int].name,
                    ty: params[k as int].ty,
                    mutability: Mutability::Immutable,
                    kind: VariableKind::Parameter,
                },
            ),
        )
    }
}

/// The scope at the start of a function's body: the names of types in
/// scope, its parameters, and no region.
pub open spec fn function_scope(
    types: Seq<TypeNameView>,
    params: Seq<ValueParameterView>,
    ret: TyView,
) -> ScopeView {
    ScopeView {
        types,
        variables: parameter_variables(params, 0, Seq::empty()),
        regions: Seq::empty(),
        ret,
    }
}

/// The scope in which the value of a constant is typed: no variable and no
/// region.
pub open spec fn constant_scope(types: Seq<TypeNameView>, ty: TyView) -> ScopeView {
    ScopeView { types, variables: Seq::empty(), regions: Seq::empty(), ret: ty }
}

/// The typed function: its body is typed in the scope of its parameters.
pub open spec fn typed_function(
    env: EnvView,
    f: FunctionDefView,
) -> Result<TypedFunctionView, TypeErrorKind> {
    match find_function_in(env.functions, f.decl.name, 0) {
        None => Err(TypeErrorKind::UndefinedSymbol),
        Some(i) => match typed_block(
            Context {
                env,
                scope: function_scope(
                    generic_types(env.types, env.functions[i].variables, 0),
                    env.functions[i].params,
                    env.functions[i].ret,
                ),
            },
            f.body,
            0,
        ) {
            Err(kind) => Err(kind),
            Ok(body) => Ok(
                TypedFunctionView {
                    name: f.decl.name,
                    params: env.functions[i].params,
                    ret: env.functions[i].ret,
                    body,
                },
            ),
        },
    }
}

/// The typed constant: its value is typed against the type declared and
/// must be of it.
pub open spec fn typed_constant_def(
    env: EnvView,
    c: ConstantDefView,
) -> Result<TypedConstantView, TypeErrorKind> {
    match find_constant_in(env.constants, c.decl.name, 0) {
        None => Err(TypeErrorKind::UndefinedSymbol),
        Some(i) => match typed_expression(
            Context { env, scope: constant_scope(env.types, env.constants[i].ty) },
            c.value,
            Some(env.constants[i].ty),
        ) {
            Err(kind) => Err(kind),
            Ok((value, t)) => match same_ty(env.constants[i].ty, t) {
                Err(kind) => Err(kind),
                Ok(_) => Ok(TypedConstantView { name: c.decl.name, ty: env.constants[i].ty, value }),
            },
        },
    }
}

/// The typed functions of the items from index `k` on, added to those
/// before.
pub open spec fn typed_functions(
    env: EnvView,
    items: Seq<ModuleDefItemView>,
    k: nat,
    acc: Seq<TypedFunctionView>,
) -> Result<
    Seq<TypedFunctionView>,
    TypeErrorKind,
>
    decreases items.len() - k,
{
    if k >= items.len() {
        Ok(acc)
    } else {
        match items[k as int] {
            ModuleDefItemView::Function(f) => match typed_function(env, f) {
                Err(kind) => Err(kind),
                Ok(typed) => typed_functions(env, items, k + 1, acc.push(typed)),
            },
            _ => typed_functions(env, items, k + 1, acc),
        }
    }
}

/// The typed constants of the items from index `k` on, added to those
/// before.
pub open spec fn typed_constants(
    env: EnvView,
    items: Seq<ModuleDefItemView>,
    k: nat,
    acc: Seq<TypedConstantView>,
) -> Result<
    Seq<TypedConstantView>,
    TypeErrorKind,
>
    decreases items.len() - k,
{
    if k >= items.len() {
        Ok(acc)
    } else {
        match items[k as int] {
            ModuleDefItemView::Constant(c) => match typed_constant_def(env, c) {
                Err(kind) => Err(kind),
                Ok(typed) => typed_constants(env, items, k + 1, acc.push(typed)),
            },
            _ => typed_constants(env, items, k + 1, acc),
        }
    }
}

fn copy_parameters(items: &Vec<ValueParameter>) -> (r: Vec<ValueParameter>)
    ensures
        r.deep_view() == items.deep_view(),
{
    let mut out: Vec<ValueParameter> = Vec::new();
    let mut k: usize = 0;
    while k < items.len()
        invariant
            0 <= k <= items.len(),
            out.len() == k,
            forall|i: int| 0 <= i < k ==> (#[trigger] out[i]).deep_view() == items[i].deep_view(),
        decreases items.len() - k,
    {
        out.push(ValueParameter { name: items[k].name.clone(), ty: items[k].ty.clone() });
        k = k + 1;
    }
    assert(out.deep_view() =~= items.deep_view());
    out
}

/// The scope at the start of the body of a function.
pub fn scope_of_function(
    types: &Vec<TypeName>,
    params: &Vec<ValueParameter>,
    ret: &Ty,
) -> (r: Scope)
    ensures
        r.deep_view() == function_scope(types.deep_view(), params.deep_view(), ret@),
{
    let mut variables: Vec<Variable> = Vec::new();
    let mut k: usize = 0;
    assert(variables.deep_view() =~= Seq::empty());
    while k < params.len()
        invariant
            0 <= k <= params.len(),
            parameter_variables(params.deep_view(), 0, Seq::empty()) == parameter_variables(
                params.deep_view(),
                k as nat,
                variables.deep_view(),
            ),
        decreases params.len() - k,
    {
        assert(params.deep_view()[k as int] == params[k as int].deep_view());
        let added = Variable {
            name: params[k].name.clone(),
            ty: params[k].ty.clone(),
            mutability: Mutability::Immutable,
            kind: VariableKind::Parameter,
        };
        let ghost before = variables.deep_view();
        let ghost view = added.deep_view();
        variables.push(added);
        assert(variables.deep_view() =~= before.push(view));
        k = k + 1;
    }
    Scope { types: copy_type_names(types), variables, regions: no_regions(), ret: ret.clone() }
}

/// Types a function of a body in an environment.
pub fn type_function(env: &Env, f: &FunctionDef) -> (r: Result<TypedFunction, TypeErrorKind>)
    ensures
        match (r, typed_function(env.deep_view(), f.deep_view())) {
            (Ok(x), Ok(v)) => x.deep_view() == v,
            (Err(a), Err(b)) => a == b,
            _ => false,
        },
{
    match find_function(&env.functions, &f.decl.name) {
        None => Err(TypeErrorKind::UndefinedSymbol),
        Some(i) => {
            assert(env.deep_view().functions[i as int] == env.functions[i as int].deep_view());
            let sig = &env.functions[i];
            let inside = types_in_generic(&env.types, &sig.variables);
            let scope = scope_of_function(&inside, &sig.params, &sig.ret);
            let body = type_block(env, &scope, &f.body, 0)?;
            Ok(
                TypedFunction {
                    name: name_of(&f.decl.name),
                    params: copy_parameters(&sig.params),
                    ret: sig.ret.clone(),
                    body,
                },
            )
        },
    }
}

/// Types a constant of a body in an environment.
pub fn type_constant_def(env: &Env, c: &ConstantDef) -> (r: Result<TypedConstant, TypeErrorKind>)
    ensures
        match (r, typed_constant_def(env.deep_view(), c.deep_view())) {
            (Ok(x), Ok(v)) => x.deep_view() == v,
            (Err(a), Err(b)) => a == b,
            _ => false,
        },
{
    match find_constant(&env.constants, &c.decl.name) {
        None => Err(TypeErrorKind::UndefinedSymbol),
        Some(i) => {
            assert(env.deep_view().constants[i as int] == env.constants[i as int].deep_view());
            let ty = env.constants[i].ty.clone();
            let variables: Vec<Variable> = Vec::new();
            assert(variables.deep_view() =~= Seq::empty());
            let scope = Scope {
                types: copy_type_names(&env.types),
                variables,
                regions: no_regions(),
                ret: ty.clone(),
            };
            let (value, t) = type_expression(env, &scope, &c.value, Some(&ty))?;
            check_same_type(&ty, &t)?;
            Ok(TypedConstant { name: name_of(&c.decl.name), ty, value })
        },
    }
}

fn type_functions(
    env: &Env,
    items: &Vec<ModuleDefItem>,
) -> (r: Result<Vec<TypedFunction>, TypeErrorKind>)
    ensures
        match (r, typed_functions(env.deep_view(), items.deep_view(), 0, Seq::empty())) {
            (Ok(x), Ok(v)) => x.deep_view() == v,
            (Err(a), Err(b)) => a == b,
            _ => false,
        },
{
    let mut out: Vec<TypedFunction> = Vec::new();
    let mut k: usize = 0;
    assert(out.deep_view() =~= Seq::empty());
    while k < items.len()
        invariant
            0 <= k <= items.len(),
            typed_functions(env.deep_view(), items.deep_view(), 0, Seq::empty()) == typed_functions(
                env.deep_view(),
                items.deep_view(),
                k as nat,
                out.deep_view(),
            ),
        decreases items.len() - k,
    {
        assert(items.deep_view()[k as int] == items[k as int].deep_view());
        match &items[k] {
            ModuleDefItem::Function(f) => {
                let typed = type_function(env, f)?;
                let ghost before = out.deep_view();
                let ghost view = typed.deep_view();
                out.push(typed);
                assert(out.deep_view() =~= before.push(view));
            },
            _ => {},
        }
        k = k + 1;
    }
    Ok(out)
}

fn type_constants(
    env: &Env,
    items: &Vec<ModuleDefItem>,
) -> (r: Result<Vec<TypedConstant>, TypeErrorKind>)
    ensures
        match (r, typed_constants(env.deep_view(), items.deep_view(), 0, Seq::empty())) {
            (Ok(x), Ok(v)) => x.deep_view() == v,
            (Err(a), Err(b)) => a == b,
            _ => false,
        },
{
    let mut out: Vec<TypedConstant> = Vec::new();
    let mut k: usize = 0;
    assert(out.deep_view() =~= Seq::empty());
    while k < items.len()
        invariant
            0 <= k <= items.len(),
            typed_constants(env.deep_view(), items.deep_view(), 0, Seq::empty()) == typed_constants(
                env.deep_view(),
                items.deep_view(),
                k as nat,
                out.deep_view(),
            ),
        decreases items.len() - k,
    {
        assert(items.deep_view()[k as int] == items[k as int].deep_view());
        match &items[k] {
            ModuleDefItem::Constant(c) => {
                let typed = type_constant_def(env, c)?;
                let ghost before = out.deep_view();
                let ghost view = typed.deep_view();
                out.push(typed);
                assert(out.deep_view() =~= before.push(view));
            },
            _ => {},
        }
        k = k + 1;
    }
    Ok(out)
}

/// Whether a body agrees with one item of its interface. A function or a
/// constant that both declare has one signature in both, where the
/// signature of a generic function is read with the type parameters that
/// the body gives it; what the body does not declare is not held against
/// it.
pub open spec fn agrees_on(env: EnvView, item: ModuleDeclItemView) -> Result<(), TypeErrorKind> {
    match item {
        ModuleDeclItemView::Function(f) => match find_function_in(env.functions, f.name, 0) {
            None => Ok(()),
            Some(i) => match typed_params(
                generic_types(env.types, env.functions[i].variables, 0),
                f.params,
                0,
                Seq::empty(),
            ) {
                Err(kind) => Err(kind),
                Ok(params) => match resolved_ty(
                    generic_types(env.types, env.functions[i].variables, 0),
                    Seq::empty(),
                    f.ret_type,
                ) {
                    Err(kind) => Err(kind),
                    Ok(ret) => if params == env.functions[i].params && ret == env.functions[i].ret {
                        Ok(())
                    } else {
                        Err(TypeErrorKind::TypeMismatch)
                    },
                },
            },
        },
        ModuleDeclItemView::Constant(c) => match find_constant_in(env.constants, c.name, 0) {
            None => Ok(()),
            Some(i) => match resolved_ty(env.types, Seq::empty(), c.ty) {
                Err(kind) => Err(kind),
                Ok(ty) => same_ty(env.constants[i].ty, ty),
            },
        },
        _ => Ok(()),
    }
}

/// Whether a body agrees with the items of its interface from index `k`
/// on.
pub open spec fn agrees_with(
    env: EnvView,
    items: Seq<ModuleDeclItemView>,
    k: nat,
) -> Result<(), TypeErrorKind>
    decreases items.len() - k,
{
    if k >= items.len() {
        Ok(())
    } else {
        match agrees_on(env, items[k as int]) {
            Err(kind) => Err(kind),
            Ok(_) => agrees_with(env, items, k + 1),
        }
    }
}

/// Whether a body agrees with its interface: the one at hand that goes by
/// the body's name, if there is one.
pub open spec fn agrees_with_interface(
    env: EnvView,
    interfaces: Seq<ModuleBaseView<ModuleDeclItemView>>,
) -> Result<
    (),
    TypeErrorKind,
> {
    match find_interface_in(interfaces, env.module, 0) {
        None => Ok(()),
        Some(i) => agrees_with(env, interfaces[i].contents, 0),
    }
}

fn same_parameters(a: &Vec<ValueParameter>, b: &Vec<ValueParameter>) -> (r: bool)
    ensures
        r == (a.deep_view() == b.deep_view()),
{
    if a.len() != b.len() {
        assert(a.deep_view().len() != b.deep_view().len());
        return false;
    }
    let mut k: usize = 0;
    while k < a.len()
        invariant
            0 <= k <= a.len(),
            a.len() == b.len(),
            forall|i: int| 0 <= i < k ==> a[i].deep_view() == b[i].deep_view(),
        decreases a.len() - k,
    {
        if !(a[k].name.same(&b[k].name) && a[k].ty.equals(&b[k].ty)) {
            assert(a.deep_view()[k as int] == a[k as int].deep_view());
            assert(b.deep_view()[k as int] == b[k as int].deep_view());
            return false;
        }
        k = k + 1;
    }
    assert(a.deep_view() =~= b.deep_view());
    true
}

fn check_item(env: &Env, item: &ModuleDeclItem) -> (r: Result<(), TypeErrorKind>)
    ensures
        r == agrees_on(env.deep_view(), item.deep_view()),
{
    let regions = no_regions();
    match item {
        ModuleDeclItem::Function(f) => match find_function(&env.functions, &f.name) {
            None => Ok(()),
            Some(i) => {
                assert(env.deep_view().functions[i as int] == env.functions[i as int].deep_view());
                let inside = types_in_generic(&env.types, &env.functions[i].variables);
                let params = type_params(&inside, &f.params)?;
                let ret = resolve_type(&inside, &regions, &f.ret_type)?;
                if same_parameters(
                    &params,
                    &env.functions[i].params,
                ) && ret.equals(&env.functions[i].ret) {
                    Ok(())
                } else {
                    Err(TypeErrorKind::TypeMismatch)
                }
            },
        },
        ModuleDeclItem::Constant(c) => match find_constant(&env.constants, &c.name) {
            None => Ok(()),
            Some(i) => {
                assert(env.deep_view().constants[i as int] == env.constants[i as int].deep_view());
                let ty = resolve_type(&env.types, &regions, &c.ty)?;
                check_same_type(&env.constants[i].ty, &ty)
            },
        },
        _ => Ok(()),
    }
}

/// Checks a body against its interface.
pub fn check_interface(env: &Env, interfaces: &Vec<ModuleDecl>) -> (r: Result<(), TypeErrorKind>)
    ensures
        r == agrees_with_interface(env.deep_view(), interfaces.deep_view()),
{
    let name = Ident { name: env.module.0.clone() };
    match find_interface(interfaces, &name) {
        None => Ok(()),
        Some(i) => {
            assert(interfaces.deep_view()[i as int] == interfaces[i as int].deep_view());
            let items = &interfaces[i].contents;
            let mut k: usize = 0;
            while k < items.len()
                invariant
                    0 <= k <= items.len(),
                    agrees_with_interface(env.deep_view(), interfaces.deep_view()) == agrees_with(
                        env.deep_view(),
                        items.deep_view(),
                        0,
                    ),
                    agrees_with(env.deep_view(), items.deep_view(), 0) == agrees_with(
                        env.deep_view(),
                        items.deep_view(),
                        k as nat,
                    ),
                decreases items.len() - k,
            {
                assert(items.deep_view()[k as int] == items[k as int].deep_view());
                check_item(env, &items[k])?;
                k = k + 1;
            }
            Ok(())
        },
    }
}

/// The type of a function as a value: from the types of its parameters to
/// the type it returns.
pub open spec fn function_ty(params: Seq<ValueParameterView>, ret: TyView) -> TyView {
    TyView::FnPtr(Seq::new(params.len(), |i: int| params[i].ty), Box::new(ret))
}

/// The entries of the export table for the constants from index `k` on,
/// added to those before.
pub open spec fn exported_constants(
    constants: Seq<TypedConstantView>,
    k: nat,
    acc: Seq<ExportView>,
) -> Seq<ExportView>
    decreases constants.len() - k,
{
    if k >= constants.len() {
        acc
    } else {
        exported_constants(
            constants,
            k + 1,
            acc.push(ExportView { name: constants[k as int].name, ty: constants[k as int].ty }),
        )
    }
}

/// The entries of the export table for the functions from index `k` on,
/// added to those before.
pub open spec fn exported_functions(
    functions: Seq<TypedFunctionView>,
    k: nat,
    acc: Seq<ExportView>,
) -> Seq<ExportView>
    decreases functions.len() - k,
{
    if k >= functions.len() {
        acc
    } else {
        exported_functions(
            functions,
            k + 1,
            acc.push(
                ExportView {
                    name: functions[k as int].name,
                    ty: function_ty(functions[k as int].params, functions[k as int].ret),
                },
            ),
        )
    }
}

/// The export table: the constants of the body with their types, then its
/// functions with theirs.
pub open spec fn exports_of(
    constants: Seq<TypedConstantView>,
    functions: Seq<TypedFunctionView>,
) -> Seq<ExportView> {
    exported_functions(functions, 0, exported_constants(constants, 0, Seq::empty()))
}

fn function_type(params: &Vec<ValueParameter>, ret: &Ty) -> (r: Ty)
    ensures
        r@ == function_ty(params.deep_view(), ret@),
{
    proof {
        reveal_with_fuel(Ty::model, 2);
    }
    let mut types: Vec<Ty> = Vec::new();
    let mut k: usize = 0;
    while k < params.len()
        invariant
            0 <= k <= params.len(),
            types.len() == k,
            forall|i: int| 0 <= i < k ==> (#[trigger] types[i])@ == params[i].ty@,
        decreases params.len() - k,
    {
        types.push(params[k].ty.clone());
        k = k + 1;
    }
    let r = Ty::FnPtr(types, Box::new(ret.clone()));
    assert(r@->FnPtr_0 =~= function_ty(params.deep_view(), ret@)->FnPtr_0);
    r
}

/// Builds the export table of a typed body.
pub fn exports(constants: &Vec<TypedConstant>, functions: &Vec<TypedFunction>) -> (r: Vec<Export>)
    ensures
        r.deep_view() == exports_of(constants.deep_view(), functions.deep_view()),
{
    let mut out: Vec<Export> = Vec::new();
    let mut k: usize = 0;
    assert(out.deep_view() =~= Seq::empty());
    while k < constants.len()
        invariant
            0 <= k <= constants.len(),
            exported_constants(constants.deep_view(), 0, Seq::empty()) == exported_constants(
                constants.deep_view(),
                k as nat,
                out.deep_view(),
            ),
        decreases constants.len() - k,
    {
        assert(constants.deep_view()[k as int] == constants[k as int].deep_view());
        let added = Export { name: constants[k].name.clone(), ty: constants[k].ty.clone() };
        let ghost before = out.deep_view();
        let ghost view = added.deep_view();
        out.push(added);
        assert(out.deep_view() =~= before.push(view));
        k = k + 1;
    }
    let ghost start = out.deep_view();
    let mut j: usize = 0;
    while j < functions.len()
        invariant
            0 <= j <= functions.len(),
            exported_functions(functions.deep_view(), 0, start) == exported_functions(
                functions.deep_view(),
                j as nat,
                out.deep_view(),
            ),
        decreases functions.len() - j,
    {
        assert(functions.deep_view()[j as int] == functions[j as int].deep_view());
        let added = Export {
            name: functions[j].name.clone(),
            ty: function_type(&functions[j].params, &functions[j].ret),
        };
        let ghost before = out.deep_view();
        let ghost view = added.deep_view();
        out.push(added);
        assert(out.deep_view() =~= before.push(view));
        j = j + 1;
    }
    out
}

/// The typed form of a body: its environment is built, the body is held
/// against its interface, and its constants, its functions, the methods of
/// its instances and the bodies that its typeclasses give their methods
/// are typed. The first error ends the work.
pub open spec fn typed_module(
    module: ModuleBaseView<ModuleDefItemView>,
    interfaces: Seq<ModuleBaseView<ModuleDeclItemView>>,
) -> Result<
    TypedModuleView,
    TypeErrorKind,
> {
    match environment_of(module, interfaces) {
        Err(kind) => Err(kind),
        Ok(env) => match agrees_with_interface(env, interfaces) {
            Err(kind) => Err(kind),
            Ok(_) => match typed_constants(env, module.contents, 0, Seq::empty()) {
                Err(kind) => Err(kind),
                Ok(constants) => match typed_functions(env, module.contents, 0, Seq::empty()) {
                    Err(kind) => Err(kind),
                    Ok(functions) => match typed_instances(env, module.contents, 0, Seq::empty()) {
                        Err(kind) => Err(kind),
                        Ok(instances) => match typed_defaults(
                            env,
                            module.contents,
                            0,
                            Seq::empty(),
                        ) {
                            Err(kind) => Err(kind),
                            Ok(defaults) => Ok(
                                TypedModuleView {
                                    name: module.name,
                                    constants,
                                    functions,
                                    instances,
                                    defaults,
                                    exports: exports_of(constants, functions),
                                },
                            ),
                        },
                    },
                },
            },
        },
    }
}

/// What a type error of a kind says.
pub open spec fn detail_of(kind: TypeErrorKind) -> Seq<char> {
    match kind {
        TypeErrorKind::UndefinedSymbol => "a name is not declared"@,
        TypeErrorKind::ArityMismatch => "a call has the wrong number of arguments"@,
        TypeErrorKind::TypeMismatch => "a value is not of the type asked for"@,
        TypeErrorKind::UniverseMismatch => "a slot is of a universe above its declaration's"@,
        TypeErrorKind::BadCast => "a cast between these types is not allowed"@,
        TypeErrorKind::MixedArgumentStyle => "positional and named arguments are mixed"@,
        TypeErrorKind::NonExhaustiveDestructure => "a destructuring leaves a slot out"@,
        TypeErrorKind::OverlappingInstance => "two instances match one type"@,
        TypeErrorKind::MissingInstance => "no instance matches the type"@,
    }
}

/// The type error of a kind. The trees typed here carry no positions, so
/// the error stands at the start of the source.
pub fn type_error(kind: TypeErrorKind) -> (r: TypeError)
    ensures
        r.kind == kind,
        r.span == no_span(),
        r.detail@ == detail_of(kind),
{
    let detail = match kind {
        TypeErrorKind::UndefinedSymbol => "a name is not declared",
        TypeErrorKind::ArityMismatch => "a call has the wrong number of arguments",
        TypeErrorKind::TypeMismatch => "a value is not of the type asked for",
        TypeErrorKind::UniverseMismatch => "a slot is of a universe above its declaration's",
        TypeErrorKind::BadCast => "a cast between these types is not allowed",
        TypeErrorKind::MixedArgumentStyle => "positional and named arguments are mixed",
        TypeErrorKind::NonExhaustiveDestructure => "a destructuring leaves a slot out",
        TypeErrorKind::OverlappingInstance => "two instances match one type",
        TypeErrorKind::MissingInstance => "no instance matches the type",
    };
    TypeError { span: blank_span(), kind, detail: String::from_str(detail) }
}

/// Whether what the type checker gave for a body is what the rules give.
pub open spec fn module_as(
    r: Result<TypedModule, TypeError>,
    rule: Result<TypedModuleView, TypeErrorKind>,
) -> bool {
    match (r, rule) {
        (Ok(m), Ok(v)) => m.deep_view() == v,
        (
            Err(e),
            Err(kind),
        ) => e.kind == kind && e.span == no_span() && e.detail@ == detail_of(kind),
        _ => false,
    }
}

fn check_module(
    module: &ModuleDef,
    interfaces: &Vec<ModuleDecl>,
) -> (r: Result<TypedModule, TypeErrorKind>)
    ensures
        match (r, typed_module(module.deep_view(), interfaces.deep_view())) {
            (Ok(m), Ok(v)) => m.deep_view() == v,
            (Err(a), Err(b)) => a == b,
            _ => false,
        },
{
    let env = environment(module, interfaces)?;
    check_interface(&env, interfaces)?;
    let constants = type_constants(&env, &module.contents)?;
    let functions = type_functions(&env, &module.contents)?;
    let instances = type_instances(&env, &module.contents)?;
    let defaults = type_defaults(&env, &module.contents)?;
    let exports = exports(&constants, &functions);
    Ok(
        TypedModule {
            name: name_of(&module.name),
            constants,
            functions,
            instances,
            defaults,
            exports,
        },
    )
}

/// Type-checks a module body against the interfaces it imports: the typed
/// tree and the export table, or the first type error.
pub fn type_check(
    module: &ModuleDef,
    interfaces: &Vec<ModuleDecl>,
) -> (r: Result<TypedModule, TypeError>)
    ensures
        module_as(r, typed_module(module.deep_view(), interfaces.deep_view())),
{
    match check_module(module, interfaces) {
        Ok(typed) => Ok(typed),
        Err(kind) => Err(type_error(kind)),
    }
}

/// The number of the type variable of the typeclass that comes after
/// `count` others.
pub open spec fn variable_number(count: nat) -> u64 {
    if count <= u64::MAX {
        count as u64
    } else {
        u64::MAX
    }
}

/// The type variable that the type parameter of a typeclass stands for:
/// it is of the universe of the parameter and constrained by the
/// typeclass.
pub open spec fn class_variable(class: Seq<char>, param: TypeParamView, variable: u64) -> TyView {
    TyView::TyVar(variable, universe_named(param.universe), seq![class])
}

/// The names of types inside a typeclass: its type parameter, which hides
/// a type of its name, and the types in scope.
pub open spec fn class_types(
    types: Seq<TypeNameView>,
    class: Seq<char>,
    param: TypeParamView,
    variable: u64,
) -> Seq<TypeNameView> {
    seq![TypeNameView { name: param.name, ty: class_variable(class, param, variable) }] + types
}

/// What the environment holds of a method of a typeclass: its signature,
/// resolved with the names of types inside the typeclass.
pub open spec fn method_of(
    types: Seq<TypeNameView>,
    class: Seq<char>,
    param: TypeParamView,
    variable: u64,
    m: MethodDeclView,
) -> Result<MethodInfoView, TypeErrorKind> {
    match typed_params(types, m.params, 0, Seq::empty()) {
        Err(kind) => Err(kind),
        Ok(params) => match resolved_ty(types, Seq::empty(), m.ret_ty) {
            Err(kind) => Err(kind),
            Ok(ret) => Ok(
                MethodInfoView {
                    typeclass: class,
                    variable,
                    universe: universe_named(param.universe),
                    name: m.name,
                    params,
                    ret,
                },
            ),
        },
    }
}

/// The methods of a typeclass from index `k` on, added to those before.
pub open spec fn class_methods(
    types: Seq<TypeNameView>,
    class: Seq<char>,
    param: TypeParamView,
    variable: u64,
    methods: Seq<MethodDeclView>,
    k: nat,
    acc: Seq<MethodInfoView>,
) -> Result<Seq<MethodInfoView>, TypeErrorKind>
    decreases methods.len() - k,
{
    if k >= methods.len() {
        Ok(acc)
    } else {
        match method_of(types, class, param, variable, methods[k as int]) {
            Err(kind) => Err(kind),
            Ok(info) => class_methods(
                types,
                class,
                param,
                variable,
                methods,
                k + 1,
                acc.push(info),
            ),
        }
    }
}

/// The methods of the typeclasses among the declarations from index `k` on,
/// added to those before. `count` typeclasses came before.
pub open spec fn methods_of(
    types: Seq<TypeNameView>,
    sources: Seq<SourceView>,
    k: nat,
    count: nat,
    acc: Seq<MethodInfoView>,
) -> Result<Seq<MethodInfoView>, TypeErrorKind>
    decreases sources.len() - k,
{
    if k >= sources.len() {
        Ok(acc)
    } else {
        match sources[k as int].item {
            DeclaredView::TypeClass(c) => match class_methods(
                class_types(types, sources[k as int].local, c.type_param, variable_number(count)),
                sources[k as int].local,
                c.type_param,
                variable_number(count),
                c.methods,
                0,
                acc,
            ) {
                Err(kind) => Err(kind),
                Ok(more) => methods_of(types, sources, k + 1, count + 1, more),
            },
            _ => methods_of(types, sources, k + 1, count, acc),
        }
    }
}

fn copy_types(items: &Vec<TypeName>, out: &mut Vec<TypeName>)
    ensures
        final(out).deep_view() == old(out).deep_view() + items.deep_view(),
{
    let ghost start = out.deep_view();
    let mut k: usize = 0;
    assert(out.deep_view() =~= start + items.deep_view().take(0));
    while k < items.len()
        invariant
            0 <= k <= items.len(),
            out.deep_view() == start + items.deep_view().take(k as int),
        decreases items.len() - k,
    {
        let added = TypeName { name: items[k].name.clone(), ty: items[k].ty.clone() };
        let ghost before = out.deep_view();
        let ghost view = added.deep_view();
        out.push(added);
        assert(out.deep_view() =~= before.push(view));
        assert(view == items.deep_view()[k as int]);
        assert(items.deep_view().take(k + 1) =~= items.deep_view().take(k as int).push(view));
        assert(out.deep_view() =~= start + items.deep_view().take(k + 1));
        k = k + 1;
    }
    assert(items.deep_view().take(items.len() as int) =~= items.deep_view());
}

fn number_variable(count: usize) -> (r: u64)
    ensures
        r == variable_number(count as nat),
{
    count as u64
}

fn types_in_class(types: &Vec<TypeName>, class: &Ident, param: &TypeParam, variable: u64) -> (r: Vec<
    TypeName,
>)
    ensures
        r.deep_view() == class_types(
            types.deep_view(),
            class.deep_view(),
            param.deep_view(),
            variable,
        ),
{
    let mut constraints: Vec<Identifier> = Vec::new();
    constraints.push(name_of(class));
    let var = Ty::TyVar(
        TypeVariable { id: variable, universe: universe_of_name(&param.universe), constraints },
    );
    assert(var@->TyVar_2 =~= seq![class.deep_view()]);
    let mut out: Vec<TypeName> = Vec::new();
    out.push(TypeName { name: name_of(&param.name), ty: var });
    assert(out.deep_view() =~= seq![
        TypeNameView {
            name: param.deep_view().name,
            ty: class_variable(class.deep_view(), param.deep_view(), variable),
        },
    ]);
    copy_types(types, &mut out);
    out
}

fn method_info(types: &Vec<TypeName>, class: &Ident, param: &TypeParam, variable: u64, m: &MethodDecl) -> (r: Result<
    MethodInfo,
    TypeErrorKind,
>)
    ensures
        match (
            r,
            method_of(
                types.deep_view(),
                class.deep_view(),
                param.deep_view(),
                variable,
                m.deep_view(),
            ),
        ) {
            (Ok(x), Ok(v)) => x.deep_view() == v,
            (Err(a), Err(b)) => a == b,
            _ => false,
        },
{
    let regions = no_regions();
    let params = type_params(types, &m.params)?;
    let ret = resolve_type(types, &regions, &m.ret_ty)?;
    Ok(
        MethodInfo {
            typeclass: name_of(class),
            variable,
            universe: universe_of_name(&param.universe),
            name: name_of(&m.name),
            params,
            ret,
        },
    )
}

/// Whether what was computed for a list of methods is what the rules give.
pub open spec fn methods_as(
    r: Result<Vec<MethodInfo>, TypeErrorKind>,
    rule: Result<Seq<MethodInfoView>, TypeErrorKind>,
) -> bool {
    match (r, rule) {
        (Ok(x), Ok(v)) => x.deep_view() == v,
        (Err(a), Err(b)) => a == b,
        _ => false,
    }
}

fn methods_declared(
    types: &Vec<TypeName>,
    class: &Ident,
    param: &TypeParam,
    variable: u64,
    methods: &Vec<MethodDecl>,
    acc: Vec<MethodInfo>,
) -> (r: Result<Vec<MethodInfo>, TypeErrorKind>)
    ensures
        methods_as(
            r,
            class_methods(
                types.deep_view(),
                class.deep_view(),
                param.deep_view(),
                variable,
                methods.deep_view(),
                0,
                acc.deep_view(),
            ),
        ),
{
    let mut out = acc;
    let mut k: usize = 0;
    while k < methods.len()
        invariant
            0 <= k <= methods.len(),
            class_methods(
                types.deep_view(),
                class.deep_view(),
                param.deep_view(),
                variable,
                methods.deep_view(),
                0,
                acc.deep_view(),
            ) == class_methods(
                types.deep_view(),
                class.deep_view(),
                param.deep_view(),
                variable,
                methods.deep_view(),
                k as nat,
                out.deep_view(),
            ),
        decreases methods.len() - k,
    {
        assert(methods.deep_view()[k as int] == methods[k as int].deep_view());
        let info = method_info(types, class, param, variable, &methods[k])?;
        let ghost before = out.deep_view();
        let ghost view = info.deep_view();
        out.push(info);
        assert(out.deep_view() =~= before.push(view));
        k = k + 1;
    }
    Ok(out)
}

fn methods_defined(
    types: &Vec<TypeName>,
    class: &Ident,
    param: &TypeParam,
    variable: u64,
    methods: &Vec<MethodDef>,
    acc: Vec<MethodInfo>,
) -> (r: Result<Vec<MethodInfo>, TypeErrorKind>)
    ensures
        methods_as(
            r,
            class_methods(
                types.deep_view(),
                class.deep_view(),
                param.deep_view(),
                variable,
                declared_methods(methods.deep_view()),
                0,
                acc.deep_view(),
            ),
        ),
{
    let ghost decls = declared_methods(methods.deep_view());
    let mut out = acc;
    let mut k: usize = 0;
    while k < methods.len()
        invariant
            0 <= k <= methods.len(),
            decls == declared_methods(methods.deep_view()),
            class_methods(
                types.deep_view(),
                class.deep_view(),
                param.deep_view(),
                variable,
                decls,
                0,
                acc.deep_view(),
            ) == class_methods(
                types.deep_view(),
                class.deep_view(),
                param.deep_view(),
                variable,
                decls,
                k as nat,
                out.deep_view(),
            ),
        decreases methods.len() - k,
    {
        assert(methods.deep_view()[k as int] == methods[k as int].deep_view());
        assert(decls[k as int] == methods[k as int].decl.deep_view());
        let info = method_info(types, class, param, variable, &methods[k].decl)?;
        let ghost before = out.deep_view();
        let ghost view = info.deep_view();
        out.push(info);
        assert(out.deep_view() =~= before.push(view));
        k = k + 1;
    }
    Ok(out)
}

/// Collects the methods of the typeclasses in scope.
pub fn collect_methods(types: &Vec<TypeName>, sources: &Vec<Source>) -> (r: Result<
    Vec<MethodInfo>,
    TypeErrorKind,
>)
    ensures
        methods_as(r, methods_of(types.deep_view(), sources.deep_view(), 0, 0, Seq::empty())),
{
    let mut out: Vec<MethodInfo> = Vec::new();
    let mut k: usize = 0;
    let mut count: usize = 0;
    assert(out.deep_view() =~= Seq::empty());
    while k < sources.len()
        invariant
            0 <= k <= sources.len(),
            count <= k,
            methods_of(types.deep_view(), sources.deep_view(), 0, 0, Seq::empty()) == methods_of(
                types.deep_view(),
                sources.deep_view(),
                k as nat,
                count as nat,
                out.deep_view(),
            ),
        decreases sources.len() - k,
    {
        assert(sources.deep_view()[k as int] == sources[k as int].deep_view());
        match &sources[k].item {
            Declared::TypeClass(c) => {
                let variable = number_variable(count);
                let inside = types_in_class(types, sources[k].local, &c.type_param, variable);
                out = methods_declared(
                    &inside,
                    sources[k].local,
                    &c.type_param,
                    variable,
                    &c.methods,
                    out,
                )?;
                count = count + 1;
            },
            Declared::TypeClassBody(c) => {
                let variable = number_variable(count);
                let inside = types_in_class(types, sources[k].local, &c.type_param, variable);
                out = methods_defined(
                    &inside,
                    sources[k].local,
                    &c.type_param,
                    variable,
                    &c.methods,
                    out,
                )?;
                count = count + 1;
            },
            _ => {},
        }
        k = k + 1;
    }
    Ok(out)
}

/// The instances that the items of an interface from index `k` on declare,
/// added to those before. An instance for a type that is not in scope is
/// not in scope.
pub open spec fn interface_instances(
    types: Seq<TypeNameView>,
    items: Seq<ModuleDeclItemView>,
    k: nat,
    acc: Seq<InstanceInfoView>,
) -> Seq<InstanceInfoView>
    decreases items.len() - k,
{
    if k >= items.len() {
        acc
    } else {
        match items[k as int] {
            ModuleDeclItemView::Instance(inst) => match resolved_ty(types, Seq::empty(), inst.arg) {
                Err(_) => interface_instances(types, items, k + 1, acc),
                Ok(arg) => interface_instances(
                    types,
                    items,
                    k + 1,
                    acc.push(
                        InstanceInfoView {
                            id: function_number(acc.len()),
                            typeclass: inst.name,
                            arg,
                        },
                    ),
                ),
            },
            _ => interface_instances(types, items, k + 1, acc),
        }
    }
}

/// The instances that the interfaces from index `k` on declare, added to
/// those before. The interface of the body itself is left out: the body
/// defines what that declares.
pub open spec fn interfaces_instances(
    types: Seq<TypeNameView>,
    module: Seq<char>,
    interfaces: Seq<ModuleBaseView<ModuleDeclItemView>>,
    k: nat,
    acc: Seq<InstanceInfoView>,
) -> Seq<InstanceInfoView>
    decreases interfaces.len() - k,
{
    if k >= interfaces.len() {
        acc
    } else if interfaces[k as int].name == module {
        interfaces_instances(types, module, interfaces, k + 1, acc)
    } else {
        interfaces_instances(
            types,
            module,
            interfaces,
            k + 1,
            interface_instances(types, interfaces[k as int].contents, 0, acc),
        )
    }
}

/// The instances that the items of a body from index `k` on define, added
/// to those before.
pub open spec fn body_instances(
    types: Seq<TypeNameView>,
    items: Seq<ModuleDefItemView>,
    k: nat,
    acc: Seq<InstanceInfoView>,
) -> Result<Seq<InstanceInfoView>, TypeErrorKind>
    decreases items.len() - k,
{
    if k >= items.len() {
        Ok(acc)
    } else {
        match items[k as int] {
            ModuleDefItemView::Instance(inst) => match resolved_ty(types, Seq::empty(), inst.arg) {
                Err(kind) => Err(kind),
                Ok(arg) => body_instances(
                    types,
                    items,
                    k + 1,
                    acc.push(
                        InstanceInfoView {
                            id: function_number(acc.len()),
                            typeclass: inst.name,
                            arg,
                        },
                    ),
                ),
            },
            _ => body_instances(types, items, k + 1, acc),
        }
    }
}

/// The instances in scope in a body: those of the interfaces at hand,
/// then its own. An instance is numbered by its place among them.
pub open spec fn instances_of(
    types: Seq<TypeNameView>,
    module: ModuleBaseView<ModuleDefItemView>,
    interfaces: Seq<ModuleBaseView<ModuleDeclItemView>>,
) -> Result<Seq<InstanceInfoView>, TypeErrorKind> {
    body_instances(
        types,
        module.contents,
        0,
        interfaces_instances(types, module.name, interfaces, 0, Seq::empty()),
    )
}

/// Whether no two instances are instances of one typeclass for one type.
pub open spec fn distinct_instances(instances: Seq<InstanceInfoView>) -> bool {
    forall|i: int, j: int|
        0 <= i < j < instances.len() ==> !(instances[i].typeclass == instances[j].typeclass
            && instances[i].arg == instances[j].arg)
}

fn instances_declared(types: &Vec<TypeName>, items: &Vec<ModuleDeclItem>, acc: Vec<InstanceInfo>) -> (r: Vec<
    InstanceInfo,
>)
    ensures
        r.deep_view() == interface_instances(
            types.deep_view(),
            items.deep_view(),
            0,
            acc.deep_view(),
        ),
{
    let regions = no_regions();
    let mut out = acc;
    let mut k: usize = 0;
    while k < items.len()
        invariant
            0 <= k <= items.len(),
            regions.deep_view() == Seq::<RegionNameView>::empty(),
            interface_instances(types.deep_view(), items.deep_view(), 0, acc.deep_view())
                == interface_instances(
                    types.deep_view(),
                    items.deep_view(),
                    k as nat,
                    out.deep_view(),
                ),
        decreases items.len() - k,
    {
        assert(items.deep_view()[k as int] == items[k as int].deep_view());
        match &items[k] {
            ModuleDeclItem::Instance(inst) => match resolve_type(types, &regions, &inst.arg) {
                Err(_) => {},
                Ok(arg) => {
                    let added = InstanceInfo {
                        id: number_function(out.len()),
                        typeclass: name_of(&inst.name),
                        arg,
                    };
                    let ghost before = out.deep_view();
                    let ghost view = added.deep_view();
                    out.push(added);
                    assert(out.deep_view() =~= before.push(view));
                },
            },
            _ => {},
        }
        k = k + 1;
    }
    out
}

/// Collects the instances in scope in a body.
pub fn collect_instances(types: &Vec<TypeName>, module: &ModuleDef, interfaces: &Vec<ModuleDecl>) -> (r: Result<
    Vec<InstanceInfo>,
    TypeErrorKind,
>)
    ensures
        match (r, instances_of(types.deep_view(), module.deep_view(), interfaces.deep_view())) {
            (Ok(x), Ok(v)) => x.deep_view() == v,
            (Err(a), Err(b)) => a == b,
            _ => false,
        },
{
    let regions = no_regions();
    let mut out: Vec<InstanceInfo> = Vec::new();
    assert(out.deep_view() =~= Seq::empty());
    let mut i: usize = 0;
    while i < interfaces.len()
        invariant
            0 <= i <= interfaces.len(),
            interfaces_instances(
                types.deep_view(),
                module.deep_view().name,
                interfaces.deep_view(),
                0,
                Seq::empty(),
            ) == interfaces_instances(
                types.deep_view(),
                module.deep_view().name,
                interfaces.deep_view(),
                i as nat,
                out.deep_view(),
            ),
        decreases interfaces.len() - i,
    {
        assert(interfaces.deep_view()[i as int] == interfaces[i as int].deep_view());
        if !(interfaces[i].name.name == module.name.name) {
            out = instances_declared(types, &interfaces[i].contents, out);
        }
        i = i + 1;
    }
    let items = &module.contents;
    let mut k: usize = 0;
    while k < items.len()
        invariant
            0 <= k <= items.len(),
            items == &module.contents,
            regions.deep_view() == Seq::<RegionNameView>::empty(),
            instances_of(types.deep_view(), module.deep_view(), interfaces.deep_view())
                == body_instances(types.deep_view(), items.deep_view(), k as nat, out.deep_view()),
        decreases items.len() - k,
    {
        assert(items.deep_view()[k as int] == items[k as int].deep_view());
        match &items[k] {
            ModuleDefItem::Instance(inst) => {
                let arg = resolve_type(types, &regions, &inst.arg)?;
                let added = InstanceInfo {
                    id: number_function(out.len()),
                    typeclass: name_of(&inst.name),
                    arg,
                };
                let ghost before = out.deep_view();
                let ghost view = added.deep_view();
                out.push(added);
                assert(out.deep_view() =~= before.push(view));
            },
            _ => {},
        }
        k = k + 1;
    }
    Ok(out)
}

/// Whether no instance is given twice.
pub fn check_distinct_instances(instances: &Vec<InstanceInfo>) -> (r: bool)
    ensures
        r == distinct_instances(instances.deep_view()),
{
    let ghost iv = instances.deep_view();
    let mut j: usize = 0;
    while j < instances.len()
        invariant
            0 <= j <= instances.len(),
            iv == instances.deep_view(),
            forall|a: int, b: int|
                0 <= a < b < j ==> !(iv[a].typeclass == iv[b].typeclass && iv[a].arg == iv[b].arg),
        decreases instances.len() - j,
    {
        let mut i: usize = 0;
        while i < j
            invariant
                0 <= i <= j < instances.len(),
                iv == instances.deep_view(),
                forall|a: int|
                    0 <= a < i ==> !(iv[a].typeclass == iv[j as int].typeclass && iv[a].arg
                        == iv[j as int].arg),
            decreases j - i,
        {
            assert(iv[i as int] == instances[i as int].deep_view());
            assert(iv[j as int] == instances[j as int].deep_view());
            if instances[i].typeclass.same(&instances[j].typeclass) && instances[i].arg.equals(
                &instances[j].arg,
            ) {
                return false;
            }
            i = i + 1;
        }
        j = j + 1;
    }
    true
}

/// The typed method of an instance. The typeclass must have a method of
/// its name; the signature that the instance writes must be the signature
/// of that method with the type of the instance put for the type variable;
/// and the body is typed in the scope of the parameters.
pub open spec fn typed_method(
    env: EnvView,
    class: Seq<char>,
    arg: TyView,
    m: MethodDefView,
) -> Result<
    TypedFunctionView,
    TypeErrorKind,
> {
    match find_method_of_in(env.methods, class, m.decl.name, 0) {
        None => Err(TypeErrorKind::UndefinedSymbol),
        Some(i) => match typed_params(env.types, m.decl.params, 0, Seq::empty()) {
            Err(kind) => Err(kind),
            Ok(params) => match resolved_ty(env.types, Seq::empty(), m.decl.ret_ty) {
                Err(kind) => Err(kind),
                Ok(ret) => if params != bound_params(
                    env.methods[i].params,
                    env.methods[i].variable,
                    arg,
                )
                    || ret != substituted(env.methods[i].ret, env.methods[i].variable, arg) {
                    Err(TypeErrorKind::TypeMismatch)
                } else {
                    match typed_block(
                        Context { env, scope: function_scope(env.types, params, ret) },
                        m.body,
                        0,
                    ) {
                        Err(kind) => Err(kind),
                        Ok(body) => Ok(TypedFunctionView { name: m.decl.name, params, ret, body }),
                    }
                },
            },
        },
    }
}

/// The typed methods of an instance from index `k` on, added to those
/// before.
pub open spec fn typed_methods(
    env: EnvView,
    class: Seq<char>,
    arg: TyView,
    methods: Seq<MethodDefView>,
    k: nat,
    acc: Seq<TypedFunctionView>,
) -> Result<Seq<TypedFunctionView>, TypeErrorKind>
    decreases methods.len() - k,
{
    if k >= methods.len() {
        Ok(acc)
    } else {
        match typed_method(env, class, arg, methods[k as int]) {
            Err(kind) => Err(kind),
            Ok(typed) => typed_methods(env, class, arg, methods, k + 1, acc.push(typed)),
        }
    }
}

/// The typed instance: its type is resolved, and its methods are typed.
pub open spec fn typed_instance(env: EnvView, inst: InstanceBaseView<MethodDefView>) -> Result<
    TypedInstanceView,
    TypeErrorKind,
> {
    match resolved_ty(env.types, Seq::empty(), inst.arg) {
        Err(kind) => Err(kind),
        Ok(arg) => match typed_methods(env, inst.name, arg, inst.methods, 0, Seq::empty()) {
            Err(kind) => Err(kind),
            Ok(methods) => Ok(TypedInstanceView { typeclass: inst.name, arg, methods }),
        },
    }
}

/// The typed instances of the items from index `k` on, added to those
/// before.
pub open spec fn typed_instances(
    env: EnvView,
    items: Seq<ModuleDefItemView>,
    k: nat,
    acc: Seq<TypedInstanceView>,
) -> Result<Seq<TypedInstanceView>, TypeErrorKind>
    decreases items.len() - k,
{
    if k >= items.len() {
        Ok(acc)
    } else {
        match items[k as int] {
            ModuleDefItemView::Instance(inst) => match typed_instance(env, inst) {
                Err(kind) => Err(kind),
                Ok(typed) => typed_instances(env, items, k + 1, acc.push(typed)),
            },
            _ => typed_instances(env, items, k + 1, acc),
        }
    }
}

/// Types a method of an instance of a typeclass for a type.
pub fn type_method(env: &Env, class: &Ident, arg: &Ty, m: &MethodDef) -> (r: Result<
    TypedFunction,
    TypeErrorKind,
>)
    ensures
        match (r, typed_method(env.deep_view(), class.deep_view(), arg@, m.deep_view())) {
            (Ok(x), Ok(v)) => x.deep_view() == v,
            (Err(a), Err(b)) => a == b,
            _ => false,
        },
{
    let regions = no_regions();
    let class_name = name_of(class);
    match find_method_of(&env.methods, &class_name, &m.decl.name) {
        None => Err(TypeErrorKind::UndefinedSymbol),
        Some(i) => {
            assert(env.deep_view().methods[i as int] == env.methods[i as int].deep_view());
            let info = &env.methods[i];
            let params = type_params(&env.types, &m.decl.params)?;
            let ret = resolve_type(&env.types, &regions, &m.decl.ret_ty)?;
            let wanted = bind_params(&info.params, info.variable, arg);
            let wanted_ret = substitute(&info.ret, info.variable, arg);
            if !same_parameters(&params, &wanted) || !ret.equals(&wanted_ret) {
                return Err(TypeErrorKind::TypeMismatch);
            }
            let scope = scope_of_function(&env.types, &params, &ret);
            let body = type_block(env, &scope, &m.body, 0)?;
            Ok(TypedFunction { name: name_of(&m.decl.name), params, ret, body })
        },
    }
}

fn type_methods(env: &Env, class: &Ident, arg: &Ty, methods: &Vec<MethodDef>) -> (r: Result<
    Vec<TypedFunction>,
    TypeErrorKind,
>)
    ensures
        match (
            r,
            typed_methods(
                env.deep_view(),
                class.deep_view(),
                arg@,
                methods.deep_view(),
                0,
                Seq::empty(),
            ),
        ) {
            (Ok(x), Ok(v)) => x.deep_view() == v,
            (Err(a), Err(b)) => a == b,
            _ => false,
        },
{
    let mut out: Vec<TypedFunction> = Vec::new();
    let mut k: usize = 0;
    assert(out.deep_view() =~= Seq::empty());
    while k < methods.len()
        invariant
            0 <= k <= methods.len(),
            typed_methods(
                env.deep_view(),
                class.deep_view(),
                arg@,
                methods.deep_view(),
                0,
                Seq::empty(),
            ) == typed_methods(
                env.deep_view(),
                class.deep_view(),
                arg@,
                methods.deep_view(),
                k as nat,
                out.deep_view(),
            ),
        decreases methods.len() - k,
    {
        assert(methods.deep_view()[k as int] == methods[k as int].deep_view());
        let typed = type_method(env, class, arg, &methods[k])?;
        let ghost before = out.deep_view();
        let ghost view = typed.deep_view();
        out.push(typed);
        assert(out.deep_view() =~= before.push(view));
        k = k + 1;
    }
    Ok(out)
}

/// Types an instance of a body.
pub fn type_instance(env: &Env, inst: &InstanceBase<MethodDef>) -> (r: Result<
    TypedInstance,
    TypeErrorKind,
>)
    ensures
        match (r, typed_instance(env.deep_view(), inst.deep_view())) {
            (Ok(x), Ok(v)) => x.deep_view() == v,
            (Err(a), Err(b)) => a == b,
            _ => false,
        },
{
    let regions = no_regions();
    let arg = resolve_type(&env.types, &regions, &inst.arg)?;
    let methods = type_methods(env, &inst.name, &arg, &inst.methods)?;
    Ok(TypedInstance { typeclass: name_of(&inst.name), arg, methods })
}

fn type_instances(
    env: &Env,
    items: &Vec<ModuleDefItem>,
) -> (r: Result<Vec<TypedInstance>, TypeErrorKind>)
    ensures
        match (r, typed_instances(env.deep_view(), items.deep_view(), 0, Seq::empty())) {
            (Ok(x), Ok(v)) => x.deep_view() == v,
            (Err(a), Err(b)) => a == b,
            _ => false,
        },
{
    let mut out: Vec<TypedInstance> = Vec::new();
    let mut k: usize = 0;
    assert(out.deep_view() =~= Seq::empty());
    while k < items.len()
        invariant
            0 <= k <= items.len(),
            typed_instances(env.deep_view(), items.deep_view(), 0, Seq::empty()) == typed_instances(
                env.deep_view(),
                items.deep_view(),
                k as nat,
                out.deep_view(),
            ),
        decreases items.len() - k,
    {
        assert(items.deep_view()[k as int] == items[k as int].deep_view());
        match &items[k] {
            ModuleDefItem::Instance(inst) => {
                let typed = type_instance(env, inst)?;
                let ghost before = out.deep_view();
                let ghost view = typed.deep_view();
                out.push(typed);
                assert(out.deep_view() =~= before.push(view));
            },
            _ => {},
        }
        k = k + 1;
    }
    Ok(out)
}

/// The typed body that a typeclass of the body gives a method: it is typed
/// in the scope of the parameters of the method, whose types may be the
/// type variable of the typeclass, with the type parameter as a name of
/// that variable.
pub open spec fn typed_default(
    env: EnvView,
    class: Seq<char>,
    param: TypeParamView,
    m: MethodDefView,
) -> Result<TypedFunctionView, TypeErrorKind> {
    match find_method_of_in(env.methods, class, m.decl.name, 0) {
        None => Err(TypeErrorKind::UndefinedSymbol),
        Some(i) => match typed_block(
            Context {
                env,
                scope: function_scope(
                    class_types(env.types, class, param, env.methods[i].variable),
                    env.methods[i].params,
                    env.methods[i].ret,
                ),
            },
            m.body,
            0,
        ) {
            Err(kind) => Err(kind),
            Ok(body) => Ok(
                TypedFunctionView {
                    name: m.decl.name,
                    params: env.methods[i].params,
                    ret: env.methods[i].ret,
                    body,
                },
            ),
        },
    }
}

/// The typed bodies of the methods of a typeclass from index `k` on, added
/// to those before.
pub open spec fn class_defaults(
    env: EnvView,
    class: Seq<char>,
    param: TypeParamView,
    methods: Seq<MethodDefView>,
    k: nat,
    acc: Seq<TypedFunctionView>,
) -> Result<Seq<TypedFunctionView>, TypeErrorKind>
    decreases methods.len() - k,
{
    if k >= methods.len() {
        Ok(acc)
    } else {
        match typed_default(env, class, param, methods[k as int]) {
            Err(kind) => Err(kind),
            Ok(typed) => class_defaults(env, class, param, methods, k + 1, acc.push(typed)),
        }
    }
}

/// The typed bodies of the methods of the typeclasses among the items from
/// index `k` on, added to those before.
pub open spec fn typed_defaults(
    env: EnvView,
    items: Seq<ModuleDefItemView>,
    k: nat,
    acc: Seq<TypedFunctionView>,
) -> Result<Seq<TypedFunctionView>, TypeErrorKind>
    decreases items.len() - k,
{
    if k >= items.len() {
        Ok(acc)
    } else {
        match items[k as int] {
            ModuleDefItemView::TypeClass(c) => match class_defaults(
                env,
                c.name,
                c.type_param,
                c.methods,
                0,
                acc,
            ) {
                Err(kind) => Err(kind),
                Ok(more) => typed_defaults(env, items, k + 1, more),
            },
            _ => typed_defaults(env, items, k + 1, acc),
        }
    }
}

/// Types the body that a typeclass gives a method.
pub fn type_default(env: &Env, class: &Ident, param: &TypeParam, m: &MethodDef) -> (r: Result<
    TypedFunction,
    TypeErrorKind,
>)
    ensures
        match (
            r,
            typed_default(env.deep_view(), class.deep_view(), param.deep_view(), m.deep_view()),
        ) {
            (Ok(x), Ok(v)) => x.deep_view() == v,
            (Err(a), Err(b)) => a == b,
            _ => false,
        },
{
    let class_name = name_of(class);
    match find_method_of(&env.methods, &class_name, &m.decl.name) {
        None => Err(TypeErrorKind::UndefinedSymbol),
        Some(i) => {
            assert(env.deep_view().methods[i as int] == env.methods[i as int].deep_view());
            let info = &env.methods[i];
            let inside = types_in_class(&env.types, class, param, info.variable);
            let scope = scope_of_function(&inside, &info.params, &info.ret);
            let body = type_block(env, &scope, &m.body, 0)?;
            Ok(
                TypedFunction {
                    name: name_of(&m.decl.name),
                    params: copy_parameters(&info.params),
                    ret: info.ret.clone(),
                    body,
                },
            )
        },
    }
}

fn type_class_defaults(
    env: &Env,
    class: &Ident,
    param: &TypeParam,
    methods: &Vec<MethodDef>,
    acc: Vec<TypedFunction>,
) -> (r: Result<Vec<TypedFunction>, TypeErrorKind>)
    ensures
        match (
            r,
            class_defaults(
                env.deep_view(),
                class.deep_view(),
                param.deep_view(),
                methods.deep_view(),
                0,
                acc.deep_view(),
            ),
        ) {
            (Ok(x), Ok(v)) => x.deep_view() == v,
            (Err(a), Err(b)) => a == b,
            _ => false,
        },
{
    let mut out = acc;
    let mut k: usize = 0;
    while k < methods.len()
        invariant
            0 <= k <= methods.len(),
            class_defaults(
                env.deep_view(),
                class.deep_view(),
                param.deep_view(),
                methods.deep_view(),
                0,
                acc.deep_view(),
            ) == class_defaults(
                env.deep_view(),
                class.deep_view(),
                param.deep_view(),
                methods.deep_view(),
                k as nat,
                out.deep_view(),
            ),
        decreases methods.len() - k,
    {
        assert(methods.deep_view()[k as int] == methods[k as int].deep_view());
        let typed = type_default(env, class, param, &methods[k])?;
        let ghost before = out.deep_view();
        let ghost view = typed.deep_view();
        out.push(typed);
        assert(out.deep_view() =~= before.push(view));
        k = k + 1;
    }
    Ok(out)
}

fn type_defaults(
    env: &Env,
    items: &Vec<ModuleDefItem>,
) -> (r: Result<Vec<TypedFunction>, TypeErrorKind>)
    ensures
        match (r, typed_defaults(env.deep_view(), items.deep_view(), 0, Seq::empty())) {
            (Ok(x), Ok(v)) => x.deep_view() == v,
            (Err(a), Err(b)) => a == b,
            _ => false,
        },
{
    let mut out: Vec<TypedFunction> = Vec::new();
    let mut k: usize = 0;
    assert(out.deep_view() =~= Seq::empty());
    while k < items.len()
        invariant
            0 <= k <= items.len(),
            typed_defaults(env.deep_view(), items.deep_view(), 0, Seq::empty()) == typed_defaults(
                env.deep_view(),
                items.deep_view(),
                k as nat,
                out.deep_view(),
            ),
        decreases items.len() - k,
    {
        assert(items.deep_view()[k as int] == items[k as int].deep_view());
        match &items[k] {
            ModuleDefItem::TypeClass(c) => {
                out = type_class_defaults(env, &c.name, &c.type_param, &c.methods, out)?;
            },
            _ => {},
        }
        k = k + 1;
    }
    Ok(out)
}

} // verus!
