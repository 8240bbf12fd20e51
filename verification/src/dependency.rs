//! The dependency records that export extraction emits, and their views.
//!
//! Records hold owned strings; contracts speak of their views, in which every
//! string is the sequence of its characters.

use vstd::prelude::*;
use crate::parser::JavascriptParserOptions;
use crate::span::{DependencyLocation, ErrorSpan};

verus! {

/// View of an optional string.
pub open spec fn opt_str_view(o: Option<String>) -> Option<Seq<char>> {
    match o {
        Some(s) => Some(s@),
        None => None,
    }
}

/// One `(exported name, name in the target module)` pair of a re-export. The
/// second part is absent where the whole target module is bound.
pub type ExportId = (String, Option<String>);

pub type ExportIdView = (Seq<char>, Option<Seq<char>>);

pub open spec fn export_id_view(id: ExportId) -> ExportIdView {
    (id.0@, opt_str_view(id.1))
}

pub open spec fn export_ids_view(ids: Seq<ExportId>) -> Seq<ExportIdView> {
    ids.map_values(|id: ExportId| export_id_view(id))
}

/// Identifies a record of a module by its position in the module's
/// dependency list.
#[derive(Clone, Copy, Debug, PartialEq, Eq, Structural)]
pub struct DependencyId(pub usize);

/// How linking reports a binding that the target module lacks.
#[derive(Clone, Copy, Debug, PartialEq, Eq, Structural)]
pub enum ExportPresenceMode {
    /// Not at all.
    Ignore,
    /// As a warning.
    Warn,
    /// As an error in a strict module, as a warning in any other.
    Auto,
    /// As an error.
    Error,
}

/// The syntactic origin of a module-linkage record.
#[derive(Clone, Copy, Debug, PartialEq, Eq, Structural)]
pub enum DependencyType {
    EsmImport,
    EsmExport,
}

/// The bits of runtime support that a text replacement asks for.
#[derive(Clone, Copy, Debug, PartialEq, Eq, Structural)]
pub struct RuntimeGlobals(pub u128);

/// One binding form of an import or re-export.
#[derive(Clone, Debug, PartialEq, Eq)]
pub enum Specifier {
    /// The whole target module, bound under the given name.
    Namespace(String),
    /// The target module's default export, bound under the given name.
    Default(String),
    /// A named export of the target module, with the alias it is exposed
    /// under, if any.
    Named(String, Option<String>),
}

pub enum SpecifierView {
    Namespace(Seq<char>),
    Default(Seq<char>),
    Named(Seq<char>, Option<Seq<char>>),
}

impl View for Specifier {
    type V = SpecifierView;

    open spec fn view(&self) -> SpecifierView {
        match *self {
            Specifier::Namespace(n) => SpecifierView::Namespace(n@),
            Specifier::Default(n) => SpecifierView::Default(n@),
            Specifier::Named(orig, exported) => SpecifierView::Named(orig@, opt_str_view(exported)),
        }
    }
}

pub open spec fn specifiers_view(specifiers: Seq<Specifier>) -> Seq<SpecifierView> {
    specifiers.map_values(|s: Specifier| s@)
}

/// Text that stands for a default-exported function once its header is
/// rewritten: `prefix`, a synthesized name, then `suffix` replace `range`.
#[derive(Clone, Debug, PartialEq, Eq)]
pub struct DeclarationInfo {
    pub range: DependencyLocation,
    pub prefix: String,
    pub suffix: String,
}

/// How a default-exported declaration is written once `export default` is
/// stripped from it.
#[derive(Clone, Debug, PartialEq, Eq)]
pub enum DeclarationId {
    /// The declaration keeps the name it was written with.
    Id(String),
    /// An anonymous function, which gets a synthesized name.
    Func(DeclarationInfo),
}

pub enum DeclarationIdView {
    Id(Seq<char>),
    Func { range: DependencyLocation, prefix: Seq<char>, suffix: Seq<char> },
}

impl View for DeclarationId {
    type V = DeclarationIdView;

    open spec fn view(&self) -> DeclarationIdView {
        match *self {
            DeclarationId::Id(name) => DeclarationIdView::Id(name@),
            DeclarationId::Func(info) => DeclarationIdView::Func {
                range: info.range,
                prefix: info.prefix@,
                suffix: info.suffix@,
            },
        }
    }
}

pub open spec fn opt_declaration_view(o: Option<DeclarationId>) -> Option<DeclarationIdView> {
    match o {
        Some(d) => Some(d@),
        None => None,
    }
}

/// A local binding exported under a name.
#[derive(Clone, Debug, PartialEq, Eq)]
pub struct HarmonyExportSpecifierDependency {
    /// The name other modules import.
    pub name: String,
    /// The local binding.
    pub value: String,
}

/// `export default` of an expression or of a declaration: code generation
/// replaces the statement's head by an assignment.
#[derive(Clone, Debug, PartialEq, Eq)]
pub struct HarmonyExportExpressionDependency {
    /// The expression or declaration.
    pub range: DependencyLocation,
    /// The whole statement.
    pub range_stmt: DependencyLocation,
    pub declaration: Option<DeclarationId>,
}

/// Marks the `export` or `export default` keywords of a statement for removal.
#[derive(Clone, Debug, PartialEq, Eq)]
pub struct HarmonyExportHeaderDependency {
    /// The declaration that stays, if the statement holds one.
    pub range: Option<DependencyLocation>,
    /// The whole statement.
    pub range_stmt: DependencyLocation,
}

/// A binding of another module, exported again from this one.
#[derive(Clone, Debug, PartialEq, Eq)]
pub struct HarmonyExportImportedSpecifierDependency {
    pub request: String,
    pub source_order: i32,
    pub ids: Vec<ExportId>,
    /// The part of `ids` whose presence in the target module is tracked.
    pub mode_ids: Vec<ExportId>,
    /// The exported name; absent for a star re-export.
    pub name: Option<String>,
    pub export_all: bool,
    /// For a star re-export, the star re-exports that the module declared
    /// before this one, in declaration order.
    pub other_star_exports: Option<Vec<DependencyId>>,
    pub span: ErrorSpan,
    pub export_presence_mode: ExportPresenceMode,
}

/// Links the target module of an import or re-export, so that its side
/// effects run in source order.
#[derive(Clone, Debug, PartialEq, Eq)]
pub struct HarmonyImportSideEffectDependency {
    pub request: String,
    pub source_order: i32,
    /// The statement.
    pub span: ErrorSpan,
    /// The string that names the target module.
    pub source_span: ErrorSpan,
    pub dependency_type: DependencyType,
    pub export_all: bool,
}

/// Replaces the text between two offsets.
#[derive(Clone, Debug, PartialEq, Eq)]
pub struct ConstDependency {
    pub start: u32,
    pub end: u32,
    pub content: String,
    pub runtime_requirements: Option<RuntimeGlobals>,
}

/// A record of a module's dependency list.
#[derive(Clone, Debug, PartialEq, Eq)]
pub enum Dependency {
    HarmonyExportSpecifier(HarmonyExportSpecifierDependency),
    HarmonyExportExpression(HarmonyExportExpressionDependency),
    HarmonyExportHeader(HarmonyExportHeaderDependency),
    HarmonyExportImportedSpecifier(HarmonyExportImportedSpecifierDependency),
    HarmonyImportSideEffect(HarmonyImportSideEffectDependency),
    Const(ConstDependency),
}

pub enum DependencyView {
    HarmonyExportSpecifier { name: Seq<char>, value: Seq<char> },
    HarmonyExportExpression {
        range: DependencyLocation,
        range_stmt: DependencyLocation,
        declaration: Option<DeclarationIdView>,
    },
    HarmonyExportHeader { range: Option<DependencyLocation>, range_stmt: DependencyLocation },
    HarmonyExportImportedSpecifier {
        request: Seq<char>,
        source_order: int,
        ids: Seq<ExportIdView>,
        mode_ids: Seq<ExportIdView>,
        name: Option<Seq<char>>,
        export_all: bool,
        other_star_exports: Option<Seq<nat>>,
        span: ErrorSpan,
        export_presence_mode: ExportPresenceMode,
    },
    HarmonyImportSideEffect {
        request: Seq<char>,
        source_order: int,
        span: ErrorSpan,
        source_span: ErrorSpan,
        dependency_type: DependencyType,
        export_all: bool,
    },
    Const {
        start: u32,
        end: u32,
        content: Seq<char>,
        runtime_requirements: Option<RuntimeGlobals>,
    },
}

impl View for DependencyId {
    type V = nat;

    open spec fn view(&self) -> nat {
        self.0 as nat
    }
}

/// The positions that the identifiers stand for.
pub open spec fn dependency_ids_view(ids: Seq<DependencyId>) -> Seq<nat> {
    ids.map_values(|id: DependencyId| id@)
}

pub open spec fn opt_ids_view(o: Option<Vec<DependencyId>>) -> Option<Seq<nat>> {
    match o {
        Some(v) => Some(dependency_ids_view(v@)),
        None => None,
    }
}

impl View for HarmonyExportSpecifierDependency {
    type V = DependencyView;

    open spec fn view(&self) -> DependencyView {
        DependencyView::HarmonyExportSpecifier { name: self.name@, value: self.value@ }
    }
}

impl View for HarmonyExportExpressionDependency {
    type V = DependencyView;

    open spec fn view(&self) -> DependencyView {
        DependencyView::HarmonyExportExpression {
            range: self.range,
            range_stmt: self.range_stmt,
            declaration: opt_declaration_view(self.declaration),
        }
    }
}

impl View for HarmonyExportHeaderDependency {
    type V = DependencyView;

    open spec fn view(&self) -> DependencyView {
        DependencyView::HarmonyExportHeader { range: self.range, range_stmt: self.range_stmt }
    }
}

impl View for HarmonyExportImportedSpecifierDependency {
    type V = DependencyView;

    open spec fn view(&self) -> DependencyView {
        DependencyView::HarmonyExportImportedSpecifier {
            request: self.request@,
            source_order: self.source_order as int,
            ids: export_ids_view(self.ids@),
            mode_ids: export_ids_view(self.mode_ids@),
            name: opt_str_view(self.name),
            export_all: self.export_all,
            other_star_exports: opt_ids_view(self.other_star_exports),
            span: self.span,
            export_presence_mode: self.export_presence_mode,
        }
    }
}

impl View for HarmonyImportSideEffectDependency {
    type V = DependencyView;

    open spec fn view(&self) -> DependencyView {
        DependencyView::HarmonyImportSideEffect {
            request: self.request@,
            source_order: self.source_order as int,
            span: self.span,
            source_span: self.source_span,
            dependency_type: self.dependency_type,
            export_all: self.export_all,
        }
    }
}

impl View for ConstDependency {
    type V = DependencyView;

    open spec fn view(&self) -> DependencyView {
        DependencyView::Const {
            start: self.start,
            end: self.end,
            content: self.content@,
            runtime_requirements: self.runtime_requirements,
        }
    }
}

impl View for Dependency {
    type V = DependencyView;

    open spec fn view(&self) -> DependencyView {
        match *self {
            Dependency::HarmonyExportSpecifier(d) => d@,
            Dependency::HarmonyExportExpression(d) => d@,
            Dependency::HarmonyExportHeader(d) => d@,
            Dependency::HarmonyExportImportedSpecifier(d) => d@,
            Dependency::HarmonyImportSideEffect(d) => d@,
            Dependency::Const(d) => d@,
        }
    }
}

pub open spec fn dependencies_view(dependencies: Seq<Dependency>) -> Seq<DependencyView> {
    dependencies.map_values(|d: Dependency| d@)
}

impl HarmonyExportSpecifierDependency {
    pub fn new(name: String, value: String) -> (dep: HarmonyExportSpecifierDependency)
        ensures
            dep.name == name,
            dep.value == value,
    {
        HarmonyExportSpecifierDependency { name, value }
    }
}

impl HarmonyExportExpressionDependency {
    pub fn new(
        range: DependencyLocation,
        range_stmt: DependencyLocation,
        declaration: Option<DeclarationId>,
    ) -> (dep: HarmonyExportExpressionDependency)
        ensures
            dep.range == range,
            dep.range_stmt == range_stmt,
            dep.declaration == declaration,
    {
        HarmonyExportExpressionDependency { range, range_stmt, declaration }
    }
}

impl HarmonyExportHeaderDependency {
    pub fn new(range: Option<DependencyLocation>, range_stmt: DependencyLocation) -> (dep:
        HarmonyExportHeaderDependency)
        ensures
            dep.range == range,
            dep.range_stmt == range_stmt,
    {
        HarmonyExportHeaderDependency { range, range_stmt }
    }
}

impl HarmonyExportImportedSpecifierDependency {
    /// How a missing binding of a re-export is reported under `options`.
    pub open spec fn spec_create_export_presence_mode(
        options: &JavascriptParserOptions,
    ) -> ExportPresenceMode {
        options.reexport_exports_presence
    }

    /// How a missing binding of a re-export is reported under `options`.
    #[verifier::when_used_as_spec(spec_create_export_presence_mode)]
    pub fn create_export_presence_mode(
        options: &JavascriptParserOptions,
    ) -> (mode: ExportPresenceMode)
        ensures
            mode == Self::spec_create_export_presence_mode(options),
    {
        options.reexport_exports_presence
    }

    pub fn new(
        request: String,
        source_order: i32,
        ids: Vec<ExportId>,
        mode_ids: Vec<ExportId>,
        name: Option<String>,
        export_all: bool,
        other_star_exports: Option<Vec<DependencyId>>,
        span: ErrorSpan,
        export_presence_mode: ExportPresenceMode,
    ) -> (dep: HarmonyExportImportedSpecifierDependency)
        ensures
            dep.request == request,
            dep.source_order == source_order,
            dep.ids == ids,
            dep.mode_ids == mode_ids,
            dep.name == name,
            dep.export_all == export_all,
            dep.other_star_exports == other_star_exports,
            dep.span == span,
            dep.export_presence_mode == export_presence_mode,
    {
        HarmonyExportImportedSpecifierDependency {
            request,
            source_order,
            ids,
            mode_ids,
            name,
            export_all,
            other_star_exports,
            span,
            export_presence_mode,
        }
    }
}

impl HarmonyImportSideEffectDependency {
    pub fn new(
        request: String,
        source_order: i32,
        span: ErrorSpan,
        source_span: ErrorSpan,
        dependency_type: DependencyType,
        export_all: bool,
    ) -> (dep: HarmonyImportSideEffectDependency)
        ensures
            dep.request == request,
            dep.source_order == source_order,
            dep.span == span,
            dep.source_span == source_span,
            dep.dependency_type == dependency_type,
            dep.export_all == export_all,
    {
        HarmonyImportSideEffectDependency {
            request,
            source_order,
            span,
            source_span,
            dependency_type,
            export_all,
        }
    }
}

impl ConstDependency {
    pub fn new(
        start: u32,
        end: u32,
        content: String,
        runtime_requirements: Option<RuntimeGlobals>,
    ) -> (dep: ConstDependency)
        ensures
            dep.start == start,
            dep.end == end,
            dep.content == content,
            dep.runtime_requirements == runtime_requirements,
    {
        ConstDependency { start, end, content, runtime_requirements }
    }
}

} // verus!
