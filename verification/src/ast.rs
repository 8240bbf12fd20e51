//! The part of a parsed module that export extraction reads.
//!
//! Each node holds the names, positions and flags that decide which records
//! are emitted; what a statement or an expression holds beyond that is left
//! out.

use vstd::prelude::*;
use crate::span::Span;

verus! {

/// An identifier, with the number of the scope it was resolved in.
#[derive(Debug, PartialEq, Eq)]
pub struct Ident {
    pub span: Span,
    pub ctxt: u32,
    pub sym: String,
}

/// What tells two bindings apart: the name and the number of the scope.
pub type Id = (String, u32);

pub type IdView = (Seq<char>, u32);

pub open spec fn id_view(id: Id) -> IdView {
    (id.0@, id.1)
}

impl Ident {
    pub open spec fn spec_to_id(&self) -> Id {
        (self.sym, self.ctxt)
    }

    /// The name and scope by which the binding is found again.
    #[verifier::when_used_as_spec(spec_to_id)]
    pub fn to_id(&self) -> (id: Id)
        ensures
            id == self.spec_to_id(),
    {
        (self.sym.clone(), self.ctxt)
    }
}

impl Clone for Ident {
    fn clone(&self) -> (copy: Ident)
        ensures
            copy == *self,
    {
        Ident { span: self.span, ctxt: self.ctxt, sym: self.sym.clone() }
    }
}

/// A string literal.
#[derive(Debug, PartialEq, Eq)]
pub struct Str {
    pub span: Span,
    pub value: String,
}

/// The name of a binding in an import or export clause: an identifier or,
/// for names that are no identifiers, a string literal.
#[derive(Debug, PartialEq, Eq)]
pub enum ModuleExportName {
    Ident(Ident),
    Str(Str),
}

impl ModuleExportName {
    /// The name as written, whichever form it has.
    pub open spec fn spec_atom(&self) -> String {
        match *self {
            ModuleExportName::Ident(ident) => ident.sym,
            ModuleExportName::Str(s) => s.value,
        }
    }

    /// The name as written, whichever form it has.
    #[verifier::when_used_as_spec(spec_atom)]
    pub fn atom(&self) -> (name: String)
        ensures
            name == self.spec_atom(),
    {
        match self {
            ModuleExportName::Ident(ident) => ident.sym.clone(),
            ModuleExportName::Str(s) => s.value.clone(),
        }
    }
}

/// `* as name` in a re-export.
#[derive(Debug, PartialEq, Eq)]
pub struct ExportNamespaceSpecifier {
    pub span: Span,
    pub name: ModuleExportName,
}

/// A bare name in a re-export, which the grammar does not admit.
#[derive(Debug, PartialEq, Eq)]
pub struct ExportDefaultSpecifier {
    pub exported: Ident,
}

/// `orig` or `orig as exported` between the braces of an export.
#[derive(Debug, PartialEq, Eq)]
pub struct ExportNamedSpecifier {
    pub span: Span,
    pub orig: ModuleExportName,
    pub exported: Option<ModuleExportName>,
}

#[derive(Debug, PartialEq, Eq)]
pub enum ExportSpecifier {
    Namespace(ExportNamespaceSpecifier),
    Default(ExportDefaultSpecifier),
    Named(ExportNamedSpecifier),
}

/// `export { .. }`, `export { .. } from ".."` or `export * as ns from ".."`.
#[derive(Debug, PartialEq, Eq)]
pub struct NamedExport {
    pub span: Span,
    pub specifiers: Vec<ExportSpecifier>,
    pub src: Option<Str>,
}

/// `export * from ".."`.
#[derive(Debug, PartialEq, Eq)]
pub struct ExportAll {
    pub span: Span,
    pub src: Str,
}

/// A formal parameter of a function.
#[derive(Clone, Copy, Debug, PartialEq, Eq, Structural)]
pub struct Param {
    pub span: Span,
}

/// A block of statements.
#[derive(Clone, Copy, Debug, PartialEq, Eq, Structural)]
pub struct BlockStmt {
    pub span: Span,
}

/// The part of a function that follows its name. A declaration without a
/// body has no block.
#[derive(Debug, PartialEq, Eq)]
pub struct Function {
    pub params: Vec<Param>,
    pub span: Span,
    pub body: Option<BlockStmt>,
    pub is_generator: bool,
    pub is_async: bool,
}

/// The part of a class that follows its name.
#[derive(Clone, Copy, Debug, PartialEq, Eq, Structural)]
pub struct Class {
    pub span: Span,
}

/// A function in expression position, named or not.
#[derive(Debug, PartialEq, Eq)]
pub struct FnExpr {
    pub ident: Option<Ident>,
    pub function: Function,
}

/// A class in expression position, named or not.
#[derive(Debug, PartialEq, Eq)]
pub struct ClassExpr {
    pub ident: Option<Ident>,
    pub class: Class,
}

/// A class declaration, which always has a name.
#[derive(Debug, PartialEq, Eq)]
pub struct ClassDecl {
    pub ident: Ident,
    pub class: Class,
}

/// A function declaration, which always has a name.
#[derive(Debug, PartialEq, Eq)]
pub struct FnDecl {
    pub ident: Ident,
    pub span: Span,
}

impl FnExpr {
    pub open spec fn spec_span(&self) -> Span {
        self.function.span
    }

    #[verifier::when_used_as_spec(spec_span)]
    pub fn span(&self) -> (span: Span)
        ensures
            span == self.spec_span(),
    {
        self.function.span
    }

    /// The declaration that the expression amounts to, if it has a name.
    pub open spec fn spec_as_fn_decl(&self) -> Option<FnDecl> {
        match self.ident {
            Some(ident) => Some(FnDecl { ident, span: self.function.span }),
            None => None,
        }
    }

    /// The declaration that the expression amounts to, if it has a name.
    #[verifier::when_used_as_spec(spec_as_fn_decl)]
    pub fn as_fn_decl(&self) -> (decl: Option<FnDecl>)
        ensures
            decl == self.spec_as_fn_decl(),
    {
        match &self.ident {
            Some(ident) => Some(FnDecl { ident: ident.clone(), span: self.function.span }),
            None => None,
        }
    }
}

impl ClassExpr {
    pub open spec fn spec_span(&self) -> Span {
        self.class.span
    }

    #[verifier::when_used_as_spec(spec_span)]
    pub fn span(&self) -> (span: Span)
        ensures
            span == self.spec_span(),
    {
        self.class.span
    }

    /// The declaration that the expression amounts to, if it has a name.
    pub open spec fn spec_as_class_decl(&self) -> Option<ClassDecl> {
        match self.ident {
            Some(ident) => Some(ClassDecl { ident, class: self.class }),
            None => None,
        }
    }

    /// The declaration that the expression amounts to, if it has a name.
    #[verifier::when_used_as_spec(spec_as_class_decl)]
    pub fn as_class_decl(&self) -> (decl: Option<ClassDecl>)
        ensures
            decl == self.spec_as_class_decl(),
    {
        match &self.ident {
            Some(ident) => Some(ClassDecl { ident: ident.clone(), class: self.class }),
            None => None,
        }
    }
}

/// What follows `export default` where it is a declaration.
#[derive(Debug, PartialEq, Eq)]
pub enum DefaultDecl {
    Class(ClassExpr),
    Fn(FnExpr),
    /// A type-only declaration, which is stripped before extraction.
    TsInterfaceDecl(Span),
}

impl DefaultDecl {
    pub open spec fn spec_span(&self) -> Span {
        match *self {
            DefaultDecl::Class(c) => c.spec_span(),
            DefaultDecl::Fn(f) => f.spec_span(),
            DefaultDecl::TsInterfaceDecl(span) => span,
        }
    }

    #[verifier::when_used_as_spec(spec_span)]
    pub fn span(&self) -> (span: Span)
        ensures
            span == self.spec_span(),
    {
        match self {
            DefaultDecl::Class(c) => c.span(),
            DefaultDecl::Fn(f) => f.span(),
            DefaultDecl::TsInterfaceDecl(span) => *span,
        }
    }
}

/// `export default` followed by a class or function.
#[derive(Debug, PartialEq, Eq)]
pub struct ExportDefaultDecl {
    pub span: Span,
    pub decl: DefaultDecl,
}

/// The forms of expression that the walk tells apart.
#[derive(Clone, Copy, Debug, PartialEq, Eq, Structural)]
pub enum ExprKind {
    Assign,
    Class,
    Fn,
    Other,
}

/// An expression: where it stands and which form it has.
#[derive(Clone, Copy, Debug, PartialEq, Eq, Structural)]
pub struct Expr {
    pub span: Span,
    pub kind: ExprKind,
}

/// `export default` followed by an expression.
#[derive(Clone, Copy, Debug, PartialEq, Eq, Structural)]
pub struct ExportDefaultExpr {
    pub span: Span,
    pub expr: Expr,
}

/// An expression in statement position.
#[derive(Clone, Copy, Debug, PartialEq, Eq, Structural)]
pub struct ExprStmt {
    pub span: Span,
    pub expr: Expr,
}

#[derive(Clone, Copy, Debug, PartialEq, Eq, Structural)]
pub enum VarDeclKind {
    Var,
    Let,
    Const,
}

/// One `pattern = initializer` of a variable declaration. Of the pattern
/// it holds what extraction reads: the identifiers that it binds, in the
/// order in which they are written.
#[derive(Debug, PartialEq, Eq)]
pub struct VarDeclarator {
    pub span: Span,
    pub ids: Vec<Ident>,
}

#[derive(Debug, PartialEq, Eq)]
pub struct VarDecl {
    pub span: Span,
    pub kind: VarDeclKind,
    pub decls: Vec<VarDeclarator>,
}

/// A declaration in statement position.
#[derive(Debug, PartialEq, Eq)]
pub enum Decl {
    Class(ClassDecl),
    Fn(FnDecl),
    Var(VarDecl),
    Using(Span),
    /// The four type-only declarations, which are stripped before extraction.
    TsInterface(Span),
    TsTypeAlias(Span),
    TsEnum(Span),
    TsModule(Span),
}

impl Decl {
    pub open spec fn spec_span(&self) -> Span {
        match *self {
            Decl::Class(c) => c.class.span,
            Decl::Fn(f) => f.span,
            Decl::Var(v) => v.span,
            Decl::Using(span) => span,
            Decl::TsInterface(span) => span,
            Decl::TsTypeAlias(span) => span,
            Decl::TsEnum(span) => span,
            Decl::TsModule(span) => span,
        }
    }

    #[verifier::when_used_as_spec(spec_span)]
    pub fn span(&self) -> (span: Span)
        ensures
            span == self.spec_span(),
    {
        match self {
            Decl::Class(c) => c.class.span,
            Decl::Fn(f) => f.span,
            Decl::Var(v) => v.span,
            Decl::Using(span) => *span,
            Decl::TsInterface(span) => *span,
            Decl::TsTypeAlias(span) => *span,
            Decl::TsEnum(span) => *span,
            Decl::TsModule(span) => *span,
        }
    }

    /// Whether the declaration is one of the type-only forms.
    pub open spec fn is_type_only(&self) -> bool {
        *self is TsInterface || *self is TsTypeAlias || *self is TsEnum || *self is TsModule
    }
}

/// `export` followed by a declaration.
#[derive(Debug, PartialEq, Eq)]
pub struct ExportDecl {
    pub span: Span,
    pub decl: Decl,
}

/// `imported as local`, or `local` alone, between the braces of an import.
#[derive(Debug, PartialEq, Eq)]
pub struct ImportNamedSpecifier {
    pub span: Span,
    pub local: Ident,
    pub imported: Option<ModuleExportName>,
}

#[derive(Debug, PartialEq, Eq)]
pub enum ImportSpecifier {
    Named(ImportNamedSpecifier),
    /// `import local from ".."`.
    Default(Ident),
    /// `import * as local from ".."`.
    Namespace(Ident),
}

#[derive(Debug, PartialEq, Eq)]
pub struct ImportDecl {
    pub span: Span,
    pub specifiers: Vec<ImportSpecifier>,
    pub src: Str,
}

/// An import or export statement.
#[derive(Debug, PartialEq, Eq)]
pub enum ModuleDecl {
    Import(ImportDecl),
    ExportDecl(ExportDecl),
    ExportNamed(NamedExport),
    ExportDefaultDecl(ExportDefaultDecl),
    ExportDefaultExpr(ExportDefaultExpr),
    ExportAll(ExportAll),
    /// The three type-system forms, which are stripped before extraction.
    TsImportEquals(Span),
    TsExportAssignment(Span),
    TsNamespaceExport(Span),
}

impl ModuleDecl {
    pub open spec fn spec_span(&self) -> Span {
        match *self {
            ModuleDecl::Import(d) => d.span,
            ModuleDecl::ExportDecl(d) => d.span,
            ModuleDecl::ExportNamed(d) => d.span,
            ModuleDecl::ExportDefaultDecl(d) => d.span,
            ModuleDecl::ExportDefaultExpr(d) => d.span,
            ModuleDecl::ExportAll(d) => d.span,
            ModuleDecl::TsImportEquals(span) => span,
            ModuleDecl::TsExportAssignment(span) => span,
            ModuleDecl::TsNamespaceExport(span) => span,
        }
    }

    #[verifier::when_used_as_spec(spec_span)]
    pub fn span(&self) -> (span: Span)
        ensures
            span == self.spec_span(),
    {
        match self {
            ModuleDecl::Import(d) => d.span,
            ModuleDecl::ExportDecl(d) => d.span,
            ModuleDecl::ExportNamed(d) => d.span,
            ModuleDecl::ExportDefaultDecl(d) => d.span,
            ModuleDecl::ExportDefaultExpr(d) => d.span,
            ModuleDecl::ExportAll(d) => d.span,
            ModuleDecl::TsImportEquals(span) => *span,
            ModuleDecl::TsExportAssignment(span) => *span,
            ModuleDecl::TsNamespaceExport(span) => *span,
        }
    }
}

/// A statement. Only declarations and expression statements are told apart;
/// every other form counts as `Other`.
#[derive(Debug, PartialEq, Eq)]
pub enum Stmt {
    Decl(Decl),
    Expr(ExprStmt),
    Other(Span),
}

impl Stmt {
    pub open spec fn spec_span(&self) -> Span {
        match *self {
            Stmt::Decl(d) => d.spec_span(),
            Stmt::Expr(e) => e.span,
            Stmt::Other(span) => span,
        }
    }

    #[verifier::when_used_as_spec(spec_span)]
    pub fn span(&self) -> (span: Span)
        ensures
            span == self.spec_span(),
    {
        match self {
            Stmt::Decl(d) => d.span(),
            Stmt::Expr(e) => e.span,
            Stmt::Other(span) => *span,
        }
    }
}

/// One entry of a module's body.
#[derive(Debug, PartialEq, Eq)]
pub enum ModuleItem {
    ModuleDecl(ModuleDecl),
    Stmt(Stmt),
}

impl ExportSpecifier {
    /// Whether the specifier is a plain or renamed name that an identifier
    /// names: the one form that can name a binding of this module.
    pub open spec fn names_binding(&self) -> bool {
        *self is Named && self->Named_0.orig is Ident
    }
}

impl NamedExport {
    /// Whether the statement re-exports from another module in a form that
    /// the grammar admits: it has a source and a place in the text, and no
    /// bare name stands among its specifiers.
    pub open spec fn is_reexport(&self) -> bool {
        &&& self.src is Some
        &&& self.span.located()
        &&& forall|i: int| 0 <= i < self.specifiers.len() ==> !(#[trigger] self.specifiers[i] is Default)
    }

    /// Whether no bare name stands among the specifiers.
    pub fn has_no_default_specifier(&self) -> (none: bool)
        ensures
            none == forall|i: int|
                0 <= i < self.specifiers.len() ==> !(#[trigger] self.specifiers[i] is Default),
    {
        let mut i: usize = 0;
        while i < self.specifiers.len()
            invariant
                i <= self.specifiers.len(),
                forall|j: int| 0 <= j < i ==> !(#[trigger] self.specifiers[j] is Default),
            decreases self.specifiers.len() - i,
        {
            if let ExportSpecifier::Default(_) = &self.specifiers[i] {
                return false;
            }
            i = i + 1;
        }
        true
    }

    /// Whether every specifier is a plain or renamed name of a binding.
    pub fn has_named_specifiers_only(&self) -> (only: bool)
        ensures
            only == forall|i: int|
                0 <= i < self.specifiers.len() ==> (#[trigger] self.specifiers[i]).names_binding(),
    {
        let mut i: usize = 0;
        while i < self.specifiers.len()
            invariant
                i <= self.specifiers.len(),
                forall|j: int| 0 <= j < i ==> (#[trigger] self.specifiers[j]).names_binding(),
            decreases self.specifiers.len() - i,
        {
            match &self.specifiers[i] {
                ExportSpecifier::Named(named) => match &named.orig {
                    ModuleExportName::Ident(_) => {},
                    ModuleExportName::Str(_) => {
                        return false;
                    },
                },
                _ => {
                    return false;
                },
            }
            i = i + 1;
        }
        true
    }

    /// Whether the statement, if it has no source, exports local bindings in
    /// a form that the grammar admits: it has a place in the text, and every
    /// specifier is a plain or renamed name of a binding, which only an
    /// identifier can name.
    pub open spec fn is_local_export(&self) -> bool {
        self.src is None ==> {
            &&& self.span.located()
            &&& forall|i: int|
                0 <= i < self.specifiers.len() ==> (#[trigger] self.specifiers[i]).names_binding()
        }
    }
}

impl ExportAll {
    /// Whether the statement reaches extraction: it has a place in the
    /// text.
    pub open spec fn admitted(&self) -> bool {
        self.span.located()
    }

    /// Whether the statement reaches extraction.
    pub fn is_admitted(&self) -> (admitted: bool)
        ensures
            admitted == self.admitted(),
    {
        self.span.is_located()
    }
}

impl ExportDefaultExpr {
    /// Whether the statement reaches extraction: it and its expression
    /// have a place in the text.
    pub open spec fn admitted(&self) -> bool {
        self.span.located() && self.expr.span.located()
    }

    /// Whether the statement reaches extraction.
    pub fn is_admitted(&self) -> (admitted: bool)
        ensures
            admitted == self.admitted(),
    {
        self.span.is_located() && self.expr.span.is_located()
    }
}

impl ExportDecl {
    /// Whether the statement reaches extraction: it and its declaration
    /// have a place in the text.
    pub open spec fn admitted(&self) -> bool {
        self.span.located() && self.decl.spec_span().located()
    }

    /// Whether the statement reaches extraction.
    pub fn is_admitted(&self) -> (admitted: bool)
        ensures
            admitted == self.admitted(),
    {
        self.span.is_located() && self.decl.span().is_located()
    }
}

impl DefaultDecl {
    /// The name that the class or function was written with.
    pub open spec fn spec_ident(&self) -> Option<Ident> {
        match *self {
            DefaultDecl::Class(c) => c.ident,
            DefaultDecl::Fn(f) => f.ident,
            DefaultDecl::TsInterfaceDecl(_) => None,
        }
    }

    /// Whether the class or function has a name that is not empty.
    pub open spec fn named(&self) -> bool {
        self.spec_ident() is Some && self.spec_ident()->0.sym@.len() > 0
    }

    /// Whether the class or function has a name that is not empty.
    pub fn is_named(&self) -> (named: bool)
        ensures
            named == self.named(),
    {
        match self {
            DefaultDecl::Class(c) => match &c.ident {
                Some(ident) => !ident.sym.as_str().is_empty(),
                None => false,
            },
            DefaultDecl::Fn(f) => match &f.ident {
                Some(ident) => !ident.sym.as_str().is_empty(),
                None => false,
            },
            DefaultDecl::TsInterfaceDecl(_) => false,
        }
    }
}

impl FnExpr {
    /// Whether the place where a name can be put into the function is a
    /// place in the text: the first parameter or, without parameters, the
    /// body.
    pub open spec fn name_slot_located(&self) -> bool {
        if self.function.params.len() > 0 {
            self.function.params[0].span.lo > 0
        } else {
            self.function.body is Some && self.function.body->0.span.lo > 0
        }
    }

    /// Whether the place where a name can be put into the function is a
    /// place in the text.
    pub fn is_name_slot_located(&self) -> (located: bool)
        ensures
            located == self.name_slot_located(),
    {
        if self.function.params.len() > 0 {
            self.function.params[0].span.lo > 0
        } else {
            match &self.function.body {
                Some(body) => body.span.lo > 0,
                None => false,
            }
        }
    }
}

impl ExportDefaultDecl {
    /// Whether the statement reaches extraction: it is no type-only
    /// declaration, it and its declaration have a place in the text, and so
    /// has the name slot of a function that gets a synthesized name.
    pub open spec fn admitted(&self) -> bool {
        &&& !(self.decl is TsInterfaceDecl)
        &&& self.span.located()
        &&& self.decl.spec_span().located()
        &&& self.decl is Fn && !self.decl.named() ==> self.decl->Fn_0.name_slot_located()
    }

    /// Whether the statement reaches extraction.
    pub fn is_admitted(&self) -> (admitted: bool)
        ensures
            admitted == self.admitted(),
    {
        if !self.span.is_located() || !self.decl.span().is_located() {
            return false;
        }
        match &self.decl {
            DefaultDecl::Class(_) => true,
            DefaultDecl::Fn(f) => self.decl.is_named() || f.is_name_slot_located(),
            DefaultDecl::TsInterfaceDecl(_) => false,
        }
    }
}

impl Stmt {
    /// Whether the statement is of a form that reaches extraction: no
    /// type-only declaration.
    pub open spec fn admitted(&self) -> bool {
        !(*self is Decl && self->Decl_0.is_type_only())
    }

    /// Whether the statement is of a form that reaches extraction.
    pub fn is_admitted(&self) -> (admitted: bool)
        ensures
            admitted == self.admitted(),
    {
        match self {
            Stmt::Decl(Decl::TsInterface(_)) => false,
            Stmt::Decl(Decl::TsTypeAlias(_)) => false,
            Stmt::Decl(Decl::TsEnum(_)) => false,
            Stmt::Decl(Decl::TsModule(_)) => false,
            _ => true,
        }
    }
}

impl ModuleDecl {
    /// Whether the statement is of a form that reaches extraction: none of
    /// the type-system forms, no specifier that the grammar forbids, and
    /// with a place in the text where its records need one.
    pub open spec fn admitted(&self) -> bool {
        match *self {
            ModuleDecl::ExportNamed(statement) => {
                &&& statement.src is Some ==> statement.is_reexport()
                &&& statement.is_local_export()
            },
            ModuleDecl::ExportDefaultDecl(statement) => statement.admitted(),
            ModuleDecl::ExportDefaultExpr(statement) => statement.admitted(),
            ModuleDecl::ExportDecl(statement) => statement.admitted(),
            ModuleDecl::ExportAll(statement) => statement.admitted(),
            ModuleDecl::Import(_) => true,
            ModuleDecl::TsImportEquals(_) => false,
            ModuleDecl::TsExportAssignment(_) => false,
            ModuleDecl::TsNamespaceExport(_) => false,
        }
    }

    /// Whether the statement is of a form that reaches extraction.
    pub fn is_admitted(&self) -> (admitted: bool)
        ensures
            admitted == self.admitted(),
    {
        match self {
            ModuleDecl::ExportNamed(statement) => {
                if !statement.span.is_located() {
                    false
                } else if statement.src.is_some() {
                    statement.has_no_default_specifier()
                } else {
                    statement.has_named_specifiers_only()
                }
            },
            ModuleDecl::ExportDefaultDecl(statement) => statement.is_admitted(),
            ModuleDecl::ExportDefaultExpr(statement) => statement.is_admitted(),
            ModuleDecl::ExportDecl(statement) => statement.is_admitted(),
            ModuleDecl::ExportAll(statement) => statement.is_admitted(),
            ModuleDecl::Import(_) => true,
            ModuleDecl::TsImportEquals(_) => false,
            ModuleDecl::TsExportAssignment(_) => false,
            ModuleDecl::TsNamespaceExport(_) => false,
        }
    }

    /// Whether the statement takes a place among the module's imports and
    /// re-exports.
    pub open spec fn takes_source_order(&self) -> bool {
        match *self {
            ModuleDecl::Import(_) => true,
            ModuleDecl::ExportAll(_) => true,
            ModuleDecl::ExportNamed(statement) => statement.src is Some,
            _ => false,
        }
    }
}

impl ModuleItem {
    /// Whether the entry is of a form that reaches extraction.
    pub open spec fn admitted(&self) -> bool {
        match *self {
            ModuleItem::ModuleDecl(decl) => decl.admitted(),
            ModuleItem::Stmt(stmt) => stmt.admitted(),
        }
    }

    /// Whether the entry is of a form that reaches extraction.
    pub fn is_admitted(&self) -> (admitted: bool)
        ensures
            admitted == self.admitted(),
    {
        match self {
            ModuleItem::ModuleDecl(decl) => decl.is_admitted(),
            ModuleItem::Stmt(stmt) => stmt.is_admitted(),
        }
    }

    /// Whether the entry takes a place among the module's imports and
    /// re-exports.
    pub open spec fn takes_source_order(&self) -> bool {
        match *self {
            ModuleItem::ModuleDecl(decl) => decl.takes_source_order(),
            ModuleItem::Stmt(_) => false,
        }
    }

    /// Whether the entry is an import or a re-export.
    pub fn is_import_or_reexport(&self) -> (takes: bool)
        ensures
            takes == self.takes_source_order(),
    {
        match self {
            ModuleItem::ModuleDecl(ModuleDecl::Import(_)) => true,
            ModuleItem::ModuleDecl(ModuleDecl::ExportAll(_)) => true,
            ModuleItem::ModuleDecl(ModuleDecl::ExportNamed(statement)) => statement.src.is_some(),
            _ => false,
        }
    }
}

/// Whether every entry is of a form that reaches extraction.
pub open spec fn all_admitted(items: Seq<ModuleItem>) -> bool {
    forall|i: int| 0 <= i < items.len() ==> (#[trigger] items[i]).admitted()
}

/// Whether every statement is of a form that reaches extraction.
pub open spec fn all_stmts_admitted(stmts: Seq<Stmt>) -> bool {
    forall|i: int| 0 <= i < stmts.len() ==> (#[trigger] stmts[i]).admitted()
}

/// The number of import and re-export statements among the entries.
pub open spec fn source_order_steps(items: Seq<ModuleItem>) -> nat
    decreases items.len(),
{
    if items.len() == 0 {
        0
    } else {
        source_order_steps(items.drop_last()) + if items.last().takes_source_order() {
            1nat
        } else {
            0nat
        }
    }
}

} // verus!
