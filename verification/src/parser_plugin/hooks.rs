//! What a plugin is offered, and what it owes the traversal.

use vstd::prelude::*;
use crate::ast::{
    ExportAll, ExportDecl, ExportDefaultDecl, ExportDefaultExpr, ImportDecl, NamedExport, Stmt,
};
use crate::parser::{JavascriptParser, ParserView};
use crate::records::{source_orders_ascend, star_exports_consistent};

verus! {

/// One offer of a syntactic form to the plugins.
pub enum Hook {
    /// A statement of a block, before the bindings of the block are defined.
    PreBlockStatement(Stmt),
    /// An import statement.
    Import(ImportDecl),
    /// One binding of an import statement: the name it has in the target
    /// module, absent where the whole module is bound, and the local name.
    ImportSpecifier(ImportDecl, Option<Seq<char>>, Seq<char>),
    /// A named export with a source.
    NamedExportImport(NamedExport),
    /// `export * from ".."`.
    AllExportImport(ExportAll),
    /// `export default` followed by a class or function.
    Export(ExportDefaultDecl),
    /// `export default` followed by an expression.
    ExportDefaultExpr(ExportDefaultExpr),
    /// `export` followed by a declaration.
    ExportDecl(ExportDecl),
    /// A named export, offered for the case that it has no source.
    NamedExport(NamedExport),
}

impl Hook {
    /// Whether the offer is of a statement that takes the next place among
    /// the module's imports and re-exports.
    pub open spec fn takes_source_order(&self) -> bool {
        *self is Import || *self is NamedExportImport || *self is AllExportImport
    }

    /// Whether the form is one that reaches extraction: no type-only
    /// declaration, no specifier that the grammar forbids, and with a place
    /// in the text where its records need one.
    pub open spec fn admitted(&self) -> bool {
        match *self {
            Hook::NamedExportImport(statement) => statement.is_reexport(),
            Hook::AllExportImport(statement) => statement.admitted(),
            Hook::Export(statement) => statement.admitted(),
            Hook::ExportDefaultExpr(statement) => statement.admitted(),
            Hook::ExportDecl(statement) => statement.admitted(),
            Hook::NamedExport(statement) => statement.is_local_export(),
            _ => true,
        }
    }

    /// What an offer demands of the traversal: the form is admitted, and a
    /// statement that takes the next source order finds one left.
    pub open spec fn ready(&self, parser: ParserView) -> bool {
        &&& self.admitted()
        &&& self.takes_source_order() ==> parser.last_harmony_import_order < i32::MAX
    }
}

/// What a plugin has done when it returns from an offer: the traversal is
/// in the state, and the claim is the one, that the plugin states as its
/// outcome, and the chain of plugins is the same.
pub open spec fn hook_served<P>(
    expected: (Option<bool>, ParserView),
    before: JavascriptParser<P>,
    after: JavascriptParser<P>,
    claim: Option<bool>,
) -> bool {
    &&& (claim, after@) == expected
    &&& after.plugin_drive == before.plugin_drive
}

/// What every plugin owes the traversal on an offer: a plugin that claims
/// nothing leaves the traversal as it was; the source order moves on by one
/// at most, and only for an import or re-export statement; records,
/// exported names, star re-exports and defined names are added and never
/// taken away; the statement path and the configuration stay; the source
/// orders of the
/// linkage records go on rising along the dependency list; and the list of
/// star re-exports goes on matching the star re-exports among the records.
pub open spec fn state_kept(
    before: ParserView,
    after: ParserView,
    hook: Hook,
    claim: Option<bool>,
) -> bool {
    &&& claim is None ==> after == before
    &&& before.last_harmony_import_order <= after.last_harmony_import_order
    &&& after.last_harmony_import_order <= before.last_harmony_import_order + (if hook.takes_source_order() {
        1int
    } else {
        0int
    })
    &&& before.dependencies.is_prefix_of(after.dependencies)
    &&& before.harmony_named_exports.subset_of(after.harmony_named_exports)
    &&& before.all_star_exports.is_prefix_of(after.all_star_exports)
    &&& before.definitions.subset_of(after.definitions)
    &&& after.statement_path == before.statement_path
    &&& after.javascript_options == before.javascript_options
    &&& source_orders_ascend(before.records()) ==> source_orders_ascend(after.records())
    &&& star_exports_consistent(before.records()) ==> star_exports_consistent(after.records())
}

/// A concern that is offered the syntactic forms of a module. For each
/// offer it either claims the form, with `Some`, and records what follows
/// from it, or leaves it to the plugins after it, with `None`.
pub trait JavascriptParserPlugin: Sized {
    /// The claim that the plugin makes on an offer, and the state in which
    /// it leaves the traversal.
    spec fn outcome(&self, parser: ParserView, hook: Hook) -> (Option<bool>, ParserView);

    /// The plugin keeps to what every plugin owes the traversal.
    proof fn lemma_outcome_kept(&self, parser: ParserView, hook: Hook)
        requires
            hook.ready(parser),
        ensures
            state_kept(parser, self.outcome(parser, hook).1, hook, self.outcome(parser, hook).0),
    ;

    /// Is offered a statement of a block, before the bindings of the block are defined.
    fn pre_block_statement(
        &self,
        parser: &mut JavascriptParser<Self>,
        stmt: &Stmt,
    ) -> (claim: Option<bool>)
        requires
            Hook::PreBlockStatement(*stmt).ready(old(parser)@),
        ensures
            hook_served(
                self.outcome(old(parser)@, Hook::PreBlockStatement(*stmt)),
                *old(parser),
                *final(parser),
                claim,
            ),
    ;

    /// Is offered an import statement.
    fn import(
        &self,
        parser: &mut JavascriptParser<Self>,
        statement: &ImportDecl,
        source: &str,
    ) -> (claim:
        Option<bool>)
        requires
            Hook::Import(*statement).ready(old(parser)@),
            source@ == statement.src.value@,
        ensures
            hook_served(
                self.outcome(old(parser)@, Hook::Import(*statement)),
                *old(parser),
                *final(parser),
                claim,
            ),
    ;

    /// Is offered one binding of an import statement.
    fn import_specifier(
        &self,
        parser: &mut JavascriptParser<Self>,
        statement: &ImportDecl,
        source: &String,
        export_name: Option<&String>,
        identifier_name: &String,
    ) -> (claim: Option<bool>)
        requires
            Hook::ImportSpecifier(*statement, opt_ref_view(export_name), identifier_name@).ready(
                old(parser)@,
            ),
            source@ == statement.src.value@,
        ensures
            hook_served(
                self.outcome(
                    old(parser)@,
                    Hook::ImportSpecifier(*statement, opt_ref_view(export_name), identifier_name@),
                ),
                *old(parser),
                *final(parser),
                claim,
            ),
    ;

    /// Is offered a named export with a source.
    fn named_export_import(
        &self,
        parser: &mut JavascriptParser<Self>,
        statement: &NamedExport,
        source: &str,
    ) -> (claim: Option<bool>)
        requires
            Hook::NamedExportImport(*statement).ready(old(parser)@),
            source@ == statement.src->0.value@,
        ensures
            hook_served(
                self.outcome(old(parser)@, Hook::NamedExportImport(*statement)),
                *old(parser),
                *final(parser),
                claim,
            ),
    ;

    /// Is offered a star re-export.
    fn all_export_import(
        &self,
        parser: &mut JavascriptParser<Self>,
        statement: &ExportAll,
        source: &str,
    ) -> (claim:
        Option<bool>)
        requires
            Hook::AllExportImport(*statement).ready(old(parser)@),
            source@ == statement.src.value@,
        ensures
            hook_served(
                self.outcome(old(parser)@, Hook::AllExportImport(*statement)),
                *old(parser),
                *final(parser),
                claim,
            ),
    ;

    /// Is offered the default export of a class or function.
    fn export(
        &self,
        parser: &mut JavascriptParser<Self>,
        statement: &ExportDefaultDecl,
    ) -> (claim: Option<bool>)
        requires
            Hook::Export(*statement).ready(old(parser)@),
        ensures
            hook_served(
                self.outcome(old(parser)@, Hook::Export(*statement)),
                *old(parser),
                *final(parser),
                claim,
            ),
    ;

    /// Is offered the default export of an expression.
    fn export_default_expr(
        &self,
        parser: &mut JavascriptParser<Self>,
        statement: &ExportDefaultExpr,
    ) -> (claim:
        Option<bool>)
        requires
            Hook::ExportDefaultExpr(*statement).ready(old(parser)@),
        ensures
            hook_served(
                self.outcome(old(parser)@, Hook::ExportDefaultExpr(*statement)),
                *old(parser),
                *final(parser),
                claim,
            ),
    ;

    /// Is offered an exported declaration.
    fn export_decl(
        &self,
        parser: &mut JavascriptParser<Self>,
        statement: &ExportDecl,
    ) -> (claim: Option<bool>)
        requires
            Hook::ExportDecl(*statement).ready(old(parser)@),
        ensures
            hook_served(
                self.outcome(old(parser)@, Hook::ExportDecl(*statement)),
                *old(parser),
                *final(parser),
                claim,
            ),
    ;

    /// Is offered a named export.
    fn named_export(
        &self,
        parser: &mut JavascriptParser<Self>,
        statement: &NamedExport,
    ) -> (claim: Option<bool>)
        requires
            Hook::NamedExport(*statement).ready(old(parser)@),
        ensures
            hook_served(
                self.outcome(old(parser)@, Hook::NamedExport(*statement)),
                *old(parser),
                *final(parser),
                claim,
            ),
    ;
}

/// View of an optional borrowed string.
pub open spec fn opt_ref_view(o: Option<&String>) -> Option<Seq<char>> {
    match o {
        Some(s) => Some(s@),
        None => None,
    }
}

} // verus!
