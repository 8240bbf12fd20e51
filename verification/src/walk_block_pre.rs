//! The first pass over a module's statements: the bindings that the
//! statements introduce are defined, and every import and re-export is
//! offered to the plugins.

use vstd::prelude::*;
use crate::ast::{
    all_admitted, all_stmts_admitted, source_order_steps, ClassDecl, Decl, DefaultDecl, ExportAll,
    ExportDecl, ExportDefaultDecl, Expr, ExprKind, ExprStmt, FnDecl, Ident, ImportDecl,
    ImportSpecifier, ModuleDecl, ModuleItem, NamedExport, Stmt, VarDecl, VarDeclKind,
};
use crate::bindings::{declared_ids, declarators_ids};
use crate::parser::{JavascriptParser, ParserView};
use crate::parser_plugin::drive::{chain_outcome, lemma_chain_kept};
use crate::parser_plugin::harmony_export_dependency_parser_plugin::{
    declared_idents, default_keyword, js_default_keyword,
};
use crate::parser_plugin::hooks::{Hook, JavascriptParserPlugin};

verus! {

/// What a pass keeps of the traversal over statements that take at most
/// `steps` places among the imports and re-exports: the source order moves
/// on by `steps` at most; records, exported names, star re-exports and
/// defined names are added and never taken away; the statement path and
/// the configuration stay.
pub open spec fn walk_kept(before: ParserView, after: ParserView, steps: int) -> bool {
    &&& before.last_harmony_import_order <= after.last_harmony_import_order
    &&& after.last_harmony_import_order <= before.last_harmony_import_order + steps
    &&& before.dependencies.is_prefix_of(after.dependencies)
    &&& before.harmony_named_exports.subset_of(after.harmony_named_exports)
    &&& before.all_star_exports.is_prefix_of(after.all_star_exports)
    &&& before.definitions.subset_of(after.definitions)
    &&& after.statement_path == before.statement_path
    &&& after.javascript_options == before.javascript_options
}

/// The state after each of the identifiers is defined.
pub open spec fn define_idents(parser: ParserView, idents: Seq<Ident>) -> ParserView
    decreases idents.len(),
{
    if idents.len() == 0 {
        parser
    } else {
        define_idents(parser, idents.drop_last()).define_variable(idents.last().sym@)
    }
}

/// Defining names records nothing.
pub(crate) proof fn lemma_define_idents_kept(parser: ParserView, idents: Seq<Ident>)
    ensures
        walk_kept(parser, define_idents(parser, idents), 0),
        define_idents(parser, idents).prev_statement == parser.prev_statement,
    decreases idents.len(),
{
    if idents.len() > 0 {
        lemma_define_idents_kept(parser, idents.drop_last());
    }
}

/// The state after the hoisting of one statement: a function declaration
/// and the declarators of a `var` define their names for the whole module.
pub open spec fn pre_walk_statement_effect(parser: ParserView, stmt: Stmt) -> ParserView {
    let entered = parser.enter_statement(stmt.spec_span());
    (match stmt {
        Stmt::Decl(Decl::Fn(f)) => entered.define_variable(f.ident.sym@),
        Stmt::Decl(Decl::Var(v)) => if v.kind == VarDeclKind::Var {
            define_idents(entered, declarators_ids(v.decls@))
        } else {
            entered
        },
        _ => entered,
    }).leave_statement()
}

/// The state after the names of a block-scoped declaration are defined:
/// those of a `let` or `const`, none of a `var`.
pub open spec fn block_pre_walk_variable_declaration_effect(
    parser: ParserView,
    decl: VarDecl,
) -> ParserView {
    if decl.kind != VarDeclKind::Var {
        define_idents(parser, declarators_ids(decl.decls@))
    } else {
        parser
    }
}

/// The state after the first pass over one statement. The statement is
/// offered to the plugins; unless one of them claims it with `true`, a class
/// defines its name and a `let` or `const` the names of its declarators.
pub open spec fn block_pre_walk_statement_effect<P: JavascriptParserPlugin>(
    plugins: Seq<P>,
    parser: ParserView,
    stmt: Stmt,
) -> ParserView {
    let offered = chain_outcome(
        plugins,
        parser.enter_statement(stmt.spec_span()),
        Hook::PreBlockStatement(stmt),
    );
    if offered.0 == Some(true) {
        offered.1.leave_statement()
    } else {
        (match stmt {
            Stmt::Decl(Decl::Class(c)) => offered.1.define_variable(c.ident.sym@),
            Stmt::Decl(Decl::Var(v)) => block_pre_walk_variable_declaration_effect(offered.1, v),
            _ => offered.1,
        }).leave_statement()
    }
}

/// The statements of a block, first to last.
pub open spec fn block_pre_walk_statements_effect<P: JavascriptParserPlugin>(
    plugins: Seq<P>,
    parser: ParserView,
    stmts: Seq<Stmt>,
) -> ParserView
    decreases stmts.len(),
{
    if stmts.len() == 0 {
        parser
    } else {
        block_pre_walk_statement_effect(
            plugins,
            block_pre_walk_statements_effect(plugins, parser, stmts.drop_last()),
            stmts.last(),
        )
    }
}

/// The name that one binding of an import has in the target module, absent
/// where the whole module is bound, and the local name.
pub open spec fn import_specifier_names(
    specifier: ImportSpecifier,
) -> (Option<Seq<char>>, Seq<char>) {
    match specifier {
        ImportSpecifier::Named(named) => (
            Some(
                match named.imported {
                    Some(imported) => imported.spec_atom()@,
                    None => named.local.sym@,
                },
            ),
            named.local.sym@,
        ),
        ImportSpecifier::Default(local) => (Some(default_keyword()), local.sym@),
        ImportSpecifier::Namespace(local) => (None, local.sym@),
    }
}

/// The state after one binding of an import is offered to the plugins: the
/// local name is defined if a plugin claims the binding with `true`.
pub open spec fn import_specifier_effect<P: JavascriptParserPlugin>(
    plugins: Seq<P>,
    parser: ParserView,
    statement: ImportDecl,
    specifier: ImportSpecifier,
) -> ParserView {
    let names = import_specifier_names(specifier);
    let offered = chain_outcome(plugins, parser, Hook::ImportSpecifier(statement, names.0, names.1));
    if offered.0 == Some(true) {
        offered.1.define_variable(names.1)
    } else {
        offered.1
    }
}

/// The bindings of an import, first to last.
pub open spec fn import_specifiers_effect<P: JavascriptParserPlugin>(
    plugins: Seq<P>,
    parser: ParserView,
    statement: ImportDecl,
    specifiers: Seq<ImportSpecifier>,
) -> ParserView
    decreases specifiers.len(),
{
    if specifiers.len() == 0 {
        parser
    } else {
        import_specifier_effect(
            plugins,
            import_specifiers_effect(plugins, parser, statement, specifiers.drop_last()),
            statement,
            specifiers.last(),
        )
    }
}

/// The state after an import statement: the statement is offered to the
/// plugins, then each of its bindings.
pub open spec fn block_pre_walk_import_declaration_effect<P: JavascriptParserPlugin>(
    plugins: Seq<P>,
    parser: ParserView,
    statement: ImportDecl,
) -> ParserView {
    import_specifiers_effect(
        plugins,
        chain_outcome(plugins, parser, Hook::Import(statement)).1,
        statement,
        statement.specifiers@,
    )
}

/// The state after a named export in the first pass: one with a source is
/// offered to the plugins, one without is left to the second pass.
pub open spec fn block_pre_walk_export_name_declaration_effect<P: JavascriptParserPlugin>(
    plugins: Seq<P>,
    parser: ParserView,
    statement: NamedExport,
) -> ParserView {
    if statement.src is Some {
        chain_outcome(plugins, parser, Hook::NamedExportImport(statement)).1
    } else {
        parser
    }
}

/// The statement that a default-exported class or function amounts to
/// once `export default` is set aside: a declaration if it has a name, an
/// expression statement if it has none.
pub open spec fn default_decl_statement(decl: DefaultDecl) -> Stmt {
    match decl {
        DefaultDecl::Class(expr) => match expr.ident {
            Some(ident) => Stmt::Decl(Decl::Class(ClassDecl { ident, class: expr.class })),
            None => Stmt::Expr(
                ExprStmt {
                    span: expr.spec_span(),
                    expr: Expr { span: expr.spec_span(), kind: ExprKind::Class },
                },
            ),
        },
        DefaultDecl::Fn(expr) => match expr.ident {
            Some(ident) => Stmt::Decl(Decl::Fn(FnDecl { ident, span: expr.function.span })),
            None => Stmt::Expr(
                ExprStmt {
                    span: expr.spec_span(),
                    expr: Expr { span: expr.spec_span(), kind: ExprKind::Fn },
                },
            ),
        },
        DefaultDecl::TsInterfaceDecl(span) => Stmt::Other(span),
    }
}

/// The name that a default-exported class or function defines.
pub open spec fn default_decl_name(decl: DefaultDecl) -> Option<Seq<char>> {
    match decl {
        DefaultDecl::Class(expr) => match expr.ident {
            Some(ident) => Some(ident.sym@),
            None => None,
        },
        DefaultDecl::Fn(expr) => match expr.ident {
            Some(ident) => Some(ident.sym@),
            None => None,
        },
        DefaultDecl::TsInterfaceDecl(_) => None,
    }
}

/// The state after `export default` of a class or function in the first
/// pass: a name that it carries is defined, and the statement that it
/// amounts to is hoisted and passed over like any other.
pub open spec fn block_pre_walk_export_default_declaration_effect<P: JavascriptParserPlugin>(
    plugins: Seq<P>,
    parser: ParserView,
    statement: ExportDefaultDecl,
) -> ParserView {
    let stmt = default_decl_statement(statement.decl);
    let defined = match default_decl_name(statement.decl) {
        Some(name) => parser.define_variable(name),
        None => parser,
    };
    block_pre_walk_statement_effect(plugins, pre_walk_statement_effect(defined, stmt), stmt)
}

/// The state after the first pass over one import or export statement,
/// between entering and leaving it.
pub open spec fn block_pre_walk_module_decl_effect<P: JavascriptParserPlugin>(
    plugins: Seq<P>,
    parser: ParserView,
    decl: ModuleDecl,
) -> ParserView {
    match decl {
        ModuleDecl::Import(statement) => block_pre_walk_import_declaration_effect(plugins, parser, statement),
        ModuleDecl::ExportAll(statement) => chain_outcome(plugins, parser, Hook::AllExportImport(statement)).1,
        ModuleDecl::ExportDefaultDecl(statement) => block_pre_walk_export_default_declaration_effect(
            plugins,
            parser,
            statement,
        ),
        ModuleDecl::ExportNamed(statement) => block_pre_walk_export_name_declaration_effect(
            plugins,
            parser,
            statement,
        ),
        ModuleDecl::ExportDefaultExpr(_) => parser,
        ModuleDecl::ExportDecl(statement) => define_idents(parser, declared_idents(statement.decl)),
        _ => parser,
    }
}

/// The state after the first pass over one entry of the module's body.
pub open spec fn block_pre_walk_module_declaration_effect<P: JavascriptParserPlugin>(
    plugins: Seq<P>,
    parser: ParserView,
    item: ModuleItem,
) -> ParserView {
    match item {
        ModuleItem::ModuleDecl(decl) => block_pre_walk_module_decl_effect(
            plugins,
            parser.enter_statement(decl.spec_span()),
            decl,
        ).leave_statement(),
        ModuleItem::Stmt(stmt) => block_pre_walk_statement_effect(plugins, parser, stmt),
    }
}

/// The state after the first pass over the module's body, first entry to
/// last.
pub open spec fn block_pre_walk_module_declarations_effect<P: JavascriptParserPlugin>(
    plugins: Seq<P>,
    parser: ParserView,
    items: Seq<ModuleItem>,
) -> ParserView
    decreases items.len(),
{
    if items.len() == 0 {
        parser
    } else {
        block_pre_walk_module_declaration_effect(
            plugins,
            block_pre_walk_module_declarations_effect(plugins, parser, items.drop_last()),
            items.last(),
        )
    }
}

/// Hoisting a statement records nothing.
pub(crate) proof fn lemma_pre_walk_statement_kept(parser: ParserView, stmt: Stmt)
    ensures
        walk_kept(parser, pre_walk_statement_effect(parser, stmt), 0),
{
    let entered = parser.enter_statement(stmt.spec_span());
    if let Stmt::Decl(Decl::Var(v)) = stmt {
        lemma_define_idents_kept(entered, declarators_ids(v.decls@));
    }
    assert(entered.statement_path.drop_last() =~= parser.statement_path);
}

/// The first pass over one statement takes no source order and takes
/// nothing away.
pub(crate) proof fn lemma_block_pre_walk_statement_kept<P: JavascriptParserPlugin>(
    plugins: Seq<P>,
    parser: ParserView,
    stmt: Stmt,
)
    ensures
        walk_kept(parser, block_pre_walk_statement_effect(plugins, parser, stmt), 0),
{
    let entered = parser.enter_statement(stmt.spec_span());
    let hook = Hook::PreBlockStatement(stmt);
    lemma_chain_kept(plugins, entered, hook);
    let offered = chain_outcome(plugins, entered, hook);
    if let Stmt::Decl(Decl::Var(v)) = stmt {
        lemma_define_idents_kept(offered.1, declarators_ids(v.decls@));
    }
    assert(entered.statement_path.drop_last() =~= parser.statement_path);
}

/// The first pass over the statements of a block takes no source order and
/// takes nothing away, whatever the plugins.
pub proof fn lemma_block_pre_walk_statements_kept<P: JavascriptParserPlugin>(
    plugins: Seq<P>,
    parser: ParserView,
    stmts: Seq<Stmt>,
)
    ensures
        walk_kept(parser, block_pre_walk_statements_effect(plugins, parser, stmts), 0),
    decreases stmts.len(),
{
    if stmts.len() > 0 {
        lemma_block_pre_walk_statements_kept(plugins, parser, stmts.drop_last());
        lemma_block_pre_walk_statement_kept(
            plugins,
            block_pre_walk_statements_effect(plugins, parser, stmts.drop_last()),
            stmts.last(),
        );
    }
}

/// The bindings of an import take no source order and take nothing away.
pub(crate) proof fn lemma_import_specifiers_kept<P: JavascriptParserPlugin>(
    plugins: Seq<P>,
    parser: ParserView,
    statement: ImportDecl,
    specifiers: Seq<ImportSpecifier>,
)
    ensures
        walk_kept(parser, import_specifiers_effect(plugins, parser, statement, specifiers), 0),
    decreases specifiers.len(),
{
    if specifiers.len() > 0 {
        lemma_import_specifiers_kept(plugins, parser, statement, specifiers.drop_last());
        let before = import_specifiers_effect(plugins, parser, statement, specifiers.drop_last());
        let names = import_specifier_names(specifiers.last());
        lemma_chain_kept(plugins, before, Hook::ImportSpecifier(statement, names.0, names.1));
    }
}

/// The first pass over one entry moves the source order on by one at most,
/// and only for an import or re-export, and takes nothing away.
pub proof fn lemma_block_pre_walk_module_declaration_kept<P: JavascriptParserPlugin>(
    plugins: Seq<P>,
    parser: ParserView,
    item: ModuleItem,
)
    requires
        item.admitted(),
        item.takes_source_order() ==> parser.last_harmony_import_order < i32::MAX,
    ensures
        walk_kept(
            parser,
            block_pre_walk_module_declaration_effect(plugins, parser, item),
            if item.takes_source_order() {
                1int
            } else {
                0int
            },
        ),
{
    match item {
        ModuleItem::ModuleDecl(decl) => {
            let entered = parser.enter_statement(decl.spec_span());
            assert(entered.statement_path.drop_last() =~= parser.statement_path);
            match decl {
                ModuleDecl::Import(statement) => {
                    lemma_chain_kept(plugins, entered, Hook::Import(statement));
                    lemma_import_specifiers_kept(
                        plugins,
                        chain_outcome(plugins, entered, Hook::Import(statement)).1,
                        statement,
                        statement.specifiers@,
                    );
                },
                ModuleDecl::ExportAll(statement) => {
                    lemma_chain_kept(plugins, entered, Hook::AllExportImport(statement));
                },
                ModuleDecl::ExportDefaultDecl(statement) => {
                    let stmt = default_decl_statement(statement.decl);
                    let defined = match default_decl_name(statement.decl) {
                        Some(name) => entered.define_variable(name),
                        None => entered,
                    };
                    lemma_pre_walk_statement_kept(defined, stmt);
                    lemma_block_pre_walk_statement_kept(
                        plugins,
                        pre_walk_statement_effect(defined, stmt),
                        stmt,
                    );
                },
                ModuleDecl::ExportNamed(statement) => {
                    if statement.src is Some {
                        lemma_chain_kept(plugins, entered, Hook::NamedExportImport(statement));
                    }
                },
                ModuleDecl::ExportDecl(statement) => {
                    lemma_define_idents_kept(entered, declared_idents(statement.decl));
                },
                _ => {},
            }
        },
        ModuleItem::Stmt(stmt) => {
            lemma_block_pre_walk_statement_kept(plugins, parser, stmt);
        },
    }
}

/// The first pass over a module, whatever the plugins, moves the source
/// order on by the number of its imports and re-exports at most, and takes
/// nothing away.
pub proof fn lemma_block_pre_walk_module_declarations_kept<P: JavascriptParserPlugin>(
    plugins: Seq<P>,
    parser: ParserView,
    items: Seq<ModuleItem>,
)
    requires
        all_admitted(items),
        parser.last_harmony_import_order + source_order_steps(items) <= i32::MAX,
    ensures
        walk_kept(
            parser,
            block_pre_walk_module_declarations_effect(plugins, parser, items),
            source_order_steps(items) as int,
        ),
    decreases items.len(),
{
    if items.len() > 0 {
        assert(all_admitted(items.drop_last())) by {
            assert forall|i: int| 0 <= i < items.drop_last().len() implies (
            #[trigger] items.drop_last()[i]).admitted() by {
                assert(items[i].admitted());
            }
        }
        lemma_block_pre_walk_module_declarations_kept(plugins, parser, items.drop_last());
        lemma_block_pre_walk_module_declaration_kept(
            plugins,
            block_pre_walk_module_declarations_effect(plugins, parser, items.drop_last()),
            items.last(),
        );
    }
}

impl<P: JavascriptParserPlugin> JavascriptParser<P> {
    /// Defines each of the identifiers.
    fn define_variables(&mut self, idents: &Vec<Ident>)
        ensures
            final(self)@ == define_idents(old(self)@, idents@),
            final(self).plugin_drive == old(self).plugin_drive,
    {
        let mut i: usize = 0;
        while i < idents.len()
            invariant
                i <= idents.len(),
                self.plugin_drive == old(self).plugin_drive,
                self@ == define_idents(old(self)@, idents@.take(i as int)),
            decreases idents.len() - i,
        {
            self.define_variable(idents[i].sym.clone());
            proof {
                assert(idents@.take(i + 1).drop_last() == idents@.take(i as int));
                assert(idents@.take(i + 1).last() == idents@[i as int]);
            }
            i = i + 1;
        }
        assert(idents@.take(idents.len() as int) == idents@);
    }

    /// Hoists one statement: a function declaration and the declarators of
    /// a `var` define their names.
    pub fn pre_walk_statement(&mut self, stmt: &Stmt)
        ensures
            final(self)@ == pre_walk_statement_effect(old(self)@, *stmt),
            final(self).plugin_drive == old(self).plugin_drive,
    {
        self.enter_statement(stmt.span());
        match stmt {
            Stmt::Decl(Decl::Fn(f)) => {
                self.define_variable(f.ident.sym.clone());
            },
            Stmt::Decl(Decl::Var(v)) => {
                if v.kind == VarDeclKind::Var {
                    let idents = declared_ids(&v.decls);
                    self.define_variables(&idents);
                }
            },
            _ => {},
        }
        self.leave_statement();
    }

    /// Defines the names that an exported declaration declares.
    pub fn pre_walk_export_declaration(&mut self, statement: &ExportDecl)
        ensures
            final(self)@ == define_idents(old(self)@, declared_idents(statement.decl)),
            final(self).plugin_drive == old(self).plugin_drive,
    {
        match &statement.decl {
            Decl::Class(c) => {
                self.define_variable(c.ident.sym.clone());
                proof {
                    let idents = declared_idents(statement.decl);
                    assert(idents.drop_last() =~= Seq::empty());
                    assert(define_idents(old(self)@, idents.drop_last()) == old(self)@);
                    assert(idents.last() == c.ident);
                }
            },
            Decl::Fn(f) => {
                self.define_variable(f.ident.sym.clone());
                proof {
                    let idents = declared_idents(statement.decl);
                    assert(idents.drop_last() =~= Seq::empty());
                    assert(define_idents(old(self)@, idents.drop_last()) == old(self)@);
                    assert(idents.last() == f.ident);
                }
            },
            Decl::Var(v) => {
                let idents = declared_ids(&v.decls);
                self.define_variables(&idents);
            },
            _ => {},
        }
    }

    /// The first pass over the module's body, first entry to last.
    pub fn block_pre_walk_module_declarations(&mut self, statements: &Vec<ModuleItem>)
        requires
            all_admitted(statements@),
            old(self).last_harmony_import_order + source_order_steps(statements@) <= i32::MAX,
        ensures
            final(self)@ == block_pre_walk_module_declarations_effect(
                old(self).plugin_drive.plugins@,
                old(self)@,
                statements@,
            ),
            final(self).plugin_drive == old(self).plugin_drive,
    {
        let mut i: usize = 0;
        while i < statements.len()
            invariant
                i <= statements.len(),
                all_admitted(statements@),
                old(self).last_harmony_import_order + source_order_steps(statements@) <= i32::MAX,
                self.plugin_drive == old(self).plugin_drive,
                self@ == block_pre_walk_module_declarations_effect(
                    old(self).plugin_drive.plugins@,
                    old(self)@,
                    statements@.take(i as int),
                ),
            decreases statements.len() - i,
        {
            proof {
                lemma_steps_take(statements@, i as int);
                assert(all_admitted(statements@.take(i as int)));
                lemma_block_pre_walk_module_declarations_kept(
                    old(self).plugin_drive.plugins@,
                    old(self)@,
                    statements@.take(i as int),
                );
                assert(statements@.take(i + 1).drop_last() == statements@.take(i as int));
                assert(statements@.take(i + 1).last() == statements@[i as int]);
            }
            self.block_pre_walk_module_declaration(&statements[i]);
            i = i + 1;
        }
        assert(statements@.take(statements.len() as int) == statements@);
    }

    /// The first pass over the statements of a block, first to last.
    pub fn block_pre_walk_statements(&mut self, statements: &Vec<Stmt>)
        requires
            all_stmts_admitted(statements@),
        ensures
            final(self)@ == block_pre_walk_statements_effect(
                old(self).plugin_drive.plugins@,
                old(self)@,
                statements@,
            ),
            final(self).plugin_drive == old(self).plugin_drive,
    {
        let mut i: usize = 0;
        while i < statements.len()
            invariant
                i <= statements.len(),
                all_stmts_admitted(statements@),
                self.plugin_drive == old(self).plugin_drive,
                self@ == block_pre_walk_statements_effect(
                    old(self).plugin_drive.plugins@,
                    old(self)@,
                    statements@.take(i as int),
                ),
            decreases statements.len() - i,
        {
            proof {
                assert(statements@.take(i + 1).drop_last() == statements@.take(i as int));
                assert(statements@.take(i + 1).last() == statements@[i as int]);
            }
            self.block_pre_walk_statement(&statements[i]);
            i = i + 1;
        }
        assert(statements@.take(statements.len() as int) == statements@);
    }

    /// The first pass over one entry of the module's body.
    pub fn block_pre_walk_module_declaration(&mut self, statement: &ModuleItem)
        requires
            statement.admitted(),
            statement.takes_source_order() ==> old(self).last_harmony_import_order < i32::MAX,
        ensures
            final(self)@ == block_pre_walk_module_declaration_effect(
                old(self).plugin_drive.plugins@,
                old(self)@,
                *statement,
            ),
            final(self).plugin_drive == old(self).plugin_drive,
    {
        match statement {
            ModuleItem::ModuleDecl(decl) => {
                self.enter_statement(decl.span());
                match decl {
                    ModuleDecl::Import(decl) => self.block_pre_walk_import_declaration(decl),
                    ModuleDecl::ExportAll(decl) => self.block_pre_walk_export_all_declaration(decl),
                    ModuleDecl::ExportDefaultDecl(decl) => self.block_pre_walk_export_default_declaration(
                        decl,
                    ),
                    ModuleDecl::ExportNamed(decl) => self.block_pre_walk_export_name_declaration(decl),
                    // An expression defines nothing that exports are resolved against.
                    ModuleDecl::ExportDefaultExpr(_) => {},
                    ModuleDecl::ExportDecl(exp) => self.block_pre_walk_export_declaration(exp),
                    _ => {
                        proof {
                            assert(false);
                        }
                    },
                }
                self.leave_statement();
            },
            ModuleItem::Stmt(stmt) => self.block_pre_walk_statement(stmt),
        }
    }

    /// The first pass over one statement.
    pub fn block_pre_walk_statement(&mut self, stmt: &Stmt)
        requires
            stmt.admitted(),
        ensures
            final(self)@ == block_pre_walk_statement_effect(old(self).plugin_drive.plugins@, old(self)@, *stmt),
            final(self).plugin_drive == old(self).plugin_drive,
    {
        self.enter_statement(stmt.span());
        let drive = self.plugin_drive.clone();
        let claim = drive.pre_block_statement(self, stmt);
        if let Some(true) = claim {
            self.leave_statement();
            return ;
        }
        match stmt {
            Stmt::Decl(stmt) => match stmt {
                Decl::Class(decl) => self.block_pre_walk_class_declaration(decl),
                Decl::Var(decl) => self.block_pre_walk_variable_declaration(decl),
                Decl::Fn(_) => {},
                Decl::Using(_) => {},
                _ => {
                    proof {
                        assert(false);
                    }
                },
            },
            // An expression defines nothing that exports are resolved against.
            _ => {},
        }
        self.leave_statement();
    }

    fn block_pre_walk_variable_declaration(&mut self, decl: &VarDecl)
        ensures
            final(self)@ == block_pre_walk_variable_declaration_effect(old(self)@, *decl),
            final(self).plugin_drive == old(self).plugin_drive,
    {
        if decl.kind != VarDeclKind::Var {
            let idents = declared_ids(&decl.decls);
            self.define_variables(&idents);
        }
    }

    fn block_pre_walk_export_name_declaration(&mut self, decl: &NamedExport)
        requires
            decl.src is Some ==> decl.is_reexport() && old(self).last_harmony_import_order < i32::MAX,
        ensures
            final(self)@ == block_pre_walk_export_name_declaration_effect(
                old(self).plugin_drive.plugins@,
                old(self)@,
                *decl,
            ),
            final(self).plugin_drive == old(self).plugin_drive,
    {
        if let Some(source) = &decl.src {
            let drive = self.plugin_drive.clone();
            drive.named_export_import(self, decl, source.value.as_str());
        }
    }

    fn block_pre_walk_export_declaration(&mut self, exp: &ExportDecl)
        ensures
            final(self)@ == define_idents(old(self)@, declared_idents(exp.decl)),
            final(self).plugin_drive == old(self).plugin_drive,
    {
        self.pre_walk_export_declaration(exp);
    }

    fn block_pre_walk_class_declaration(&mut self, decl: &ClassDecl)
        ensures
            final(self)@ == old(self)@.define_variable(decl.ident.sym@),
            final(self).plugin_drive == old(self).plugin_drive,
    {
        self.define_variable(decl.ident.sym.clone())
    }

    fn block_pre_walk_export_default_declaration(&mut self, decl: &ExportDefaultDecl)
        requires
            !(decl.decl is TsInterfaceDecl),
        ensures
            final(self)@ == block_pre_walk_export_default_declaration_effect(
                old(self).plugin_drive.plugins@,
                old(self)@,
                *decl,
            ),
            final(self).plugin_drive == old(self).plugin_drive,
    {
        match &decl.decl {
            DefaultDecl::Class(expr) => {
                if let Some(ident) = &expr.ident {
                    self.define_variable(ident.sym.clone());
                    let stmt = Stmt::Decl(Decl::Class(ClassDecl { ident: ident.clone(), class: expr.class }));
                    self.pre_walk_statement(&stmt);
                    self.block_pre_walk_statement(&stmt);
                } else {
                    let stmt = Stmt::Expr(
                        ExprStmt {
                            span: expr.span(),
                            expr: Expr { span: expr.span(), kind: ExprKind::Class },
                        },
                    );
                    self.pre_walk_statement(&stmt);
                    self.block_pre_walk_statement(&stmt);
                }
            },
            DefaultDecl::Fn(expr) => {
                if let Some(ident) = &expr.ident {
                    self.define_variable(ident.sym.clone());
                    let stmt = Stmt::Decl(Decl::Fn(FnDecl { ident: ident.clone(), span: expr.function.span }));
                    self.pre_walk_statement(&stmt);
                    self.block_pre_walk_statement(&stmt);
                } else {
                    let stmt = Stmt::Expr(
                        ExprStmt {
                            span: expr.span(),
                            expr: Expr { span: expr.span(), kind: ExprKind::Fn },
                        },
                    );
                    self.pre_walk_statement(&stmt);
                    self.block_pre_walk_statement(&stmt);
                }
            },
            DefaultDecl::TsInterfaceDecl(_) => {
                proof {
                    assert(false);
                }
            },
        }
    }

    fn block_pre_walk_export_all_declaration(&mut self, decl: &ExportAll)
        requires
            decl.admitted(),
            old(self).last_harmony_import_order < i32::MAX,
        ensures
            final(self)@ == chain_outcome(
                old(self).plugin_drive.plugins@,
                old(self)@,
                Hook::AllExportImport(*decl),
            ).1,
            final(self).plugin_drive == old(self).plugin_drive,
    {
        let drive = self.plugin_drive.clone();
        drive.all_export_import(self, decl, decl.src.value.as_str());
    }

    fn block_pre_walk_import_declaration(&mut self, decl: &ImportDecl)
        requires
            old(self).last_harmony_import_order < i32::MAX,
        ensures
            final(self)@ == block_pre_walk_import_declaration_effect(
                old(self).plugin_drive.plugins@,
                old(self)@,
                *decl,
            ),
            final(self).plugin_drive == old(self).plugin_drive,
    {
        let drive = self.plugin_drive.clone();
        let source = &decl.src.value;
        drive.import(self, decl, source.as_str());
        let ghost imported = self@;
        let mut i: usize = 0;
        while i < decl.specifiers.len()
            invariant
                i <= decl.specifiers.len(),
                drive.plugins@ == old(self).plugin_drive.plugins@,
                source == &decl.src.value,
                self.plugin_drive == old(self).plugin_drive,
                self@ == import_specifiers_effect(
                    old(self).plugin_drive.plugins@,
                    imported,
                    *decl,
                    decl.specifiers@.take(i as int),
                ),
            decreases decl.specifiers.len() - i,
        {
            proof {
                assert(decl.specifiers@.take(i + 1).drop_last() == decl.specifiers@.take(i as int));
                assert(decl.specifiers@.take(i + 1).last() == decl.specifiers@[i as int]);
            }
            match &decl.specifiers[i] {
                ImportSpecifier::Named(named) => {
                    let identifier_name = &named.local.sym;
                    let export_name = match &named.imported {
                        Some(imported) => imported.atom(),
                        None => named.local.sym.clone(),
                    };
                    let claim = drive.import_specifier(
                        self,
                        decl,
                        source,
                        Some(&export_name),
                        identifier_name,
                    );
                    if let Some(true) = claim {
                        self.define_variable(identifier_name.clone())
                    }
                },
                ImportSpecifier::Default(local) => {
                    let identifier_name = &local.sym;
                    let export_name = js_default_keyword();
                    let claim = drive.import_specifier(
                        self,
                        decl,
                        source,
                        Some(&export_name),
                        identifier_name,
                    );
                    if let Some(true) = claim {
                        self.define_variable(identifier_name.clone())
                    }
                },
                ImportSpecifier::Namespace(local) => {
                    let identifier_name = &local.sym;
                    let claim = drive.import_specifier(self, decl, source, None, identifier_name);
                    if let Some(true) = claim {
                        self.define_variable(identifier_name.clone())
                    }
                },
            }
            i = i + 1;
        }
        assert(decl.specifiers@.take(decl.specifiers.len() as int) == decl.specifiers@);
    }
}

/// The imports and re-exports among the first `i + 1` entries are those
/// among the first `i`, and the next entry if it is one; and none of these
/// counts is more than that of all entries.
pub proof fn lemma_steps_take(items: Seq<ModuleItem>, i: int)
    requires
        0 <= i < items.len(),
    ensures
        source_order_steps(items.take(i + 1)) == source_order_steps(items.take(i)) + if items[i].takes_source_order() {
            1nat
        } else {
            0nat
        },
        source_order_steps(items.take(i + 1)) <= source_order_steps(items),
    decreases items.len() - i,
{
    assert(items.take(i + 1).drop_last() == items.take(i));
    assert(items.take(i + 1).last() == items[i]);
    if i + 1 < items.len() {
        lemma_steps_take(items, i + 1);
    } else {
        assert(items.take(i + 1) == items);
    }
}


} // verus!
