//! What holds of the records of a module after every offer also holds after
//! the passes over the module.

use vstd::prelude::*;
use crate::ast::{
    all_admitted, source_order_steps, Decl, Ident, ImportDecl, ImportSpecifier, ModuleDecl,
    ModuleItem, Stmt,
};
use crate::bindings::declarators_ids;
use crate::parser::ParserView;
use crate::records::Records;
use crate::parser_plugin::drive::chain_outcome;
use crate::parser_plugin::harmony_export_dependency_parser_plugin::declared_idents;
use crate::parser_plugin::hooks::{Hook, JavascriptParserPlugin};
use crate::walk::{
    walk_module_declaration_effect, walk_module_declarations_effect, walk_module_decl_effect,
    walk_program_effect,
};
use crate::walk_block_pre::{
    block_pre_walk_module_declaration_effect, block_pre_walk_module_declarations_effect,
    block_pre_walk_module_decl_effect, block_pre_walk_statement_effect, default_decl_name,
    default_decl_statement, define_idents, import_specifier_names, import_specifiers_effect,
    lemma_block_pre_walk_module_declarations_kept, pre_walk_statement_effect,
};

verus! {

/// Whether every offer to the chain of plugins keeps `inv`: whenever it
/// holds of the records before an offer that the traversal is ready for, it
/// holds of the records after it.
pub open spec fn offers_keep<P: JavascriptParserPlugin>(
    plugins: Seq<P>,
    inv: spec_fn(Records) -> bool,
) -> bool {
    forall|parser: ParserView, hook: Hook|
        hook.ready(parser) && inv(parser.records()) ==> inv(
            (#[trigger] chain_outcome(plugins, parser, hook)).1.records(),
        )
}

/// A chain of plugins keeps what each of its plugins keeps on every offer.
pub proof fn lemma_chain_keeps<P: JavascriptParserPlugin>(
    plugins: Seq<P>,
    inv: spec_fn(Records) -> bool,
)
    requires
        forall|i: int, parser: ParserView, hook: Hook|
            0 <= i < plugins.len() && hook.ready(parser) && inv(parser.records()) ==> inv(
                (#[trigger] plugins[i].outcome(parser, hook)).1.records(),
            ),
    ensures
        offers_keep(plugins, inv),
    decreases plugins.len(),
{
    if plugins.len() > 0 {
        let rest = plugins.skip(1);
        assert forall|i: int, parser: ParserView, hook: Hook|
            0 <= i < rest.len() && hook.ready(parser) && inv(parser.records()) implies inv(
            (#[trigger] rest[i].outcome(parser, hook)).1.records(),
        ) by {
            assert(rest[i] == plugins[i + 1]);
        }
        lemma_chain_keeps(rest, inv);
        assert forall|parser: ParserView, hook: Hook|
            hook.ready(parser) && inv(parser.records()) implies inv(
            (#[trigger] chain_outcome(plugins, parser, hook)).1.records(),
        ) by {
            let first = plugins[0].outcome(parser, hook);
            if first.0 is None {
                let chained = chain_outcome(rest, parser, hook);
            }
        }
    }
}

proof fn lemma_define_idents_records(parser: ParserView, idents: Seq<Ident>)
    ensures
        define_idents(parser, idents).records() == parser.records(),
    decreases idents.len(),
{
    if idents.len() > 0 {
        lemma_define_idents_records(parser, idents.drop_last());
    }
}

proof fn lemma_pre_walk_statement_records(parser: ParserView, stmt: Stmt)
    ensures
        pre_walk_statement_effect(parser, stmt).records() == parser.records(),
{
    let entered = parser.enter_statement(stmt.spec_span());
    if let Stmt::Decl(Decl::Var(v)) = stmt {
        lemma_define_idents_records(entered, declarators_ids(v.decls@));
    }
}

proof fn lemma_block_pre_walk_statement_keeps<P: JavascriptParserPlugin>(
    plugins: Seq<P>,
    inv: spec_fn(Records) -> bool,
    parser: ParserView,
    stmt: Stmt,
)
    requires
        offers_keep(plugins, inv),
        inv(parser.records()),
    ensures
        inv(block_pre_walk_statement_effect(plugins, parser, stmt).records()),
{
    let entered = parser.enter_statement(stmt.spec_span());
    assert(entered.records() == parser.records());
    let offered = chain_outcome(plugins, entered, Hook::PreBlockStatement(stmt));
    if let Stmt::Decl(Decl::Var(v)) = stmt {
        lemma_define_idents_records(offered.1, declarators_ids(v.decls@));
    }
    let left = block_pre_walk_statement_effect(plugins, parser, stmt);
    assert(left.records() == offered.1.records());
}

proof fn lemma_import_specifiers_keep<P: JavascriptParserPlugin>(
    plugins: Seq<P>,
    inv: spec_fn(Records) -> bool,
    parser: ParserView,
    statement: ImportDecl,
    specifiers: Seq<ImportSpecifier>,
)
    requires
        offers_keep(plugins, inv),
        inv(parser.records()),
    ensures
        inv(import_specifiers_effect(plugins, parser, statement, specifiers).records()),
    decreases specifiers.len(),
{
    if specifiers.len() > 0 {
        lemma_import_specifiers_keep(plugins, inv, parser, statement, specifiers.drop_last());
        let before = import_specifiers_effect(plugins, parser, statement, specifiers.drop_last());
        let names = import_specifier_names(specifiers.last());
        let offered = chain_outcome(plugins, before, Hook::ImportSpecifier(statement, names.0, names.1));
        let after = import_specifiers_effect(plugins, parser, statement, specifiers);
        assert(after.records() == offered.1.records());
    }
}

/// The first pass over one entry keeps what every offer keeps.
pub proof fn lemma_block_pre_walk_module_declaration_keeps<P: JavascriptParserPlugin>(
    plugins: Seq<P>,
    inv: spec_fn(Records) -> bool,
    parser: ParserView,
    item: ModuleItem,
)
    requires
        offers_keep(plugins, inv),
        inv(parser.records()),
        item.admitted(),
        item.takes_source_order() ==> parser.last_harmony_import_order < i32::MAX,
    ensures
        inv(block_pre_walk_module_declaration_effect(plugins, parser, item).records()),
{
    match item {
        ModuleItem::ModuleDecl(decl) => {
            let entered = parser.enter_statement(decl.spec_span());
            assert(entered.records() == parser.records());
            let inner = block_pre_walk_module_decl_effect(plugins, entered, decl);
            match decl {
                ModuleDecl::Import(statement) => {
                    let imported = chain_outcome(plugins, entered, Hook::Import(statement));
                    lemma_import_specifiers_keep(
                        plugins,
                        inv,
                        imported.1,
                        statement,
                        statement.specifiers@,
                    );
                },
                ModuleDecl::ExportAll(statement) => {
                    let offered = chain_outcome(plugins, entered, Hook::AllExportImport(statement));
                },
                ModuleDecl::ExportDefaultDecl(statement) => {
                    let stmt = default_decl_statement(statement.decl);
                    let defined = match default_decl_name(statement.decl) {
                        Some(name) => entered.define_variable(name),
                        None => entered,
                    };
                    assert(defined.records() == parser.records());
                    lemma_pre_walk_statement_records(defined, stmt);
                    lemma_block_pre_walk_statement_keeps(
                        plugins,
                        inv,
                        pre_walk_statement_effect(defined, stmt),
                        stmt,
                    );
                },
                ModuleDecl::ExportNamed(statement) => {
                    if statement.src is Some {
                        let offered = chain_outcome(plugins, entered, Hook::NamedExportImport(statement));
                    }
                },
                ModuleDecl::ExportDecl(statement) => {
                    lemma_define_idents_records(entered, declared_idents(statement.decl));
                },
                _ => {},
            }
            assert(inv(inner.records()));
            assert(inner.leave_statement().records() == inner.records());
        },
        ModuleItem::Stmt(stmt) => {
            lemma_block_pre_walk_statement_keeps(plugins, inv, parser, stmt);
        },
    }
}

/// The first pass keeps what every offer keeps.
pub proof fn lemma_block_pre_walk_module_declarations_keep<P: JavascriptParserPlugin>(
    plugins: Seq<P>,
    inv: spec_fn(Records) -> bool,
    parser: ParserView,
    items: Seq<ModuleItem>,
)
    requires
        offers_keep(plugins, inv),
        inv(parser.records()),
        all_admitted(items),
        parser.last_harmony_import_order + source_order_steps(items) <= i32::MAX,
    ensures
        inv(block_pre_walk_module_declarations_effect(plugins, parser, items).records()),
    decreases items.len(),
{
    if items.len() > 0 {
        assert(all_admitted(items.drop_last())) by {
            assert forall|i: int| 0 <= i < items.drop_last().len() implies (
            #[trigger] items.drop_last()[i]).admitted() by {
                assert(items[i].admitted());
            }
        }
        lemma_block_pre_walk_module_declarations_keep(plugins, inv, parser, items.drop_last());
        lemma_block_pre_walk_module_declarations_kept(plugins, parser, items.drop_last());
        lemma_block_pre_walk_module_declaration_keeps(
            plugins,
            inv,
            block_pre_walk_module_declarations_effect(plugins, parser, items.drop_last()),
            items.last(),
        );
    }
}

/// The second pass over one entry keeps what every offer keeps.
pub proof fn lemma_walk_module_declaration_keeps<P: JavascriptParserPlugin>(
    plugins: Seq<P>,
    inv: spec_fn(Records) -> bool,
    parser: ParserView,
    item: ModuleItem,
)
    requires
        offers_keep(plugins, inv),
        inv(parser.records()),
        item.admitted(),
    ensures
        inv(walk_module_declaration_effect(plugins, parser, item).records()),
{
    match item {
        ModuleItem::ModuleDecl(decl) => {
            let entered = parser.enter_statement(decl.spec_span());
            assert(entered.records() == parser.records());
            let inner = walk_module_decl_effect(plugins, entered, decl);
            match decl {
                ModuleDecl::ExportDefaultDecl(statement) => {
                    let offered = chain_outcome(plugins, entered, Hook::Export(statement));
                },
                ModuleDecl::ExportDefaultExpr(statement) => {
                    let offered = chain_outcome(plugins, entered, Hook::ExportDefaultExpr(statement));
                },
                ModuleDecl::ExportDecl(statement) => {
                    let offered = chain_outcome(plugins, entered, Hook::ExportDecl(statement));
                },
                ModuleDecl::ExportNamed(statement) => {
                    let offered = chain_outcome(plugins, entered, Hook::NamedExport(statement));
                },
                _ => {},
            }
            assert(inv(inner.records()));
            assert(inner.leave_statement().records() == inner.records());
        },
        ModuleItem::Stmt(stmt) => {
            let entered = parser.enter_statement(stmt.spec_span());
            assert(entered.leave_statement().records() == parser.records());
        },
    }
}

/// The second pass keeps what every offer keeps.
pub proof fn lemma_walk_module_declarations_keep<P: JavascriptParserPlugin>(
    plugins: Seq<P>,
    inv: spec_fn(Records) -> bool,
    parser: ParserView,
    items: Seq<ModuleItem>,
)
    requires
        offers_keep(plugins, inv),
        inv(parser.records()),
        all_admitted(items),
    ensures
        inv(walk_module_declarations_effect(plugins, parser, items).records()),
    decreases items.len(),
{
    if items.len() > 0 {
        assert(all_admitted(items.drop_last())) by {
            assert forall|i: int| 0 <= i < items.drop_last().len() implies (
            #[trigger] items.drop_last()[i]).admitted() by {
                assert(items[i].admitted());
            }
        }
        lemma_walk_module_declarations_keep(plugins, inv, parser, items.drop_last());
        lemma_walk_module_declaration_keeps(
            plugins,
            inv,
            walk_module_declarations_effect(plugins, parser, items.drop_last()),
            items.last(),
        );
    }
}

/// Whatever holds of the records of a module at the start of a traversal,
/// and is kept by every offer to the plugins, holds of them after both
/// passes over the module.
pub proof fn lemma_walk_program_keeps<P: JavascriptParserPlugin>(
    plugins: Seq<P>,
    inv: spec_fn(Records) -> bool,
    parser: ParserView,
    items: Seq<ModuleItem>,
)
    requires
        offers_keep(plugins, inv),
        inv(parser.records()),
        all_admitted(items),
        parser.last_harmony_import_order + source_order_steps(items) <= i32::MAX,
    ensures
        inv(walk_program_effect(plugins, parser, items).records()),
{
    lemma_block_pre_walk_module_declarations_keep(plugins, inv, parser, items);
    lemma_walk_module_declarations_keep(
        plugins,
        inv,
        block_pre_walk_module_declarations_effect(plugins, parser, items),
        items,
    );
}

} // verus!
