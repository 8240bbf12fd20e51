//! The second pass over a module's statements, and the two passes together.

use vstd::prelude::*;
use crate::ast::{all_admitted, source_order_steps, ModuleDecl, ModuleItem};
use crate::parser::{JavascriptParser, ParserView};
use crate::parser_plugin::drive::{chain_outcome, lemma_chain_kept};
use crate::parser_plugin::hooks::{Hook, JavascriptParserPlugin};
use crate::walk_block_pre::{
    block_pre_walk_module_declarations_effect, lemma_block_pre_walk_module_declarations_kept,
    lemma_steps_take, walk_kept,
};

verus! {

/// The state after the second pass over one import or export statement,
/// between entering and leaving it: a default export, an exported
/// declaration and a named export are offered to the plugins. Imports and
/// star re-exports were dealt with in the first pass.
pub open spec fn walk_module_decl_effect<P: JavascriptParserPlugin>(
    plugins: Seq<P>,
    parser: ParserView,
    decl: ModuleDecl,
) -> ParserView {
    match decl {
        ModuleDecl::ExportDefaultDecl(statement) => chain_outcome(plugins, parser, Hook::Export(statement)).1,
        ModuleDecl::ExportDefaultExpr(statement) => chain_outcome(
            plugins,
            parser,
            Hook::ExportDefaultExpr(statement),
        ).1,
        ModuleDecl::ExportDecl(statement) => chain_outcome(plugins, parser, Hook::ExportDecl(statement)).1,
        ModuleDecl::ExportNamed(statement) => chain_outcome(plugins, parser, Hook::NamedExport(statement)).1,
        _ => parser,
    }
}

/// The state after the second pass over one entry of the module's body.
pub open spec fn walk_module_declaration_effect<P: JavascriptParserPlugin>(
    plugins: Seq<P>,
    parser: ParserView,
    item: ModuleItem,
) -> ParserView {
    match item {
        ModuleItem::ModuleDecl(decl) => walk_module_decl_effect(
            plugins,
            parser.enter_statement(decl.spec_span()),
            decl,
        ).leave_statement(),
        ModuleItem::Stmt(stmt) => parser.enter_statement(stmt.spec_span()).leave_statement(),
    }
}

/// The state after the second pass over the module's body, first entry to
/// last.
pub open spec fn walk_module_declarations_effect<P: JavascriptParserPlugin>(
    plugins: Seq<P>,
    parser: ParserView,
    items: Seq<ModuleItem>,
) -> ParserView
    decreases items.len(),
{
    if items.len() == 0 {
        parser
    } else {
        walk_module_declaration_effect(
            plugins,
            walk_module_declarations_effect(plugins, parser, items.drop_last()),
            items.last(),
        )
    }
}

/// The state after both passes over the module's body: the first pass over
/// all of it, then the second.
pub open spec fn walk_program_effect<P: JavascriptParserPlugin>(
    plugins: Seq<P>,
    parser: ParserView,
    items: Seq<ModuleItem>,
) -> ParserView {
    walk_module_declarations_effect(
        plugins,
        block_pre_walk_module_declarations_effect(plugins, parser, items),
        items,
    )
}

/// The second pass over one entry takes no source order and takes nothing
/// away.
pub proof fn lemma_walk_module_declaration_kept<P: JavascriptParserPlugin>(
    plugins: Seq<P>,
    parser: ParserView,
    item: ModuleItem,
)
    requires
        item.admitted(),
    ensures
        walk_kept(parser, walk_module_declaration_effect(plugins, parser, item), 0),
{
    match item {
        ModuleItem::ModuleDecl(decl) => {
            let entered = parser.enter_statement(decl.spec_span());
            assert(entered.statement_path.drop_last() =~= parser.statement_path);
            match decl {
                ModuleDecl::ExportDefaultDecl(statement) => {
                    lemma_chain_kept(plugins, entered, Hook::Export(statement));
                },
                ModuleDecl::ExportDefaultExpr(statement) => {
                    lemma_chain_kept(plugins, entered, Hook::ExportDefaultExpr(statement));
                },
                ModuleDecl::ExportDecl(statement) => {
                    lemma_chain_kept(plugins, entered, Hook::ExportDecl(statement));
                },
                ModuleDecl::ExportNamed(statement) => {
                    lemma_chain_kept(plugins, entered, Hook::NamedExport(statement));
                },
                _ => {},
            }
        },
        ModuleItem::Stmt(stmt) => {
            let entered = parser.enter_statement(stmt.spec_span());
            assert(entered.statement_path.drop_last() =~= parser.statement_path);
        },
    }
}

/// The second pass takes no source order and takes nothing away, whatever
/// the plugins.
pub proof fn lemma_walk_module_declarations_kept<P: JavascriptParserPlugin>(
    plugins: Seq<P>,
    parser: ParserView,
    items: Seq<ModuleItem>,
)
    requires
        all_admitted(items),
    ensures
        walk_kept(parser, walk_module_declarations_effect(plugins, parser, items), 0),
    decreases items.len(),
{
    if items.len() > 0 {
        assert(all_admitted(items.drop_last())) by {
            assert forall|i: int| 0 <= i < items.drop_last().len() implies (
            #[trigger] items.drop_last()[i]).admitted() by {
                assert(items[i].admitted());
            }
        }
        lemma_walk_module_declarations_kept(plugins, parser, items.drop_last());
        lemma_walk_module_declaration_kept(
            plugins,
            walk_module_declarations_effect(plugins, parser, items.drop_last()),
            items.last(),
        );
    }
}

/// Both passes over a module, whatever the plugins, move the source order
/// on by the number of its imports and re-exports at most, add records,
/// exported names, star re-exports and defined names and take none away,
/// and leave the statement path and the configuration as they were.
pub proof fn lemma_walk_program_kept<P: JavascriptParserPlugin>(
    plugins: Seq<P>,
    parser: ParserView,
    items: Seq<ModuleItem>,
)
    requires
        all_admitted(items),
        parser.last_harmony_import_order + source_order_steps(items) <= i32::MAX,
    ensures
        walk_kept(parser, walk_program_effect(plugins, parser, items), source_order_steps(items) as int),
{
    lemma_block_pre_walk_module_declarations_kept(plugins, parser, items);
    lemma_walk_module_declarations_kept(
        plugins,
        block_pre_walk_module_declarations_effect(plugins, parser, items),
        items,
    );
}

/// Why a module cannot be walked.
#[derive(Clone, Copy, Debug, PartialEq, Eq, Structural)]
pub enum WalkError {
    /// The entry at the given place is of a form that does not reach
    /// extraction: a type-only declaration, or an export with a specifier
    /// that the grammar forbids.
    Unsupported(usize),
    /// The module has more imports and re-exports than source orders are
    /// left.
    SourceOrderExhausted,
}

/// What stands in the way of walking the module from the given source
/// order: the first unsupported entry or, if every entry is supported, the
/// want of source orders.
pub open spec fn walk_obstacle(order: int, items: Seq<ModuleItem>) -> Option<WalkError> {
    if !all_admitted(items) {
        Some(WalkError::Unsupported(first_unsupported_index(items, 0) as usize))
    } else if order + source_order_steps(items) > i32::MAX {
        Some(WalkError::SourceOrderExhausted)
    } else {
        None
    }
}

/// The place of the first unsupported entry from `from` on, or the number
/// of entries if there is none.
pub open spec fn first_unsupported_index(items: Seq<ModuleItem>, from: int) -> int
    decreases items.len() - from,
{
    if from < 0 || from >= items.len() {
        items.len() as int
    } else if !items[from].admitted() {
        from
    } else {
        first_unsupported_index(items, from + 1)
    }
}

impl<P: JavascriptParserPlugin> JavascriptParser<P> {
    /// Tells what stands in the way of walking the module, if anything.
    pub fn check_program(&self, statements: &Vec<ModuleItem>) -> (checked: Result<(), WalkError>)
        ensures
            checked is Ok <==> all_admitted(statements@) && self.last_harmony_import_order
                + source_order_steps(statements@) <= i32::MAX,
            checked matches Err(error) ==> Some(error) == walk_obstacle(
                self.last_harmony_import_order as int,
                statements@,
            ),
    {
        let mut left: i64 = i32::MAX as i64 - self.last_harmony_import_order as i64;
        let mut i: usize = 0;
        let mut exhausted = false;
        while i < statements.len()
            invariant
                i <= statements.len(),
                all_admitted(statements@.take(i as int)),
                first_unsupported_index(statements@, 0) == first_unsupported_index(statements@, i as int),
                0 <= left <= i32::MAX - i32::MIN,
                !exhausted ==> left == i32::MAX - self.last_harmony_import_order - source_order_steps(
                    statements@.take(i as int),
                ),
                exhausted ==> self.last_harmony_import_order + source_order_steps(
                    statements@.take(i as int),
                ) > i32::MAX,
            decreases statements.len() - i,
        {
            proof {
                lemma_steps_take(statements@, i as int);
            }
            if !statements[i].is_admitted() {
                proof {
                    assert(!all_admitted(statements@));
                }
                return Err(WalkError::Unsupported(i));
            }
            if statements[i].is_import_or_reexport() {
                if left == 0 {
                    exhausted = true;
                } else if !exhausted {
                    left = left - 1;
                }
            }
            proof {
                assert forall|j: int| 0 <= j < i + 1 implies (#[trigger] statements@.take(i + 1)[j]).admitted() by {
                    if j < i {
                        assert(statements@.take(i as int)[j].admitted());
                    }
                }
            }
            i = i + 1;
        }
        proof {
            assert(statements@.take(statements.len() as int) == statements@);
        }
        if exhausted {
            Err(WalkError::SourceOrderExhausted)
        } else {
            Ok(())
        }
    }

    /// Both passes over the module's body, if nothing stands in the way of
    /// them. A module that cannot be walked leaves the traversal as it was.
    pub fn try_walk_program(
        &mut self,
        statements: &Vec<ModuleItem>,
    ) -> (walked: Result<(), WalkError>)
        ensures
            walked == match walk_obstacle(old(self).last_harmony_import_order as int, statements@) {
                Some(error) => Err(error),
                None => Ok(()),
            },
            final(self).plugin_drive == old(self).plugin_drive,
            walked is Ok ==> final(self)@ == walk_program_effect(
                old(self).plugin_drive.plugins@,
                old(self)@,
                statements@,
            ),
            walked is Err ==> final(self)@ == old(self)@,
    {
        match self.check_program(statements) {
            Ok(()) => {
                self.walk_program(statements);
                Ok(())
            },
            Err(error) => Err(error),
        }
    }

    /// The second pass over one entry of the module's body.
    pub fn walk_module_declaration(&mut self, statement: &ModuleItem)
        requires
            statement.admitted(),
        ensures
            final(self)@ == walk_module_declaration_effect(
                old(self).plugin_drive.plugins@,
                old(self)@,
                *statement,
            ),
            final(self).plugin_drive == old(self).plugin_drive,
    {
        match statement {
            ModuleItem::ModuleDecl(decl) => {
                self.enter_statement(decl.span());
                let drive = self.plugin_drive.clone();
                match decl {
                    ModuleDecl::ExportDefaultDecl(decl) => {
                        drive.export(self, decl);
                    },
                    ModuleDecl::ExportDefaultExpr(decl) => {
                        drive.export_default_expr(self, decl);
                    },
                    ModuleDecl::ExportDecl(decl) => {
                        drive.export_decl(self, decl);
                    },
                    ModuleDecl::ExportNamed(decl) => {
                        drive.named_export(self, decl);
                    },
                    _ => {},
                }
                self.leave_statement();
            },
            ModuleItem::Stmt(stmt) => {
                self.enter_statement(stmt.span());
                self.leave_statement();
            },
        }
    }

    /// The second pass over the module's body, first entry to last.
    pub fn walk_module_declarations(&mut self, statements: &Vec<ModuleItem>)
        requires
            all_admitted(statements@),
        ensures
            final(self)@ == walk_module_declarations_effect(
                old(self).plugin_drive.plugins@,
                old(self)@,
                statements@,
            ),
            final(self).plugin_drive == old(self).plugin_drive,
    {
        let mut i: usize = 0;
        while i < statements.len()
            invariant
                i <= statements.len(),
                all_admitted(statements@),
                self.plugin_drive == old(self).plugin_drive,
                self@ == walk_module_declarations_effect(
                    old(self).plugin_drive.plugins@,
                    old(self)@,
                    statements@.take(i as int),
                ),
            decreases statements.len() - i,
        {
            proof {
                assert(statements@.take(i + 1).drop_last() == statements@.take(i as int));
                assert(statements@.take(i + 1).last() == statements@[i as int]);
            }
            self.walk_module_declaration(&statements[i]);
            i = i + 1;
        }
        assert(statements@.take(statements.len() as int) == statements@);
    }

    /// Both passes over the module's body: the first pass over all of it,
    /// then the second.
    pub fn walk_program(&mut self, statements: &Vec<ModuleItem>)
        requires
            all_admitted(statements@),
            old(self).last_harmony_import_order + source_order_steps(statements@) <= i32::MAX,
        ensures
            final(self)@ == walk_program_effect(old(self).plugin_drive.plugins@, old(self)@, statements@),
            final(self).plugin_drive == old(self).plugin_drive,
    {
        self.block_pre_walk_module_declarations(statements);
        self.walk_module_declarations(statements);
    }
}

} // verus!
