//! What holds of the records of a module, whatever the module: of the
//! source orders and the star re-exports under any plugins that keep to
//! what they owe the traversal, and of what the export plugin records.

use vstd::prelude::*;
use crate::ast::{
    all_admitted, source_order_steps, ExportAll, ExportDecl, ExportSpecifier, Ident, ImportDecl,
    ImportSpecifier, ModuleDecl, ModuleExportName, ModuleItem, NamedExport,
};
use crate::dependency::{DependencyType, DependencyView, Specifier};
use crate::inner_graph::InnerGraphMapUsageView;
use crate::invariants::{lemma_chain_keeps, lemma_walk_program_keeps};
use crate::records::{
    is_linkage, is_star_export, linkage_ascends_below, source_orders_ascend, star_exports_consistent,
    stars_match, Records,
};
use crate::parser::{JavascriptParserOptions, ParserView};
use crate::parser_plugin::drive::{chain_outcome, lemma_chain_kept};
use crate::parser_plugin::harmony_export_dependency_parser_plugin::{
    all_export_import_effect, blanking, declared_idents, default_keyword, default_star_word,
    exposed_name, named_export_effect, named_export_import_effect, no_default_specifier, reexport_record,
    reexported_specifier,
    export_decl_effect, export_default_expr_effect, export_effect, export_idents_effect,
    local_specifier_effect, reexport_specifier_effect, star_export,
    lemma_local_specifiers_grow, lemma_reexport_specifiers_grow, local_specifiers_effect,
    reexport_specifiers_effect, reexported_specifiers, HarmonyExportDependencyParserPlugin,
};
use crate::parser_plugin::hooks::{Hook, JavascriptParserPlugin};
use crate::span::{DependencyLocation, ErrorSpan, Span};
use crate::walk::{lemma_walk_module_declarations_kept, walk_program_effect};
use crate::walk_block_pre::{
    block_pre_walk_module_declaration_effect, block_pre_walk_module_declarations_effect,
    import_specifier_names, import_specifiers_effect, lemma_block_pre_walk_module_declaration_kept,
    lemma_block_pre_walk_module_declarations_kept, lemma_steps_take,
};

verus! {

/// Whether `after` has the records of `before` and then records that are
/// neither linkage records nor star re-exports, under the same source order
/// and with the same list of star re-exports.
pub open spec fn appends_plain(before: ParserView, after: ParserView) -> bool {
    &&& before.dependencies.is_prefix_of(after.dependencies)
    &&& forall|i: int|
        before.dependencies.len() <= i < after.dependencies.len() ==> !is_linkage(
            #[trigger] after.dependencies[i],
        ) && !is_star_export(after.dependencies[i])
    &&& after.last_harmony_import_order == before.last_harmony_import_order
    &&& after.all_star_exports == before.all_star_exports
}

proof fn lemma_reexport_specifiers_plain(
    parser: ParserView,
    request: Seq<char>,
    span: Span,
    specifiers: Seq<Specifier>,
)
    ensures
        appends_plain(parser, reexport_specifiers_effect(parser, request, span, specifiers)),
    decreases specifiers.len(),
{
    if specifiers.len() > 0 {
        lemma_reexport_specifiers_plain(parser, request, span, specifiers.drop_last());
    }
}

proof fn lemma_export_idents_plain(parser: ParserView, idents: Seq<Ident>)
    ensures
        appends_plain(parser, export_idents_effect(parser, idents)),
    decreases idents.len(),
{
    if idents.len() > 0 {
        lemma_export_idents_plain(parser, idents.drop_last());
    }
}

proof fn lemma_local_specifiers_plain(parser: ParserView, specifiers: Seq<ExportSpecifier>)
    ensures
        appends_plain(parser, local_specifiers_effect(parser, specifiers)),
    decreases specifiers.len(),
{
    if specifiers.len() > 0 {
        lemma_local_specifiers_plain(parser, specifiers.drop_last());
    }
}

/// What the plugin appends for a form other than a re-export with a
/// source is neither a linkage record nor a star re-export.
proof fn lemma_local_forms_plain(parser: ParserView, hook: Hook)
    requires
        !(hook is NamedExportImport),
        !(hook is AllExportImport),
    ensures
        appends_plain(parser, HarmonyExportDependencyParserPlugin.outcome(parser, hook).1),
{
    match hook {
        Hook::ExportDecl(statement) => {
            lemma_export_idents_plain(parser, declared_idents(statement.decl));
        },
        Hook::NamedExport(statement) => {
            lemma_local_specifiers_plain(parser, statement.specifiers@);
        },
        _ => {},
    }
}

proof fn lemma_plain_keeps_linkage(before: ParserView, after: ParserView, bound: int)
    requires
        appends_plain(before, after),
        linkage_ascends_below(before.dependencies, bound),
    ensures
        linkage_ascends_below(after.dependencies, bound),
{
    assert forall|i: int| 0 <= i < before.dependencies.len() implies before.dependencies[i]
        == after.dependencies[i] by {
        assert(before.dependencies[i] == after.dependencies.subrange(
            0,
            before.dependencies.len() as int,
        )[i]);
    }
}

proof fn lemma_plain_keeps_stars(before: ParserView, after: ParserView)
    requires
        appends_plain(before, after),
        stars_match(before.dependencies, before.all_star_exports),
    ensures
        stars_match(after.dependencies, after.all_star_exports),
{
    assert forall|i: int| 0 <= i < before.dependencies.len() implies before.dependencies[i]
        == after.dependencies[i] by {
        assert(before.dependencies[i] == after.dependencies.subrange(
            0,
            before.dependencies.len() as int,
        )[i]);
    }
    let stars = before.all_star_exports;
    assert forall|k: int| 0 <= k < stars.len() implies {
        let id = #[trigger] stars[k];
        &&& id < after.dependencies.len()
        &&& is_star_export(after.dependencies[id as int])
        &&& after.dependencies[id as int]->HarmonyExportImportedSpecifier_other_star_exports
            == Some(stars.take(k))
    } by {
        assert(before.dependencies[stars[k] as int] == after.dependencies[stars[k] as int]);
    }
}

/// One more linkage record, under the bound itself, keeps the source
/// orders rising below the next bound.
proof fn lemma_push_linkage(dependencies: Seq<DependencyView>, linkage: DependencyView, bound: int)
    requires
        linkage_ascends_below(dependencies, bound),
        is_linkage(linkage),
        linkage->HarmonyImportSideEffect_source_order == bound,
    ensures
        linkage_ascends_below(dependencies.push(linkage), bound + 1),
{
}

/// One more record that is no linkage record keeps the source orders
/// rising.
proof fn lemma_push_other(dependencies: Seq<DependencyView>, other: DependencyView, bound: int)
    requires
        linkage_ascends_below(dependencies, bound),
        !is_linkage(other),
    ensures
        linkage_ascends_below(dependencies.push(other), bound),
{
}

/// A star re-export that holds the list as it stands, and joins it, keeps
/// the list and the records matched.
proof fn lemma_push_star(dependencies: Seq<DependencyView>, stars: Seq<nat>, star: DependencyView)
    requires
        stars_match(dependencies, stars),
        is_star_export(star),
        star->HarmonyExportImportedSpecifier_other_star_exports == Some(stars),
    ensures
        stars_match(dependencies.push(star), stars.push(dependencies.len())),
{
    let deps = dependencies.push(star);
    let list = stars.push(dependencies.len());
    assert forall|k: int| 0 <= k < list.len() implies {
        let id = #[trigger] list[k];
        &&& id < deps.len()
        &&& is_star_export(deps[id as int])
        &&& deps[id as int]->HarmonyExportImportedSpecifier_other_star_exports == Some(list.take(k))
    } by {
        if k < stars.len() {
            assert(list[k] == stars[k]);
            assert(list.take(k) =~= stars.take(k));
        } else {
            assert(list.take(k) =~= stars);
        }
    }
    assert forall|i: int| 0 <= i < deps.len() && is_star_export(#[trigger] deps[i]) implies list.contains(
        i as nat,
    ) by {
        if i < dependencies.len() {
            assert(stars.contains(i as nat));
            let k = choose|k: int| 0 <= k < stars.len() && stars[k] == i as nat;
            assert(list[k] == i as nat);
        } else {
            assert(list[stars.len() as int] == i as nat);
        }
    }
}

/// One more record that is no star re-export keeps the list and the
/// records matched.
proof fn lemma_push_no_star(
    dependencies: Seq<DependencyView>,
    stars: Seq<nat>,
    other: DependencyView,
)
    requires
        stars_match(dependencies, stars),
        !is_star_export(other),
    ensures
        stars_match(dependencies.push(other), stars),
{
    let deps = dependencies.push(other);
    assert forall|k: int| 0 <= k < stars.len() implies {
        let id = #[trigger] stars[k];
        &&& id < deps.len()
        &&& is_star_export(deps[id as int])
        &&& deps[id as int]->HarmonyExportImportedSpecifier_other_star_exports == Some(stars.take(k))
    } by {
        assert(deps[stars[k] as int] == dependencies[stars[k] as int]);
    }
}

/// Every offer to the plugin keeps the source orders rising.
pub proof fn lemma_offer_keeps_source_orders(parser: ParserView, hook: Hook)
    requires
        source_orders_ascend(parser.records()),
    ensures
        source_orders_ascend(HarmonyExportDependencyParserPlugin.outcome(parser, hook).1.records()),
{
    let bound = parser.last_harmony_import_order + 1;
    match hook {
        Hook::NamedExportImport(statement) => {
            let advanced = parser.advance_source_order();
            let recorded = reexport_specifiers_effect(
                advanced,
                statement.src->0.value@,
                statement.span,
                reexported_specifiers(statement.specifiers@),
            );
            lemma_reexport_specifiers_plain(
                advanced,
                statement.src->0.value@,
                statement.span,
                reexported_specifiers(statement.specifiers@),
            );
            lemma_plain_keeps_linkage(advanced, recorded, bound);
            let linkage = DependencyView::HarmonyImportSideEffect {
                request: statement.src->0.value@,
                source_order: advanced.last_harmony_import_order,
                span: ErrorSpan::of(statement.span),
                source_span: ErrorSpan::of(statement.src->0.span),
                dependency_type: DependencyType::EsmExport,
                export_all: false,
            };
            lemma_push_linkage(recorded.dependencies, linkage, bound);
            lemma_push_other(
                recorded.dependencies.push(linkage),
                blanking(statement.span),
                bound + 1,
            );
        },
        Hook::AllExportImport(statement) => {
            let advanced = parser.advance_source_order();
            let linkage = DependencyView::HarmonyImportSideEffect {
                request: statement.src.value@,
                source_order: advanced.last_harmony_import_order,
                span: ErrorSpan::of(statement.span),
                source_span: ErrorSpan::of(statement.src.span),
                dependency_type: DependencyType::EsmExport,
                export_all: true,
            };
            assert(reexport_specifiers_effect(
                advanced,
                statement.src.value@,
                statement.span,
                Seq::<Specifier>::empty(),
            ) == advanced);
            lemma_push_linkage(advanced.dependencies, linkage, bound);
            let linked = advanced.push_dependency(linkage);
            let star = star_export(
                linked,
                statement,
            );
            lemma_push_other(linked.dependencies, star, bound + 1);
            lemma_push_other(linked.dependencies.push(star), blanking(statement.span), bound + 1);
        },
        _ => {
            lemma_local_forms_plain(parser, hook);
            lemma_plain_keeps_linkage(
                parser,
                HarmonyExportDependencyParserPlugin.outcome(parser, hook).1,
                bound,
            );
        },
    }
}

/// Every offer to the plugin keeps the list of star re-exports and the
/// records matched.
pub proof fn lemma_offer_keeps_star_exports(parser: ParserView, hook: Hook)
    requires
        star_exports_consistent(parser.records()),
    ensures
        star_exports_consistent(HarmonyExportDependencyParserPlugin.outcome(parser, hook).1.records()),
{
    match hook {
        Hook::NamedExportImport(statement) => {
            let advanced = parser.advance_source_order();
            let recorded = reexport_specifiers_effect(
                advanced,
                statement.src->0.value@,
                statement.span,
                reexported_specifiers(statement.specifiers@),
            );
            lemma_reexport_specifiers_plain(
                advanced,
                statement.src->0.value@,
                statement.span,
                reexported_specifiers(statement.specifiers@),
            );
            lemma_plain_keeps_stars(advanced, recorded);
            let linkage = DependencyView::HarmonyImportSideEffect {
                request: statement.src->0.value@,
                source_order: advanced.last_harmony_import_order,
                span: ErrorSpan::of(statement.span),
                source_span: ErrorSpan::of(statement.src->0.span),
                dependency_type: DependencyType::EsmExport,
                export_all: false,
            };
            lemma_push_no_star(recorded.dependencies, recorded.all_star_exports, linkage);
            lemma_push_no_star(
                recorded.dependencies.push(linkage),
                recorded.all_star_exports,
                blanking(statement.span),
            );
        },
        Hook::AllExportImport(statement) => {
            let advanced = parser.advance_source_order();
            let linkage = DependencyView::HarmonyImportSideEffect {
                request: statement.src.value@,
                source_order: advanced.last_harmony_import_order,
                span: ErrorSpan::of(statement.span),
                source_span: ErrorSpan::of(statement.src.span),
                dependency_type: DependencyType::EsmExport,
                export_all: true,
            };
            assert(reexport_specifiers_effect(
                advanced,
                statement.src.value@,
                statement.span,
                Seq::<Specifier>::empty(),
            ) == advanced);
            lemma_push_no_star(advanced.dependencies, advanced.all_star_exports, linkage);
            let linked = advanced.push_dependency(linkage);
            let star = star_export(
                linked,
                statement,
            );
            lemma_push_star(linked.dependencies, linked.all_star_exports, star);
            lemma_push_no_star(
                linked.dependencies.push(star),
                linked.all_star_exports.push(linked.dependencies.len()),
                blanking(statement.span),
            );
        },
        _ => {
            lemma_local_forms_plain(parser, hook);
            lemma_plain_keeps_stars(parser, HarmonyExportDependencyParserPlugin.outcome(parser, hook).1);
        },
    }
}

/// The source orders of the linkage records rise strictly along the
/// dependency list after both passes over any module, if they did before,
/// whatever the plugins: every import and re-export statement is linked
/// under a source order beyond those of all statements before it.
pub proof fn lemma_source_orders_follow_statements<P: JavascriptParserPlugin>(
    plugins: Seq<P>,
    parser: ParserView,
    items: Seq<ModuleItem>,
)
    requires
        source_orders_ascend(parser.records()),
        all_admitted(items),
        parser.last_harmony_import_order + source_order_steps(items) <= i32::MAX,
    ensures
        source_orders_ascend(walk_program_effect(plugins, parser, items).records()),
{
    let inv = |records: Records| source_orders_ascend(records);
    assert forall|state: ParserView, hook: Hook|
        hook.ready(state) && inv(state.records()) implies inv(
        (#[trigger] chain_outcome(plugins, state, hook)).1.records(),
    ) by {
        lemma_chain_kept(plugins, state, hook);
    }
    lemma_walk_program_keeps(plugins, inv, parser, items);
}

/// After both passes over any module, whatever the plugins, the list of
/// star re-exports names the star re-export records of the dependency
/// list, all of them and in their order, and each of these records holds
/// the star re-exports declared before it, if that was so before.
pub proof fn lemma_star_exports_hold_earlier_ones<P: JavascriptParserPlugin>(
    plugins: Seq<P>,
    parser: ParserView,
    items: Seq<ModuleItem>,
)
    requires
        star_exports_consistent(parser.records()),
        all_admitted(items),
        parser.last_harmony_import_order + source_order_steps(items) <= i32::MAX,
    ensures
        star_exports_consistent(walk_program_effect(plugins, parser, items).records()),
{
    let inv = |records: Records| star_exports_consistent(records);
    assert forall|state: ParserView, hook: Hook|
        hook.ready(state) && inv(state.records()) implies inv(
        (#[trigger] chain_outcome(plugins, state, hook)).1.records(),
    ) by {
        lemma_chain_kept(plugins, state, hook);
    }
    lemma_walk_program_keeps(plugins, inv, parser, items);
}

/// A traversal starts with records of which both hold.
pub proof fn lemma_initial_records(javascript_options: JavascriptParserOptions)
    ensures
        source_orders_ascend(ParserView::initial(javascript_options).records()),
        star_exports_consistent(ParserView::initial(javascript_options).records()),
        exported_names_registered(ParserView::initial(javascript_options).records()),
{
}

/// The names that the module exports after the identifiers are exported
/// are those it exported before and the names of the identifiers.
proof fn lemma_export_idents_names(parser: ParserView, idents: Seq<Ident>)
    ensures
        forall|name: Seq<char>| #[trigger]
            export_idents_effect(parser, idents).harmony_named_exports.contains(name) <==> (
            parser.harmony_named_exports.contains(name) || exists|i: int|
                0 <= i < idents.len() && (#[trigger] idents[i]).sym@ == name),
    decreases idents.len(),
{
    if idents.len() > 0 {
        let front = idents.drop_last();
        lemma_export_idents_names(parser, front);
        let before = export_idents_effect(parser, front);
        let after = export_idents_effect(parser, idents);
        assert forall|name: Seq<char>| #[trigger]
            after.harmony_named_exports.contains(name) <==> (parser.harmony_named_exports.contains(
            name,
        ) || exists|i: int| 0 <= i < idents.len() && (#[trigger] idents[i]).sym@ == name) by {
            if after.harmony_named_exports.contains(name) {
                if name == idents.last().sym@ {
                    assert(idents[idents.len() - 1].sym@ == name);
                } else {
                    assert(before.harmony_named_exports.contains(name));
                    if !parser.harmony_named_exports.contains(name) {
                        let i = choose|i: int| 0 <= i < front.len() && (#[trigger] front[i]).sym@ == name;
                        assert(idents[i].sym@ == name);
                    }
                }
            }
            if exists|i: int| 0 <= i < idents.len() && (#[trigger] idents[i]).sym@ == name {
                let i = choose|i: int| 0 <= i < idents.len() && (#[trigger] idents[i]).sym@ == name;
                if i < front.len() {
                    assert(front[i].sym@ == name);
                }
            }
        }
    }
}

/// An exported declaration that is recorded a second time adds no name to
/// those that the module exports: each name is among them once, however
/// often the declaration is visited.
pub proof fn lemma_export_decl_registers_once(parser: ParserView, statement: ExportDecl)
    ensures
        export_decl_effect(
            export_decl_effect(parser, statement),
            statement,
        ).harmony_named_exports == export_decl_effect(parser, statement).harmony_named_exports,
        forall|i: int|
            0 <= i < declared_idents(statement.decl).len() ==> export_decl_effect(
                parser,
                statement,
            ).harmony_named_exports.contains((#[trigger] declared_idents(statement.decl)[i]).sym@),
{
    let idents = declared_idents(statement.decl);
    let once = export_decl_effect(parser, statement);
    let twice = export_decl_effect(once, statement);
    lemma_export_idents_names(parser, idents);
    lemma_export_idents_names(once, idents);
    assert(once.harmony_named_exports == export_idents_effect(parser, idents).harmony_named_exports);
    assert(twice.harmony_named_exports == export_idents_effect(once, idents).harmony_named_exports);
    assert forall|name: Seq<char>|
        twice.harmony_named_exports.contains(name) <==> once.harmony_named_exports.contains(name) by {
        if exists|i: int| 0 <= i < idents.len() && (#[trigger] idents[i]).sym@ == name {
            assert(export_idents_effect(parser, idents).harmony_named_exports.contains(name));
        }
    }
    assert(twice.harmony_named_exports =~= once.harmony_named_exports);
    assert forall|i: int| 0 <= i < idents.len() implies once.harmony_named_exports.contains(
        (#[trigger] idents[i]).sym@,
    ) by {
        assert(export_idents_effect(parser, idents).harmony_named_exports.contains(idents[i].sym@));
    }
}

/// The span of the statement that an offer is of, for the forms whose text
/// is blanked.
pub open spec fn blanked_span(hook: Hook) -> Option<Span> {
    match hook {
        Hook::NamedExportImport(statement) => Some(statement.span),
        Hook::AllExportImport(statement) => Some(statement.span),
        Hook::NamedExport(statement) => if statement.src is None {
            Some(statement.span)
        } else {
            None
        },
        _ => None,
    }
}

/// For every export with a source, and every named export without one, the
/// last record that the plugin emits replaces the text of the whole
/// statement, from its first byte to its last, by nothing: no part of the
/// statement is left in the text.
pub proof fn lemma_reexport_text_blanked(parser: ParserView, hook: Hook)
    requires
        blanked_span(hook) is Some,
    ensures
        ({
            let after = HarmonyExportDependencyParserPlugin.outcome(parser, hook).1;
            let span = blanked_span(hook)->0;
            &&& after.dependencies.len() > parser.dependencies.len()
            &&& after.dependencies.last() == (DependencyView::Const {
                start: span.spec_real_lo(),
                end: span.spec_real_hi(),
                content: Seq::empty(),
                runtime_requirements: None,
            })
        }),
{
    match hook {
        Hook::NamedExportImport(statement) => {
            lemma_reexport_specifiers_grow(
                parser.advance_source_order(),
                statement.src->0.value@,
                statement.span,
                reexported_specifiers(statement.specifiers@),
            );
        },
        Hook::NamedExport(statement) => {
            lemma_local_specifiers_grow(parser, statement.specifiers@);
        },
        _ => {},
    }
}


/// A chain of export plugins decides as one export plugin does.
pub proof fn lemma_export_chain(
    plugins: Seq<HarmonyExportDependencyParserPlugin>,
    parser: ParserView,
    hook: Hook,
)
    requires
        plugins.len() > 0,
    ensures
        chain_outcome(plugins, parser, hook) == HarmonyExportDependencyParserPlugin.outcome(parser, hook),
    decreases plugins.len(),
{
    if plugins.len() > 1 {
        lemma_export_chain(plugins.skip(1), parser, hook);
    } else {
        assert(chain_outcome(plugins.skip(1), parser, hook) == (None::<bool>, parser));
    }
}

/// Whether the entry is a re-export: an export with a source.
pub open spec fn is_reexport_statement(item: ModuleItem) -> bool {
    match item {
        ModuleItem::ModuleDecl(ModuleDecl::ExportAll(_)) => true,
        ModuleItem::ModuleDecl(ModuleDecl::ExportNamed(statement)) => statement.src is Some,
        _ => false,
    }
}

/// The number of re-exports among the entries.
pub open spec fn reexport_count(items: Seq<ModuleItem>) -> nat
    decreases items.len(),
{
    if items.len() == 0 {
        0
    } else {
        reexport_count(items.drop_last()) + if is_reexport_statement(items.last()) {
            1nat
        } else {
            0nat
        }
    }
}

proof fn lemma_import_specifiers_unclaimed(
    plugins: Seq<HarmonyExportDependencyParserPlugin>,
    parser: ParserView,
    statement: ImportDecl,
    specifiers: Seq<ImportSpecifier>,
)
    requires
        plugins.len() > 0,
    ensures
        import_specifiers_effect(plugins, parser, statement, specifiers) == parser,
    decreases specifiers.len(),
{
    if specifiers.len() > 0 {
        lemma_import_specifiers_unclaimed(plugins, parser, statement, specifiers.drop_last());
        let names = import_specifier_names(specifiers.last());
        lemma_export_chain(plugins, parser, Hook::ImportSpecifier(statement, names.0, names.1));
    }
}

/// The first pass over one entry moves the source order on by one for a
/// re-export, and leaves it for any other entry.
proof fn lemma_entry_takes_next_source_order(
    plugins: Seq<HarmonyExportDependencyParserPlugin>,
    parser: ParserView,
    item: ModuleItem,
)
    requires
        plugins.len() > 0,
        item.admitted(),
        item.takes_source_order() ==> parser.last_harmony_import_order < i32::MAX,
    ensures
        block_pre_walk_module_declaration_effect(plugins, parser, item).last_harmony_import_order
            == parser.last_harmony_import_order + if is_reexport_statement(item) {
            1int
        } else {
            0int
        },
{
    lemma_block_pre_walk_module_declaration_kept(plugins, parser, item);
    if let ModuleItem::ModuleDecl(decl) = item {
        let entered = parser.enter_statement(decl.spec_span());
        match decl {
            ModuleDecl::Import(statement) => {
                lemma_export_chain(plugins, entered, Hook::Import(statement));
                lemma_import_specifiers_unclaimed(plugins, entered, statement, statement.specifiers@);
            },
            ModuleDecl::ExportAll(statement) => {
                lemma_export_chain(plugins, entered, Hook::AllExportImport(statement));
                lemma_reexport_specifiers_grow(
                    entered.advance_source_order(),
                    statement.src.value@,
                    statement.span,
                    Seq::empty(),
                );
            },
            ModuleDecl::ExportNamed(statement) => {
                if statement.src is Some {
                    lemma_export_chain(plugins, entered, Hook::NamedExportImport(statement));
                    lemma_reexport_specifiers_grow(
                        entered.advance_source_order(),
                        statement.src->0.value@,
                        statement.span,
                        reexported_specifiers(statement.specifiers@),
                    );
                }
            },
            _ => {},
        }
    }
}

/// The source order that is given out last after both passes over a module
/// is the one before them and the number of the module's re-exports: the
/// re-exports take the source orders one after the other, in the order of
/// the statements, and no other statement takes one.
pub proof fn lemma_source_order_counts_reexports(
    plugins: Seq<HarmonyExportDependencyParserPlugin>,
    parser: ParserView,
    items: Seq<ModuleItem>,
)
    requires
        plugins.len() > 0,
        all_admitted(items),
        parser.last_harmony_import_order + source_order_steps(items) <= i32::MAX,
    ensures
        block_pre_walk_module_declarations_effect(plugins, parser, items).last_harmony_import_order
            == parser.last_harmony_import_order + reexport_count(items),
        walk_program_effect(plugins, parser, items).last_harmony_import_order
            == parser.last_harmony_import_order + reexport_count(items),
    decreases items.len(),
{
    if items.len() > 0 {
        let front = items.drop_last();
        assert(all_admitted(front)) by {
            assert forall|i: int| 0 <= i < front.len() implies (#[trigger] front[i]).admitted() by {
                assert(items[i].admitted());
            }
        }
        lemma_source_order_counts_reexports(plugins, parser, front);
        lemma_block_pre_walk_module_declarations_kept(plugins, parser, front);
        lemma_entry_takes_next_source_order(
            plugins,
            block_pre_walk_module_declarations_effect(plugins, parser, front),
            items.last(),
        );
    }
    lemma_walk_module_declarations_kept(
        plugins,
        block_pre_walk_module_declarations_effect(plugins, parser, items),
        items,
    );
}


/// Whether the name under which `dependency` exports something is among
/// `exports`. The record of a default-exported declaration is left out: the
/// name `default` is registered only where a specifier exports under it.
pub open spec fn name_registered(dependency: DependencyView, exports: Set<Seq<char>>) -> bool {
    match dependency {
        DependencyView::HarmonyExportImportedSpecifier { name: Some(name), .. } => exports.contains(name),
        DependencyView::HarmonyExportSpecifier { name, .. } => name != default_keyword() ==> exports.contains(
            name,
        ),
        _ => true,
    }
}

/// Every record among `dependencies` exports under a name among `exports`.
pub open spec fn all_registered(
    dependencies: Seq<DependencyView>,
    exports: Set<Seq<char>>,
) -> bool {
    forall|i: int| 0 <= i < dependencies.len() ==> name_registered(#[trigger] dependencies[i], exports)
}

/// The names that the module exports hold every name under which a record
/// exports a binding.
pub open spec fn exported_names_registered(records: Records) -> bool {
    all_registered(records.dependencies, records.harmony_named_exports)
}

/// A record that exports under `name`, or under no name, and `name` as one
/// more export keep the names registered.
proof fn lemma_register(
    dependencies: Seq<DependencyView>,
    exports: Set<Seq<char>>,
    dependency: DependencyView,
    name: Seq<char>,
)
    requires
        all_registered(dependencies, exports),
        name_registered(dependency, exports.insert(name)),
    ensures
        all_registered(dependencies.push(dependency), exports.insert(name)),
        all_registered(dependencies.push(dependency), exports) <== name_registered(dependency, exports),
        all_registered(dependencies, exports.insert(name)),
{
    let more = exports.insert(name);
    assert forall|i: int| 0 <= i < dependencies.len() implies name_registered(
        #[trigger] dependencies[i],
        more,
    ) by {
        assert(name_registered(dependencies[i], exports));
    }
    let longer = dependencies.push(dependency);
    assert forall|i: int| 0 <= i < longer.len() implies name_registered(#[trigger] longer[i], more) by {
        if i < dependencies.len() {
            assert(longer[i] == dependencies[i]);
        }
    }
    if name_registered(dependency, exports) {
        assert forall|i: int| 0 <= i < longer.len() implies name_registered(
            #[trigger] longer[i],
            exports,
        ) by {
            if i < dependencies.len() {
                assert(longer[i] == dependencies[i]);
                assert(name_registered(dependencies[i], exports));
            }
        }
    }
}

proof fn lemma_reexport_specifiers_register(
    parser: ParserView,
    request: Seq<char>,
    span: Span,
    specifiers: Seq<Specifier>,
)
    requires
        exported_names_registered(parser.records()),
    ensures
        exported_names_registered(
            reexport_specifiers_effect(parser, request, span, specifiers).records(),
        ),
    decreases specifiers.len(),
{
    if specifiers.len() > 0 {
        lemma_reexport_specifiers_register(parser, request, span, specifiers.drop_last());
        let before = reexport_specifiers_effect(parser, request, span, specifiers.drop_last());
        let after = reexport_specifier_effect(before, request, span, specifiers.last());
        match specifiers.last() {
            Specifier::Namespace(n) => {
                lemma_register(
                    before.dependencies,
                    before.harmony_named_exports,
                    after.dependencies.last(),
                    n@,
                );
                assert(after.dependencies == before.dependencies.push(after.dependencies.last()));
            },
            Specifier::Named(orig, exported) => {
                let name = match exported {
                    Some(alias) => alias@,
                    None => orig@,
                };
                lemma_register(
                    before.dependencies,
                    before.harmony_named_exports,
                    after.dependencies.last(),
                    name,
                );
                assert(after.dependencies == before.dependencies.push(after.dependencies.last()));
            },
            Specifier::Default(_) => {},
        }
    }
}

proof fn lemma_export_idents_register(parser: ParserView, idents: Seq<Ident>)
    requires
        exported_names_registered(parser.records()),
    ensures
        exported_names_registered(export_idents_effect(parser, idents).records()),
    decreases idents.len(),
{
    if idents.len() > 0 {
        lemma_export_idents_register(parser, idents.drop_last());
        let before = export_idents_effect(parser, idents.drop_last());
        let after = export_idents_effect(parser, idents);
        let name = idents.last().sym@;
        lemma_register(
            before.dependencies,
            before.harmony_named_exports,
            DependencyView::HarmonyExportSpecifier { name, value: name },
            name,
        );
    }
}

proof fn lemma_local_specifiers_register(parser: ParserView, specifiers: Seq<ExportSpecifier>)
    requires
        exported_names_registered(parser.records()),
    ensures
        exported_names_registered(local_specifiers_effect(parser, specifiers).records()),
    decreases specifiers.len(),
{
    if specifiers.len() > 0 {
        lemma_local_specifiers_register(parser, specifiers.drop_last());
        let before = local_specifiers_effect(parser, specifiers.drop_last());
        let after = local_specifier_effect(before, specifiers.last());
        if let ExportSpecifier::Named(named) = specifiers.last() {
            if let ModuleExportName::Ident(orig) = named.orig {
                let export = match named.exported {
                    Some(exported) => exported.spec_atom()@,
                    None => orig.sym@,
                };
                assert(after.dependencies == before.dependencies.push(after.dependencies.last()));
                lemma_register(
                    before.dependencies,
                    before.harmony_named_exports,
                    after.dependencies.last(),
                    export,
                );
            }
        }
    }
}

/// One more record that exports under no name of its own keeps the names
/// registered.
proof fn lemma_register_nameless(parser: ParserView, dependency: DependencyView)
    requires
        exported_names_registered(parser.records()),
        name_registered(dependency, Set::empty()),
    ensures
        exported_names_registered(parser.push_dependency(dependency).records()),
{
    let deps = parser.dependencies.push(dependency);
    assert forall|i: int| 0 <= i < deps.len() implies name_registered(
        #[trigger] deps[i],
        parser.harmony_named_exports,
    ) by {
        if i < parser.dependencies.len() {
            assert(deps[i] == parser.dependencies[i]);
            assert(name_registered(parser.dependencies[i], parser.harmony_named_exports));
        }
    }
}

/// Every offer to the plugin keeps the exported names registered.
pub proof fn lemma_offer_keeps_names_registered(parser: ParserView, hook: Hook)
    requires
        exported_names_registered(parser.records()),
    ensures
        exported_names_registered(HarmonyExportDependencyParserPlugin.outcome(parser, hook).1.records()),
{
    match hook {
        Hook::NamedExportImport(statement) => {
            let advanced = parser.advance_source_order();
            assert(advanced.records().dependencies == parser.records().dependencies);
            let request = statement.src->0.value@;
            let specifiers = reexported_specifiers(statement.specifiers@);
            lemma_reexport_specifiers_register(advanced, request, statement.span, specifiers);
            let bound = reexport_specifiers_effect(advanced, request, statement.span, specifiers);
            let linkage = DependencyView::HarmonyImportSideEffect {
                request,
                source_order: advanced.last_harmony_import_order,
                span: ErrorSpan::of(statement.span),
                source_span: ErrorSpan::of(statement.src->0.span),
                dependency_type: DependencyType::EsmExport,
                export_all: false,
            };
            lemma_register_nameless(bound, linkage);
            lemma_register_nameless(bound.push_dependency(linkage), blanking(statement.span));
        },
        Hook::AllExportImport(statement) => {
            let advanced = parser.advance_source_order();
            assert(advanced.records().dependencies == parser.records().dependencies);
            assert(reexport_specifiers_effect(
                advanced,
                statement.src.value@,
                statement.span,
                Seq::<Specifier>::empty(),
            ) == advanced);
            let linkage = DependencyView::HarmonyImportSideEffect {
                request: statement.src.value@,
                source_order: advanced.last_harmony_import_order,
                span: ErrorSpan::of(statement.span),
                source_span: ErrorSpan::of(statement.src.span),
                dependency_type: DependencyType::EsmExport,
                export_all: true,
            };
            lemma_register_nameless(advanced, linkage);
            let linked = advanced.push_dependency(linkage);
            let listed = linked.add_star_export(linked.dependencies.len());
            assert(listed.records().dependencies == linked.records().dependencies);
            let star = star_export(linked, statement);
            lemma_register_nameless(listed, star);
            lemma_register_nameless(listed.push_dependency(star), blanking(statement.span));
        },
        Hook::Export(statement) => {
            let ident = statement.decl.spec_ident();
            if statement.decl.named() {
                let exported = DependencyView::HarmonyExportSpecifier {
                    name: default_keyword(),
                    value: ident->0.sym@,
                };
                lemma_register_nameless(parser, exported);
                let used = parser.push_dependency(exported).add_usage(
                    ident->0.sym@,
                    InnerGraphMapUsageView::Value(default_keyword()),
                );
                assert(used.records() == parser.push_dependency(exported).records());
                lemma_register_nameless(
                    used,
                    DependencyView::HarmonyExportHeader {
                        range: Some(DependencyLocation::of(statement.decl.spec_span())),
                        range_stmt: DependencyLocation::of(statement.span),
                    },
                );
            } else {
                let after = export_effect(parser, statement);
                let used = parser.add_usage(
                    match ident {
                        Some(ident) => ident.sym@,
                        None => default_star_word(),
                    },
                    InnerGraphMapUsageView::Value(default_keyword()),
                );
                assert(used.records() == parser.records());
                lemma_register_nameless(used, after.dependencies.last());
            }
        },
        Hook::ExportDefaultExpr(statement) => {
            let after = export_default_expr_effect(parser, statement);
            let used = parser.add_usage(
                default_star_word(),
                InnerGraphMapUsageView::Value(default_keyword()),
            );
            assert(used.records() == parser.records());
            lemma_register_nameless(used, after.dependencies.last());
        },
        Hook::ExportDecl(statement) => {
            lemma_export_idents_register(parser, declared_idents(statement.decl));
            let exported = export_idents_effect(parser, declared_idents(statement.decl));
            lemma_register_nameless(exported, export_decl_effect(parser, statement).dependencies.last());
        },
        Hook::NamedExport(statement) => {
            if statement.src is None {
                lemma_local_specifiers_register(parser, statement.specifiers@);
                lemma_register_nameless(
                    local_specifiers_effect(parser, statement.specifiers@),
                    blanking(statement.span),
                );
            }
        },
        _ => {},
    }
}

/// After both passes over any module, the names that the module exports
/// hold every name under which a record exports a binding, if that was so
/// before: every re-exported name, and every local binding that a
/// declaration or a specifier exports.
pub proof fn lemma_exported_names_are_registered(
    plugins: Seq<HarmonyExportDependencyParserPlugin>,
    parser: ParserView,
    items: Seq<ModuleItem>,
)
    requires
        exported_names_registered(parser.records()),
        all_admitted(items),
        parser.last_harmony_import_order + source_order_steps(items) <= i32::MAX,
    ensures
        exported_names_registered(walk_program_effect(plugins, parser, items).records()),
{
    let inv = |records: Records| exported_names_registered(records);
    assert forall|i: int, state: ParserView, hook: Hook|
        0 <= i < plugins.len() && hook.ready(state) && inv(state.records()) implies inv(
        (#[trigger] plugins[i].outcome(state, hook)).1.records(),
    ) by {
        lemma_offer_keeps_names_registered(state, hook);
    }
    lemma_chain_keeps(plugins, inv);
    lemma_walk_program_keeps(plugins, inv, parser, items);
}


/// The records of the bindings of a re-export stand behind the records that
/// were there, one for each binding and in the order of the bindings, and
/// every name that a binding is exposed under is among the module's
/// exports.
proof fn lemma_reexport_specifiers_records(
    parser: ParserView,
    request: Seq<char>,
    span: Span,
    specifiers: Seq<Specifier>,
)
    requires
        no_default_specifier(specifiers),
    ensures
        ({
            let after = reexport_specifiers_effect(parser, request, span, specifiers);
            &&& after.dependencies == parser.dependencies + specifiers.map_values(
                |specifier: Specifier| reexport_record(parser, request, span, specifier),
            )
            &&& after.last_harmony_import_order == parser.last_harmony_import_order
            &&& after.javascript_options == parser.javascript_options
            &&& parser.harmony_named_exports.subset_of(after.harmony_named_exports)
            &&& forall|i: int|
                0 <= i < specifiers.len() ==> after.harmony_named_exports.contains(
                    exposed_name(#[trigger] specifiers[i]),
                )
        }),
    decreases specifiers.len(),
{
    let records = |specifier: Specifier| reexport_record(parser, request, span, specifier);
    if specifiers.len() == 0 {
        assert(parser.dependencies + specifiers.map_values(records) =~= parser.dependencies);
    } else {
        let front = specifiers.drop_last();
        assert(no_default_specifier(front)) by {
            assert forall|i: int| 0 <= i < front.len() implies !(#[trigger] front[i] is Default) by {
                assert(front[i] == specifiers[i]);
            }
        }
        lemma_reexport_specifiers_records(parser, request, span, front);
        let before = reexport_specifiers_effect(parser, request, span, front);
        let last = specifiers.last();
        let after = reexport_specifier_effect(before, request, span, last);
        assert(!(specifiers[specifiers.len() - 1] is Default));
        assert(reexport_record(before, request, span, last) == reexport_record(
            parser,
            request,
            span,
            last,
        ));
        assert(after.dependencies =~= parser.dependencies + specifiers.map_values(records)) by {
            assert(specifiers.map_values(records) =~= front.map_values(records).push(records(last)));
        }
        assert forall|i: int| 0 <= i < specifiers.len() implies after.harmony_named_exports.contains(
            exposed_name(#[trigger] specifiers[i]),
        ) by {
            if i < front.len() {
                assert(front[i] == specifiers[i]);
                assert(before.harmony_named_exports.contains(exposed_name(front[i])));
            }
        }
    }
}

/// A re-export of bindings gets one record for each of its specifiers, in
/// the order of the specifiers, each under the source order that the
/// statement takes, whether its names are identifiers or string literals;
/// every name under which a binding is exposed is among the module's
/// exports; then come the linkage record and the record that blanks the
/// statement. What was recorded before stays as it was.
pub proof fn lemma_reexport_records_each_specifier(parser: ParserView, statement: NamedExport)
    requires
        statement.is_reexport(),
    ensures
        ({
            let after = named_export_import_effect(parser, statement);
            let n = parser.dependencies.len() as int;
            let k = statement.specifiers.len() as int;
            &&& after.dependencies.len() == n + k + 2
            &&& parser.dependencies.is_prefix_of(after.dependencies)
            &&& forall|i: int|
                0 <= i < k ==> after.dependencies[n + i] == reexport_record(
                    parser.advance_source_order(),
                    statement.src->0.value@,
                    statement.span,
                    reexported_specifier(#[trigger] statement.specifiers[i]),
                )
            &&& forall|i: int|
                0 <= i < k ==> after.harmony_named_exports.contains(
                    exposed_name(reexported_specifier(#[trigger] statement.specifiers[i])),
                )
            &&& is_linkage(after.dependencies[n + k])
            &&& after.dependencies[n + k + 1] == blanking(statement.span)
        }),
{
    let advanced = parser.advance_source_order();
    let request = statement.src->0.value@;
    let specifiers = reexported_specifiers(statement.specifiers@);
    assert(no_default_specifier(specifiers)) by {
        assert forall|i: int| 0 <= i < specifiers.len() implies !(#[trigger] specifiers[i] is Default) by {
            assert(!(statement.specifiers[i] is Default));
        }
    }
    lemma_reexport_specifiers_records(advanced, request, statement.span, specifiers);
    let recorded = reexport_specifiers_effect(advanced, request, statement.span, specifiers);
    let after = named_export_import_effect(parser, statement);
    let n = parser.dependencies.len() as int;
    let k = statement.specifiers.len() as int;
    assert(recorded.dependencies.len() == n + k);
    assert(after.dependencies.len() == n + k + 2);
    assert forall|i: int| 0 <= i < k implies after.dependencies[n + i] == reexport_record(
        advanced,
        request,
        statement.span,
        reexported_specifier(#[trigger] statement.specifiers[i]),
    ) by {
        assert(specifiers[i] == reexported_specifier(statement.specifiers[i]));
        assert(after.dependencies[n + i] == recorded.dependencies[n + i]);
    }
    assert forall|i: int| 0 <= i < k implies after.harmony_named_exports.contains(
        exposed_name(reexported_specifier(#[trigger] statement.specifiers[i])),
    ) by {
        assert(specifiers[i] == reexported_specifier(statement.specifiers[i]));
        assert(recorded.harmony_named_exports.contains(exposed_name(specifiers[i])));
    }
    assert(parser.dependencies =~= after.dependencies.subrange(0, n));
}

/// The source order that a record carries, if it is a re-export record or a
/// linkage record.
pub open spec fn record_order(dependency: DependencyView) -> Option<int> {
    match dependency {
        DependencyView::HarmonyExportImportedSpecifier { source_order, .. } => Some(source_order),
        DependencyView::HarmonyImportSideEffect { source_order, .. } => Some(source_order),
        _ => None,
    }
}

/// Whether every re-export record and every linkage record from the place
/// `from` on carries the source order `order`.
pub open spec fn carry_order(dependencies: Seq<DependencyView>, from: int, order: int) -> bool {
    forall|i: int|
        from <= i < dependencies.len() ==> (record_order(#[trigger] dependencies[i]) matches Some(carried)
            ==> carried == order)
}

/// What the plugin records for a re-export stands behind the records that
/// were there, and every re-export record and linkage record of it carries
/// the source order after the one given out last.
proof fn lemma_reexport_offer_carries_next_order(parser: ParserView, hook: Hook)
    requires
        hook is NamedExportImport || hook is AllExportImport,
        hook.admitted(),
    ensures
        ({
            let after = HarmonyExportDependencyParserPlugin.outcome(parser, hook).1;
            &&& parser.dependencies.is_prefix_of(after.dependencies)
            &&& after.dependencies.len() > parser.dependencies.len()
            &&& carry_order(
                after.dependencies,
                parser.dependencies.len() as int,
                parser.last_harmony_import_order + 1,
            )
        }),
{
    let after = HarmonyExportDependencyParserPlugin.outcome(parser, hook).1;
    let n = parser.dependencies.len() as int;
    match hook {
        Hook::NamedExportImport(statement) => {
            lemma_reexport_records_each_specifier(parser, statement);
            let k = statement.specifiers.len() as int;
            assert forall|i: int| n <= i < after.dependencies.len() implies (record_order(
                #[trigger] after.dependencies[i],
            ) matches Some(carried) ==> carried == parser.last_harmony_import_order + 1) by {
                if i < n + k {
                    let at = i - n;
                    assert(after.dependencies[n + at] == reexport_record(
                        parser.advance_source_order(),
                        statement.src->0.value@,
                        statement.span,
                        reexported_specifier(statement.specifiers[at]),
                    ));
                } else if i == n + k {
                    lemma_reexport_specifiers_records(
                        parser.advance_source_order(),
                        statement.src->0.value@,
                        statement.span,
                        reexported_specifiers(statement.specifiers@),
                    );
                    assert(no_default_specifier(reexported_specifiers(statement.specifiers@))) by {
                        assert forall|j: int|
                            0 <= j < statement.specifiers.len() implies !(#[trigger] reexported_specifiers(
                            statement.specifiers@,
                        )[j] is Default) by {
                            assert(!(statement.specifiers[j] is Default));
                        }
                    }
                } else {
                    assert(after.dependencies[n + k + 1] == blanking(statement.span));
                }
            }
        },
        Hook::AllExportImport(statement) => {
            assert(reexport_specifiers_effect(
                parser.advance_source_order(),
                statement.src.value@,
                statement.span,
                Seq::<Specifier>::empty(),
            ) == parser.advance_source_order());
            assert(parser.dependencies =~= after.dependencies.subrange(0, n));
        },
        _ => {},
    }
}

/// The first pass over a re-export, by the export plugin, records behind
/// what was there, and every re-export record and linkage record of the
/// statement carries the source order after the one given out last.
proof fn lemma_reexport_entry_carries_next_order(
    plugins: Seq<HarmonyExportDependencyParserPlugin>,
    parser: ParserView,
    item: ModuleItem,
)
    requires
        plugins.len() > 0,
        item.admitted(),
        is_reexport_statement(item),
    ensures
        ({
            let after = block_pre_walk_module_declaration_effect(plugins, parser, item);
            &&& parser.dependencies.is_prefix_of(after.dependencies)
            &&& after.dependencies.len() > parser.dependencies.len()
            &&& carry_order(
                after.dependencies,
                parser.dependencies.len() as int,
                parser.last_harmony_import_order + 1,
            )
        }),
{
    if let ModuleItem::ModuleDecl(decl) = item {
        let entered = parser.enter_statement(decl.spec_span());
        match decl {
            ModuleDecl::ExportAll(statement) => {
                lemma_export_chain(plugins, entered, Hook::AllExportImport(statement));
                lemma_reexport_offer_carries_next_order(entered, Hook::AllExportImport(statement));
            },
            ModuleDecl::ExportNamed(statement) => {
                lemma_export_chain(plugins, entered, Hook::NamedExportImport(statement));
                lemma_reexport_offer_carries_next_order(entered, Hook::NamedExportImport(statement));
            },
            _ => {},
        }
    }
}

/// The records of the first entries of a module stay where they are when
/// the first pass goes on over the rest of the module.
proof fn lemma_first_pass_keeps_earlier_records<P: JavascriptParserPlugin>(
    plugins: Seq<P>,
    parser: ParserView,
    items: Seq<ModuleItem>,
    m: int,
)
    requires
        all_admitted(items),
        parser.last_harmony_import_order + source_order_steps(items) <= i32::MAX,
        0 <= m <= items.len(),
    ensures
        block_pre_walk_module_declarations_effect(plugins, parser, items.take(m)).dependencies.is_prefix_of(
            block_pre_walk_module_declarations_effect(plugins, parser, items).dependencies,
        ),
        all_admitted(items.take(m)),
        source_order_steps(items.take(m)) <= source_order_steps(items),
    decreases items.len() - m,
{
    assert(all_admitted(items.take(m))) by {
        assert forall|i: int| 0 <= i < items.take(m).len() implies (#[trigger] items.take(m)[i]).admitted() by {
            assert(items[i].admitted());
        }
    }
    if m == items.len() {
        assert(items.take(m) == items);
    } else {
        lemma_first_pass_keeps_earlier_records(plugins, parser, items, m + 1);
        lemma_steps_take(items, m);
        let before = block_pre_walk_module_declarations_effect(plugins, parser, items.take(m));
        let after = block_pre_walk_module_declarations_effect(plugins, parser, items.take(m + 1));
        let whole = block_pre_walk_module_declarations_effect(plugins, parser, items);
        assert(items.take(m + 1).drop_last() == items.take(m));
        assert(items.take(m + 1).last() == items[m]);
        lemma_block_pre_walk_module_declarations_kept(plugins, parser, items.take(m));
        lemma_block_pre_walk_module_declaration_kept(plugins, before, items[m]);
        assert(before.dependencies.is_prefix_of(after.dependencies));
        assert(after.dependencies.is_prefix_of(whole.dependencies));
        assert(before.dependencies =~= whole.dependencies.subrange(0, before.dependencies.len() as int));
    }
}

/// Under the export plugin, the records of the re-export that stands at the
/// place `j` of a module carry the source order that was given out last
/// before the module, and the number of the re-exports up to and with this
/// one: the first re-export of the module takes the next source order, the
/// second the one after it, and so on, and no two statements share one.
/// These records stay where they are through the rest of both passes.
pub proof fn lemma_reexport_carries_its_order(
    plugins: Seq<HarmonyExportDependencyParserPlugin>,
    parser: ParserView,
    items: Seq<ModuleItem>,
    j: int,
)
    requires
        plugins.len() > 0,
        all_admitted(items),
        parser.last_harmony_import_order + source_order_steps(items) <= i32::MAX,
        0 <= j < items.len(),
        is_reexport_statement(items[j]),
    ensures
        ({
            let before = block_pre_walk_module_declarations_effect(plugins, parser, items.take(j));
            let after = block_pre_walk_module_declarations_effect(plugins, parser, items.take(j + 1));
            &&& before.dependencies.is_prefix_of(after.dependencies)
            &&& after.dependencies.len() > before.dependencies.len()
            &&& carry_order(
                after.dependencies,
                before.dependencies.len() as int,
                parser.last_harmony_import_order + reexport_count(items.take(j + 1)),
            )
            &&& after.dependencies.is_prefix_of(
                block_pre_walk_module_declarations_effect(plugins, parser, items).dependencies,
            )
            &&& after.dependencies.is_prefix_of(walk_program_effect(plugins, parser, items).dependencies)
        }),
{
    let before = block_pre_walk_module_declarations_effect(plugins, parser, items.take(j));
    let after = block_pre_walk_module_declarations_effect(plugins, parser, items.take(j + 1));
    let first = block_pre_walk_module_declarations_effect(plugins, parser, items);
    let whole = walk_program_effect(plugins, parser, items);
    let order = parser.last_harmony_import_order;
    assert(after == block_pre_walk_module_declaration_effect(plugins, before, items[j])
        && reexport_count(items.take(j + 1)) == reexport_count(items.take(j)) + 1) by {
        assert(items.take(j + 1).drop_last() == items.take(j));
        assert(items.take(j + 1).last() == items[j]);
    }
    assert(before.last_harmony_import_order == order + reexport_count(items.take(j))) by {
        lemma_first_pass_keeps_earlier_records(plugins, parser, items, j);
        lemma_source_order_counts_reexports(plugins, parser, items.take(j));
    }
    assert(before.dependencies.is_prefix_of(after.dependencies) && after.dependencies.len()
        > before.dependencies.len() && carry_order(
        after.dependencies,
        before.dependencies.len() as int,
        before.last_harmony_import_order + 1,
    )) by {
        lemma_reexport_entry_carries_next_order(plugins, before, items[j]);
    }
    assert(after.dependencies.is_prefix_of(first.dependencies)) by {
        lemma_first_pass_keeps_earlier_records(plugins, parser, items, j + 1);
    }
    assert(first.dependencies.is_prefix_of(whole.dependencies)) by {
        lemma_walk_module_declarations_kept(plugins, first, items);
    }
    lemma_prefix_of_prefix(after.dependencies, first.dependencies, whole.dependencies);
}

/// What starts a sequence that starts another starts that other too.
proof fn lemma_prefix_of_prefix<A>(a: Seq<A>, b: Seq<A>, c: Seq<A>)
    requires
        a.is_prefix_of(b),
        b.is_prefix_of(c),
    ensures
        a.is_prefix_of(c),
{
    assert(a =~= c.subrange(0, a.len() as int)) by {
        assert forall|i: int| 0 <= i < a.len() implies a[i] == c[i] by {
            assert(a[i] == b.subrange(0, a.len() as int)[i]);
            assert(b[i] == c.subrange(0, b.len() as int)[i]);
        }
    }
}

/// A star re-export holds the list of star re-exports as it stood before
/// it, and joins the list with an identifier that the list did not hold,
/// where the list named records that were there. No star re-export that
/// was recorded before, and no other record, is changed.
pub proof fn lemma_star_export_is_new(parser: ParserView, statement: ExportAll)
    requires
        star_exports_consistent(parser.records()),
    ensures
        ({
            let after = all_export_import_effect(parser, statement);
            let id = (parser.dependencies.len() + 1) as nat;
            &&& after.all_star_exports == parser.all_star_exports.push(id)
            &&& !parser.all_star_exports.contains(id)
            &&& id < after.dependencies.len()
            &&& is_star_export(after.dependencies[id as int])
            &&& after.dependencies[id as int]->HarmonyExportImportedSpecifier_other_star_exports
                == Some(parser.all_star_exports)
            &&& after.dependencies[id as int]->HarmonyExportImportedSpecifier_name is None
            &&& parser.dependencies.is_prefix_of(after.dependencies)
        }),
{
    let advanced = parser.advance_source_order();
    assert(reexport_specifiers_effect(
        advanced,
        statement.src.value@,
        statement.span,
        Seq::<Specifier>::empty(),
    ) == advanced);
    let after = all_export_import_effect(parser, statement);
    let id = (parser.dependencies.len() + 1) as nat;
    assert(parser.dependencies =~= after.dependencies.subrange(0, parser.dependencies.len() as int));
    if parser.all_star_exports.contains(id) {
        let k = choose|k: int| 0 <= k < parser.all_star_exports.len() && parser.all_star_exports[k] == id;
        assert(parser.all_star_exports[k] < parser.dependencies.len());
    }
}


/// The name under which a specifier of an export without a source exposes
/// its binding: the alias where it has one, else the name of the binding.
pub open spec fn local_exposed_name(specifier: ExportSpecifier) -> Seq<char> {
    match specifier {
        ExportSpecifier::Named(named) => match named.exported {
            Some(exported) => exported.spec_atom()@,
            None => named.orig.spec_atom()@,
        },
        ExportSpecifier::Namespace(n) => n.name.spec_atom()@,
        ExportSpecifier::Default(d) => d.exported.sym@,
    }
}

/// The name under which a record exports a binding, if it exports one.
pub open spec fn record_name(dependency: DependencyView) -> Option<Seq<char>> {
    match dependency {
        DependencyView::HarmonyExportImportedSpecifier { name, .. } => name,
        DependencyView::HarmonyExportSpecifier { name, .. } => Some(name),
        _ => None,
    }
}

proof fn lemma_local_specifiers_records(parser: ParserView, specifiers: Seq<ExportSpecifier>)
    requires
        forall|i: int| 0 <= i < specifiers.len() ==> (#[trigger] specifiers[i]).names_binding(),
    ensures
        ({
            let after = local_specifiers_effect(parser, specifiers);
            &&& after.dependencies.len() == parser.dependencies.len() + specifiers.len()
            &&& parser.dependencies.is_prefix_of(after.dependencies)
            &&& parser.harmony_named_exports.subset_of(after.harmony_named_exports)
            &&& forall|i: int|
                0 <= i < specifiers.len() ==> {
                    &&& record_name(after.dependencies[parser.dependencies.len() + i]) == Some(
                        local_exposed_name(#[trigger] specifiers[i]),
                    )
                    &&& after.harmony_named_exports.contains(local_exposed_name(specifiers[i]))
                }
        }),
    decreases specifiers.len(),
{
    let n = parser.dependencies.len() as int;
    if specifiers.len() > 0 {
        let front = specifiers.drop_last();
        assert forall|i: int| 0 <= i < front.len() implies (#[trigger] front[i]).names_binding() by {
            assert(front[i] == specifiers[i]);
        }
        lemma_local_specifiers_records(parser, front);
        let before = local_specifiers_effect(parser, front);
        let after = local_specifier_effect(before, specifiers.last());
        assert(specifiers[specifiers.len() - 1].names_binding());
        assert(before.dependencies =~= after.dependencies.subrange(0, before.dependencies.len() as int));
        lemma_prefix_of_prefix(parser.dependencies, before.dependencies, after.dependencies);
        assert forall|i: int| 0 <= i < specifiers.len() implies {
            &&& record_name(after.dependencies[n + i]) == Some(local_exposed_name(#[trigger] specifiers[i]))
            &&& after.harmony_named_exports.contains(local_exposed_name(specifiers[i]))
        } by {
            if i < front.len() {
                assert(front[i] == specifiers[i]);
                assert(after.dependencies[n + i] == before.dependencies[n + i]);
                assert(before.harmony_named_exports.contains(local_exposed_name(front[i])));
            }
        }
    } else {
        assert(parser.dependencies =~= parser.dependencies.subrange(0, n));
    }
}

/// An export without a source gets one record for each of its specifiers,
/// in the order of the specifiers, each exporting under the name that the
/// specifier exposes, and every such name is among the module's exports;
/// then comes the record that blanks the statement. What was recorded
/// before stays as it was.
pub proof fn lemma_local_export_records_each_specifier(parser: ParserView, statement: NamedExport)
    requires
        statement.src is None,
        statement.is_local_export(),
    ensures
        ({
            let after = named_export_effect(parser, statement);
            let n = parser.dependencies.len() as int;
            let k = statement.specifiers.len() as int;
            &&& after.dependencies.len() == n + k + 1
            &&& parser.dependencies.is_prefix_of(after.dependencies)
            &&& forall|i: int|
                0 <= i < k ==> {
                    &&& record_name(after.dependencies[n + i]) == Some(
                        local_exposed_name(#[trigger] statement.specifiers[i]),
                    )
                    &&& after.harmony_named_exports.contains(local_exposed_name(statement.specifiers[i]))
                }
            &&& after.dependencies[n + k] == blanking(statement.span)
        }),
{
    lemma_local_specifiers_records(parser, statement.specifiers@);
    let recorded = local_specifiers_effect(parser, statement.specifiers@);
    let after = named_export_effect(parser, statement);
    let n = parser.dependencies.len() as int;
    assert(recorded.dependencies =~= after.dependencies.subrange(0, recorded.dependencies.len() as int));
    lemma_prefix_of_prefix(parser.dependencies, recorded.dependencies, after.dependencies);
    assert forall|i: int| 0 <= i < statement.specifiers.len() implies {
        &&& record_name(after.dependencies[n + i]) == Some(
            local_exposed_name(#[trigger] statement.specifiers[i]),
        )
        &&& after.harmony_named_exports.contains(local_exposed_name(statement.specifiers[i]))
    } by {
        assert(after.dependencies[n + i] == recorded.dependencies[n + i]);
    }
}


} // verus!
