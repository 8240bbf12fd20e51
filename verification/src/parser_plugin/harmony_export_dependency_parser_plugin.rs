//! The plugin that turns export statements into dependency records.

use vstd::prelude::*;
use crate::ast::{
    id_view, Decl, DefaultDecl, ExportAll, ExportDecl, ExportDefaultDecl, ExportDefaultExpr,
    ExportSpecifier, FnExpr, Ident, ImportDecl, ModuleExportName, NamedExport, Stmt,
};
use crate::bindings::{declared_ids, declarators_ids};
use crate::dependency::{
    ConstDependency, DeclarationId, DeclarationIdView, DeclarationInfo, Dependency,
    DependencyId, DependencyType, DependencyView, ExportId, HarmonyExportExpressionDependency,
    HarmonyExportHeaderDependency, HarmonyExportImportedSpecifierDependency,
    HarmonyExportSpecifierDependency, HarmonyImportSideEffectDependency, Specifier,
};
use crate::inner_graph::{InnerGraphMapUsage, InnerGraphMapUsageView};
use crate::laws::{lemma_offer_keeps_source_orders, lemma_offer_keeps_star_exports};
use crate::parser::{JavascriptParser, ParserView};
use crate::parser_plugin::hooks::{hook_served, Hook, JavascriptParserPlugin};
use crate::parser_plugin::inner_graph::InnerGraphPlugin;
use crate::records::{source_orders_ascend, star_exports_consistent};
use crate::span::{DependencyLocation, ErrorSpan, Span};

verus! {

/// Turns the export statements of a module into dependency records.
pub struct HarmonyExportDependencyParserPlugin;

/// The name under which a default export is exported.
pub open spec fn default_keyword() -> Seq<char> {
    "default"@
}

/// The name that stands for a default export without a name of its own.
pub open spec fn default_star_word() -> Seq<char> {
    "*default*"@
}

/// The name under which a default export is exported.
pub fn js_default_keyword() -> (word: String)
    ensures
        word@ == default_keyword(),
{
    String::from_str("default")
}

/// The name that stands for a default export without a name of its own.
pub fn default_star_js_word() -> (word: String)
    ensures
        word@ == default_star_word(),
{
    String::from_str("*default*")
}

/// The record that blanks the text of a statement.
pub open spec fn blanking(span: Span) -> DependencyView {
    DependencyView::Const {
        start: span.spec_real_lo(),
        end: span.spec_real_hi(),
        content: Seq::empty(),
        runtime_requirements: None,
    }
}

/// The name under which a binding of a re-export is exposed: the alias
/// where it has one, else the name it has in the target module.
pub open spec fn exposed_name(specifier: Specifier) -> Seq<char> {
    match specifier {
        Specifier::Namespace(n) => n@,
        Specifier::Default(n) => n@,
        Specifier::Named(orig, exported) => match exported {
            Some(alias) => alias@,
            None => orig@,
        },
    }
}

/// The record that exports a binding of the target module again, under the
/// source order that the statement has. The members of a whole module that
/// is bound to a name are not tracked one by one.
pub open spec fn reexport_record(
    parser: ParserView,
    request: Seq<char>,
    span: Span,
    specifier: Specifier,
) -> DependencyView {
    let name = exposed_name(specifier);
    let ids = match specifier {
        Specifier::Named(orig, _) => seq![(name, Some(orig@))],
        _ => seq![(name, None::<Seq<char>>)],
    };
    DependencyView::HarmonyExportImportedSpecifier {
        request,
        source_order: parser.last_harmony_import_order,
        ids,
        mode_ids: if specifier is Named {
            ids
        } else {
            Seq::empty()
        },
        name: Some(name),
        export_all: false,
        other_star_exports: None,
        span: ErrorSpan::of(span),
        export_presence_mode: HarmonyExportImportedSpecifierDependency::create_export_presence_mode(
            &parser.javascript_options,
        ),
    }
}

/// The state after one binding of a re-export is recorded: its record, and
/// the name it is exposed under among the module's exports. A default
/// binding, which no re-export can hold, records nothing.
pub open spec fn reexport_specifier_effect(
    parser: ParserView,
    request: Seq<char>,
    span: Span,
    specifier: Specifier,
) -> ParserView {
    if specifier is Default {
        parser
    } else {
        parser.push_dependency(reexport_record(parser, request, span, specifier)).add_named_export(
            exposed_name(specifier),
        )
    }
}

/// The state after the bindings of a re-export are recorded, first to last.
pub open spec fn reexport_specifiers_effect(
    parser: ParserView,
    request: Seq<char>,
    span: Span,
    specifiers: Seq<Specifier>,
) -> ParserView
    decreases specifiers.len(),
{
    if specifiers.len() == 0 {
        parser
    } else {
        reexport_specifier_effect(
            reexport_specifiers_effect(parser, request, span, specifiers.drop_last()),
            request,
            span,
            specifiers.last(),
        )
    }
}

/// The state after a re-export statement is linked: its bindings are
/// recorded, then the record that makes the target module run in its place
/// among the module's imports and re-exports.
pub open spec fn side_effects_effect(
    parser: ParserView,
    request: Seq<char>,
    span: Span,
    source_span: Span,
    specifiers: Seq<Specifier>,
    dep_type: DependencyType,
    export_all: bool,
) -> ParserView {
    reexport_specifiers_effect(parser, request, span, specifiers).push_dependency(
        DependencyView::HarmonyImportSideEffect {
            request,
            source_order: parser.last_harmony_import_order,
            span: ErrorSpan::of(span),
            source_span: ErrorSpan::of(source_span),
            dependency_type: dep_type,
            export_all,
        },
    )
}

/// Whether none of the specifiers is a default binding, which no re-export
/// can hold.
pub open spec fn no_default_specifier(specifiers: Seq<Specifier>) -> bool {
    forall|i: int| 0 <= i < specifiers.len() ==> !(#[trigger] specifiers[i] is Default)
}

/// Links a re-export statement: records each of its bindings, then the
/// record that makes the target module run.
pub fn handle_esm_export_harmony_import_side_effects_dep<P>(
    parser: &mut JavascriptParser<P>,
    request: String,
    span: Span,
    source_span: Span,
    specifiers: Vec<Specifier>,
    dep_type: DependencyType,
    export_all: bool,
)
    requires
        dep_type is EsmExport,
        no_default_specifier(specifiers@),
    ensures
        final(parser)@ == side_effects_effect(
            old(parser)@,
            request@,
            span,
            source_span,
            specifiers@,
            dep_type,
            export_all,
        ),
        final(parser).plugin_drive == old(parser).plugin_drive,
{
    let mut i: usize = 0;
    while i < specifiers.len()
        invariant
            i <= specifiers.len(),
            no_default_specifier(specifiers@),
            parser.plugin_drive == old(parser).plugin_drive,
            parser@ == reexport_specifiers_effect(
                old(parser)@,
                request@,
                span,
                specifiers@.take(i as int),
            ),
            parser@.last_harmony_import_order == old(parser)@.last_harmony_import_order,
            parser@.javascript_options == old(parser)@.javascript_options,
        decreases specifiers.len() - i,
    {
        let ghost before = parser@;
        let mode = HarmonyExportImportedSpecifierDependency::create_export_presence_mode(
            &parser.javascript_options,
        );
        match &specifiers[i] {
            Specifier::Namespace(n) => {
                let mut ids: Vec<ExportId> = Vec::new();
                ids.push((n.clone(), None));
                let dep = HarmonyExportImportedSpecifierDependency::new(
                    request.clone(),
                    parser.last_harmony_import_order,
                    ids,
                    Vec::new(),
                    Some(n.clone()),
                    false,
                    None,
                    ErrorSpan::from(span),
                    mode,
                );
                proof {
                    assert(dep@->HarmonyExportImportedSpecifier_ids =~= seq![(n@, None::<Seq<char>>)]);
                    assert(dep@->HarmonyExportImportedSpecifier_mode_ids =~= Seq::empty());
                }
                parser.push_dependency(Dependency::HarmonyExportImportedSpecifier(dep));
                parser.add_named_export(n.clone());
            },
            Specifier::Default(_) => {
                assert(false);
            },
            Specifier::Named(orig, exported) => {
                let name = match exported {
                    Some(alias) => alias.clone(),
                    None => orig.clone(),
                };
                let mut ids: Vec<ExportId> = Vec::new();
                ids.push((name.clone(), Some(orig.clone())));
                let mut mode_ids: Vec<ExportId> = Vec::new();
                mode_ids.push((name.clone(), Some(orig.clone())));
                let dep = HarmonyExportImportedSpecifierDependency::new(
                    request.clone(),
                    parser.last_harmony_import_order,
                    ids,
                    mode_ids,
                    Some(name.clone()),
                    false,
                    None,
                    ErrorSpan::from(span),
                    mode,
                );
                proof {
                    assert(dep@->HarmonyExportImportedSpecifier_ids =~= seq![(name@, Some(orig@))]);
                    assert(dep@->HarmonyExportImportedSpecifier_mode_ids =~= seq![
                        (name@, Some(orig@)),
                    ]);
                }
                parser.push_dependency(Dependency::HarmonyExportImportedSpecifier(dep));
                parser.add_named_export(name);
            },
        }
        proof {
            assert(specifiers@.take(i + 1).drop_last() == specifiers@.take(i as int));
            assert(specifiers@.take(i + 1).last() == specifiers@[i as int]);
            assert(parser@ == reexport_specifier_effect(before, request@, span, specifiers@[i as int]));
        }
        i = i + 1;
    }
    assert(specifiers@.take(specifiers.len() as int) == specifiers@);
    let dep = HarmonyImportSideEffectDependency::new(
        request,
        parser.last_harmony_import_order,
        ErrorSpan::from(span),
        ErrorSpan::from(source_span),
        dep_type,
        export_all,
    );
    parser.push_dependency(Dependency::HarmonyImportSideEffect(dep));
}

/// The binding that one specifier of a re-export stands for, whether its
/// names are written as identifiers or as string literals.
pub open spec fn reexported_specifier(specifier: ExportSpecifier) -> Specifier {
    match specifier {
        ExportSpecifier::Namespace(n) => Specifier::Namespace(n.name.spec_atom()),
        ExportSpecifier::Named(named) => Specifier::Named(
            named.orig.spec_atom(),
            match named.exported {
                Some(exported) => Some(exported.spec_atom()),
                None => None,
            },
        ),
        ExportSpecifier::Default(d) => Specifier::Default(d.exported.sym),
    }
}

/// The bindings that the specifiers of a re-export stand for: one for each
/// specifier, in order.
pub open spec fn reexported_specifiers(specifiers: Seq<ExportSpecifier>) -> Seq<Specifier> {
    specifiers.map_values(|specifier: ExportSpecifier| reexported_specifier(specifier))
}

/// The state after `export { .. } from ".."` or `export * as ns from ".."`:
/// the statement takes the next source order, is linked with its bindings,
/// and its text is blanked.
pub open spec fn named_export_import_effect(
    parser: ParserView,
    statement: NamedExport,
) -> ParserView {
    side_effects_effect(
        parser.advance_source_order(),
        statement.src->0.value@,
        statement.span,
        statement.src->0.span,
        reexported_specifiers(statement.specifiers@),
        DependencyType::EsmExport,
        false,
    ).push_dependency(blanking(statement.span))
}

/// The record of a star re-export that is declared in the state `parser`:
/// it names no binding, and holds the star re-exports declared before it.
pub open spec fn star_export(parser: ParserView, statement: ExportAll) -> DependencyView {
    DependencyView::HarmonyExportImportedSpecifier {
        request: statement.src.value@,
        source_order: parser.last_harmony_import_order,
        ids: Seq::empty(),
        mode_ids: Seq::empty(),
        name: None,
        export_all: true,
        other_star_exports: Some(parser.all_star_exports),
        span: ErrorSpan::of(statement.span),
        export_presence_mode: HarmonyExportImportedSpecifierDependency::create_export_presence_mode(
            &parser.javascript_options,
        ),
    }
}

/// The state after `export * from ".."`: the statement takes the next source
/// order and is linked; its record, which holds the star re-exports declared
/// so far, joins them; and its text is blanked.
pub open spec fn all_export_import_effect(parser: ParserView, statement: ExportAll) -> ParserView {
    let linked = side_effects_effect(
        parser.advance_source_order(),
        statement.src.value@,
        statement.span,
        statement.src.span,
        Seq::empty(),
        DependencyType::EsmExport,
        true,
    );
    linked.add_star_export(linked.dependencies.len()).push_dependency(
        star_export(linked, statement),
    ).push_dependency(blanking(statement.span))
}

/// The text before the synthesized name of a default-exported function.
pub open spec fn function_prefix(is_async: bool, is_generator: bool) -> Seq<char> {
    (if is_async {
        "async "@
    } else {
        Seq::empty()
    }) + "function"@ + (if is_generator {
        "*"@
    } else {
        Seq::empty()
    }) + " "@
}

/// The text after the synthesized name of a default-exported function: the
/// parenthesis that opens the parameters and, where there are none, the one
/// that closes them.
pub open spec fn function_suffix(no_params: bool) -> Seq<char> {
    "("@ + (if no_params {
        ") "@
    } else {
        Seq::empty()
    })
}

/// The texts around the synthesized name, written out: the prefix ends in
/// a blank, after the marks of an asynchronous function and of a generator;
/// the suffix opens the parameters and, where there are none, closes them.
pub proof fn lemma_function_texts()
    ensures
        function_prefix(false, false) == "function "@,
        function_prefix(true, false) == "async function "@,
        function_prefix(false, true) == "function* "@,
        function_prefix(true, true) == "async function* "@,
        function_suffix(true) == "() "@,
        function_suffix(false) == "("@,
{
    reveal_strlit("async ");
    reveal_strlit("function");
    reveal_strlit("*");
    reveal_strlit(" ");
    reveal_strlit("(");
    reveal_strlit(") ");
    reveal_strlit("function ");
    reveal_strlit("async function ");
    reveal_strlit("function* ");
    reveal_strlit("async function* ");
    reveal_strlit("() ");
    assert(function_prefix(false, false) =~= "function "@);
    assert(function_prefix(true, false) =~= "async function "@);
    assert(function_prefix(false, true) =~= "function* "@);
    assert(function_prefix(true, true) =~= "async function* "@);
    assert(function_suffix(true) =~= "() "@);
    assert(function_suffix(false) =~= "("@);
}

/// How a default-exported declaration without a usable name is written
/// once `export default` is stripped. A function gets a synthesized name
/// in place of the text from its start to its first parameter or, without
/// parameters, to its body.
pub open spec fn default_declaration_id(decl: DefaultDecl) -> Option<DeclarationIdView> {
    match decl {
        DefaultDecl::Class(c) => match c.ident {
            Some(ident) => Some(DeclarationIdView::Id(ident.sym@)),
            None => None,
        },
        DefaultDecl::Fn(f) => Some(
            DeclarationIdView::Func {
                range: DependencyLocation {
                    start: f.spec_span().spec_real_lo(),
                    end: if f.function.params.len() > 0 {
                        f.function.params[0].span.spec_real_lo()
                    } else {
                        match f.function.body {
                            Some(body) => body.span.spec_real_lo(),
                            None => 0u32,
                        }
                    },
                },
                prefix: function_prefix(f.function.is_async, f.function.is_generator),
                suffix: function_suffix(f.function.params.len() == 0),
            },
        ),
        DefaultDecl::TsInterfaceDecl(_) => None,
    }
}

/// The state after `export default` of a class or function. One with a
/// name is an ordinary declaration that is also exported as `default`: the
/// statement keeps it and loses its head. One without is replaced by an
/// assignment, and its use is recorded for the name that stands for a
/// nameless default export.
pub open spec fn export_effect(parser: ParserView, statement: ExportDefaultDecl) -> ParserView {
    let ident = statement.decl.spec_ident();
    if statement.decl.named() {
        parser.push_dependency(
            DependencyView::HarmonyExportSpecifier {
                name: default_keyword(),
                value: ident->0.sym@,
            },
        ).add_usage(ident->0.sym@, InnerGraphMapUsageView::Value(default_keyword())).push_dependency(
            DependencyView::HarmonyExportHeader {
                range: Some(DependencyLocation::of(statement.decl.spec_span())),
                range_stmt: DependencyLocation::of(statement.span),
            },
        )
    } else {
        parser.add_usage(
            match ident {
                Some(ident) => ident.sym@,
                None => default_star_word(),
            },
            InnerGraphMapUsageView::Value(default_keyword()),
        ).push_dependency(
            DependencyView::HarmonyExportExpression {
                range: DependencyLocation::of(statement.decl.spec_span()),
                range_stmt: DependencyLocation::of(statement.span),
                declaration: default_declaration_id(statement.decl),
            },
        )
    }
}

/// The state after `export default` of an expression: its use is recorded
/// for the name that stands for a nameless default export, and the
/// statement is replaced by an assignment.
pub open spec fn export_default_expr_effect(
    parser: ParserView,
    statement: ExportDefaultExpr,
) -> ParserView {
    parser.add_usage(
        default_star_word(),
        InnerGraphMapUsageView::Value(default_keyword()),
    ).push_dependency(
        DependencyView::HarmonyExportExpression {
            range: DependencyLocation::of(statement.expr.span),
            range_stmt: DependencyLocation::of(statement.span),
            declaration: None,
        },
    )
}

/// The identifiers that an exported declaration declares, in source order.
pub open spec fn declared_idents(decl: Decl) -> Seq<Ident> {
    match decl {
        Decl::Class(c) => seq![c.ident],
        Decl::Fn(f) => seq![f.ident],
        Decl::Var(v) => declarators_ids(v.decls@),
        _ => Seq::empty(),
    }
}

/// The state after a local binding is exported under its own name: the
/// record, the use of the binding by that export, and the exported name.
pub open spec fn export_ident_effect(parser: ParserView, name: Seq<char>) -> ParserView {
    parser.push_dependency(DependencyView::HarmonyExportSpecifier { name, value: name }).add_usage(
        name,
        InnerGraphMapUsageView::Value(name),
    ).add_named_export(name)
}

/// The state after each of the identifiers is exported under its own name.
pub open spec fn export_idents_effect(parser: ParserView, idents: Seq<Ident>) -> ParserView
    decreases idents.len(),
{
    if idents.len() == 0 {
        parser
    } else {
        export_ident_effect(export_idents_effect(parser, idents.drop_last()), idents.last().sym@)
    }
}

/// The state after `export` of a declaration: every identifier that it
/// declares is exported under its own name, and the statement loses its
/// head.
pub open spec fn export_decl_effect(parser: ParserView, statement: ExportDecl) -> ParserView {
    export_idents_effect(parser, declared_idents(statement.decl)).push_dependency(
        DependencyView::HarmonyExportHeader {
            range: Some(DependencyLocation::of(statement.decl.spec_span())),
            range_stmt: DependencyLocation::of(statement.span),
        },
    )
}

/// The state after one specifier of an export without a source. A name
/// that the module imported is exported again from where it came from,
/// under the source order of its import; any other name is exported as a
/// local binding. A specifier that names no binding records nothing; the
/// grammar admits none.
pub open spec fn local_specifier_effect(
    parser: ParserView,
    specifier: ExportSpecifier,
) -> ParserView {
    match specifier {
        ExportSpecifier::Named(named) => match named.orig {
            ModuleExportName::Ident(orig) => {
                let export = match named.exported {
                    Some(exported) => exported.spec_atom()@,
                    None => orig.sym@,
                };
                let id = id_view(orig.spec_to_id());
                (if parser.import_map.contains_key(id) {
                    let reference = parser.import_map[id];
                    parser.push_dependency(
                        DependencyView::HarmonyExportImportedSpecifier {
                            request: reference.request,
                            source_order: reference.source_order,
                            ids: seq![(export, reference.names)],
                            mode_ids: if reference.specifier is Namespace {
                                Seq::empty()
                            } else {
                                seq![(export, reference.names)]
                            },
                            name: Some(export),
                            export_all: false,
                            other_star_exports: None,
                            span: ErrorSpan::of(named.span),
                            export_presence_mode:
                                HarmonyExportImportedSpecifierDependency::create_export_presence_mode(
                                &parser.javascript_options,
                            ),
                        },
                    )
                } else {
                    parser.push_dependency(
                        DependencyView::HarmonyExportSpecifier { name: export, value: orig.sym@ },
                    )
                }).add_named_export(export).add_usage(orig.sym@, InnerGraphMapUsageView::Value(export))
            },
            ModuleExportName::Str(_) => parser,
        },
        _ => parser,
    }
}

/// The state after the specifiers of an export without a source, first to
/// last.
pub open spec fn local_specifiers_effect(
    parser: ParserView,
    specifiers: Seq<ExportSpecifier>,
) -> ParserView
    decreases specifiers.len(),
{
    if specifiers.len() == 0 {
        parser
    } else {
        local_specifier_effect(
            local_specifiers_effect(parser, specifiers.drop_last()),
            specifiers.last(),
        )
    }
}

/// The state after `export { .. }` without a source: its specifiers are
/// recorded and its text is blanked.
pub open spec fn named_export_effect(parser: ParserView, statement: NamedExport) -> ParserView {
    local_specifiers_effect(parser, statement.specifiers@).push_dependency(blanking(statement.span))
}

/// Whether `after` holds all that `before` holds of records, exported names
/// and star re-exports, in the same places, and agrees with it on the
/// source order, the statement path and the configuration.
pub open spec fn grows(before: ParserView, after: ParserView) -> bool {
    &&& after.last_harmony_import_order == before.last_harmony_import_order
    &&& before.dependencies.is_prefix_of(after.dependencies)
    &&& before.harmony_named_exports.subset_of(after.harmony_named_exports)
    &&& before.all_star_exports.is_prefix_of(after.all_star_exports)
    &&& after.statement_path == before.statement_path
    &&& after.javascript_options == before.javascript_options
    &&& after.import_map == before.import_map
    &&& after.definitions == before.definitions
}

/// Recording the bindings of a re-export takes nothing away.
pub(crate) proof fn lemma_reexport_specifiers_grow(
    parser: ParserView,
    request: Seq<char>,
    span: Span,
    specifiers: Seq<Specifier>,
)
    ensures
        grows(parser, reexport_specifiers_effect(parser, request, span, specifiers)),
    decreases specifiers.len(),
{
    if specifiers.len() > 0 {
        lemma_reexport_specifiers_grow(parser, request, span, specifiers.drop_last());
    }
}

/// Exporting identifiers under their own names takes nothing away.
pub(crate) proof fn lemma_export_idents_grow(parser: ParserView, idents: Seq<Ident>)
    ensures
        grows(parser, export_idents_effect(parser, idents)),
    decreases idents.len(),
{
    if idents.len() > 0 {
        lemma_export_idents_grow(parser, idents.drop_last());
    }
}

/// Recording the specifiers of a local export takes nothing away.
pub(crate) proof fn lemma_local_specifiers_grow(
    parser: ParserView,
    specifiers: Seq<ExportSpecifier>,
)
    ensures
        grows(parser, local_specifiers_effect(parser, specifiers)),
    decreases specifiers.len(),
{
    if specifiers.len() > 0 {
        lemma_local_specifiers_grow(parser, specifiers.drop_last());
    }
}


/// The location of the text that a default-exported function loses to its
/// synthesized name, and the text around that name.
fn function_declaration_info(f: &FnExpr) -> (info: DeclarationInfo)
    requires
        f.function.span.lo > 0,
        f.name_slot_located(),
    ensures
        Some(DeclarationId::Func(info)@) == default_declaration_id(DefaultDecl::Fn(*f)),
{
    let start = f.span().real_lo();
    let end = if f.function.params.len() > 0 {
        f.function.params[0].span.real_lo()
    } else {
        match &f.function.body {
            Some(body) => body.span.real_lo(),
            None => {
                proof {
                    assert(false);
                }
                0
            },
        }
    };
    let mut prefix = String::new();
    if f.function.is_async {
        prefix.append("async ");
    }
    prefix.append("function");
    if f.function.is_generator {
        prefix.append("*");
    }
    prefix.append(" ");
    let mut suffix = String::from_str("(");
    if f.function.params.len() == 0 {
        suffix.append(") ");
    }
    proof {
        assert(prefix@ =~= function_prefix(f.function.is_async, f.function.is_generator));
        assert(suffix@ =~= function_suffix(f.function.params.len() == 0));
    }
    DeclarationInfo { range: DependencyLocation::new(start, end), prefix, suffix }
}

/// Records `export { .. } from ".."` or `export * as ns from ".."`: the
/// statement takes the next source order, is linked with its bindings, and
/// its text is blanked.
pub fn handle_named_export_import<P>(
    parser: &mut JavascriptParser<P>,
    statement: &NamedExport,
) -> (claim: Option<bool>)
    requires
        Hook::NamedExportImport(*statement).ready(old(parser)@),
    ensures
        hook_served(
            HarmonyExportDependencyParserPlugin.outcome(old(parser)@, Hook::NamedExportImport(*statement)),
            *old(parser),
            *final(parser),
            claim,
        ),
{
    let src = match &statement.src {
        Some(src) => src,
        None => {
            proof {
                assert(false);
            }
            return None;
        },
    };
    parser.last_harmony_import_order = parser.last_harmony_import_order + 1;
    let mut specifiers: Vec<Specifier> = Vec::new();
    let mut i: usize = 0;
    while i < statement.specifiers.len()
        invariant
            i <= statement.specifiers.len(),
            statement.is_reexport(),
            specifiers@ == reexported_specifiers(statement.specifiers@.take(i as int)),
            no_default_specifier(specifiers@),
        decreases statement.specifiers.len() - i,
    {
        match &statement.specifiers[i] {
            ExportSpecifier::Namespace(n) => {
                specifiers.push(Specifier::Namespace(n.name.atom()));
            },
            ExportSpecifier::Named(named) => {
                let exported = match &named.exported {
                    Some(exported) => Some(exported.atom()),
                    None => None,
                };
                specifiers.push(Specifier::Named(named.orig.atom(), exported));
            },
            ExportSpecifier::Default(_) => {
                proof {
                    assert(false);
                }
            },
        }
        proof {
            assert(specifiers@ =~= reexported_specifiers(statement.specifiers@.take(i + 1)));
        }
        i = i + 1;
    }
    proof {
        assert(statement.specifiers@.take(statement.specifiers.len() as int) == statement.specifiers@);
    }
    handle_esm_export_harmony_import_side_effects_dep(
        parser,
        src.value.clone(),
        statement.span,
        src.span,
        specifiers,
        DependencyType::EsmExport,
        false,
    );
    parser.push_dependency(
        Dependency::Const(
            ConstDependency::new(
                statement.span.real_lo(),
                statement.span.real_hi(),
                String::new(),
                None,
            ),
        ),
    );
    Some(true)
}

/// Records `export * from ".."`: the statement takes the next source order
/// and is linked; its record holds the star re-exports declared so far and
/// joins them; and its text is blanked.
pub fn handle_all_export_import<P>(
    parser: &mut JavascriptParser<P>,
    statement: &ExportAll,
) -> (claim: Option<bool>)
    requires
        Hook::AllExportImport(*statement).ready(old(parser)@),
    ensures
        hook_served(
            HarmonyExportDependencyParserPlugin.outcome(old(parser)@, Hook::AllExportImport(*statement)),
            *old(parser),
            *final(parser),
            claim,
        ),
{
    parser.last_harmony_import_order = parser.last_harmony_import_order + 1;
    handle_esm_export_harmony_import_side_effects_dep(
        parser,
        statement.src.value.clone(),
        statement.span,
        statement.src.span,
        Vec::new(),
        DependencyType::EsmExport,
        true,
    );
    let ghost linked = parser@;
    let list = Some(parser.build_info.all_star_exports.clone());
    let export_imported_dep = HarmonyExportImportedSpecifierDependency::new(
        statement.src.value.clone(),
        parser.last_harmony_import_order,
        Vec::new(),
        Vec::new(),
        None,
        true,
        list,
        ErrorSpan::from(statement.span),
        HarmonyExportImportedSpecifierDependency::create_export_presence_mode(
            &parser.javascript_options,
        ),
    );
    proof {
        assert(export_imported_dep@->HarmonyExportImportedSpecifier_ids =~= Seq::empty());
        assert(export_imported_dep@->HarmonyExportImportedSpecifier_mode_ids =~= Seq::empty());
        assert(export_imported_dep@ == star_export(linked, *statement));
    }
    let id = DependencyId(parser.dependencies.len());
    parser.add_star_export(id);
    parser.push_dependency(Dependency::HarmonyExportImportedSpecifier(export_imported_dep));
    parser.push_dependency(
        Dependency::Const(
            ConstDependency::new(
                statement.span.real_lo(),
                statement.span.real_hi(),
                String::new(),
                None,
            ),
        ),
    );
    Some(true)
}

/// Records `export default` of a class or function: one with a name as a
/// declaration that is exported as `default`, one without as an expression.
pub fn handle_export<P>(
    parser: &mut JavascriptParser<P>,
    statement: &ExportDefaultDecl,
) -> (claim: Option<bool>)
    requires
        Hook::Export(*statement).ready(old(parser)@),
    ensures
        hook_served(
            HarmonyExportDependencyParserPlugin.outcome(old(parser)@, Hook::Export(*statement)),
            *old(parser),
            *final(parser),
            claim,
        ),
{
    let named_id: Option<String> = match &statement.decl {
        DefaultDecl::Class(class_expr) => match class_expr.as_class_decl() {
            Some(c) => Some(c.ident.sym),
            None => None,
        },
        DefaultDecl::Fn(fn_expr) => match fn_expr.as_fn_decl() {
            Some(f) => Some(f.ident.sym),
            None => None,
        },
        DefaultDecl::TsInterfaceDecl(_) => None,
    };
    if let Some(named_id) = named_id {
        if !named_id.as_str().is_empty() {
            parser.push_dependency(
                Dependency::HarmonyExportSpecifier(
                    HarmonyExportSpecifierDependency::new(js_default_keyword(), named_id.clone()),
                ),
            );
            InnerGraphPlugin::add_variable_usage(
                parser,
                &named_id,
                InnerGraphMapUsage::Value(js_default_keyword()),
            );
            parser.push_dependency(
                Dependency::HarmonyExportHeader(
                    HarmonyExportHeaderDependency::new(
                        Some(DependencyLocation::from_span(&statement.decl.span())),
                        DependencyLocation::from_span(&statement.span),
                    ),
                ),
            );
            return Some(true);
        }
    }
    let local = match &statement.decl {
        DefaultDecl::Class(class_expr) => match &class_expr.ident {
            Some(ident) => ident.sym.clone(),
            None => default_star_js_word(),
        },
        DefaultDecl::Fn(f) => match &f.ident {
            Some(ident) => ident.sym.clone(),
            None => default_star_js_word(),
        },
        DefaultDecl::TsInterfaceDecl(_) => {
            proof {
                assert(false);
            }
            default_star_js_word()
        },
    };
    InnerGraphPlugin::add_variable_usage(
        parser,
        &local,
        InnerGraphMapUsage::Value(js_default_keyword()),
    );
    let declaration = match &statement.decl {
        DefaultDecl::Class(class_expr) => match &class_expr.ident {
            Some(ident) => Some(DeclarationId::Id(ident.sym.clone())),
            None => None,
        },
        DefaultDecl::Fn(f) => Some(DeclarationId::Func(function_declaration_info(f))),
        DefaultDecl::TsInterfaceDecl(_) => None,
    };
    parser.push_dependency(
        Dependency::HarmonyExportExpression(
            HarmonyExportExpressionDependency::new(
                DependencyLocation::from_span(&statement.decl.span()),
                DependencyLocation::from_span(&statement.span),
                declaration,
            ),
        ),
    );
    Some(true)
}

/// Records `export default` of an expression.
pub fn handle_export_default_expr<P>(
    parser: &mut JavascriptParser<P>,
    statement: &ExportDefaultExpr,
) -> (claim: Option<bool>)
    requires
        Hook::ExportDefaultExpr(*statement).ready(old(parser)@),
    ensures
        hook_served(
            HarmonyExportDependencyParserPlugin.outcome(old(parser)@, Hook::ExportDefaultExpr(*statement)),
            *old(parser),
            *final(parser),
            claim,
        ),
{
    InnerGraphPlugin::add_variable_usage(
        parser,
        &default_star_js_word(),
        InnerGraphMapUsage::Value(js_default_keyword()),
    );
    parser.push_dependency(
        Dependency::HarmonyExportExpression(
            HarmonyExportExpressionDependency::new(
                DependencyLocation::from_span(&statement.expr.span),
                DependencyLocation::from_span(&statement.span),
                None,
            ),
        ),
    );
    Some(true)
}

/// Records `export` of a declaration: every identifier that it declares is
/// exported under its own name, and the statement loses its head.
pub fn handle_export_decl<P>(
    parser: &mut JavascriptParser<P>,
    statement: &ExportDecl,
) -> (claim: Option<bool>)
    requires
        Hook::ExportDecl(*statement).ready(old(parser)@),
    ensures
        hook_served(
            HarmonyExportDependencyParserPlugin.outcome(old(parser)@, Hook::ExportDecl(*statement)),
            *old(parser),
            *final(parser),
            claim,
        ),
{
    match &statement.decl {
        Decl::Class(c) => {
            export_ident(parser, &c.ident);
            proof {
                let idents = declared_idents(statement.decl);
                assert(idents.drop_last() =~= Seq::empty());
                assert(export_idents_effect(old(parser)@, idents.drop_last()) == old(parser)@);
                assert(idents.last() == c.ident);
            }
        },
        Decl::Fn(f) => {
            export_ident(parser, &f.ident);
            proof {
                let idents = declared_idents(statement.decl);
                assert(idents.drop_last() =~= Seq::empty());
                assert(export_idents_effect(old(parser)@, idents.drop_last()) == old(parser)@);
                assert(idents.last() == f.ident);
            }
        },
        Decl::Var(v) => {
            let idents = declared_ids(&v.decls);
            let mut i: usize = 0;
            while i < idents.len()
                invariant
                    i <= idents.len(),
                    parser.plugin_drive == old(parser).plugin_drive,
                    parser@ == export_idents_effect(old(parser)@, idents@.take(i as int)),
                decreases idents.len() - i,
            {
                export_ident(parser, &idents[i]);
                proof {
                    assert(idents@.take(i + 1).drop_last() == idents@.take(i as int));
                    assert(idents@.take(i + 1).last() == idents@[i as int]);
                }
                i = i + 1;
            }
            assert(idents@.take(idents.len() as int) == idents@);
        },
        _ => {},
    }
    parser.push_dependency(
        Dependency::HarmonyExportHeader(
            HarmonyExportHeaderDependency::new(
                Some(DependencyLocation::from_span(&statement.decl.span())),
                DependencyLocation::from_span(&statement.span),
            ),
        ),
    );
    Some(true)
}

/// Records `export { .. }` without a source: a name that the module imported
/// is exported again from where it came from, any other as a local binding.
/// A named export with a source is left unclaimed.
pub fn handle_named_export<P>(
    parser: &mut JavascriptParser<P>,
    statement: &NamedExport,
) -> (claim: Option<bool>)
    requires
        Hook::NamedExport(*statement).ready(old(parser)@),
    ensures
        hook_served(
            HarmonyExportDependencyParserPlugin.outcome(old(parser)@, Hook::NamedExport(*statement)),
            *old(parser),
            *final(parser),
            claim,
        ),
{
    if statement.src.is_none() {
        let mut i: usize = 0;
        while i < statement.specifiers.len()
            invariant
                i <= statement.specifiers.len(),
                statement.is_local_export(),
                statement.src is None,
                parser.plugin_drive == old(parser).plugin_drive,
                parser@ == local_specifiers_effect(old(parser)@, statement.specifiers@.take(i as int)),
            decreases statement.specifiers.len() - i,
        {
            proof {
                assert(statement.specifiers@.take(i + 1).drop_last() == statement.specifiers@.take(
                    i as int,
                ));
                assert(statement.specifiers@.take(i + 1).last() == statement.specifiers@[i as int]);
            }
            export_local_specifier(parser, &statement.specifiers[i]);
            i = i + 1;
        }
        proof {
            assert(statement.specifiers@.take(statement.specifiers.len() as int) == statement.specifiers@);
        }
        parser.push_dependency(
            Dependency::Const(
                ConstDependency::new(
                    statement.span.real_lo(),
                    statement.span.real_hi(),
                    String::new(),
                    None,
                ),
            ),
        );
        Some(true)
    } else {
        None
    }
}

impl JavascriptParserPlugin for HarmonyExportDependencyParserPlugin {
    /// Every export form is claimed; imports and plain statements are left
    /// to other plugins. A named export is claimed only where it has no
    /// source.
    open spec fn outcome(&self, parser: ParserView, hook: Hook) -> (Option<bool>, ParserView) {
        match hook {
            Hook::NamedExportImport(statement) => (
                Some(true),
                named_export_import_effect(parser, statement),
            ),
            Hook::AllExportImport(statement) => (Some(true), all_export_import_effect(parser, statement)),
            Hook::Export(statement) => (Some(true), export_effect(parser, statement)),
            Hook::ExportDefaultExpr(statement) => (
                Some(true),
                export_default_expr_effect(parser, statement),
            ),
            Hook::ExportDecl(statement) => (Some(true), export_decl_effect(parser, statement)),
            Hook::NamedExport(statement) => if statement.src is None {
                (Some(true), named_export_effect(parser, statement))
            } else {
                (None, parser)
            },
            _ => (None, parser),
        }
    }

    proof fn lemma_outcome_kept(&self, parser: ParserView, hook: Hook) {
        if source_orders_ascend(parser.records()) {
            lemma_offer_keeps_source_orders(parser, hook);
        }
        if star_exports_consistent(parser.records()) {
            lemma_offer_keeps_star_exports(parser, hook);
        }
        match hook {
            Hook::NamedExportImport(statement) => {
                lemma_reexport_specifiers_grow(
                    parser.advance_source_order(),
                    statement.src->0.value@,
                    statement.span,
                    reexported_specifiers(statement.specifiers@),
                );
            },
            Hook::AllExportImport(statement) => {},
            Hook::ExportDecl(statement) => {
                lemma_export_idents_grow(parser, declared_idents(statement.decl));
            },
            Hook::NamedExport(statement) => {
                lemma_local_specifiers_grow(parser, statement.specifiers@);
            },
            _ => {},
        }
    }

    fn pre_block_statement(
        &self,
        parser: &mut JavascriptParser<Self>,
        stmt: &Stmt,
    ) -> (claim: Option<bool>) {
        None
    }

    fn import(
        &self,
        parser: &mut JavascriptParser<Self>,
        statement: &ImportDecl,
        source: &str,
    ) -> (claim:
        Option<bool>) {
        None
    }

    fn import_specifier(
        &self,
        parser: &mut JavascriptParser<Self>,
        statement: &ImportDecl,
        source: &String,
        export_name: Option<&String>,
        identifier_name: &String,
    ) -> (claim: Option<bool>) {
        None
    }

    fn named_export_import(
        &self,
        parser: &mut JavascriptParser<Self>,
        statement: &NamedExport,
        source: &str,
    ) -> (claim: Option<bool>) {
        handle_named_export_import(parser, statement)
    }

    fn all_export_import(
        &self,
        parser: &mut JavascriptParser<Self>,
        statement: &ExportAll,
        source: &str,
    ) -> (claim:
        Option<bool>) {
        handle_all_export_import(parser, statement)
    }

    fn export(
        &self,
        parser: &mut JavascriptParser<Self>,
        statement: &ExportDefaultDecl,
    ) -> (claim: Option<bool>) {
        handle_export(parser, statement)
    }

    fn export_default_expr(
        &self,
        parser: &mut JavascriptParser<Self>,
        statement: &ExportDefaultExpr,
    ) -> (claim:
        Option<bool>) {
        handle_export_default_expr(parser, statement)
    }

    fn export_decl(
        &self,
        parser: &mut JavascriptParser<Self>,
        statement: &ExportDecl,
    ) -> (claim: Option<bool>) {
        handle_export_decl(parser, statement)
    }

    fn named_export(
        &self,
        parser: &mut JavascriptParser<Self>,
        statement: &NamedExport,
    ) -> (claim: Option<bool>) {
        handle_named_export(parser, statement)
    }
}

/// Exports the local binding `ident` under its own name.
fn export_ident<P>(parser: &mut JavascriptParser<P>, ident: &Ident)
    ensures
        final(parser)@ == export_ident_effect(old(parser)@, ident.sym@),
        final(parser).plugin_drive == old(parser).plugin_drive,
{
    parser.push_dependency(
        Dependency::HarmonyExportSpecifier(
            HarmonyExportSpecifierDependency::new(ident.sym.clone(), ident.sym.clone()),
        ),
    );
    InnerGraphPlugin::add_variable_usage(parser, &ident.sym, InnerGraphMapUsage::Value(ident.sym.clone()));
    parser.add_named_export(ident.sym.clone());
}

/// Records one specifier of an export without a source.
fn export_local_specifier<P>(parser: &mut JavascriptParser<P>, specifier: &ExportSpecifier)
    requires
        *specifier is Named,
    ensures
        final(parser)@ == local_specifier_effect(old(parser)@, *specifier),
        final(parser).plugin_drive == old(parser).plugin_drive,
{
    match specifier {
        ExportSpecifier::Named(named) => {
            if let ModuleExportName::Ident(orig) = &named.orig {
                let export = match &named.exported {
                    Some(exported) => exported.atom(),
                    None => orig.sym.clone(),
                };
                let mode = HarmonyExportImportedSpecifierDependency::create_export_presence_mode(
                    &parser.javascript_options,
                );
                let dep = match parser.import_map.get(&orig.to_id()) {
                    Some(reference) => {
                        let mut ids: Vec<ExportId> = Vec::new();
                        ids.push((export.clone(), reference.names.clone()));
                        let mut mode_ids: Vec<ExportId> = Vec::new();
                        match &reference.specifier {
                            Specifier::Namespace(_) => {},
                            _ => {
                                mode_ids.push((export.clone(), reference.names.clone()));
                            },
                        }
                        let dep = HarmonyExportImportedSpecifierDependency::new(
                            reference.request.clone(),
                            reference.source_order,
                            ids,
                            mode_ids,
                            Some(export.clone()),
                            false,
                            None,
                            ErrorSpan::from(named.span),
                            mode,
                        );
                        proof {
                            let names = parser@.import_map[id_view(orig.spec_to_id())].names;
                            assert(dep@->HarmonyExportImportedSpecifier_ids =~= seq![(export@, names)]);
                            assert(dep@->HarmonyExportImportedSpecifier_mode_ids =~= if reference.specifier is Namespace {
                                Seq::empty()
                            } else {
                                seq![(export@, names)]
                            });
                        }
                        Dependency::HarmonyExportImportedSpecifier(dep)
                    },
                    None => Dependency::HarmonyExportSpecifier(
                        HarmonyExportSpecifierDependency::new(export.clone(), orig.sym.clone()),
                    ),
                };
                parser.push_dependency(dep);
                parser.add_named_export(export.clone());
                InnerGraphPlugin::add_variable_usage(parser, &orig.sym, InnerGraphMapUsage::Value(export));
            }
        },
        _ => {},
    }
}


} // verus!
