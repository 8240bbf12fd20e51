//! What a traversal records of a module, and what holds of it at every
//! point of the traversal.

use vstd::prelude::*;
use crate::dependency::DependencyView;
use crate::parser::ParserView;

verus! {

/// What a traversal has recorded of a module: the part of its state that
/// the stages after it read.
#[verifier::ext_equal]
pub struct Records {
    pub dependencies: Seq<DependencyView>,
    pub last_harmony_import_order: int,
    pub all_star_exports: Seq<nat>,
    pub harmony_named_exports: Set<Seq<char>>,
}

impl ParserView {
    /// What the traversal has recorded of the module so far.
    pub open spec fn records(self) -> Records {
        Records {
            dependencies: self.dependencies,
            last_harmony_import_order: self.last_harmony_import_order,
            all_star_exports: self.all_star_exports,
            harmony_named_exports: self.harmony_named_exports,
        }
    }
}

/// Whether the record links the target module of an import or re-export.
pub open spec fn is_linkage(dependency: DependencyView) -> bool {
    dependency is HarmonyImportSideEffect
}

/// Whether the record is that of a star re-export.
pub open spec fn is_star_export(dependency: DependencyView) -> bool {
    dependency is HarmonyExportImportedSpecifier
        && dependency->HarmonyExportImportedSpecifier_export_all
}

/// The source orders of the linkage records among `dependencies` rise
/// strictly along the list and stay below `bound`.
pub open spec fn linkage_ascends_below(dependencies: Seq<DependencyView>, bound: int) -> bool {
    &&& forall|i: int|
        0 <= i < dependencies.len() && is_linkage(#[trigger] dependencies[i])
            ==> dependencies[i]->HarmonyImportSideEffect_source_order < bound
    &&& forall|i: int, j: int|
        0 <= i < j < dependencies.len() && is_linkage(#[trigger] dependencies[i]) && is_linkage(
            #[trigger] dependencies[j],
        ) ==> dependencies[i]->HarmonyImportSideEffect_source_order
            < dependencies[j]->HarmonyImportSideEffect_source_order
}

/// The source orders of the linkage records rise strictly along the
/// dependency list, and none is beyond the source order given out last.
pub open spec fn source_orders_ascend(records: Records) -> bool {
    linkage_ascends_below(records.dependencies, records.last_harmony_import_order + 1)
}

/// The list `stars` names the star re-exports among `dependencies`, all of
/// them and in their order, and each of these records holds the part of
/// the list that comes before it.
pub open spec fn stars_match(dependencies: Seq<DependencyView>, stars: Seq<nat>) -> bool {
    &&& forall|k: int|
        0 <= k < stars.len() ==> {
            let id = #[trigger] stars[k];
            &&& id < dependencies.len()
            &&& is_star_export(dependencies[id as int])
            &&& dependencies[id as int]->HarmonyExportImportedSpecifier_other_star_exports == Some(
                stars.take(k),
            )
        }
    &&& forall|k: int, l: int| 0 <= k < l < stars.len() ==> #[trigger] stars[k] < #[trigger] stars[l]
    &&& forall|i: int|
        0 <= i < dependencies.len() && is_star_export(#[trigger] dependencies[i]) ==> stars.contains(
            i as nat,
        )
}

/// The list of star re-exports names the star re-export records of the
/// dependency list, all of them and in their order, and each of these
/// records holds the star re-exports declared before it.
pub open spec fn star_exports_consistent(records: Records) -> bool {
    stars_match(records.dependencies, records.all_star_exports)
}

} // verus!
