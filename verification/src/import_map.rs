//! The table of a module's imported bindings.

use vstd::prelude::*;
use crate::ast::{id_view, Id, IdView};
use crate::dependency::{opt_str_view, Specifier, SpecifierView};

verus! {

/// Where a local binding of the module came from: the module it was imported
/// from, the place of that import among the module's imports and re-exports,
/// the name it has there, and the form of the import clause.
#[derive(Clone, Debug, PartialEq, Eq)]
pub struct ImportReference {
    pub request: String,
    pub source_order: i32,
    pub names: Option<String>,
    pub specifier: Specifier,
}

pub struct ImportReferenceView {
    pub request: Seq<char>,
    pub source_order: int,
    pub names: Option<Seq<char>>,
    pub specifier: SpecifierView,
}

impl View for ImportReference {
    type V = ImportReferenceView;

    open spec fn view(&self) -> ImportReferenceView {
        ImportReferenceView {
            request: self.request@,
            source_order: self.source_order as int,
            names: opt_str_view(self.names),
            specifier: self.specifier@,
        }
    }
}

impl ImportReference {
    pub fn new(
        request: String,
        specifier: Specifier,
        source_order: i32,
        names: Option<String>,
    ) -> (reference:
        ImportReference)
        ensures
            reference.request == request,
            reference.specifier == specifier,
            reference.source_order == source_order,
            reference.names == names,
    {
        ImportReference { request, source_order, names, specifier }
    }
}

#[derive(Debug)]
struct ImportMapEntry {
    id: Id,
    reference: ImportReference,
}

/// The imported bindings of a module, by local identifier. Its view is the
/// map from each identifier to what was last recorded for it.
#[derive(Debug)]
pub struct ImportMap {
    entries: Vec<ImportMapEntry>,
}

spec fn entries_map(entries: Seq<ImportMapEntry>) -> Map<IdView, ImportReferenceView>
    decreases entries.len(),
{
    if entries.len() == 0 {
        Map::empty()
    } else {
        entries_map(entries.drop_last()).insert(
            id_view(entries.last().id),
            entries.last().reference@,
        )
    }
}

impl View for ImportMap {
    type V = Map<IdView, ImportReferenceView>;

    closed spec fn view(&self) -> Map<IdView, ImportReferenceView> {
        entries_map(self.entries@)
    }
}

impl ImportMap {
    pub fn new() -> (map: ImportMap)
        ensures
            map@ == Map::<IdView, ImportReferenceView>::empty(),
    {
        ImportMap { entries: Vec::new() }
    }

    /// Records `reference` for `id`, in place of what was recorded before.
    pub fn insert(&mut self, id: Id, reference: ImportReference)
        ensures
            final(self)@ == old(self)@.insert(id_view(id), reference@),
    {
        self.entries.push(ImportMapEntry { id, reference });
        assert(self.entries@.drop_last() == old(self).entries@);
    }

    /// What is recorded for `id`, if anything.
    pub fn get(&self, id: &Id) -> (found: Option<&ImportReference>)
        ensures
            found is Some <==> self@.contains_key(id_view(*id)),
            found matches Some(reference) ==> reference@ == self@[id_view(*id)],
    {
        let mut i: usize = self.entries.len();
        assert(self.entries@.take(i as int) == self.entries@);
        while i > 0
            invariant
                i <= self.entries.len(),
                self@.contains_key(id_view(*id)) <==> entries_map(
                    self.entries@.take(i as int),
                ).contains_key(id_view(*id)),
                self@.contains_key(id_view(*id)) ==> self@[id_view(*id)] == entries_map(
                    self.entries@.take(i as int),
                )[id_view(*id)],
            decreases i,
        {
            i = i - 1;
            let entry = &self.entries[i];
            assert(self.entries@.take(i + 1).drop_last() == self.entries@.take(i as int));
            assert(self.entries@.take(i + 1).last() == self.entries@[i as int]);
            if entry.id.0 == id.0 && entry.id.1 == id.1 {
                return Some(&entry.reference);
            }
        }
        None
    }
}

} // verus!
