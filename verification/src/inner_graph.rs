//! Which exports reach which top-level bindings.

use vstd::prelude::*;
use crate::name_set::NameSet;

verus! {

/// One use of a binding: by the export of the given name, or a use that
/// holds whatever is imported.
#[derive(Clone, Debug, PartialEq, Eq)]
pub enum InnerGraphMapUsage {
    True,
    Value(String),
}

pub enum InnerGraphMapUsageView {
    True,
    Value(Seq<char>),
}

impl View for InnerGraphMapUsage {
    type V = InnerGraphMapUsageView;

    open spec fn view(&self) -> InnerGraphMapUsageView {
        match *self {
            InnerGraphMapUsage::True => InnerGraphMapUsageView::True,
            InnerGraphMapUsage::Value(name) => InnerGraphMapUsageView::Value(name@),
        }
    }
}

/// All that is known of the uses of one binding: that it is always used, or
/// the names of the exports that use it.
#[derive(Debug)]
pub enum InnerGraphMapValue {
    True,
    Exports(NameSet),
}

#[verifier::ext_equal]
pub enum InnerGraphMapValueView {
    True,
    Exports(Set<Seq<char>>),
}

impl View for InnerGraphMapValue {
    type V = InnerGraphMapValueView;

    open spec fn view(&self) -> InnerGraphMapValueView {
        match *self {
            InnerGraphMapValue::True => InnerGraphMapValueView::True,
            InnerGraphMapValue::Exports(names) => InnerGraphMapValueView::Exports(names@),
        }
    }
}

pub type UsageMap = Map<Seq<char>, InnerGraphMapValueView>;

/// The usage map after one more use of `name` is recorded. A binding that
/// is always used stays so; otherwise the export joins those that use it.
pub open spec fn add_usage(
    map: UsageMap,
    name: Seq<char>,
    usage: InnerGraphMapUsageView,
) -> UsageMap {
    match usage {
        InnerGraphMapUsageView::True => map.insert(name, InnerGraphMapValueView::True),
        InnerGraphMapUsageView::Value(export) => if map.contains_key(name) {
            match map[name] {
                InnerGraphMapValueView::True => map,
                InnerGraphMapValueView::Exports(exports) => map.insert(
                    name,
                    InnerGraphMapValueView::Exports(exports.insert(export)),
                ),
            }
        } else {
            map.insert(name, InnerGraphMapValueView::Exports(Set::empty().insert(export)))
        },
    }
}

#[derive(Debug)]
struct UsageEntry {
    name: String,
    usage: InnerGraphMapUsage,
}

/// The uses recorded for the bindings of one module. Its view maps each
/// binding that has a recorded use to what is known of its uses.
#[derive(Debug)]
pub struct InnerGraphState {
    usages: Vec<UsageEntry>,
}

spec fn usages_map(usages: Seq<UsageEntry>) -> UsageMap
    decreases usages.len(),
{
    if usages.len() == 0 {
        Map::empty()
    } else {
        add_usage(usages_map(usages.drop_last()), usages.last().name@, usages.last().usage@)
    }
}

impl View for InnerGraphState {
    type V = UsageMap;

    closed spec fn view(&self) -> UsageMap {
        usages_map(self.usages@)
    }
}

pub open spec fn opt_value_view(
    value: Option<InnerGraphMapValue>,
) -> Option<InnerGraphMapValueView> {
    match value {
        Some(v) => Some(v@),
        None => None,
    }
}

impl InnerGraphState {
    pub fn new() -> (state: InnerGraphState)
        ensures
            state@ == Map::<Seq<char>, InnerGraphMapValueView>::empty(),
    {
        InnerGraphState { usages: Vec::new() }
    }

    /// Records one use of the binding `name`.
    pub fn add_usage(&mut self, name: String, usage: InnerGraphMapUsage)
        ensures
            final(self)@ == add_usage(old(self)@, name@, usage@),
    {
        self.usages.push(UsageEntry { name, usage });
        assert(self.usages@.drop_last() == old(self).usages@);
    }

    /// What is known of the uses of the binding `name`, if any was recorded.
    pub fn get(&self, name: &String) -> (value: Option<InnerGraphMapValue>)
        ensures
            value is Some <==> self@.contains_key(name@),
            value matches Some(v) ==> v@ == self@[name@],
    {
        let mut value: Option<InnerGraphMapValue> = None;
        let mut i: usize = 0;
        while i < self.usages.len()
            invariant
                i <= self.usages.len(),
                value is Some <==> usages_map(self.usages@.take(i as int)).contains_key(name@),
                value matches Some(v) ==> v@ == usages_map(self.usages@.take(i as int))[name@],
            decreases self.usages.len() - i,
        {
            let entry = &self.usages[i];
            assert(self.usages@.take(i + 1).drop_last() == self.usages@.take(i as int));
            assert(self.usages@.take(i + 1).last() == self.usages@[i as int]);
            if entry.name == *name {
                value = match &entry.usage {
                    InnerGraphMapUsage::True => Some(InnerGraphMapValue::True),
                    InnerGraphMapUsage::Value(export) => match value {
                        None => {
                            let mut exports = NameSet::new();
                            exports.insert(export.clone());
                            Some(InnerGraphMapValue::Exports(exports))
                        },
                        Some(InnerGraphMapValue::True) => Some(InnerGraphMapValue::True),
                        Some(InnerGraphMapValue::Exports(exports)) => {
                            let mut exports = exports;
                            exports.insert(export.clone());
                            Some(InnerGraphMapValue::Exports(exports))
                        },
                    },
                };
            }
            i = i + 1;
        }
        assert(self.usages@.take(self.usages.len() as int) == self.usages@);
        value
    }
}

} // verus!
