//! A set of names.

use vstd::prelude::*;

verus! {

/// A finite set of names that only grows. Its view is the set of the names
/// it holds, each as the sequence of its characters.
#[derive(Debug)]
pub struct NameSet {
    names: Vec<String>,
}

pub open spec fn name_views(names: Seq<String>) -> Seq<Seq<char>> {
    names.map_values(|name: String| name@)
}

/// Appending a value to a sequence adds it to the set of its values, and
/// keeps the sequence free of repetitions if the value is new.
proof fn lemma_push_to_set<A>(s: Seq<A>, a: A)
    ensures
        s.push(a).to_set() == s.to_set().insert(a),
        s.no_duplicates() && !s.to_set().contains(a) ==> s.push(a).no_duplicates(),
{
    let t = s.push(a);
    assert forall|x: A| #[trigger] t.to_set().contains(x) <==> s.to_set().insert(a).contains(x) by {
        if t.contains(x) {
            let i = choose|i: int| 0 <= i < t.len() && t[i] == x;
            if i < s.len() {
                assert(s[i] == x);
            }
        }
        if s.contains(x) {
            let i = choose|i: int| 0 <= i < s.len() && s[i] == x;
            assert(t[i] == x);
        }
        assert(t[s.len() as int] == a);
    }
    assert(t.to_set() =~= s.to_set().insert(a));
    if s.no_duplicates() && !s.to_set().contains(a) {
        assert forall|i: int, j: int| 0 <= i < t.len() && 0 <= j < t.len() && i != j implies t[i]
            != t[j] by {
            if i < s.len() {
                assert(s.contains(s[i]));
            }
            if j < s.len() {
                assert(s.contains(s[j]));
            }
        }
    }
}

impl View for NameSet {
    type V = Set<Seq<char>>;

    closed spec fn view(&self) -> Set<Seq<char>> {
        name_views(self.names@).to_set()
    }
}

impl NameSet {
    #[verifier::type_invariant]
    spec fn no_name_twice(self) -> bool {
        name_views(self.names@).no_duplicates()
    }

    /// The names in the order in which they came in.
    pub closed spec fn listing(&self) -> Seq<Seq<char>> {
        name_views(self.names@)
    }

    pub fn new() -> (set: NameSet)
        ensures
            set@ == Set::<Seq<char>>::empty(),
            set.listing() == Seq::<Seq<char>>::empty(),
    {
        let set = NameSet { names: Vec::new() };
        assert(name_views(set.names@) =~= Seq::empty());
        assert(name_views(set.names@).to_set() =~= Set::empty());
        set
    }

    pub fn len(&self) -> (len: usize)
        ensures
            len == self@.len(),
            len == self.listing().len(),
            self.listing().no_duplicates(),
            self.listing().to_set() == self@,
            self@.finite(),
    {
        proof {
            use_type_invariant(self);
            self.listing().unique_seq_to_set();
            vstd::seq_lib::seq_to_set_is_finite(self.listing());
        }
        self.names.len()
    }

    pub fn contains(&self, name: &String) -> (found: bool)
        ensures
            found == self@.contains(name@),
    {
        let mut i: usize = 0;
        while i < self.names.len()
            invariant
                i <= self.names.len(),
                forall|j: int| 0 <= j < i ==> name_views(self.names@)[j] != name@,
            decreases self.names.len() - i,
        {
            if self.names[i] == *name {
                assert(name_views(self.names@)[i as int] == name@);
                return true;
            }
            i = i + 1;
        }
        false
    }

    /// Adds `name`, and tells whether it was new.
    pub fn insert(&mut self, name: String) -> (added: bool)
        ensures
            final(self)@ == old(self)@.insert(name@),
            added == !old(self)@.contains(name@),
            final(self).listing() == if added {
                old(self).listing().push(name@)
            } else {
                old(self).listing()
            },
    {
        proof {
            use_type_invariant(&*self);
        }
        if self.contains(&name) {
            assert(self@.insert(name@) =~= self@);
            false
        } else {
            let ghost before = name_views(self.names@);
            let mut names: Vec<String> = Vec::new();
            std::mem::swap(&mut names, &mut self.names);
            names.push(name);
            proof {
                let after = name_views(names@);
                assert(after =~= before.push(name@));
                lemma_push_to_set(before, name@);
            }
            self.names = names;
            true
        }
    }

    /// A copy of the names, in the order in which they came in.
    pub fn to_vec(&self) -> (names: Vec<String>)
        ensures
            name_views(names@) == self.listing(),
    {
        let mut names: Vec<String> = Vec::new();
        let mut i: usize = 0;
        while i < self.names.len()
            invariant
                i <= self.names.len(),
                names@ == self.names@.take(i as int),
            decreases self.names.len() - i,
        {
            names.push(self.names[i].clone());
            assert(self.names@.take(i + 1) =~= self.names@.take(i as int).push(self.names@[i as int]));
            i = i + 1;
        }
        assert(self.names@.take(self.names.len() as int) == self.names@);
        names
    }
}

} // verus!
