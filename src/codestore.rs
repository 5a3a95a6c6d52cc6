use crate::datatypes::Instruction;
use vstd::prelude::*;

verus! {

/// The map that a sequence of (label, body) bindings denotes: a later binding
/// of a label shadows an earlier one.
pub open spec fn bindings_map(s: Seq<(Seq<char>, Seq<Instruction>)>) -> Map<Seq<char>, Seq<Instruction>>
    decreases s.len(),
{
    if s.len() == 0 {
        Map::empty()
    } else {
        bindings_map(s.drop_last()).insert(s.last().0, s.last().1)
    }
}

/// The program: a mapping from label to instruction sequence.
#[derive(Debug)]
pub struct CodeStore {
    entries: Vec<(String, Vec<Instruction>)>,
}

impl CodeStore {
    /// The bindings in the order they were made.
    pub closed spec fn bindings(&self) -> Seq<(Seq<char>, Seq<Instruction>)> {
        self.entries@.map_values(|e: (String, Vec<Instruction>)| (e.0@, e.1@))
    }

    /// The label-to-body mapping that the store holds.
    pub open spec fn view(&self) -> Map<Seq<char>, Seq<Instruction>> {
        bindings_map(self.bindings())
    }

    /// An empty store.
    pub fn new() -> (r: CodeStore)
        ensures
            r@ == Map::<Seq<char>, Seq<Instruction>>::empty(),
    {
        let r = CodeStore { entries: Vec::new() };
        assert(r.bindings() =~= Seq::empty());
        r
    }

    /// Binds `label` to `instrs`, replacing any earlier binding of it.
    pub fn insert(&mut self, label: String, instrs: Vec<Instruction>)
        ensures
            final(self)@ == old(self)@.insert(label@, instrs@),
    {
        self.entries.push((label, instrs));
        assert(final(self).bindings().drop_last() =~= old(self).bindings());
    }

    /// The body bound to `label`, if any.
    pub fn get(&self, label: &String) -> (r: Option<&Vec<Instruction>>)
        ensures
            match r {
                Some(v) => self@.contains_key(label@) && self@[label@] == v@,
                None => !self@.contains_key(label@),
            },
    {
        let mut i: usize = self.entries.len();
        while i > 0
            invariant
                i <= self.entries.len(),
                forall|j: int| i <= j < self.entries.len() ==> self.entries@[j].0@ != label@,
            decreases i,
        {
            i = i - 1;
            if self.entries[i].0 == *label {
                proof { self.lemma_last_binding_wins(i as int, label@); }
                return Some(&self.entries[i].1);
            }
        }
        proof { self.lemma_last_binding_wins(-1, label@); }
        None
    }

    /// Where no binding after `i` names `key`, the map holds the binding at
    /// `i` (or none at all, for `i == -1`).
    proof fn lemma_last_binding_wins(&self, i: int, key: Seq<char>)
        requires
            -1 <= i < self.entries.len(),
            i >= 0 ==> self.entries@[i].0@ == key,
            forall|j: int| i < j < self.entries.len() ==> self.entries@[j].0@ != key,
        ensures
            i >= 0 ==> self@.contains_key(key) && self@[key] == self.entries@[i].1@,
            i == -1 ==> !self@.contains_key(key),
    {
        lemma_bindings_suffix(self.bindings(), i, key);
    }
}

proof fn lemma_bindings_suffix(s: Seq<(Seq<char>, Seq<Instruction>)>, i: int, key: Seq<char>)
    requires
        -1 <= i < s.len(),
        i >= 0 ==> s[i].0 == key,
        forall|j: int| i < j < s.len() ==> s[j].0 != key,
    ensures
        i >= 0 ==> bindings_map(s).contains_key(key) && bindings_map(s)[key] == s[i].1,
        i == -1 ==> !bindings_map(s).contains_key(key),
    decreases s.len(),
{
    if s.len() > 0 {
        if i == s.len() - 1 {
        } else {
            lemma_bindings_suffix(s.drop_last(), i, key);
        }
    }
}

} // verus!
