//! An insertion-ordered table interning identifier text as small integer indices.
use vstd::prelude::*;

verus! {

/// Identifier texts in order of first insertion; each text appears once.
pub struct SymTable {
    syms: Vec<String>,
}

impl View for SymTable {
    type V = Seq<Seq<char>>;

    closed spec fn view(&self) -> Seq<Seq<char>> {
        self.syms@.map_values(|s: String| s@)
    }
}

impl SymTable {
    /// No text appears twice.
    pub open spec fn wf(&self) -> bool {
        forall|i: int, j: int| 0 <= i < j < self@.len() ==> self@[i] != self@[j]
    }

    /// An empty table.
    pub fn new() -> (r: Self)
        ensures
            r.wf(),
            r@ == Seq::<Seq<char>>::empty(),
    {
        let r = SymTable { syms: Vec::new() };
        assert(r@ =~= Seq::<Seq<char>>::empty());
        r
    }

    /// Number of texts in the table.
    pub fn len(&self) -> (r: usize)
        ensures
            r == self@.len(),
    {
        self.syms.len()
    }

    /// The text stored at `index`, if any.
    pub fn get(&self, index: usize) -> (r: Option<String>)
        ensures
            index < self@.len() ==> (r matches Some(s) && s@ == self@[index as int]),
            index >= self@.len() ==> r is None,
    {
        if index < self.syms.len() {
            Some(self.syms[index].clone())
        } else {
            None
        }
    }

    /// The index of `sym`, if the table holds it.
    pub fn lookup(&self, sym: &str) -> (r: Option<usize>)
        ensures
            match r {
                Some(i) => i < self@.len() && self@[i as int] == sym@ && forall|j: int|
                    0 <= j < i ==> self@[j] != sym@,
                None => forall|j: int| 0 <= j < self@.len() ==> self@[j] != sym@,
            },
    {
        let key = sym.to_owned();
        let mut i: usize = 0;
        while i < self.syms.len()
            invariant
                i <= self@.len(),
                self@.len() == self.syms@.len(),
                key@ == sym@,
                forall|j: int| 0 <= j < i ==> self@[j] != sym@,
            decreases self.syms@.len() - i,
        {
            if self.syms[i] == key {
                return Some(i);
            }
            i = i + 1;
        }
        None
    }

    /// Intern `sym`: its existing index, or a new last index where the table lacked it.
    pub fn insert(&mut self, sym: String) -> (r: usize)
        requires
            old(self).wf(),
            old(self)@.len() < usize::MAX,
        ensures
            final(self).wf(),
            old(self)@.contains(sym@) ==> final(self)@ == old(self)@,
            !old(self)@.contains(sym@) ==> final(self)@ == old(self)@.push(sym@) && r == old(
                self,
            )@.len(),
            r < final(self)@.len(),
            final(self)@[r as int] == sym@,
    {
        match self.lookup(sym.as_str()) {
            Some(idx) => {
                assert(old(self)@.contains(sym@));
                idx
            },
            None => {
                let ghost before = self@;
                self.syms.push(sym);
                assert(self@ =~= before.push(sym@));
                assert(!before.contains(sym@));
                self.syms.len() - 1
            },
        }
    }
}

} // verus!
