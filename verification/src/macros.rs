//! The macro table of one preprocessor run.

use crate::text::same_text;
use vstd::prelude::*;

verus! {

/// One definition: a macro's name and its body.
#[derive(Debug)]
pub struct MacroDef {
    pub name: Vec<char>,
    pub body: Vec<char>,
}

/// The macros defined so far, in the order of their definitions. A later
/// definition of a name overrides the earlier ones.
#[derive(Debug)]
pub struct MacroTable {
    pub defs: Vec<MacroDef>,
}

/// The mapping that the first `n` definitions make.
pub open spec fn table_of(defs: Seq<MacroDef>, n: nat) -> Map<Seq<char>, Seq<char>>
    decreases n,
{
    if n == 0 || n > defs.len() {
        Map::empty()
    } else {
        table_of(defs, (n - 1) as nat).insert(defs[n - 1].name@, defs[n - 1].body@)
    }
}

impl View for MacroTable {
    type V = Map<Seq<char>, Seq<char>>;

    /// The mapping from each defined name to its body.
    open spec fn view(&self) -> Map<Seq<char>, Seq<char>> {
        table_of(self.defs@, self.defs@.len())
    }
}

/// The mapping of the first definitions does not depend on the later ones.
pub proof fn lemma_table_prefix(a: Seq<MacroDef>, b: Seq<MacroDef>, n: nat)
    requires
        n <= a.len(),
        n <= b.len(),
        forall|i: int| 0 <= i < n ==> a[i] == b[i],
    ensures
        table_of(a, n) == table_of(b, n),
    decreases n,
{
    if n > 0 {
        lemma_table_prefix(a, b, (n - 1) as nat);
    }
}

/// Definitions of other names do not change what a name maps to.
pub proof fn lemma_table_skips(defs: Seq<MacroDef>, m: nat, n: nat, name: Seq<char>)
    requires
        m <= n <= defs.len(),
        forall|i: int| m <= i < n ==> defs[i].name@ != name,
    ensures
        table_of(defs, n).contains_key(name) == table_of(defs, m).contains_key(name),
        table_of(defs, n).contains_key(name) ==> table_of(defs, n)[name] == table_of(
            defs,
            m,
        )[name],
    decreases n - m,
{
    if m < n {
        lemma_table_skips(defs, m, (n - 1) as nat, name);
    }
}

impl MacroTable {
    /// A table without definitions.
    pub fn new() -> (table: MacroTable)
        ensures
            table@ == Map::<Seq<char>, Seq<char>>::empty(),
    {
        MacroTable { defs: Vec::new() }
    }

    /// Stores `body` under `name`, in place of what the name stood for.
    pub fn define(&mut self, name: Vec<char>, body: Vec<char>)
        ensures
            final(self)@ == old(self)@.insert(name@, body@),
    {
        proof {
            lemma_table_prefix(
                old(self).defs@,
                old(self).defs@.push(MacroDef { name, body }),
                old(self).defs@.len(),
            );
        }
        self.defs.push(MacroDef { name, body });
    }

    /// The body stored under `name`, if the name is defined.
    pub fn lookup(&self, name: &Vec<char>) -> (res: Option<Vec<char>>)
        ensures
            match res {
                Some(body) => self@.contains_key(name@) && self@[name@] == body@,
                None => !self@.contains_key(name@),
            },
    {
        let mut i: usize = self.defs.len();
        while i > 0
            invariant
                i <= self.defs.len(),
                forall|k: int| i <= k < self.defs.len() ==> self.defs@[k].name@ != name@,
            decreases i,
        {
            i -= 1;
            if same_text(&self.defs[i].name, name) {
                proof {
                    lemma_table_skips(
                        self.defs@,
                        (i + 1) as nat,
                        self.defs@.len(),
                        name@,
                    );
                }
                return Some(copy_of(&self.defs[i].body));
            }
        }
        proof {
            lemma_table_skips(self.defs@, 0, self.defs@.len(), name@);
        }
        None
    }
}

/// A copy of a text.
pub fn copy_of(v: &Vec<char>) -> (out: Vec<char>)
    ensures
        out@ == v@,
{
    let mut out: Vec<char> = Vec::new();
    let mut i: usize = 0;
    while i < v.len()
        invariant
            i <= v.len(),
            out@ == v@.take(i as int),
        decreases v.len() - i,
    {
        out.push(v[i]);
        i += 1;
    }
    assert(v@.take(v.len() as int) =~= v@);
    out
}

} // verus!
