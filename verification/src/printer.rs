//! The structured printer: the append-only output buffer, the chain of
//! ancestor tag names (innermost last), and the per-depth count of item
//! elements already processed. The buffer is a sequence of characters, so
//! every offset used by the handlers lands on a character boundary.

use std::collections::HashMap;
use vstd::prelude::*;

verus! {

broadcast use vstd::std_specs::hash::group_hash_axioms;

/// The view of an ancestor chain: each tag name as a character sequence.
pub open spec fn chain_view(chain: Seq<String>) -> Seq<Seq<char>> {
    chain.map_values(|t: String| t@)
}

/// Output buffer and rendering state shared by the handlers. The
/// dispatch mechanism that walks the markup tree owns `parent_chain`
/// (pushing a tag before descending into its children) and `siblings`
/// (incrementing a depth's count after an item at that depth completes);
/// the handlers only read those two.
pub struct StructuredPrinter {
    /// The rendered text.
    pub data: Vec<char>,
    /// Tag names of the ancestors of the current node, outermost first.
    pub parent_chain: Vec<String>,
    /// For each nesting depth, how many item elements have already been
    /// fully processed at that depth.
    pub siblings: HashMap<usize, usize>,
}

impl StructuredPrinter {
    /// An empty printer: no output, no ancestors, no sibling counts.
    pub fn new() -> (p: StructuredPrinter)
        ensures
            p.data@ == Seq::<char>::empty(),
            p.parent_chain@ == Seq::<String>::empty(),
            p.siblings@ == Map::<usize, usize>::empty(),
    {
        StructuredPrinter { data: Vec::new(), parent_chain: Vec::new(), siblings: HashMap::new() }
    }

    /// Appends one newline to the output.
    pub fn insert_newline(&mut self)
        ensures
            final(self).data@ == old(self).data@ + seq!['\n'],
            final(self).parent_chain == old(self).parent_chain,
            final(self).siblings == old(self).siblings,
    {
        self.data.push('\n');
        assert(final(self).data@ =~= old(self).data@ + seq!['\n']);
    }

    /// Appends the characters of `s` to the output.
    pub fn append_str(&mut self, s: &str)
        ensures
            final(self).data@ == old(self).data@ + s@,
            final(self).parent_chain == old(self).parent_chain,
            final(self).siblings == old(self).siblings,
    {
        let ghost orig = self.data@;
        let n = s.unicode_len();
        let mut i: usize = 0;
        while i < n
            invariant
                i <= n,
                n == s@.len(),
                self.data@ == orig + s@.take(i as int),
                self.parent_chain == old(self).parent_chain,
                self.siblings == old(self).siblings,
            decreases n - i,
        {
            let c = s.get_char(i);
            self.data.push(c);
            i += 1;
            assert(self.data@ =~= orig + s@.take(i as int));
        }
        assert(self.data@ =~= orig + s@);
    }
}

} // verus!
