//! A memory optimization for storing large numbers of potentially repetitive
//! strings: each distinct string is assigned a small integer identifier, and
//! only the identifiers are stored elsewhere.
//!
//! Identifiers start at 1 (never 0), are handed out sequentially in
//! first-seen order, and are never reused, so "no identifier" can be encoded
//! cheaply by the caller.

use vstd::prelude::*;

verus! {

/// True when no two positions of the table hold equal strings.
pub open spec fn table_distinct(table: Seq<Seq<char>>) -> bool {
    forall|i: int, j: int|
        0 <= i < table.len() && 0 <= j < table.len() && i != j ==> table[i] != table[j]
}

/// Identifier handed out by a [`StringLookupBuilder`] for one interned
/// string. Its view is the raw integer value, which is always at least 1.
#[derive(Debug, Hash, Eq, PartialEq, Copy, Clone, PartialOrd, Ord, Structural)]
pub struct LookupId {
    id: u32,
}

impl View for LookupId {
    type V = u32;

    closed spec fn view(&self) -> u32 {
        self.id
    }
}

impl LookupId {
    /// The raw integer behind the identifier.
    pub fn value(&self) -> (v: u32)
        ensures
            v == self@,
    {
        self.id
    }
}

/// The immutable snapshot of an interner: resolves identifiers back to the
/// strings they were minted for. Its view is the interned strings in
/// first-seen order; identifier `i` denotes the string at position `i - 1`.
pub struct StringLookup {
    strings: Vec<String>,
}

impl View for StringLookup {
    type V = Seq<Seq<char>>;

    closed spec fn view(&self) -> Seq<Seq<char>> {
        self.strings@.map_values(|s: String| s@)
    }
}

impl StringLookup {
    /// True when `id` was minted by this table's builder.
    pub open spec fn contains_id(&self, id: LookupId) -> bool {
        1 <= id@ && id@ <= self@.len()
    }

    /// Resolves an identifier to its string. Resolving an identifier that
    /// was not minted by this table's builder is a contract violation, not
    /// a runtime input: identifiers never cross table boundaries.
    pub fn get(&self, id: LookupId) -> (r: &str)
        requires
            self.contains_id(id),
        ensures
            r@ == self@[id@ as int - 1],
    {
        proof {
            assert(self@.len() == self.strings@.len());
        }
        self.strings[(id.id - 1) as usize].as_str()
    }
}

/// The mutable build-phase side of the interner: deduplicates strings and
/// mints fresh identifiers for strings never seen before. Its view is the
/// interned strings in first-seen order.
pub struct StringLookupBuilder {
    strings: Vec<String>,
    next_id: u32,
}

impl View for StringLookupBuilder {
    type V = Seq<Seq<char>>;

    closed spec fn view(&self) -> Seq<Seq<char>> {
        self.strings@.map_values(|s: String| s@)
    }
}

impl StringLookupBuilder {
    /// Internal consistency: the next identifier to mint is one past the
    /// number of strings seen, and no string is stored twice.
    pub closed spec fn wf(&self) -> bool {
        &&& self.next_id as nat == self.strings@.len() + 1
        &&& table_distinct(self@)
    }

    /// A well-formed builder never holds duplicate strings.
    pub proof fn lemma_wf_distinct(&self)
        requires
            self.wf(),
        ensures
            table_distinct(self@),
    {
    }

    pub fn new() -> (r: Self)
        ensures
            r.wf(),
            r@ == Seq::<Seq<char>>::empty(),
    {
        let r = Self { strings: Vec::new(), next_id: 1 };
        proof {
            assert(r@ =~= Seq::<Seq<char>>::empty());
        }
        r
    }

    /// Mints the next identifier without recording any string; the caller
    /// must store the string for it to keep the builder well-formed.
    fn get_next_id(&mut self) -> (id: LookupId)
        requires
            old(self).next_id < u32::MAX,
        ensures
            id@ == old(self).next_id,
            final(self).next_id == old(self).next_id + 1,
            final(self).strings == old(self).strings,
    {
        let id = self.next_id;
        self.next_id = self.next_id + 1;
        LookupId { id }
    }

    /// Returns the identifier for `string`, minting a fresh one (the next
    /// integer, in first-seen order) if the string was never seen by this
    /// builder. Equal strings always receive equal identifiers.
    ///
    /// The length bound keeps the identifier space from being exhausted;
    /// exhaustion is a fatal construction-time failure, never a per-request
    /// condition.
    pub fn get_id(&mut self, string: &str) -> (id: LookupId)
        requires
            old(self).wf(),
            old(self)@.len() + 1 < u32::MAX as nat,
        ensures
            final(self).wf(),
            1 <= id@ && id@ <= final(self)@.len(),
            final(self)@[id@ as int - 1] == string@,
            old(self)@.contains(string@) ==> final(self)@ == old(self)@,
            !old(self)@.contains(string@) ==> final(self)@ == old(self)@.push(string@)
                && id@ as nat == old(self)@.len() + 1,
    {
        let owned: String = string.to_owned();
        let n = self.strings.len();
        proof {
            assert(self@.len() == self.strings@.len());
        }
        let mut i: usize = 0;
        while i < n
            invariant
                *self == *old(self),
                self.wf(),
                owned@ == string@,
                n == self.strings@.len(),
                self@.len() == self.strings@.len(),
                i <= n,
                forall|j: int| 0 <= j < i ==> self@[j] != string@,
            decreases n - i,
        {
            if self.strings[i] == owned {
                proof {
                    assert(self@[i as int] == string@);
                }
                return LookupId { id: (i as u32) + 1 };
            }
            i = i + 1;
        }
        proof {
            assert(forall|j: int| 0 <= j < self@.len() ==> self@[j] != string@);
            assert(!self@.contains(string@));
        }
        let id = self.get_next_id();
        self.strings.push(owned);
        proof {
            let prior = old(self)@;
            assert(self@ =~= prior.push(string@));
            assert(forall|j: int| 0 <= j < prior.len() ==> self@[j] == prior[j]);
            assert(table_distinct(self@));
        }
        id
    }

    /// Snapshots the builder into the immutable table; no identifier can be
    /// minted afterwards. Every identifier the builder handed out resolves
    /// in the snapshot to exactly the string it was minted for.
    pub fn build(self) -> (r: StringLookup)
        ensures
            r@ == self@,
            self.wf() ==> table_distinct(r@),
    {
        StringLookup { strings: self.strings }
    }
}

/// Law: within one well-formed table, identifiers are in bijection with the
/// interned strings — two positions resolve to the same string only if they
/// are the same position, so two identifiers minted for distinct strings
/// always differ, and identifiers minted for equal strings always coincide.
pub proof fn lemma_interned_ids_unique(table: Seq<Seq<char>>, i: int, j: int)
    requires
        table_distinct(table),
        0 <= i < table.len(),
        0 <= j < table.len(),
        table[i] == table[j],
    ensures
        i == j,
{
}

} // verus!
