//! Variations: the cache of those already read, and the walk along an
//! inheritance chain.

use vstd::prelude::*;
use crate::ccdb::index::{get_id, get_text, id_key, index_entries, index_get, index_insert, index_new, put_id, put_text, text_key, Index};
use crate::ccdb::error::CCDBError;
use crate::ccdb::models::VariationMeta;
use crate::Id;

verus! {

/// The place of the last of the first `n` variations called `name`, or -1.
pub open spec fn variation_index(variations: Seq<VariationMeta>, name: Seq<char>, n: nat) -> int
    decreases n,
{
    if n == 0 || n > variations.len() {
        -1
    } else if variations[n - 1].name@ == name {
        n - 1
    } else {
        variation_index(variations, name, (n - 1) as nat)
    }
}

/// The place of the last of the first `n` identifiers that equals `id`, or
/// -1.
pub open spec fn start_index(starts: Seq<Id>, id: Id, n: nat) -> int
    decreases n,
{
    if n == 0 || n > starts.len() {
        -1
    } else if starts[n - 1] == id {
        n - 1
    } else {
        start_index(starts, id, (n - 1) as nat)
    }
}

proof fn lemma_cache_indices(variations: Seq<VariationMeta>, starts: Seq<Id>, name: Seq<char>, id: Id, n: nat)
    ensures
        -1 <= variation_index(variations, name, n) < variations.len(),
        variation_index(variations, name, n) >= 0 ==> variations[variation_index(variations, name, n)].name@
            == name,
        -1 <= start_index(starts, id, n) < starts.len(),
        start_index(starts, id, n) >= 0 ==> starts[start_index(starts, id, n)] == id,
    decreases n,
{
    if n > 0 {
        lemma_cache_indices(variations, starts, name, id, (n - 1) as nat);
    }
}

proof fn lemma_index_of_longer(variations: Seq<VariationMeta>, more: VariationMeta, name: Seq<char>, n: nat)
    requires
        n <= variations.len(),
    ensures
        variation_index(variations.push(more), name, n) == variation_index(variations, name, n),
    decreases n,
{
    if n > 0 {
        lemma_index_of_longer(variations, more, name, (n - 1) as nat);
    }
}

proof fn lemma_start_of_longer(starts: Seq<Id>, next: Id, id: Id, n: nat)
    requires
        n <= starts.len(),
    ensures
        start_index(starts.push(next), id, n) == start_index(starts, id, n),
    decreases n,
{
    if n > 0 {
        lemma_start_of_longer(starts, next, id, (n - 1) as nat);
    }
}

spec fn names_match(m: Index, variations: Seq<VariationMeta>) -> bool {
    forall|name: Seq<char>|
        (#[trigger] index_entries(m).contains_key(text_key(name)) <==> variation_index(
            variations,
            name,
            variations.len(),
        ) >= 0) && (index_entries(m).contains_key(text_key(name)) ==> index_entries(m)[text_key(name)]
            == variation_index(variations, name, variations.len()))
}

spec fn starts_match(m: Index, starts: Seq<Id>) -> bool {
    forall|id: i64|
        (#[trigger] index_entries(m).contains_key(id_key(id)) <==> start_index(starts, id, starts.len())
            >= 0) && (index_entries(m).contains_key(id_key(id)) ==> index_entries(m)[id_key(id)]
            == start_index(starts, id, starts.len()))
}

/// The variations and inheritance chains that were read already.
pub struct VariationCache {
    variations: Vec<VariationMeta>,
    by_name: Index,
    starts: Vec<Id>,
    chains: Vec<Vec<VariationMeta>>,
    by_start: Index,
}

impl VariationCache {
    #[verifier::type_invariant]
    spec fn indexed(self) -> bool {
        &&& self.starts@.len() == self.chains@.len()
        &&& names_match(self.by_name, self.variations@)
        &&& starts_match(self.by_start, self.starts@)
    }

    /// The variations in the order in which they were remembered.
    pub closed spec fn variations(&self) -> Seq<VariationMeta> {
        self.variations@
    }

    /// The first variations of the remembered chains, by identifier.
    pub closed spec fn starts(&self) -> Seq<Id> {
        self.starts@
    }

    /// The remembered chains, in the order of [`Self::starts`].
    pub closed spec fn chains(&self) -> Seq<Vec<VariationMeta>> {
        self.chains@
    }

    /// The variation remembered under `name`: the last of that name.
    pub open spec fn known_variation(&self, name: Seq<char>) -> Option<VariationMeta> {
        let at = variation_index(self.variations(), name, self.variations().len());
        if at >= 0 {
            Some(self.variations()[at])
        } else {
            None
        }
    }

    /// The chain remembered for the variation with identifier `id`: the
    /// last for that identifier.
    pub open spec fn known_chain(&self, id: Id) -> Option<Vec<VariationMeta>> {
        let at = start_index(self.starts(), id, self.starts().len());
        if at >= 0 {
            Some(self.chains()[at])
        } else {
            None
        }
    }

    /// A cache that remembers nothing.
    pub fn new() -> (c: VariationCache)
        ensures
            c.variations().len() == 0,
            c.starts().len() == 0,
            c.chains().len() == 0,
    {
        VariationCache {
            variations: Vec::new(),
            by_name: index_new(),
            starts: Vec::new(),
            chains: Vec::new(),
            by_start: index_new(),
        }
    }

    /// The variation remembered under `name`.
    pub fn variation(&self, name: &str) -> (r: Option<&VariationMeta>)
        ensures
            match self.known_variation(name@) {
                Some(v) => r matches Some(found) && *found == v,
                None => r is None,
            },
    {
        proof {
            use_type_invariant(self);
            lemma_cache_indices(self.variations@, self.starts@, name@, 0, self.variations@.len());
        }
        assert(index_entries(self.by_name).contains_key(text_key(name@)) <==> variation_index(
            self.variations@,
            name@,
            self.variations@.len(),
        ) >= 0);
        match get_text(&self.by_name, name) {
            Some(at) => Some(&self.variations[at]),
            None => None,
        }
    }

    /// Remembers a variation under its name.
    pub fn remember_variation(self, variation: VariationMeta) -> (c: VariationCache)
        ensures
            c.variations() == self.variations().push(variation),
            c.starts() == self.starts(),
            c.chains() == self.chains(),
    {
        proof {
            use_type_invariant(&self);
        }
        let ghost before = self;
        let VariationCache { variations, by_name, starts, chains, by_start } = self;
        assert(names_match(by_name, variations@) && starts_match(by_start, starts@)) by {
            assert(by_name == before.by_name && variations == before.variations);
            assert(by_start == before.by_start && starts == before.starts);
        }
        let mut variations = variations;
        let mut by_name = by_name;
        let at = variations.len();
        let name = variation.name.clone();
        let ghost old_variations = variations@;
        variations.push(variation);
        put_text(&mut by_name, name, at);
        proof {
            assert forall|n: Seq<char>|
                (#[trigger] index_entries(by_name).contains_key(text_key(n)) <==> variation_index(
                    variations@,
                    n,
                    variations@.len(),
                ) >= 0) && (index_entries(by_name).contains_key(text_key(n)) ==> index_entries(
                    by_name,
                )[text_key(n)] == variation_index(variations@, n, variations@.len())) by {
                lemma_index_of_longer(old_variations, variation, n, old_variations.len());
                lemma_cache_indices(old_variations, starts@, n, 0, old_variations.len());
                assert(index_entries(before.by_name).contains_key(text_key(n)) <==> variation_index(
                    old_variations,
                    n,
                    old_variations.len(),
                ) >= 0);
            }
        }
        VariationCache { variations, by_name, starts, chains, by_start }
    }

    /// The chain remembered for the variation with identifier `id`.
    pub fn chain(&self, id: Id) -> (r: Option<&Vec<VariationMeta>>)
        ensures
            match self.known_chain(id) {
                Some(chain) => r matches Some(found) && *found == chain,
                None => r is None,
            },
    {
        proof {
            use_type_invariant(self);
            lemma_cache_indices(self.variations@, self.starts@, Seq::<char>::empty(), id, self.starts@.len());
        }
        assert(index_entries(self.by_start).contains_key(id_key(id)) <==> start_index(
            self.starts@,
            id,
            self.starts@.len(),
        ) >= 0);
        match get_id(&self.by_start, id) {
            Some(at) => Some(&self.chains[at]),
            None => None,
        }
    }

    /// Remembers the chain that begins with the variation of identifier
    /// `id`.
    pub fn remember_chain(self, id: Id, chain: Vec<VariationMeta>) -> (c: VariationCache)
        ensures
            c.variations() == self.variations(),
            c.starts() == self.starts().push(id),
            c.chains() == self.chains().push(chain),
    {
        proof {
            use_type_invariant(&self);
        }
        let ghost before = self;
        let VariationCache { variations, by_name, starts, chains, by_start } = self;
        assert(names_match(by_name, variations@) && starts_match(by_start, starts@)) by {
            assert(by_name == before.by_name && variations == before.variations);
            assert(by_start == before.by_start && starts == before.starts);
        }
        assert(starts@.len() == chains@.len()) by {
            assert(chains == before.chains && starts == before.starts);
        }
        let mut starts = starts;
        let mut chains = chains;
        let mut by_start = by_start;
        let at = starts.len();
        let ghost old_starts = starts@;
        starts.push(id);
        chains.push(chain);
        put_id(&mut by_start, id, at);
        proof {
            assert forall|x: i64|
                (#[trigger] index_entries(by_start).contains_key(id_key(x)) <==> start_index(
                    starts@,
                    x,
                    starts@.len(),
                ) >= 0) && (index_entries(by_start).contains_key(id_key(x)) ==> index_entries(
                    by_start,
                )[id_key(x)] == start_index(starts@, x, starts@.len())) by {
                lemma_start_of_longer(old_starts, id, x, old_starts.len());
                lemma_cache_indices(variations@, old_starts, Seq::<char>::empty(), x, old_starts.len());
                assert(index_entries(before.by_start).contains_key(id_key(x)) <==> start_index(
                    old_starts,
                    x,
                    old_starts.len(),
                ) >= 0);
            }
        }
        VariationCache { variations, by_name, starts, chains, by_start }
    }
}

/// The longest inheritance chain that is followed. A database whose
/// variations form a cycle would otherwise never end the walk.
pub const MAX_CHAIN_LENGTH: usize = 1024;

/// The walk from a variation up its chain of parents. The walk asks for
/// one parent at a time; who runs it looks the parent up and hands it in.
pub struct ChainWalk {
    chain: Vec<VariationMeta>,
    open: bool,
}

impl ChainWalk {
    #[verifier::type_invariant]
    spec fn begun(self) -> bool {
        1 <= self.chain@.len() <= MAX_CHAIN_LENGTH
    }

    /// The variations walked so far, the most specific first.
    pub closed spec fn links(&self) -> Seq<VariationMeta> {
        self.chain@
    }

    /// Whether the walk has not yet been told that a parent is missing.
    pub closed spec fn is_open(&self) -> bool {
        self.open
    }

    /// The identifier of the parent that the walk needs next, if it needs
    /// one: the walk is open, the last variation has a parent, and the
    /// chain is not yet of the greatest length.
    pub open spec fn wanted(&self) -> Option<Id> {
        if self.is_open() && self.links().len() >= 1 && self.links().last().parent_id > 0
            && self.links().len() < MAX_CHAIN_LENGTH {
            Some(self.links().last().parent_id)
        } else {
            None
        }
    }

    /// Begins the walk at `start`.
    pub fn start(start: VariationMeta) -> (w: ChainWalk)
        ensures
            w.links() == seq![start],
            w.is_open(),
    {
        let mut chain: Vec<VariationMeta> = Vec::new();
        chain.push(start);
        ChainWalk { chain, open: true }
    }

    /// The identifier of the parent to look up next; `None` when the walk
    /// is over.
    pub fn next_parent(&self) -> (r: Option<Id>)
        ensures
            r == self.wanted(),
    {
        proof {
            use_type_invariant(self);
        }
        let last = &self.chain[self.chain.len() - 1];
        if self.open && last.parent_id > 0 && self.chain.len() < MAX_CHAIN_LENGTH {
            Some(last.parent_id)
        } else {
            None
        }
    }

    /// Hands in what the lookup of the wanted parent found. A parent that
    /// was found is the next link; a missing one ends the walk. Where no
    /// parent was wanted, nothing changes.
    pub fn supply(self, found: Option<VariationMeta>) -> (w: ChainWalk)
        ensures
            self.wanted() is None ==> w.links() == self.links() && w.is_open() == self.is_open(),
            self.wanted() is Some ==> match found {
                Some(parent) => w.links() == self.links().push(parent) && w.is_open(),
                None => w.links() == self.links() && !w.is_open(),
            },
    {
        proof {
            use_type_invariant(&self);
        }
        if self.next_parent().is_none() {
            return self;
        }
        let ChainWalk { chain, open } = self;
        let mut chain = chain;
        match found {
            Some(parent) => {
                chain.push(parent);
                ChainWalk { chain, open: true }
            },
            None => ChainWalk { chain, open: false },
        }
    }

    /// The chain that was walked, the most specific variation first.
    pub fn finish(self) -> (chain: Vec<VariationMeta>)
        ensures
            chain@ == self.links(),
            chain@.len() >= 1,
    {
        proof {
            use_type_invariant(&self);
        }
        self.chain
    }
}

/// What the lookup of the variation `name` comes to: the variation that
/// was found, or the error that names the variation that is missing.
pub fn found_variation(name: &str, found: Option<VariationMeta>) -> (r: Result<VariationMeta, CCDBError>)
    ensures
        match found {
            Some(v) => r == Ok::<VariationMeta, CCDBError>(v),
            None => r matches Err(CCDBError::VariationNotFoundError(text)) && text@ == name@,
        },
{
    match found {
        Some(v) => Ok(v),
        None => Err(CCDBError::VariationNotFoundError(name.to_owned())),
    }
}

} // verus!
