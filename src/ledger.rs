use vstd::prelude::*;
use crate::string_map::StringMap;
use crate::text::opt_view;

verus! {

/// The ledger after looking up `state`, and what was found: a found entry is
/// removed in the same step.
pub open spec fn ledger_take(m: Map<Seq<char>, Seq<char>>, state: Seq<char>) -> (Map<Seq<char>, Seq<char>>, Option<Seq<char>>) {
    if m.contains_key(state) {
        (m.remove(state), Some(m[state]))
    } else {
        (m, None)
    }
}

/// CSRF states of authorizations in progress, each with its PKCE verifier.
/// Lives in memory only; each entry can be read once.
pub struct CsrfPkceLedger {
    entries: StringMap<String>,
}

impl View for CsrfPkceLedger {
    type V = Map<Seq<char>, Seq<char>>;

    closed spec fn view(&self) -> Map<Seq<char>, Seq<char>> {
        self.entries@.map_values(|v: String| v@)
    }
}

impl CsrfPkceLedger {
    pub closed spec fn wf(&self) -> bool {
        self.entries.wf()
    }

    pub fn new() -> (l: Self)
        ensures
            l.wf(),
            l@ == Map::<Seq<char>, Seq<char>>::empty(),
    {
        let l = CsrfPkceLedger { entries: StringMap::new() };
        assert(l@ =~= Map::<Seq<char>, Seq<char>>::empty());
        l
    }

    /// Number of authorizations in progress.
    pub fn len(&self) -> (n: usize)
        requires
            self.wf(),
        ensures
            n == self@.dom().len(),
    {
        assert(self@.dom() =~= self.entries@.dom());
        self.entries.len()
    }

    /// Whether `state` is awaiting its callback.
    pub fn contains(&self, state: &String) -> (b: bool)
        requires
            self.wf(),
        ensures
            b == self@.contains_key(state@),
    {
        self.entries.contains_key(state)
    }

    /// Files `verifier` under `state`.
    pub fn insert(&mut self, state: String, verifier: String)
        requires
            old(self).wf(),
        ensures
            final(self).wf(),
            final(self)@ == old(self)@.insert(state@, verifier@),
    {
        let ghost (s, v) = (state@, verifier@);
        self.entries.insert(state, verifier);
        assert(self@ =~= old(self)@.insert(s, v));
    }

    /// Looks up `state` and removes it in one step, handing back its verifier.
    pub fn take(&mut self, state: &String) -> (r: Option<String>)
        requires
            old(self).wf(),
        ensures
            final(self).wf(),
            (final(self)@, opt_view(r)) == ledger_take(old(self)@, state@),
    {
        let r = self.entries.remove(state);
        assert(self@ =~= ledger_take(old(self)@, state@).0);
        r
    }
}

} // verus!
