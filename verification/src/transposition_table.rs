//! The transposition table: for each position the best result that a
//! search has found for it so far, kept by depth and dropped by age.
//!
//! The entries live in a `dashmap::DashMap`. Every operation that changes
//! the table takes it by `&mut`, so that its contract can say what the table
//! holds before and after; [`TableState`] is that content as a mathematical
//! value, and every rule of the table is a function on it.

use crate::position::Move;
use cozy_chess::Board;
use dashmap::DashMap;
use vstd::prelude::*;

verus! {

/// `dashmap::DashMap`, as a type whose values the verifier cannot look
/// into.
#[verifier::external_type_specification]
#[verifier::external_body]
#[verifier::reject_recursive_types(K)]
#[verifier::reject_recursive_types(V)]
#[verifier::reject_recursive_types(S)]
pub struct ExDashMap<K, V, S>(DashMap<K, V, S>);

/// How the score of an entry bounds the true value of its position.
#[derive(Debug, PartialEq, Eq, Clone, Copy, Structural)]
pub enum NodeType {
    /// The score is exact.
    PV,
    /// No move raised alpha: the score is an upper bound.
    All,
    /// A move reached beta: the score is a lower bound.
    Cut,
}

/// What the table knows about one position.
#[derive(Debug, Clone, Copy)]
pub struct TableEntry {
    pub best_response: Move,
    pub depth: u32,
    pub score: i32,
    pub node: NodeType,
    pub age: i32,
}

impl TableEntry {
    /// The score can be negated: it is not `i32::MIN`.
    pub open spec fn wf(self) -> bool {
        self.score > i32::MIN
    }
}

/// The answer of a lookup.
#[derive(Debug, PartialEq, Eq)]
pub enum ProbeResult {
    /// The position is not in the table.
    Miss,
    /// The position is in the table, but its score cannot stand in for a
    /// search; its move is worth trying first.
    OrderingHint(Move),
    /// The entry is deep and tight enough to stand in for a search.
    SearchResult(Move, i32),
}

/// The largest number of entries a table made by [`TranspositionTable::new`]
/// is meant to hold.
pub const MAX_SIZE: usize = 42_000_000;

/// What a lookup answers, given the entry stored for the position, if any.
pub open spec fn probe_of(stored: Option<TableEntry>, search_depth: u32, alpha: i32, beta: i32)
    -> ProbeResult {
    match stored {
        None => ProbeResult::Miss,
        Some(e) => if e.depth < search_depth {
            ProbeResult::OrderingHint(e.best_response)
        } else {
            match e.node {
                NodeType::PV => ProbeResult::SearchResult(e.best_response, e.score),
                NodeType::All => if e.score <= alpha {
                    ProbeResult::SearchResult(e.best_response, alpha)
                } else {
                    ProbeResult::OrderingHint(e.best_response)
                },
                NodeType::Cut => if e.score >= beta {
                    ProbeResult::SearchResult(e.best_response, beta)
                } else {
                    ProbeResult::OrderingHint(e.best_response)
                },
            }
        },
    }
}

/// An entry one search cycle later. An age that has reached `i32::MAX`
/// stays there.
pub open spec fn aged_entry(e: TableEntry) -> TableEntry {
    TableEntry {
        best_response: e.best_response,
        depth: e.depth,
        score: e.score,
        node: e.node,
        age: if e.age < i32::MAX { (e.age + 1) as i32 } else { e.age },
    }
}

/// An entry is fresh while its age does not exceed the oldest acceptable
/// age.
pub open spec fn is_fresh(e: TableEntry, oldest: i32) -> bool {
    e.age <= oldest
}

/// An entry is stale when its age exceeds the oldest acceptable age.
pub open spec fn is_stale(e: TableEntry, oldest: i32) -> bool {
    !is_fresh(e, oldest)
}

/// The oldest acceptable age after one step up; it wraps around.
pub open spec fn generation_after(oldest: i32) -> i32 {
    if oldest == i32::MAX { i32::MIN } else { (oldest + 1) as i32 }
}

/// The map without entries.
pub open spec fn no_entries() -> Map<Board, TableEntry> {
    Map::empty()
}

/// The same keys, each with its entry one search cycle later.
pub open spec fn aged_entries(entries: Map<Board, TableEntry>) -> Map<Board, TableEntry> {
    Map::new(|k: Board| entries.contains_key(k), |k: Board| aged_entry(entries[k]))
}

/// The entries that are not stale with respect to `oldest`.
pub open spec fn fresh_entries(entries: Map<Board, TableEntry>, oldest: i32) -> Map<
    Board,
    TableEntry,
> {
    Map::new(
        |k: Board| entries.contains_key(k) && is_fresh(entries[k], oldest),
        |k: Board| entries[k],
    )
}

/// The content of a table: its entries, the oldest acceptable age, and the
/// number of entries it is meant to hold.
pub struct TableState {
    pub entries: Map<Board, TableEntry>,
    pub oldest: i32,
    pub ceiling: usize,
}

impl TableState {
    /// A table with no entries.
    pub open spec fn empty(ceiling: usize) -> TableState {
        TableState { entries: no_entries(), oldest: 0, ceiling }
    }

    /// The entry stored for `pos`, if any.
    pub open spec fn lookup(self, pos: Board) -> Option<TableEntry> {
        self.entries.get(pos)
    }

    /// The answer of a lookup of `pos`.
    pub open spec fn probe(self, pos: Board, search_depth: u32, alpha: i32, beta: i32)
        -> ProbeResult {
        probe_of(self.lookup(pos), search_depth, alpha, beta)
    }

    /// The table one search cycle later: every entry is one older, and so is
    /// the oldest acceptable age.
    pub open spec fn aged(self) -> TableState {
        TableState {
            entries: aged_entries(self.entries),
            oldest: generation_after(self.oldest),
            ceiling: self.ceiling,
        }
    }

    /// The table after an eviction pass: the stale entries are gone, and the
    /// oldest acceptable age is one more than it was, so that the next pass
    /// does not go on to empty the table.
    pub open spec fn pruned(self) -> TableState {
        TableState {
            entries: fresh_entries(self.entries, self.oldest),
            oldest: generation_after(self.oldest),
            ceiling: self.ceiling,
        }
    }

    /// One more entry would reach the ceiling.
    pub open spec fn under_pressure(self) -> bool {
        self.entries.len() + 1 >= self.ceiling
    }

    /// The table takes `entry` for `pos`: the position is new to it, or the
    /// entry it has is no deeper.
    pub open spec fn accepts(self, pos: Board, entry: TableEntry) -> bool {
        !self.entries.contains_key(pos) || self.entries[pos].depth <= entry.depth
    }

    /// The table with `entry` stored for `pos` if it accepts it.
    pub open spec fn stored(self, pos: Board, entry: TableEntry) -> TableState {
        if self.accepts(pos, entry) {
            TableState {
                entries: self.entries.insert(pos, entry),
                oldest: self.oldest,
                ceiling: self.ceiling,
            }
        } else {
            self
        }
    }

    /// The table after an insertion: an eviction pass if the table is under
    /// pressure, then depth-preferred replacement.
    pub open spec fn inserted(self, pos: Board, entry: TableEntry) -> TableState {
        if self.under_pressure() {
            self.pruned().stored(pos, entry)
        } else {
            self.stored(pos, entry)
        }
    }

    /// The table holds finitely many entries, each with a score that can
    /// be negated.
    pub open spec fn wf(self) -> bool {
        &&& self.entries.dom().finite()
        &&& forall|pos: Board| #[trigger]
            self.entries.contains_key(pos) ==> self.entries[pos].wf()
    }
}

/// The entries of a `DashMap`, as a mathematical map. Two boards are one
/// key where `cozy_chess` compares them equal, which it does field by
/// field.
pub uninterp spec fn entries_of(map: DashMap<Board, TableEntry>) -> Map<Board, TableEntry>;

/// A map without entries.
///
/// Trusted: `DashMap::new` returns a map without entries.
#[verifier::external_body]
fn map_new() -> (map: DashMap<Board, TableEntry>)
    ensures
        entries_of(map) == no_entries(),
{
    DashMap::new()
}

/// A copy of the entry stored for `pos`.
///
/// Trusted: `DashMap::get` finds the value last inserted under a key equal
/// to `pos`, and nothing where there is none.
#[verifier::external_body]
fn map_get(map: &DashMap<Board, TableEntry>, pos: &Board) -> (found: Option<TableEntry>)
    ensures
        found == entries_of(*map).get(*pos),
{
    map.get(pos).map(|stored| *stored)
}

/// Stores `entry` for a copy of `pos`, in place of any entry it had.
///
/// Trusted: `DashMap::insert` sets the value of the key and leaves every
/// other key as it was.
#[verifier::external_body]
fn map_insert(map: &mut DashMap<Board, TableEntry>, pos: &Board, entry: TableEntry)
    ensures
        entries_of(*final(map)) == entries_of(*old(map)).insert(*pos, entry),
{
    map.insert(pos.clone(), entry);
}

/// The number of entries.
///
/// Trusted: `DashMap::len` is the number of keys.
#[verifier::external_body]
fn map_len(map: &DashMap<Board, TableEntry>) -> (n: usize)
    requires
        entries_of(*map).dom().finite(),
    ensures
        n == entries_of(*map).len(),
{
    map.len()
}

/// Ages every entry.
///
/// Trusted: `DashMap::alter_all` replaces the value of each key by what the
/// closure returns for it, and changes no key.
#[verifier::external_body]
fn map_age_all(map: &mut DashMap<Board, TableEntry>)
    ensures
        entries_of(*final(map)) == aged_entries(entries_of(*old(map))),
{
    map.alter_all(|_, stored| age_entry(stored));
}

/// Drops the entries that are stale with respect to `oldest`.
///
/// Trusted: `DashMap::retain` keeps exactly the keys for whose value the
/// closure returns `true`, with their values.
#[verifier::external_body]
fn map_drop_stale(map: &mut DashMap<Board, TableEntry>, oldest: i32)
    ensures
        entries_of(*final(map)) == fresh_entries(entries_of(*old(map)), oldest),
{
    map.retain(|_, stored| fresh(stored, oldest));
}

/// What a lookup answers, given the entry stored for the position, if any.
pub fn probe_entry(stored: Option<TableEntry>, search_depth: u32, alpha: i32, beta: i32) -> (r:
    ProbeResult)
    ensures
        r == probe_of(stored, search_depth, alpha, beta),
{
    match stored {
        None => ProbeResult::Miss,
        Some(e) => {
            if e.depth < search_depth {
                ProbeResult::OrderingHint(e.best_response)
            } else {
                match e.node {
                    NodeType::PV => ProbeResult::SearchResult(e.best_response, e.score),
                    NodeType::All => {
                        if e.score <= alpha {
                            ProbeResult::SearchResult(e.best_response, alpha)
                        } else {
                            ProbeResult::OrderingHint(e.best_response)
                        }
                    },
                    NodeType::Cut => {
                        if e.score >= beta {
                            ProbeResult::SearchResult(e.best_response, beta)
                        } else {
                            ProbeResult::OrderingHint(e.best_response)
                        }
                    },
                }
            }
        },
    }
}

/// The entry one search cycle later.
pub fn age_entry(e: TableEntry) -> (r: TableEntry)
    ensures
        r == aged_entry(e),
{
    TableEntry {
        best_response: e.best_response,
        depth: e.depth,
        score: e.score,
        node: e.node,
        age: if e.age < i32::MAX { e.age + 1 } else { e.age },
    }
}

/// Whether the age of an entry does not exceed the oldest acceptable age.
pub fn fresh(e: &TableEntry, oldest: i32) -> (r: bool)
    ensures
        r == is_fresh(*e, oldest),
{
    e.age <= oldest
}

/// A table of search results by position.
///
/// Any number of threads may look positions up in a table at the same
/// time. A table can be changed only by who holds it alone.
pub struct TranspositionTable {
    table: DashMap<Board, TableEntry>,
    oldest_entry: i32,
    ceiling: usize,
}

impl View for TranspositionTable {
    type V = TableState;

    closed spec fn view(&self) -> TableState {
        TableState {
            entries: entries_of(self.table),
            oldest: self.oldest_entry,
            ceiling: self.ceiling,
        }
    }
}

impl TranspositionTable {
    /// The table holds finitely many entries, each with a score that can
    /// be negated. Every table made by this module does, and every
    /// operation keeps it so.
    pub open spec fn wf(&self) -> bool {
        self@.wf()
    }

    /// An empty table with the default ceiling.
    pub fn new() -> (t: Self)
        ensures
            t@ == TableState::empty(MAX_SIZE),
            t.wf(),
    {
        Self { table: map_new(), oldest_entry: 0, ceiling: MAX_SIZE }
    }

    /// An empty table that starts evicting when it is about to hold
    /// `ceiling` entries.
    pub fn with_ceiling(ceiling: usize) -> (t: Self)
        ensures
            t@ == TableState::empty(ceiling),
            t.wf(),
    {
        Self { table: map_new(), oldest_entry: 0, ceiling }
    }

    /// The number of entries.
    pub fn len(&self) -> (n: usize)
        requires
            self.wf(),
        ensures
            n == self@.entries.len(),
    {
        map_len(&self.table)
    }

    /// The number of entries at which the table starts evicting.
    pub fn ceiling(&self) -> (n: usize)
        ensures
            n == self@.ceiling,
    {
        self.ceiling
    }

    /// The oldest acceptable age: an entry older than this is stale.
    pub fn oldest_acceptable_age(&self) -> (age: i32)
        ensures
            age == self@.oldest,
    {
        self.oldest_entry
    }

    /// A copy of the entry stored for `pos`, if there is one.
    pub fn lookup(&self, pos: &Board) -> (found: Option<TableEntry>)
        ensures
            found == self@.lookup(*pos),
    {
        map_get(&self.table, pos)
    }

    /// Looks `pos` up for a search of depth `search_depth` with the window
    /// `alpha`, `beta`.
    pub fn probe(&self, pos: &Board, search_depth: u32, alpha: i32, beta: i32) -> (r: ProbeResult)
        ensures
            r == self@.probe(*pos, search_depth, alpha, beta),
    {
        probe_entry(map_get(&self.table, pos), search_depth, alpha, beta)
    }

    /// Makes every entry one older and advances the oldest acceptable age.
    pub fn age(&mut self)
        requires
            old(self).wf(),
        ensures
            final(self)@ == old(self)@.aged(),
            final(self).wf(),
    {
        map_age_all(&mut self.table);
        self.oldest_entry = if self.oldest_entry == i32::MAX {
            i32::MIN
        } else {
            self.oldest_entry + 1
        };
        proof {
            assert(self@.entries.dom() =~= old(self)@.entries.dom());
        }
    }

    /// Removes every stale entry, then raises the oldest acceptable age by
    /// one.
    pub fn prune(&mut self)
        requires
            old(self).wf(),
        ensures
            final(self)@ == old(self)@.pruned(),
            final(self).wf(),
    {
        map_drop_stale(&mut self.table, self.oldest_entry);
        self.oldest_entry = if self.oldest_entry == i32::MAX {
            i32::MIN
        } else {
            self.oldest_entry + 1
        };
        proof {
            lemma_pruned_wf(old(self)@);
        }
    }

    /// Stores `entry` for `pos` unless the table has a deeper entry for it.
    /// Runs an eviction pass first if one more entry would reach the
    /// ceiling.
    pub fn insert(&mut self, pos: &Board, entry: TableEntry)
        requires
            old(self).wf(),
            entry.wf(),
        ensures
            final(self)@ == old(self)@.inserted(*pos, entry),
            final(self).wf(),
    {
        let n = self.len();
        if self.ceiling <= n || self.ceiling - n <= 1 {
            self.prune();
        }
        let accept = match map_get(&self.table, pos) {
            Some(stored) => stored.depth <= entry.depth,
            None => true,
        };
        if accept {
            map_insert(&mut self.table, pos, entry);
        }
    }
}

impl Default for TranspositionTable {
    /// An empty table with the default ceiling.
    fn default() -> (t: Self)
        ensures
            t@ == TableState::empty(MAX_SIZE),
            t.wf(),
    {
        TranspositionTable::new()
    }
}

/// An eviction pass leaves a subset of the entries, so a well-formed table
/// stays well formed and does not grow.
pub proof fn lemma_pruned_wf(s: TableState)
    requires
        s.wf(),
    ensures
        s.pruned().wf(),
        s.pruned().entries.dom().subset_of(s.entries.dom()),
        s.pruned().entries.len() <= s.entries.len(),
{
    assert(s.pruned().entries.dom().subset_of(s.entries.dom()));
    vstd::set_lib::lemma_len_subset(s.pruned().entries.dom(), s.entries.dom());
}

/// An eviction pass that finds a stale entry leaves fewer entries than it
/// found.
pub proof fn lemma_pruned_shrinks(s: TableState, pos: Board)
    requires
        s.wf(),
        s.entries.contains_key(pos),
        is_stale(s.entries[pos], s.oldest),
    ensures
        s.pruned().entries.len() < s.entries.len(),
{
    let rest = s.entries.dom().remove(pos);
    assert(s.pruned().entries.dom().subset_of(rest));
    vstd::set_lib::lemma_len_subset(s.pruned().entries.dom(), rest);
}

/// An insertion keeps a well-formed table well formed, adds at most one
/// entry, and leaves an entry for the position.
pub proof fn lemma_inserted_wf(s: TableState, pos: Board, entry: TableEntry)
    requires
        s.wf(),
        entry.wf(),
    ensures
        s.inserted(pos, entry).wf(),
        s.inserted(pos, entry).entries.contains_key(pos),
        s.inserted(pos, entry).entries.len() <= s.entries.len() + 1,
        s.inserted(pos, entry).ceiling == s.ceiling,
{
    lemma_pruned_wf(s);
}

/// What a lookup answers from an entry that is deep enough: an exact score
/// as it is, a bound only where it decides against the window.
pub open spec fn answer_of(e: TableEntry, alpha: i32, beta: i32) -> ProbeResult {
    match e.node {
        NodeType::PV => ProbeResult::SearchResult(e.best_response, e.score),
        NodeType::All => if e.score <= alpha {
            ProbeResult::SearchResult(e.best_response, alpha)
        } else {
            ProbeResult::OrderingHint(e.best_response)
        },
        NodeType::Cut => if e.score >= beta {
            ProbeResult::SearchResult(e.best_response, beta)
        } else {
            ProbeResult::OrderingHint(e.best_response)
        },
    }
}

/// The table as an insertion finds it once the eviction pass, if any, is
/// over.
pub open spec fn before_store(s: TableState) -> TableState {
    if s.under_pressure() {
        s.pruned()
    } else {
        s
    }
}

/// Round trip: once an entry of depth D has been stored, a lookup of its
/// position for a depth up to D answers from that entry, with a result
/// where the entry is exact or its bound decides against the window, and
/// with the score that the entry warrants. A lookup for a greater depth
/// answers with the move of the entry as a hint, never with a result.
///
/// The entry is stored unless the table has a deeper one for the position.
pub proof fn lemma_round_trip(
    s: TableState,
    pos: Board,
    entry: TableEntry,
    search_depth: u32,
    alpha: i32,
    beta: i32,
)
    requires
        s.wf(),
        before_store(s).accepts(pos, entry),
    ensures
        s.inserted(pos, entry).lookup(pos) == Some(entry),
        search_depth <= entry.depth ==> s.inserted(pos, entry).probe(
            pos,
            search_depth,
            alpha,
            beta,
        ) == answer_of(entry, alpha, beta),
        search_depth <= entry.depth && entry.node == NodeType::PV ==> s.inserted(pos, entry).probe(
            pos,
            search_depth,
            alpha,
            beta,
        ) == ProbeResult::SearchResult(entry.best_response, entry.score),
        search_depth > entry.depth ==> s.inserted(pos, entry).probe(
            pos,
            search_depth,
            alpha,
            beta,
        ) == ProbeResult::OrderingHint(entry.best_response),
{
}

/// A lookup never answers with a result that the table does not warrant:
/// a result comes from an entry at least as deep as asked for, and its
/// score is the exact score of the entry, or the end of the window that
/// the bound of the entry lies beyond.
pub proof fn lemma_result_is_warranted(
    s: TableState,
    pos: Board,
    search_depth: u32,
    alpha: i32,
    beta: i32,
)
    ensures
        s.probe(pos, search_depth, alpha, beta) is Miss <==> !s.entries.contains_key(pos),
        s.probe(pos, search_depth, alpha, beta) matches ProbeResult::SearchResult(mv, score) ==> {
            &&& s.entries.contains_key(pos)
            &&& s.entries[pos].depth >= search_depth
            &&& mv == s.entries[pos].best_response
            &&& match s.entries[pos].node {
                NodeType::PV => score == s.entries[pos].score,
                NodeType::All => score == alpha && s.entries[pos].score <= alpha,
                NodeType::Cut => score == beta && s.entries[pos].score >= beta,
            }
        },
{
}

/// Depth-preferred replacement: an insertion never leaves a position with
/// a shallower entry than it had, unless the eviction pass that the
/// insertion started with removed the entry it had as stale.
pub proof fn lemma_depth_never_decreases(s: TableState, pos: Board, entry: TableEntry)
    requires
        s.wf(),
        s.entries.contains_key(pos),
        !(s.under_pressure() && is_stale(s.entries[pos], s.oldest)),
    ensures
        s.inserted(pos, entry).entries.contains_key(pos),
        s.inserted(pos, entry).entries[pos].depth >= s.entries[pos].depth,
        s.inserted(pos, entry).entries[pos].depth >= entry.depth,
{
}

/// The table `cycles` search cycles later.
pub open spec fn aged_times(s: TableState, cycles: nat) -> TableState
    decreases cycles,
{
    if cycles == 0 {
        s
    } else {
        aged_times(s, (cycles - 1) as nat).aged()
    }
}

/// Aging and eviction: whether an entry is stale does not change while the
/// table ages, however many cycles pass, as long as neither its age nor the
/// oldest acceptable age runs into `i32::MAX`. The next eviction pass
/// removes it if and only if it is stale, and keeps it as it is otherwise.
pub proof fn lemma_aging_keeps_staleness(s: TableState, pos: Board, cycles: nat)
    requires
        s.wf(),
        s.entries.contains_key(pos),
        s.entries[pos].age + cycles <= i32::MAX,
        s.oldest + cycles <= i32::MAX,
    ensures
        aged_times(s, cycles).wf(),
        aged_times(s, cycles).entries.contains_key(pos),
        aged_times(s, cycles).entries[pos].age == s.entries[pos].age + cycles,
        aged_times(s, cycles).oldest == s.oldest + cycles,
        is_stale(aged_times(s, cycles).entries[pos], aged_times(s, cycles).oldest) == is_stale(
            s.entries[pos],
            s.oldest,
        ),
        aged_times(s, cycles).pruned().entries.contains_key(pos) == !is_stale(
            s.entries[pos],
            s.oldest,
        ),
        !is_stale(s.entries[pos], s.oldest) ==> aged_times(s, cycles).pruned().entries[pos]
            == aged_times(s, cycles).entries[pos],
    decreases cycles,
{
    if cycles > 0 {
        let before = aged_times(s, (cycles - 1) as nat);
        lemma_aging_keeps_staleness(s, pos, (cycles - 1) as nat);
        assert(before.aged().entries.dom() =~= before.entries.dom());
    }
}

/// Nothing in the table is stale.
pub open spec fn all_fresh(s: TableState) -> bool {
    forall|pos: Board| #[trigger]
        s.entries.contains_key(pos) ==> is_fresh(s.entries[pos], s.oldest)
}

/// The ceiling holds: a table with no more entries than its ceiling has no
/// more after an insertion. The one exception is a table that is full to
/// the ceiling, holds nothing stale, and is given a position it does not
/// have: the eviction pass then frees no room, and the new entry is stored
/// all the same.
pub proof fn lemma_insert_within_ceiling(s: TableState, pos: Board, entry: TableEntry)
    requires
        s.wf(),
        s.entries.len() <= s.ceiling,
        !(s.entries.len() == s.ceiling && all_fresh(s) && !s.entries.contains_key(pos)),
    ensures
        s.inserted(pos, entry).entries.len() <= s.ceiling,
{
    lemma_pruned_wf(s);
    if s.under_pressure() {
        if !all_fresh(s) {
            let stale = choose|k: Board|
                s.entries.contains_key(k) && !is_fresh(#[trigger] s.entries[k], s.oldest);
            lemma_pruned_shrinks(s, stale);
        } else {
            assert(s.pruned().entries =~= s.entries);
        }
    }
}

} // verus!
