//! The replicated file index: which host owns which path.

use dashmap::DashMap;
use vstd::prelude::*;

verus! {

/// Numeric identity of a host in the cluster.
pub type NodeID = u32;

/// `dashmap::DashMap`, carried as an opaque value.
#[verifier::external_type_specification]
#[verifier::external_body]
#[verifier::reject_recursive_types(K)]
#[verifier::reject_recursive_types(V)]
#[verifier::reject_recursive_types(S)]
pub struct ExDashMap<K, V, S>(DashMap<K, V, S>);

/// The key to value pairs that a `DashMap` from paths to hosts holds.
pub uninterp spec fn index_entries(m: DashMap<String, NodeID>) -> Map<Seq<char>, NodeID>;

/// `DashMap::new`: a map that holds nothing.
#[verifier::external_body]
fn map_new() -> (m: DashMap<String, NodeID>)
    ensures
        index_entries(m) == empty_index(),
{
    DashMap::new()
}

/// `DashMap::insert`: binds `key` to `value`, replacing an earlier binding,
/// and returns the value that `key` was bound to before.
#[verifier::external_body]
fn map_insert(m: &mut DashMap<String, NodeID>, key: String, value: NodeID) -> (prev: Option<NodeID>)
    ensures
        index_entries(*final(m)) == index_entries(*old(m)).insert(key@, value),
        prev == lookup(index_entries(*old(m)), key@),
{
    m.insert(key, value)
}

/// `DashMap::remove`: drops the binding of `key`, if there is one, and
/// returns the value that `key` was bound to before.
#[verifier::external_body]
fn map_remove(m: &mut DashMap<String, NodeID>, key: &str) -> (prev: Option<NodeID>)
    ensures
        index_entries(*final(m)) == index_entries(*old(m)).remove(key@),
        prev == lookup(index_entries(*old(m)), key@),
{
    match m.remove(key) {
        Some(kv) => Some(kv.1),
        None => None,
    }
}

/// `DashMap::get`: the value that `key` is bound to, if any.
#[verifier::external_body]
fn map_get(m: &DashMap<String, NodeID>, key: &str) -> (found: Option<NodeID>)
    ensures
        found == lookup(index_entries(*m), key@),
{
    match m.get(key) {
        Some(r) => Some(*r.value()),
        None => None,
    }
}

/// `DashMap::clear`: drops every binding.
#[verifier::external_body]
fn map_clear(m: &mut DashMap<String, NodeID>)
    ensures
        index_entries(*final(m)) == empty_index(),
{
    m.clear()
}

/// `DashMap::iter`, collected: every binding of the map once, in an order
/// that the map does not promise.
#[verifier::external_body]
fn map_pairs(m: &DashMap<String, NodeID>) -> (pairs: Vec<(String, NodeID)>)
    ensures
        lists_exactly(pairs@, index_entries(*m)),
{
    m.iter().map(|e| (e.key().clone(), *e.value())).collect()
}

/// The index that knows no path.
pub open spec fn empty_index() -> Map<Seq<char>, NodeID> {
    Map::empty()
}

/// The value under `key` in `m`, if `key` is bound.
pub open spec fn lookup(m: Map<Seq<char>, NodeID>, key: Seq<char>) -> Option<NodeID> {
    if m.contains_key(key) {
        Some(m[key])
    } else {
        None
    }
}

/// `pairs` names every binding of `m` exactly once and nothing else.
pub open spec fn lists_exactly(pairs: Seq<(String, NodeID)>, m: Map<Seq<char>, NodeID>) -> bool {
    &&& forall|i: int|
        0 <= i < pairs.len() ==> m.contains_key(#[trigger] pairs[i].0@) && m[pairs[i].0@]
            == pairs[i].1
    &&& forall|i: int, j: int|
        0 <= i < j < pairs.len() ==> (#[trigger] pairs[i]).0@ != (#[trigger] pairs[j]).0@
    &&& forall|k: Seq<char>| #[trigger]
        m.contains_key(k) ==> exists|i: int| 0 <= i < pairs.len() && #[trigger] pairs[i].0@ == k
}

/// A list of paths with their owners as a mathematical value.
pub type Entries = Seq<(Seq<char>, NodeID)>;

/// A list of renamings, each from one path to another.
pub type Moves = Seq<(Seq<char>, Seq<char>)>;

/// The mathematical value of a list of paths with their owners.
pub open spec fn entries_view(pairs: Seq<(String, NodeID)>) -> Entries {
    Seq::new(pairs.len(), |i: int| (pairs[i].0@, pairs[i].1))
}

/// The mathematical value of a list of paths.
pub open spec fn paths_view(paths: Seq<String>) -> Seq<Seq<char>> {
    Seq::new(paths.len(), |i: int| paths[i]@)
}

/// The mathematical value of a list of renamings.
pub open spec fn moves_view(moves: Seq<(String, String)>) -> Moves {
    Seq::new(moves.len(), |i: int| (moves[i].0@, moves[i].1@))
}

/// The map that results from binding each pair of `pairs` in turn, a later
/// pair overriding an earlier one with the same path.
pub open spec fn bind_all(m: Map<Seq<char>, NodeID>, pairs: Entries) -> Map<Seq<char>, NodeID>
    decreases pairs.len(),
{
    if pairs.len() == 0 {
        m
    } else {
        bind_all(m, pairs.drop_last()).insert(pairs.last().0, pairs.last().1)
    }
}

/// The map that results from dropping each path of `paths` in turn.
pub open spec fn unbind_all(m: Map<Seq<char>, NodeID>, paths: Seq<Seq<char>>) -> Map<
    Seq<char>,
    NodeID,
>
    decreases paths.len(),
{
    if paths.len() == 0 {
        m
    } else {
        unbind_all(m, paths.drop_last()).remove(paths.last())
    }
}

/// The map after the path `from` has been renamed to `to`: the owner moves
/// with the path. A map that does not hold `from` stays as it is.
pub open spec fn rename_key(m: Map<Seq<char>, NodeID>, from: Seq<char>, to: Seq<char>) -> Map<
    Seq<char>,
    NodeID,
> {
    if m.contains_key(from) {
        m.remove(from).insert(to, m[from])
    } else {
        m
    }
}

/// The map that results from renaming each pair of `moves` in turn.
pub open spec fn rename_all(m: Map<Seq<char>, NodeID>, moves: Moves) -> Map<Seq<char>, NodeID>
    decreases moves.len(),
{
    if moves.len() == 0 {
        m
    } else {
        rename_key(rename_all(m, moves.drop_last()), moves.last().0, moves.last().1)
    }
}

/// One host's replica of the cluster-wide mapping from path to owning host.
pub struct FileIndex {
    map: DashMap<String, NodeID>,
}

impl View for FileIndex {
    type V = Map<Seq<char>, NodeID>;

    closed spec fn view(&self) -> Map<Seq<char>, NodeID> {
        index_entries(self.map)
    }
}

impl FileIndex {
    /// An index without entries.
    pub fn new() -> (index: FileIndex)
        ensures
            index@ == empty_index(),
    {
        FileIndex { map: map_new() }
    }

    /// The owner of `path`, or `None` where the index does not know it.
    pub fn get(&self, path: &str) -> (owner: Option<NodeID>)
        ensures
            owner == lookup(self@, path@),
    {
        map_get(&self.map, path)
    }

    /// Whether the index knows `path`.
    pub fn contains(&self, path: &str) -> (known: bool)
        ensures
            known == self@.contains_key(path@),
    {
        map_get(&self.map, path).is_some()
    }

    /// Records `host` as the owner of `path`. An earlier owner is replaced
    /// and returned.
    pub fn insert(&mut self, path: String, host: NodeID) -> (prev: Option<NodeID>)
        ensures
            final(self)@ == old(self)@.insert(path@, host),
            prev == lookup(old(self)@, path@),
    {
        map_insert(&mut self.map, path, host)
    }

    /// Forgets `path` and returns its owner, if it had one.
    pub fn remove(&mut self, path: &str) -> (prev: Option<NodeID>)
        ensures
            final(self)@ == old(self)@.remove(path@),
            prev == lookup(old(self)@, path@),
    {
        map_remove(&mut self.map, path)
    }

    /// Renames `from` to `to`, keeping the owner. Returns the owner, or
    /// `None` where `from` was unknown, in which case nothing changes.
    pub fn update(&mut self, from: &str, to: String) -> (owner: Option<NodeID>)
        ensures
            final(self)@ == rename_key(old(self)@, from@, to@),
            owner == lookup(old(self)@, from@),
    {
        match map_remove(&mut self.map, from) {
            Some(host) => {
                map_insert(&mut self.map, to, host);
                Some(host)
            },
            None => {
                assert(self@ =~= old(self)@);
                None
            },
        }
    }

    /// Replaces the whole index by the bindings of `pairs`, taken in order.
    pub fn init(&mut self, pairs: &Vec<(String, NodeID)>)
        ensures
            final(self)@ == bind_all(empty_index(), entries_view(pairs@)),
    {
        map_clear(&mut self.map);
        self.insert_all(pairs);
    }

    /// Binds each pair of `pairs` in turn.
    pub fn insert_all(&mut self, pairs: &Vec<(String, NodeID)>)
        ensures
            final(self)@ == bind_all(old(self)@, entries_view(pairs@)),
    {
        let mut i: usize = 0;
        while i < pairs.len()
            invariant
                i <= pairs.len(),
                self@ == bind_all(old(self)@, entries_view(pairs@).take(i as int)),
            decreases pairs.len() - i,
        {
            let path = pairs[i].0.clone();
            let host = pairs[i].1;
            map_insert(&mut self.map, path, host);
            proof {
                assert(entries_view(pairs@).take(i + 1).drop_last() =~= entries_view(pairs@).take(
                    i as int,
                ));
            }
            i += 1;
        }
        proof {
            assert(entries_view(pairs@).take(pairs.len() as int) =~= entries_view(pairs@));
        }
    }

    /// Drops each path of `paths` in turn.
    pub fn remove_all(&mut self, paths: &Vec<String>)
        ensures
            final(self)@ == unbind_all(old(self)@, paths_view(paths@)),
    {
        let mut i: usize = 0;
        while i < paths.len()
            invariant
                i <= paths.len(),
                self@ == unbind_all(old(self)@, paths_view(paths@).take(i as int)),
            decreases paths.len() - i,
        {
            map_remove(&mut self.map, paths[i].as_str());
            proof {
                assert(paths_view(paths@).take(i + 1).drop_last() =~= paths_view(paths@).take(i as int));
            }
            i += 1;
        }
        proof {
            assert(paths_view(paths@).take(paths.len() as int) =~= paths_view(paths@));
        }
    }

    /// Renames each pair of `moves` in turn.
    pub fn update_all(&mut self, moves: &Vec<(String, String)>)
        ensures
            final(self)@ == rename_all(old(self)@, moves_view(moves@)),
    {
        let mut i: usize = 0;
        while i < moves.len()
            invariant
                i <= moves.len(),
                self@ == rename_all(old(self)@, moves_view(moves@).take(i as int)),
            decreases moves.len() - i,
        {
            let to = moves[i].1.clone();
            self.update(moves[i].0.as_str(), to);
            proof {
                assert(moves_view(moves@).take(i + 1).drop_last() =~= moves_view(moves@).take(i as int));
            }
            i += 1;
        }
        proof {
            assert(moves_view(moves@).take(moves.len() as int) =~= moves_view(moves@));
        }
    }

    /// Every binding of the index, each once, in no promised order.
    pub fn snapshot(&self) -> (pairs: Vec<(String, NodeID)>)
        ensures
            lists_exactly(pairs@, self@),
    {
        map_pairs(&self.map)
    }
}

} // verus!
