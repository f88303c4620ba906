//! The latest DMX frame of each universe.
use std::collections::HashMap;
use vstd::prelude::*;
use vstd::slice::slice_to_vec;

verus! {

/// The frames of a table, each as the sequence of its bytes.
pub open spec fn frames_of(table: Map<u16, Vec<u8>>) -> Map<u16, Seq<u8>> {
    Map::new(|u: u16| table.contains_key(u), |u: u16| table[u]@)
}

/// Holds, for each universe, the frame that was written last.
pub struct DmxStore {
    data: HashMap<u16, Vec<u8>>,
}

impl View for DmxStore {
    type V = Map<u16, Seq<u8>>;

    closed spec fn view(&self) -> Map<u16, Seq<u8>> {
        frames_of(self.data@)
    }
}

impl DmxStore {
    /// A store without frames.
    pub fn new() -> (store: Self)
        ensures
            store@ == Map::<u16, Seq<u8>>::empty(),
    {
        let store = DmxStore { data: HashMap::new() };
        assert(store@ =~= Map::<u16, Seq<u8>>::empty());
        store
    }

    /// Writes the frame of a universe over whatever was there.
    pub fn update(&mut self, universe: u16, data: Vec<u8>)
        ensures
            final(self)@ == old(self)@.insert(universe, data@),
    {
        broadcast use vstd::std_specs::hash::group_hash_axioms;

        self.data.insert(universe, data);
        assert(self@ =~= old(self)@.insert(universe, data@));
    }

    /// The latest frame of a universe, if one was ever written.
    pub fn get(&self, universe: u16) -> (frame: Option<Vec<u8>>)
        ensures
            match frame {
                Some(bytes) => self@.contains_key(universe) && bytes@ == self@[universe],
                None => !self@.contains_key(universe),
            },
    {
        broadcast use vstd::std_specs::hash::group_hash_axioms;

        match self.data.get(&universe) {
            Some(bytes) => Some(slice_to_vec(bytes.as_slice())),
            None => None,
        }
    }

    /// A snapshot of every frame.
    pub fn get_all(&self) -> (frames: HashMap<u16, Vec<u8>>)
        ensures
            frames_of(frames@) == self@,
    {
        self.data.clone()
    }
}

impl Default for DmxStore {
    fn default() -> (store: Self)
        ensures
            store@ == Map::<u16, Seq<u8>>::empty(),
    {
        DmxStore::new()
    }
}

/// A frame that was written is the one that is read back, and writing one
/// universe leaves the others as they were.
pub proof fn lemma_last_write_wins(frames: Map<u16, Seq<u8>>, universe: u16, data: Seq<u8>, other: u16)
    requires
        other != universe,
    ensures
        frames.insert(universe, data)[universe] == data,
        frames.insert(universe, data).contains_key(universe),
        frames.insert(universe, data).contains_key(other) == frames.contains_key(other),
        frames.contains_key(other) ==> frames.insert(universe, data)[other] == frames[other],
{
}

} // verus!
