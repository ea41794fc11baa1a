//! Loaded asset state with a two-phase publish: a load first becomes the uncommitted state
//! of its handle, and an explicit commit moves it into the committed state that readers of
//! the committed view see.
use std::collections::HashMap;
use vstd::prelude::*;

verus! {

broadcast use vstd::std_specs::hash::group_hash_axioms;

/// Identifies one asset load.
pub type LoadHandle = u64;

/// Where a descriptor lives: a descriptor set layout index and a binding within it.
#[derive(Clone, Copy, Debug, PartialEq, Eq, Structural)]
pub struct SlotLocation {
    pub layout_index: u32,
    pub binding_index: u32,
}

/// One asset, which may have committed and uncommitted loaded state at the same time.
pub struct LoadedAssetState<LoadedAssetT> {
    pub committed: Option<LoadedAssetT>,
    pub uncommitted: Option<LoadedAssetT>,
}

impl<LoadedAssetT> Default for LoadedAssetState<LoadedAssetT> {
    fn default() -> (r: Self)
        ensures
            r.committed is None,
            r.uncommitted is None,
    {
        LoadedAssetState { committed: None, uncommitted: None }
    }
}

/// The loaded state of every asset of one type, by load handle.
pub struct AssetLookup<LoadedAssetT> {
    pub loaded_assets: HashMap<LoadHandle, LoadedAssetState<LoadedAssetT>>,
}

impl<LoadedAssetT> Default for AssetLookup<LoadedAssetT> {
    fn default() -> (r: Self)
        ensures
            r.states() == Map::<LoadHandle, LoadedAssetState<LoadedAssetT>>::empty(),
    {
        AssetLookup { loaded_assets: HashMap::new() }
    }
}

impl<LoadedAssetT> AssetLookup<LoadedAssetT> {
    /// The state of each handle.
    pub open spec fn states(&self) -> Map<LoadHandle, LoadedAssetState<LoadedAssetT>> {
        self.loaded_assets@
    }

    /// An empty lookup.
    pub fn new() -> (r: Self)
        ensures
            r.states() == Map::<LoadHandle, LoadedAssetState<LoadedAssetT>>::empty(),
    {
        AssetLookup { loaded_assets: HashMap::new() }
    }

    /// Makes `loaded_asset` the uncommitted state of `load_handle`, keeping its committed
    /// state.
    pub fn set_uncommitted(&mut self, load_handle: LoadHandle, loaded_asset: LoadedAssetT)
        ensures
            final(self).states().dom() == old(self).states().dom().insert(load_handle),
            forall|h: LoadHandle| h != load_handle && old(self).states().contains_key(h) ==> #[trigger] final(self).states()[h] == old(self).states()[h],
            final(self).states()[load_handle].uncommitted == Some(loaded_asset),
            final(self).states()[load_handle].committed == if old(self).states().contains_key(load_handle) {
                old(self).states()[load_handle].committed
            } else {
                None
            },
    {
        let state = match self.loaded_assets.remove(&load_handle) {
            Some(state) => LoadedAssetState { committed: state.committed, uncommitted: Some(loaded_asset) },
            None => LoadedAssetState { committed: None, uncommitted: Some(loaded_asset) },
        };
        self.loaded_assets.insert(load_handle, state);
    }

    /// Publishes the uncommitted state of `load_handle`: it becomes the committed state and
    /// the uncommitted state is cleared.
    pub fn commit(&mut self, load_handle: LoadHandle)
        requires
            old(self).states().contains_key(load_handle),
        ensures
            final(self).states() == old(self).states().insert(
                load_handle,
                LoadedAssetState { committed: old(self).states()[load_handle].uncommitted, uncommitted: None },
            ),
    {
        let state = self.loaded_assets.remove(&load_handle);
        match state {
            Some(state) => {
                self.loaded_assets.insert(load_handle, LoadedAssetState { committed: state.uncommitted, uncommitted: None });
            },
            None => {},
        }
    }

    /// Forgets `load_handle`.
    pub fn free(&mut self, load_handle: LoadHandle)
        requires
            old(self).states().contains_key(load_handle),
        ensures
            final(self).states() == old(self).states().remove(load_handle),
    {
        let _ = self.loaded_assets.remove(&load_handle);
    }

    /// The newest state of `load_handle`: the uncommitted one if any, else the committed one.
    pub fn get_latest(&self, load_handle: LoadHandle) -> (r: Option<&LoadedAssetT>)
        requires
            self.states().contains_key(load_handle) ==> self.states()[load_handle].uncommitted is Some
                || self.states()[load_handle].committed is Some,
        ensures
            !self.states().contains_key(load_handle) ==> r is None,
            self.states().contains_key(load_handle) ==> r is Some && *r->0 == if self.states()[load_handle].uncommitted is Some {
                self.states()[load_handle].uncommitted->0
            } else {
                self.states()[load_handle].committed->0
            },
    {
        match self.loaded_assets.get(&load_handle) {
            Some(state) => match &state.uncommitted {
                Some(uncommitted) => Some(uncommitted),
                None => match &state.committed {
                    Some(committed) => Some(committed),
                    None => None,
                },
            },
            None => None,
        }
    }

    /// The committed state of `load_handle`, if any.
    pub fn get_committed(&self, load_handle: LoadHandle) -> (r: Option<&LoadedAssetT>)
        ensures
            !self.states().contains_key(load_handle) ==> r is None,
            self.states().contains_key(load_handle) ==> match self.states()[load_handle].committed {
                Some(c) => r is Some && *r->0 == c,
                None => r is None,
            },
    {
        match self.loaded_assets.get(&load_handle) {
            Some(state) => match &state.committed {
                Some(committed) => Some(committed),
                None => None,
            },
            None => None,
        }
    }

    /// The number of handles with loaded state.
    pub fn len(&self) -> (r: usize)
        ensures
            r == self.states().len(),
    {
        self.loaded_assets.len()
    }

    /// Forgets every handle.
    pub fn destroy(&mut self)
        ensures
            final(self).states() == Map::<LoadHandle, LoadedAssetState<LoadedAssetT>>::empty(),
    {
        self.loaded_assets.clear();
    }
}

} // verus!
