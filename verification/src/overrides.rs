//! Optional per-tensor candidate-width lists.
//!
//! A caller may force the candidate widths consulted for specific tensors,
//! and may give a fallback list used for every tensor without a specific
//! entry. Tensors absent from both fall back to the runtime-supplied
//! default candidates of the element type.

use vstd::prelude::*;

use crate::decision::TensorId;
use crate::id_map::IdMap;
use crate::resolvers::positive_widths;

verus! {

/// Ordered candidate-width lists that take precedence over the runtime
/// default list: one optional list per tensor identity plus one optional
/// fallback list.
#[derive(Debug, Clone)]
pub struct LineSizeOverrides {
    state: Option<IdMap<Vec<u8>>>,
    fallback: Option<Vec<u8>>,
}

impl LineSizeOverrides {
    /// The per-identity lists, if any were recorded.
    pub closed spec fn state_map(&self) -> Option<Map<TensorId, Seq<u8>>> {
        match self.state {
            Some(m) => Some(m@),
            None => None,
        }
    }

    /// The fallback list, if one was recorded.
    pub closed spec fn default_list(&self) -> Option<Seq<u8>> {
        match self.fallback {
            Some(v) => Some(v@),
            None => None,
        }
    }

    /// The per-identity lists as a total map: empty when none were
    /// recorded.
    pub open spec fn per_tensor_map(&self) -> Map<TensorId, Seq<u8>> {
        match self.state_map() {
            Some(m) => m,
            None => Map::empty(),
        }
    }

    /// What a lookup returns: the identity's own list if present, else the
    /// fallback list, else nothing — meaning "use the runtime default".
    pub open spec fn lookup_spec(&self, id: TensorId) -> Option<Seq<u8>> {
        if self.per_tensor_map().contains_key(id) {
            Some(self.per_tensor_map()[id])
        } else {
            self.default_list()
        }
    }

    /// Every recorded width is positive, as the data model demands of
    /// candidate widths.
    pub open spec fn widths_positive(&self) -> bool {
        &&& forall|k: TensorId|
            #[trigger] self.per_tensor_map().contains_key(k)
                ==> positive_widths(self.per_tensor_map()[k])
        &&& (self.default_list() matches Some(d) ==> positive_widths(d))
    }

    /// Records an ordered candidate list for one identity, replacing any
    /// prior entry for it.
    pub fn overrides(&mut self, tensor_id: &TensorId, line_sizes: Vec<u8>)
        ensures
            final(self).state_map() == Some(
                match old(self).state_map() {
                    Some(m) => m.insert(*tensor_id, line_sizes@),
                    None => Map::<TensorId, Seq<u8>>::empty().insert(*tensor_id, line_sizes@),
                },
            ),
            final(self).default_list() == old(self).default_list(),
    {
        let mut map = match self.state.take() {
            Some(val) => val,
            None => IdMap::new(),
        };
        map.insert(*tensor_id, line_sizes);
        self.state = Some(map);
    }

    /// Records the fallback candidate list.
    pub fn overrides_default(&mut self, line_sizes: Vec<u8>)
        ensures
            final(self).default_list() == Some(line_sizes@),
            final(self).state_map() == old(self).state_map(),
    {
        self.fallback = Some(line_sizes);
    }

    /// Produces a table whose identities are translated through
    /// `translation`, for reuse under another execution context. A missing
    /// translation for a recorded identity is a caller error and is ruled
    /// out, as is a translation that folds two identities into one.
    pub fn mapping(&self, translation: &IdMap<TensorId>) -> (r: Self)
        requires
            forall|k: TensorId|
                #[trigger] self.per_tensor_map().contains_key(k)
                    ==> translation@.contains_key(k),
            forall|k1: TensorId, k2: TensorId|
                self.per_tensor_map().contains_key(k1) && self.per_tensor_map().contains_key(k2)
                    && translation@[k1] == translation@[k2] ==> k1 == k2,
        ensures
            r.default_list() == self.default_list(),
            self.state_map() is None <==> r.state_map() is None,
            forall|k: TensorId|
                #[trigger] self.per_tensor_map().contains_key(k)
                    ==> r.per_tensor_map().contains_key(translation@[k])
                        && r.per_tensor_map()[translation@[k]] == self.per_tensor_map()[k],
            forall|g: TensorId|
                #[trigger] r.per_tensor_map().contains_key(g) ==> exists|k: TensorId|
                    self.per_tensor_map().contains_key(k) && translation@[k] == g
                        && r.per_tensor_map()[g] == self.per_tensor_map()[k],
    {
        let fallback = match &self.fallback {
            Some(val) => {
                let copy = val.clone();
                proof {
                    assert(copy@ =~= val@);
                }
                Some(copy)
            },
            None => None,
        };
        match &self.state {
            Some(map) => {
                proof {
                    assert(self.per_tensor_map() == map@);
                }
                let remapped = map.remap(translation);
                let r = LineSizeOverrides { state: Some(remapped), fallback };
                proof {
                    assert(r.per_tensor_map() == remapped@);
                }
                r
            },
            None => LineSizeOverrides { state: None, fallback },
        }
    }

    /// Looks up the candidate list consulted for one identity, if any.
    pub fn tensor(&self, tensor_id: &TensorId) -> (r: Option<&Vec<u8>>)
        ensures
            match r {
                Some(v) => self.lookup_spec(*tensor_id) == Some(v@),
                None => self.lookup_spec(*tensor_id) is None,
            },
    {
        let map = match &self.state {
            Some(val) => val,
            None => {
                return match &self.fallback {
                    Some(val) => Some(val),
                    None => None,
                };
            },
        };
        proof {
            assert(self.per_tensor_map() == map@);
        }
        match map.get(*tensor_id) {
            Some(val) => Some(val),
            None => match &self.fallback {
                Some(val) => Some(val),
                None => None,
            },
        }
    }
}

impl Default for LineSizeOverrides {
    /// An empty table: no per-identity lists and no fallback list.
    fn default() -> (r: Self)
        ensures
            r.state_map() is None,
            r.default_list() is None,
    {
        LineSizeOverrides { state: None, fallback: None }
    }
}

} // verus!
