//! The payload type registry: which payload types have a key extractor.

use crate::event::TypeTag;
use std::collections::HashMap;
use vstd::prelude::*;

verus! {

/// Identity of a key extractor: two registrations name the same extractor
/// exactly when they carry the same value.
pub type KeyGetter = u64;

/// `getter` may be registered for `tag`: the tag has no extractor yet, or has
/// this very one.
pub open spec fn admits(known: Map<TypeTag, KeyGetter>, tag: TypeTag, getter: KeyGetter) -> bool {
    known.contains_key(tag) ==> known[tag] == getter
}

/// Registering an extractor a second time changes nothing.
pub proof fn lemma_registration_is_idempotent(
    known: Map<TypeTag, KeyGetter>,
    tag: TypeTag,
    getter: KeyGetter,
)
    ensures
        admits(known.insert(tag, getter), tag, getter),
        known.insert(tag, getter).insert(tag, getter) == known.insert(tag, getter),
        known.contains_key(tag) && known[tag] == getter ==> known.insert(tag, getter) == known,
{
}

/// For each payload type tag, the key extractor registered for it, if any.
pub struct TypeRegistry {
    getters: HashMap<TypeTag, KeyGetter>,
}

impl View for TypeRegistry {
    type V = Map<TypeTag, KeyGetter>;

    closed spec fn view(&self) -> Map<TypeTag, KeyGetter> {
        self.getters@
    }
}

impl TypeRegistry {
    /// A registry without extractors.
    pub fn new() -> (r: Self)
        ensures
            r@ == Map::<TypeTag, KeyGetter>::empty(),
    {
        TypeRegistry { getters: HashMap::new() }
    }

    /// The extractor registered for `tag`, if any.
    pub fn key_getter(&self, tag: TypeTag) -> (r: Option<KeyGetter>)
        ensures
            r == (if self@.contains_key(tag) {
                Some(self@[tag])
            } else {
                None
            }),
    {
        match self.getters.get(&tag) {
            Some(g) => Some(*g),
            None => None,
        }
    }

    /// Whether `tag` has an extractor.
    pub fn has_key_getter(&self, tag: TypeTag) -> (b: bool)
        ensures
            b == self@.contains_key(tag),
    {
        self.getters.contains_key(&tag)
    }

    /// Records `getter` as the extractor of `tag`.
    pub fn register_key_getter_for(&mut self, tag: TypeTag, getter: KeyGetter)
        requires
            admits(old(self)@, tag, getter),
        ensures
            final(self)@ == old(self)@.insert(tag, getter),
    {
        self.getters.insert(tag, getter);
    }
}

} // verus!
