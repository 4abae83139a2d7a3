use vstd::prelude::*;
use crate::village::resource::ResourceType;

verus! {

/// A table with one slot for each resource kind, filled or empty: a map
/// from resource kinds to values in which a lookup never hashes or searches.
pub struct ResourceMap<T> {
    gold: Option<T>,
    food: Option<T>,
    wood: Option<T>,
    stone: Option<T>,
}

impl<T> ResourceMap<T> {
    spec fn slot(&self, kind: ResourceType) -> Option<T> {
        match kind {
            ResourceType::Gold => self.gold,
            ResourceType::Food => self.food,
            ResourceType::Wood => self.wood,
            ResourceType::Stone => self.stone,
        }
    }
}

impl<T> View for ResourceMap<T> {
    type V = Map<ResourceType, T>;

    /// The filled slots, as a map from their kinds to what they hold.
    closed spec fn view(&self) -> Map<ResourceType, T> {
        Map::new(
            |kind: ResourceType| self.slot(kind) is Some,
            |kind: ResourceType| self.slot(kind)->0,
        )
    }
}

impl<T> ResourceMap<T> {
    /// The table with every slot empty.
    pub fn new() -> (table: Self)
        ensures
            table@ == Map::<ResourceType, T>::empty(),
    {
        let table = ResourceMap { gold: None, food: None, wood: None, stone: None };
        assert(table@ =~= Map::<ResourceType, T>::empty());
        table
    }

    /// Fills the slot of `kind` with `value` and hands back what it held.
    pub fn insert(&mut self, kind: ResourceType, value: T) -> (previous: Option<T>)
        ensures
            final(self)@ == old(self)@.insert(kind, value),
            previous == (if old(self)@.contains_key(kind) {
                Some(old(self)@[kind])
            } else {
                None
            }),
    {
        let mut held = Some(value);
        match kind {
            ResourceType::Gold => std::mem::swap(&mut self.gold, &mut held),
            ResourceType::Food => std::mem::swap(&mut self.food, &mut held),
            ResourceType::Wood => std::mem::swap(&mut self.wood, &mut held),
            ResourceType::Stone => std::mem::swap(&mut self.stone, &mut held),
        }
        assert(self@ =~= old(self)@.insert(kind, value));
        held
    }

    /// What the slot of `kind` holds, if it is filled.
    pub fn get(&self, kind: &ResourceType) -> (held: Option<&T>)
        ensures
            held == (if self@.contains_key(*kind) {
                Some(&self@[*kind])
            } else {
                None
            }),
    {
        match kind {
            ResourceType::Gold => self.gold.as_ref(),
            ResourceType::Food => self.food.as_ref(),
            ResourceType::Wood => self.wood.as_ref(),
            ResourceType::Stone => self.stone.as_ref(),
        }
    }

    /// Whether the slot of `kind` is filled.
    pub fn contains_key(&self, kind: &ResourceType) -> (filled: bool)
        ensures
            filled == self@.contains_key(*kind),
    {
        self.get(kind).is_some()
    }

    /// The slot of `kind` for writing, if it is filled.
    pub fn get_mut(&mut self, kind: &ResourceType) -> (held: Option<&mut T>)
        ensures
            match held {
                Some(value) => {
                    &&& old(self)@.contains_key(*kind)
                    &&& *value == old(self)@[*kind]
                    &&& final(self)@ == old(self)@.insert(*kind, *final(value))
                },
                None => !old(self)@.contains_key(*kind) && final(self)@ == old(self)@,
            },
    {
        match kind {
            ResourceType::Gold => self.gold.as_mut(),
            ResourceType::Food => self.food.as_mut(),
            ResourceType::Wood => self.wood.as_mut(),
            ResourceType::Stone => self.stone.as_mut(),
        }
    }
}

} // verus!
