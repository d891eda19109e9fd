use std::collections::HashMap;
use vstd::prelude::*;

use crate::types::{AccountId, ClassId, InstanceId, RegistryError};

verus! {

broadcast use vstd::std_specs::hash::group_hash_axioms;

/// 2^64: the factor that packs a collection id above an item id.
pub const ITEM_KEY_SHIFT: u128 = 0x1_0000_0000_0000_0000;

/// The key of item `(class, instance)`: the collection id in the upper 64 bits,
/// the item id in the lower.
pub open spec fn item_key(class: ClassId, instance: InstanceId) -> u128 {
    (class * ITEM_KEY_SHIFT + instance) as u128
}

proof fn lemma_item_key_injective(c1: ClassId, i1: InstanceId, c2: ClassId, i2: InstanceId)
    requires
        item_key(c1, i1) == item_key(c2, i2),
    ensures
        c1 == c2 && i1 == i2,
{
    assert(c1 * ITEM_KEY_SHIFT + i1 <= u128::MAX) by (nonlinear_arith)
        requires
            c1 <= u64::MAX,
            i1 <= u64::MAX,
    ;
    assert(c2 * ITEM_KEY_SHIFT + i2 <= u128::MAX) by (nonlinear_arith)
        requires
            c2 <= u64::MAX,
            i2 <= u64::MAX,
    ;
}

fn make_item_key(class: ClassId, instance: InstanceId) -> (r: u128)
    ensures
        r == item_key(class, instance),
{
    let c: u128 = class as u128;
    assert(c * ITEM_KEY_SHIFT + instance <= u128::MAX) by (nonlinear_arith)
        requires
            c <= u64::MAX,
            instance <= u64::MAX,
    ;
    c * ITEM_KEY_SHIFT + instance as u128
}

/// Ownership and transfer state of one non-fungible item.
#[derive(Clone, Copy, Debug, PartialEq, Eq, Structural)]
pub struct ItemDetails {
    pub owner: AccountId,
    /// A frozen item cannot be transferred.
    pub is_frozen: bool,
}

/// The registry of non-fungible items, keyed by collection and item.
pub struct Registry {
    items: HashMap<u128, ItemDetails>,
}

impl Registry {
    /// The details of item `(class, instance)`, if it exists.
    pub closed spec fn item(self, class: ClassId, instance: InstanceId) -> Option<ItemDetails> {
        if self.items@.contains_key(item_key(class, instance)) {
            Some(self.items@[item_key(class, instance)])
        } else {
            None
        }
    }

    /// Every item other than `(class, instance)` is as in `old`.
    pub open spec fn items_kept_but(self, old: Registry, class: ClassId, instance: InstanceId) -> bool {
        forall|c: ClassId, i: InstanceId|
            (c != class || i != instance) ==> #[trigger] self.item(c, i) == old.item(c, i)
    }

    /// Why the owner-only operations freeze and thaw would fail for `caller`, if they would.
    pub open spec fn owner_error(self, caller: AccountId, class: ClassId, instance: InstanceId) -> Option<
        RegistryError,
    > {
        match self.item(class, instance) {
            None => Some(RegistryError::UnknownItem),
            Some(d) => if d.owner != caller {
                Some(RegistryError::NoPermission)
            } else {
                None
            },
        }
    }

    /// Why a transfer by `caller` would fail, if it would.
    pub open spec fn transfer_error(self, caller: AccountId, class: ClassId, instance: InstanceId) -> Option<
        RegistryError,
    > {
        match self.item(class, instance) {
            None => Some(RegistryError::UnknownItem),
            Some(d) => if d.owner != caller {
                Some(RegistryError::NoPermission)
            } else if d.is_frozen {
                Some(RegistryError::Frozen)
            } else {
                None
            },
        }
    }

    /// Whether item `(class, instance)` exists and is not frozen.
    pub open spec fn can_transfer_spec(self, class: ClassId, instance: InstanceId) -> bool {
        self.item(class, instance) matches Some(d) && !d.is_frozen
    }

    /// A registry without items.
    pub fn new() -> (r: Registry)
        ensures
            forall|c: ClassId, i: InstanceId| #[trigger] r.item(c, i) is None,
    {
        Registry { items: HashMap::new() }
    }

    fn details(&self, class: ClassId, instance: InstanceId) -> (r: Option<ItemDetails>)
        ensures
            r == self.item(class, instance),
    {
        let key = make_item_key(class, instance);
        match self.items.get(&key) {
            Some(d) => Some(*d),
            None => None,
        }
    }

    fn put(&mut self, class: ClassId, instance: InstanceId, d: ItemDetails)
        ensures
            final(self).item(class, instance) == Some(d),
            final(self).items_kept_but(*old(self), class, instance),
    {
        let key = make_item_key(class, instance);
        self.items.insert(key, d);
        proof {
            assert forall|c: ClassId, i: InstanceId|
                (c != class || i != instance) implies #[trigger] self.item(c, i) == old(self).item(
                c,
                i,
            ) by {
                if item_key(c, i) == item_key(class, instance) {
                    lemma_item_key_injective(c, i, class, instance);
                }
            }
        }
    }

    /// The owner of item `(class, instance)`, if it exists.
    pub fn owner(&self, class: ClassId, instance: InstanceId) -> (r: Option<AccountId>)
        ensures
            r == (match self.item(class, instance) {
                Some(d) => Some(d.owner),
                None => None,
            }),
    {
        match self.details(class, instance) {
            Some(d) => Some(d.owner),
            None => None,
        }
    }

    /// Whether item `(class, instance)` exists and is not frozen.
    pub fn can_transfer(&self, class: ClassId, instance: InstanceId) -> (r: bool)
        ensures
            r == self.can_transfer_spec(class, instance),
    {
        match self.details(class, instance) {
            Some(d) => !d.is_frozen,
            None => false,
        }
    }

    /// Creates item `(class, instance)`, owned by `owner` and not frozen.
    pub fn mint(&mut self, owner: AccountId, class: ClassId, instance: InstanceId) -> (r: Result<
        (),
        RegistryError,
    >)
        ensures
            old(self).item(class, instance) is Some ==> r == Err::<(), RegistryError>(
                RegistryError::AlreadyExists,
            ) && *final(self) == *old(self),
            old(self).item(class, instance) is None ==> r is Ok && final(self).item(class, instance)
                == Some(ItemDetails { owner, is_frozen: false }) && final(self).items_kept_but(
                *old(self),
                class,
                instance,
            ),
    {
        if self.details(class, instance).is_some() {
            return Err(RegistryError::AlreadyExists);
        }
        self.put(class, instance, ItemDetails { owner, is_frozen: false });
        Ok(())
    }

    /// Sets whether item `(class, instance)` is frozen; only its owner may.
    fn set_frozen(&mut self, caller: AccountId, class: ClassId, instance: InstanceId, frozen: bool) -> (r: Result<
        (),
        RegistryError,
    >)
        ensures
            match old(self).owner_error(caller, class, instance) {
                Some(e) => r == Err::<(), RegistryError>(e) && *final(self) == *old(self),
                None => r is Ok && final(self).item(class, instance) == Some(
                    ItemDetails { owner: caller, is_frozen: frozen },
                ) && final(self).items_kept_but(*old(self), class, instance),
            },
    {
        match self.details(class, instance) {
            None => Err(RegistryError::UnknownItem),
            Some(d) => {
                if d.owner != caller {
                    return Err(RegistryError::NoPermission);
                }
                self.put(class, instance, ItemDetails { owner: caller, is_frozen: frozen });
                Ok(())
            },
        }
    }

    /// Freezes item `(class, instance)`; only its owner may.
    pub fn freeze(&mut self, caller: AccountId, class: ClassId, instance: InstanceId) -> (r: Result<
        (),
        RegistryError,
    >)
        ensures
            match old(self).owner_error(caller, class, instance) {
                Some(e) => r == Err::<(), RegistryError>(e) && *final(self) == *old(self),
                None => r is Ok && final(self).item(class, instance) == Some(
                    ItemDetails { owner: caller, is_frozen: true },
                ) && final(self).items_kept_but(*old(self), class, instance),
            },
    {
        self.set_frozen(caller, class, instance, true)
    }

    /// Thaws item `(class, instance)`; only its owner may.
    pub fn thaw(&mut self, caller: AccountId, class: ClassId, instance: InstanceId) -> (r: Result<
        (),
        RegistryError,
    >)
        ensures
            match old(self).owner_error(caller, class, instance) {
                Some(e) => r == Err::<(), RegistryError>(e) && *final(self) == *old(self),
                None => r is Ok && final(self).item(class, instance) == Some(
                    ItemDetails { owner: caller, is_frozen: false },
                ) && final(self).items_kept_but(*old(self), class, instance),
            },
    {
        self.set_frozen(caller, class, instance, false)
    }

    /// Gives item `(class, instance)` to `dest`; only its owner may, and only while it
    /// is not frozen.
    pub fn transfer(&mut self, caller: AccountId, class: ClassId, instance: InstanceId, dest: AccountId) -> (r: Result<
        (),
        RegistryError,
    >)
        ensures
            match old(self).transfer_error(caller, class, instance) {
                Some(e) => r == Err::<(), RegistryError>(e) && *final(self) == *old(self),
                None => r is Ok && final(self).item(class, instance) == Some(
                    ItemDetails { owner: dest, is_frozen: false },
                ) && final(self).items_kept_but(*old(self), class, instance),
            },
    {
        match self.details(class, instance) {
            None => Err(RegistryError::UnknownItem),
            Some(d) => {
                if d.owner != caller {
                    return Err(RegistryError::NoPermission);
                }
                if d.is_frozen {
                    return Err(RegistryError::Frozen);
                }
                self.put(class, instance, ItemDetails { owner: dest, is_frozen: false });
                Ok(())
            },
        }
    }
}

} // verus!
