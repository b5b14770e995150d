//! The store: the three tables and the identity allocator, each in a
//! partition of its own.
//!
//! The tables are open to the caller, as the record store is a component of
//! its own. The invariant of the marketplace is kept by the operations of
//! [`crate::engine`]; whoever writes to a table directly has to keep it too.

use crate::contract::{Contract, ContractView, CONTRACT_ID};
use crate::ids::IdAllocator;
use crate::recipe::{Recipe, RecipeView};
use crate::stable::{partition_get, partitions_open};
use crate::table::Table;
use crate::user::{User, UserView};
use vstd::prelude::*;

verus! {

/// The partition of the identity counter.
pub const COUNTER_PARTITION: u8 = 0;

/// The partition of the users.
pub const USER_PARTITION: u8 = 2;

/// The partition of the recipes.
pub const RECIPE_PARTITION: u8 = 3;

/// The partition of the contract.
pub const CONTRACT_PARTITION: u8 = 5;

/// The state of the marketplace.
pub struct Store {
    pub users: Table<User>,
    pub recipes: Table<Recipe>,
    pub contract: Table<Contract>,
    pub ids: IdAllocator,
}

/// The state of the marketplace as the contracts speak of it.
#[verifier::ext_equal]
pub struct StoreView {
    pub users: Map<u64, UserView>,
    pub recipes: Map<u64, RecipeView>,
    pub contract: Option<ContractView>,
    /// The identity that the next user or recipe gets.
    pub next_id: u64,
}

impl View for Store {
    type V = StoreView;

    open spec fn view(&self) -> StoreView {
        StoreView {
            users: self.users@,
            recipes: self.recipes@,
            contract: if self.contract@.contains_key(CONTRACT_ID) {
                Some(self.contract@[CONTRACT_ID])
            } else {
                None
            },
            next_id: self.ids@,
        }
    }
}

impl StoreView {
    /// The marketplace before anything has happened.
    pub open spec fn empty() -> StoreView {
        StoreView { users: Map::empty(), recipes: Map::empty(), contract: None, next_id: 0 }
    }
}

impl Store {
    /// Each table and the counter were opened in the partition that the layout
    /// gives them, so no two of them share one.
    pub open spec fn laid_out(&self) -> bool {
        &&& self.users.partition() == USER_PARTITION
        &&& self.recipes.partition() == RECIPE_PARTITION
        &&& self.contract.partition() == CONTRACT_PARTITION
        &&& self.ids.partition() == COUNTER_PARTITION
    }

    /// Starts an empty marketplace, over whatever the memory held.
    pub fn new() -> (store: Store)
        ensures
            store@ == StoreView::empty(),
            store@.inv(),
            store.laid_out(),
    {
        let partitions = partitions_open();
        let store = Store {
            users: Table::new(partition_get(&partitions, USER_PARTITION)),
            recipes: Table::new(partition_get(&partitions, RECIPE_PARTITION)),
            contract: Table::new(partition_get(&partitions, CONTRACT_PARTITION)),
            ids: IdAllocator::new(partition_get(&partitions, COUNTER_PARTITION)),
        };
        assert(store@.users =~= Map::empty());
        assert(store@.recipes =~= Map::empty());
        store
    }

    /// Opens the marketplace that the memory holds, or an empty one if it
    /// holds none: every table and the counter in the partition in which
    /// [`Store::new`] starts it, which is where an earlier run of the process
    /// wrote. What it finds there is taken as it is found: bytes that spell
    /// out no record count as no record.
    pub fn init() -> (store: Store)
        ensures
            store.laid_out(),
    {
        let partitions = partitions_open();
        Store {
            users: Table::init(partition_get(&partitions, USER_PARTITION)),
            recipes: Table::init(partition_get(&partitions, RECIPE_PARTITION)),
            contract: Table::init(partition_get(&partitions, CONTRACT_PARTITION)),
            ids: IdAllocator::init(partition_get(&partitions, COUNTER_PARTITION)),
        }
    }
}

} // verus!
