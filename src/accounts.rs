use vstd::prelude::*;
use std::collections::HashMap;

verus! {

broadcast use vstd::std_specs::hash::group_hash_axioms;

/// The permission flags of each known account.
pub struct AccountDirectory {
    flags: HashMap<u64, u32>,
}

impl View for AccountDirectory {
    type V = Map<u64, u32>;

    closed spec fn view(&self) -> Map<u64, u32> {
        self.flags@
    }
}

impl AccountDirectory {
    /// A directory that knows no account.
    pub fn new() -> (d: AccountDirectory)
        ensures
            d@ == Map::<u64, u32>::empty(),
    {
        AccountDirectory { flags: HashMap::new() }
    }

    /// Records `flags` as the permission flags of `account_id`.
    pub fn set_flags(&mut self, account_id: u64, flags: u32)
        ensures
            final(self)@ == old(self)@.insert(account_id, flags),
    {
        self.flags.insert(account_id, flags);
    }

    /// The permission flags of `account_id`, or `None` for an unknown
    /// account.
    pub fn flags_of(&self, account_id: u64) -> (r: Option<u32>)
        ensures
            r == (if self@.contains_key(account_id) {
                Some(self@[account_id])
            } else {
                None::<u32>
            }),
    {
        match self.flags.get(&account_id) {
            Some(f) => Some(*f),
            None => None,
        }
    }
}

} // verus!
