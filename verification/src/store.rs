//! The permission set of one identity key: its wallets and its allowlist.

use vstd::prelude::*;
use crate::keyed::{
    find_operation,
    find_wallet,
    lemma_index_of_distinct,
    lemma_push_distinct,
    lemma_set_remove,
    operation_ids,
    operations_distinct,
    wallet_addresses,
    wallets_distinct,
};
use crate::model::PermissionsModel;
use crate::types::{AllowedOperation, OperationModel, RegisteredWallet, WalletModel};

verus! {

/// The models of a list of wallets.
pub open spec fn wallet_views(s: Seq<RegisteredWallet>) -> Seq<WalletModel> {
    s.map_values(|w: RegisteredWallet| w@)
}

/// The models of a list of operations.
pub open spec fn operation_views(s: Seq<AllowedOperation>) -> Seq<OperationModel> {
    s.map_values(|o: AllowedOperation| o@)
}

/// Copies a list of wallets.
pub fn clone_wallets(list: &Vec<RegisteredWallet>) -> (copy: Vec<RegisteredWallet>)
    ensures
        wallet_views(copy@) == wallet_views(list@),
{
    let mut copy: Vec<RegisteredWallet> = Vec::new();
    let mut i: usize = 0;
    while i < list.len()
        invariant
            i <= list@.len(),
            copy@.len() == i,
            forall|j: int| 0 <= j < i ==> copy@[j]@ == list@[j]@,
        decreases list@.len() - i,
    {
        copy.push(list[i].clone());
        i += 1;
    }
    assert(wallet_views(copy@) =~= wallet_views(list@));
    copy
}

/// Copies a list of operations.
pub fn clone_operations(list: &Vec<AllowedOperation>) -> (copy: Vec<AllowedOperation>)
    ensures
        operation_views(copy@) == operation_views(list@),
{
    let mut copy: Vec<AllowedOperation> = Vec::new();
    let mut i: usize = 0;
    while i < list.len()
        invariant
            i <= list@.len(),
            copy@.len() == i,
            forall|j: int| 0 <= j < i ==> copy@[j]@ == list@[j]@,
        decreases list@.len() - i,
    {
        copy.push(list[i].clone());
        i += 1;
    }
    assert(operation_views(copy@) =~= operation_views(list@));
    copy
}

/// The permission set of one identity key.
#[derive(Debug)]
pub struct UserPermissions {
    /// The wallets that may manage this set; no address occurs twice.
    pub owner_wallets: Vec<RegisteredWallet>,
    /// The allowlist, oldest entry first; no operation id occurs twice.
    pub allowed_operations: Vec<AllowedOperation>,
    /// The nonce of the next operation id.
    pub next_nonce: u64,
}

impl View for UserPermissions {
    type V = PermissionsModel;

    open spec fn view(&self) -> PermissionsModel {
        PermissionsModel {
            wallets: wallet_views(self.owner_wallets@),
            operations: operation_views(self.allowed_operations@),
            next_nonce: self.next_nonce,
        }
    }
}

impl UserPermissions {
    /// No address and no operation id occurs twice.
    pub open spec fn wf(&self) -> bool {
        self@.wf()
    }

    /// The keys of the model are the keys of the lists.
    pub proof fn lemma_keys(&self)
        ensures
            self@.addresses() == wallet_addresses(self.owner_wallets@),
            self@.ids() == operation_ids(self.allowed_operations@),
    {
        assert(self@.addresses() =~= wallet_addresses(self.owner_wallets@));
        assert(self@.ids() =~= operation_ids(self.allowed_operations@));
    }

    /// Whether this set is well formed.
    pub fn is_well_formed(&self) -> (ok: bool)
        ensures
            ok == self.wf(),
    {
        proof {
            self.lemma_keys();
        }
        wallets_distinct(&self.owner_wallets) && operations_distinct(&self.allowed_operations)
    }

    /// A fresh permission set that `wallet` manages: an empty allowlist,
    /// and 1 as the first nonce.
    pub fn new(wallet: RegisteredWallet) -> (permissions: UserPermissions)
        ensures
            permissions.wf(),
            permissions@ == (PermissionsModel {
                wallets: seq![wallet@],
                operations: Seq::empty(),
                next_nonce: 1,
            }),
    {
        let mut owner_wallets: Vec<RegisteredWallet> = Vec::new();
        owner_wallets.push(wallet);
        let permissions = UserPermissions {
            owner_wallets,
            allowed_operations: Vec::new(),
            next_nonce: 1,
        };
        assert(permissions@.wallets =~= seq![wallet@]);
        assert(permissions@.operations =~= Seq::empty());
        permissions
    }

    /// The position of the wallet with the given address.
    pub fn wallet_position(&self, address: &String) -> (at: Option<usize>)
        requires
            self.wf(),
        ensures
            match at {
                Some(i) => i < self.owner_wallets@.len() && self@.has_wallet(address@)
                    && self@.wallet(address@) == self.owner_wallets@[i as int]@,
                None => !self@.has_wallet(address@),
            },
    {
        let at = find_wallet(&self.owner_wallets, address);
        proof {
            self.lemma_keys();
            if let Some(i) = at {
                lemma_index_of_distinct(self@.addresses(), i as int);
            }
        }
        at
    }

    /// The position of the operation with the given identifier.
    pub fn operation_position(&self, id: &String) -> (at: Option<usize>)
        requires
            self.wf(),
        ensures
            match at {
                Some(i) => i < self.allowed_operations@.len() && self@.has_operation(id@)
                    && self@.ids().index_of(id@) == i && self@.operation(id@)
                    == self.allowed_operations@[i as int]@,
                None => !self@.has_operation(id@),
            },
    {
        let at = find_operation(&self.allowed_operations, id);
        proof {
            self.lemma_keys();
            if let Some(i) = at {
                lemma_index_of_distinct(self@.ids(), i as int);
            }
        }
        at
    }

    /// Adds `wallet`, unless a wallet with its address is there already.
    pub fn add_wallet(&mut self, wallet: RegisteredWallet)
        requires
            old(self).wf(),
        ensures
            final(self).wf(),
            final(self)@ == old(self)@.with_wallet(wallet@),
    {
        if self.wallet_position(&wallet.chain_address).is_none() {
            proof {
                lemma_push_distinct(self@.addresses(), wallet@.chain_address);
            }
            self.owner_wallets.push(wallet);
            assert(self@.wallets =~= old(self)@.wallets.push(wallet@));
            assert(self@.addresses() =~= old(self)@.addresses().push(wallet@.chain_address));
        }
    }

    /// Puts `operation` into the allowlist: in the place of the entry with
    /// its identifier, or at the end.
    pub fn put_operation(&mut self, operation: AllowedOperation)
        requires
            old(self).wf(),
        ensures
            final(self).wf(),
            final(self)@ == old(self)@.with_operation(operation@),
    {
        match self.operation_position(&operation.operation_id) {
            Some(i) => {
                self.allowed_operations[i] = operation;
                assert(self@.operations =~= old(self)@.operations.update(i as int, operation@));
                assert(self@.ids() =~= old(self)@.ids());
            },
            None => {
                proof {
                    lemma_push_distinct(self@.ids(), operation@.operation_id);
                }
                self.allowed_operations.push(operation);
                assert(self@.operations =~= old(self)@.operations.push(operation@));
                assert(self@.ids() =~= old(self)@.ids().push(operation@.operation_id));
            },
        }
    }

    /// Takes the operation `id` out of the allowlist, if it is there.
    pub fn remove_operation(&mut self, id: &String)
        requires
            old(self).wf(),
        ensures
            final(self).wf(),
            final(self)@ == old(self)@.without_operation(id@),
    {
        if let Some(i) = self.operation_position(id) {
            proof {
                lemma_set_remove(self@.ids(), i as int);
            }
            let _ = self.allowed_operations.remove(i);
            assert(self@.operations =~= old(self)@.operations.remove(i as int));
            assert(self@.ids() =~= old(self)@.ids().remove(i as int));
        }
    }

    /// Sets the executed flag of operation `id`, if it is there.
    pub fn set_executed(&mut self, id: &String, flag: bool)
        requires
            old(self).wf(),
        ensures
            final(self).wf(),
            final(self)@ == old(self)@.with_executed(id@, flag),
    {
        if let Some(i) = self.operation_position(id) {
            self.allowed_operations[i].executed = flag;
            assert(self@.operations =~= old(self)@.operations.update(
                i as int,
                OperationModel { executed: flag, ..old(self)@.operation(id@) },
            ));
            assert(self@.ids() =~= old(self)@.ids());
        }
    }
}

impl Clone for UserPermissions {
    fn clone(&self) -> (copy: Self)
        ensures
            copy@ == self@,
    {
        UserPermissions {
            owner_wallets: clone_wallets(&self.owner_wallets),
            allowed_operations: clone_operations(&self.allowed_operations),
            next_nonce: self.next_nonce,
        }
    }
}

/// A copy of a permission set, made for a query.
#[derive(Debug)]
pub struct UserPermissionsView {
    pub owner_wallets: Vec<RegisteredWallet>,
    pub operations: Vec<AllowedOperation>,
    pub next_nonce: u64,
}

impl View for UserPermissionsView {
    type V = PermissionsModel;

    open spec fn view(&self) -> PermissionsModel {
        PermissionsModel {
            wallets: wallet_views(self.owner_wallets@),
            operations: operation_views(self.operations@),
            next_nonce: self.next_nonce,
        }
    }
}

impl UserPermissionsView {
    /// Copies a permission set: the same wallets, operations and next
    /// nonce.
    pub fn from(perms: &UserPermissions) -> (copy: UserPermissionsView)
        ensures
            copy@ == perms@,
    {
        UserPermissionsView {
            owner_wallets: clone_wallets(&perms.owner_wallets),
            operations: clone_operations(&perms.allowed_operations),
            next_nonce: perms.next_nonce,
        }
    }
}

} // verus!
