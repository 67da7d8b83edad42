//! What holds of the engine in every state: the laws that its checks and
//! transitions obey, proved over the model.

use vstd::prelude::*;
use vstd::utf8::encode_utf8;
use crate::error::{ErrorKind, PermissionError};
use crate::keyed::{
    lemma_index_of_distinct,
    lemma_push_distinct,
    lemma_set_remove,
    seq_insert,
    seq_remove,
};
use crate::model::{
    is_expired,
    is_fresh,
    key_domain,
    trigger_error,
    ContractModel,
    PermissionsModel,
};
use crate::text::{lemma_operation_ids_differ, operation_id_text, registration_text};
use crate::types::{OperationInputModel, OperationModel, WalletModel};

verus! {

/// After an insertion a sequence holds what it held and the new item.
pub proof fn lemma_seq_insert<T>(s: Seq<T>, x: T)
    requires
        s.no_duplicates(),
    ensures
        seq_insert(s, x).no_duplicates(),
        forall|y: T| #[trigger] seq_insert(s, x).contains(y) <==> s.contains(y) || y == x,
{
    let t = seq_insert(s, x);
    if !s.contains(x) {
        lemma_push_distinct(s, x);
        assert forall|y: T| #[trigger] t.contains(y) <==> s.contains(y) || y == x by {
            if t.contains(y) {
                let i = choose|i: int| 0 <= i < t.len() && t[i] == y;
                if i < s.len() {
                    assert(s[i] == y);
                }
            }
            if s.contains(y) {
                let i = choose|i: int| 0 <= i < s.len() && s[i] == y;
                assert(t[i] == y);
            }
            if y == x {
                assert(t[s.len() as int] == x);
            }
        }
    }
}

/// After a removal a sequence holds what it held but the removed item.
pub proof fn lemma_seq_remove<T>(s: Seq<T>, x: T)
    requires
        s.no_duplicates(),
    ensures
        seq_remove(s, x).no_duplicates(),
        forall|y: T| #[trigger] seq_remove(s, x).contains(y) <==> s.contains(y) && y != x,
{
    let t = seq_remove(s, x);
    if s.contains(x) {
        let i = s.index_of(x);
        lemma_set_remove(s, i);
        assert forall|y: T| #[trigger] t.contains(y) <==> s.contains(y) && y != x by {
            assert(t.to_set().contains(y) <==> s.to_set().remove(x).contains(y));
        }
    }
}

/// What putting an operation into an allowlist changes, and what it keeps.
pub proof fn lemma_with_operation(p: PermissionsModel, operation: OperationModel)
    requires
        p.wf(),
    ensures
        p.with_operation(operation).wf(),
        p.with_operation(operation).wallets == p.wallets,
        p.with_operation(operation).next_nonce == p.next_nonce,
        p.with_operation(operation).has_operation(operation.operation_id),
        p.with_operation(operation).operation(operation.operation_id) == operation,
        forall|id: Seq<char>|
            id != operation.operation_id ==> (#[trigger] p.with_operation(operation).has_operation(
                id,
            )) == p.has_operation(id),
        forall|id: Seq<char>|
            id != operation.operation_id && p.has_operation(id) ==> (#[trigger] p.with_operation(
                operation,
            ).operation(id)) == p.operation(id),
{
    let q = p.with_operation(operation);
    let ids = p.ids();
    let key = operation.operation_id;
    assert(q.addresses() =~= p.addresses());
    if p.has_operation(key) {
        let i = ids.index_of(key);
        assert(0 <= i < ids.len() && ids[i] == key);
        assert(q.ids() =~= ids);
        lemma_index_of_distinct(ids, i);
        assert forall|id: Seq<char>| id != key && p.has_operation(id) implies (
        #[trigger] q.operation(id)) == p.operation(id) by {
            let j = ids.index_of(id);
            assert(0 <= j < ids.len() && ids[j] == id);
        }
    } else {
        lemma_push_distinct(ids, key);
        assert(q.ids() =~= ids.push(key));
        let n = ids.len() as int;
        assert(q.ids()[n] == key);
        lemma_index_of_distinct(q.ids(), n);
        assert forall|id: Seq<char>| id != key implies (#[trigger] q.has_operation(id))
            == p.has_operation(id) by {
            if q.has_operation(id) {
                let j = choose|j: int| 0 <= j < q.ids().len() && q.ids()[j] == id;
                assert(j < n);
                assert(ids[j] == id);
            }
            if p.has_operation(id) {
                let j = choose|j: int| 0 <= j < ids.len() && ids[j] == id;
                assert(q.ids()[j] == id);
            }
        }
        assert forall|id: Seq<char>| id != key && p.has_operation(id) implies (
        #[trigger] q.operation(id)) == p.operation(id) by {
            let j = ids.index_of(id);
            assert(0 <= j < ids.len() && ids[j] == id);
            assert(q.ids()[j] == id);
            lemma_index_of_distinct(q.ids(), j);
        }
    }
}

/// What taking an operation out of an allowlist changes, and what it
/// keeps.
pub proof fn lemma_without_operation(p: PermissionsModel, key: Seq<char>)
    requires
        p.wf(),
    ensures
        p.without_operation(key).wf(),
        p.without_operation(key).wallets == p.wallets,
        p.without_operation(key).next_nonce == p.next_nonce,
        !p.without_operation(key).has_operation(key),
        forall|id: Seq<char>|
            id != key ==> (#[trigger] p.without_operation(key).has_operation(id))
                == p.has_operation(id),
        forall|id: Seq<char>|
            id != key && p.has_operation(id) ==> (#[trigger] p.without_operation(key).operation(
                id,
            )) == p.operation(id),
{
    let q = p.without_operation(key);
    let ids = p.ids();
    assert(q.addresses() =~= p.addresses());
    if p.has_operation(key) {
        let i = ids.index_of(key);
        assert(0 <= i < ids.len() && ids[i] == key);
        assert(q.ids() =~= ids.remove(i));
        lemma_set_remove(ids, i);
        assert forall|id: Seq<char>| id != key implies (#[trigger] q.has_operation(id))
            == p.has_operation(id) by {
            assert(q.ids().to_set().contains(id) <==> ids.to_set().remove(key).contains(id));
        }
        assert forall|id: Seq<char>| id != key && p.has_operation(id) implies (
        #[trigger] q.operation(id)) == p.operation(id) by {
            let j = ids.index_of(id);
            assert(0 <= j < ids.len() && ids[j] == id);
            let j2 = if j < i {
                j
            } else {
                j - 1
            };
            assert(q.ids()[j2] == id);
            lemma_index_of_distinct(q.ids(), j2);
        }
    }
}

/// What setting the executed flag of an operation changes, and what it
/// keeps.
pub proof fn lemma_with_executed(p: PermissionsModel, key: Seq<char>, flag: bool)
    requires
        p.wf(),
    ensures
        p.with_executed(key, flag).wf(),
        p.with_executed(key, flag).wallets == p.wallets,
        p.with_executed(key, flag).next_nonce == p.next_nonce,
        forall|id: Seq<char>| (#[trigger] p.with_executed(key, flag).has_operation(id))
            == p.has_operation(id),
        p.has_operation(key) ==> p.with_executed(key, flag).operation(key) == (OperationModel {
            executed: flag,
            ..p.operation(key)
        }),
        forall|id: Seq<char>|
            id != key && p.has_operation(id) ==> (#[trigger] p.with_executed(key, flag).operation(
                id,
            )) == p.operation(id),
{
    if p.has_operation(key) {
        let i = p.ids().index_of(key);
        assert(0 <= i < p.ids().len() && p.ids()[i] == key);
        lemma_with_operation(p, OperationModel { executed: flag, ..p.operation(key) });
    }
}

/// A signer that is no registered wallet of an identity key cannot change
/// that key's allowlist: its proof is turned down whatever it signed, as an
/// authentication failure or as not found.
pub proof fn law_unregistered_signer_is_turned_down(
    s: ContractModel,
    caller: Seq<char>,
    path: Seq<char>,
    signer: Seq<char>,
    message: Seq<u8>,
    signature: Seq<u8>,
)
    requires
        !(s.has_path(path) && s.permissions[path].has_wallet(signer)),
    ensures
        s.proof_error(caller, path, signer, message, signature) is Some,
        s.proof_error(caller, path, signer, message, signature) != Some(
            PermissionError::InvalidSignature,
        ),
        s.relayers.contains(caller) ==> s.proof_error(
            caller,
            path,
            signer,
            message,
            signature,
        ).unwrap().spec_kind() == ErrorKind::NotFound,
{
}

/// An executed operation is never signed for again: whoever asks, whenever,
/// with whatever price or key type, the request is turned down.
pub proof fn law_executed_is_never_signed_again(
    s: ContractModel,
    caller: Seq<char>,
    now: u64,
    path: Seq<char>,
    id: Seq<char>,
    key_type: Seq<char>,
    price: Option<u128>,
    timestamp: Option<u64>,
)
    requires
        s.has_operation(path, id),
        s.operation(path, id).executed,
    ensures
        !s.is_allowed(now, path, id),
        s.signing_error(caller, now, path, id, key_type, price, timestamp) is Some,
        s.relayers.contains(caller) ==> s.signing_error(
            caller,
            now,
            path,
            id,
            key_type,
            price,
            timestamp,
        ) == Some(PermissionError::AlreadyExecuted),
{
}

/// A reservation marks the operation executed, so that a second request
/// for the same operation is turned down as a replay.
pub proof fn law_at_most_once(
    s: ContractModel,
    caller: Seq<char>,
    now: u64,
    path: Seq<char>,
    id: Seq<char>,
    key_type: Seq<char>,
    price: Option<u128>,
    timestamp: Option<u64>,
    caller2: Seq<char>,
    now2: u64,
    key_type2: Seq<char>,
    price2: Option<u128>,
    timestamp2: Option<u64>,
)
    requires
        s.wf(),
        s.signing_error(caller, now, path, id, key_type, price, timestamp) is None,
    ensures
        !s.reserved(path, id).is_allowed(now2, path, id),
        !s.reserved(path, id).active.contains((path, id)),
        s.reserved(path, id).signing_error(caller2, now2, path, id, key_type2, price2, timestamp2)
            is Some,
        s.reserved(path, id).relayers.contains(caller2) ==> s.reserved(path, id).signing_error(
            caller2,
            now2,
            path,
            id,
            key_type2,
            price2,
            timestamp2,
        ).unwrap().spec_kind() == ErrorKind::ReplayRejected,
{
    lemma_with_executed(s.permissions[path], id, true);
    lemma_seq_remove(s.active, (path, id));
    let t = s.reserved(path, id);
    assert(t.has_operation(path, id));
    assert(t.operation(path, id).executed);
}

/// An operation that expires at `t` cannot be executed from `t` on,
/// whether it was executed or not; before `t` it can, unless it was
/// executed.
pub proof fn law_expiry(s: ContractModel, now: u64, path: Seq<char>, id: Seq<char>, t: u64)
    requires
        s.has_operation(path, id),
        s.operation(path, id).expires_at == Some(t),
    ensures
        now >= t ==> !s.is_allowed(now, path, id),
        now < t && !s.operation(path, id).executed ==> s.is_allowed(now, path, id),
{
}

/// A registration consumes its nonce: the same address cannot register
/// under the same nonce again, for any identity key and whatever it signed.
pub proof fn law_registration_nonce_is_consumed(
    s: ContractModel,
    path: Seq<char>,
    wallet: WalletModel,
    nonce: u64,
    caller2: Seq<char>,
    path2: Seq<char>,
    message2: Seq<u8>,
    signature_ok2: bool,
)
    ensures
        s.with_wallet(path, wallet, nonce).registration_error(
            caller2,
            path2,
            wallet.chain_address,
            message2,
            nonce,
            signature_ok2,
        ) is Some,
        s.relayers.contains(caller2) ==> s.with_wallet(path, wallet, nonce).registration_error(
            caller2,
            path2,
            wallet.chain_address,
            message2,
            nonce,
            signature_ok2,
        ) == Some(PermissionError::NonceAlreadyUsed),
        PermissionError::NonceAlreadyUsed.spec_kind() == ErrorKind::ReplayRejected,
{
}

/// After a registration the same address can register again for the same
/// identity key under a nonce it has not consumed; the wallets of the key
/// stay as they are.
pub proof fn law_registration_is_idempotent(
    s: ContractModel,
    caller: Seq<char>,
    path: Seq<char>,
    wallet: WalletModel,
    nonce: u64,
    nonce2: u64,
)
    requires
        s.wf(),
        s.relayers.contains(caller),
        nonce2 != nonce,
        !s.used_nonces.contains((wallet.chain_address, nonce2)),
    ensures
        s.with_wallet(path, wallet, nonce).registration_error(
            caller,
            path,
            wallet.chain_address,
            encode_utf8(registration_text(path, nonce2)),
            nonce2,
            true,
        ) is None,
        s.with_wallet(path, wallet, nonce).with_wallet(path, wallet, nonce2).permissions
            == s.with_wallet(path, wallet, nonce).permissions,
        s.with_wallet(path, wallet, nonce).with_wallet(path, wallet, nonce2).wallet_to_path
            == s.with_wallet(path, wallet, nonce).wallet_to_path,
{
    let s1 = s.with_wallet(path, wallet, nonce);
    let s2 = s1.with_wallet(path, wallet, nonce2);
    assert(s1.has_path(path));
    assert(s1.permissions[path].has_wallet(wallet.chain_address)) by {
        if s.has_path(path) {
            let p = s.permissions[path];
            if !p.has_wallet(wallet.chain_address) {
                let q = p.with_wallet(wallet);
                assert(q.addresses() =~= p.addresses().push(wallet.chain_address));
                assert(q.addresses()[p.addresses().len() as int] == wallet.chain_address);
            }
        } else {
            let q = s1.permissions[path];
            assert(q.addresses() =~= seq![wallet.chain_address]);
            assert(q.addresses()[0] == wallet.chain_address);
        }
    }
    assert(s2.permissions =~= s1.permissions);
    assert(s2.wallet_to_path =~= s1.wallet_to_path);
}

/// Compensation: when the signer fails after a reservation, the release
/// gives the operation back as it was: not executed, in the active index,
/// and a request that was accepted before is accepted again.
pub proof fn law_compensation(
    s: ContractModel,
    caller: Seq<char>,
    now: u64,
    path: Seq<char>,
    id: Seq<char>,
    key_type: Seq<char>,
    price: Option<u128>,
    timestamp: Option<u64>,
)
    requires
        s.wf(),
        s.signing_error(caller, now, path, id, key_type, price, timestamp) is None,
    ensures
        s.reserved(path, id).released(path, id).has_operation(path, id),
        s.reserved(path, id).released(path, id).operation(path, id) == s.operation(path, id),
        !s.reserved(path, id).released(path, id).operation(path, id).executed,
        s.reserved(path, id).released(path, id).active.contains((path, id)),
        s.reserved(path, id).released(path, id).is_allowed(now, path, id),
        s.reserved(path, id).released(path, id).signing_error(
            caller,
            now,
            path,
            id,
            key_type,
            price,
            timestamp,
        ) is None,
{
    let p = s.permissions[path];
    lemma_with_executed(p, id, true);
    lemma_seq_remove(s.active, (path, id));
    let s1 = s.reserved(path, id);
    let held = s1.permissions[path];
    assert(held == p.with_executed(id, true));
    assert(s1.has_operation(path, id));
    lemma_with_executed(held, id, false);
    lemma_seq_insert(s1.active, (path, id));
    let s2 = s1.released(path, id);
    assert(s2.permissions[path] == held.with_executed(id, false));
    assert(s2.has_operation(path, id));
}

/// Approving an operation keeps the active index exact.
proof fn lemma_approval_keeps_index(
    s: ContractModel,
    path: Seq<char>,
    input: OperationInputModel,
    now: u64,
)
    requires
        s.wf(),
        s.index_consistent(),
        s.has_path(path),
    ensures
        s.with_operation(path, input, now).wf(),
        s.with_operation(path, input, now).index_consistent(),
        s.with_operation(path, input, now).active.contains((path, s.next_operation_id(path))),
{
    let p = s.permissions[path];
    let operation = s.new_operation(path, input, now);
    let key = operation.operation_id;
    lemma_with_operation(p, operation);
    lemma_seq_insert(s.active, (path, key));
    let t = s.with_operation(path, input, now);
    let q = t.permissions[path];
    assert(q.ids() =~= p.with_operation(operation).ids());
    assert(q.addresses() =~= p.addresses());
    assert(q.operations == p.with_operation(operation).operations);
    assert forall|a: Seq<char>, b: Seq<char>| #[trigger]
        t.active.contains((a, b)) <==> t.has_operation(a, b) && !t.operation(a, b).executed by {
        assert(s.active.contains((a, b)) <==> s.has_operation(a, b) && !s.operation(
            a,
            b,
        ).executed);
        if a == path {
            if b == key {
                assert(q.has_operation(b));
                assert(q.operation(b) == operation);
            } else {
                assert(q.has_operation(b) == p.with_operation(operation).has_operation(b));
                if p.has_operation(b) {
                    assert(q.operation(b) == p.with_operation(operation).operation(b));
                }
            }
        } else {
            assert((a, b) != (path, key));
        }
    }
}

/// Revoking an operation keeps the active index exact.
proof fn lemma_revocation_keeps_index(s: ContractModel, path: Seq<char>, id: Seq<char>)
    requires
        s.wf(),
        s.index_consistent(),
        s.has_path(path),
    ensures
        s.without_operation(path, id).wf(),
        s.without_operation(path, id).index_consistent(),
        !s.without_operation(path, id).has_operation(path, id),
        !s.without_operation(path, id).active.contains((path, id)),
{
    let p = s.permissions[path];
    lemma_without_operation(p, id);
    lemma_seq_remove(s.active, (path, id));
    let t = s.without_operation(path, id);
    let q = t.permissions[path];
    assert forall|a: Seq<char>, b: Seq<char>| #[trigger]
        t.active.contains((a, b)) <==> t.has_operation(a, b) && !t.operation(a, b).executed by {
        assert(s.active.contains((a, b)) <==> s.has_operation(a, b) && !s.operation(
            a,
            b,
        ).executed);
        if a == path {
            if b == id {
            } else {
                assert(q.has_operation(b) == p.has_operation(b));
                if p.has_operation(b) {
                    assert(q.operation(b) == p.operation(b));
                }
            }
        } else {
            assert((a, b) != (path, id));
        }
    }
}

/// Reserving an operation keeps the active index exact.
proof fn lemma_reservation_keeps_index(s: ContractModel, path: Seq<char>, id: Seq<char>)
    requires
        s.wf(),
        s.index_consistent(),
        s.has_path(path),
    ensures
        s.reserved(path, id).wf(),
        s.reserved(path, id).index_consistent(),
{
    let p = s.permissions[path];
    lemma_with_executed(p, id, true);
    lemma_seq_remove(s.active, (path, id));
    let t = s.reserved(path, id);
    let q = t.permissions[path];
    assert forall|a: Seq<char>, b: Seq<char>| #[trigger]
        t.active.contains((a, b)) <==> t.has_operation(a, b) && !t.operation(a, b).executed by {
        assert(s.active.contains((a, b)) <==> s.has_operation(a, b) && !s.operation(
            a,
            b,
        ).executed);
        if a == path {
            assert(q.has_operation(b) == p.has_operation(b));
            if b == id {
            } else {
                if p.has_operation(b) {
                    assert(q.operation(b) == p.operation(b));
                }
            }
        } else {
            assert((a, b) != (path, id));
        }
    }
}

/// Releasing a reservation keeps the active index exact.
proof fn lemma_release_keeps_index(s: ContractModel, path: Seq<char>, id: Seq<char>)
    requires
        s.wf(),
        s.index_consistent(),
    ensures
        s.released(path, id).wf(),
        s.released(path, id).index_consistent(),
{
    if s.has_operation(path, id) {
        let p = s.permissions[path];
        lemma_with_executed(p, id, false);
        lemma_seq_insert(s.active, (path, id));
        let t = s.released(path, id);
        let q = t.permissions[path];
        assert forall|a: Seq<char>, b: Seq<char>| #[trigger]
            t.active.contains((a, b)) <==> t.has_operation(a, b) && !t.operation(
                a,
                b,
            ).executed by {
            assert(s.active.contains((a, b)) <==> s.has_operation(a, b) && !s.operation(
                a,
                b,
            ).executed);
            if a == path {
                assert(q.has_operation(b) == p.has_operation(b));
                if b == id {
                } else {
                    if p.has_operation(b) {
                        assert(q.operation(b) == p.operation(b));
                    }
                }
            } else {
                assert((a, b) != (path, id));
            }
        }
    }
}

/// Registering a wallet keeps the active index exact.
proof fn lemma_registration_keeps_index(
    s: ContractModel,
    path: Seq<char>,
    wallet: WalletModel,
    nonce: u64,
)
    requires
        s.wf(),
        s.index_consistent(),
    ensures
        s.with_wallet(path, wallet, nonce).wf(),
        s.with_wallet(path, wallet, nonce).index_consistent(),
{
    let t = s.with_wallet(path, wallet, nonce);
    let q = t.permissions[path];
    if s.has_path(path) {
        let p = s.permissions[path];
        assert(q.ids() =~= p.ids());
        if !p.has_wallet(wallet.chain_address) {
            assert(q.addresses() =~= p.addresses().push(wallet.chain_address));
            lemma_push_distinct(p.addresses(), wallet.chain_address);
        }
    } else {
        assert(q.ids() =~= Seq::empty());
        assert(q.addresses() =~= seq![wallet.chain_address]);
    }
    assert forall|a: Seq<char>, b: Seq<char>| #[trigger]
        t.active.contains((a, b)) <==> t.has_operation(a, b) && !t.operation(a, b).executed by {
        assert(s.active.contains((a, b)) <==> s.has_operation(a, b) && !s.operation(
            a,
            b,
        ).executed);
        if a == path {
            if s.has_path(path) {
                assert(q.operations == s.permissions[path].operations);
            }
        }
    }
}

/// Operation ids are never used twice: the identifier that an identity key
/// issues next is borne by none of its operations, so that an approval
/// adds an entry and replaces none. Issuing it keeps the identifiers in
/// order.
pub proof fn law_operation_ids_are_fresh(
    s: ContractModel,
    path: Seq<char>,
    input: OperationInputModel,
    now: u64,
)
    requires
        s.wf(),
        s.operations_in_order(),
        s.insertion_error(path) is None,
    ensures
        !s.has_operation(path, s.next_operation_id(path)),
        s.with_operation(path, input, now).permissions[path].operations
            == s.permissions[path].operations.push(s.new_operation(path, input, now)),
        s.with_operation(path, input, now).permissions[path].next_nonce
            == s.permissions[path].next_nonce + 1,
        s.with_operation(path, input, now).operations_in_order(),
{
    let p = s.permissions[path];
    let key = s.next_operation_id(path);
    if p.has_operation(key) {
        let i = p.ids().index_of(key);
        assert(0 <= i < p.ids().len() && p.ids()[i] == key);
        let operation = p.operations[i];
        assert(operation.operation_id == operation_id_text(path, operation.nonce));
        lemma_operation_ids_differ(path, operation.nonce, p.next_nonce);
    }
    let t = s.with_operation(path, input, now);
    let q = t.permissions[path];
    assert forall|a: Seq<char>, i: int|
        t.has_path(a) && 0 <= i < t.permissions[a].operations.len() implies {
        let operation = #[trigger] t.permissions[a].operations[i];
        &&& operation.derivation_path == a
        &&& operation.operation_id == operation_id_text(a, operation.nonce)
        &&& operation.nonce < t.permissions[a].next_nonce
    } by {
        if a == path {
            if i < p.operations.len() {
                assert(q.operations[i] == p.operations[i]);
            }
        } else {
            assert(t.permissions[a] == s.permissions[a]);
        }
    }
}

/// Registering a wallet keeps the identifiers in order.
proof fn lemma_registration_keeps_ids(
    s: ContractModel,
    path: Seq<char>,
    wallet: WalletModel,
    nonce: u64,
)
    requires
        s.operations_in_order(),
    ensures
        s.with_wallet(path, wallet, nonce).operations_in_order(),
{
    let t = s.with_wallet(path, wallet, nonce);
    assert forall|a: Seq<char>, i: int|
        t.has_path(a) && 0 <= i < t.permissions[a].operations.len() implies {
        let operation = #[trigger] t.permissions[a].operations[i];
        &&& operation.derivation_path == a
        &&& operation.operation_id == operation_id_text(a, operation.nonce)
        &&& operation.nonce < t.permissions[a].next_nonce
    } by {
        if a == path {
            if s.has_path(path) {
                assert(t.permissions[a].operations == s.permissions[a].operations);
                assert(t.permissions[a].operations[i] == s.permissions[a].operations[i]);
            }
        } else {
            assert(t.permissions[a] == s.permissions[a]);
        }
    }
}

/// Revoking an operation keeps the identifiers in order.
proof fn lemma_revocation_keeps_ids(s: ContractModel, path: Seq<char>, id: Seq<char>)
    requires
        s.operations_in_order(),
        s.has_path(path),
    ensures
        s.without_operation(path, id).operations_in_order(),
{
    let p = s.permissions[path];
    let t = s.without_operation(path, id);
    assert forall|a: Seq<char>, i: int|
        t.has_path(a) && 0 <= i < t.permissions[a].operations.len() implies {
        let operation = #[trigger] t.permissions[a].operations[i];
        &&& operation.derivation_path == a
        &&& operation.operation_id == operation_id_text(a, operation.nonce)
        &&& operation.nonce < t.permissions[a].next_nonce
    } by {
        if a == path {
            if p.has_operation(id) {
                let k = p.ids().index_of(id);
                assert(0 <= k < p.ids().len() && p.ids()[k] == id);
                let j = if i < k {
                    i
                } else {
                    i + 1
                };
                assert(t.permissions[a].operations[i] == p.operations[j]);
            } else {
                assert(t.permissions[a].operations[i] == p.operations[i]);
            }
        } else {
            assert(t.permissions[a] == s.permissions[a]);
        }
    }
}

/// Setting the executed flag of an operation keeps the identifiers in
/// order, whatever becomes of the active index.
proof fn lemma_flag_keeps_order(
    s: ContractModel,
    path: Seq<char>,
    id: Seq<char>,
    flag: bool,
    active: Seq<(Seq<char>, Seq<char>)>,
)
    requires
        s.operations_in_order(),
        s.has_path(path),
    ensures
        (ContractModel {
            permissions: s.permissions.insert(path, s.permissions[path].with_executed(id, flag)),
            active,
            ..s
        }).operations_in_order(),
{
    let p = s.permissions[path];
    let q = p.with_executed(id, flag);
    assert forall|i: int| 0 <= i < q.operations.len() implies {
        let operation = #[trigger] q.operations[i];
        &&& operation.derivation_path == path
        &&& operation.operation_id == operation_id_text(path, operation.nonce)
        &&& operation.nonce < q.next_nonce
    } by {
        if p.has_operation(id) {
            let k = p.ids().index_of(id);
            assert(0 <= k < p.ids().len() && p.ids()[k] == id);
            assert(q.operations.len() == p.operations.len());
            if i == k {
                assert(p.operations[k].operation_id == id);
            } else {
                assert(q.operations[i] == p.operations[i]);
            }
        } else {
            assert(q.operations[i] == p.operations[i]);
        }
    }
    let t = ContractModel { permissions: s.permissions.insert(path, q), active, ..s };
    assert forall|a: Seq<char>, i: int|
        t.has_path(a) && 0 <= i < t.permissions[a].operations.len() implies {
        let operation = #[trigger] t.permissions[a].operations[i];
        &&& operation.derivation_path == a
        &&& operation.operation_id == operation_id_text(a, operation.nonce)
        &&& operation.nonce < t.permissions[a].next_nonce
    } by {
        if a == path {
            assert(t.permissions[a] == q);
        } else {
            assert(t.permissions[a] == s.permissions[a]);
        }
    }
}

/// A request to sign is accepted exactly when the caller is a relayer, the
/// operation exists, is not executed and has not expired, a supplied price
/// is fresh and meets the trigger, and the key type is recognized.
pub proof fn law_signing_is_accepted_exactly_when(
    s: ContractModel,
    caller: Seq<char>,
    now: u64,
    path: Seq<char>,
    id: Seq<char>,
    key_type: Seq<char>,
    price: Option<u128>,
    timestamp: Option<u64>,
)
    ensures
        s.signing_error(caller, now, path, id, key_type, price, timestamp) is None <==> {
            &&& s.relayers.contains(caller)
            &&& s.has_operation(path, id)
            &&& !s.operation(path, id).executed
            &&& !is_expired(s.operation(path, id), now)
            &&& (price is Some ==> is_fresh(timestamp, now) && trigger_error(
                s.operation(path, id).operation_type,
                price.unwrap(),
            ) is None)
            &&& key_domain(key_type) is Some
        },
{
}

/// A request that is accepted with a price had a fresh price that meets
/// the trigger: the timestamp, where there is one, lies no more than a
/// minute from the block time, on either side.
pub proof fn law_accepted_price_is_fresh(
    s: ContractModel,
    caller: Seq<char>,
    now: u64,
    path: Seq<char>,
    id: Seq<char>,
    key_type: Seq<char>,
    price: u128,
    timestamp: Option<u64>,
)
    requires
        s.signing_error(caller, now, path, id, key_type, Some(price), timestamp) is None,
    ensures
        is_fresh(timestamp, now),
        trigger_error(s.operation(path, id).operation_type, price) is None,
{
}

/// A price whose timestamp lies more than a minute from the block time, on
/// either side, lets no operation run, whatever the price.
pub proof fn law_price_outside_window_is_turned_down(
    s: ContractModel,
    caller: Seq<char>,
    now: u64,
    path: Seq<char>,
    id: Seq<char>,
    key_type: Seq<char>,
    price: u128,
    timestamp: Option<u64>,
)
    requires
        !is_fresh(timestamp, now),
    ensures
        s.signing_error(caller, now, path, id, key_type, Some(price), timestamp) is Some,
{
}

/// In a state whose operations are in order, every operation that an index
/// resolves to names the identity key of its entry.
pub proof fn law_resolved_operations_name_their_key(
    s: ContractModel,
    entries: Seq<(Seq<char>, Seq<char>)>,
)
    requires
        s.operations_in_order(),
    ensures
        forall|i: int|
            0 <= i < s.resolve(entries).len() ==> (#[trigger] s.resolve(
                entries,
            )[i]).1.derivation_path == s.resolve(entries)[i].0,
    decreases entries.len(),
{
    if entries.len() > 0 {
        law_resolved_operations_name_their_key(s, entries.drop_last());
        let entry = entries.last();
        if s.has_operation(entry.0, entry.1) {
            law_operation_names_its_key(s, entry.0, entry.1);
        }
    }
}

/// In a state whose operations are in order, an operation names the
/// identity key under which it is found.
pub proof fn law_operation_names_its_key(s: ContractModel, path: Seq<char>, id: Seq<char>)
    requires
        s.operations_in_order(),
        s.has_operation(path, id),
    ensures
        s.operation(path, id).derivation_path == path,
        s.operation(path, id).operation_id == operation_id_text(path, s.operation(path, id).nonce),
        s.operation(path, id).nonce < s.permissions[path].next_nonce,
{
    let p = s.permissions[path];
    let k = p.ids().index_of(id);
    assert(0 <= k < p.ids().len() && p.ids()[k] == id);
    assert(s.operation(path, id) == p.operations[k]);
}

/// A new engine is well formed and coherent.
pub proof fn law_initial_state(owner: Seq<char>, mpc_contract: Seq<char>)
    ensures
        ContractModel::initial(owner, mpc_contract).wf(),
        ContractModel::initial(owner, mpc_contract).coherent(),
{
    let s = ContractModel::initial(owner, mpc_contract);
    assert forall|a: Seq<char>, b: Seq<char>| #[trigger]
        s.active.contains((a, b)) <==> s.has_operation(a, b) && !s.operation(a, b).executed by {}
}

/// Coherence is a matter of the permission sets and the active index
/// alone: a change of the administration keeps it.
pub proof fn law_administration_keeps_coherence(s: ContractModel, t: ContractModel)
    requires
        s.coherent(),
        t.permissions == s.permissions,
        t.active == s.active,
    ensures
        t.coherent(),
{
    assert forall|a: Seq<char>, b: Seq<char>| #[trigger]
        t.active.contains((a, b)) <==> t.has_operation(a, b) && !t.operation(a, b).executed by {
        assert(s.active.contains((a, b)) <==> s.has_operation(a, b) && !s.operation(
            a,
            b,
        ).executed);
    }
    assert forall|a: Seq<char>, i: int|
        t.has_path(a) && 0 <= i < t.permissions[a].operations.len() implies {
        let operation = #[trigger] t.permissions[a].operations[i];
        &&& operation.derivation_path == a
        &&& operation.operation_id == operation_id_text(a, operation.nonce)
        &&& operation.nonce < t.permissions[a].next_nonce
    } by {
        assert(s.has_path(a));
    }
}

/// Registering a wallet keeps a coherent state coherent.
pub proof fn law_registration_keeps_coherence(
    s: ContractModel,
    path: Seq<char>,
    wallet: WalletModel,
    nonce: u64,
)
    requires
        s.wf(),
        s.coherent(),
    ensures
        s.with_wallet(path, wallet, nonce).wf(),
        s.with_wallet(path, wallet, nonce).coherent(),
{
    lemma_registration_keeps_index(s, path, wallet, nonce);
    lemma_registration_keeps_ids(s, path, wallet, nonce);
}

/// Approving an operation keeps a coherent state coherent, and the new
/// operation is in the active index.
pub proof fn law_approval_keeps_coherence(
    s: ContractModel,
    path: Seq<char>,
    input: OperationInputModel,
    now: u64,
)
    requires
        s.wf(),
        s.coherent(),
        s.insertion_error(path) is None,
    ensures
        s.with_operation(path, input, now).wf(),
        s.with_operation(path, input, now).coherent(),
        s.with_operation(path, input, now).active.contains((path, s.next_operation_id(path))),
{
    lemma_approval_keeps_index(s, path, input, now);
    law_operation_ids_are_fresh(s, path, input, now);
}

/// Revoking an operation keeps a coherent state coherent, and the
/// operation is gone from the allowlist and from the active index.
pub proof fn law_revocation_keeps_coherence(s: ContractModel, path: Seq<char>, id: Seq<char>)
    requires
        s.wf(),
        s.coherent(),
        s.has_path(path),
    ensures
        s.without_operation(path, id).wf(),
        s.without_operation(path, id).coherent(),
        !s.without_operation(path, id).has_operation(path, id),
        !s.without_operation(path, id).active.contains((path, id)),
{
    lemma_revocation_keeps_index(s, path, id);
    lemma_revocation_keeps_ids(s, path, id);
}

/// Reserving an operation keeps a coherent state coherent.
pub proof fn law_reservation_keeps_coherence(s: ContractModel, path: Seq<char>, id: Seq<char>)
    requires
        s.wf(),
        s.coherent(),
        s.has_path(path),
    ensures
        s.reserved(path, id).wf(),
        s.reserved(path, id).coherent(),
{
    lemma_reservation_keeps_index(s, path, id);
    lemma_flag_keeps_order(s, path, id, true, seq_remove(s.active, (path, id)));
}

/// Releasing a reservation keeps a coherent state coherent: no operation
/// is left in between, neither waiting nor executed.
pub proof fn law_release_keeps_coherence(s: ContractModel, path: Seq<char>, id: Seq<char>)
    requires
        s.wf(),
        s.coherent(),
    ensures
        s.released(path, id).wf(),
        s.released(path, id).coherent(),
{
    lemma_release_keeps_index(s, path, id);
    if s.has_operation(path, id) {
        lemma_flag_keeps_order(s, path, id, false, seq_insert(s.active, (path, id)));
    }
}

} // verus!
