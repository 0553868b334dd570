use vstd::prelude::*;

use crate::errors::StorageError;
use crate::oracle::FPOContract;
use crate::store::{lemma_lookup_found, lemma_lookup_none, lemma_lookup_push, lemma_lookup_update};

verus! {

/// The smallest deposit `storage_deposit` accepts.
pub const STORAGE_MINIMUM_BALANCE: u128 = 10_000_000_000_000_000_000_000;

/// The price of one byte of storage, in the host's smallest money unit.
pub const STORAGE_PRICE_PER_BYTE: u128 = 10_000_000_000_000_000_000;

/// The storage balance an account holds with the contract.
#[derive(Clone, Copy, Debug, PartialEq, Eq, Structural)]
pub struct AccountStorageBalance {
    /// Everything the account ever deposited and has not withdrawn.
    pub total: u128,
    /// The part not currently locked for stored data.
    pub available: u128,
}

/// A storage balance as reported to callers.
#[derive(Clone, Copy, Debug, PartialEq, Eq, Structural)]
pub struct StorageBalance {
    /// The account's total balance.
    pub total: u128,
    /// The account's available balance.
    pub available: u128,
}

/// The deposit bounds the contract accepts.
#[derive(Clone, Copy, Debug, PartialEq, Eq, Structural)]
pub struct StorageBalanceBounds {
    /// The smallest acceptable deposit.
    pub min: u128,
    /// The largest acceptable deposit, if the contract caps it.
    pub max: Option<u128>,
}

/// A storage balance together with the account that owns it; the owner is
/// the key under which the ledger finds the balance.
pub struct StorageAccount {
    /// The account the balance belongs to.
    pub owner: String,
    /// The account's balance.
    pub balance: AccountStorageBalance,
}

impl FPOContract {
    /// The ledger balance of an account; an account never seen holds zero.
    pub open spec fn spec_balance(self, owner: Seq<char>) -> AccountStorageBalance {
        match self.spec_account(owner) {
            Some(a) => a.balance,
            None => AccountStorageBalance { total: 0, available: 0 },
        }
    }

    /// The index of the ledger entry for this account, scanning from the
    /// front, together with everything the lookup model says about it.
    fn find_account_index(&self, owner: &String) -> (r: Option<usize>)
        ensures
            match r {
                Some(i) => {
                    &&& 0 <= i < self.accounts@.len()
                    &&& self.accounts@[i as int].owner@ == owner@
                    &&& forall|j: int| 0 <= j < i ==> self.accounts@[j].owner@ != owner@
                    &&& self.spec_account(owner@) == Some(self.accounts@[i as int])
                },
                None => self.spec_account(owner@) == None::<StorageAccount>,
            },
    {
        let n = self.accounts.len();
        for i in 0..n
            invariant
                n == self.accounts@.len(),
                forall|j: int| 0 <= j < i ==> self.accounts@[j].owner@ != owner@,
        {
            if self.accounts[i].owner == *owner {
                proof {
                    lemma_lookup_found(self.accounts@, Self::account_key(), i as int);
                }
                return Some(i);
            }
        }
        proof {
            lemma_lookup_none(self.accounts@, Self::account_key(), owner@);
        }
        None
    }

    /// The ledger balance of an account; zero for an account never seen.
    pub fn get_storage_account(&self, account_id: &String) -> (r: AccountStorageBalance)
        ensures
            r == self.spec_balance(account_id@),
    {
        match self.find_account_index(account_id) {
            Some(i) => self.accounts[i].balance,
            None => AccountStorageBalance { total: 0, available: 0 },
        }
    }

    /// Writes a balance into the ledger under the given account,
    /// replacing an earlier entry or appending a new one.
    fn put_storage_account(&mut self, account_id: &String, balance: AccountStorageBalance)
        requires
            old(self).wf(),
        ensures
            final(self).wf(),
            final(self).spec_balance(account_id@) == balance,
            final(self).spec_account(account_id@) is Some,
            forall|k: Seq<char>|
                k != account_id@ ==> final(self).spec_account(k) == old(self).spec_account(k),
            final(self).admin == old(self).admin,
            final(self).pairs == old(self).pairs,
            final(self).registries == old(self).registries,
    {
        let ghost pre = self.accounts@;
        let ghost key = Self::account_key();
        match self.find_account_index(account_id) {
            Some(i) => {
                let e = &mut self.accounts[i];
                e.balance = balance;
                proof {
                    let t = self.accounts@[i as int];
                    assert(self.accounts@ == pre.update(i as int, t));
                    lemma_lookup_update(pre, key, i as int, t);
                }
            },
            None => {
                let entry = StorageAccount { owner: account_id.clone(), balance };
                self.accounts.push(entry);
                proof {
                    lemma_lookup_push(pre, key, entry.owner@, entry);
                    assert forall|k: Seq<char>| k != entry.owner@ implies final(self)
                        .spec_account(k) == old(self).spec_account(k) by {
                        lemma_lookup_push(pre, key, k, entry);
                    }
                    assert forall|i: int, j: int|
                        0 <= i < j < self.accounts@.len() implies self.accounts@[i].owner@
                        != self.accounts@[j].owner@ by {
                        if j == pre.len() as int {
                            if key(pre[i]) == key(entry) {
                                lemma_lookup_found(pre, key, i);
                            }
                        }
                    }
                }
            },
        }
    }

    /// Credits an attached deposit to an account's storage balance. The
    /// deposit must reach the advertised minimum; on success both the
    /// total and the available balance grow by the full amount.
    pub fn storage_deposit(&mut self, account_id: &String, attached_deposit: u128) -> (r: Result<
        StorageBalance,
        StorageError,
    >)
        requires
            old(self).wf(),
            old(self).spec_balance(account_id@).total + attached_deposit <= u128::MAX,
            old(self).spec_balance(account_id@).available + attached_deposit <= u128::MAX,
        ensures
            final(self).wf(),
            attached_deposit < STORAGE_MINIMUM_BALANCE ==> r == Err::<
                StorageBalance,
                StorageError,
            >(StorageError::DepositTooLow) && *final(self) == *old(self),
            attached_deposit >= STORAGE_MINIMUM_BALANCE ==> {
                let b = old(self).spec_balance(account_id@);
                &&& r == Ok::<StorageBalance, StorageError>(
                    (StorageBalance {
                        total: (b.total + attached_deposit) as u128,
                        available: (b.available + attached_deposit) as u128,
                    }),
                )
                &&& final(self).spec_balance(account_id@) == (AccountStorageBalance {
                    total: (b.total + attached_deposit) as u128,
                    available: (b.available + attached_deposit) as u128,
                })
                &&& forall|k: Seq<char>|
                    k != account_id@ ==> final(self).spec_account(k) == old(self).spec_account(k)
                &&& final(self).admin == old(self).admin
                &&& final(self).pairs == old(self).pairs
                &&& final(self).registries == old(self).registries
            },
    {
        if attached_deposit < STORAGE_MINIMUM_BALANCE {
            return Err(StorageError::DepositTooLow);
        }
        let account = self.get_storage_account(account_id);
        let updated = AccountStorageBalance {
            total: account.total + attached_deposit,
            available: account.available + attached_deposit,
        };
        self.put_storage_account(account_id, updated);
        Ok(StorageBalance { total: updated.total, available: updated.available })
    }

    /// Releases part of an account's storage balance back to its owner.
    /// The host call must attach exactly one money unit (a deliberate
    /// confirmation step), and the request must be covered by both the
    /// available and the total balance. The caller pays out the returned
    /// amount; this ledger only records the change.
    pub fn storage_withdraw(&mut self, account_id: &String, amount: u128, attached_deposit: u128)
        -> (r: Result<StorageBalance, StorageError>)
        requires
            old(self).wf(),
        ensures
            final(self).wf(),
            attached_deposit != 1 ==> r == Err::<StorageBalance, StorageError>(
                StorageError::OneYoctoRequired,
            ) && *final(self) == *old(self),
            attached_deposit == 1 && (amount > old(self).spec_balance(account_id@).available
                || amount > old(self).spec_balance(account_id@).total) ==> r == Err::<
                StorageBalance,
                StorageError,
            >(StorageError::InsufficientBalance) && *final(self) == *old(self),
            attached_deposit == 1 && amount <= old(self).spec_balance(account_id@).available
                && amount <= old(self).spec_balance(account_id@).total ==> {
                let b = old(self).spec_balance(account_id@);
                &&& r == Ok::<StorageBalance, StorageError>(
                    (StorageBalance {
                        total: (b.total - amount) as u128,
                        available: (b.available - amount) as u128,
                    }),
                )
                &&& final(self).spec_balance(account_id@) == (AccountStorageBalance {
                    total: (b.total - amount) as u128,
                    available: (b.available - amount) as u128,
                })
                &&& forall|k: Seq<char>|
                    k != account_id@ ==> final(self).spec_account(k) == old(self).spec_account(k)
                &&& final(self).admin == old(self).admin
                &&& final(self).pairs == old(self).pairs
                &&& final(self).registries == old(self).registries
            },
    {
        if attached_deposit != 1 {
            return Err(StorageError::OneYoctoRequired);
        }
        let account = self.get_storage_account(account_id);
        if amount > account.available || amount > account.total {
            return Err(StorageError::InsufficientBalance);
        }
        let updated = AccountStorageBalance {
            total: account.total - amount,
            available: account.available - amount,
        };
        self.put_storage_account(account_id, updated);
        Ok(StorageBalance { total: updated.total, available: updated.available })
    }

    /// The deposit bounds this contract accepts: the fixed minimum, no cap.
    pub fn storage_balance_bounds(&self) -> (r: StorageBalanceBounds)
        ensures
            r == (StorageBalanceBounds { min: STORAGE_MINIMUM_BALANCE, max: None::<u128> }),
    {
        StorageBalanceBounds { min: STORAGE_MINIMUM_BALANCE, max: None }
    }

    /// The balance an account holds, if the account has ever deposited.
    pub fn storage_balance_of(&self, account_id: &String) -> (r: Option<StorageBalance>)
        ensures
            match self.spec_account(account_id@) {
                Some(a) => r == Some(
                    (StorageBalance { total: a.balance.total, available: a.balance.available }),
                ),
                None => r is None,
            },
    {
        match self.find_account_index(account_id) {
            Some(i) => {
                let b = self.accounts[i].balance;
                Some(StorageBalance { total: b.total, available: b.available })
            },
            None => None,
        }
    }

    /// Settles one call's storage use against the caller's balance: bytes
    /// grown are charged at the per-byte price and must be covered by the
    /// balance the call started with; bytes freed are credited back.
    pub fn use_storage(
        &mut self,
        sender_id: &String,
        initial_storage_usage: u64,
        initial_available_balance: u128,
        current_storage_usage: u64,
    ) -> (r: Result<(), StorageError>)
        requires
            old(self).wf(),
            current_storage_usage < initial_storage_usage ==> initial_available_balance + (
            initial_storage_usage - current_storage_usage) * STORAGE_PRICE_PER_BYTE <= u128::MAX,
        ensures
            final(self).wf(),
            ({
                let cost = (current_storage_usage - initial_storage_usage)
                    * STORAGE_PRICE_PER_BYTE;
                current_storage_usage >= initial_storage_usage && cost
                    > initial_available_balance ==> r == Err::<(), StorageError>(
                    StorageError::InsufficientBalance,
                ) && *final(self) == *old(self)
            }),
            ({
                let cost = (current_storage_usage - initial_storage_usage)
                    * STORAGE_PRICE_PER_BYTE;
                current_storage_usage >= initial_storage_usage && cost
                    <= initial_available_balance ==> r == Ok::<(), StorageError>(())
                    && final(self).spec_balance(sender_id@) == (AccountStorageBalance {
                    total: old(self).spec_balance(sender_id@).total,
                    available: (initial_available_balance - cost) as u128,
                })
            }),
            current_storage_usage < initial_storage_usage ==> r == Ok::<(), StorageError>(())
                && final(self).spec_balance(sender_id@) == (AccountStorageBalance {
                total: old(self).spec_balance(sender_id@).total,
                available: (initial_available_balance + (initial_storage_usage
                    - current_storage_usage) * STORAGE_PRICE_PER_BYTE) as u128,
            }),
            r is Ok ==> final(self).admin == old(self).admin
                && final(self).pairs == old(self).pairs
                && final(self).registries == old(self).registries && (forall|k: Seq<char>|
                k != sender_id@ ==> final(self).spec_account(k) == old(self).spec_account(k)),
    {
        proof {
            assert((u64::MAX as u128) * STORAGE_PRICE_PER_BYTE <= u128::MAX) by (nonlinear_arith);
        }
        if current_storage_usage >= initial_storage_usage {
            let difference = current_storage_usage - initial_storage_usage;
            proof {
                assert((difference as u128) * STORAGE_PRICE_PER_BYTE <= (u64::MAX as u128)
                    * STORAGE_PRICE_PER_BYTE) by (nonlinear_arith)
                    requires
                        difference <= u64::MAX,
                ;
            }
            let cost = (difference as u128) * STORAGE_PRICE_PER_BYTE;
            if cost > initial_available_balance {
                return Err(StorageError::InsufficientBalance);
            }
            let account = self.get_storage_account(sender_id);
            let updated = AccountStorageBalance {
                total: account.total,
                available: initial_available_balance - cost,
            };
            self.put_storage_account(sender_id, updated);
            Ok(())
        } else {
            let difference = initial_storage_usage - current_storage_usage;
            let credit = (difference as u128) * STORAGE_PRICE_PER_BYTE;
            let account = self.get_storage_account(sender_id);
            let updated = AccountStorageBalance {
                total: account.total,
                available: initial_available_balance + credit,
            };
            self.put_storage_account(sender_id, updated);
            Ok(())
        }
    }
}

/// The amount a call should send back to its sender after settling
/// storage: the attached deposit less the cost of bytes grown, or plus
/// the value of bytes freed. The caller performs the actual transfer when
/// the amount is positive; `InsufficientBalance` when the attached
/// deposit does not cover the bytes grown.
pub fn refund_storage(
    initial_storage: u64,
    current_storage: u64,
    attached_deposit: u128,
) -> (r: Result<u128, StorageError>)
    requires
        current_storage < initial_storage ==> attached_deposit + (initial_storage
            - current_storage) * STORAGE_PRICE_PER_BYTE <= u128::MAX,
    ensures
        ({
            let required = (current_storage - initial_storage) * STORAGE_PRICE_PER_BYTE;
            current_storage > initial_storage && required > attached_deposit ==> r == Err::<
                u128,
                StorageError,
            >(StorageError::InsufficientBalance)
        }),
        ({
            let required = (current_storage - initial_storage) * STORAGE_PRICE_PER_BYTE;
            current_storage > initial_storage && required <= attached_deposit ==> r == Ok::<
                u128,
                StorageError,
            >((attached_deposit - required) as u128)
        }),
        current_storage <= initial_storage ==> r == Ok::<u128, StorageError>(
            (attached_deposit + (initial_storage - current_storage) * STORAGE_PRICE_PER_BYTE)
                as u128,
        ),
{
    proof {
        assert((u64::MAX as u128) * STORAGE_PRICE_PER_BYTE <= u128::MAX) by (nonlinear_arith);
    }
    if current_storage > initial_storage {
        let difference = current_storage - initial_storage;
        proof {
            assert((difference as u128) * STORAGE_PRICE_PER_BYTE <= (u64::MAX as u128)
                * STORAGE_PRICE_PER_BYTE) by (nonlinear_arith)
                requires
                    difference <= u64::MAX,
            ;
        }
        let required_deposit = (difference as u128) * STORAGE_PRICE_PER_BYTE;
        if required_deposit > attached_deposit {
            return Err(StorageError::InsufficientBalance);
        }
        Ok(attached_deposit - required_deposit)
    } else {
        let difference = initial_storage - current_storage;
        Ok(attached_deposit + (difference as u128) * STORAGE_PRICE_PER_BYTE)
    }
}

} // verus!
