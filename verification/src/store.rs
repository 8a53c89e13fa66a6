//! The store facade: a packable object linked to durable storage, mutated
//! only through registered transactions.

use vstd::prelude::*;

use crate::Error;
use crate::Packable;
use crate::Storage;
use crate::Transaction;
use crate::registry::Dispatch;
use crate::registry::Transactions;
use crate::registry::spec_replay;

verus! {

/// The prominent structure that exposes a packable object linked to durable
/// storage.
pub struct Protium<T: Packable + Default, S: Storage<T>, D: Dispatch<T>> {
    object: T,
    storage: S,
    transactions: Transactions<T, D>,
}

impl<T: Packable + Default, S: Storage<T>, D: Dispatch<T>> Protium<T, S, D> {
    /// The internal object, as specifications see it.
    pub closed spec fn spec_object(&self) -> T {
        self.object
    }

    /// The internal storage, as specifications see it.
    pub closed spec fn spec_storage(&self) -> S {
        self.storage
    }

    /// The registered transactions, as specifications see them.
    pub closed spec fn spec_transactions(&self) -> Transactions<T, D> {
        self.transactions
    }

    /// Whether the object's, the storage's and every registered kind's
    /// models hold, so that the facade's behaviour is pinned down exactly.
    pub open spec fn obeys_collaborator_specs() -> bool {
        T::obeys_packable_spec() && S::obeys_storage_spec() && D::obeys_dispatch_spec()
    }

    /// Initialize a durably stored object backed by `storage`.
    ///
    /// All `Transaction` types to be supported by this object are passed in
    /// as `transactions`. If the storage holds an object, it is loaded and
    /// the logged transactions are replayed over it in order; if it holds
    /// nothing, `T::default()` is stored and used.
    ///
    /// Returns `Err` if loading, replaying, or storing the default fails,
    /// with that failure's own error, unaltered: no usable store is produced.
    pub fn new(storage: S, transactions: Transactions<T, D>) -> (r: Result<
        Protium<T, S, D>,
        Error,
    >)
        ensures
            r matches Ok(p) ==> p.spec_transactions() == transactions,
            Self::obeys_collaborator_specs() ==> ({
                let (loaded_storage, loaded) = storage.spec_load();
                match loaded {
                    Err(e) => r == Err::<Protium<T, S, D>, Error>(e),
                    Ok(Some((snapshot, entries))) => match spec_replay::<T, D>(snapshot, entries) {
                        Ok(replayed) => r matches Ok(p) && p.spec_object() == replayed
                            && p.spec_storage() == loaded_storage,
                        Err(e) => r == Err::<Protium<T, S, D>, Error>(e),
                    },
                    Ok(None) => exists|default_value: T|
                        #[trigger] call_ensures(T::default, (), default_value) && ({
                            let (stored_storage, stored) = loaded_storage.spec_store_object(
                                default_value,
                            );
                            match stored {
                                Ok(()) => r matches Ok(p) && p.spec_object() == default_value
                                    && p.spec_storage() == stored_storage,
                                Err(e) => r == Err::<Protium<T, S, D>, Error>(e),
                            }
                        }),
                }
            }),
    {
        let mut storage = storage;
        let object: T = match storage.load() {
            Ok(Some(loaded)) => match transactions.unpack(loaded.0, loaded.1) {
                Ok(object) => object,
                Err(e) => {
                    return Err(e);
                },
            },
            Ok(None) => {
                let result = T::default();
                match storage.store_object(&result) {
                    Ok(()) => {},
                    Err(e) => {
                        return Err(e);
                    },
                }
                result
            },
            Err(e) => {
                return Err(e);
            },
        };
        Ok(Protium { object, storage, transactions })
    }

    /// Apply `transaction` to the internal object, storing the data durably.
    ///
    /// The transaction's key must be registered: applying an unregistered
    /// kind is a programming error, ruled out for verified callers and
    /// halting the process for any other.
    ///
    /// When persistence fails the in-memory object has already been mutated
    /// but the change is not yet durable; the error is surfaced so that the
    /// caller can retry or discard.
    pub fn apply<R: Transaction<T>>(&mut self, transaction: R) -> (r: Result<(), Error>)
        requires
            D::keys().contains(R::spec_key()),
        ensures
            final(self).spec_transactions() == old(self).spec_transactions(),
            R::obeys_transaction_spec() ==> final(self).spec_object() == transaction.spec_apply(
                old(self).spec_object(),
            ),
            R::obeys_transaction_spec() && R::obeys_packable_spec() && S::obeys_storage_spec()
                ==> ({
                let mutated = transaction.spec_apply(old(self).spec_object());
                let (stored_storage, stored) = old(self).spec_storage().spec_store_data(
                    mutated,
                    R::spec_key(),
                    transaction.spec_pack(),
                );
                final(self).spec_storage() == stored_storage && r == stored
            }),
    {
        if !self.transactions.is_transaction_registered::<R>() {
            return vstd::pervasive::unreached();
        }
        transaction.apply(&mut self.object);
        self.storage.store_data(&self.object, &transaction)
    }

    /// Returns an immutable reference to the internal object.
    pub fn object(&self) -> (r: &T)
        ensures
            r == self.spec_object(),
    {
        &self.object
    }

    /// Returns an immutable reference to the internal storage.
    pub fn storage(&self) -> (r: &S)
        ensures
            r == self.spec_storage(),
    {
        &self.storage
    }

    /// Returns an immutable reference to the registered transactions.
    pub fn transactions(&self) -> (r: &Transactions<T, D>)
        ensures
            r == self.spec_transactions(),
    {
        &self.transactions
    }
}

} // verus!
