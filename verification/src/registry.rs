//! The transaction registry: a dispatch table from transaction keys to the
//! unpack-and-apply behaviour of one transaction kind, and the replay that
//! folds a packed log over a packed object.
//!
//! The table is built once, at startup, by chaining `register` calls; each
//! call extends the table's type with one transaction kind, so dispatch is
//! resolved statically and every path through it is verified. For kinds
//! whose serialization and application are modeled (`obeys_packable_spec`,
//! `obeys_transaction_spec`), replay is pinned down exactly: it is the
//! in-order fold `spec_replay` of the log over the unpacked snapshot.

use vstd::prelude::*;

use crate::Error;
use crate::Packable;
use crate::PackedObject;
use crate::PackedTransaction;
use crate::Transaction;
use crate::TransactionKey;
use crate::codec;
use crate::spec_txs;

verus! {

/// The unpack-and-apply capability of a set of registered transaction kinds.
///
/// `keys()` is the set of registered transaction keys; `dispatch` unpacks a
/// payload under a registered key and applies it to the object. When every
/// registered kind is modeled (`obeys_dispatch_spec`), `spec_dispatch` says
/// exactly what one dispatch does.
pub trait Dispatch<T: Packable>: Sized {
    /// The set of registered transaction keys.
    spec fn keys() -> Set<TransactionKey>;

    /// Whether every registered kind's `spec_pack`/`spec_unpack`/`spec_apply`
    /// models hold, so that `spec_dispatch` models `dispatch`.
    spec fn obeys_dispatch_spec() -> bool;

    /// The model of `dispatch`: the object after unpacking `data` as the
    /// kind registered under `key` and applying it, or the failure.
    spec fn spec_dispatch(object: T, key: TransactionKey, data: Seq<u8>) -> Result<T, Error>;

    /// Whether `key` is registered in this table.
    fn handles(key: TransactionKey) -> (r: bool)
        ensures
            r == Self::keys().contains(key),
    ;

    /// Unpacks `data` as the transaction kind registered under `key` and
    /// applies it to `object`. Fails only when that kind's own unpacking
    /// fails, and a failure leaves the object untouched.
    fn dispatch(object: &mut T, key: TransactionKey, data: &[u8]) -> (r: Result<(), Error>)
        requires
            Self::keys().contains(key),
        ensures
            r is Ok || (r matches Err(e) && e is TransactionUnpack),
            r matches Err(_) ==> *final(object) == *old(object),
            Self::obeys_dispatch_spec() ==> match Self::spec_dispatch(*old(object), key, data@) {
                Ok(next) => r is Ok && *final(object) == next,
                Err(e) => r == Err::<(), Error>(e) && *final(object) == *old(object),
            },
    ;
}

/// The empty dispatch table: no key is registered.
pub struct EmptyDispatch;

impl<T: Packable> Dispatch<T> for EmptyDispatch {
    open spec fn keys() -> Set<TransactionKey> {
        Set::empty()
    }

    open spec fn obeys_dispatch_spec() -> bool {
        true
    }

    open spec fn spec_dispatch(object: T, key: TransactionKey, data: Seq<u8>) -> Result<T, Error> {
        Err(Error::TransactionUnregistered)
    }

    fn handles(key: TransactionKey) -> (r: bool) {
        false
    }

    fn dispatch(object: &mut T, key: TransactionKey, data: &[u8]) -> (r: Result<(), Error>) {
        vstd::pervasive::unreached()
    }
}

/// A dispatch table extended with one transaction kind `R`; `Rest` holds the
/// kinds registered before it.
pub struct DispatchEntry<R, Rest> {
    marker: core::marker::PhantomData<(R, Rest)>,
}

impl<T: Packable, R: Transaction<T>, Rest: Dispatch<T>> Dispatch<T> for DispatchEntry<R, Rest> {
    open spec fn keys() -> Set<TransactionKey> {
        Rest::keys().insert(R::spec_key())
    }

    open spec fn obeys_dispatch_spec() -> bool {
        R::obeys_packable_spec() && R::obeys_transaction_spec() && Rest::obeys_dispatch_spec()
    }

    open spec fn spec_dispatch(object: T, key: TransactionKey, data: Seq<u8>) -> Result<T, Error> {
        if key == R::spec_key() {
            match R::spec_unpack(data) {
                Ok(transaction) => Ok(transaction.spec_apply(object)),
                Err(()) => Err(Error::TransactionUnpack),
            }
        } else {
            Rest::spec_dispatch(object, key, data)
        }
    }

    fn handles(key: TransactionKey) -> (r: bool) {
        key == R::key() || Rest::handles(key)
    }

    fn dispatch(object: &mut T, key: TransactionKey, data: &[u8]) -> (r: Result<(), Error>) {
        if key == R::key() {
            apply_transaction::<T, R>(object, data)
        } else {
            Rest::dispatch(object, key, data)
        }
    }
}

/// Unpacks `data` as transaction kind `R` and applies it to `object`; fails
/// exactly when `R`'s own unpacking fails, and a failure leaves the object
/// untouched.
#[inline]
pub fn apply_transaction<T: Packable, R: Transaction<T>>(object: &mut T, data: &[u8]) -> (r: Result<
    (),
    Error,
>)
    ensures
        r is Ok || (r matches Err(e) && e is TransactionUnpack),
        r matches Err(_) ==> *final(object) == *old(object),
        R::obeys_packable_spec() && R::obeys_transaction_spec() ==> match R::spec_unpack(data@) {
            Ok(transaction) => r is Ok && *final(object) == transaction.spec_apply(*old(object)),
            Err(()) => r == Err::<(), Error>(Error::TransactionUnpack) && *final(object) == *old(
                object,
            ),
        },
{
    match R::unpack(data) {
        Ok(transaction) => {
            transaction.apply(object);
            Ok(())
        },
        Err(()) => Err(Error::TransactionUnpack),
    }
}

/// Replaying packed log entries over an already-unpacked object: the
/// in-order fold of `spec_dispatch`, stopping at the first unregistered key
/// or failed unpacking.
pub open spec fn spec_replay_entries<T: Packable, D: Dispatch<T>>(
    object: T,
    entries: Seq<(TransactionKey, Seq<u8>)>,
) -> Result<T, Error>
    decreases entries.len(),
{
    if entries.len() == 0 {
        Ok(object)
    } else if !D::keys().contains(entries[0].0) {
        Err(Error::TransactionUnregistered)
    } else {
        match D::spec_dispatch(object, entries[0].0, entries[0].1) {
            Ok(next) => spec_replay_entries::<T, D>(next, entries.drop_first()),
            Err(e) => Err(e),
        }
    }
}

/// Replaying a packed snapshot and its log: unpack the snapshot, then fold
/// the entries over it in file order.
pub open spec fn spec_replay<T: Packable, D: Dispatch<T>>(
    snapshot: Seq<u8>,
    entries: Seq<(TransactionKey, Seq<u8>)>,
) -> Result<T, Error> {
    match T::spec_unpack(snapshot) {
        Ok(object) => spec_replay_entries::<T, D>(object, entries),
        Err(()) => Err(Error::ObjectUnpack),
    }
}

/// Round trip through the store, for an object whose serialization
/// round-trips: packing it, writing the bytes as a snapshot chunk, loading
/// that file image and replaying its (empty) log yields the object again.
pub proof fn lemma_stored_object_replays_identity<T: Packable, D: Dispatch<T>>(
    object: T,
    packed: Seq<u8>,
)
    requires
        object.spec_pack() == Ok::<Seq<u8>, ()>(packed),
        T::spec_unpack(packed) == Ok::<T, ()>(object),
        packed.len() <= u32::MAX,
    ensures
        codec::spec_load(codec::spec_chunk(packed)) == Some(
            (packed, Seq::<(TransactionKey, Seq<u8>)>::empty()),
        ),
        spec_replay::<T, D>(packed, Seq::empty()) == Ok::<T, Error>(object),
{
    codec::lemma_load_of_snapshot(packed);
}

/// A collection of acceptable `Transaction` types corresponding to a
/// packable type `T`. The registered kinds live in the type parameter `D`;
/// a `Transactions` value is only the handle that builds and carries it.
pub struct Transactions<T: Packable, D: Dispatch<T>> {
    marker: core::marker::PhantomData<(T, D)>,
}

impl<T: Packable> Transactions<T, EmptyDispatch> {
    /// Initialize with an empty set of transaction types.
    pub fn new() -> (r: Transactions<T, EmptyDispatch>) {
        Transactions { marker: core::marker::PhantomData }
    }
}

impl<T: Packable, D: Dispatch<T>> Transactions<T, D> {
    /// Register a type that implements `Transaction`. Registering a second
    /// kind under an already-used key is a programming error, not a runtime
    /// data condition: the call is ruled out for verified callers, and halts
    /// the process for any other.
    pub fn register<R: Transaction<T>>(self) -> (r: Transactions<T, DispatchEntry<R, D>>)
        requires
            !D::keys().contains(R::spec_key()),
    {
        if D::handles(R::key()) {
            return vstd::pervasive::unreached();
        }
        Transactions { marker: core::marker::PhantomData }
    }

    /// Returns `true` if the provided transaction type has been registered,
    /// `false` otherwise.
    pub fn is_transaction_registered<R: Transaction<T>>(&self) -> (r: bool)
        ensures
            r == D::keys().contains(R::spec_key()),
    {
        D::handles(R::key())
    }

    /// Unpacks an object and a list of packed transactions, applies the
    /// transactions to the object in order, and returns the updated object.
    ///
    /// Fails if unpacking the object or a transaction fails, or if a packed
    /// transaction's key is unregistered; an unregistered key is never
    /// skipped, so a log holding one is never replayed to completion. When
    /// the object's and the registered kinds' models hold, the result is
    /// exactly `spec_replay` of the log over the snapshot.
    pub fn unpack(&self, object: PackedObject, transactions: Vec<PackedTransaction>) -> (r: Result<
        T,
        Error,
    >)
        ensures
            r matches Err(e) ==> (e is ObjectUnpack || e is TransactionUnpack
                || e is TransactionUnregistered),
            (exists|i: int|
                0 <= i < transactions@.len() && !D::keys().contains(
                    #[trigger] transactions@[i].0,
                )) ==> r is Err,
            (r matches Err(e) && e is TransactionUnregistered) ==> exists|i: int|
                0 <= i < transactions@.len() && !D::keys().contains(#[trigger] transactions@[i].0)
                    && (forall|j: int| 0 <= j < i ==> D::keys().contains(
                    #[trigger] transactions@[j].0,
                )),
            (forall|i: int|
                0 <= i < transactions@.len() ==> D::keys().contains(#[trigger] transactions@[i].0))
                ==> (r is Ok || (r matches Err(e) && (e is ObjectUnpack || e is TransactionUnpack))),
            T::obeys_packable_spec() && D::obeys_dispatch_spec() ==> r == spec_replay::<T, D>(
                object@,
                spec_txs(transactions@),
            ),
    {
        let ghost models = spec_txs(transactions@);
        let mut result: T = match T::unpack(object.0.as_slice()) {
            Ok(value) => value,
            Err(()) => {
                return Err(Error::ObjectUnpack);
            },
        };
        proof {
            assert(models.skip(0) =~= models);
        }
        let mut i: usize = 0;
        while i < transactions.len()
            invariant
                i <= transactions@.len(),
                models == spec_txs(transactions@),
                forall|j: int| 0 <= j < i ==> D::keys().contains(#[trigger] transactions@[j].0),
                T::obeys_packable_spec() && D::obeys_dispatch_spec() ==> spec_replay::<T, D>(
                    object@,
                    models,
                ) == spec_replay_entries::<T, D>(result, models.skip(i as int)),
            decreases transactions@.len() - i,
        {
            proof {
                assert(models[i as int] == transactions@[i as int]@);
                assert(models.skip(i as int)[0] == models[i as int]);
                assert(models.skip(i as int).drop_first() =~= models.skip(i as int + 1));
            }
            let key = transactions[i].0;
            if !D::handles(key) {
                return Err(Error::TransactionUnregistered);
            }
            let outcome = D::dispatch(&mut result, key, transactions[i].1.as_slice());
            match outcome {
                Ok(()) => {},
                Err(e) => {
                    return Err(e);
                },
            }
            i = i + 1;
        }
        proof {
            assert(models.skip(transactions@.len() as int) =~= Seq::<(
                TransactionKey,
                Seq<u8>,
            )>::empty());
        }
        Ok(result)
    }
}

} // verus!
