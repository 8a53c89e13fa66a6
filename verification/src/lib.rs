//! An embedded, single-object durable store built on the event-sourcing
//! pattern: an in-memory value is persisted as a full snapshot plus an
//! append-only log of small transactions applied since that snapshot.
//!
//! The crate is split into the chunk codec (the length-prefixed binary file
//! format and its corruption-tolerant reader), the engine control state (the
//! snapshot/compaction protocol), the transaction registry (typed dispatch of
//! untyped log entries), and the `Protium` facade that ties them together.
//! File handling itself is left to `Storage` implementations; everything the
//! store decides or computes on bytes is verified here.
//!
//! The collaborator traits `Packable`, `Transaction` and `Storage` carry
//! optional specification models behind `obeys_..._spec()` switches, in the
//! manner of vstd's trait specifications: an implementation that overrides a
//! switch to true promises that the model functions describe its methods,
//! and the store's contracts then say exactly which object and which errors
//! every call produces. An implementation that leaves a switch false (the
//! default) opts out, and those clauses say nothing of it.

use vstd::prelude::*;

pub mod codec;
pub mod engine;
pub mod error;
pub mod registry;
pub mod store;

pub use error::Error;
pub use registry::Dispatch;
pub use registry::DispatchEntry;
pub use registry::EmptyDispatch;
pub use registry::Transactions;
pub use registry::apply_transaction;
pub use store::Protium;

verus! {

/// A type that represents a unique key for each corresponding `Transaction`
/// of a `Packable` object.
pub type TransactionKey = u32;

/// A trait that allows its implementer to be packed into and unpacked from a
/// chunk of bytes.
///
/// The serialization contract is the implementer's own. An implementation
/// may describe it to the verifier through `spec_pack` and `spec_unpack` by
/// overriding `obeys_packable_spec` to true; one that does not is opaque,
/// and nothing is assumed about the bytes beyond what the methods return on
/// a given call.
pub trait Packable: Sized {
    /// Whether `spec_pack` and `spec_unpack` model this implementation.
    open spec fn obeys_packable_spec() -> bool {
        false
    }

    /// The model of `pack`, when `obeys_packable_spec` holds.
    open spec fn spec_pack(&self) -> Result<Seq<u8>, ()> {
        Err(())
    }

    /// The model of `unpack`, when `obeys_packable_spec` holds.
    open spec fn spec_unpack(data: Seq<u8>) -> Result<Self, ()> {
        Err(())
    }

    /// Converts the object to an encoded chunk of bytes that can later be
    /// unpacked. Returns `Err(())` if the type could not be packed.
    fn pack(&self) -> (r: Result<Vec<u8>, ()>)
        ensures
            Self::obeys_packable_spec() ==> pack_result_model(r) == self.spec_pack(),
    ;

    /// Converts an encoded chunk of bytes into an object. Returns `Err(())`
    /// if the type could not be unpacked.
    fn unpack(data: &[u8]) -> (r: Result<Self, ()>)
        ensures
            Self::obeys_packable_spec() ==> r == Self::spec_unpack(data@),
    ;
}

/// The model of a `pack` result: the bytes it carries, or the failure.
pub open spec fn pack_result_model(r: Result<Vec<u8>, ()>) -> Result<Seq<u8>, ()> {
    match r {
        Ok(data) => Ok(data@),
        Err(()) => Err(()),
    }
}

/// Packs `object` for storage, mapping a failure of the domain
/// serialization to the store's object-pack error and nothing else.
pub fn pack_object<T: Packable>(object: &T) -> (r: Result<Vec<u8>, Error>)
    ensures
        r matches Err(e) ==> e is ObjectPack,
        T::obeys_packable_spec() ==> match object.spec_pack() {
            Ok(data) => r matches Ok(v) && v@ == data,
            Err(()) => r == Err::<Vec<u8>, Error>(Error::ObjectPack),
        },
{
    match object.pack() {
        Ok(data) => Ok(data),
        Err(()) => Err(Error::ObjectPack),
    }
}

/// Packs `transaction` for storage, mapping a failure of its serialization
/// to the store's transaction-pack error and nothing else.
pub fn pack_transaction<T: Packable, R: Transaction<T>>(transaction: &R) -> (r: Result<
    Vec<u8>,
    Error,
>)
    ensures
        r matches Err(e) ==> e is TransactionPack,
        R::obeys_packable_spec() ==> match transaction.spec_pack() {
            Ok(data) => r matches Ok(v) && v@ == data,
            Err(()) => r == Err::<Vec<u8>, Error>(Error::TransactionPack),
        },
{
    match transaction.pack() {
        Ok(data) => Ok(data),
        Err(()) => Err(Error::TransactionPack),
    }
}

/// A trait that represents a single atomic change to be made to a `Packable`
/// object (`T`).
pub trait Transaction<T: Packable>: Packable {
    /// The key that `key` returns, available to specifications.
    spec fn spec_key() -> TransactionKey;

    /// Whether `spec_apply` models this implementation.
    open spec fn obeys_transaction_spec() -> bool {
        false
    }

    /// The model of `apply`, when `obeys_transaction_spec` holds: the object
    /// after this transaction.
    open spec fn spec_apply(&self, object: T) -> T {
        object
    }

    /// The unique key that represents this transaction, used by `Storage`
    /// implementations to tag packed transactions of this type.
    fn key() -> (r: TransactionKey)
        ensures
            r == Self::spec_key(),
    ;

    /// Modifies a given `T` in some way.
    fn apply(&self, object: &mut T)
        ensures
            Self::obeys_transaction_spec() ==> *final(object) == self.spec_apply(*old(object)),
    ;
}

/// A representation of a packed object.
#[derive(Clone, Debug, Eq, PartialEq)]
pub struct PackedObject(pub Vec<u8>);

impl View for PackedObject {
    type V = Seq<u8>;

    open spec fn view(&self) -> Seq<u8> {
        self.0@
    }
}

/// A representation of packed transaction data and the appropriate
/// transaction type key.
#[derive(Clone, Debug, Eq, PartialEq)]
pub struct PackedTransaction(pub TransactionKey, pub Vec<u8>);

impl View for PackedTransaction {
    type V = (TransactionKey, Seq<u8>);

    open spec fn view(&self) -> (TransactionKey, Seq<u8>) {
        (self.0, self.1@)
    }
}

/// The models of a sequence of packed log entries.
pub open spec fn spec_txs(ts: Seq<PackedTransaction>) -> Seq<(TransactionKey, Seq<u8>)> {
    ts.map_values(|t: PackedTransaction| t@)
}

/// The model of a `load` result: what the storage held, or the failure.
pub open spec fn load_result_model(
    r: Result<Option<(PackedObject, Vec<PackedTransaction>)>, Error>,
) -> Result<Option<(Seq<u8>, Seq<(TransactionKey, Seq<u8>)>)>, Error> {
    match r {
        Ok(None) => Ok(None),
        Ok(Some((object, entries))) => Ok(Some((object@, spec_txs(entries@)))),
        Err(e) => Err(e),
    }
}

/// A backend that durably keeps one packed object and the packed transactions
/// applied since it was stored.
///
/// Implementations own validation of their medium: incomplete or corrupt
/// packed data must not be returned by `load`. One whose behaviour is a
/// function of its own state may describe it through the `spec_...` models
/// by overriding `obeys_storage_spec` to true; a backend whose results
/// depend on anything else (a filesystem, a crash) leaves it false.
pub trait Storage<T: Packable>: Sized {
    /// Whether the `spec_...` models below describe this implementation.
    open spec fn obeys_storage_spec() -> bool {
        false
    }

    /// The model of `load`: the state after the call, and what was held.
    open spec fn spec_load(&self) -> (Self, Result<
        Option<(Seq<u8>, Seq<(TransactionKey, Seq<u8>)>)>,
        Error,
    >) {
        vstd::pervasive::arbitrary()
    }

    /// The model of `store_object`: the state after storing the packed
    /// object as the new snapshot, and the outcome.
    open spec fn spec_store_object(&self, object: T) -> (Self, Result<(), Error>) {
        vstd::pervasive::arbitrary()
    }

    /// The model of `store_data`: the state after recording one applied
    /// transaction, given the already-mutated object, the transaction's key
    /// and what its packing yields, and the outcome.
    open spec fn spec_store_data(
        &self,
        object: T,
        key: TransactionKey,
        packed: Result<Seq<u8>, ()>,
    ) -> (Self, Result<(), Error>) {
        vstd::pervasive::arbitrary()
    }

    /// Fetches the packed object and its transactions from storage.
    /// Returns `Ok(None)` if the storage has no object to be retrieved.
    fn load(&mut self) -> (r: Result<Option<(PackedObject, Vec<PackedTransaction>)>, Error>)
        ensures
            Self::obeys_storage_spec() ==> (*final(self), load_result_model(r)) == old(
                self,
            ).spec_load(),
    ;

    /// Durably stores the packable object, replacing any logged transactions.
    fn store_object(&mut self, object: &T) -> (r: Result<(), Error>)
        ensures
            Self::obeys_storage_spec() ==> (*final(self), r) == old(self).spec_store_object(
                *object,
            ),
    ;

    /// Durably stores the newly applied transaction and/or the object; the
    /// implementation chooses between appending and rewriting the snapshot.
    fn store_data<R: Transaction<T>>(&mut self, object: &T, transaction: &R) -> (r: Result<
        (),
        Error,
    >)
        ensures
            Self::obeys_storage_spec() && R::obeys_packable_spec() ==> (*final(self), r) == old(
                self,
            ).spec_store_data(*object, R::spec_key(), transaction.spec_pack()),
    ;
}

} // verus!
