use std::collections::BTreeSet;
use std::marker::PhantomData;

use protium::DispatchEntry;
use protium::EmptyDispatch;
use protium::Error;
use protium::Packable;
use protium::PackedObject;
use protium::PackedTransaction;
use protium::Protium;
use protium::Storage;
use protium::Transaction;
use protium::TransactionKey;
use protium::Transactions;

#[derive(Debug, Default, PartialEq)]
pub struct Object(pub BTreeSet<u8>);

impl Object {
    fn insert(&mut self, value: u8) {
        self.0.insert(value);
    }

    fn remove(&mut self, value: u8) {
        self.0.remove(&value);
    }
}

impl Packable for Object {
    // Returns `Err(())` if the set holds 255, to test error handling.
    fn pack(&self) -> Result<Vec<u8>, ()> {
        if self.0.contains(&255) {
            return Err(());
        }

        Ok(self.0.iter().cloned().collect())
    }

    // Returns `Err(())` if `data` contains a 255 byte, to test error handling.
    fn unpack(data: &[u8]) -> Result<Self, ()> {
        if data.contains(&255) {
            return Err(());
        }

        Ok(Object(data.iter().cloned().collect()))
    }
}

pub struct TransactionAdd(pub u8);

impl Packable for TransactionAdd {
    // Returns `Err(())` if this is a 255 byte, to test error handling.
    fn pack(&self) -> Result<Vec<u8>, ()> {
        if self.0 == 255 {
            Err(())
        } else {
            Ok(vec![self.0])
        }
    }

    fn unpack(data: &[u8]) -> Result<Self, ()> {
        if data.len() == 1 {
            Ok(TransactionAdd(data[0]))
        } else {
            Err(())
        }
    }
}

impl Transaction<Object> for TransactionAdd {
    fn spec_key() -> TransactionKey {
        1
    }

    fn key() -> TransactionKey {
        1
    }

    fn apply(&self, object: &mut Object) {
        object.insert(self.0);
    }
}

pub struct TransactionRemove(pub u8);

impl Packable for TransactionRemove {
    fn pack(&self) -> Result<Vec<u8>, ()> {
        Ok(vec![self.0])
    }

    fn unpack(data: &[u8]) -> Result<Self, ()> {
        if data.len() == 1 {
            Ok(TransactionRemove(data[0]))
        } else {
            Err(())
        }
    }
}

impl Transaction<Object> for TransactionRemove {
    fn spec_key() -> TransactionKey {
        2
    }

    fn key() -> TransactionKey {
        2
    }

    fn apply(&self, object: &mut Object) {
        object.remove(self.0);
    }
}

#[derive(Debug, PartialEq)]
pub struct SimpleStorage<T: Packable> {
    object: Option<Vec<u8>>,
    transactions: Vec<(TransactionKey, Vec<u8>)>,
    packable: PhantomData<T>,
}

impl<T: Packable> SimpleStorage<T> {
    pub fn new(
        object: Option<Vec<u8>>,
        transactions: Vec<(TransactionKey, Vec<u8>)>,
    ) -> SimpleStorage<T> {
        SimpleStorage {
            object: object,
            transactions: transactions,
            packable: PhantomData,
        }
    }
}

impl<T: Packable> Storage<T> for SimpleStorage<T> {
    fn load(&mut self) -> Result<Option<(PackedObject, Vec<PackedTransaction>)>, Error> {
        match self.object {
            Some(ref object) => {
                let object_data = PackedObject(object.clone());
                let tx_data = self
                    .transactions
                    .iter()
                    .cloned()
                    .map(|data| PackedTransaction(data.0, data.1))
                    .collect();
                Ok(Some((object_data, tx_data)))
            }
            None => Ok(None),
        }
    }

    fn store_object(&mut self, object: &T) -> Result<(), Error> {
        self.object = match Packable::pack(object) {
            Ok(data) => Some(data),
            Err(()) => return Err(Error::ObjectPack),
        };

        Ok(())
    }

    fn store_data<R: Transaction<T>>(&mut self, object: &T, transaction: &R) -> Result<(), Error> {
        if self.object.is_none() {
            self.store_object(object)?;
        } else {
            match Packable::pack(transaction) {
                Ok(data) => self.transactions.push((R::key(), data)),
                Err(()) => return Err(Error::TransactionPack),
            }
        }

        Ok(())
    }
}

type Registered = DispatchEntry<TransactionRemove, DispatchEntry<TransactionAdd, EmptyDispatch>>;

fn empty_storage() -> SimpleStorage<Object> {
    SimpleStorage::new(None, vec![])
}

fn transactions() -> Transactions<Object, Registered> {
    Transactions::new()
        .register::<TransactionAdd>()
        .register::<TransactionRemove>()
}

#[test]
fn empty_storage_is_default() {
    let protium = Protium::new(empty_storage(), transactions()).unwrap();
    assert_eq!(*protium.object(), Object::default());
}

#[test]
fn add_to_empty_storage() {
    let mut protium = Protium::new(empty_storage(), transactions()).unwrap();
    protium.apply(TransactionAdd(5)).unwrap();
    protium.apply(TransactionAdd(10)).unwrap();
    protium.apply(TransactionAdd(15)).unwrap();
    protium.apply(TransactionRemove(10)).unwrap();
    assert_eq!(*protium.object(), Object(vec![5, 15].iter().cloned().collect()));
    let storage_transactions = vec![(1, vec![5]), (1, vec![10]), (1, vec![15]), (2, vec![10])];
    assert_eq!(*protium.storage(), SimpleStorage::new(Some(vec![]), storage_transactions));
}

#[test]
fn load_from_storage() {
    let storage_transactions = vec![(1, vec![10]), (1, vec![15]), (2, vec![10])];
    let storage = SimpleStorage::new(Some(vec![5]), storage_transactions);
    let protium = Protium::new(storage, transactions()).unwrap();
    assert_eq!(*protium.object(), Object(vec![5, 15].iter().cloned().collect()));
}

#[test]
fn unpacking_unregistered_transaction_keys() {
    let storage_transactions = vec![(1, vec![10]), (1000, vec![15])];
    let storage = SimpleStorage::new(Some(vec![5]), storage_transactions);
    match Protium::new(storage, transactions()) {
        Err(Error::TransactionUnregistered) => (),
        _ => unreachable!(),
    }
}

#[test]
fn packing_invalid_object() {
    match empty_storage().store_object(&Object(vec![255].iter().cloned().collect())) {
        Err(Error::ObjectPack) => (),
        _ => unreachable!(),
    }
}

#[test]
fn unpacking_invalid_object() {
    let storage = SimpleStorage::new(Some(vec![255]), vec![]);
    match Protium::new(storage, transactions()) {
        Err(Error::ObjectUnpack) => (),
        _ => unreachable!(),
    }
}

#[test]
fn packing_invalid_transaction() {
    let object = Object(vec![1].iter().cloned().collect());
    let transaction = TransactionAdd(255);
    let mut storage = empty_storage();
    storage.store_object(&object).unwrap();
    match storage.store_data(&object, &transaction) {
        Err(Error::TransactionPack) => (),
        _ => unreachable!(),
    }
}

#[test]
fn unpacking_invalid_transaction() {
    let storage = SimpleStorage::new(Some(vec![1]), vec![(1, vec![1, 2])]);
    match Protium::new(storage, transactions()) {
        Err(Error::TransactionUnpack) => (),
        _ => unreachable!(),
    }
}

#[test]
fn replay_matches_direct_application() {
    let mut direct = Object::default();
    TransactionAdd(10).apply(&mut direct);
    TransactionRemove(10).apply(&mut direct);
    TransactionAdd(15).apply(&mut direct);

    let logged = vec![(1, vec![10]), (2, vec![10]), (1, vec![15])];
    let storage = SimpleStorage::new(Some(vec![]), logged);
    let replayed = Protium::new(storage, transactions()).unwrap();
    assert_eq!(*replayed.object(), direct);
}

pub struct TransactionClear;

impl Packable for TransactionClear {
    fn pack(&self) -> Result<Vec<u8>, ()> {
        Ok(vec![])
    }

    fn unpack(_data: &[u8]) -> Result<Self, ()> {
        Ok(TransactionClear)
    }
}

impl Transaction<Object> for TransactionClear {
    fn spec_key() -> TransactionKey {
        1000
    }

    fn key() -> TransactionKey {
        1000
    }

    fn apply(&self, object: &mut Object) {
        object.0.clear();
    }
}

#[test]
fn registration_is_visible_through_the_store() {
    let protium = Protium::new(empty_storage(), transactions()).unwrap();
    assert!(protium.transactions().is_transaction_registered::<TransactionAdd>());
    assert!(protium.transactions().is_transaction_registered::<TransactionRemove>());
    assert!(!protium.transactions().is_transaction_registered::<TransactionClear>());
}

#[test]
fn io_errors_wrap_into_the_error_type() {
    let io = std::io::Error::new(std::io::ErrorKind::Other, "disk gone");
    let wrapped: Error = io.into();
    match wrapped {
        Error::Io(_) => (),
        _ => unreachable!(),
    }
}
