use mem_agent::types::VectorMeta;
use mem_agent::vector::store::{StoreError, VectorStore, DEFAULT_DIM};

#[test]
fn test_vector_store_insert_get() {
    let mut store = VectorStore::new(4);
    let vec = vec![1.0, 2.0, 3.0, 4.0];
    let meta = VectorMeta { memory_id: 1, created_at: "2024-01-01".into() };
    store.insert(1, vec.clone(), meta).unwrap();
    assert_eq!(store.len(), 1);
    assert_eq!(store.get(1).unwrap(), &[1.0, 2.0, 3.0, 4.0]);
}

#[test]
fn test_vector_store_remove() {
    let mut store = VectorStore::new(3);
    let meta = VectorMeta { memory_id: 42, created_at: "2024-01-01".into() };
    store.insert(42, vec![0.0; 3], meta).unwrap();
    assert!(store.remove(42));
    assert!(!store.remove(42));
    assert!(store.is_empty());
}

#[test]
fn store_test_dimension_mismatch() {
    let mut store = VectorStore::new(3);
    let meta = VectorMeta { memory_id: 1, created_at: "".into() };
    assert!(store.insert(1, vec![0.0; 5], meta).is_err());
}

fn meta(id: i64) -> VectorMeta {
    VectorMeta { memory_id: id, created_at: String::new() }
}

#[test]
fn refused_vector_leaves_store_unchanged() {
    let mut store: VectorStore<f32> = VectorStore::new(2);
    store.insert(1, vec![1.0, 2.0], meta(1)).unwrap();
    let err = store.insert(2, vec![1.0], meta(2)).unwrap_err();
    assert_eq!(err, StoreError::Dimension { expected: 2, got: 1 });
    assert_eq!(err.message(), "Expected 2 dims, got 1");
    assert_eq!(store.len(), 1);
    assert_eq!(store.ids, vec![1]);
}

#[test]
fn lookup_finds_first_entry_of_an_id() {
    let mut store: VectorStore<f32> = VectorStore::new(1);
    store.insert(5, vec![1.0], meta(5)).unwrap();
    store.insert(6, vec![2.0], meta(6)).unwrap();
    store.insert(5, vec![3.0], meta(5)).unwrap();
    assert_eq!(store.get(5).unwrap(), &[1.0]);
    assert_eq!(store.index_of(5), Some(0));
    assert_eq!(store.index_of(6), Some(1));
    assert_eq!(store.index_of(9), None);
    assert!(store.remove(5));
    assert_eq!(store.get(5).unwrap(), &[3.0]);
    assert_eq!(store.ids, vec![6, 5]);
    assert_eq!(store.metadata.len(), 2);
}

#[test]
fn positional_access() {
    let mut store: VectorStore<f32> = VectorStore::with_capacity(2, 10);
    store.insert(10, vec![0.5, 0.25], meta(10)).unwrap();
    assert_eq!(store.get_vector(0).unwrap(), &[0.5, 0.25]);
    assert!(store.get_vector(1).is_none());
    assert_eq!(store.get_id(0), Some(10));
    assert_eq!(store.get_id(3), None);
    assert_eq!(store.dim(), 2);
}

#[test]
fn default_store_has_default_dimension() {
    let store: VectorStore<f32> = VectorStore::default();
    assert_eq!(store.dim(), DEFAULT_DIM);
    assert_eq!(VectorStore::<f32>::default_dim().dim(), 384);
    assert!(store.is_empty());
}
