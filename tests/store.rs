use memory_engine::entities::{CodeEntity, EntityType};
use memory_engine::memory::ProjectMemory;
use memory_engine::relationships::{RelationType, Relationship};
use memory_engine::stamps::Timestamp;
use memory_engine::storage::{
    count_from_rows, decode_entity, entity_row, keep_in_file, keep_named_like, memory_from_rows, MemoryStorage, SqlValue,
    StorageError,
};
use tempfile::NamedTempFile;

#[test]
fn test_storage_creation() {
    let temp_file = NamedTempFile::new().unwrap();
    let storage = MemoryStorage::new(temp_file.path().to_str().unwrap()).unwrap();

    let (entity_count, relationship_count, file_count) = storage.get_stats().unwrap();
    assert_eq!(entity_count, 0);
    assert_eq!(relationship_count, 0);
    assert_eq!(file_count, 0);
}

#[test]
fn test_memory_persistence() {
    let temp_file = NamedTempFile::new().unwrap();
    let db_path = temp_file.path().to_str().unwrap();

    let mut memory = ProjectMemory::new("/test/project".to_string());

    let entity1 = CodeEntity::new(
        "testFunction".to_string(),
        EntityType::Function,
        "test.js".to_string(),
        10,
        20,
        0,
        15,
    );

    let entity2 = CodeEntity::new(
        "TestClass".to_string(),
        EntityType::Class,
        "test.js".to_string(),
        25,
        35,
        0,
        20,
    );

    memory.add_entity(entity1.clone());
    memory.add_entity(entity2.clone());
    memory.update_file_hash("test.js".to_string(), "abc123".to_string());

    {
        let storage = MemoryStorage::new(db_path).unwrap();
        storage.save_memory(&memory).unwrap();
    }

    {
        let storage = MemoryStorage::new(db_path).unwrap();
        let loaded_memory = storage.load_memory("/test/project").unwrap();

        assert_eq!(loaded_memory.entities.len(), 2);
        assert_eq!(loaded_memory.file_hashes.len(), 1);
        assert_eq!(loaded_memory.file_hashes.get(0), Some(&("test.js".to_string(), "abc123".to_string())));

        let entities: Vec<_> = loaded_memory.entities.iter().collect();
        assert!(entities.iter().any(|e| e.name == "testFunction"));
        assert!(entities.iter().any(|e| e.name == "TestClass"));
    }
}

#[test]
fn test_find_entities_by_file() {
    let temp_file = NamedTempFile::new().unwrap();
    let storage = MemoryStorage::new(temp_file.path().to_str().unwrap()).unwrap();

    let mut memory = ProjectMemory::new("/test".to_string());

    let entity1 = CodeEntity::new("func1".to_string(), EntityType::Function, "file1.js".to_string(), 10, 20, 0, 15);

    let entity2 = CodeEntity::new("func2".to_string(), EntityType::Function, "file2.js".to_string(), 10, 20, 0, 15);

    memory.add_entity(entity1);
    memory.add_entity(entity2);
    storage.save_memory(&memory).unwrap();

    let file1_entities = storage.find_entities_by_file("file1.js").unwrap();
    assert_eq!(file1_entities.len(), 1);
    assert_eq!(file1_entities[0].name, "func1");

    let file2_entities = storage.find_entities_by_file("file2.js").unwrap();
    assert_eq!(file2_entities.len(), 1);
    assert_eq!(file2_entities[0].name, "func2");
}

fn sample_graph() -> ProjectMemory {
    let mut memory = ProjectMemory::new("/proj".to_string());
    let a = CodeEntity::new("alpha".to_string(), EntityType::Interface, "a.ts".to_string(), 3, 9, 2, 40)
        .with_metadata("doc".to_string(), "first \"quoted\"".to_string())
        .with_metadata("visibility".to_string(), "public".to_string());
    let b = CodeEntity::new("beta".to_string(), EntityType::Constant, "b.ts".to_string(), 1, 1, 0, 12);
    let c = CodeEntity::new("gamma".to_string(), EntityType::Export, "a.ts".to_string(), 12, 14, 0, 7);
    let (ia, ib, ic) = (a.id.clone(), b.id.clone(), c.id.clone());
    memory.add_entity(a);
    memory.add_entity(b);
    memory.add_entity(c);
    memory.add_relationship(
        Relationship::new(ia.clone(), ib.clone(), RelationType::Implements)
            .with_metadata("weight".to_string(), "3".to_string()),
    );
    memory.add_relationship(Relationship::new(ic, ia, RelationType::Contains));
    memory.add_relationship(Relationship::new(ib, "elsewhere".to_string(), RelationType::References));
    memory.update_file_hash("a.ts".to_string(), "h-a".to_string());
    memory.update_file_hash("b.ts".to_string(), "h-b".to_string());
    memory
}

fn sorted_entities(m: &ProjectMemory) -> Vec<CodeEntity> {
    let mut v = m.entities.clone();
    v.sort_by(|x, y| x.id.cmp(&y.id));
    v
}

#[test]
fn saved_graph_loads_back_whole() {
    let temp_file = NamedTempFile::new().unwrap();
    let storage = MemoryStorage::new(temp_file.path().to_str().unwrap()).unwrap();
    let memory = sample_graph();
    storage.save_memory(&memory).unwrap();
    let loaded = storage.load_memory("/proj").unwrap();
    assert_eq!(loaded.project_path, "/proj");
    let (before, after) = (sorted_entities(&memory), sorted_entities(&loaded));
    assert_eq!(before.len(), after.len());
    for (x, y) in before.iter().zip(after.iter()) {
        assert_eq!(x.id, y.id);
        assert_eq!(x.name, y.name);
        assert_eq!(x.entity_type, y.entity_type);
        assert_eq!(x.file_path, y.file_path);
        assert_eq!((x.line_start, x.line_end, x.column_start, x.column_end), (y.line_start, y.line_end, y.column_start, y.column_end));
        let mut xm = x.metadata.clone();
        xm.sort();
        assert_eq!(xm, y.metadata);
        assert_eq!(x.created_at, y.created_at);
        assert_eq!(x.updated_at, y.updated_at);
    }
    let mut sigs_before: Vec<String> = memory.relationships.iter().map(|r| r.get_signature()).collect();
    let mut sigs_after: Vec<String> = loaded.relationships.iter().map(|r| r.get_signature()).collect();
    sigs_before.sort();
    sigs_after.sort();
    assert_eq!(sigs_before, sigs_after);
    let weighted: Vec<_> = loaded.relationships.iter().filter(|r| r.relationship_type == RelationType::Implements).collect();
    assert_eq!(weighted[0].metadata, vec![("weight".to_string(), "3".to_string())]);
    let mut hashes = loaded.file_hashes.clone();
    hashes.sort();
    assert_eq!(hashes, vec![("a.ts".to_string(), "h-a".to_string()), ("b.ts".to_string(), "h-b".to_string())]);
}

#[test]
fn saving_twice_loads_the_same_as_saving_once() {
    let once = NamedTempFile::new().unwrap();
    let twice = NamedTempFile::new().unwrap();
    let memory = sample_graph();
    let s1 = MemoryStorage::new(once.path().to_str().unwrap()).unwrap();
    s1.save_memory(&memory).unwrap();
    let s2 = MemoryStorage::new(twice.path().to_str().unwrap()).unwrap();
    s2.save_memory(&memory).unwrap();
    s2.save_memory(&memory).unwrap();
    let (l1, l2) = (s1.load_memory("/proj").unwrap(), s2.load_memory("/proj").unwrap());
    assert_eq!(l2.entities.len(), 3);
    let (e1, e2) = (sorted_entities(&l1), sorted_entities(&l2));
    for (x, y) in e1.iter().zip(e2.iter()) {
        assert_eq!((&x.id, &x.name, x.entity_type, &x.metadata, x.created_at), (&y.id, &y.name, y.entity_type, &y.metadata, y.created_at));
    }
    assert_eq!(l1.relationships.len(), l2.relationships.len());
    assert_eq!(s1.get_stats().unwrap(), s2.get_stats().unwrap());
}

#[test]
fn save_replaces_the_previous_snapshot() {
    let temp_file = NamedTempFile::new().unwrap();
    let storage = MemoryStorage::new(temp_file.path().to_str().unwrap()).unwrap();
    storage.save_memory(&sample_graph()).unwrap();
    let mut small = ProjectMemory::new("/proj".to_string());
    small.add_entity(CodeEntity::new("only".to_string(), EntityType::Module, "m.rs".to_string(), 1, 1, 0, 5));
    storage.save_memory(&small).unwrap();
    let loaded = storage.load_memory("/proj").unwrap();
    assert_eq!(loaded.entities.len(), 1);
    assert_eq!(loaded.entities[0].name, "only");
    assert!(loaded.relationships.is_empty());
    assert!(loaded.file_hashes.is_empty());
}

#[test]
fn stats_count_entities_relationships_and_files() {
    let temp_file = NamedTempFile::new().unwrap();
    let storage = MemoryStorage::new(temp_file.path().to_str().unwrap()).unwrap();
    storage.save_memory(&sample_graph()).unwrap();
    assert_eq!(storage.get_stats().unwrap(), (3, 3, 2));
}

#[test]
fn name_query_orders_by_name() {
    let temp_file = NamedTempFile::new().unwrap();
    let storage = MemoryStorage::new(temp_file.path().to_str().unwrap()).unwrap();
    storage.save_memory(&sample_graph()).unwrap();
    let found = storage.find_entities_by_name("a").unwrap();
    let names: Vec<&str> = found.iter().map(|e| e.name.as_str()).collect();
    assert_eq!(names, vec!["alpha", "beta", "gamma"]);
    let found = storage.find_entities_by_name("mm").unwrap();
    assert_eq!(found.len(), 1);
    let in_a = storage.find_entities_by_file("a.ts").unwrap();
    let lines: Vec<u32> = in_a.iter().map(|e| e.line_start).collect();
    assert_eq!(lines, vec![3, 12]);
}

fn stored_row(kind: &str, created: &str, meta: &str) -> Vec<SqlValue> {
    vec![
        SqlValue::Text("id-1".to_string()),
        SqlValue::Text("n".to_string()),
        SqlValue::Text(kind.to_string()),
        SqlValue::Text("f.rs".to_string()),
        SqlValue::Integer(1),
        SqlValue::Integer(2),
        SqlValue::Integer(3),
        SqlValue::Integer(4),
        SqlValue::Text(meta.to_string()),
        SqlValue::Text(created.to_string()),
        SqlValue::Text("2024-01-02T03:04:05+00:00".to_string()),
    ]
}

#[test]
fn decoding_degrades_unknown_values_to_defaults() {
    let fallback = Timestamp { secs: 7, nanos: 8 };
    let e = decode_entity(&stored_row("widget", "not a date", "not json"), fallback).unwrap();
    assert_eq!(e.entity_type, EntityType::Function);
    assert_eq!(e.created_at, fallback);
    assert_eq!(e.updated_at, Timestamp { secs: 1704164645, nanos: 0 });
    assert!(e.metadata.is_empty());
    assert_eq!((e.line_start, e.line_end, e.column_start, e.column_end), (1, 2, 3, 4));
    let e = decode_entity(&stored_row("class", "2024-01-02T03:04:05.5+01:00", "{\"k\":\"v\"}"), fallback).unwrap();
    assert_eq!(e.entity_type, EntityType::Class);
    assert_eq!(e.created_at, Timestamp { secs: 1704161045, nanos: 500_000_000 });
    assert_eq!(e.metadata, vec![("k".to_string(), "v".to_string())]);
}

#[test]
fn malformed_rows_are_refused() {
    let fallback = Timestamp { secs: 0, nanos: 0 };
    let mut row = stored_row("class", "x", "{}");
    row[4] = SqlValue::Integer(-1);
    assert!(matches!(decode_entity(&row, fallback), Err(StorageError::MalformedRow)));
    let mut row = stored_row("class", "x", "{}");
    row[8] = SqlValue::Null;
    assert!(matches!(decode_entity(&row, fallback), Err(StorageError::MalformedRow)));
    let row = vec![SqlValue::Text("id".to_string())];
    assert!(matches!(decode_entity(&row, fallback), Err(StorageError::MalformedRow)));
    assert!(matches!(count_from_rows(&vec![vec![SqlValue::Integer(-3)]]), Err(StorageError::MalformedRow)));
    assert!(matches!(count_from_rows(&vec![]), Err(StorageError::MalformedRow)));
    assert_eq!(count_from_rows(&vec![vec![SqlValue::Integer(42)]]).unwrap(), 42);
}

#[test]
fn entity_rows_hold_tokens_and_encoded_metadata() {
    let e = CodeEntity::new("n".to_string(), EntityType::Type, "f.rs".to_string(), 5, 6, 7, 8)
        .with_metadata("b".to_string(), "2".to_string())
        .with_metadata("a".to_string(), "1".to_string());
    let row = entity_row(&e).unwrap();
    assert_eq!(row.len(), 11);
    assert!(matches!(&row[2], SqlValue::Text(t) if t == "type"));
    assert!(matches!(&row[4], SqlValue::Integer(5)));
    assert!(matches!(&row[8], SqlValue::Text(t) if t == "{\"a\":\"1\",\"b\":\"2\"}"));
    assert!(matches!(&row[9], SqlValue::Text(t) if t.len() >= 20));
    let back = decode_entity(&row, Timestamp { secs: 0, nanos: 0 }).unwrap();
    assert_eq!(back.created_at, e.created_at);
    assert_eq!(back.entity_type, EntityType::Type);
}

#[test]
fn unopenable_store_is_a_database_error() {
    let result = MemoryStorage::new("/nonexistent-directory-for-store/x/memory.db");
    assert!(matches!(result, Err(StorageError::Database(_))));
}

#[test]
fn name_query_is_a_case_sensitive_substring_match() {
    let temp_file = NamedTempFile::new().unwrap();
    let storage = MemoryStorage::new(temp_file.path().to_str().unwrap()).unwrap();
    let mut memory = ProjectMemory::new("/p".to_string());
    for name in ["load_all", "loadAll", "LOAD", "a%b"] {
        memory.add_entity(CodeEntity::new(name.to_string(), EntityType::Function, "x.rs".to_string(), 1, 1, 0, 1));
    }
    storage.save_memory(&memory).unwrap();
    let names = |p: &str| -> Vec<String> {
        storage.find_entities_by_name(p).unwrap().into_iter().map(|e| e.name).collect()
    };
    assert_eq!(names("load"), vec!["loadAll".to_string(), "load_all".to_string()]);
    assert_eq!(names("_"), vec!["load_all".to_string()]);
    assert_eq!(names("%"), vec!["a%b".to_string()]);
    assert!(names("Load").is_empty());
}

#[test]
fn verified_filters_keep_exact_matches() {
    let mk = |n: &str, f: &str| CodeEntity::new(n.to_string(), EntityType::Type, f.to_string(), 1, 1, 0, 1);
    let v = vec![mk("abc", "a.rs"), mk("xbz", "b.rs"), mk("q", "a.rs")];
    let kept: Vec<String> = keep_named_like(v.clone(), "b").into_iter().map(|e| e.name).collect();
    assert_eq!(kept, vec!["abc".to_string(), "xbz".to_string()]);
    let kept: Vec<String> = keep_in_file(v, "a.rs").into_iter().map(|e| e.name).collect();
    assert_eq!(kept, vec!["abc".to_string(), "q".to_string()]);
}

#[test]
fn rows_read_back_into_a_graph() {
    let fallback = Timestamp { secs: 1, nanos: 0 };
    let entity_rows = vec![stored_row("class", "x", "{}")];
    let relationship_rows = vec![vec![
        SqlValue::Text("r1".to_string()),
        SqlValue::Text("id-1".to_string()),
        SqlValue::Text("id-2".to_string()),
        SqlValue::Text("bogus".to_string()),
        SqlValue::Text("{}".to_string()),
        SqlValue::Text("x".to_string()),
        SqlValue::Text("y".to_string()),
    ]];
    let hash_rows = vec![
        vec![SqlValue::Text("f.rs".to_string()), SqlValue::Text("h1".to_string())],
        vec![SqlValue::Text("f.rs".to_string()), SqlValue::Text("h2".to_string())],
    ];
    let m = memory_from_rows("/p".to_string(), &entity_rows, &relationship_rows, &hash_rows, fallback).unwrap();
    assert_eq!(m.project_path, "/p");
    assert_eq!(m.entities.len(), 1);
    assert_eq!(m.entities[0].entity_type, EntityType::Class);
    assert_eq!(m.relationships[0].relationship_type, RelationType::Uses);
    assert_eq!(m.relationships[0].created_at, fallback);
    assert_eq!(m.file_hashes, vec![("f.rs".to_string(), "h2".to_string())]);
    let bad_hashes = vec![vec![SqlValue::Integer(3), SqlValue::Text("h".to_string())]];
    assert!(matches!(
        memory_from_rows("/p".to_string(), &entity_rows, &relationship_rows, &bad_hashes, fallback),
        Err(StorageError::MalformedRow)
    ));
}
