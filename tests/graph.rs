use memory_engine::entities::{CodeEntity, EntityType};
use memory_engine::memory::ProjectMemory;
use memory_engine::relationships::{RelationType, Relationship, RelationshipQuery};

fn entity(name: &str, file: &str, line: u32) -> CodeEntity {
    CodeEntity::new(name.to_string(), EntityType::Function, file.to_string(), line, line, 0, 10)
}

#[test]
fn test_project_memory_creation() {
    let memory = ProjectMemory::new("/test/project".to_string());
    assert_eq!(memory.project_path, "/test/project");
    assert_eq!(memory.entities.len(), 0);
    assert_eq!(memory.relationships.len(), 0);
}

#[test]
fn test_add_entity() {
    let mut memory = ProjectMemory::new("/test".to_string());
    let entity = CodeEntity::new(
        "test_func".to_string(),
        EntityType::Function,
        "test.js".to_string(),
        1,
        10,
        0,
        20,
    );
    let entity_id = entity.id.clone();

    memory.add_entity(entity);
    assert_eq!(memory.entities.len(), 1);
    assert!(memory.get_entity(&entity_id).is_some());
}

#[test]
fn test_find_entities_by_name() {
    let mut memory = ProjectMemory::new("/test".to_string());
    let entity = CodeEntity::new(
        "test_function".to_string(),
        EntityType::Function,
        "test.js".to_string(),
        1,
        10,
        0,
        20,
    );

    memory.add_entity(entity);
    let results = memory.find_entities_by_name("test");
    assert_eq!(results.len(), 1);
    assert_eq!(results[0].name, "test_function");
}

#[test]
fn add_entity_replaces_by_identifier() {
    let mut memory = ProjectMemory::new("/p".to_string());
    let e = entity("first", "a.js", 1);
    let mut renamed = e.clone();
    renamed.name = "second".to_string();
    memory.add_entity(e);
    memory.add_entity(entity("other", "a.js", 2));
    memory.add_entity(renamed.clone());
    assert_eq!(memory.entities.len(), 2);
    assert_eq!(memory.get_entity(&renamed.id).unwrap().name, "second");
    assert_eq!(memory.entities[0].name, "second");
}

#[test]
fn duplicate_relationships_are_stored_once() {
    let mut memory = ProjectMemory::new("/p".to_string());
    memory.add_relationship(Relationship::new("a".to_string(), "b".to_string(), RelationType::Calls));
    let second = Relationship::new("a".to_string(), "b".to_string(), RelationType::Calls)
        .with_metadata("note".to_string(), "x".to_string());
    memory.add_relationship(second);
    assert_eq!(memory.relationships.len(), 1);
    assert!(memory.relationships[0].metadata.is_empty());
    memory.add_relationship(Relationship::new("a".to_string(), "b".to_string(), RelationType::Uses));
    memory.add_relationship(Relationship::new("b".to_string(), "a".to_string(), RelationType::Calls));
    assert_eq!(memory.relationships.len(), 3);
}

#[test]
fn removing_an_entity_cascades_to_its_relationships() {
    let mut memory = ProjectMemory::new("/p".to_string());
    let a = entity("a", "f.rs", 1);
    let b = entity("b", "f.rs", 2);
    let c = entity("c", "f.rs", 3);
    let (ia, ib, ic) = (a.id.clone(), b.id.clone(), c.id.clone());
    memory.add_entity(a);
    memory.add_entity(b);
    memory.add_entity(c);
    memory.add_relationship(Relationship::new(ia.clone(), ib.clone(), RelationType::Calls));
    memory.add_relationship(Relationship::new(ib.clone(), ic.clone(), RelationType::Calls));
    memory.add_relationship(Relationship::new(ic.clone(), ib.clone(), RelationType::Uses));
    memory.add_relationship(Relationship::new(ia.clone(), ic.clone(), RelationType::Uses));
    memory.remove_entity(&ib);
    assert_eq!(memory.entities.len(), 2);
    assert!(memory.get_entity(&ib).is_none());
    assert_eq!(memory.relationships.len(), 1);
    assert!(memory.relationships.iter().all(|r| r.from_entity != ib && r.to_entity != ib));
    assert_eq!(memory.relationships[0].from_entity, ia);
    assert_eq!(memory.relationships[0].to_entity, ic);
}

#[test]
fn change_detection_follows_the_stored_hash() {
    let mut memory = ProjectMemory::new("/p".to_string());
    assert!(memory.has_file_changed("src/a.rs", "h1"));
    memory.update_file_hash("src/a.rs".to_string(), "h1".to_string());
    assert!(!memory.has_file_changed("src/a.rs", "h1"));
    assert!(memory.has_file_changed("src/a.rs", "h2"));
    assert!(memory.has_file_changed("src/b.rs", "h1"));
    memory.update_file_hash("src/a.rs".to_string(), "h2".to_string());
    assert!(!memory.has_file_changed("src/a.rs", "h2"));
    assert!(memory.has_file_changed("src/a.rs", "h1"));
    assert_eq!(memory.file_hashes.len(), 1);
}

#[test]
fn lookups_by_name_file_and_query() {
    let mut memory = ProjectMemory::new("/p".to_string());
    memory.add_entity(entity("parse_file", "a.rs", 1));
    memory.add_entity(entity("Parser", "b.rs", 2));
    memory.add_entity(entity("render", "a.rs", 3));
    let mut names: Vec<String> = memory.find_entities_by_name("arse").iter().map(|e| e.name.clone()).collect();
    names.sort();
    assert_eq!(names, vec!["Parser".to_string(), "parse_file".to_string()]);
    assert_eq!(memory.find_entities_by_name("PARSE").len(), 0);
    assert_eq!(memory.find_entities_by_name("").len(), 3);
    assert_eq!(memory.find_entities_in_file("a.rs").len(), 2);
    assert_eq!(memory.find_entities_in_file("a.r").len(), 0);
    memory.add_relationship(Relationship::new("x".to_string(), "y".to_string(), RelationType::Calls));
    memory.add_relationship(Relationship::new("x".to_string(), "z".to_string(), RelationType::Uses));
    let found = memory.find_relationships(&RelationshipQuery::new().from_entity("x".to_string()));
    assert_eq!(found.len(), 2);
    let found = memory.find_relationships(&RelationshipQuery::new().relationship_type(RelationType::Uses));
    assert_eq!(found.len(), 1);
    assert_eq!(found[0].to_entity, "z");
}

#[test]
fn traversal_skips_missing_endpoints() {
    let mut memory = ProjectMemory::new("/p".to_string());
    let a = entity("a", "f.rs", 1);
    let b = entity("b", "f.rs", 2);
    let (ia, ib) = (a.id.clone(), b.id.clone());
    memory.add_entity(a);
    memory.add_entity(b);
    memory.add_relationship(Relationship::new(ia.clone(), ib.clone(), RelationType::Calls));
    memory.add_relationship(Relationship::new(ia.clone(), "ghost".to_string(), RelationType::Calls));
    memory.add_relationship(Relationship::new("ghost".to_string(), ib.clone(), RelationType::Uses));
    let deps = memory.get_dependencies(&ia);
    assert_eq!(deps.len(), 1);
    assert_eq!(deps[0].name, "b");
    let dependents = memory.get_dependents(&ib);
    assert_eq!(dependents.len(), 1);
    assert_eq!(dependents[0].name, "a");
    assert_eq!(memory.get_dependencies("ghost").len(), 1);
    assert!(memory.get_dependents(&ia).is_empty());
}

#[test]
fn stats_count_each_collection_and_clear_empties_them() {
    let mut memory = ProjectMemory::new("/p".to_string());
    memory.add_entity(entity("a", "f.rs", 1));
    memory.add_entity(entity("b", "g.rs", 1));
    memory.add_relationship(Relationship::new("a".to_string(), "b".to_string(), RelationType::Calls));
    memory.update_file_hash("f.rs".to_string(), "1".to_string());
    let stats = memory.get_stats();
    assert_eq!((stats.entity_count, stats.relationship_count, stats.file_count), (2, 1, 1));
    assert_eq!(stats.project_path, "/p");
    memory.clear();
    let stats = memory.get_stats();
    assert_eq!((stats.entity_count, stats.relationship_count, stats.file_count), (0, 0, 0));
    assert_eq!(memory.project_path, "/p");
}
