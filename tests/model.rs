use memory_engine::entities::{CodeEntity, EntityType};
use memory_engine::relationships::{RelationType, Relationship, RelationshipQuery};
use memory_engine::text::{decimal, text_contains};

#[test]
fn test_entity_creation() {
    let entity = CodeEntity::new(
        "test_function".to_string(),
        EntityType::Function,
        "src/main.rs".to_string(),
        10,
        20,
        0,
        10,
    );

    assert_eq!(entity.name, "test_function");
    assert_eq!(entity.entity_type, EntityType::Function);
    assert_eq!(entity.file_path, "src/main.rs");
    assert_eq!(entity.line_start, 10);
    assert_eq!(entity.line_end, 20);
}

#[test]
fn test_entity_type_conversion() {
    assert_eq!(EntityType::Function.as_str(), "function");
    assert_eq!(EntityType::from_str("function"), Some(EntityType::Function));
    assert_eq!(EntityType::from_str("invalid"), None);
}

#[test]
fn test_relationship_creation() {
    let rel = Relationship::new("entity1".to_string(), "entity2".to_string(), RelationType::Calls);

    assert_eq!(rel.from_entity, "entity1");
    assert_eq!(rel.to_entity, "entity2");
    assert_eq!(rel.relationship_type, RelationType::Calls);
}

#[test]
fn test_relationship_query() {
    let rel = Relationship::new("entity1".to_string(), "entity2".to_string(), RelationType::Calls);

    let query = RelationshipQuery::new()
        .from_entity("entity1".to_string())
        .relationship_type(RelationType::Calls);

    assert!(query.matches(&rel));

    let query2 = RelationshipQuery::new().from_entity("entity3".to_string());

    assert!(!query2.matches(&rel));
}

#[test]
fn every_entity_kind_token_reads_back() {
    let kinds = [
        EntityType::Function,
        EntityType::Class,
        EntityType::Module,
        EntityType::Variable,
        EntityType::Import,
        EntityType::Export,
        EntityType::Interface,
        EntityType::Type,
        EntityType::Constant,
    ];
    for k in kinds {
        assert_eq!(EntityType::from_str(k.as_str()), Some(k));
    }
    assert_eq!(EntityType::Interface.as_str(), "interface");
    assert_eq!(EntityType::from_str("Function"), None);
    assert_eq!(EntityType::from_str(""), None);
}

#[test]
fn every_relation_kind_token_reads_back() {
    let kinds = [
        RelationType::Calls,
        RelationType::Imports,
        RelationType::Extends,
        RelationType::Implements,
        RelationType::Uses,
        RelationType::Defines,
        RelationType::References,
        RelationType::Contains,
    ];
    for k in kinds {
        assert_eq!(RelationType::from_str(k.as_str()), Some(k));
    }
    assert_eq!(RelationType::References.as_str(), "references");
    assert_eq!(RelationType::from_str("call"), None);
}

#[test]
fn entity_signature_joins_file_kind_name_and_line() {
    let entity = CodeEntity::new(
        "test_function".to_string(),
        EntityType::Function,
        "src/main.rs".to_string(),
        10,
        20,
        0,
        10,
    );
    assert_eq!(entity.get_signature(), "src/main.rs:function:test_function:10");
    let far = CodeEntity::new("x".to_string(), EntityType::Constant, "a.rs".to_string(), 4294967295, 1, 0, 0);
    assert_eq!(far.get_signature(), "a.rs:constant:x:4294967295");
}

#[test]
fn relationship_signature_is_from_arrow_to_and_kind() {
    let rel = Relationship::new("a".to_string(), "b".to_string(), RelationType::Imports);
    assert_eq!(rel.get_signature(), "a->b:imports");
}

#[test]
fn signatures_escape_reserved_characters_in_endpoints() {
    let left = Relationship::new("a->b".to_string(), "c".to_string(), RelationType::Calls);
    let right = Relationship::new("a".to_string(), "b->c".to_string(), RelationType::Calls);
    assert_eq!(left.get_signature(), "a-\\>b->c:calls");
    assert_eq!(right.get_signature(), "a->b-\\>c:calls");
    assert_ne!(left.get_signature(), right.get_signature());
    let colon = Relationship::new("x:y".to_string(), "z\\".to_string(), RelationType::Uses);
    assert_eq!(colon.get_signature(), "x\\:y->z\\\\:uses");
    let uuid_like = Relationship::new("1b4e-28ba".to_string(), "2fa1-11d2".to_string(), RelationType::Defines);
    assert_eq!(uuid_like.get_signature(), "1b4e-28ba->2fa1-11d2:defines");
}

#[test]
fn fresh_entities_get_distinct_identifiers() {
    let a = CodeEntity::new("f".to_string(), EntityType::Function, "x.rs".to_string(), 1, 1, 0, 1);
    let b = CodeEntity::new("f".to_string(), EntityType::Function, "x.rs".to_string(), 1, 1, 0, 1);
    assert_ne!(a.id, b.id);
    assert_eq!(a.id.len(), 36);
    assert_eq!(a.created_at, a.updated_at);
    assert!(a.metadata.is_empty());
}

#[test]
fn metadata_replaces_an_earlier_value() {
    let e = CodeEntity::new("f".to_string(), EntityType::Function, "x.rs".to_string(), 1, 1, 0, 1)
        .with_metadata("k".to_string(), "v1".to_string())
        .with_metadata("other".to_string(), "w".to_string())
        .with_metadata("k".to_string(), "v2".to_string());
    assert_eq!(
        e.metadata,
        vec![("k".to_string(), "v2".to_string()), ("other".to_string(), "w".to_string())]
    );
    let r = Relationship::new("a".to_string(), "b".to_string(), RelationType::Uses)
        .with_metadata("k".to_string(), "v".to_string());
    assert_eq!(r.metadata, vec![("k".to_string(), "v".to_string())]);
}

#[test]
fn update_position_moves_only_the_position() {
    let mut e = CodeEntity::new("f".to_string(), EntityType::Function, "x.rs".to_string(), 1, 2, 3, 4);
    let id = e.id.clone();
    e.update_position(10, 20, 30, 40);
    assert_eq!((e.line_start, e.line_end, e.column_start, e.column_end), (10, 20, 30, 40));
    assert_eq!(e.id, id);
    assert_eq!(e.name, "f");
}

#[test]
fn query_filters_are_a_conjunction() {
    let rel = Relationship::new("a".to_string(), "b".to_string(), RelationType::Calls);
    assert!(RelationshipQuery::new().matches(&rel));
    assert!(RelationshipQuery::new().to_entity("b".to_string()).matches(&rel));
    assert!(!RelationshipQuery::new().to_entity("a".to_string()).matches(&rel));
    assert!(!RelationshipQuery::new()
        .from_entity("a".to_string())
        .relationship_type(RelationType::Uses)
        .matches(&rel));
    let q = RelationshipQuery::new()
        .from_entity("a".to_string())
        .to_entity("b".to_string())
        .relationship_type(RelationType::Calls);
    assert!(q.matches(&rel));
    assert!(rel.same_key(&Relationship::new("a".to_string(), "b".to_string(), RelationType::Calls)));
}

#[test]
fn decimal_text_and_substring_search() {
    assert_eq!(decimal(0), "0");
    assert_eq!(decimal(907), "907");
    assert_eq!(decimal(4294967295), "4294967295");
    assert!(text_contains("parse_file", "se_f"));
    assert!(text_contains("parse_file", ""));
    assert!(text_contains("ab", "ab"));
    assert!(!text_contains("parse_file", "File"));
    assert!(!text_contains("a", "ab"));
    assert!(text_contains("aaab", "aab"));
}
