use memory_engine::entities::{CodeEntity, EntityType};
use memory_engine::parser::{
    family_for_extension, impl_name, kinds_of_family, line_entities, python_import_name, CodeParser, SyntaxFamily,
};

fn of_kind(entities: &[CodeEntity], kind: EntityType) -> Vec<&CodeEntity> {
    entities.iter().filter(|e| e.entity_type == kind).collect()
}

#[test]
fn test_parse_simple_javascript() {
    let parser = CodeParser::new().unwrap();
    let content = "function testFunction() {\n  return 'hello';\n}\nclass TestClass {}\nimport React from 'react';\nconst myVar = 42;\n";

    let (entities, _relationships) = parser.parse_file("snippet.js", content);

    assert!(!entities.is_empty());

    let functions = of_kind(&entities, EntityType::Function);
    let classes = of_kind(&entities, EntityType::Class);
    let imports = of_kind(&entities, EntityType::Import);
    let variables = of_kind(&entities, EntityType::Variable);

    assert_eq!(functions.len(), 1);
    assert_eq!(functions[0].name, "testFunction");

    assert_eq!(classes.len(), 1);
    assert_eq!(classes[0].name, "TestClass");

    assert_eq!(imports.len(), 1);
    assert_eq!(imports[0].name, "react");

    assert_eq!(variables.len(), 1);
    assert_eq!(variables[0].name, "myVar");
}

const RUST_SAMPLE: &str = r#"
use std::collections::HashMap;
use anyhow::Result;

pub struct MemoryEngine {
    entities: HashMap<String, Entity>,
}

pub trait Analyzer {
    fn analyze(&self) -> Result<()>;
}

pub enum EntityType {
    Function,
    Struct,
    Trait,
}

impl MemoryEngine {
    pub fn new() -> Self {
        Self {
            entities: HashMap::new(),
        }
    }

    pub fn add_entity(&mut self, entity: Entity) {
        self.entities.insert(entity.id.clone(), entity);
    }
}

pub fn create_parser() -> Result<CodeParser> {
    CodeParser::new()
}

pub const MAX_ENTITIES: usize = 1000;

pub mod storage {
    pub fn save_data() {}
}
"#;

#[test]
fn test_rust_parsing() {
    let parser = CodeParser::new().unwrap();

    let (entities, _relationships) = parser.parse_file("test_rust_parsing.rs", RUST_SAMPLE);

    let use_statements = of_kind(&entities, EntityType::Import);
    let structs: Vec<_> =
        entities.iter().filter(|e| e.entity_type == EntityType::Class && e.name == "MemoryEngine").collect();
    let traits: Vec<_> =
        entities.iter().filter(|e| e.entity_type == EntityType::Class && e.name == "Analyzer").collect();
    let enums: Vec<_> =
        entities.iter().filter(|e| e.entity_type == EntityType::Class && e.name == "EntityType").collect();
    let functions = of_kind(&entities, EntityType::Function);
    let constants: Vec<_> =
        entities.iter().filter(|e| e.entity_type == EntityType::Variable && e.name == "MAX_ENTITIES").collect();
    let modules = of_kind(&entities, EntityType::Module);

    assert!(use_statements.len() >= 2, "Should find use statements");
    assert_eq!(structs.len(), 1, "Should find MemoryEngine struct");
    assert_eq!(traits.len(), 1, "Should find Analyzer trait");
    assert_eq!(enums.len(), 1, "Should find EntityType enum");
    assert!(functions.len() >= 3, "Should find functions (new, add_entity, create_parser)");
    assert_eq!(constants.len(), 1, "Should find MAX_ENTITIES constant");
    assert_eq!(modules.len(), 1, "Should find storage module");
}

#[test]
fn brace_family_scenario() {
    let parser = CodeParser::new().unwrap();
    let content = "function foo() {\nclass Bar {}\nimport x from 'mod'\nconst y = 1\n";
    let (entities, relationships) = parser.parse_file("scenario.ts", content);
    assert!(relationships.is_empty());
    assert_eq!(entities.len(), 4);
    let expect = [
        ("foo", EntityType::Function, 1u32),
        ("Bar", EntityType::Class, 2),
        ("mod", EntityType::Import, 3),
        ("y", EntityType::Variable, 4),
    ];
    for (name, kind, line) in expect {
        let found = of_kind(&entities, kind);
        assert_eq!(found.len(), 1);
        assert_eq!(found[0].name, name);
        assert_eq!(found[0].line_start, line);
        assert_eq!(found[0].line_end, line);
        assert_eq!(found[0].column_start, 0);
        assert_eq!(found[0].file_path, "scenario.ts");
    }
    assert_eq!(of_kind(&entities, EntityType::Function)[0].column_end, 16);
}

#[test]
fn systems_family_scenario() {
    let parser = CodeParser::new().unwrap();
    let content = "use a::b;\nuse c::d;\nstruct S {}\ntrait T {}\nfn f() {}\nconst C: u32 = 1;\nmod m {}\n";
    let (entities, _) = parser.parse_file("lib.rs", content);
    assert_eq!(of_kind(&entities, EntityType::Class).len(), 2);
    assert_eq!(of_kind(&entities, EntityType::Function).len(), 1);
    assert_eq!(of_kind(&entities, EntityType::Variable).len(), 1);
    assert_eq!(of_kind(&entities, EntityType::Module).len(), 1);
    assert_eq!(of_kind(&entities, EntityType::Import).len(), 2);
    assert_eq!(entities.len(), 7);
    let imports: Vec<&str> = of_kind(&entities, EntityType::Import).iter().map(|e| e.name.as_str()).collect();
    assert_eq!(imports, vec!["a::b", "c::d"]);
}

#[test]
fn unknown_extension_yields_nothing() {
    let parser = CodeParser::new().unwrap();
    let (entities, relationships) = parser.parse_file("notes.txt", "function foo() {\nclass Bar {}\n");
    assert!(entities.is_empty());
    assert!(relationships.is_empty());
    let (entities, _) = parser.parse_file("Makefile", "fn main() {}\n");
    assert!(entities.is_empty());
}

#[test]
fn indentation_family_imports_join_module_and_symbol() {
    let parser = CodeParser::new().unwrap();
    let content = "import os\nfrom collections import OrderedDict\ndef run(x):\nclass Job:\n    def inner(self):\n";
    let (entities, _) = parser.parse_file("job.py", content);
    let imports: Vec<&str> = of_kind(&entities, EntityType::Import).iter().map(|e| e.name.as_str()).collect();
    assert_eq!(imports, vec!["os", "collections.OrderedDict"]);
    let functions = of_kind(&entities, EntityType::Function);
    assert_eq!(functions.len(), 1);
    assert_eq!(functions[0].name, "run");
    assert_eq!(functions[0].line_start, 3);
    assert_eq!(of_kind(&entities, EntityType::Class)[0].name, "Job");
}

#[test]
fn impl_blocks_are_named_after_their_type() {
    let parser = CodeParser::new().unwrap();
    let content = "impl<T> Display for Wrapper<T> {\n    impl Foo {\n";
    let (entities, _) = parser.parse_file("x.rs", content);
    let names: Vec<&str> = entities.iter().map(|e| e.name.as_str()).collect();
    assert_eq!(names, vec!["impl Wrapper", "impl Foo"]);
    assert_eq!(entities[1].line_start, 2);
}

#[test]
fn const_fn_reads_as_a_constant() {
    let parser = CodeParser::new().unwrap();
    let (entities, _) = parser.parse_file("x.rs", "pub const fn build() {}\n");
    let kinds: Vec<EntityType> = entities.iter().map(|e| e.entity_type).collect();
    assert_eq!(kinds, vec![EntityType::Variable]);
    assert_eq!(entities[0].name, "fn");
}

#[test]
fn helper_results_after_the_matcher() {
    assert_eq!(impl_name(Some("Foo".to_string())), Some("impl Foo".to_string()));
    assert_eq!(impl_name(None), None);
    assert_eq!(
        python_import_name(Some((Some("os".to_string()), Some("path".to_string())))),
        Some("os.path".to_string())
    );
    assert_eq!(python_import_name(Some((None, Some("sys".to_string())))), Some("sys".to_string()));
    assert_eq!(python_import_name(None), None);
    assert_eq!(family_for_extension("tsx"), Some(SyntaxFamily::Brace));
    assert_eq!(family_for_extension("py"), Some(SyntaxFamily::Indentation));
    assert_eq!(family_for_extension("rs"), Some(SyntaxFamily::Systems));
    assert_eq!(family_for_extension("RS"), None);
}

#[test]
fn lines_split_at_newlines_and_crlf() {
    let parser = CodeParser::new().unwrap();
    let (entities, _) = parser.parse_file("w.js", "const a = 1\r\n\r\nconst bb = 2\nconst c = 3");
    let placed: Vec<(&str, u32, u32)> = entities.iter().map(|e| (e.name.as_str(), e.line_start, e.column_end)).collect();
    assert_eq!(placed, vec![("a", 1, 11), ("bb", 3, 12), ("c", 4, 11)]);
}

#[test]
fn extension_is_taken_from_the_file_name() {
    let parser = CodeParser::new().unwrap();
    let content = "def run():\n";
    assert_eq!(parser.parse_file("pkg.v2/tool.py", content).0.len(), 1);
    assert!(parser.parse_file("tool.py.bak", content).0.is_empty());
    assert!(parser.parse_file("dir.py/.py", content).0.is_empty());
    assert!(parser.parse_file("tool.PY", content).0.is_empty());
}

#[test]
fn width_counts_bytes() {
    let parser = CodeParser::new().unwrap();
    let (entities, _) = parser.parse_file("u.js", "const é = 1\nconst abc = 2\n");
    let widths: Vec<u32> = entities.iter().map(|e| e.column_end).collect();
    assert_eq!(widths, vec![12, 13]);
}

#[test]
fn line_entities_follow_matcher_order() {
    let names = vec![
        Some("f".to_string()),
        None,
        Some("T".to_string()),
        None,
        Some("a::b".to_string()),
        None,
        None,
        Some("impl S".to_string()),
    ];
    let entities = line_entities(SyntaxFamily::Systems, names, "m.rs", 7, 30);
    let got: Vec<(&str, EntityType, u32, u32)> =
        entities.iter().map(|e| (e.name.as_str(), e.entity_type, e.line_start, e.column_end)).collect();
    assert_eq!(
        got,
        vec![
            ("f", EntityType::Function, 7, 30),
            ("T", EntityType::Class, 7, 30),
            ("a::b", EntityType::Import, 7, 30),
            ("impl S", EntityType::Class, 7, 30),
        ]
    );
    assert!(entities.iter().all(|e| e.file_path == "m.rs" && e.line_end == 7 && e.column_start == 0));
    let none = line_entities(SyntaxFamily::Indentation, vec![None, None, None], "m.py", 1, 0);
    assert!(none.is_empty());
    assert_eq!(
        kinds_of_family(SyntaxFamily::Brace),
        vec![EntityType::Function, EntityType::Class, EntityType::Import, EntityType::Variable]
    );
}
