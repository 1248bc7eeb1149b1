use vstd::prelude::*;



use crate::pairs::{set_pair, unique_keys, with_pair};
use crate::stamps::{fresh_id, now, Timestamp};
use crate::text::{decimal, decimal_text, same_text};

verus! {

/// The closed set of code element kinds the graph tracks.
#[derive(Debug, Clone, Copy, PartialEq, Eq, Structural)]
pub enum EntityType {
    Function,
    Class,
    Module,
    Variable,
    Import,
    Export,
    Interface,
    Type,
    Constant,
}

/// The canonical lowercase token of each entity kind.
pub open spec fn entity_token(k: EntityType) -> Seq<char> {
    match k {
        EntityType::Function => "function"@,
        EntityType::Class => "class"@,
        EntityType::Module => "module"@,
        EntityType::Variable => "variable"@,
        EntityType::Import => "import"@,
        EntityType::Export => "export"@,
        EntityType::Interface => "interface"@,
        EntityType::Type => "type"@,
        EntityType::Constant => "constant"@,
    }
}

/// The kind whose token is `s`, if any.
pub open spec fn entity_from_token(s: Seq<char>) -> Option<EntityType> {
    if s == "function"@ {
        Some(EntityType::Function)
    } else if s == "class"@ {
        Some(EntityType::Class)
    } else if s == "module"@ {
        Some(EntityType::Module)
    } else if s == "variable"@ {
        Some(EntityType::Variable)
    } else if s == "import"@ {
        Some(EntityType::Import)
    } else if s == "export"@ {
        Some(EntityType::Export)
    } else if s == "interface"@ {
        Some(EntityType::Interface)
    } else if s == "type"@ {
        Some(EntityType::Type)
    } else if s == "constant"@ {
        Some(EntityType::Constant)
    } else {
        None
    }
}

impl EntityType {
    pub fn as_str(&self) -> (r: &'static str)
        ensures
            r@ == entity_token(*self),
    {
        match self {
            EntityType::Function => "function",
            EntityType::Class => "class",
            EntityType::Module => "module",
            EntityType::Variable => "variable",
            EntityType::Import => "import",
            EntityType::Export => "export",
            EntityType::Interface => "interface",
            EntityType::Type => "type",
            EntityType::Constant => "constant",
        }
    }

    pub fn from_str(s: &str) -> (r: Option<EntityType>)
        ensures
            r == entity_from_token(s@),
    {
        if same_text(s, "function") {
            Some(EntityType::Function)
        } else if same_text(s, "class") {
            Some(EntityType::Class)
        } else if same_text(s, "module") {
            Some(EntityType::Module)
        } else if same_text(s, "variable") {
            Some(EntityType::Variable)
        } else if same_text(s, "import") {
            Some(EntityType::Import)
        } else if same_text(s, "export") {
            Some(EntityType::Export)
        } else if same_text(s, "interface") {
            Some(EntityType::Interface)
        } else if same_text(s, "type") {
            Some(EntityType::Type)
        } else if same_text(s, "constant") {
            Some(EntityType::Constant)
        } else {
            None
        }
    }
}

/// A named, positioned code element. Positions are 1-based lines; `metadata`
/// is a string-to-string mapping held as pairs with distinct keys.
#[derive(Debug, Clone)]
pub struct CodeEntity {
    pub id: String,
    pub name: String,
    pub entity_type: EntityType,
    pub file_path: String,
    pub line_start: u32,
    pub line_end: u32,
    pub column_start: u32,
    pub column_end: u32,
    pub metadata: Vec<(String, String)>,
    pub created_at: Timestamp,
    pub updated_at: Timestamp,
}

/// The display identity of an entity: `file:kind:name:line_start`.
pub open spec fn entity_signature(e: CodeEntity) -> Seq<char> {
    e.file_path@ + ":"@ + entity_token(e.entity_type) + ":"@ + e.name@ + ":"@ + decimal_text(
        e.line_start as nat,
    )
}

impl CodeEntity {
    pub open spec fn wf(&self) -> bool {
        unique_keys(self.metadata@)
    }

    /// A fresh entity with a new identifier, no metadata, and both timestamps
    /// set to the same current instant.
    pub fn new(
        name: String,
        entity_type: EntityType,
        file_path: String,
        line_start: u32,
        line_end: u32,
        column_start: u32,
        column_end: u32,
    ) -> (r: CodeEntity)
        ensures
            r.wf(),
            r.name == name,
            r.entity_type == entity_type,
            r.file_path == file_path,
            r.line_start == line_start,
            r.line_end == line_end,
            r.column_start == column_start,
            r.column_end == column_end,
            r.metadata@.len() == 0,
            r.created_at == r.updated_at,
    {
        let t = now();
        CodeEntity {
            id: fresh_id(),
            name,
            entity_type,
            file_path,
            line_start,
            line_end,
            column_start,
            column_end,
            metadata: Vec::new(),
            created_at: t,
            updated_at: t,
        }
    }

    /// Attaches `key -> value`, replacing an earlier value of `key`, and
    /// refreshes `updated_at`.
    pub fn with_metadata(self, key: String, value: String) -> (r: CodeEntity)
        requires
            self.wf(),
        ensures
            r.wf(),
            r == (CodeEntity { metadata: r.metadata, updated_at: r.updated_at, ..self }),
            r.metadata@ == with_pair(self.metadata@, key, value),
    {
        let mut e = self;
        set_pair(&mut e.metadata, key, value);
        e.updated_at = now();
        e
    }

    /// Moves the entity to a new position and refreshes `updated_at`.
    pub fn update_position(&mut self, line_start: u32, line_end: u32, column_start: u32, column_end: u32)
        ensures
            final(self).id == old(self).id,
            final(self).name == old(self).name,
            final(self).entity_type == old(self).entity_type,
            final(self).file_path == old(self).file_path,
            final(self).metadata == old(self).metadata,
            final(self).created_at == old(self).created_at,
            final(self).line_start == line_start,
            final(self).line_end == line_end,
            final(self).column_start == column_start,
            final(self).column_end == column_end,
    {
        self.line_start = line_start;
        self.line_end = line_end;
        self.column_start = column_start;
        self.column_end = column_end;
        self.updated_at = now();
    }

    /// The display identity `file:kind:name:line_start`.
    pub fn get_signature(&self) -> (r: String)
        ensures
            r@ == entity_signature(*self),
    {
        let mut r = self.file_path.clone();
        r.append(":");
        r.append(self.entity_type.as_str());
        r.append(":");
        r.append(self.name.as_str());
        r.append(":");
        let line = decimal(self.line_start);
        r.append(line.as_str());
        r
    }
}

} // verus!
