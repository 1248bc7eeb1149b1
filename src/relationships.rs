use vstd::prelude::*;

use crate::pairs::{set_pair, unique_keys, with_pair};
use crate::stamps::{fresh_id, now, Timestamp};
use crate::text::same_text;

verus! {

/// The closed set of relationship kinds.
#[derive(Debug, Clone, Copy, PartialEq, Eq, Structural)]
pub enum RelationType {
    Calls,
    Imports,
    Extends,
    Implements,
    Uses,
    Defines,
    References,
    Contains,
}

/// The canonical lowercase token of each relationship kind.
pub open spec fn relation_token(k: RelationType) -> Seq<char> {
    match k {
        RelationType::Calls => "calls"@,
        RelationType::Imports => "imports"@,
        RelationType::Extends => "extends"@,
        RelationType::Implements => "implements"@,
        RelationType::Uses => "uses"@,
        RelationType::Defines => "defines"@,
        RelationType::References => "references"@,
        RelationType::Contains => "contains"@,
    }
}

/// The kind whose token is `s`, if any.
pub open spec fn relation_from_token(s: Seq<char>) -> Option<RelationType> {
    if s == "calls"@ {
        Some(RelationType::Calls)
    } else if s == "imports"@ {
        Some(RelationType::Imports)
    } else if s == "extends"@ {
        Some(RelationType::Extends)
    } else if s == "implements"@ {
        Some(RelationType::Implements)
    } else if s == "uses"@ {
        Some(RelationType::Uses)
    } else if s == "defines"@ {
        Some(RelationType::Defines)
    } else if s == "references"@ {
        Some(RelationType::References)
    } else if s == "contains"@ {
        Some(RelationType::Contains)
    } else {
        None
    }
}

impl RelationType {
    pub fn as_str(&self) -> (r: &'static str)
        ensures
            r@ == relation_token(*self),
    {
        match self {
            RelationType::Calls => "calls",
            RelationType::Imports => "imports",
            RelationType::Extends => "extends",
            RelationType::Implements => "implements",
            RelationType::Uses => "uses",
            RelationType::Defines => "defines",
            RelationType::References => "references",
            RelationType::Contains => "contains",
        }
    }

    pub fn from_str(s: &str) -> (r: Option<RelationType>)
        ensures
            r == relation_from_token(s@),
    {
        if same_text(s, "calls") {
            Some(RelationType::Calls)
        } else if same_text(s, "imports") {
            Some(RelationType::Imports)
        } else if same_text(s, "extends") {
            Some(RelationType::Extends)
        } else if same_text(s, "implements") {
            Some(RelationType::Implements)
        } else if same_text(s, "uses") {
            Some(RelationType::Uses)
        } else if same_text(s, "defines") {
            Some(RelationType::Defines)
        } else if same_text(s, "references") {
            Some(RelationType::References)
        } else if same_text(s, "contains") {
            Some(RelationType::Contains)
        } else {
            None
        }
    }
}

/// A directed, typed edge between two entity identifiers. The endpoints are
/// soft references: nothing requires them to name live entities.
#[derive(Debug, Clone)]
pub struct Relationship {
    pub id: String,
    pub from_entity: String,
    pub to_entity: String,
    pub relationship_type: RelationType,
    pub metadata: Vec<(String, String)>,
    pub created_at: Timestamp,
    pub updated_at: Timestamp,
}

/// The deduplication key of a relationship: its endpoints and kind.
pub open spec fn rel_key(r: Relationship) -> (Seq<char>, Seq<char>, RelationType) {
    (r.from_entity@, r.to_entity@, r.relationship_type)
}

/// Characters written with a backslash before them inside a signature field.
pub open spec fn is_reserved(c: char) -> bool {
    c == '\\' || c == '>' || c == ':'
}

/// How one endpoint character is written in a signature.
pub open spec fn escape_char(c: char) -> Seq<char> {
    if is_reserved(c) {
        seq!['\\', c]
    } else {
        seq![c]
    }
}

/// An endpoint as written in a signature: each reserved character escaped.
pub open spec fn escape_field(s: Seq<char>) -> Seq<char>
    decreases s.len(),
{
    if s.len() == 0 {
        Seq::empty()
    } else {
        escape_char(s[0]) + escape_field(s.drop_first())
    }
}

/// The text form of the deduplication key: `from->to:kind`, with `\`, `>` and
/// `:` inside the endpoints escaped by a backslash.
pub open spec fn rel_signature(r: Relationship) -> Seq<char> {
    escape_field(r.from_entity@) + "->"@ + escape_field(r.to_entity@) + ":"@ + relation_token(
        r.relationship_type,
    )
}

/// Reads one field from the front of a signature: its characters up to the
/// first unescaped `>` or `:`, and the text after that terminator.
pub open spec fn take_field(t: Seq<char>) -> (Seq<char>, Seq<char>)
    decreases t.len(),
{
    if t.len() == 0 {
        (Seq::empty(), Seq::empty())
    } else if t[0] == '\\' && t.len() >= 2 {
        let p = take_field(t.subrange(2, t.len() as int));
        (seq![t[1]] + p.0, p.1)
    } else if t[0] == '>' || t[0] == ':' {
        (Seq::empty(), t.drop_first())
    } else {
        let p = take_field(t.drop_first());
        (seq![t[0]] + p.0, p.1)
    }
}

/// The source, target and kind token that a signature spells.
pub open spec fn signature_parts(t: Seq<char>) -> (Seq<char>, Seq<char>, Seq<char>) {
    let p1 = take_field(t);
    let p2 = take_field(p1.1);
    (p1.0.drop_last(), p2.0, p2.1)
}

proof fn lemma_take_escaped(a: Seq<char>, rest: Seq<char>)
    ensures
        take_field(escape_field(a) + rest) == (a + take_field(rest).0, take_field(rest).1),
    decreases a.len(),
{
    if a.len() == 0 {
        assert(escape_field(a) + rest =~= rest);
        assert(a + take_field(rest).0 =~= take_field(rest).0);
    } else {
        let c = a[0];
        let tail = a.drop_first();
        let x = escape_field(tail) + rest;
        lemma_take_escaped(tail, rest);
        let t = escape_field(a) + rest;
        assert(t =~= escape_char(c) + x);
        if is_reserved(c) {
            assert(t.subrange(2, t.len() as int) =~= x);
        } else {
            assert(t.drop_first() =~= x);
        }
        assert(seq![c] + (tail + take_field(rest).0) =~= a + take_field(rest).0);
    }
}

proof fn lemma_escape_push(a: Seq<char>, c: char)
    ensures
        escape_field(a.push(c)) == escape_field(a) + escape_char(c),
    decreases a.len(),
{
    if a.len() == 0 {
        assert(a.push(c).drop_first() =~= Seq::<char>::empty());
        assert(a.push(c)[0] == c);
        assert(escape_field(Seq::<char>::empty()) == Seq::<char>::empty());
        assert(escape_field(a.push(c)) == escape_char(c) + escape_field(a.push(c).drop_first()));
        assert(escape_field(a.push(c)) =~= escape_char(c));
        assert(escape_field(a) + escape_char(c) =~= escape_char(c));
    } else {
        assert(a.push(c).drop_first() =~= a.drop_first().push(c));
        lemma_escape_push(a.drop_first(), c);
        assert(escape_field(a.push(c)) =~= escape_field(a) + escape_char(c));
    }
}

/// A signature spells back the source, target and kind token it was made
/// from.
pub proof fn lemma_signature_parts(r: Relationship)
    ensures
        signature_parts(rel_signature(r)) == (r.from_entity@, r.to_entity@, relation_token(
            r.relationship_type,
        )),
{
    reveal_strlit("->");
    reveal_strlit(":");
    let tok = relation_token(r.relationship_type);
    let e2 = escape_field(r.to_entity@) + ":"@ + tok;
    let r1 = "->"@ + e2;
    assert(rel_signature(r) =~= escape_field(r.from_entity@) + r1);
    lemma_take_escaped(r.from_entity@, r1);
    assert(r1.drop_first() =~= seq!['>'] + e2);
    assert(take_field(seq!['>'] + e2) == (Seq::<char>::empty(), (seq!['>'] + e2).drop_first()));
    assert((seq!['>'] + e2).drop_first() =~= e2);
    assert(take_field(r1).0 =~= seq!['-']);
    assert(take_field(r1).1 == e2);
    assert((r.from_entity@ + seq!['-']).drop_last() =~= r.from_entity@);
    let r2 = ":"@ + tok;
    assert(e2 =~= escape_field(r.to_entity@) + r2);
    lemma_take_escaped(r.to_entity@, r2);
    assert(r2.drop_first() =~= tok);
    assert(take_field(r2) == (Seq::<char>::empty(), tok));
    assert(r.to_entity@ + Seq::<char>::empty() =~= r.to_entity@);
}

/// Two relationships have the same signature exactly when they have the same
/// source, target and kind.
pub proof fn lemma_signature_identifies(r1: Relationship, r2: Relationship)
    ensures
        rel_signature(r1) == rel_signature(r2) <==> rel_key(r1) == rel_key(r2),
{
    if rel_signature(r1) == rel_signature(r2) {
        lemma_signature_parts(r1);
        lemma_signature_parts(r2);
        lemma_relation_token_round_trip(r1.relationship_type);
        lemma_relation_token_round_trip(r2.relationship_type);
    }
}

/// Every relationship kind reads back from its own token.
pub proof fn lemma_relation_token_round_trip(k: RelationType)
    ensures
        relation_from_token(relation_token(k)) == Some(k),
{
    reveal_strlit("calls");
    reveal_strlit("imports");
    reveal_strlit("extends");
    reveal_strlit("implements");
    reveal_strlit("uses");
    reveal_strlit("defines");
    reveal_strlit("references");
    reveal_strlit("contains");
    match k {
        RelationType::Calls => {
        },
        RelationType::Imports => {
            assert("imports"@.len() != "calls"@.len());
        },
        RelationType::Extends => {
            assert("extends"@.len() != "calls"@.len());
            assert("extends"@[0] != "imports"@[0]);
        },
        RelationType::Implements => {
            assert("implements"@.len() != "calls"@.len());
            assert("implements"@.len() != "imports"@.len());
            assert("implements"@.len() != "extends"@.len());
        },
        RelationType::Uses => {
            assert("uses"@.len() != "calls"@.len());
            assert("uses"@.len() != "imports"@.len());
            assert("uses"@.len() != "extends"@.len());
            assert("uses"@.len() != "implements"@.len());
        },
        RelationType::Defines => {
            assert("defines"@.len() != "calls"@.len());
            assert("defines"@[0] != "imports"@[0]);
            assert("defines"@[0] != "extends"@[0]);
            assert("defines"@.len() != "implements"@.len());
            assert("defines"@.len() != "uses"@.len());
        },
        RelationType::References => {
            assert("references"@.len() != "calls"@.len());
            assert("references"@.len() != "imports"@.len());
            assert("references"@.len() != "extends"@.len());
            assert("references"@[0] != "implements"@[0]);
            assert("references"@.len() != "uses"@.len());
            assert("references"@.len() != "defines"@.len());
        },
        RelationType::Contains => {
            assert("contains"@.len() != "calls"@.len());
            assert("contains"@.len() != "imports"@.len());
            assert("contains"@.len() != "extends"@.len());
            assert("contains"@.len() != "implements"@.len());
            assert("contains"@.len() != "uses"@.len());
            assert("contains"@.len() != "defines"@.len());
            assert("contains"@.len() != "references"@.len());
        },
    }
}

/// An endpoint with its reserved characters escaped.
fn escaped(s: &str) -> (r: String)
    ensures
        r@ == escape_field(s@),
{
    let n = s.unicode_len();
    let mut r = String::new();
    let mut i: usize = 0;
    proof {
        reveal_strlit("\\");
        assert(s@.take(0) =~= Seq::<char>::empty());
    }
    while i < n
        invariant
            n == s@.len(),
            i <= n,
            r@ == escape_field(s@.take(i as int)),
        decreases n - i,
    {
        let c = s.get_char(i);
        proof {
            reveal_strlit("\\");
            lemma_escape_push(s@.take(i as int), c);
            assert(s@.take(i + 1) =~= s@.take(i as int).push(c));
        }
        if c == '\\' || c == '>' || c == ':' {
            r.append("\\");
        }
        let one = s.substring_char(i, i + 1);
        assert(one@ =~= seq![c]);
        r.append(one);
        i = i + 1;
    }
    assert(s@.take(n as int) =~= s@);
    r
}

impl Relationship {
    pub open spec fn wf(&self) -> bool {
        unique_keys(self.metadata@)
    }

    /// A fresh relationship with a new identifier, no metadata, and both
    /// timestamps set to the same current instant.
    pub fn new(from_entity: String, to_entity: String, relationship_type: RelationType) -> (r:
        Relationship)
        ensures
            r.wf(),
            r.from_entity == from_entity,
            r.to_entity == to_entity,
            r.relationship_type == relationship_type,
            r.metadata@.len() == 0,
            r.created_at == r.updated_at,
    {
        let t = now();
        Relationship {
            id: fresh_id(),
            from_entity,
            to_entity,
            relationship_type,
            metadata: Vec::new(),
            created_at: t,
            updated_at: t,
        }
    }

    /// Attaches `key -> value`, replacing an earlier value of `key`, and
    /// refreshes `updated_at`.
    pub fn with_metadata(self, key: String, value: String) -> (r: Relationship)
        requires
            self.wf(),
        ensures
            r.wf(),
            r == (Relationship { metadata: r.metadata, updated_at: r.updated_at, ..self }),
            r.metadata@ == with_pair(self.metadata@, key, value),
    {
        let mut r = self;
        set_pair(&mut r.metadata, key, value);
        r.updated_at = now();
        r
    }

    /// The text form `from->to:kind` of the deduplication key, endpoints
    /// escaped; it identifies the key.
    pub fn get_signature(&self) -> (r: String)
        ensures
            r@ == rel_signature(*self),
            forall|o: Relationship| #[trigger] rel_signature(o) == r@ <==> rel_key(o) == rel_key(*self),
    {
        proof {
            assert forall|o: Relationship| #[trigger] rel_signature(o) == rel_signature(*self) <==> rel_key(o)
                == rel_key(*self) by {
                lemma_signature_identifies(o, *self);
            }
        }
        let mut r = escaped(self.from_entity.as_str());
        r.append("->");
        let to = escaped(self.to_entity.as_str());
        r.append(to.as_str());
        r.append(":");
        r.append(self.relationship_type.as_str());
        r
    }

    /// Whether both relationships have the same endpoints and kind.
    pub fn same_key(&self, other: &Relationship) -> (r: bool)
        ensures
            r == (rel_key(*self) == rel_key(*other)),
    {
        self.from_entity == other.from_entity && self.to_entity == other.to_entity
            && self.relationship_type == other.relationship_type
    }
}

/// A conjunction of optional filters over relationships; an absent filter
/// matches anything.
#[derive(Debug, Clone)]
pub struct RelationshipQuery {
    pub from_entity: Option<String>,
    pub to_entity: Option<String>,
    pub relationship_type: Option<RelationType>,
}

/// Whether `r` passes every filter present in `q`.
pub open spec fn query_matches(q: RelationshipQuery, r: Relationship) -> bool {
    &&& (q.from_entity matches Some(f) ==> f@ == r.from_entity@)
    &&& (q.to_entity matches Some(t) ==> t@ == r.to_entity@)
    &&& (q.relationship_type matches Some(k) ==> k == r.relationship_type)
}

impl RelationshipQuery {
    /// The query with no filter.
    pub fn new() -> (r: RelationshipQuery)
        ensures
            r.from_entity is None,
            r.to_entity is None,
            r.relationship_type is None,
    {
        RelationshipQuery { from_entity: None, to_entity: None, relationship_type: None }
    }

    /// Restricts the query to relationships leaving `entity_id`.
    pub fn from_entity(self, entity_id: String) -> (r: RelationshipQuery)
        ensures
            r == (RelationshipQuery { from_entity: Some(entity_id), ..self }),
    {
        let mut q = self;
        q.from_entity = Some(entity_id);
        q
    }

    /// Restricts the query to relationships entering `entity_id`.
    pub fn to_entity(self, entity_id: String) -> (r: RelationshipQuery)
        ensures
            r == (RelationshipQuery { to_entity: Some(entity_id), ..self }),
    {
        let mut q = self;
        q.to_entity = Some(entity_id);
        q
    }

    /// Restricts the query to relationships of kind `rel_type`.
    pub fn relationship_type(self, rel_type: RelationType) -> (r: RelationshipQuery)
        ensures
            r == (RelationshipQuery { relationship_type: Some(rel_type), ..self }),
    {
        let mut q = self;
        q.relationship_type = Some(rel_type);
        q
    }

    /// Whether `relationship` passes every filter of the query.
    pub fn matches(&self, relationship: &Relationship) -> (r: bool)
        ensures
            r == query_matches(*self, *relationship),
    {
        match &self.from_entity {
            Some(from) => {
                if relationship.from_entity != *from {
                    return false;
                }
            },
            None => {},
        }
        match &self.to_entity {
            Some(to) => {
                if relationship.to_entity != *to {
                    return false;
                }
            },
            None => {},
        }
        match &self.relationship_type {
            Some(k) => {
                if relationship.relationship_type != *k {
                    return false;
                }
            },
            None => {},
        }
        true
    }
}

} // verus!
