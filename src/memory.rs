use vstd::prelude::*;

use crate::entities::CodeEntity;
use crate::pairs::{get_pair, has_key, lemma_with_pair, lookup, set_pair, unique_keys, with_pair};
use crate::relationships::{query_matches, rel_key, Relationship, RelationshipQuery};
use crate::text::{occurs_in, same_text, text_contains};

verus! {

/// Entry `i` of `s` has identifier `id`.
pub open spec fn id_at(s: Seq<CodeEntity>, id: Seq<char>, i: int) -> bool {
    0 <= i < s.len() && s[i].id@ == id
}

/// Some entity of `s` has identifier `id`.
pub open spec fn has_id(s: Seq<CodeEntity>, id: Seq<char>) -> bool {
    exists|i: int| id_at(s, id, i)
}

/// No two entities of `s` share an identifier.
pub open spec fn unique_ids(s: Seq<CodeEntity>) -> bool {
    forall|i: int, j: int|
        0 <= i < s.len() && 0 <= j < s.len() && #[trigger] s[i].id@ == #[trigger] s[j].id@ ==> i == j
}

/// No two relationships of `s` share endpoints and kind.
pub open spec fn unique_rel_keys(s: Seq<Relationship>) -> bool {
    forall|i: int, j: int|
        0 <= i < s.len() && 0 <= j < s.len() && #[trigger] rel_key(s[i]) == #[trigger] rel_key(s[j])
            ==> i == j
}

/// Some relationship of `s` has the key of `r`.
pub open spec fn has_rel_key(s: Seq<Relationship>, r: Relationship) -> bool {
    exists|i: int| 0 <= i < s.len() && rel_key(s[i]) == rel_key(r)
}

/// The entity of `s` with identifier `id`, if any.
pub open spec fn entity_with_id(s: Seq<CodeEntity>, id: Seq<char>) -> Option<CodeEntity> {
    if has_id(s, id) {
        Some(s[choose|i: int| id_at(s, id, i)])
    } else {
        None
    }
}

/// `s` with `e` stored under its identifier, replacing an entity with the
/// same identifier in place.
pub open spec fn upsert(s: Seq<CodeEntity>, e: CodeEntity) -> Seq<CodeEntity> {
    if has_id(s, e.id@) {
        s.update(choose|i: int| id_at(s, e.id@, i), e)
    } else {
        s.push(e)
    }
}

/// `s` with `r` appended, unless a relationship with its key is already there.
pub open spec fn with_relationship(s: Seq<Relationship>, r: Relationship) -> Seq<Relationship> {
    if has_rel_key(s, r) {
        s
    } else {
        s.push(r)
    }
}

/// The entities of `s` other than the one with identifier `id`.
pub open spec fn without_id(s: Seq<CodeEntity>, id: Seq<char>) -> Seq<CodeEntity> {
    s.filter(other_than(id))
}

/// Holds of the entities whose identifier is not `id`.
pub open spec fn other_than(id: Seq<char>) -> spec_fn(CodeEntity) -> bool {
    |e: CodeEntity| e.id@ != id
}

/// Holds of the relationships with neither end at `id`.
pub open spec fn away_from(id: Seq<char>) -> spec_fn(Relationship) -> bool {
    |r: Relationship| r.from_entity@ != id && r.to_entity@ != id
}

/// The relationships of `s` that touch neither end at `id`.
pub open spec fn detached(s: Seq<Relationship>, id: Seq<char>) -> Seq<Relationship> {
    s.filter(away_from(id))
}

/// The entities of `s` whose name contains `pattern`.
pub open spec fn named_like(s: Seq<CodeEntity>, pattern: Seq<char>) -> Seq<CodeEntity> {
    s.filter(name_has(pattern))
}

/// Holds of the entities whose name contains `pattern`.
pub open spec fn name_has(pattern: Seq<char>) -> spec_fn(CodeEntity) -> bool {
    |e: CodeEntity| occurs_in(pattern, e.name@)
}

/// Holds of the entities located in `path`.
pub open spec fn in_file(path: Seq<char>) -> spec_fn(CodeEntity) -> bool {
    |e: CodeEntity| e.file_path@ == path
}

/// The entities of `s` located in `path`.
pub open spec fn located_in(s: Seq<CodeEntity>, path: Seq<char>) -> Seq<CodeEntity> {
    s.filter(in_file(path))
}

/// The relationships of `s` that pass `q`.
pub open spec fn selected(s: Seq<Relationship>, q: RelationshipQuery) -> Seq<Relationship> {
    s.filter(|r: Relationship| query_matches(q, r))
}

/// The live targets of the relationships of `rels` leaving `id`, in order;
/// a target missing from `ents` is skipped.
pub open spec fn targets(rels: Seq<Relationship>, ents: Seq<CodeEntity>, id: Seq<char>) -> Seq<
    CodeEntity,
>
    decreases rels.len(),
{
    if rels.len() == 0 {
        Seq::empty()
    } else {
        let r = rels.last();
        let rest = targets(rels.drop_last(), ents, id);
        if r.from_entity@ == id && has_id(ents, r.to_entity@) {
            rest.push(entity_with_id(ents, r.to_entity@)->0)
        } else {
            rest
        }
    }
}

/// The live sources of the relationships of `rels` entering `id`, in order;
/// a source missing from `ents` is skipped.
pub open spec fn sources(rels: Seq<Relationship>, ents: Seq<CodeEntity>, id: Seq<char>) -> Seq<
    CodeEntity,
>
    decreases rels.len(),
{
    if rels.len() == 0 {
        Seq::empty()
    } else {
        let r = rels.last();
        let rest = sources(rels.drop_last(), ents, id);
        if r.to_entity@ == id && has_id(ents, r.from_entity@) {
            rest.push(entity_with_id(ents, r.from_entity@)->0)
        } else {
            rest
        }
    }
}

/// Whether a file with content hash `hash` counts as changed against the
/// stored hashes `s`: always for a path never hashed.
pub open spec fn file_changed(s: Seq<(String, String)>, path: Seq<char>, hash: Seq<char>) -> bool {
    lookup(s, path) != Some(hash)
}

/// `s` after storing each entity of `es` in turn.
pub open spec fn upsert_all(s: Seq<CodeEntity>, es: Seq<CodeEntity>) -> Seq<CodeEntity>
    decreases es.len(),
{
    if es.len() == 0 {
        s
    } else {
        upsert(upsert_all(s, es.drop_last()), es.last())
    }
}

/// `s` after inserting each relationship of `rs` in turn.
pub open spec fn link_all(s: Seq<Relationship>, rs: Seq<Relationship>) -> Seq<Relationship>
    decreases rs.len(),
{
    if rs.len() == 0 {
        s
    } else {
        with_relationship(link_all(s, rs.drop_last()), rs.last())
    }
}

/// `s` after mapping each pair of `ps` in turn.
pub open spec fn set_all(s: Seq<(String, String)>, ps: Seq<(String, String)>) -> Seq<(String, String)>
    decreases ps.len(),
{
    if ps.len() == 0 {
        s
    } else {
        let p = ps.last();
        with_pair(set_all(s, ps.drop_last()), p.0, p.1)
    }
}

/// The knowledge graph of one project: entities keyed by identifier,
/// relationships unique by key, and the content hash of each tracked file.
#[derive(Debug, Clone)]
pub struct ProjectMemory {
    pub entities: Vec<CodeEntity>,
    pub relationships: Vec<Relationship>,
    pub file_hashes: Vec<(String, String)>,
    pub project_path: String,
}

/// Counts over a graph.
#[derive(Debug, Clone)]
pub struct MemoryStats {
    pub entity_count: usize,
    pub relationship_count: usize,
    pub file_count: usize,
    pub project_path: String,
}

impl ProjectMemory {
    /// Identifiers, relationship keys and file paths are each unique.
    pub open spec fn wf(&self) -> bool {
        &&& unique_ids(self.entities@)
        &&& unique_rel_keys(self.relationships@)
        &&& unique_keys(self.file_hashes@)
    }

    /// An empty graph for the project at `project_path`.
    pub fn new(project_path: String) -> (r: ProjectMemory)
        ensures
            r.wf(),
            r.entities@.len() == 0,
            r.relationships@.len() == 0,
            r.file_hashes@.len() == 0,
            r.project_path == project_path,
    {
        ProjectMemory {
            entities: Vec::new(),
            relationships: Vec::new(),
            file_hashes: Vec::new(),
            project_path,
        }
    }

    /// The graph holding `entities`, `relationships` and `hashes`, inserted in
    /// order through the graph's own operations.
    pub fn from_parts(
        project_path: String,
        entities: Vec<CodeEntity>,
        relationships: Vec<Relationship>,
        hashes: Vec<(String, String)>,
    ) -> (r: ProjectMemory)
        ensures
            r.wf(),
            r.project_path == project_path,
            r.entities@ == upsert_all(Seq::empty(), entities@),
            r.relationships@ == link_all(Seq::empty(), relationships@),
            r.file_hashes@ == set_all(Seq::empty(), hashes@),
    {
        let mut m = ProjectMemory::new(project_path);
        let ghost es = entities@;
        let ghost rs = relationships@;
        let ghost hs = hashes@;
        let mut rev = reversed(entities);
        while rev.len() > 0
            invariant
                m.wf(),
                m.project_path == project_path,
                rev@.len() <= es.len(),
                forall|k: int| 0 <= k < rev@.len() ==> #[trigger] rev@[k] == es[es.len() - 1 - k],
                m.entities@ == upsert_all(Seq::empty(), es.take(es.len() - rev@.len())),
                m.relationships@.len() == 0,
                m.file_hashes@.len() == 0,
            decreases rev@.len(),
        {
            let ghost i = es.len() - rev@.len();
            let e = rev.pop().unwrap();
            proof {
                assert(es.take(i + 1).drop_last() =~= es.take(i));
                assert(es.take(i + 1).last() == es[i]);
            }
            m.add_entity(e);
        }
        assert(es.take(es.len() as int) =~= es);
        assert(m.relationships@ =~= Seq::<Relationship>::empty());
        assert(m.file_hashes@ =~= Seq::<(String, String)>::empty());
        let mut rev_links = reversed(relationships);
        while rev_links.len() > 0
            invariant
                m.wf(),
                m.project_path == project_path,
                rev_links@.len() <= rs.len(),
                forall|k: int| 0 <= k < rev_links@.len() ==> #[trigger] rev_links@[k] == rs[rs.len() - 1 - k],
                m.entities@ == upsert_all(Seq::empty(), es),
                m.relationships@ == link_all(Seq::empty(), rs.take(rs.len() - rev_links@.len())),
                m.file_hashes@ == Seq::<(String, String)>::empty(),
            decreases rev_links@.len(),
        {
            let ghost i = rs.len() - rev_links@.len();
            let x = rev_links.pop().unwrap();
            proof {
                assert(rs.take(i + 1).drop_last() =~= rs.take(i));
                assert(rs.take(i + 1).last() == rs[i]);
            }
            m.add_relationship(x);
        }
        assert(rs.take(rs.len() as int) =~= rs);
        let mut rev_hashes = reversed(hashes);
        while rev_hashes.len() > 0
            invariant
                m.wf(),
                m.project_path == project_path,
                rev_hashes@.len() <= hs.len(),
                forall|k: int| 0 <= k < rev_hashes@.len() ==> #[trigger] rev_hashes@[k] == hs[hs.len() - 1 - k],
                m.entities@ == upsert_all(Seq::empty(), es),
                m.relationships@ == link_all(Seq::empty(), rs),
                m.file_hashes@ == set_all(Seq::empty(), hs.take(hs.len() - rev_hashes@.len())),
            decreases rev_hashes@.len(),
        {
            let ghost i = hs.len() - rev_hashes@.len();
            let (path, hash) = rev_hashes.pop().unwrap();
            proof {
                assert(hs.take(i + 1).drop_last() =~= hs.take(i));
                assert(hs.take(i + 1).last() == hs[i]);
            }
            m.update_file_hash(path, hash);
        }
        assert(hs.take(hs.len() as int) =~= hs);
        m
    }

    /// The position of the entity with identifier `id`, if any.
    fn find_entity(&self, id: &str) -> (r: Option<usize>)
        ensures
            match r {
                Some(i) => id_at(self.entities@, id@, i as int),
                None => !has_id(self.entities@, id@),
            },
    {
        let mut i: usize = 0;
        while i < self.entities.len()
            invariant
                i <= self.entities@.len(),
                forall|j: int| 0 <= j < i ==> !id_at(self.entities@, id@, j),
            decreases self.entities@.len() - i,
        {
            if same_text(self.entities[i].id.as_str(), id) {
                return Some(i);
            }
            i = i + 1;
        }
        None
    }

    /// The entity with identifier `id`, if any.
    pub fn get_entity(&self, id: &str) -> (r: Option<&CodeEntity>)
        requires
            self.wf(),
        ensures
            match r {
                Some(e) => entity_with_id(self.entities@, id@) == Some(*e),
                None => entity_with_id(self.entities@, id@) is None,
            },
    {
        match self.find_entity(id) {
            Some(i) => {
                let ghost c = choose|j: int| id_at(self.entities@, id@, j);
                assert(c == i);
                Some(&self.entities[i])
            },
            None => None,
        }
    }

    /// Stores `entity` under its identifier, replacing any entity with the
    /// same identifier.
    pub fn add_entity(&mut self, entity: CodeEntity)
        requires
            old(self).wf(),
        ensures
            final(self).wf(),
            final(self).entities@ == upsert(old(self).entities@, entity),
            final(self).relationships == old(self).relationships,
            final(self).file_hashes == old(self).file_hashes,
            final(self).project_path == old(self).project_path,
    {
        let ghost s0 = self.entities@;
        match self.find_entity(entity.id.as_str()) {
            Some(i) => {
                let ghost c = choose|j: int| id_at(s0, entity.id@, j);
                assert(c == i);
                self.entities.set(i, entity);
                assert forall|a: int, b: int|
                    0 <= a < self.entities@.len() && 0 <= b < self.entities@.len()
                        && #[trigger] self.entities@[a].id@ == #[trigger] self.entities@[b].id@
                    implies a == b by {
                    assert(self.entities@[a].id@ == s0[a].id@);
                    assert(self.entities@[b].id@ == s0[b].id@);
                }
            },
            None => {
                self.entities.push(entity);
                assert forall|a: int, b: int|
                    0 <= a < self.entities@.len() && 0 <= b < self.entities@.len()
                        && #[trigger] self.entities@[a].id@ == #[trigger] self.entities@[b].id@
                    implies a == b by {
                    if a < s0.len() && b < s0.len() {
                        assert(self.entities@[a] == s0[a]);
                        assert(self.entities@[b] == s0[b]);
                    } else if a < s0.len() {
                        assert(id_at(s0, entity.id@, a));
                    } else if b < s0.len() {
                        assert(id_at(s0, entity.id@, b));
                    }
                }
            },
        }
    }
}

/// The entries of `v` in reverse order.
pub(crate) fn reversed<T>(v: Vec<T>) -> (r: Vec<T>)
    ensures
        r@.len() == v@.len(),
        forall|k: int| 0 <= k < r@.len() ==> #[trigger] r@[k] == v@[v@.len() - 1 - k],
{
    let ghost s = v@;
    let mut v = v;
    let mut r: Vec<T> = Vec::new();
    while v.len() > 0
        invariant
            v@ == s.take(v@.len() as int),
            v@.len() + r@.len() == s.len(),
            forall|k: int| 0 <= k < r@.len() ==> #[trigger] r@[k] == s[s.len() - 1 - k],
        decreases v@.len(),
    {
        let x = v.pop().unwrap();
        r.push(x);
        assert(v@ =~= s.take(v@.len() as int));
    }
    r
}

/// Each entry of a filtered sequence comes from a distinct, increasing position
/// of the original: the `k`-th kept entry is the entry at `filter_source`.
pub(crate) proof fn lemma_filter_index<A>(s: Seq<A>, p: spec_fn(A) -> bool, k: int)
    requires
        0 <= k < s.filter(p).len(),
    ensures
        0 <= filter_source(s, p, k) < s.len(),
        s[filter_source(s, p, k)] == s.filter(p)[k],
    decreases s.len(),
{
    reveal(Seq::filter);
    let sub = s.drop_last().filter(p);
    if k < sub.len() {
        lemma_filter_index(s.drop_last(), p, k);
    }
}

/// Distinct kept entries come from distinct positions.
proof fn lemma_filter_sources<A>(s: Seq<A>, p: spec_fn(A) -> bool, a: int, b: int)
    requires
        0 <= a < b < s.filter(p).len(),
    ensures
        filter_source(s, p, a) < filter_source(s, p, b),
    decreases s.len(),
{
    reveal(Seq::filter);
    let sub = s.drop_last().filter(p);
    if b < sub.len() {
        lemma_filter_sources(s.drop_last(), p, a, b);
    } else {
        lemma_filter_index(s.drop_last(), p, a);
    }
}

/// The position in `s` of the `k`-th entry kept by `p`.
pub(crate) open spec fn filter_source<A>(s: Seq<A>, p: spec_fn(A) -> bool, k: int) -> int
    decreases s.len(),
{
    if s.len() == 0 {
        0
    } else if k < s.drop_last().filter(p).len() {
        filter_source(s.drop_last(), p, k)
    } else {
        s.len() - 1
    }
}

impl ProjectMemory {
    /// Deletes the entity with identifier `entity_id` and every relationship
    /// that leaves or enters it.
    pub fn remove_entity(&mut self, entity_id: &str)
        requires
            old(self).wf(),
        ensures
            final(self).wf(),
            final(self).entities@ == without_id(old(self).entities@, entity_id@),
            final(self).relationships@ == detached(old(self).relationships@, entity_id@),
            forall|i: int|
                0 <= i < final(self).relationships@.len() ==> {
                    let r = #[trigger] final(self).relationships@[i];
                    r.from_entity@ != entity_id@ && r.to_entity@ != entity_id@
                },
            !has_id(final(self).entities@, entity_id@),
            final(self).file_hashes == old(self).file_hashes,
            final(self).project_path == old(self).project_path,
    {
        let ghost es = self.entities@;
        let ghost rs = self.relationships@;
        let ghost pe = other_than(entity_id@);
        let ghost pr = away_from(entity_id@);
        let mut old_entities: Vec<CodeEntity> = Vec::new();
        std::mem::swap(&mut old_entities, &mut self.entities);
        let mut rev = reversed(old_entities);
        let mut kept: Vec<CodeEntity> = Vec::new();
        while rev.len() > 0
            invariant
                rev@.len() <= es.len(),
                forall|k: int| 0 <= k < rev@.len() ==> #[trigger] rev@[k] == es[es.len() - 1 - k],
                kept@ == es.take(es.len() - rev@.len()).filter(other_than(entity_id@)),
            decreases rev@.len(),
        {
            let ghost i = es.len() - rev@.len();
            let e = rev.pop().unwrap();
            proof {
                reveal(Seq::filter);
                assert(es.take(i + 1).drop_last() =~= es.take(i));
                assert(e == es[i]);
                assert(es.take(i + 1).last() == es[i]);
                assert(other_than(entity_id@)(e) == (e.id@ != entity_id@));
            }
            if !same_text(e.id.as_str(), entity_id) {
                kept.push(e);
            }
        }
        assert(es.take(es.len() as int) =~= es);
        self.entities = kept;
        let mut old_links: Vec<Relationship> = Vec::new();
        std::mem::swap(&mut old_links, &mut self.relationships);
        let mut rev_links = reversed(old_links);
        let mut links: Vec<Relationship> = Vec::new();
        while rev_links.len() > 0
            invariant
                rev_links@.len() <= rs.len(),
                forall|k: int| 0 <= k < rev_links@.len() ==> #[trigger] rev_links@[k] == rs[rs.len() - 1 - k],
                links@ == rs.take(rs.len() - rev_links@.len()).filter(away_from(entity_id@)),
            decreases rev_links@.len(),
        {
            let ghost j = rs.len() - rev_links@.len();
            let r = rev_links.pop().unwrap();
            proof {
                reveal(Seq::filter);
                assert(rs.take(j + 1).drop_last() =~= rs.take(j));
                assert(r == rs[j]);
                assert(rs.take(j + 1).last() == rs[j]);
                assert(away_from(entity_id@)(r) == (r.from_entity@ != entity_id@ && r.to_entity@ != entity_id@));
            }
            if !same_text(r.from_entity.as_str(), entity_id) && !same_text(r.to_entity.as_str(), entity_id) {
                links.push(r);
            }
        }
        assert(rs.take(rs.len() as int) =~= rs);
        self.relationships = links;
        proof {
            broadcast use vstd::seq_lib::group_filter_ensures;

            let fe = self.entities@;
            let fr = self.relationships@;
            assert forall|a: int, b: int|
                0 <= a < fe.len() && 0 <= b < fe.len() && #[trigger] fe[a].id@ == #[trigger] fe[b].id@
                implies a == b by {
                lemma_filter_index(es, pe, a);
                lemma_filter_index(es, pe, b);
                if a < b {
                    lemma_filter_sources(es, pe, a, b);
                } else if b < a {
                    lemma_filter_sources(es, pe, b, a);
                }
            }
            assert forall|a: int, b: int|
                0 <= a < fr.len() && 0 <= b < fr.len() && #[trigger] rel_key(fr[a]) == #[trigger] rel_key(fr[b])
                implies a == b by {
                lemma_filter_index(rs, pr, a);
                lemma_filter_index(rs, pr, b);
                if a < b {
                    lemma_filter_sources(rs, pr, a, b);
                } else if b < a {
                    lemma_filter_sources(rs, pr, b, a);
                }
            }
            assert forall|i: int| 0 <= i < fr.len() implies {
                let r = #[trigger] fr[i];
                r.from_entity@ != entity_id@ && r.to_entity@ != entity_id@
            } by {
                assert(pr(fr[i]));
            }
            if has_id(fe, entity_id@) {
                let k = choose|k: int| id_at(fe, entity_id@, k);
                assert(pe(fe[k]));
            }
        }
    }
}

impl ProjectMemory {
    /// The entities whose name contains `pattern` (case-sensitive), in storage order.
    pub fn find_entities_by_name(&self, pattern: &str) -> (r: Vec<&CodeEntity>)
        ensures
            r@.map_values(|e: &CodeEntity| *e) == named_like(self.entities@, pattern@),
    {
        let ghost es = self.entities@;
        let mut out: Vec<&CodeEntity> = Vec::new();
        let mut i: usize = 0;
        while i < self.entities.len()
            invariant
                es == self.entities@,
                i <= es.len(),
                out@.map_values(|e: &CodeEntity| *e) == named_like(es.take(i as int), pattern@),
            decreases es.len() - i,
        {
            let e = &self.entities[i];
            let ghost before = out@;
            proof {
                reveal(Seq::filter);
                assert(es.take(i + 1).drop_last() =~= es.take(i as int));
                assert(es.take(i + 1).last() == es[i as int]);
            }
            if text_contains(e.name.as_str(), pattern) {
                out.push(e);
                assert(out@.map_values(|e: &CodeEntity| *e) =~= before.map_values(|e: &CodeEntity| *e).push(*e));
            }
            i = i + 1;
        }
        assert(es.take(es.len() as int) =~= es);
        out
    }

    /// The entities located in exactly `file_path`, in storage order.
    pub fn find_entities_in_file(&self, file_path: &str) -> (r: Vec<&CodeEntity>)
        ensures
            r@.map_values(|e: &CodeEntity| *e) == located_in(self.entities@, file_path@),
    {
        let ghost es = self.entities@;
        let mut out: Vec<&CodeEntity> = Vec::new();
        let mut i: usize = 0;
        while i < self.entities.len()
            invariant
                es == self.entities@,
                i <= es.len(),
                out@.map_values(|e: &CodeEntity| *e) == located_in(es.take(i as int), file_path@),
            decreases es.len() - i,
        {
            let e = &self.entities[i];
            let ghost before = out@;
            proof {
                reveal(Seq::filter);
                assert(es.take(i + 1).drop_last() =~= es.take(i as int));
                assert(es.take(i + 1).last() == es[i as int]);
            }
            if same_text(e.file_path.as_str(), file_path) {
                out.push(e);
                assert(out@.map_values(|e: &CodeEntity| *e) =~= before.map_values(|e: &CodeEntity| *e).push(*e));
            }
            i = i + 1;
        }
        assert(es.take(es.len() as int) =~= es);
        out
    }

    /// The relationships that pass `query`, in storage order.
    pub fn find_relationships(&self, query: &RelationshipQuery) -> (r: Vec<&Relationship>)
        ensures
            r@.map_values(|x: &Relationship| *x) == selected(self.relationships@, *query),
    {
        let ghost rs = self.relationships@;
        let mut out: Vec<&Relationship> = Vec::new();
        let mut i: usize = 0;
        while i < self.relationships.len()
            invariant
                rs == self.relationships@,
                i <= rs.len(),
                out@.map_values(|x: &Relationship| *x) == selected(rs.take(i as int), *query),
            decreases rs.len() - i,
        {
            let x = &self.relationships[i];
            let ghost before = out@;
            proof {
                reveal(Seq::filter);
                assert(rs.take(i + 1).drop_last() =~= rs.take(i as int));
                assert(rs.take(i + 1).last() == rs[i as int]);
            }
            if query.matches(x) {
                out.push(x);
                assert(out@.map_values(|x: &Relationship| *x) =~= before.map_values(|x: &Relationship| *x).push(*x));
            }
            i = i + 1;
        }
        assert(rs.take(rs.len() as int) =~= rs);
        out
    }
}

impl ProjectMemory {
    /// Inserts `relationship` unless one with the same endpoints and kind is
    /// already stored; the first insertion wins.
    pub fn add_relationship(&mut self, relationship: Relationship)
        requires
            old(self).wf(),
        ensures
            final(self).wf(),
            final(self).relationships@ == with_relationship(old(self).relationships@, relationship),
            final(self).entities == old(self).entities,
            final(self).file_hashes == old(self).file_hashes,
            final(self).project_path == old(self).project_path,
    {
        let ghost rs = self.relationships@;
        let mut i: usize = 0;
        while i < self.relationships.len()
            invariant
                self.wf(),
                rs == self.relationships@,
                i <= rs.len(),
                forall|j: int| 0 <= j < i ==> rel_key(#[trigger] rs[j]) != rel_key(relationship),
            decreases rs.len() - i,
        {
            if self.relationships[i].same_key(&relationship) {
                assert(has_rel_key(rs, relationship));
                return;
            }
            i = i + 1;
        }
        self.relationships.push(relationship);
        assert forall|a: int, b: int|
            0 <= a < self.relationships@.len() && 0 <= b < self.relationships@.len()
                && #[trigger] rel_key(self.relationships@[a]) == #[trigger] rel_key(self.relationships@[b])
            implies a == b by {
            if a < rs.len() {
                assert(self.relationships@[a] == rs[a]);
            }
            if b < rs.len() {
                assert(self.relationships@[b] == rs[b]);
            }
        }
    }

    /// The live entities that `entity_id` points to, one per outgoing relationship whose target exists.
    pub fn get_dependencies(&self, entity_id: &str) -> (r: Vec<&CodeEntity>)
        requires
            self.wf(),
        ensures
            r@.map_values(|e: &CodeEntity| *e) == targets(self.relationships@, self.entities@, entity_id@),
    {
        let ghost rs = self.relationships@;
        let ghost es = self.entities@;
        let mut out: Vec<&CodeEntity> = Vec::new();
        let mut i: usize = 0;
        while i < self.relationships.len()
            invariant
                self.wf(),
                rs == self.relationships@,
                es == self.entities@,
                i <= rs.len(),
                out@.map_values(|e: &CodeEntity| *e) == targets(rs.take(i as int), es, entity_id@),
            decreases rs.len() - i,
        {
            let rel = &self.relationships[i];
            let ghost before = out@;
            proof {
                assert(rs.take(i + 1).drop_last() =~= rs.take(i as int));
                assert(rs.take(i + 1).last() == rs[i as int]);
            }
            if same_text(rel.from_entity.as_str(), entity_id) {
                match self.get_entity(rel.to_entity.as_str()) {
                    Some(e) => {
                        out.push(e);
                        assert(out@.map_values(|e: &CodeEntity| *e) =~= before.map_values(
                            |e: &CodeEntity| *e,
                        ).push(*e));
                    },
                    None => {},
                }
            }
            i = i + 1;
        }
        assert(rs.take(rs.len() as int) =~= rs);
        out
    }

    /// The live entities that point to `entity_id`, one per incoming relationship whose source exists.
    pub fn get_dependents(&self, entity_id: &str) -> (r: Vec<&CodeEntity>)
        requires
            self.wf(),
        ensures
            r@.map_values(|e: &CodeEntity| *e) == sources(self.relationships@, self.entities@, entity_id@),
    {
        let ghost rs = self.relationships@;
        let ghost es = self.entities@;
        let mut out: Vec<&CodeEntity> = Vec::new();
        let mut i: usize = 0;
        while i < self.relationships.len()
            invariant
                self.wf(),
                rs == self.relationships@,
                es == self.entities@,
                i <= rs.len(),
                out@.map_values(|e: &CodeEntity| *e) == sources(rs.take(i as int), es, entity_id@),
            decreases rs.len() - i,
        {
            let rel = &self.relationships[i];
            let ghost before = out@;
            proof {
                assert(rs.take(i + 1).drop_last() =~= rs.take(i as int));
                assert(rs.take(i + 1).last() == rs[i as int]);
            }
            if same_text(rel.to_entity.as_str(), entity_id) {
                match self.get_entity(rel.from_entity.as_str()) {
                    Some(e) => {
                        out.push(e);
                        assert(out@.map_values(|e: &CodeEntity| *e) =~= before.map_values(
                            |e: &CodeEntity| *e,
                        ).push(*e));
                    },
                    None => {},
                }
            }
            i = i + 1;
        }
        assert(rs.take(rs.len() as int) =~= rs);
        out
    }

    /// Records `hash` as the content hash of `file_path`.
    pub fn update_file_hash(&mut self, file_path: String, hash: String)
        requires
            old(self).wf(),
        ensures
            final(self).wf(),
            final(self).file_hashes@ == with_pair(old(self).file_hashes@, file_path, hash),
            lookup(final(self).file_hashes@, file_path@) == Some(hash@),
            final(self).entities == old(self).entities,
            final(self).relationships == old(self).relationships,
            final(self).project_path == old(self).project_path,
    {
        set_pair(&mut self.file_hashes, file_path, hash);
    }

    /// Whether `file_path` must be analysed again: always for a path never
    /// hashed, otherwise exactly when `current_hash` differs from the stored
    /// hash.
    pub fn has_file_changed(&self, file_path: &str, current_hash: &str) -> (r: bool)
        requires
            self.wf(),
        ensures
            r == file_changed(self.file_hashes@, file_path@, current_hash@),
            !has_key(self.file_hashes@, file_path@) ==> r,
    {
        match get_pair(&self.file_hashes, file_path) {
            Some(stored) => !same_text(stored.as_str(), current_hash),
            None => true,
        }
    }

    /// The number of entities, relationships and hashed files, and the
    /// project path.
    pub fn get_stats(&self) -> (r: MemoryStats)
        ensures
            r.entity_count == self.entities@.len(),
            r.relationship_count == self.relationships@.len(),
            r.file_count == self.file_hashes@.len(),
            r.project_path == self.project_path,
    {
        MemoryStats {
            entity_count: self.entities.len(),
            relationship_count: self.relationships.len(),
            file_count: self.file_hashes.len(),
            project_path: self.project_path.clone(),
        }
    }

    /// Empties all three collections; the project path stays.
    pub fn clear(&mut self)
        ensures
            final(self).wf(),
            final(self).entities@.len() == 0,
            final(self).relationships@.len() == 0,
            final(self).file_hashes@.len() == 0,
            final(self).project_path == old(self).project_path,
    {
        self.entities.clear();
        self.relationships.clear();
        self.file_hashes.clear();
    }
}

/// Inserting a relationship keeps relationship keys unique and leaves one
/// relationship with its key stored.
pub proof fn lemma_with_relationship(s: Seq<Relationship>, r: Relationship)
    requires
        unique_rel_keys(s),
    ensures
        unique_rel_keys(with_relationship(s, r)),
        has_rel_key(with_relationship(s, r), r),
{
    let t = with_relationship(s, r);
    if !has_rel_key(s, r) {
        assert(rel_key(t[s.len() as int]) == rel_key(r));
        assert forall|a: int, b: int|
            0 <= a < t.len() && 0 <= b < t.len() && #[trigger] rel_key(t[a]) == #[trigger] rel_key(t[b])
            implies a == b by {
            if a < s.len() {
                assert(t[a] == s[a]);
            }
            if b < s.len() {
                assert(t[b] == s[b]);
            }
        }
    }
}

/// Inserting two relationships with the same endpoints and kind into a graph
/// leaves exactly one stored relationship with that key.
pub proof fn lemma_dedup(s: Seq<Relationship>, r1: Relationship, r2: Relationship)
    requires
        unique_rel_keys(s),
        rel_key(r1) == rel_key(r2),
    ensures
        ({
            let t = with_relationship(with_relationship(s, r1), r2);
            exists|i: int|
                0 <= i < t.len() && rel_key(t[i]) == rel_key(r1) && forall|j: int|
                    0 <= j < t.len() && #[trigger] rel_key(t[j]) == rel_key(r1) ==> j == i
        }),
{
    lemma_with_relationship(s, r1);
    let t1 = with_relationship(s, r1);
    lemma_with_relationship(t1, r2);
    let t = with_relationship(t1, r2);
    assert(t == t1);
    let i = choose|i: int| 0 <= i < t1.len() && rel_key(t1[i]) == rel_key(r1);
    assert forall|j: int| 0 <= j < t.len() && #[trigger] rel_key(t[j]) == rel_key(r1) implies j == i by {
        assert(rel_key(t[j]) == rel_key(t[i]));
    }
}

/// A path never hashed always counts as changed; once a hash `h` is recorded
/// for a path, the path counts as changed against a hash `q` exactly when `q`
/// differs from `h`.
pub proof fn lemma_change_detection(s: Seq<(String, String)>, path: String, h: String, q: Seq<char>)
    requires
        unique_keys(s),
    ensures
        !has_key(s, path@) ==> file_changed(s, path@, q),
        file_changed(with_pair(s, path, h), path@, q) <==> q != h@,
{
    lemma_with_pair(s, path, h);
}

} // verus!
