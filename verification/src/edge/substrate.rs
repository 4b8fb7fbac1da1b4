//! The semantic substrate: a registry of typed entities, and the hash chain
//! of receipts through which every entity enters it.
use vstd::prelude::*;
use crate::digest::{sha256_hex, sha256_hex_spec};
use crate::json_text::{json_field, json_literal, push_json_field_str, push_json_str, push_mark};
use crate::edge::capabilities::str_field;
use crate::text::{decimal, owned, push_char, push_decimal, push_str, text_with};

verus! {

/// The closed set of concept types.
#[derive(Clone, Copy, Debug, PartialEq, Eq, Hash, Structural)]
pub enum ConceptType {
    Person,
    Project,
    Metric,
    EdgeNode,
    Invariant,
    Capability,
    StateGeneration,
    ExternalMirror,
}

pub open spec fn concept_name(c: ConceptType) -> Seq<char> {
    match c {
        ConceptType::Person => "Person"@,
        ConceptType::Project => "Project"@,
        ConceptType::Metric => "Metric"@,
        ConceptType::EdgeNode => "EdgeNode"@,
        ConceptType::Invariant => "Invariant"@,
        ConceptType::Capability => "Capability"@,
        ConceptType::StateGeneration => "StateGeneration"@,
        ConceptType::ExternalMirror => "ExternalMirror"@,
    }
}

impl ConceptType {
    /// The type's name.
    pub fn name(&self) -> (r: &'static str)
        ensures
            r@ == concept_name(*self),
    {
        match self {
            ConceptType::Person => "Person",
            ConceptType::Project => "Project",
            ConceptType::Metric => "Metric",
            ConceptType::EdgeNode => "EdgeNode",
            ConceptType::Invariant => "Invariant",
            ConceptType::Capability => "Capability",
            ConceptType::StateGeneration => "StateGeneration",
            ConceptType::ExternalMirror => "ExternalMirror",
        }
    }

    /// The type's name, as its `Display` writes it.
    pub fn to_string(&self) -> (r: String)
        ensures
            r@ == concept_name(*self),
    {
        owned(self.name())
    }
}

/// A typed, directed edge to another entity.
#[derive(Debug)]
pub struct Relation {
    pub predicate: String,
    pub target_id: String,
}

pub struct RelationView {
    pub predicate: Seq<char>,
    pub target_id: Seq<char>,
}

impl View for Relation {
    type V = RelationView;

    open spec fn view(&self) -> RelationView {
        RelationView { predicate: self.predicate@, target_id: self.target_id@ }
    }
}

impl Clone for Relation {
    fn clone(&self) -> (r: Self)
        ensures
            r@ == self@,
    {
        Relation { predicate: self.predicate.clone(), target_id: self.target_id.clone() }
    }
}

pub open spec fn pair_views(p: Seq<(String, String)>) -> Seq<(Seq<char>, Seq<char>)> {
    p.map_values(|kv: (String, String)| (kv.0@, kv.1@))
}

/// An entity: its identifier, its type, its properties (keys once each) and
/// its relations.
#[derive(Debug)]
pub struct Entity {
    pub id: String,
    pub concept: ConceptType,
    pub properties: Vec<(String, String)>,
    pub relations: Vec<Relation>,
}

pub struct EntityView {
    pub id: Seq<char>,
    pub concept: ConceptType,
    pub properties: Seq<(Seq<char>, Seq<char>)>,
    pub relations: Seq<RelationView>,
}

impl View for Entity {
    type V = EntityView;

    open spec fn view(&self) -> EntityView {
        EntityView {
            id: self.id@,
            concept: self.concept,
            properties: pair_views(self.properties@),
            relations: self.relations@.map_values(|r: Relation| r@),
        }
    }
}

pub fn clone_pairs(p: &Vec<(String, String)>) -> (r: Vec<(String, String)>)
    ensures
        pair_views(r@) == pair_views(p@),
{
    let mut r: Vec<(String, String)> = Vec::new();
    let mut i: usize = 0;
    while i < p.len()
        invariant
            i <= p@.len(),
            r@.len() == i,
            forall|k: int| 0 <= k < i ==> (#[trigger] r@[k]).0@ == p@[k].0@ && r@[k].1@ == p@[k].1@,
        decreases p.len() - i,
    {
        let kv = (p[i].0.clone(), p[i].1.clone());
        r.push(kv);
        i = i + 1;
    }
    assert(pair_views(r@) =~= pair_views(p@));
    r
}

impl Clone for Entity {
    fn clone(&self) -> (r: Self)
        ensures
            r@ == self@,
    {
        let mut rels: Vec<Relation> = Vec::new();
        let mut i: usize = 0;
        while i < self.relations.len()
            invariant
                i <= self.relations@.len(),
                rels@.len() == i,
                forall|k: int| 0 <= k < i ==> (#[trigger] rels@[k])@ == self.relations@[k]@,
            decreases self.relations.len() - i,
        {
            rels.push(self.relations[i].clone());
            i = i + 1;
        }
        assert(rels@.map_values(|r: Relation| r@) =~= self.relations@.map_values(|r: Relation| r@));
        Entity {
            id: self.id.clone(),
            concept: self.concept,
            properties: clone_pairs(&self.properties),
            relations: rels,
        }
    }
}

/// `"k":"v"` pairs separated by commas.
pub open spec fn props_json(p: Seq<(Seq<char>, Seq<char>)>) -> Seq<char>
    decreases p.len(),
{
    if p.len() == 0 {
        seq![]
    } else {
        let last = json_literal(p.last().0) + seq![':'] + json_literal(p.last().1);
        if p.len() == 1 {
            last
        } else {
            props_json(p.drop_last()) + seq![','] + last
        }
    }
}

pub open spec fn relation_json(r: RelationView) -> Seq<char> {
    seq!['{'] + str_field("predicate"@, r.predicate) + seq![','] + str_field("target_id"@, r.target_id) + seq!['}']
}

/// Relations separated by commas.
pub open spec fn relations_json(r: Seq<RelationView>) -> Seq<char>
    decreases r.len(),
{
    if r.len() == 0 {
        seq![]
    } else if r.len() == 1 {
        relation_json(r[0])
    } else {
        relations_json(r.drop_last()) + seq![','] + relation_json(r.last())
    }
}

/// An entity as `serde_json::to_string` writes it, its properties in the
/// order they are held.
pub open spec fn entity_json(e: EntityView) -> Seq<char> {
    seq!['{'] + str_field("id"@, e.id) + seq![','] + str_field("concept"@, concept_name(e.concept)) + seq![','] + json_field(
        "properties"@,
        seq!['{'] + props_json(e.properties) + seq!['}'],
    ) + seq![','] + json_field("relations"@, seq!['['] + relations_json(e.relations) + seq![']']) + seq!['}']
}

impl Entity {
    /// The entity's JSON text.
    pub fn to_json(&self) -> (t: String)
        ensures
            t@ == entity_json(self@),
    {
        let mut out = String::new();
        push_mark(&mut out, '{');
        push_json_field_str(&mut out, "id", self.id.as_str());
        push_mark(&mut out, ',');
        push_json_field_str(&mut out, "concept", self.concept.name());
        push_mark(&mut out, ',');
        push_json_str(&mut out, "properties");
        push_mark(&mut out, ':');
        push_mark(&mut out, '{');
        let ghost head = out@;
        let ghost pv = self@.properties;
        let mut i: usize = 0;
        while i < self.properties.len()
            invariant
                pv == pair_views(self.properties@),
                i <= self.properties@.len(),
                out@ == head + props_json(pv.take(i as int)),
            decreases self.properties.len() - i,
        {
            let ghost part = pv.take(i + 1);
            assert(part.drop_last() =~= pv.take(i as int));
            if i > 0 {
                push_mark(&mut out, ',');
            }
            push_json_str(&mut out, self.properties[i].0.as_str());
            push_mark(&mut out, ':');
            push_json_str(&mut out, self.properties[i].1.as_str());
            assert(out@ =~= head + props_json(part));
            i = i + 1;
        }
        assert(pv.take(i as int) =~= pv);
        push_mark(&mut out, '}');
        push_mark(&mut out, ',');
        push_json_str(&mut out, "relations");
        push_mark(&mut out, ':');
        push_mark(&mut out, '[');
        let ghost head2 = out@;
        let ghost rv = self@.relations;
        let mut j: usize = 0;
        while j < self.relations.len()
            invariant
                rv == self.relations@.map_values(|r: Relation| r@),
                j <= self.relations@.len(),
                out@ == head2 + relations_json(rv.take(j as int)),
            decreases self.relations.len() - j,
        {
            let ghost part = rv.take(j + 1);
            assert(part.drop_last() =~= rv.take(j as int));
            if j > 0 {
                push_mark(&mut out, ',');
            }
            let r = &self.relations[j];
            push_mark(&mut out, '{');
            push_json_field_str(&mut out, "predicate", r.predicate.as_str());
            push_mark(&mut out, ',');
            push_json_field_str(&mut out, "target_id", r.target_id.as_str());
            push_mark(&mut out, '}');
            assert(out@ =~= head2 + relations_json(part));
            j = j + 1;
        }
        assert(rv.take(j as int) =~= rv);
        push_mark(&mut out, ']');
        push_mark(&mut out, '}');
        assert(out@ =~= entity_json(self@));
        out
    }
}

/// The receipt of one commit.
#[derive(Debug)]
pub struct ProvenanceReceipt {
    pub entity_id: String,
    pub timestamp: u64,
    pub operator_signature: String,
    pub transformation_hash: String,
    pub previous_hash: String,
    pub generation: u64,
}

pub struct ReceiptView {
    pub entity_id: Seq<char>,
    pub timestamp: u64,
    pub operator_signature: Seq<char>,
    pub transformation_hash: Seq<char>,
    pub previous_hash: Seq<char>,
    pub generation: u64,
}

impl View for ProvenanceReceipt {
    type V = ReceiptView;

    open spec fn view(&self) -> ReceiptView {
        ReceiptView {
            entity_id: self.entity_id@,
            timestamp: self.timestamp,
            operator_signature: self.operator_signature@,
            transformation_hash: self.transformation_hash@,
            previous_hash: self.previous_hash@,
            generation: self.generation,
        }
    }
}

impl Clone for ProvenanceReceipt {
    fn clone(&self) -> (r: Self)
        ensures
            r@ == self@,
    {
        ProvenanceReceipt {
            entity_id: self.entity_id.clone(),
            timestamp: self.timestamp,
            operator_signature: self.operator_signature.clone(),
            transformation_hash: self.transformation_hash.clone(),
            previous_hash: self.previous_hash.clone(),
            generation: self.generation,
        }
    }
}

/// The registry, the receipts in commit order, and the generation.
pub struct SemanticSubstrate {
    pub registry: Vec<Entity>,
    pub lineage: Vec<ProvenanceReceipt>,
    pub generation: u64,
}

pub struct SubstrateView {
    pub registry: Seq<EntityView>,
    pub lineage: Seq<ReceiptView>,
    pub generation: u64,
}

impl View for SemanticSubstrate {
    type V = SubstrateView;

    open spec fn view(&self) -> SubstrateView {
        SubstrateView {
            registry: self.registry@.map_values(|e: Entity| e@),
            lineage: self.lineage@.map_values(|r: ProvenanceReceipt| r@),
            generation: self.generation,
        }
    }
}

/// Where the first entity with identifier `id` stands.
pub open spec fn first_index(reg: Seq<EntityView>, id: Seq<char>) -> Option<int>
    decreases reg.len(),
{
    if reg.len() == 0 {
        None
    } else if reg[0].id == id {
        Some(0)
    } else {
        match first_index(reg.drop_first(), id) {
            Some(k) => Some(k + 1),
            None => None,
        }
    }
}

/// The entity registered under `id`.
pub open spec fn lookup(reg: Seq<EntityView>, id: Seq<char>) -> Option<EntityView> {
    match first_index(reg, id) {
        Some(k) => Some(reg[k]),
        None => None,
    }
}

/// The registry once `e` is registered: it takes the place of the entity
/// with its identifier, or joins at the end.
pub open spec fn register(reg: Seq<EntityView>, e: EntityView) -> Seq<EntityView> {
    match first_index(reg, e.id) {
        Some(k) => reg.update(k, e),
        None => reg.push(e),
    }
}

/// The hash of the last receipt, or `dflt` before the first.
pub open spec fn chain_head_or(lineage: Seq<ReceiptView>, dflt: Seq<char>) -> Seq<char> {
    if lineage.len() == 0 { dflt } else { lineage.last().transformation_hash }
}

/// What a commit hashes: `{id}|{timestamp}|{previous_hash}|{entity_json}`.
pub open spec fn hash_input(id: Seq<char>, ts: u64, prev: Seq<char>, json: Seq<char>) -> Seq<char> {
    id + seq!['|'] + decimal(ts as nat) + seq!['|'] + prev + seq!['|'] + json
}

/// The receipt that committing `e` by `op` at `ts` yields.
pub open spec fn receipt_for(s: SubstrateView, e: EntityView, op: Seq<char>, ts: u64) -> ReceiptView {
    let prev = chain_head_or(s.lineage, "GENESIS"@);
    ReceiptView {
        entity_id: e.id,
        timestamp: ts,
        operator_signature: op,
        transformation_hash: sha256_hex_spec(hash_input(e.id, ts, prev, entity_json(e))),
        previous_hash: prev,
        generation: (s.generation + 1) as u64,
    }
}

/// The substrate after committing `e` by `op` at `ts`.
pub open spec fn commit_spec(s: SubstrateView, e: EntityView, op: Seq<char>, ts: u64) -> SubstrateView {
    SubstrateView {
        registry: register(s.registry, e),
        lineage: s.lineage.push(receipt_for(s, e, op, ts)),
        generation: (s.generation + 1) as u64,
    }
}

/// Each receipt names the hash of the one before it.
pub open spec fn chain_linked(l: Seq<ReceiptView>) -> bool {
    forall|i: int| 1 <= i < l.len() ==> #[trigger] l[i].previous_hash == l[i - 1].transformation_hash
}

/// The entities of type `c`, in registry order.
pub open spec fn of_concept(reg: Seq<EntityView>, c: ConceptType) -> Seq<EntityView>
    decreases reg.len(),
{
    if reg.len() == 0 {
        seq![]
    } else if reg.last().concept == c {
        of_concept(reg.drop_last(), c).push(reg.last())
    } else {
        of_concept(reg.drop_last(), c)
    }
}

/// The message of a broken link at `i`.
pub open spec fn broken_link_message(i: int, expected: Seq<char>, got: Seq<char>) -> Seq<char> {
    "Chain broken at index "@ + decimal(i as nat) + ": expected previous_hash="@ + expected + ", got="@ + got
}

proof fn lemma_first_index_skip(reg: Seq<EntityView>, id: Seq<char>, i: int)
    requires
        0 <= i <= reg.len(),
        forall|k: int| 0 <= k < i ==> (#[trigger] reg[k]).id != id,
    ensures
        first_index(reg, id) == match first_index(reg.skip(i), id) {
            Some(k) => Some(k + i),
            None => None::<int>,
        },
    decreases i,
{
    if i > 0 {
        assert(reg.skip(1).skip(i - 1) =~= reg.skip(i));
        assert(reg.skip(1) =~= reg.drop_first());
        lemma_first_index_skip(reg.drop_first(), id, i - 1);
    } else {
        assert(reg.skip(0) =~= reg);
    }
}

proof fn lemma_first_index_bounds(reg: Seq<EntityView>, id: Seq<char>)
    ensures
        first_index(reg, id) matches Some(k) ==> 0 <= k < reg.len() && reg[k].id == id && forall|j: int|
            0 <= j < k ==> (#[trigger] reg[j]).id != id,
    decreases reg.len(),
{
    if reg.len() > 0 && reg[0].id != id {
        lemma_first_index_bounds(reg.drop_first(), id);
        if let Some(k) = first_index(reg.drop_first(), id) {
            assert forall|j: int| 0 <= j < k + 1 implies (#[trigger] reg[j]).id != id by {
                if j > 0 {
                    assert(reg[j] == reg.drop_first()[j - 1]);
                }
            }
        }
    }
}

proof fn lemma_first_index_push(reg: Seq<EntityView>, e: EntityView, id: Seq<char>)
    ensures
        first_index(reg.push(e), id) == match first_index(reg, id) {
            Some(k) => Some(k),
            None => if e.id == id { Some(reg.len() as int) } else { None::<int> },
        },
    decreases reg.len(),
{
    if reg.len() == 0 {
        assert(reg.push(e).drop_first() =~= Seq::<EntityView>::empty());
    } else {
        assert(reg.push(e).drop_first() =~= reg.drop_first().push(e));
        lemma_first_index_push(reg.drop_first(), e, id);
    }
}

proof fn lemma_first_index_update(reg: Seq<EntityView>, k: int, e: EntityView, id: Seq<char>)
    requires
        first_index(reg, e.id) == Some(k),
    ensures
        first_index(reg.update(k, e), id) == if id == e.id { Some(k) } else { first_index(reg, id) },
    decreases reg.len(),
{
    lemma_first_index_bounds(reg, e.id);
    if k == 0 {
        assert(reg.update(0, e).drop_first() =~= reg.drop_first());
    } else {
        assert(reg.update(k, e).drop_first() =~= reg.drop_first().update(k - 1, e));
        lemma_first_index_update(reg.drop_first(), k - 1, e, id);
    }
}

/// Registering `e` makes it what its identifier finds, and leaves what
/// every other identifier finds as it was.
pub proof fn lemma_register_lookup(reg: Seq<EntityView>, e: EntityView, id: Seq<char>)
    ensures
        lookup(register(reg, e), id) == if id == e.id { Some(e) } else { lookup(reg, id) },
{
    lemma_first_index_bounds(reg, e.id);
    lemma_first_index_bounds(reg, id);
    match first_index(reg, e.id) {
        Some(k) => {
            lemma_first_index_update(reg, k, e, id);
        },
        None => {
            lemma_first_index_push(reg, e, id);
            lemma_first_index_bounds(reg.push(e), id);
        },
    }
}

impl SemanticSubstrate {
    /// An empty substrate at generation zero.
    pub fn new() -> (s: SemanticSubstrate)
        ensures
            s@.registry == Seq::<EntityView>::empty(),
            s@.lineage == Seq::<ReceiptView>::empty(),
            s@.generation == 0,
    {
        let s = SemanticSubstrate { registry: Vec::new(), lineage: Vec::new(), generation: 0 };
        assert(s@.registry =~= Seq::<EntityView>::empty());
        assert(s@.lineage =~= Seq::<ReceiptView>::empty());
        s
    }

    fn find(&self, id: &String) -> (r: Option<usize>)
        ensures
            match r {
                Some(k) => first_index(self@.registry, id@) == Some(k as int) && k < self@.registry.len(),
                None => first_index(self@.registry, id@) is None,
            },
    {
        let ghost reg = self@.registry;
        let mut i: usize = 0;
        while i < self.registry.len()
            invariant
                reg == self@.registry,
                reg.len() == self.registry@.len(),
                i <= reg.len(),
                forall|k: int| 0 <= k < i ==> (#[trigger] reg[k]).id != id@,
            decreases self.registry.len() - i,
        {
            assert(reg[i as int].id == self.registry@[i as int].id@);
            if self.registry[i].id == *id {
                proof {
                    lemma_first_index_skip(reg, id@, i as int);
                    assert(reg.skip(i as int)[0] == reg[i as int]);
                    lemma_first_index_bounds(reg, id@);
                }
                return Some(i);
            }
            i = i + 1;
        }
        proof {
            lemma_first_index_skip(reg, id@, i as int);
            assert(reg.skip(i as int) =~= Seq::<EntityView>::empty());
        }
        None
    }

    /// Commits `entity` as signed by `operator` at `timestamp` (seconds since
    /// the epoch): the receipt names the hash of the receipt before it
    /// ("GENESIS" for the first) and the SHA-256 of the commit's hash input;
    /// the entity takes the place of any with its identifier.
    pub fn commit_entity_at(&mut self, entity: Entity, operator: &str, timestamp: u64) -> (r: ProvenanceReceipt)
        requires
            old(self).generation < u64::MAX,
        ensures
            r@ == receipt_for(old(self)@, entity@, operator@, timestamp),
            final(self)@ == commit_spec(old(self)@, entity@, operator@, timestamp),
    {
        let previous_hash = if self.lineage.len() == 0 {
            owned("GENESIS")
        } else {
            self.lineage[self.lineage.len() - 1].transformation_hash.clone()
        };
        let entity_json = entity.to_json();
        let mut input = entity.id.clone();
        push_char(&mut input, '|');
        push_decimal(&mut input, timestamp);
        push_char(&mut input, '|');
        push_str(&mut input, previous_hash.as_str());
        push_char(&mut input, '|');
        push_str(&mut input, entity_json.as_str());
        assert(input@ =~= hash_input(entity@.id, timestamp, previous_hash@, entity_json@));
        let transformation_hash = sha256_hex(input.as_str());
        self.generation = self.generation + 1;
        let receipt = ProvenanceReceipt {
            entity_id: entity.id.clone(),
            timestamp,
            operator_signature: owned(operator),
            transformation_hash,
            previous_hash,
            generation: self.generation,
        };
        let ghost ev = entity@;
        let ghost reg = self@.registry;
        match self.find(&entity.id) {
            Some(k) => {
                self.registry.set(k, entity);
                assert(self@.registry =~= reg.update(k as int, ev));
            },
            None => {
                self.registry.push(entity);
                assert(self@.registry =~= reg.push(ev));
            },
        }
        self.lineage.push(receipt.clone());
        assert(self@.lineage =~= old(self)@.lineage.push(receipt@));
        receipt
    }

    /// The entities of type `concept`, in registry order.
    pub fn query_by_type(&self, concept: &ConceptType) -> (r: Vec<&Entity>)
        ensures
            r@.map_values(|e: &Entity| e@) == of_concept(self@.registry, *concept),
    {
        let ghost reg = self@.registry;
        let mut r: Vec<&Entity> = Vec::new();
        let mut i: usize = 0;
        while i < self.registry.len()
            invariant
                reg == self@.registry,
                reg.len() == self.registry@.len(),
                i <= reg.len(),
                r@.map_values(|e: &Entity| e@) == of_concept(reg.take(i as int), *concept),
            decreases self.registry.len() - i,
        {
            let ghost part = reg.take(i + 1);
            assert(part.drop_last() =~= reg.take(i as int));
            assert(part.last() == self.registry@[i as int]@);
            let e = &self.registry[i];
            if e.concept == *concept {
                r.push(e);
            }
            assert(r@.map_values(|e: &Entity| e@) =~= of_concept(part, *concept));
            i = i + 1;
        }
        assert(reg.take(i as int) =~= reg);
        r
    }

    /// The entity registered under `id`.
    pub fn get(&self, id: &str) -> (r: Option<&Entity>)
        ensures
            match r {
                Some(e) => lookup(self@.registry, id@) == Some(e@),
                None => lookup(self@.registry, id@) is None,
            },
    {
        let key = owned(id);
        match self.find(&key) {
            Some(k) => Some(&self.registry[k]),
            None => None,
        }
    }

    /// The first receipt, from the second on, that does not name the hash
    /// of the receipt before it.
    pub fn verify_chain_integrity(&self) -> (r: Result<(), (usize, String)>)
        ensures
            match r {
                Ok(()) => chain_linked(self@.lineage),
                Err((i, m)) => {
                    let l = self@.lineage;
                    &&& 1 <= i < l.len()
                    &&& l[i as int].previous_hash != l[i - 1].transformation_hash
                    &&& forall|j: int| 1 <= j < i ==> #[trigger] l[j].previous_hash == l[j - 1].transformation_hash
                    &&& m@ == broken_link_message(i as int, l[i - 1].transformation_hash, l[i as int].previous_hash)
                },
            },
    {
        let ghost l = self@.lineage;
        let mut i: usize = 1;
        while i < self.lineage.len()
            invariant
                l == self@.lineage,
                l.len() == self.lineage@.len(),
                1 <= i,
                forall|j: int| 1 <= j < i && j < l.len() ==> #[trigger] l[j].previous_hash == l[j - 1].transformation_hash,
            decreases self.lineage.len() - i,
        {
            let expected_prev = &self.lineage[i - 1].transformation_hash;
            let actual_prev = &self.lineage[i].previous_hash;
            if *expected_prev != *actual_prev {
                let mut m = owned("Chain broken at index ");
                push_decimal(&mut m, i as u64);
                push_str(&mut m, ": expected previous_hash=");
                push_str(&mut m, expected_prev.as_str());
                push_str(&mut m, ", got=");
                push_str(&mut m, actual_prev.as_str());
                assert(m@ =~= broken_link_message(i as int, l[i - 1].transformation_hash, l[i as int].previous_hash));
                return Err((i, m));
            }
            i = i + 1;
        }
        Ok(())
    }

    /// The hash at the head of the chain, or "EMPTY" before the first commit.
    pub fn chain_head(&self) -> (r: String)
        ensures
            r@ == chain_head_or(self@.lineage, "EMPTY"@),
    {
        if self.lineage.len() == 0 {
            owned("EMPTY")
        } else {
            self.lineage[self.lineage.len() - 1].transformation_hash.clone()
        }
    }
}

impl SemanticSubstrate {
    /// Commits `entity` as signed by `operator`, stamped with the current
    /// time.
    pub fn commit_entity(&mut self, entity: Entity, operator: &str) -> (r: ProvenanceReceipt)
        requires
            old(self).generation < u64::MAX,
        ensures
            r@ == receipt_for(old(self)@, entity@, operator@, r.timestamp),
            final(self)@ == commit_spec(old(self)@, entity@, operator@, r.timestamp),
    {
        let timestamp = crate::clock::unix_seconds();
        self.commit_entity_at(entity, operator, timestamp)
    }
}

/// A commit keeps a linked chain linked: its receipt names the hash of the
/// receipt before it.
pub proof fn law_commit_keeps_chain_linked(s: SubstrateView, e: EntityView, op: Seq<char>, ts: u64)
    requires
        chain_linked(s.lineage),
    ensures
        chain_linked(commit_spec(s, e, op, ts).lineage),
        s.lineage.len() > 0 ==> receipt_for(s, e, op, ts).previous_hash == s.lineage.last().transformation_hash,
        s.lineage.len() == 0 ==> receipt_for(s, e, op, ts).previous_hash == "GENESIS"@,
{
    let l = commit_spec(s, e, op, ts).lineage;
    assert forall|i: int| 1 <= i < l.len() implies #[trigger] l[i].previous_hash == l[i - 1].transformation_hash by {
        if i < s.lineage.len() {
            assert(l[i] == s.lineage[i]);
            assert(l[i - 1] == s.lineage[i - 1]);
        }
    }
}

/// After a commit, the entity's identifier finds the committed entity, and
/// every other identifier finds what it found before.
pub proof fn law_commit_then_get(s: SubstrateView, e: EntityView, op: Seq<char>, ts: u64, id: Seq<char>)
    ensures
        lookup(commit_spec(s, e, op, ts).registry, e.id) == Some(e),
        id != e.id ==> lookup(commit_spec(s, e, op, ts).registry, id) == lookup(s.registry, id),
{
    lemma_register_lookup(s.registry, e, e.id);
    lemma_register_lookup(s.registry, e, id);
}

/// The substrate after the commits `cs`, each an entity, its operator and
/// its timestamp, in order.
pub open spec fn commits(s: SubstrateView, cs: Seq<(EntityView, Seq<char>, u64)>) -> SubstrateView
    decreases cs.len(),
{
    if cs.len() == 0 {
        s
    } else {
        commit_spec(commits(s, cs.drop_last()), cs.last().0, cs.last().1, cs.last().2)
    }
}

/// The entity that the last of the commits `cs` with identifier `id`
/// committed, if any did.
pub open spec fn last_committed(cs: Seq<(EntityView, Seq<char>, u64)>, id: Seq<char>) -> Option<EntityView>
    decreases cs.len(),
{
    if cs.len() == 0 {
        None
    } else if cs.last().0.id == id {
        Some(cs.last().0)
    } else {
        last_committed(cs.drop_last(), id)
    }
}

/// After any run of commits, an identifier finds the entity of its last
/// commit, whatever commits of other identifiers followed; an identifier
/// that no commit named finds what it found before (on a new substrate,
/// nothing: no entity is ever made up).
pub proof fn law_get_after_commits(s: SubstrateView, cs: Seq<(EntityView, Seq<char>, u64)>, id: Seq<char>)
    ensures
        lookup(commits(s, cs).registry, id) == match last_committed(cs, id) {
            Some(e) => Some(e),
            None => lookup(s.registry, id),
        },
    decreases cs.len(),
{
    if cs.len() > 0 {
        law_get_after_commits(s, cs.drop_last(), id);
        lemma_register_lookup(commits(s, cs.drop_last()).registry, cs.last().0, id);
    }
}

/// The generation counts the commits: each receipt carries the generation
/// it made, one past its position in the chain.
pub open spec fn generations_count(s: SubstrateView) -> bool {
    &&& s.generation == s.lineage.len()
    &&& forall|i: int| 0 <= i < s.lineage.len() ==> #[trigger] s.lineage[i].generation == i + 1
}

/// A commit keeps the generation equal to the number of receipts.
pub proof fn law_commit_counts_generation(s: SubstrateView, e: EntityView, op: Seq<char>, ts: u64)
    requires
        generations_count(s),
        s.generation < u64::MAX,
    ensures
        generations_count(commit_spec(s, e, op, ts)),
{
    let t = commit_spec(s, e, op, ts);
    assert forall|i: int| 0 <= i < t.lineage.len() implies #[trigger] t.lineage[i].generation == i + 1 by {
        if i < s.lineage.len() {
            assert(t.lineage[i] == s.lineage[i]);
        }
    }
}

/// A relation as the JSON-LD export writes it.
#[derive(Debug)]
pub struct JsonLdRelation {
    pub predicate: String,
    pub target_id: String,
}

/// An entity as the JSON-LD export writes it.
#[derive(Debug)]
pub struct JsonLdNode {
    pub id: String,
    pub node_type: String,
    pub properties: Vec<(String, String)>,
    pub relations: Vec<JsonLdRelation>,
}

pub struct JsonLdNodeView {
    pub id: Seq<char>,
    pub node_type: Seq<char>,
    pub properties: Seq<(Seq<char>, Seq<char>)>,
    pub relations: Seq<RelationView>,
}

impl View for JsonLdNode {
    type V = JsonLdNodeView;

    open spec fn view(&self) -> JsonLdNodeView {
        JsonLdNodeView {
            id: self.id@,
            node_type: self.node_type@,
            properties: pair_views(self.properties@),
            relations: self.relations@.map_values(|r: JsonLdRelation| RelationView { predicate: r.predicate@, target_id: r.target_id@ }),
        }
    }
}

/// The `bs:` prefix of the exported vocabulary.
pub open spec fn bs(s: Seq<char>) -> Seq<char> {
    "bs:"@ + s
}

/// The export of one entity: identifiers, type and predicates under `bs:`.
pub open spec fn node_of(e: EntityView) -> JsonLdNodeView {
    JsonLdNodeView {
        id: bs(e.id),
        node_type: bs(concept_name(e.concept)),
        properties: e.properties,
        relations: Seq::new(e.relations.len(), |i: int| RelationView {
            predicate: bs(e.relations[i].predicate),
            target_id: bs(e.relations[i].target_id),
        }),
    }
}

fn node_from(e: &Entity) -> (n: JsonLdNode)
    ensures
        n@ == node_of(e@),
{
    let mut rels: Vec<JsonLdRelation> = Vec::new();
    let mut i: usize = 0;
    while i < e.relations.len()
        invariant
            i <= e.relations@.len(),
            rels@.len() == i,
            forall|k: int| 0 <= k < i ==> (#[trigger] rels@[k]).predicate@ == bs(e.relations@[k].predicate@)
                && rels@[k].target_id@ == bs(e.relations@[k].target_id@),
        decreases e.relations.len() - i,
    {
        let r = &e.relations[i];
        rels.push(JsonLdRelation {
            predicate: text_with("bs:", r.predicate.as_str()),
            target_id: text_with("bs:", r.target_id.as_str()),
        });
        i = i + 1;
    }
    let n = JsonLdNode {
        id: text_with("bs:", e.id.as_str()),
        node_type: text_with("bs:", e.concept.name()),
        properties: clone_pairs(&e.properties),
        relations: rels,
    };
    assert(n@.relations =~= node_of(e@).relations);
    n
}

/// The `@context` of the JSON-LD export: the `bs` vocabulary and schema.org.
pub fn jsonld_context() -> (c: Vec<(String, String)>)
    ensures
        c@.len() == 2,
        c@[0].0@ == "bs"@ && c@[0].1@ == "https://blueshoes.dev/schema/v0#"@,
        c@[1].0@ == "schema"@ && c@[1].1@ == "http://schema.org/"@,
{
    let mut c: Vec<(String, String)> = Vec::new();
    c.push((owned("bs"), owned("https://blueshoes.dev/schema/v0#")));
    c.push((owned("schema"), owned("http://schema.org/")));
    c
}

impl SemanticSubstrate {
    /// The `@graph` of the JSON-LD export: one node per entity, in registry
    /// order.
    pub fn export_nodes(&self) -> (r: Vec<JsonLdNode>)
        ensures
            r@.len() == self@.registry.len(),
            forall|i: int| 0 <= i < r@.len() ==> (#[trigger] r@[i])@ == node_of(self@.registry[i]),
    {
        let mut r: Vec<JsonLdNode> = Vec::new();
        let mut i: usize = 0;
        while i < self.registry.len()
            invariant
                i <= self.registry@.len(),
                r@.len() == i,
                forall|k: int| 0 <= k < i ==> (#[trigger] r@[k])@ == node_of(self@.registry[k]),
            decreases self.registry.len() - i,
        {
            r.push(node_from(&self.registry[i]));
            i = i + 1;
        }
        r
    }

    /// How many entities of type `concept` the registry holds.
    pub fn concept_count(&self, concept: ConceptType) -> (n: usize)
        ensures
            n == of_concept(self@.registry, concept).len(),
    {
        let v = self.query_by_type(&concept);
        assert(v@.map_values(|e: &Entity| e@).len() == v@.len());
        v.len()
    }
}

} // verus!
