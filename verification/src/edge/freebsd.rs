//! The FreeBSD executor's local registry: entities committed with an MD5
//! receipt, whose concept token also goes out on a telemetry socket.
use vstd::prelude::*;
use crate::digest::{md5_hex, md5_hex_spec};
use crate::edge::substrate::pair_views;
use crate::text::{decimal, owned, push_decimal, push_str};

verus! {

/// The concept types this registry knows.
#[derive(Clone, Copy, Debug, PartialEq, Eq, Structural)]
pub enum ConceptType {
    Person,
    Project,
    Metric,
}

pub open spec fn token_of(c: ConceptType) -> Seq<char> {
    match c {
        ConceptType::Person => "Person"@,
        ConceptType::Project => "Project"@,
        ConceptType::Metric => "Metric"@,
    }
}

/// The token that streams to the telemetry socket for a commit.
pub fn concept_token(c: ConceptType) -> (r: &'static str)
    ensures
        r@ == token_of(c),
{
    match c {
        ConceptType::Person => "Person",
        ConceptType::Project => "Project",
        ConceptType::Metric => "Metric",
    }
}

/// An entity of this registry.
#[derive(Debug)]
pub struct Entity {
    pub id: String,
    pub concept: ConceptType,
    pub properties: Vec<(String, String)>,
}

pub struct EntityView {
    pub id: Seq<char>,
    pub concept: ConceptType,
    pub properties: Seq<(Seq<char>, Seq<char>)>,
}

impl View for Entity {
    type V = EntityView;

    open spec fn view(&self) -> EntityView {
        EntityView { id: self.id@, concept: self.concept, properties: pair_views(self.properties@) }
    }
}

/// The receipt of one commit.
#[derive(Debug)]
pub struct ProvenanceReceipt {
    pub entity_id: String,
    pub timestamp: u64,
    pub operator_signature: String,
    pub transformation_hash: String,
}

pub struct ReceiptView {
    pub entity_id: Seq<char>,
    pub timestamp: u64,
    pub operator_signature: Seq<char>,
    pub transformation_hash: Seq<char>,
}

impl View for ProvenanceReceipt {
    type V = ReceiptView;

    open spec fn view(&self) -> ReceiptView {
        ReceiptView {
            entity_id: self.entity_id@,
            timestamp: self.timestamp,
            operator_signature: self.operator_signature@,
            transformation_hash: self.transformation_hash@,
        }
    }
}

impl Clone for ProvenanceReceipt {
    fn clone(&self) -> (r: Self)
        ensures
            r@ == self@,
    {
        ProvenanceReceipt {
            entity_id: self.entity_id.clone(),
            timestamp: self.timestamp,
            operator_signature: self.operator_signature.clone(),
            transformation_hash: self.transformation_hash.clone(),
        }
    }
}

/// The registry, the receipts in commit order, and the telemetry socket.
pub struct FreeBsdExecutor {
    pub registry: Vec<Entity>,
    pub lineage: Vec<ProvenanceReceipt>,
    pub socket_path: String,
}

/// Where the first entity with identifier `id` stands.
pub open spec fn first_with_id(reg: Seq<Entity>, id: Seq<char>) -> Option<int>
    decreases reg.len(),
{
    if reg.len() == 0 {
        None
    } else if reg[0].id@ == id {
        Some(0)
    } else {
        match first_with_id(reg.drop_first(), id) {
            Some(k) => Some(k + 1),
            None => None,
        }
    }
}

/// The registry's views once `e` is registered in the place of the entity
/// with its identifier, or at the end.
pub open spec fn registered(reg: Seq<Entity>, e: Entity) -> Seq<EntityView> {
    match first_with_id(reg, e.id@) {
        Some(k) => reg.map_values(|x: Entity| x@).update(k, e@),
        None => reg.map_values(|x: Entity| x@).push(e@),
    }
}

/// The MD5 receipt hash: of the identifier, the decimal timestamp and the
/// operator, one after the other.
pub open spec fn receipt_hash(id: Seq<char>, ts: u64, op: Seq<char>) -> Seq<char> {
    md5_hex_spec(id + decimal(ts as nat) + op)
}

proof fn lemma_first_with_id_skip(reg: Seq<Entity>, id: Seq<char>, i: int)
    requires
        0 <= i <= reg.len(),
        forall|k: int| 0 <= k < i ==> (#[trigger] reg[k]).id@ != id,
    ensures
        first_with_id(reg, id) == match first_with_id(reg.skip(i), id) {
            Some(k) => Some(k + i),
            None => None::<int>,
        },
    decreases i,
{
    if i > 0 {
        assert(reg.skip(1).skip(i - 1) =~= reg.skip(i));
        assert(reg.skip(1) =~= reg.drop_first());
        lemma_first_with_id_skip(reg.drop_first(), id, i - 1);
    } else {
        assert(reg.skip(0) =~= reg);
    }
}

impl FreeBsdExecutor {
    /// An empty registry that streams telemetry to `socket_path`.
    pub fn new(socket_path: &str) -> (e: FreeBsdExecutor)
        ensures
            e.registry@.len() == 0,
            e.lineage@.len() == 0,
            e.socket_path@ == socket_path@,
    {
        FreeBsdExecutor { registry: Vec::new(), lineage: Vec::new(), socket_path: owned(socket_path) }
    }

    fn find(&self, id: &String) -> (r: Option<usize>)
        ensures
            match r {
                Some(k) => first_with_id(self.registry@, id@) == Some(k as int) && k < self.registry@.len(),
                None => first_with_id(self.registry@, id@) is None,
            },
    {
        let ghost reg = self.registry@;
        let mut i: usize = 0;
        while i < self.registry.len()
            invariant
                reg == self.registry@,
                i <= reg.len(),
                forall|k: int| 0 <= k < i ==> (#[trigger] reg[k]).id@ != id@,
            decreases self.registry.len() - i,
        {
            if self.registry[i].id == *id {
                proof {
                    lemma_first_with_id_skip(reg, id@, i as int);
                    assert(reg.skip(i as int)[0] == reg[i as int]);
                }
                return Some(i);
            }
            i = i + 1;
        }
        proof {
            lemma_first_with_id_skip(reg, id@, i as int);
            assert(reg.skip(i as int) =~= Seq::<Entity>::empty());
        }
        None
    }

    /// Commits `entity` as signed by `operator` at `timestamp`: the receipt's
    /// hash is the MD5 of identifier, timestamp and operator; the entity
    /// takes the place of any with its identifier.
    pub fn commit_entity_at(&mut self, entity: Entity, operator: &str, timestamp: u64) -> (r: ProvenanceReceipt)
        ensures
            r@ == (ReceiptView {
                entity_id: entity.id@,
                timestamp,
                operator_signature: operator@,
                transformation_hash: receipt_hash(entity.id@, timestamp, operator@),
            }),
            final(self).registry@.map_values(|x: Entity| x@) == registered(old(self).registry@, entity),
            final(self).lineage@.map_values(|x: ProvenanceReceipt| x@) == old(self).lineage@.map_values(
                |x: ProvenanceReceipt| x@,
            ).push(r@),
            final(self).socket_path == old(self).socket_path,
    {
        let mut input = entity.id.clone();
        push_decimal(&mut input, timestamp);
        push_str(&mut input, operator);
        let transformation_hash = md5_hex(input.as_str());
        let receipt = ProvenanceReceipt {
            entity_id: entity.id.clone(),
            timestamp,
            operator_signature: owned(operator),
            transformation_hash,
        };
        let ghost reg = self.registry@;
        let ghost ev = entity;
        match self.find(&entity.id) {
            Some(k) => {
                self.registry.set(k, entity);
                assert(self.registry@.map_values(|x: Entity| x@) =~= reg.map_values(|x: Entity| x@).update(
                    k as int,
                    ev@,
                ));
            },
            None => {
                self.registry.push(entity);
                assert(self.registry@.map_values(|x: Entity| x@) =~= reg.map_values(|x: Entity| x@).push(ev@));
            },
        }
        self.lineage.push(receipt.clone());
        assert(self.lineage@.map_values(|x: ProvenanceReceipt| x@) =~= old(self).lineage@.map_values(
            |x: ProvenanceReceipt| x@,
        ).push(receipt@));
        receipt
    }

    /// Commits `entity` as signed by `operator`, stamped with the current
    /// time.
    pub fn commit_entity(&mut self, entity: Entity, operator: &str) -> (r: ProvenanceReceipt)
        ensures
            r@.entity_id == entity.id@,
            r@.operator_signature == operator@,
            r@.transformation_hash == receipt_hash(entity.id@, r.timestamp, operator@),
            final(self).registry@.map_values(|x: Entity| x@) == registered(old(self).registry@, entity),
            final(self).lineage@.map_values(|x: ProvenanceReceipt| x@) == old(self).lineage@.map_values(
                |x: ProvenanceReceipt| x@,
            ).push(r@),
            final(self).socket_path == old(self).socket_path,
    {
        let timestamp = crate::clock::unix_seconds();
        self.commit_entity_at(entity, operator, timestamp)
    }
}

} // verus!
