//! Proof of stake: the pool of live tickets, the ticket price rule, the choice of the
//! tickets that vote on a block, and ticket signatures.
use vstd::prelude::*;
use crate::assoc::AssocList;
use crate::bytes::{extend_bytes, le_value, seq_lt, hash_lt, hash_eq};
use crate::bytes::{lemma_seq_lt_irreflexive, lemma_seq_lt_asymmetric, lemma_seq_lt_transitive, lemma_seq_lt_total};
use crate::consensus::error::{message, ConsensusError};
use crate::crypto::{blake3_digest, blake3_hash, decode_public_key, decode_signature, ed25519_verify};
use crate::crypto::{ed25519_point_decompresses, ed25519_verifies, signature_decodes};
use crate::governance::MasternodeList;
use crate::script::engine::le_value_u64;
use crate::types::{Block, OutPoint, Ticket, TicketModel, TicketStatus, Transaction, TransactionModel};

verus! {

/// A public key or a signature that does not decode.
#[derive(Debug, Clone, Copy, PartialEq, Eq)]
pub struct SignatureError;

/// Checks an Ed25519 signature given as bytes: an error when the key or the signature
/// does not decode, else whether the signature verifies.
pub fn validate_ticket_signature(public_key_bytes: &[u8], message: &[u8], signature_bytes: &[u8]) -> (r: Result<bool, SignatureError>)
    ensures
        !(public_key_bytes@.len() == 32 && ed25519_point_decompresses(public_key_bytes@)) ==> r == Err::<bool, SignatureError>(SignatureError),
        (public_key_bytes@.len() == 32 && ed25519_point_decompresses(public_key_bytes@)) && !signature_decodes(signature_bytes@)
            ==> r == Err::<bool, SignatureError>(SignatureError),
        (public_key_bytes@.len() == 32 && ed25519_point_decompresses(public_key_bytes@)) && signature_decodes(signature_bytes@)
            ==> r == Ok::<bool, SignatureError>(ed25519_verifies(public_key_bytes@, message@, signature_bytes@)),
{
    let public_key = match decode_public_key(public_key_bytes) {
        Some(k) => k,
        None => {
            return Err(SignatureError);
        },
    };
    let signature = match decode_signature(signature_bytes) {
        Some(s) => s,
        None => {
            return Err(SignatureError);
        },
    };
    Ok(ed25519_verify(&public_key, message, &signature))
}

/// A masternode's failure to take part, as a proof names it.
#[derive(Debug, Clone, Copy)]
pub struct MasternodeNonParticipationProof {
    pub masternode_id: OutPoint,
}

/// A masternode's misbehaviour, as a proof names it.
#[derive(Debug, Clone, Copy)]
pub struct MasternodeMaliciousProof {
    pub masternode_id: OutPoint,
}

/// The live tickets, each kept under its own id.
pub struct LiveTicketsPool {
    tickets: AssocList<[u8; 32], Ticket>,
}

impl View for LiveTicketsPool {
    type V = Map<[u8; 32], TicketModel>;

    closed spec fn view(&self) -> Map<[u8; 32], TicketModel> {
        tickets_view(self.tickets.map())
    }
}

/// Tickets by id, viewed.
pub open spec fn tickets_view(m: Map<[u8; 32], Ticket>) -> Map<[u8; 32], TicketModel> {
    m.map_values(|t: Ticket| t@)
}

/// Why a ticket purchase cannot enter the pool, if it cannot; other transactions pass.
pub open spec fn purchase_error(t: TransactionModel) -> Option<Seq<char>> {
    match t {
        TransactionModel::TicketPurchase { outputs, ticket_address, .. } => {
            if outputs.len() == 0 {
                Some("Ticket purchase transaction has no output for ticket."@)
            } else if ticket_address.len() != 32 {
                Some("Invalid public key length in ticket address."@)
            } else {
                None
            }
        },
        _ => None,
    }
}

/// The ticket a well-formed purchase buys at `height`: its id is the BLAKE3 digest of the
/// ticket address, which is also its key; its value is that of the first output.
pub open spec fn purchased_ticket(t: TransactionModel, height: u64) -> TicketModel {
    match t {
        TransactionModel::TicketPurchase { outputs, ticket_address, .. } => TicketModel {
            id: blake3_digest(ticket_address),
            pubkey: ticket_address,
            height,
            value: outputs[0].value,
            status: TicketStatus::Live,
        },
        _ => arbitrary(),
    }
}

/// Whether a transaction is a ticket purchase.
pub open spec fn is_purchase(t: TransactionModel) -> bool {
    t is TicketPurchase
}

/// The pool after the tickets bought by the first `n` transactions (all well-formed).
pub open spec fn with_purchases(m: Map<[u8; 32], TicketModel>, txs: Seq<TransactionModel>, n: int, height: u64) -> Map<[u8; 32], TicketModel>
    decreases n,
{
    if n <= 0 {
        m
    } else {
        let prev = with_purchases(m, txs, n - 1, height);
        if is_purchase(txs[n - 1]) {
            let t = purchased_ticket(txs[n - 1], height);
            prev.insert(t.id, t)
        } else {
            prev
        }
    }
}

/// No transaction among the first `n` is a malformed purchase.
pub open spec fn purchases_ok(txs: Seq<TransactionModel>, n: int) -> bool {
    forall|i: int| 0 <= i < n ==> (#[trigger] purchase_error(txs[i])) is None
}

/// The ticket ids the ticket purchases among the first `n` transactions name.
pub open spec fn purchase_ids(txs: Seq<TransactionModel>, n: int) -> Set<[u8; 32]> {
    Set::new(|id: [u8; 32]| exists|i: int| 0 <= i < n && #[trigger] txs[i].is_ticket_purchase_of(id))
}

impl TransactionModel {
    /// Whether this is a ticket purchase naming the ticket id `id`.
    pub open spec fn is_ticket_purchase_of(self, id: [u8; 32]) -> bool {
        self matches TransactionModel::TicketPurchase { ticket_id, .. } && ticket_id == id
    }
}

/// The pool with the tickets of the given ids taken out.
pub open spec fn without_ids(m: Map<[u8; 32], TicketModel>, ids: Seq<[u8; 32]>) -> Map<[u8; 32], TicketModel> {
    m.remove_keys(ids.to_set())
}

/// The transactions of a block, viewed.
pub open spec fn block_txs(block: Block) -> Seq<TransactionModel> {
    block.transactions@.map_values(|t: Transaction| t@)
}

/// The order voters are ranked by: by lottery score, then by ticket id.
pub open spec fn key_lt(a: (u64, [u8; 32]), b: (u64, [u8; 32])) -> bool {
    a.0 < b.0 || (a.0 == b.0 && seq_lt(a.1@, b.1@))
}

pub proof fn lemma_key_lt_transitive(a: (u64, [u8; 32]), b: (u64, [u8; 32]), c: (u64, [u8; 32]))
    requires
        key_lt(a, b),
        key_lt(b, c),
    ensures
        key_lt(a, c),
{
    if a.0 == b.0 && b.0 == c.0 {
        lemma_seq_lt_transitive(a.1@, b.1@, c.1@);
    }
}

pub proof fn lemma_key_lt_irreflexive(a: (u64, [u8; 32]))
    ensures
        !key_lt(a, a),
{
    lemma_seq_lt_irreflexive(a.1@);
}

/// Keys with different ticket ids are ordered one way or the other.
pub proof fn lemma_key_lt_total(a: (u64, [u8; 32]), b: (u64, [u8; 32]))
    requires
        a.1 != b.1,
    ensures
        key_lt(a, b) || key_lt(b, a),
{
    assert(a.1@ != b.1@) by {
        if a.1@ == b.1@ {
            assert(a.1 =~= b.1);
        }
    }
    lemma_seq_lt_total(a.1@, b.1@);
}

/// Whether the ticket ids of a list of keys are distinct.
pub open spec fn ids_distinct(s: Seq<(u64, [u8; 32])>) -> bool {
    forall|i: int, j: int| 0 <= i < j < s.len() ==> s[i].1 != s[j].1
}

/// Whether a list of keys is in strictly decreasing order.
pub open spec fn strictly_decreasing(s: Seq<(u64, [u8; 32])>) -> bool {
    forall|i: int, j: int| 0 <= i < j < s.len() ==> key_lt(s[j], s[i])
}

/// Orders keys with distinct ticket ids from the greatest down.
fn sort_keys_desc(items: Vec<(u64, [u8; 32])>) -> (r: Vec<(u64, [u8; 32])>)
    requires
        ids_distinct(items@),
    ensures
        r@.len() == items@.len(),
        strictly_decreasing(r@),
        forall|i: int| 0 <= i < r@.len() ==> items@.contains(#[trigger] r@[i]),
        forall|i: int| 0 <= i < items@.len() ==> r@.contains(#[trigger] items@[i]),
{
    let ghost all = items@;
    let n = items.len();
    let mut rest = items;
    let mut r: Vec<(u64, [u8; 32])> = Vec::new();
    while rest.len() > 0
        invariant
            all.len() == n,
            r@.len() + rest@.len() == n,
            ids_distinct(rest@),
            strictly_decreasing(r@),
            forall|i: int| 0 <= i < r@.len() ==> all.contains(#[trigger] r@[i]),
            forall|i: int| 0 <= i < rest@.len() ==> all.contains(#[trigger] rest@[i]),
            forall|i: int| 0 <= i < all.len() ==> r@.contains(#[trigger] all[i]) || rest@.contains(all[i]),
            forall|i: int, j: int| 0 <= i < r@.len() && 0 <= j < rest@.len() ==> key_lt(#[trigger] rest@[j], #[trigger] r@[i]),
        decreases rest@.len(),
    {
        let mut p: usize = 0;
        let mut j: usize = 1;
        while j < rest.len()
            invariant
                1 <= j <= rest@.len(),
                p < j,
                ids_distinct(rest@),
                forall|x: int| 0 <= x < j && x != p ==> key_lt(#[trigger] rest@[x], rest@[p as int]),
            decreases rest@.len() - j,
        {
            let a = rest[j];
            let b = rest[p];
            let later = b.0 < a.0 || (b.0 == a.0 && hash_lt(&b.1, &a.1));
            if later {
                proof {
                    assert forall|x: int| 0 <= x < j + 1 && x != j implies key_lt(#[trigger] rest@[x], rest@[j as int]) by {
                        if x != p {
                            lemma_key_lt_transitive(rest@[x], rest@[p as int], rest@[j as int]);
                        }
                    }
                }
                p = j;
            } else {
                proof {
                    lemma_key_lt_total(a, b);
                }
            }
            j = j + 1;
        }
        let ghost before = rest@;
        let m = rest.remove(p);
        let ghost old_r = r@;
        r.push(m);
        proof {
            assert(m == before[p as int]);
            assert forall|x: int| 0 <= x < rest@.len() implies key_lt(#[trigger] rest@[x], m) by {
                let xo = if x < p { x } else { x + 1 };
                assert(rest@[x] == before[xo]);
            }
            assert forall|a: int, b: int| 0 <= a < b < rest@.len() implies rest@[a].1 != rest@[b].1 by {
                let ao = if a < p { a } else { a + 1 };
                let bo = if b < p { b } else { b + 1 };
                assert(rest@[a] == before[ao]);
                assert(rest@[b] == before[bo]);
            }
            assert forall|a: int, b: int| 0 <= a < b < r@.len() implies key_lt(r@[b], r@[a]) by {
                if b == r@.len() - 1 {
                    assert(r@[a] == old_r[a]);
                    assert(before.contains(m));
                    assert(key_lt(before[p as int], old_r[a]));
                }
            }
            assert forall|i: int, x: int| 0 <= i < r@.len() && 0 <= x < rest@.len() implies key_lt(#[trigger] rest@[x], #[trigger] r@[i]) by {
                let xo = if x < p { x } else { x + 1 };
                assert(rest@[x] == before[xo]);
                if i < r@.len() - 1 {
                    assert(r@[i] == old_r[i]);
                }
            }
            assert forall|i: int| 0 <= i < r@.len() implies all.contains(#[trigger] r@[i]) by {
                if i < r@.len() - 1 {
                    assert(r@[i] == old_r[i]);
                }
            }
            assert forall|i: int| 0 <= i < rest@.len() implies all.contains(#[trigger] rest@[i]) by {
                let io = if i < p { i } else { i + 1 };
                assert(rest@[i] == before[io]);
            }
            assert forall|i: int| 0 <= i < all.len() implies r@.contains(#[trigger] all[i]) || rest@.contains(all[i]) by {
                if old_r.contains(all[i]) {
                    let q = choose|q: int| 0 <= q < old_r.len() && old_r[q] == all[i];
                    assert(r@[q] == all[i]);
                } else {
                    let q = choose|q: int| 0 <= q < before.len() && before[q] == all[i];
                    if q == p {
                        assert(r@[r@.len() - 1] == all[i]);
                    } else {
                        let qn = if q < p { q } else { q - 1 };
                        assert(rest@[qn] == all[i]);
                    }
                }
            }
        }
    }
    proof {
        assert forall|i: int| 0 <= i < all.len() implies r@.contains(#[trigger] all[i]) by {
            assert(r@.contains(all[i]) || rest@.contains(all[i]));
        }
    }
    r
}

impl LiveTicketsPool {
    #[verifier::type_invariant]
    closed spec fn keyed_by_id(&self) -> bool {
        forall|k: [u8; 32]| #[trigger] self.tickets.map().dom().contains(k) ==> self.tickets.map()[k].id == k
    }

    /// Every ticket is kept under its own id.
    pub fn lemma_keyed_by_id(&self)
        ensures
            forall|k: [u8; 32]| #[trigger] self@.dom().contains(k) ==> self@[k].id == k,
            self@.dom().finite(),
    {
        proof {
            use_type_invariant(self);
        }
        self.tickets.lemma_wf();
        assert(self@.dom() =~= self.tickets.map().dom());
    }

    pub fn new() -> (r: LiveTicketsPool)
        ensures
            r@ == Map::<[u8; 32], TicketModel>::empty(),
    {
        let r = LiveTicketsPool { tickets: AssocList::new() };
        assert(r@ =~= Map::<[u8; 32], TicketModel>::empty());
        r
    }

    /// Adds a ticket under its id, replacing one with the same id.
    pub fn add_ticket(&mut self, ticket: Ticket) -> (r: Result<(), ConsensusError>)
        ensures
            r is Ok,
            final(self)@ == old(self)@.insert(ticket.id, ticket@),
    {
        proof {
            use_type_invariant(&*self);
        }
        let id = ticket.id;
        let ghost tv = ticket@;
        let mut tickets = AssocList::new();
        std::mem::swap(&mut tickets, &mut self.tickets);
        tickets.insert(id, ticket);
        self.tickets = tickets;
        assert(self@ =~= old(self)@.insert(id, tv));
        Ok(())
    }

    /// Removes and returns the ticket with the given id.
    pub fn remove_ticket(&mut self, ticket_id: &[u8; 32]) -> (r: Result<Ticket, ConsensusError>)
        ensures
            final(self)@ == old(self)@.remove(*ticket_id),
            old(self)@.dom().contains(*ticket_id) ==> (r matches Ok(t) && t@ == old(self)@[*ticket_id]),
            !old(self)@.dom().contains(*ticket_id) ==> (r matches Err(ConsensusError::InvalidTicket(m))
                && m@ == "Ticket not found in live pool."@),
    {
        proof {
            use_type_invariant(&*self);
        }
        let mut tickets = AssocList::new();
        std::mem::swap(&mut tickets, &mut self.tickets);
        let r = tickets.remove(ticket_id);
        self.tickets = tickets;
        assert(self@ =~= old(self)@.remove(*ticket_id));
        match r {
            Some(t) => Ok(t),
            None => Err(ConsensusError::InvalidTicket(message("Ticket not found in live pool."))),
        }
    }

    pub fn get_ticket(&self, ticket_id: &[u8; 32]) -> (r: Option<&Ticket>)
        ensures
            r matches Some(t) ==> self@.dom().contains(*ticket_id) && t@ == self@[*ticket_id],
            r is None ==> !self@.dom().contains(*ticket_id),
    {
        self.tickets.get(ticket_id)
    }

    pub fn get_live_ticket_count(&self) -> (r: usize)
        ensures
            r == self@.dom().len(),
    {
        let r = self.tickets.len();
        assert(self@.dom() =~= self.tickets.map().dom());
        r
    }

    pub fn count_live_tickets(&self) -> (r: usize)
        ensures
            r == self@.dom().len(),
    {
        let r = self.tickets.len();
        assert(self@.dom() =~= self.tickets.map().dom());
        r
    }

    /// Takes out the tickets a block used, then adds the tickets its purchases buy, in
    /// order; at the first malformed purchase it stops with an error, keeping what was done
    /// before it.
    pub fn update_for_new_block(&mut self, block: &Block, used_ticket_ids: &Vec<[u8; 32]>) -> (r: Result<(), ConsensusError>)
        ensures
            ({
                let txs = block_txs(*block);
                let m1 = without_ids(old(self)@, used_ticket_ids@);
                &&& r is Ok <==> purchases_ok(txs, txs.len() as int)
                &&& r is Ok ==> final(self)@ == with_purchases(m1, txs, txs.len() as int, block.header.height)
                &&& r is Err ==> exists|k: int|
                    0 <= k < txs.len() && purchases_ok(txs, k) && #[trigger] purchase_error(txs[k]) is Some
                    && (r matches Err(ConsensusError::InvalidTicket(msg)) && Some(msg@) == purchase_error(txs[k]))
                    && final(self)@ == with_purchases(m1, txs, k, block.header.height)
            }),
    {
        proof {
            use_type_invariant(&*self);
        }
        let mut tickets = AssocList::new();
        std::mem::swap(&mut tickets, &mut self.tickets);
        let ghost m0 = old(self)@;
        let mut i: usize = 0;
        while i < used_ticket_ids.len()
            invariant
                i <= used_ticket_ids@.len(),
                tickets_view(tickets.map()) == m0.remove_keys(used_ticket_ids@.take(i as int).to_set()),
                forall|k: [u8; 32]| #[trigger] tickets.map().dom().contains(k) ==> tickets.map()[k].id == k,
            decreases used_ticket_ids@.len() - i,
        {
            let ghost before = tickets.map();
            tickets.remove(&used_ticket_ids[i]);
            proof {
                assert(tickets_view(tickets.map()) =~= tickets_view(before).remove(used_ticket_ids@[i as int]));
                used_ticket_ids@.lemma_take_succ_push(i as int);
                used_ticket_ids@.take(i as int).lemma_push_to_set_commute(used_ticket_ids@[i as int]);
                assert(tickets_view(tickets.map()) =~= m0.remove_keys(
                    used_ticket_ids@.take(i as int + 1).to_set(),
                ));
            }
            i = i + 1;
        }
        assert(used_ticket_ids@.take(used_ticket_ids@.len() as int) =~= used_ticket_ids@);
        let ghost m1 = without_ids(m0, used_ticket_ids@);
        let ghost txs = block_txs(*block);
        let height = block.header.height;
        let mut j: usize = 0;
        while j < block.transactions.len()
            invariant
                j <= block.transactions@.len(),
                txs == block_txs(*block),
                txs.len() == block.transactions@.len(),
                m1 == without_ids(old(self)@, used_ticket_ids@),
                height == block.header.height,
                purchases_ok(txs, j as int),
                tickets_view(tickets.map()) == with_purchases(m1, txs, j as int, height),
                forall|k: [u8; 32]| #[trigger] tickets.map().dom().contains(k) ==> tickets.map()[k].id == k,
            decreases block.transactions@.len() - j,
        {
            assert(txs[j as int] == block.transactions@[j as int]@);
            match &block.transactions[j] {
                Transaction::TicketPurchase { outputs, ticket_address, .. } => {
                    if outputs.len() == 0 {
                        self.tickets = tickets;
                        assert(purchase_error(txs[j as int]) == Some("Ticket purchase transaction has no output for ticket."@));
                        let e = ConsensusError::InvalidTicket(message("Ticket purchase transaction has no output for ticket."));
                        assert(purchases_ok(txs, j as int) && purchase_error(txs[j as int]) is Some
                            && (e matches ConsensusError::InvalidTicket(msg) && Some(msg@) == purchase_error(txs[j as int]))
                            && self@ == with_purchases(m1, txs, j as int, height));
                        return Err(e);
                    }
                    if ticket_address.len() != 32 {
                        self.tickets = tickets;
                        assert(purchase_error(txs[j as int]) == Some("Invalid public key length in ticket address."@));
                        let e = ConsensusError::InvalidTicket(message("Invalid public key length in ticket address."));
                        assert(purchases_ok(txs, j as int) && purchase_error(txs[j as int]) is Some
                            && (e matches ConsensusError::InvalidTicket(msg) && Some(msg@) == purchase_error(txs[j as int]))
                            && self@ == with_purchases(m1, txs, j as int, height));
                        return Err(e);
                    }
                    let commitment = blake3_hash(ticket_address.as_slice());
                    let pubkey = crate::bytes::copy_bytes(ticket_address.as_slice());
                    let ticket = Ticket {
                        id: commitment,
                        pubkey,
                        height,
                        value: outputs[0].value,
                        status: TicketStatus::Live,
                    };
                    let ghost tv = ticket@;
                    assert(tv == purchased_ticket(txs[j as int], height));
                    let ghost before = tickets.map();
                    tickets.insert(commitment, ticket);
                    assert(tickets_view(tickets.map()) =~= tickets_view(before).insert(commitment, tv));
                },
                _ => {},
            }
            j = j + 1;
        }
        self.tickets = tickets;
        Ok(())
    }

    /// Takes out the tickets a block used and the tickets its purchases name.
    pub fn update_for_revert_block(&mut self, block: &Block, used_ticket_ids: &Vec<[u8; 32]>)
        ensures
            final(self)@ == without_ids(old(self)@, used_ticket_ids@).remove_keys(
                purchase_ids(block_txs(*block), block.transactions@.len() as int),
            ),
    {
        proof {
            use_type_invariant(&*self);
        }
        let mut tickets = AssocList::new();
        std::mem::swap(&mut tickets, &mut self.tickets);
        let ghost m0 = old(self)@;
        let mut i: usize = 0;
        while i < used_ticket_ids.len()
            invariant
                i <= used_ticket_ids@.len(),
                tickets_view(tickets.map()) == m0.remove_keys(used_ticket_ids@.take(i as int).to_set()),
                forall|k: [u8; 32]| #[trigger] tickets.map().dom().contains(k) ==> tickets.map()[k].id == k,
            decreases used_ticket_ids@.len() - i,
        {
            let ghost before = tickets.map();
            tickets.remove(&used_ticket_ids[i]);
            proof {
                assert(tickets_view(tickets.map()) =~= tickets_view(before).remove(used_ticket_ids@[i as int]));
                used_ticket_ids@.lemma_take_succ_push(i as int);
                used_ticket_ids@.take(i as int).lemma_push_to_set_commute(used_ticket_ids@[i as int]);
                assert(tickets_view(tickets.map()) =~= m0.remove_keys(
                    used_ticket_ids@.take(i as int + 1).to_set(),
                ));
            }
            i = i + 1;
        }
        assert(used_ticket_ids@.take(used_ticket_ids@.len() as int) =~= used_ticket_ids@);
        let ghost m1 = without_ids(m0, used_ticket_ids@);
        let ghost txs = block_txs(*block);
        let mut j: usize = 0;
        while j < block.transactions.len()
            invariant
                j <= block.transactions@.len(),
                txs == block_txs(*block),
                tickets_view(tickets.map()) == m1.remove_keys(purchase_ids(txs, j as int)),
                forall|k: [u8; 32]| #[trigger] tickets.map().dom().contains(k) ==> tickets.map()[k].id == k,
            decreases block.transactions@.len() - j,
        {
            assert(txs[j as int] == block.transactions@[j as int]@);
            match &block.transactions[j] {
                Transaction::TicketPurchase { ticket_id, .. } => {
                    let id = *ticket_id;
                    let ghost before = tickets.map();
                    tickets.remove(&id);
                    assert(tickets_view(tickets.map()) =~= tickets_view(before).remove(id));
                    assert(purchase_ids(txs, j as int + 1) =~= purchase_ids(txs, j as int).insert(id)) by {
                        assert(txs[j as int].is_ticket_purchase_of(id));
                    }
                    assert(tickets_view(tickets.map()) =~= m1.remove_keys(purchase_ids(txs, j as int + 1)));
                },
                _ => {
                    assert(purchase_ids(txs, j as int + 1) =~= purchase_ids(txs, j as int)) by {
                        assert forall|id: [u8; 32]| purchase_ids(txs, j as int + 1).contains(id) implies purchase_ids(txs, j as int).contains(id) by {
                            let k = choose|k: int| 0 <= k < j + 1 && #[trigger] txs[k].is_ticket_purchase_of(id);
                            assert(k != j);
                        }
                    }
                },
            }
            j = j + 1;
        }
        self.tickets = tickets;
    }

    /// The ids of the live tickets, in increasing byte order.
    pub fn get_ticket_ids_sorted(&self) -> (r: Vec<[u8; 32]>)
        ensures
            r@.len() == self@.dom().len(),
            forall|i: int, j: int| 0 <= i < j < r@.len() ==> seq_lt(r@[i]@, r@[j]@),
            forall|i: int| 0 <= i < r@.len() ==> self@.dom().contains(#[trigger] r@[i]),
            forall|id: [u8; 32]| #[trigger] self@.dom().contains(id) ==> r@.contains(id),
    {
        proof {
            use_type_invariant(self);
        }
        self.tickets.lemma_wf();
        let entries = self.tickets.entries();
        let ghost m = self.tickets.map();
        let mut keys: Vec<(u64, [u8; 32])> = Vec::new();
        let mut i: usize = 0;
        while i < entries.len()
            invariant
                i <= entries@.len(),
                entries@ == self.tickets.seq(),
                crate::assoc::distinct_keys(entries@),
                keys@.len() == i,
                forall|j: int| 0 <= j < i ==> #[trigger] keys@[j] == (0u64, entries@[j].0),
            decreases entries@.len() - i,
        {
            keys.push((0u64, entries[i].0));
            i = i + 1;
        }
        let ghost ks = keys@;
        let sorted = sort_keys_desc(keys);
        let n = sorted.len();
        let mut r: Vec<[u8; 32]> = Vec::new();
        let mut k: usize = 0;
        while k < n
            invariant
                n == sorted@.len(),
                k <= n,
                r@.len() == k,
                forall|j: int| 0 <= j < k ==> #[trigger] r@[j] == sorted@[n - 1 - j].1,
            decreases n - k,
        {
            r.push(sorted[n - 1 - k].1);
            k = k + 1;
        }
        proof {
            assert(self@.dom() =~= m.dom());
            assert forall|j: int| 0 <= j < ks.len() implies (#[trigger] ks[j]).0 == 0 && m.dom().contains(ks[j].1) by {
                assert(m.dom().contains(entries@[j].0));
            }
            assert forall|a: int, b: int| 0 <= a < b < r@.len() implies seq_lt(r@[a]@, r@[b]@) by {
                let x = sorted@[n - 1 - a];
                let y = sorted@[n - 1 - b];
                assert(key_lt(x, y));
                assert(ks.contains(x));
                assert(ks.contains(y));
            }
            assert forall|j: int| 0 <= j < r@.len() implies self@.dom().contains(#[trigger] r@[j]) by {
                assert(ks.contains(sorted@[n - 1 - j]));
            }
            assert forall|id: [u8; 32]| #[trigger] self@.dom().contains(id) implies r@.contains(id) by {
                let q = choose|q: int| 0 <= q < entries@.len() && entries@[q].0 == id;
                assert(ks[q] == (0u64, id));
                assert(sorted@.contains(ks[q]));
                let z = choose|z: int| 0 <= z < sorted@.len() && sorted@[z] == ks[q];
                assert(r@[n - 1 - z] == id);
            }
        }
        r
    }

    /// Every live ticket, once each.
    pub fn get_all_tickets(&self) -> (r: Vec<&Ticket>)
        ensures
            r@.len() == self@.dom().len(),
            forall|i: int| 0 <= i < r@.len() ==> self@.dom().contains(#[trigger] r@[i].id) && r@[i]@ == self@[r@[i].id],
            forall|i: int, j: int| 0 <= i < j < r@.len() ==> r@[i].id != r@[j].id,
            forall|id: [u8; 32]| #[trigger] self@.dom().contains(id) ==> exists|i: int| 0 <= i < r@.len() && r@[i].id == id,
    {
        proof {
            use_type_invariant(self);
        }
        self.tickets.lemma_wf();
        let entries = self.tickets.entries();
        let mut r: Vec<&Ticket> = Vec::new();
        let mut i: usize = 0;
        while i < entries.len()
            invariant
                i <= entries@.len(),
                entries@ == self.tickets.seq(),
                r@.len() == i,
                forall|j: int| 0 <= j < i ==> #[trigger] r@[j] == &entries@[j].1,
            decreases entries@.len() - i,
        {
            r.push(&entries[i].1);
            i = i + 1;
        }
        proof {
            let m = self.tickets.map();
            assert(self@.dom() =~= m.dom());
            assert forall|id: [u8; 32]| #[trigger] self@.dom().contains(id) implies exists|i: int| 0 <= i < r@.len() && r@[i].id == id by {
                assert(m.dom().contains(id));
                let i = choose|i: int| 0 <= i < entries@.len() && entries@[i].0 == id;
                assert(r@[i] == &entries@[i].1);
                assert(m[entries@[i].0] == entries@[i].1);
            }
            assert forall|i: int, j: int| 0 <= i < j < r@.len() implies r@[i].id != r@[j].id by {
                assert(m.dom().contains(entries@[i].0));
                assert(m.dom().contains(entries@[j].0));
                assert(m[entries@[i].0] == entries@[i].1);
                assert(m[entries@[j].0] == entries@[j].1);
                assert(r@[i].id == entries@[i].0);
                assert(r@[j].id == entries@[j].0);
                assert(entries@[i].0 != entries@[j].0);
            }
            assert forall|i: int| 0 <= i < r@.len() implies self@.dom().contains(#[trigger] r@[i].id) && r@[i]@ == self@[r@[i].id] by {
                assert(m[entries@[i].0] == entries@[i].1);
                assert(self@[entries@[i].0] == m[entries@[i].0]@);
                assert(m.dom().contains(entries@[i].0));
                assert(r@[i].id == entries@[i].0);
                assert(self@.dom().contains(r@[i].id));
                assert(r@[i]@ == self@[r@[i].id]);
            }
        }
        r
    }
}

/// The lottery score of a ticket for the block after `prev_block_hash`: the first eight
/// bytes, read little-endian, of the BLAKE3 digest of the previous block's hash followed
/// by the ticket id.
pub open spec fn lottery_score(prev_block_hash: [u8; 32], ticket_id: [u8; 32]) -> u64 {
    le_value(blake3_digest(prev_block_hash@ + ticket_id@)@.subrange(0, 8)) as u64
}

/// The key a ticket is ranked by in the lottery.
pub open spec fn voter_key(prev_block_hash: [u8; 32], ticket_id: [u8; 32]) -> (u64, [u8; 32]) {
    (lottery_score(prev_block_hash, ticket_id), ticket_id)
}

/// How many tickets vote on each block.
pub const VOTERS_PER_BLOCK: usize = 5;

/// The lottery score of a ticket, as `lottery_score` states.
pub fn ticket_lottery_score(prev_block_hash: &[u8; 32], ticket_id: &[u8; 32]) -> (r: u64)
    ensures
        r == lottery_score(*prev_block_hash, *ticket_id),
{
    let mut buf: Vec<u8> = Vec::new();
    extend_bytes(&mut buf, prev_block_hash.as_slice());
    extend_bytes(&mut buf, ticket_id.as_slice());
    let digest = blake3_hash(buf.as_slice());
    let first = crate::bytes::copy_range(digest.as_slice(), 0, 8);
    let score = le_value_u64(first.as_slice());
    proof {
        crate::bytes::lemma_le_value_bound(first@);
        crate::bytes::lemma_pow256_values();
    }
    score
}

/// Whether `r` lists the tickets that vote on the block after `prev_block_hash`: the five
/// (or all, if fewer) live tickets ranked highest by lottery score, ties going to the
/// greater id, highest first.
pub open spec fn voters_selected(live: Set<[u8; 32]>, prev_block_hash: [u8; 32], r: Seq<[u8; 32]>) -> bool {
    &&& r.len() == if live.len() < VOTERS_PER_BLOCK { live.len() } else { VOTERS_PER_BLOCK as nat }
    &&& forall|i: int| 0 <= i < r.len() ==> live.contains(#[trigger] r[i])
    &&& forall|i: int, j: int| 0 <= i < j < r.len() ==> key_lt(voter_key(prev_block_hash, r[j]), voter_key(prev_block_hash, r[i]))
    &&& forall|id: [u8; 32], i: int| #[trigger] live.contains(id) && !r.contains(id) && 0 <= i < r.len()
        ==> key_lt(voter_key(prev_block_hash, id), voter_key(prev_block_hash, #[trigger] r[i]))
}

/// The tickets that vote on the block after `prev_block_hash`, as `voters_selected` states.
pub fn select_voters(prev_block_hash: &[u8; 32], live_tickets_pool: &LiveTicketsPool) -> (r: Vec<[u8; 32]>)
    ensures
        voters_selected(live_tickets_pool@.dom(), *prev_block_hash, r@),
{
    let sorted_ids = live_tickets_pool.get_ticket_ids_sorted();
    let ghost dom = live_tickets_pool@.dom();
    let mut keys: Vec<(u64, [u8; 32])> = Vec::new();
    let mut i: usize = 0;
    while i < sorted_ids.len()
        invariant
            i <= sorted_ids@.len(),
            keys@.len() == i,
            forall|j: int| 0 <= j < i ==> #[trigger] keys@[j] == voter_key(*prev_block_hash, sorted_ids@[j]),
        decreases sorted_ids@.len() - i,
    {
        let id = sorted_ids[i];
        let score = ticket_lottery_score(prev_block_hash, &id);
        keys.push((score, id));
        i = i + 1;
    }
    let ghost ks = keys@;
    proof {
        assert forall|a: int, b: int| 0 <= a < b < ks.len() implies ks[a].1 != ks[b].1 by {
            assert(seq_lt(sorted_ids@[a]@, sorted_ids@[b]@));
            if ks[a].1 == ks[b].1 {
                lemma_seq_lt_irreflexive(sorted_ids@[a]@);
            }
        }
    }
    let sorted = sort_keys_desc(keys);
    let n = sorted.len();
    let count = if n < VOTERS_PER_BLOCK { n } else { VOTERS_PER_BLOCK };
    let mut r: Vec<[u8; 32]> = Vec::new();
    let mut k: usize = 0;
    while k < count
        invariant
            n == sorted@.len(),
            count <= n,
            k <= count,
            r@.len() == k,
            forall|j: int| 0 <= j < k ==> #[trigger] r@[j] == sorted@[j].1,
        decreases count - k,
    {
        r.push(sorted[k].1);
        k = k + 1;
    }
    proof {
        assert forall|j: int| 0 <= j < ks.len() implies #[trigger] ks[j] == voter_key(*prev_block_hash, ks[j].1) && dom.contains(ks[j].1) by {
        }
        assert forall|j: int| 0 <= j < n implies #[trigger] sorted@[j] == voter_key(*prev_block_hash, sorted@[j].1) && dom.contains(sorted@[j].1) by {
            assert(ks.contains(sorted@[j]));
        }
        assert forall|i: int| 0 <= i < r@.len() implies dom.contains(#[trigger] r@[i]) by {
            assert(sorted@[i] == voter_key(*prev_block_hash, sorted@[i].1));
        }
        assert forall|a: int, b: int| 0 <= a < b < r@.len() implies key_lt(voter_key(*prev_block_hash, r@[b]), voter_key(*prev_block_hash, r@[a])) by {
            assert(sorted@[a] == voter_key(*prev_block_hash, sorted@[a].1));
            assert(sorted@[b] == voter_key(*prev_block_hash, sorted@[b].1));
        }
        assert forall|id: [u8; 32], i: int| #[trigger] dom.contains(id) && !r@.contains(id) && 0 <= i < r@.len()
            implies key_lt(voter_key(*prev_block_hash, id), voter_key(*prev_block_hash, #[trigger] r@[i])) by {
            assert(sorted_ids@.contains(id));
            let q = choose|q: int| 0 <= q < sorted_ids@.len() && sorted_ids@[q] == id;
            assert(ks[q] == voter_key(*prev_block_hash, id));
            assert(sorted@.contains(ks[q]));
            let z = choose|z: int| 0 <= z < n && sorted@[z] == ks[q];
            if z < count {
                assert(r@[z] == id);
            }
            assert(sorted@[i] == voter_key(*prev_block_hash, sorted@[i].1));
            assert(z > i);
        }
    }
    r
}

/// The ticket price a chain starts with.
pub const INITIAL_TICKET_PRICE: u64 = 100_000_000;

/// The highest ticket price.
pub const MAX_TICKET_PRICE: u64 = 1_000_000_000;

/// The lowest ticket price.
pub const MIN_TICKET_PRICE: u64 = 10_000_000;

/// How many blocks a ticket price holds.
pub const TICKET_PRICE_ADJUSTMENT_PERIOD: u64 = 2016;

/// The ticket price at `height`: the initial price at genesis; the last price between
/// adjustments; at each adjustment the last price times `1 + 0.05 * (n - 20000) / 20000`
/// for an average of `n` live tickets, rounded to the nearest integer (halves up) and
/// held within the lowest and highest prices.
pub open spec fn ticket_price(height: u64, last_price: u64, avg_live_tickets: int) -> int {
    if height == 0 {
        INITIAL_TICKET_PRICE as int
    } else if height % TICKET_PRICE_ADJUSTMENT_PERIOD != 0 {
        last_price as int
    } else {
        let p = (last_price * (380000 + avg_live_tickets) + 200000) / 400000;
        if p > MAX_TICKET_PRICE {
            MAX_TICKET_PRICE as int
        } else if p < MIN_TICKET_PRICE {
            MIN_TICKET_PRICE as int
        } else {
            p
        }
    }
}

/// The ticket price at a height, as `ticket_price` states.
pub fn calculate_new_ticket_price(current_block_height: u64, last_ticket_price: u64, avg_live_tickets_count: usize) -> (r: u64)
    ensures
        r == ticket_price(current_block_height, last_ticket_price, avg_live_tickets_count as int),
{
    if current_block_height == 0 {
        return INITIAL_TICKET_PRICE;
    }
    if current_block_height % TICKET_PRICE_ADJUSTMENT_PERIOD != 0 {
        return last_ticket_price;
    }
    let factor: u128 = 380000u128 + avg_live_tickets_count as u128;
    let p: u128 = match (last_ticket_price as u128).checked_mul(factor) {
        Some(prod) => match prod.checked_add(200000) {
            Some(num) => num / 400000,
            None => {
                return MAX_TICKET_PRICE;
            },
        },
        None => {
            return MAX_TICKET_PRICE;
        },
    };
    if p > MAX_TICKET_PRICE as u128 {
        MAX_TICKET_PRICE
    } else if p < MIN_TICKET_PRICE as u128 {
        MIN_TICKET_PRICE
    } else {
        p as u64
    }
}

/// At an adjustment height, more live tickets never lower the price.
pub proof fn law_ticket_price_monotone(height: u64, last_price: u64, n1: nat, n2: nat)
    requires
        n1 <= n2,
    ensures
        ticket_price(height, last_price, n1 as int) <= ticket_price(height, last_price, n2 as int),
{
    let a = last_price * (380000 + n1) + 200000;
    let b = last_price * (380000 + n2) + 200000;
    assert(a <= b) by (nonlinear_arith)
        requires
            a == last_price * (380000 + n1) + 200000,
            b == last_price * (380000 + n2) + 200000,
            n1 <= n2,
            last_price >= 0,
    ;
    assert(a / 400000 <= b / 400000) by (nonlinear_arith)
        requires
            0 <= a <= b,
    ;
}

/// Whatever the inputs, the price lies between the lowest and highest prices, unless it
/// is the last price carried over between adjustments.
pub proof fn law_ticket_price_bounded(height: u64, last_price: u64, n: nat)
    requires
        height == 0 || height % TICKET_PRICE_ADJUSTMENT_PERIOD == 0,
    ensures
        MIN_TICKET_PRICE <= ticket_price(height, last_price, n as int) <= MAX_TICKET_PRICE,
{
}

/// How many valid votes a block needs.
pub const MIN_VALID_VOTES_REQUIRED: usize = 3;

/// Validates the stake votes of a block from its header alone: the header carries no
/// votes, so no vote counts and the block is refused.
pub fn validate_pos_block(_block_header: &crate::types::BlockHeader, prev_block_hash: &[u8; 32], live_tickets_pool: &LiveTicketsPool) -> (r: bool)
    ensures
        r == false,
{
    let _expected_voters = select_voters(prev_block_hash, live_tickets_pool);
    let valid_votes_count: usize = 0;
    if valid_votes_count < MIN_VALID_VOTES_REQUIRED {
        return false;
    }
    true
}

/// The stake reward of a block: one coin.
pub fn calculate_pos_reward(_block_height: u32) -> (r: u64)
    ensures
        r == 100_000_000,
{
    100_000_000
}

impl LiveTicketsPool {
    /// Accepts a non-participation proof against a registered masternode.
    pub fn validate_non_participation_proof(&self, proof: &MasternodeNonParticipationProof, masternode_list: &MasternodeList) -> (r: Result<(), ConsensusError>)
        ensures
            masternode_list@.contains(proof.masternode_id) ==> r is Ok,
            !masternode_list@.contains(proof.masternode_id) ==> (r matches Err(ConsensusError::MasternodeError(m))
                && m@ == "Masternode not found for non-participation proof."@),
    {
        if !masternode_list.get_masternode(&proof.masternode_id) {
            return Err(ConsensusError::MasternodeError(message("Masternode not found for non-participation proof.")));
        }
        Ok(())
    }

    /// Accepts a malicious-behaviour proof against a registered masternode.
    pub fn validate_malicious_proof(&self, proof: &MasternodeMaliciousProof, masternode_list: &MasternodeList) -> (r: Result<(), ConsensusError>)
        ensures
            masternode_list@.contains(proof.masternode_id) ==> r is Ok,
            !masternode_list@.contains(proof.masternode_id) ==> (r matches Err(ConsensusError::MasternodeError(m))
                && m@ == "Masternode not found for malicious proof."@),
    {
        if !masternode_list.get_masternode(&proof.masternode_id) {
            return Err(ConsensusError::MasternodeError(message("Masternode not found for malicious proof.")));
        }
        Ok(())
    }
}

/// A ticket added under an id the pool did not hold is found again under its id, and
/// removing it gives back the pool there was.
pub proof fn law_ticket_remove_undoes_add(m: Map<[u8; 32], TicketModel>, t: TicketModel)
    requires
        !m.dom().contains(t.id),
    ensures
        m.insert(t.id, t).dom().contains(t.id),
        m.insert(t.id, t)[t.id] == t,
        m.insert(t.id, t).remove(t.id) == m,
{
    assert(m.insert(t.id, t).remove(t.id) =~= m);
}

/// The tickets chosen to vote on a block are distinct.
pub proof fn law_voters_distinct(live: Set<[u8; 32]>, prev_block_hash: [u8; 32], r: Seq<[u8; 32]>)
    requires
        voters_selected(live, prev_block_hash, r),
    ensures
        r.no_duplicates(),
{
    assert forall|i: int, j: int| 0 <= i < r.len() && 0 <= j < r.len() && i != j implies r[i] != r[j] by {
        if r[i] == r[j] {
            if i < j {
                assert(key_lt(voter_key(prev_block_hash, r[j]), voter_key(prev_block_hash, r[i])));
            } else {
                assert(key_lt(voter_key(prev_block_hash, r[i]), voter_key(prev_block_hash, r[j])));
            }
            lemma_key_lt_irreflexive(voter_key(prev_block_hash, r[i]));
        }
    }
}

} // verus!
