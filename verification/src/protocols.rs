//! Authorized protocol sets for one bridge endpoint.
//!
//! [`XcallManager`] keeps the multiset of inbound verification sources and
//! the list of outbound destinations, together with the single-slot
//! "proposed removal" recovery path.  Attestation checks are
//! order-independent: two protocol lists match exactly when they carry the
//! same identifiers with the same multiplicities.  (A scan that does not
//! remove matched elements would accept `[x, x]` against `[x, y]`; the
//! strict multiset comparison here does not.)

use vstd::multiset::Multiset;
use vstd::prelude::*;
use vstd::seq_lib::lemma_multiset_commutative;

use crate::errors::ContractError;

verus! {

broadcast use
    vstd::seq_lib::group_to_multiset_ensures,
    vstd::multiset::group_multiset_axioms,
;

/// The identifier sequences a list of protocol strings denotes.
pub open spec fn views_of(list: Seq<String>) -> Seq<Seq<char>> {
    Seq::new(list.len(), |i: int| list[i]@)
}

/// The multiset of identifiers a list of protocol strings denotes; the
/// unit attestation checks compare in.
pub open spec fn protocol_multiset(list: Seq<String>) -> Multiset<Seq<char>> {
    views_of(list).to_multiset()
}

/// Pushing a protocol string appends its identifier to the views.
proof fn lemma_views_of_push(list: Seq<String>, x: String)
    ensures
        views_of(list.push(x)) == views_of(list).push(x@),
{
    assert(views_of(list.push(x)) =~= views_of(list).push(x@)) by {
        assert forall|k: int| 0 <= k < list.len() + 1 implies views_of(list.push(x))[k]
            == views_of(list).push(x@)[k] by {
            if k < list.len() {
                assert(list.push(x)[k] == list[k]);
            } else {
                assert(list.push(x)[k] == x);
            }
        }
    }
}

/// Removing a protocol string removes its identifier from the views.
proof fn lemma_views_of_remove(list: Seq<String>, j: int)
    requires
        0 <= j < list.len(),
    ensures
        views_of(list.remove(j)) == views_of(list).remove(j),
{
    list.remove_ensures(j);
    views_of(list).remove_ensures(j);
    assert(views_of(list.remove(j)) =~= views_of(list).remove(j));
}

/// The predicate that keeps every identifier other than `removed`.
pub open spec fn keeps(removed: Seq<char>) -> spec_fn(Seq<char>) -> bool {
    |s: Seq<char>| s != removed
}

/// The protocol configuration of one bridge endpoint.
pub struct XcallManager {
    /// Identity of the remote governance; only instructions from it may
    /// reconfigure the protocol sets.
    pub icon_governance: String,
    /// Protocol identifiers that must have attested an inbound message.
    pub sources: Vec<String>,
    /// Remote identifiers outbound messages are routed through.
    pub destinations: Vec<String>,
    /// At most one protocol pending removal from `sources`; overwritten,
    /// never accumulated.  The slot is not cleared when `sources` is
    /// reconfigured.
    pub proposed_removal: Option<String>,
}

/// First position of `protocol` in `list`, if any.
fn position_of(list: &Vec<String>, protocol: &String) -> (r: Option<usize>)
    ensures
        match r {
            Some(j) => j < list.len() && list@[j as int]@ == protocol@,
            None => forall|k: int| 0 <= k < list@.len() ==> list@[k]@ != protocol@,
        },
{
    let mut j: usize = 0;
    while j < list.len()
        invariant
            j <= list.len(),
            forall|k: int| 0 <= k < j ==> list@[k]@ != protocol@,
        decreases list.len() - j,
    {
        if list[j].eq(protocol) {
            return Some(j);
        }
        j += 1;
    }
    None
}

impl XcallManager {
    /// A fresh endpoint configuration: the given governance identity and
    /// protocol sets, with no removal pending.
    pub fn initialize(
        icon_governance: String,
        sources: Vec<String>,
        destinations: Vec<String>,
    ) -> (r: XcallManager)
        ensures
            r.icon_governance == icon_governance,
            r.sources == sources,
            r.destinations == destinations,
            r.proposed_removal is None,
    {
        XcallManager { icon_governance, sources, destinations, proposed_removal: None }
    }

    /// Atomically replace both protocol lists.  (The caller is in charge
    /// of authorizing the administrator.)  A pending removal proposal is
    /// left as it is.
    pub fn configure(&mut self, sources: Vec<String>, destinations: Vec<String>)
        ensures
            final(self).sources == sources,
            final(self).destinations == destinations,
            final(self).icon_governance == old(self).icon_governance,
            final(self).proposed_removal == old(self).proposed_removal,
    {
        self.sources = sources;
        self.destinations = destinations;
    }

    /// The configured source and destination lists, in storage order.
    pub fn get_protocols(&self) -> (r: (Vec<String>, Vec<String>))
        ensures
            views_of(r.0@) == views_of(self.sources@),
            views_of(r.1@) == views_of(self.destinations@),
    {
        (clone_protocol_list(&self.sources), clone_protocol_list(&self.destinations))
    }

    /// Overwrite the single pending-removal slot.  (Administrator-only;
    /// the caller authorizes.)
    pub fn propose_removal(&mut self, protocol: String)
        ensures
            *final(self) == (XcallManager { proposed_removal: Some(protocol), ..*old(self) }),
    {
        self.proposed_removal = Some(protocol);
    }

    /// The protocol pending removal, if one has been proposed.
    pub fn get_proposed_removal(&self) -> (r: Option<String>)
        ensures
            r matches Some(p) ==> self.proposed_removal matches Some(q) && p@ == q@,
            r is None <==> self.proposed_removal is None,
    {
        match &self.proposed_removal {
            Some(p) => Some(p.clone()),
            None => None,
        }
    }

    /// What `get_modified_protocols` returns: the configured sources
    /// without the protocol pending removal.  Meaningful only while a
    /// removal is pending.
    pub open spec fn modified_sources(self) -> Seq<Seq<char>> {
        views_of(self.sources@).filter(keeps(self.proposed_removal->0@))
    }

    /// `sources` with every occurrence of the pending-removal identifier
    /// filtered out; fails when no removal is pending.
    pub fn get_modified_protocols(&self) -> (r: Result<Vec<String>, ContractError>)
        ensures
            r is Ok <==> self.proposed_removal is Some,
            r matches Err(e) ==> e == ContractError::NoProposalForRemovalExists,
            r matches Ok(v) ==> views_of(v@) == self.modified_sources(),
    {
        let removed = match &self.proposed_removal {
            Some(p) => p,
            None => {
                return Err(ContractError::NoProposalForRemovalExists);
            },
        };
        let ghost pred = keeps(removed@);
        let full = &self.sources;
        let mut kept: Vec<String> = Vec::new();
        let mut i: usize = 0;
        while i < full.len()
            invariant
                i <= full.len(),
                pred == keeps(removed@),
                views_of(kept@) == views_of(full@).take(i as int).filter(pred),
            decreases full.len() - i,
        {
            let ghost prefix = views_of(full@).take(i as int);
            let ghost kept_before = kept@;
            let s = &full[i];
            proof {
                assert(views_of(full@).take(i + 1) =~= prefix.push(s@));
                prefix.lemma_filter_push(s@, pred);
            }
            if !s.eq(removed) {
                kept.push(s.clone());
                proof {
                    lemma_views_of_push(kept_before, full@[i as int]);
                }
            }
            i += 1;
        }
        proof {
            assert(views_of(full@).take(full@.len() as int) =~= views_of(full@));
        }
        Ok(kept)
    }

    /// Order-independent comparison of two protocol lists: true exactly
    /// when they denote the same multiset of identifiers.
    pub fn verify_protocols_unordered(array1: &Vec<String>, array2: &Vec<String>) -> (r: bool)
        ensures
            r <==> protocol_multiset(array1@) == protocol_multiset(array2@),
    {
        let ghost a = views_of(array1@);
        let ghost b = views_of(array2@);
        if array1.len() != array2.len() {
            proof {
                assert(a.to_multiset().len() != b.to_multiset().len());
            }
            return false;
        }
        let mut remaining = clone_protocol_list(array2);
        let mut i: usize = 0;
        while i < array1.len()
            invariant
                i <= array1.len(),
                views_of(array1@) == a,
                views_of(array2@) == b,
                a.len() == b.len(),
                remaining@.len() + i == array2@.len(),
                b.to_multiset() == views_of(remaining@).to_multiset().add(
                    a.take(i as int).to_multiset(),
                ),
            decreases array1.len() - i,
        {
            let ghost prefix = a.take(i as int);
            let ghost rem_before = views_of(remaining@);
            let p = &array1[i];
            proof {
                assert(p@ == a[i as int]);
                assert(a.take(i + 1) =~= prefix.push(a[i as int]));
            }
            match position_of(&remaining, p) {
                Some(j) => {
                    let ghost rem_seq = remaining@;
                    let _ = remaining.remove(j);
                    proof {
                        assert(rem_before[j as int] == p@);
                        assert(rem_before.contains(p@));
                        lemma_views_of_remove(rem_seq, j as int);
                        assert(views_of(remaining@).to_multiset() == rem_before.to_multiset()
                            .remove(p@));
                        assert(b.to_multiset() =~= views_of(remaining@).to_multiset().add(
                            a.take(i + 1).to_multiset(),
                        ));
                    }
                },
                None => {
                    proof {
                        assert forall|k: int| 0 <= k < rem_before.len() implies rem_before[k]
                            != p@ by {
                            assert(remaining@[k]@ != p@);
                        }
                        assert(!rem_before.contains(p@));
                        assert(rem_before.to_multiset().count(p@) == 0);
                        assert(a =~= prefix + a.skip(i as int));
                        lemma_multiset_commutative(prefix, a.skip(i as int));
                        assert(a.skip(i as int).contains(p@)) by {
                            assert(a.skip(i as int)[0] == a[i as int]);
                        }
                        assert(a.to_multiset().count(p@) > b.to_multiset().count(p@));
                    }
                    return false;
                },
            }
            i += 1;
        }
        proof {
            assert(a.take(a.len() as int) =~= a);
            assert(views_of(remaining@).to_multiset().len() == 0);
            vstd::multiset::lemma_multiset_empty_len(views_of(remaining@).to_multiset());
            assert(b.to_multiset() =~= a.to_multiset());
        }
        true
    }

    /// True exactly when `protocols` matches the configured sources as a
    /// multiset.
    pub fn verify_protocols(&self, protocols: &Vec<String>) -> (r: bool)
        ensures
            r <==> protocol_multiset(protocols@) == protocol_multiset(self.sources@),
    {
        Self::verify_protocols_unordered(protocols, &self.sources)
    }

    /// Accept an attestation against the pre-removal protocol set: passes
    /// exactly when a removal is pending and `protocols` matches the
    /// sources with the pending protocol filtered out.
    pub fn verify_protocol_recovery(&self, protocols: &Vec<String>) -> (r: Result<
        (),
        ContractError,
    >)
        ensures
            r == (if self.proposed_removal is None {
                Err::<(), ContractError>(ContractError::NoProposalForRemovalExists)
            } else if self.modified_sources().to_multiset() != protocol_multiset(protocols@) {
                Err::<(), ContractError>(ContractError::ProtocolMismatch)
            } else {
                Ok::<(), ContractError>(())
            }),
    {
        let modified = match self.get_modified_protocols() {
            Ok(v) => v,
            Err(e) => {
                return Err(e);
            },
        };
        if Self::verify_protocols_unordered(&modified, protocols) {
            Ok(())
        } else {
            Err(ContractError::ProtocolMismatch)
        }
    }
}

/// An element-wise copy of a protocol list.
fn clone_protocol_list(list: &Vec<String>) -> (r: Vec<String>)
    ensures
        views_of(r@) == views_of(list@),
        r@.len() == list@.len(),
{
    let mut out: Vec<String> = Vec::new();
    let mut i: usize = 0;
    while i < list.len()
        invariant
            i <= list.len(),
            views_of(out@) == views_of(list@).take(i as int),
        decreases list.len() - i,
    {
        let ghost out_before = out@;
        out.push(list[i].clone());
        proof {
            lemma_views_of_push(out_before, list@[i as int]);
            assert(views_of(list@).take(i + 1) =~= views_of(list@).take(i as int).push(
                list@[i as int]@,
            ));
        }
        i += 1;
    }
    proof {
        assert(views_of(list@).take(list@.len() as int) =~= views_of(list@));
    }
    out
}

} // verus!
