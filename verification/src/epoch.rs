//! The epoch state: the set that validates now and the set that collects
//! tickets for the next epoch.

use vstd::prelude::*;
use vstd::slice::slice_to_vec;
use crate::digest::NextEpochDescriptor;
use crate::primitives::{AuthorityId, AuthorityWeight, Randomness, Slot, VrfProof};

verus! {

/// Validator set of one epoch. It is either publishing or validating.
#[derive(Debug, Clone, PartialEq, Eq)]
pub struct ValidatorSet {
    /// Proofs of all ticket VRFs collected, in the order of their indices.
    pub proofs: Vec<VrfProof>,
    /// The authorities and their weights, in the order of their indices.
    pub authorities: Vec<(AuthorityId, AuthorityWeight)>,
    /// Randomness of the epoch in which the set validates.
    pub randomness: Randomness,
}

/// A validator set as a mathematical value.
pub struct ValidatorSetView {
    pub proofs: Seq<VrfProof>,
    pub authorities: Seq<(AuthorityId, AuthorityWeight)>,
    pub randomness: Randomness,
}

impl View for ValidatorSet {
    type V = ValidatorSetView;

    open spec fn view(&self) -> ValidatorSetView {
        ValidatorSetView {
            proofs: self.proofs@,
            authorities: self.authorities@,
            randomness: self.randomness,
        }
    }
}

/// State of an epoch.
#[derive(Debug, Clone, PartialEq, Eq)]
pub struct Epoch {
    /// First slot of the epoch.
    pub start_slot: Slot,
    /// Number of slots of the epoch.
    pub duration: Slot,
    /// Index of the epoch.
    pub epoch_index: u64,
    /// The set that validates blocks in the next epoch. In this epoch it
    /// only collects ticket commitments.
    pub publishing: ValidatorSet,
    /// The set that validates blocks in this epoch.
    pub validating: ValidatorSet,
}

/// An epoch as a mathematical value.
pub struct EpochView {
    pub start_slot: Slot,
    pub duration: Slot,
    pub epoch_index: u64,
    pub publishing: ValidatorSetView,
    pub validating: ValidatorSetView,
}

impl View for Epoch {
    type V = EpochView;

    open spec fn view(&self) -> EpochView {
        EpochView {
            start_slot: self.start_slot,
            duration: self.duration,
            epoch_index: self.epoch_index,
            publishing: self.publishing@,
            validating: self.validating@,
        }
    }
}

impl ValidatorSetView {
    /// A set can sign blocks only if it has an authority.
    pub open spec fn wf(self) -> bool {
        self.authorities.len() > 0
    }

    /// The set with further proofs committed behind those that it holds.
    pub open spec fn commit_tickets(self, commitments: Seq<VrfProof>) -> ValidatorSetView {
        ValidatorSetView { proofs: self.proofs + commitments, ..self }
    }

    /// The set with its proofs in outside-in order.
    pub open spec fn outside_in(self) -> ValidatorSetView {
        ValidatorSetView { proofs: spec_outside_in(self.proofs), ..self }
    }
}

impl EpochView {
    /// The epoch covers at least one slot, and its last slot is a slot
    /// number.
    pub open spec fn wf(self) -> bool {
        &&& self.duration > 0
        &&& self.start_slot + self.duration <= u64::MAX
    }

    /// Both sets of a well-formed epoch have an authority.
    pub open spec fn wf_sets(self) -> bool {
        &&& self.wf()
        &&& self.validating.wf()
        &&& self.publishing.wf()
    }

    /// The first slot after the epoch.
    pub open spec fn end_slot(self) -> int {
        self.start_slot + self.duration
    }

    /// The epoch can be followed by another: index and first slot of the
    /// next epoch are numbers of 64 bits.
    pub open spec fn can_increment(self) -> bool {
        &&& self.epoch_index < u64::MAX
        &&& self.start_slot + self.duration <= u64::MAX
    }

    /// The epoch that follows, once `descriptor` has announced it: the
    /// publishing set starts to validate, and the announced set starts to
    /// publish, with no ticket yet.
    pub open spec fn increment(self, descriptor: NextEpochDescriptor) -> EpochView {
        EpochView {
            epoch_index: (self.epoch_index + 1) as u64,
            start_slot: (self.start_slot + self.duration) as u64,
            duration: self.duration,
            validating: self.publishing,
            publishing: ValidatorSetView {
                proofs: Seq::empty(),
                authorities: descriptor.authorities@,
                randomness: descriptor.randomness,
            },
        }
    }

    /// The epoch with further ticket proofs committed to its publishing set.
    pub open spec fn commit_tickets(self, commitments: Seq<VrfProof>) -> EpochView {
        EpochView { publishing: self.publishing.commit_tickets(commitments), ..self }
    }

    /// The epoch after a rotation: the epoch that follows, with the tickets
    /// of its validating set in outside-in order.
    pub open spec fn rotate(self, descriptor: NextEpochDescriptor) -> EpochView {
        let next = self.increment(descriptor);
        EpochView { validating: next.validating.outside_in(), ..next }
    }
}

/// The index that stands at position `k` of the outside-in order of `len`
/// items: `0, len - 1, 1, len - 2, 2, ...`.
pub open spec fn outside_in_index(len: int, k: int) -> int {
    if k % 2 == 0 {
        k / 2
    } else {
        len - 1 - k / 2
    }
}

/// The position at which index `i` stands in the outside-in order of `len`
/// items.
pub open spec fn outside_in_position(len: int, i: int) -> int {
    if 2 * i < len {
        2 * i
    } else {
        2 * (len - 1 - i) + 1
    }
}

/// A sequence in outside-in order: first item, last item, second item, last
/// but one, and so on towards the middle.
pub open spec fn spec_outside_in<T>(items: Seq<T>) -> Seq<T> {
    Seq::new(items.len(), |k: int| items[outside_in_index(items.len() as int, k)])
}

/// The outside-in order is a rearrangement: every position takes an index
/// of the sequence, and every index stands at exactly one position.
pub proof fn lemma_outside_in_rearranges(len: int, k: int, i: int)
    requires
        0 <= k < len,
        0 <= i < len,
    ensures
        0 <= outside_in_index(len, k) < len,
        0 <= outside_in_position(len, i) < len,
        outside_in_position(len, outside_in_index(len, k)) == k,
        outside_in_index(len, outside_in_position(len, i)) == i,
{
}

/// Nothing is lost or gained by the outside-in order: the item of index `i`
/// is found at its position, and the result is as long as the sequence.
pub proof fn lemma_outside_in_keeps_items<T>(items: Seq<T>, i: int)
    requires
        0 <= i < items.len(),
    ensures
        spec_outside_in(items).len() == items.len(),
        spec_outside_in(items)[outside_in_position(items.len() as int, i)] == items[i],
{
    lemma_outside_in_rearranges(items.len() as int, 0, i);
}

/// The outside-in order of a sequence of two or more items starts with its
/// first and its last item and goes on with the outside-in order of what
/// lies between them.
pub proof fn lemma_outside_in_unfolds<T>(items: Seq<T>)
    requires
        items.len() >= 2,
    ensures
        spec_outside_in(items) == seq![items.first(), items.last()] + spec_outside_in(
            items.subrange(1, items.len() - 1),
        ),
{
    let len = items.len() as int;
    let inner = items.subrange(1, len - 1);
    let unfolded = seq![items.first(), items.last()] + spec_outside_in(inner);
    assert forall|k: int| 0 <= k < len implies spec_outside_in(items)[k] == unfolded[k] by {
        if k >= 2 {
            assert(unfolded[k] == spec_outside_in(inner)[k - 2]);
            assert(outside_in_index(len, k) == 1 + outside_in_index(len - 2, k - 2));
        }
    }
    assert(spec_outside_in(items) =~= unfolded);
}

/// The outside-in order is a permutation: it holds every item as often as
/// the sequence does.
pub proof fn lemma_outside_in_is_permutation<T>(items: Seq<T>)
    ensures
        spec_outside_in(items).to_multiset() == items.to_multiset(),
    decreases items.len(),
{
    if items.len() < 2 {
        assert(spec_outside_in(items) =~= items);
    } else {
        let inner = items.subrange(1, items.len() - 1);
        let first = seq![items.first()];
        let last = seq![items.last()];
        lemma_outside_in_unfolds(items);
        lemma_outside_in_is_permutation(inner);
        assert(items =~= first + inner + last);
        assert(seq![items.first(), items.last()] =~= first + last);
        vstd::seq_lib::lemma_multiset_commutative(first + inner, last);
        vstd::seq_lib::lemma_multiset_commutative(first, inner);
        vstd::seq_lib::lemma_multiset_commutative(first + last, spec_outside_in(inner));
        vstd::seq_lib::lemma_multiset_commutative(first, last);
        assert(spec_outside_in(items).to_multiset() =~= items.to_multiset());
    }
}

/// Arranges items in outside-in order.
pub fn outside_in<T: Copy>(items: &Vec<T>) -> (res: Vec<T>)
    ensures
        res@ == spec_outside_in(items@),
{
    let len = items.len();
    let mut res: Vec<T> = Vec::new();
    let mut k: usize = 0;
    while k < len
        invariant
            k <= len,
            len == items.len(),
            res@.len() == k,
            forall|j: int| 0 <= j < k ==> res@[j] == items@[outside_in_index(len as int, j)],
        decreases len - k,
    {
        let index = if k % 2 == 0 {
            k / 2
        } else {
            len - 1 - k / 2
        };
        res.push(items[index]);
        k += 1;
    }
    res
}

impl ValidatorSet {
    /// A copy of the set.
    pub fn duplicate(&self) -> (res: ValidatorSet)
        ensures
            res@ == self@,
    {
        ValidatorSet {
            proofs: slice_to_vec(self.proofs.as_slice()),
            authorities: slice_to_vec(self.authorities.as_slice()),
            randomness: self.randomness,
        }
    }
}

impl Epoch {
    /// Whether the epoch can be followed by another: index and first slot of
    /// the next epoch are numbers of 64 bits.
    pub fn can_increment(&self) -> (res: bool)
        ensures
            res == self@.can_increment(),
    {
        self.epoch_index < u64::MAX && self.start_slot <= u64::MAX - self.duration
    }

    /// A copy of the epoch.
    pub fn duplicate(&self) -> (res: Epoch)
        ensures
            res@ == self@,
    {
        Epoch {
            start_slot: self.start_slot,
            duration: self.duration,
            epoch_index: self.epoch_index,
            publishing: self.publishing.duplicate(),
            validating: self.validating.duplicate(),
        }
    }

    /// The epoch that follows this one, once `descriptor` has announced it.
    ///
    /// The counters of the next epoch must be numbers of 64 bits.
    pub fn increment(&self, descriptor: NextEpochDescriptor) -> (res: Epoch)
        requires
            self@.can_increment(),
        ensures
            res@ == self@.increment(descriptor),
            res.epoch_index == self.epoch_index + 1,
            res.start_slot == self.start_slot + self.duration,
    {
        Epoch {
            epoch_index: self.epoch_index + 1,
            start_slot: self.start_slot + self.duration,
            duration: self.duration,
            validating: self.publishing.duplicate(),
            publishing: ValidatorSet {
                proofs: Vec::new(),
                authorities: descriptor.authorities,
                randomness: descriptor.randomness,
            },
        }
    }

    /// First slot of the epoch.
    pub fn start_slot(&self) -> (res: Slot)
        ensures
            res == self.start_slot,
    {
        self.start_slot
    }

    /// First slot after the epoch.
    pub fn end_slot(&self) -> (res: Slot)
        requires
            self.start_slot + self.duration <= u64::MAX,
        ensures
            res == self@.end_slot(),
    {
        self.start_slot + self.duration
    }

    /// Commits further ticket proofs to the publishing set, behind those
    /// that it holds.
    pub fn commit_tickets(&mut self, commitments: &Vec<VrfProof>)
        ensures
            final(self)@ == old(self)@.commit_tickets(commitments@),
    {
        let mut i: usize = 0;
        while i < commitments.len()
            invariant
                i <= commitments.len(),
                self@ == old(self)@.commit_tickets(commitments@.take(i as int)),
            decreases commitments.len() - i,
        {
            self.publishing.proofs.push(commitments[i]);
            proof {
                assert(commitments@.take(i + 1) =~= commitments@.take(i as int).push(
                    commitments@[i as int],
                ));
                assert(old(self)@.publishing.proofs + commitments@.take(i + 1) =~= (old(
                    self,
                )@.publishing.proofs + commitments@.take(i as int)).push(commitments@[i as int]));
            }
            i += 1;
        }
        proof {
            assert(commitments@.take(i as int) =~= commitments@);
        }
    }

    /// Ends the epoch: the publishing set starts to validate, with its
    /// tickets in outside-in order, and the set that `descriptor` announces
    /// starts to publish.
    ///
    /// The counters of the next epoch must be numbers of 64 bits.
    pub fn rotate(self, descriptor: &NextEpochDescriptor) -> (res: Epoch)
        requires
            self@.can_increment(),
        ensures
            res@ == self@.rotate(*descriptor),
    {
        let validating = ValidatorSet {
            proofs: outside_in(&self.publishing.proofs),
            authorities: self.publishing.authorities,
            randomness: self.publishing.randomness,
        };
        Epoch {
            epoch_index: self.epoch_index + 1,
            start_slot: self.start_slot + self.duration,
            duration: self.duration,
            validating,
            publishing: ValidatorSet {
                proofs: Vec::new(),
                authorities: slice_to_vec(descriptor.authorities.as_slice()),
                randomness: descriptor.randomness,
            },
        }
    }
}

/// Rotation hands the sets on: the set that validates after a rotation has
/// the authorities and the randomness of the set that published before it
/// and the same tickets in another order, and the set that publishes after
/// it is the announced one, with no ticket.
pub proof fn lemma_rotation_hands_over(epoch: EpochView, descriptor: NextEpochDescriptor)
    ensures
        epoch.rotate(descriptor).validating.authorities == epoch.publishing.authorities,
        epoch.rotate(descriptor).validating.randomness == epoch.publishing.randomness,
        epoch.rotate(descriptor).validating.proofs == spec_outside_in(epoch.publishing.proofs),
        epoch.rotate(descriptor).validating.proofs.len() == epoch.publishing.proofs.len(),
        epoch.rotate(descriptor).validating.proofs.to_multiset()
            == epoch.publishing.proofs.to_multiset(),
        epoch.rotate(descriptor).publishing.proofs == Seq::<VrfProof>::empty(),
        epoch.rotate(descriptor).publishing.authorities == descriptor.authorities@,
        epoch.rotate(descriptor).publishing.randomness == descriptor.randomness,
        epoch.rotate(descriptor).duration == epoch.duration,
        epoch.can_increment() ==> epoch.rotate(descriptor).epoch_index == epoch.epoch_index + 1,
        epoch.can_increment() ==> epoch.rotate(descriptor).start_slot == epoch.end_slot(),
{
    lemma_outside_in_is_permutation(epoch.publishing.proofs);
}

} // verus!
