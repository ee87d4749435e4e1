//! The decisions that the MLS client, agent and server take about groups:
//! which certificate types may run a client or edit a group, which members a
//! group must contain, and which application messages are accepted in which
//! group from which sender.

use vstd::prelude::*;

use crate::certificate::{bytes_eq, Certificate, UnverifiedCertificate};
use crate::certificate_type::CertificateType;
use crate::mls::group_id::{GroupIdView, SvalinGroupId};
use crate::mls::transport_types::{hash_views, other_than};
use crate::spki_hash::SpkiHash;

verus! {

/// Whether certificates of type `t` may run an MLS client and edit groups
/// (roots, users and user devices).
pub open spec fn spec_may_edit(t: CertificateType) -> bool {
    t == CertificateType::Root || t == CertificateType::User || t == CertificateType::UserDevice
}

/// A certificate type that may not change the membership of a group.
#[derive(Debug)]
pub struct EditNotAllowed {
    pub group_id: SvalinGroupId,
    pub certificate_type: CertificateType,
}

/// Checks that a member with a certificate of `certificate_type` may add or
/// remove members of `group_id`.
pub fn check_edit_allowed(group_id: &SvalinGroupId, certificate_type: CertificateType) -> (r: Result<(), EditNotAllowed>)
    ensures
        spec_may_edit(certificate_type) <==> r is Ok,
        r is Ok <==> (certificate_type == CertificateType::Root || certificate_type == CertificateType::User
            || certificate_type == CertificateType::UserDevice),
        r is Err ==> r->Err_0.group_id@ == group_id@ && r->Err_0.certificate_type == certificate_type,
{
    match certificate_type {
        CertificateType::Root => Ok(()),
        CertificateType::User => Ok(()),
        CertificateType::UserDevice => Ok(()),
        _ => Err(EditNotAllowed { group_id: *group_id, certificate_type }),
    }
}

/// A client was started with a certificate that may not run one.
#[derive(Debug)]
pub enum CreateClientError {
    WrongCertificateType(CertificateType),
}

/// Checks that a certificate of type `certificate_type` may run an MLS client.
pub fn check_client_certificate_type(certificate_type: CertificateType) -> (r: Result<(), CreateClientError>)
    ensures
        spec_may_edit(certificate_type) <==> r is Ok,
        r is Ok <==> (certificate_type == CertificateType::Root || certificate_type == CertificateType::User
            || certificate_type == CertificateType::UserDevice),
        r is Err ==> r->Err_0 == CreateClientError::WrongCertificateType(certificate_type),
{
    match certificate_type {
        CertificateType::Root => Ok(()),
        CertificateType::User => Ok(()),
        CertificateType::UserDevice => Ok(()),
        cert_type => Err(CreateClientError::WrongCertificateType(cert_type)),
    }
}

/// Whether a member added to a group may hold a certificate of type `t`
/// (users and user devices).
pub open spec fn spec_may_be_added(t: CertificateType) -> bool {
    t == CertificateType::User || t == CertificateType::UserDevice
}

/// Checks the certificate type of a member that a commit adds.
pub fn check_added_member_type(certificate_type: CertificateType) -> (r: Result<(), CertificateType>)
    ensures
        spec_may_be_added(certificate_type) <==> r is Ok,
        r is Ok <==> (certificate_type == CertificateType::User || certificate_type == CertificateType::UserDevice),
        r is Err ==> r->Err_0 == certificate_type,
{
    match certificate_type {
        CertificateType::User => Ok(()),
        CertificateType::UserDevice => Ok(()),
        t => Err(t),
    }
}

/// Whether a device group or device meta group may belong to a certificate
/// of type `t` (agents only).
pub open spec fn spec_owns_device_groups(t: CertificateType) -> bool {
    t == CertificateType::Agent
}

/// Checks that the device named by a device (meta) group is an agent.
pub fn check_device_group_owner(certificate_type: CertificateType) -> (r: bool)
    ensures
        r == spec_owns_device_groups(certificate_type),
        r <==> certificate_type == CertificateType::Agent,
{
    certificate_type == CertificateType::Agent
}

/// The SPKI hash of the user behind a key package's certificate: the issuer
/// of a user-device certificate, the certificate's own hash otherwise.
pub fn user_spki_hash(certificate: &Certificate) -> (r: &SpkiHash)
    ensures
        certificate@.certificate_type == CertificateType::UserDevice ==> r@ == certificate@.issuer,
        certificate@.certificate_type != CertificateType::UserDevice ==> r@ == certificate@.spki_hash,
{
    if certificate.certificate_type() == CertificateType::UserDevice {
        certificate.issuer()
    } else {
        certificate.spki_hash()
    }
}

/// The first of `required` that `members` lacks, if any.
pub fn first_missing_member(required: &[SpkiHash], members: &[SpkiHash]) -> (r: Option<SpkiHash>)
    ensures
        r is None <==> forall|i: int| 0 <= i < required@.len() ==> hash_views(members@).contains(#[trigger] required@[i]@),
        r is Some ==> exists|i: int| 0 <= i < required@.len() && required@[i] == r->0
            && !hash_views(members@).contains(required@[i]@)
            && forall|j: int| 0 <= j < i ==> hash_views(members@).contains(#[trigger] required@[j]@),
{
    let mut i: usize = 0;
    while i < required.len()
        invariant
            i <= required@.len(),
            forall|j: int| 0 <= j < i ==> hash_views(members@).contains(#[trigger] required@[j]@),
        decreases required@.len() - i,
    {
        let want = required[i];
        let mut found = false;
        let mut k: usize = 0;
        while k < members.len()
            invariant
                k <= members@.len(),
                found <==> exists|j: int| 0 <= j < k && members@[j]@ == want@,
            decreases members@.len() - k,
        {
            if members[k] == want {
                found = true;
            }
            k = k + 1;
        }
        if !found {
            assert forall|j: int| 0 <= j < hash_views(members@).len() implies hash_views(members@)[j] != want@ by {
                assert(members@[j]@ == hash_views(members@)[j]);
            }
            assert(!hash_views(members@).contains(required@[i as int]@));
            return Some(want);
        }
        let ghost j = choose|j: int| 0 <= j < members@.len() && members@[j]@ == want@;
        assert(hash_views(members@)[j] == want@);
        i = i + 1;
    }
    None
}

/// The required members other than `me`, in order.
pub fn required_others(required: &[SpkiHash], me: &SpkiHash) -> (r: Vec<SpkiHash>)
    ensures
        hash_views(r@) == hash_views(required@).filter(other_than(me@)),
{
    let mut kept: Vec<SpkiHash> = Vec::new();
    let mut i: usize = 0;
    while i < required.len()
        invariant
            i <= required@.len(),
            hash_views(kept@) == hash_views(required@.subrange(0, i as int)).filter(other_than(me@)),
        decreases required@.len() - i,
    {
        let h = required[i];
        proof {
            let s = hash_views(required@.subrange(0, i as int));
            assert(hash_views(required@.subrange(0, i + 1)) =~= s.push(h@));
            s.lemma_filter_push(h@, other_than(me@));
        }
        if h != *me {
            kept.push(h);
            assert(hash_views(kept@) =~= hash_views(kept@.drop_last()).push(h@));
        }
        i = i + 1;
    }
    assert(required@.subrange(0, required@.len() as int) =~= required@);
    kept
}

/// A commit tried to remove a member that the group requires.
#[derive(Debug)]
pub struct RemoveRequiredMember {
    pub member: SpkiHash,
}

/// Checks that removing `removed` leaves every required member in the group.
pub fn check_removal_allowed(required: &[SpkiHash], removed: &SpkiHash) -> (r: Result<(), RemoveRequiredMember>)
    ensures
        !hash_views(required@).contains(removed@) <==> r is Ok,
        r is Err ==> r->Err_0.member@ == removed@,
{
    let mut i: usize = 0;
    while i < required.len()
        invariant
            i <= required@.len(),
            forall|j: int| 0 <= j < i ==> required@[j]@ != removed@,
        decreases required@.len() - i,
    {
        if required[i] == *removed {
            assert(hash_views(required@)[i as int] == removed@);
            return Err(RemoveRequiredMember { member: *removed });
        }
        i = i + 1;
    }
    assert forall|j: int| 0 <= j < hash_views(required@).len() implies hash_views(required@)[j] != removed@ by {
        assert(required@[j]@ == hash_views(required@)[j]);
    }
    Ok(())
}

/// A verified key package belongs to another key than the uploader's.
#[derive(Debug)]
pub struct SpkiHashMismatch;

/// Checks that a key package uploaded as `expected`'s is signed by that key.
pub fn check_key_package_owner(verified: &SpkiHash, expected: &SpkiHash) -> (r: Result<(), SpkiHashMismatch>)
    ensures
        (verified@ == expected@) <==> r is Ok,
{
    if *verified != *expected {
        Err(SpkiHashMismatch)
    } else {
        Ok(())
    }
}

/// An application message inside a group.
#[derive(Debug)]
pub enum SvalinMessage<Report, MetaInfo> {
    Report(Report),
    MetaInfo(MetaInfo),
}

/// What a member learned from a message.
#[derive(Debug)]
pub enum MessageDataContent<Report, MetaInfo> {
    Report(SpkiHash, Report),
    MetaInfo(SpkiHash, MetaInfo),
    Internal,
}

/// A processed message and the group it came in.
#[derive(Debug)]
pub struct MessageData<Report, MetaInfo> {
    pub group: SvalinGroupId,
    pub content: MessageDataContent<Report, MetaInfo>,
}

/// Why an application message is refused.
#[derive(Debug)]
pub enum GroupMessageError {
    InvalidMessage { group_id: SvalinGroupId },
    ForbiddenSender { group_id: SvalinGroupId },
}

/// Decides what a decrypted application message from `sender` in `group_id`
/// means: reports are accepted only in a device group and only from that
/// device; meta information only in a device meta group.
pub fn classify_group_message<Report, MetaInfo>(
    group_id: SvalinGroupId,
    sender: SpkiHash,
    decoded: SvalinMessage<Report, MetaInfo>,
) -> (r: Result<MessageData<Report, MetaInfo>, GroupMessageError>)
    ensures
        match decoded {
            SvalinMessage::Report(report) => match group_id@ {
                GroupIdView::Device(device) => if device != sender@ {
                    r matches Err(GroupMessageError::ForbiddenSender { group_id: g }) && g@ == group_id@
                } else {
                    r matches Ok(d) && d.group@ == group_id@
                        && (d.content matches MessageDataContent::Report(h, rep) && h@ == device && rep == report)
                },
                _ => r matches Err(GroupMessageError::InvalidMessage { group_id: g }) && g@ == group_id@,
            },
            SvalinMessage::MetaInfo(meta) => match group_id@ {
                GroupIdView::Meta(device) => r matches Ok(d) && d.group@ == group_id@
                    && (d.content matches MessageDataContent::MetaInfo(h, m) && h@ == device && m == meta),
                _ => r matches Err(GroupMessageError::InvalidMessage { group_id: g }) && g@ == group_id@,
            },
        },
{
    match decoded {
        SvalinMessage::Report(report) => match group_id {
            SvalinGroupId::DeviceGroup(device) => {
                if device != sender {
                    Err(GroupMessageError::ForbiddenSender { group_id })
                } else {
                    Ok(MessageData { group: group_id, content: MessageDataContent::Report(device, report) })
                }
            },
            _ => Err(GroupMessageError::InvalidMessage { group_id }),
        },
        SvalinMessage::MetaInfo(meta_info) => match group_id {
            SvalinGroupId::DeviceMetaGroup(device) => Ok(
                MessageData { group: group_id, content: MessageDataContent::MetaInfo(device, meta_info) },
            ),
            _ => Err(GroupMessageError::InvalidMessage { group_id }),
        },
    }
}

/// A proposal of a commit to remove a member: the certificate type of the
/// member that proposes it and the SPKI hash of the member removed.
#[derive(Debug)]
pub struct RemoveProposal {
    pub sender_type: CertificateType,
    pub removed: SpkiHash,
}

/// A proposal of a commit to add a member: the certificate type of the
/// member that proposes it and that of the key package added.
#[derive(Debug)]
pub struct AddProposal {
    pub sender_type: CertificateType,
    pub added_type: CertificateType,
}

/// Why a commit is refused, as the checks see it.
pub enum CommitRejection {
    EditNotAllowed(CertificateType),
    RequiredMember(Seq<u8>),
    UnexpectedMemberType(CertificateType),
}

/// The first removal that is refused: its sender may not edit the group, or
/// it removes a required member.
pub open spec fn first_removal_rejection(required: Seq<Seq<u8>>, removals: Seq<RemoveProposal>) -> Option<CommitRejection>
    decreases removals.len(),
{
    if removals.len() == 0 {
        None
    } else {
        let p = removals[0];
        if !spec_may_edit(p.sender_type) {
            Some(CommitRejection::EditNotAllowed(p.sender_type))
        } else if required.contains(p.removed@) {
            Some(CommitRejection::RequiredMember(p.removed@))
        } else {
            first_removal_rejection(required, removals.drop_first())
        }
    }
}

/// The first addition that is refused: its sender may not edit the group, or
/// the added key package is of a type that may not join.
pub open spec fn first_addition_rejection(additions: Seq<AddProposal>) -> Option<CommitRejection>
    decreases additions.len(),
{
    if additions.len() == 0 {
        None
    } else {
        let p = additions[0];
        if !spec_may_edit(p.sender_type) {
            Some(CommitRejection::EditNotAllowed(p.sender_type))
        } else if !spec_may_be_added(p.added_type) {
            Some(CommitRejection::UnexpectedMemberType(p.added_type))
        } else {
            first_addition_rejection(additions.drop_first())
        }
    }
}

/// Why a commit is refused: the removals are checked first, in order, then
/// the additions.
pub open spec fn spec_commit_rejection(required: Seq<Seq<u8>>, removals: Seq<RemoveProposal>, additions: Seq<AddProposal>) -> Option<CommitRejection> {
    match first_removal_rejection(required, removals) {
        Some(x) => Some(x),
        None => first_addition_rejection(additions),
    }
}

/// A certificate type that may propose changes to a group's members: a
/// root, a user or a user device.
pub open spec fn editor(t: CertificateType) -> bool {
    t == CertificateType::Root || t == CertificateType::User || t == CertificateType::UserDevice
}

/// A removal that a commit may carry: proposed by an editor, and not removing
/// a required member.
pub open spec fn removal_accepted(required: Seq<Seq<u8>>, p: RemoveProposal) -> bool {
    editor(p.sender_type) && !required.contains(p.removed@)
}

/// An addition that a commit may carry: proposed by an editor, and adding a
/// user or a user device.
pub open spec fn addition_accepted(p: AddProposal) -> bool {
    editor(p.sender_type) && (p.added_type == CertificateType::User || p.added_type == CertificateType::UserDevice)
}

proof fn lemma_removals_pass(required: Seq<Seq<u8>>, removals: Seq<RemoveProposal>)
    ensures
        first_removal_rejection(required, removals) is None <==> forall|i: int|
            0 <= i < removals.len() ==> removal_accepted(required, #[trigger] removals[i]),
        forall|i: int|
            0 <= i < removals.len() && (forall|j: int| 0 <= j < i ==> removal_accepted(required, #[trigger] removals[j]))
                && !removal_accepted(required, #[trigger] removals[i]) ==> first_removal_rejection(required, removals)
                == if !editor(removals[i].sender_type) {
                Some(CommitRejection::EditNotAllowed(removals[i].sender_type))
            } else {
                Some(CommitRejection::RequiredMember(removals[i].removed@))
            },
    decreases removals.len(),
{
    if removals.len() > 0 {
        let rest = removals.drop_first();
        lemma_removals_pass(required, rest);
        assert forall|i: int| 0 < i < removals.len() implies #[trigger] removals[i] == rest[i - 1] by {}
        if first_removal_rejection(required, removals) is None {
            assert forall|i: int| 0 <= i < removals.len() implies removal_accepted(required, #[trigger] removals[i]) by {
                if i > 0 {
                    assert(removal_accepted(required, rest[i - 1]));
                }
            }
        }
        if forall|i: int| 0 <= i < removals.len() ==> removal_accepted(required, #[trigger] removals[i]) {
            assert(removal_accepted(required, removals[0]));
            assert forall|i: int| 0 <= i < rest.len() implies removal_accepted(required, #[trigger] rest[i]) by {
                assert(removal_accepted(required, removals[i + 1]));
            }
        }
        assert forall|i: int|
            0 <= i < removals.len() && (forall|j: int| 0 <= j < i ==> removal_accepted(required, #[trigger] removals[j]))
                && !removal_accepted(required, #[trigger] removals[i]) implies first_removal_rejection(required, removals)
            == if !editor(removals[i].sender_type) {
            Some(CommitRejection::EditNotAllowed(removals[i].sender_type))
        } else {
            Some(CommitRejection::RequiredMember(removals[i].removed@))
        } by {
            if i > 0 {
                assert(removal_accepted(required, removals[0]));
                assert forall|j: int| 0 <= j < i - 1 implies removal_accepted(required, #[trigger] rest[j]) by {
                    assert(removal_accepted(required, removals[j + 1]));
                }
                assert(!removal_accepted(required, rest[i - 1]));
            }
        }
    }
}

proof fn lemma_additions_pass(additions: Seq<AddProposal>)
    ensures
        first_addition_rejection(additions) is None <==> forall|k: int|
            0 <= k < additions.len() ==> addition_accepted(#[trigger] additions[k]),
        forall|k: int|
            0 <= k < additions.len() && (forall|j: int| 0 <= j < k ==> addition_accepted(#[trigger] additions[j]))
                && !addition_accepted(#[trigger] additions[k]) ==> first_addition_rejection(additions) == if !editor(
                additions[k].sender_type,
            ) {
                Some(CommitRejection::EditNotAllowed(additions[k].sender_type))
            } else {
                Some(CommitRejection::UnexpectedMemberType(additions[k].added_type))
            },
    decreases additions.len(),
{
    if additions.len() > 0 {
        let rest = additions.drop_first();
        lemma_additions_pass(rest);
        assert forall|k: int| 0 < k < additions.len() implies #[trigger] additions[k] == rest[k - 1] by {}
        if first_addition_rejection(additions) is None {
            assert forall|k: int| 0 <= k < additions.len() implies addition_accepted(#[trigger] additions[k]) by {
                if k > 0 {
                    assert(addition_accepted(rest[k - 1]));
                }
            }
        }
        if forall|k: int| 0 <= k < additions.len() ==> addition_accepted(#[trigger] additions[k]) {
            assert(addition_accepted(additions[0]));
            assert forall|k: int| 0 <= k < rest.len() implies addition_accepted(#[trigger] rest[k]) by {
                assert(addition_accepted(additions[k + 1]));
            }
        }
        assert forall|k: int|
            0 <= k < additions.len() && (forall|j: int| 0 <= j < k ==> addition_accepted(#[trigger] additions[j]))
                && !addition_accepted(#[trigger] additions[k]) implies first_addition_rejection(additions) == if !editor(
            additions[k].sender_type,
        ) {
            Some(CommitRejection::EditNotAllowed(additions[k].sender_type))
        } else {
            Some(CommitRejection::UnexpectedMemberType(additions[k].added_type))
        } by {
            if k > 0 {
                assert(addition_accepted(additions[0]));
                assert forall|j: int| 0 <= j < k - 1 implies addition_accepted(#[trigger] rest[j]) by {
                    assert(addition_accepted(additions[j + 1]));
                }
                assert(!addition_accepted(rest[k - 1]));
            }
        }
    }
}

/// A commit is accepted exactly when every one of its proposals is; a
/// refused commit is refused for its first refused proposal, removals before
/// additions: a sender that may not edit, a required member removed, or an
/// added member of another type than user or user device.
pub proof fn lemma_commit_rules(required: Seq<Seq<u8>>, removals: Seq<RemoveProposal>, additions: Seq<AddProposal>)
    ensures
        spec_commit_rejection(required, removals, additions) is None <==> (forall|i: int|
            0 <= i < removals.len() ==> removal_accepted(required, #[trigger] removals[i])) && (forall|k: int|
            0 <= k < additions.len() ==> addition_accepted(#[trigger] additions[k])),
        forall|i: int|
            0 <= i < removals.len() && (forall|j: int| 0 <= j < i ==> removal_accepted(required, #[trigger] removals[j]))
                && !removal_accepted(required, #[trigger] removals[i]) ==> spec_commit_rejection(required, removals, additions)
                == if !editor(removals[i].sender_type) {
                Some(CommitRejection::EditNotAllowed(removals[i].sender_type))
            } else {
                Some(CommitRejection::RequiredMember(removals[i].removed@))
            },
        forall|k: int|
            0 <= k < additions.len() && (forall|i: int| 0 <= i < removals.len() ==> removal_accepted(required, #[trigger] removals[i]))
                && (forall|j: int| 0 <= j < k ==> addition_accepted(#[trigger] additions[j])) && !addition_accepted(
                #[trigger] additions[k],
            ) ==> spec_commit_rejection(required, removals, additions) == if !editor(additions[k].sender_type) {
                Some(CommitRejection::EditNotAllowed(additions[k].sender_type))
            } else {
                Some(CommitRejection::UnexpectedMemberType(additions[k].added_type))
            },
{
    lemma_removals_pass(required, removals);
    lemma_additions_pass(additions);
}

/// Why a commit is refused.
#[derive(Debug)]
pub enum CommitError {
    EditNotAllowed(EditNotAllowed),
    RemoveRequiredMember(RemoveRequiredMember),
    UnexpectedMemberType(CertificateType),
}

/// Checks the proposals of a commit to `group_id`, whose required members
/// are `required`: every proposer may edit the group, no required member is
/// removed, and every added member is a user or a user device. A refused
/// commit is refused for its first refused proposal, removals first.
pub fn check_commit_proposals(
    group_id: &SvalinGroupId,
    required: &[SpkiHash],
    removals: &[RemoveProposal],
    additions: &[AddProposal],
) -> (r: Result<(), CommitError>)
    ensures
        match spec_commit_rejection(hash_views(required@), removals@, additions@) {
            None => r is Ok,
            Some(CommitRejection::EditNotAllowed(t)) => (r matches Err(CommitError::EditNotAllowed(e))
                && e.certificate_type == t && e.group_id@ == group_id@),
            Some(CommitRejection::RequiredMember(h)) => (r matches Err(CommitError::RemoveRequiredMember(e))
                && e.member@ == h),
            Some(CommitRejection::UnexpectedMemberType(t)) => (r matches Err(CommitError::UnexpectedMemberType(x))
                && x == t),
        },
        r is Ok <==> (forall|i: int| 0 <= i < removals@.len() ==> removal_accepted(hash_views(required@), #[trigger] removals@[i]))
            && (forall|k: int| 0 <= k < additions@.len() ==> addition_accepted(#[trigger] additions@[k])),
        forall|i: int|
            0 <= i < removals@.len() && (forall|j: int|
                0 <= j < i ==> removal_accepted(hash_views(required@), #[trigger] removals@[j])) && !removal_accepted(
                hash_views(required@),
                #[trigger] removals@[i],
            ) ==> if !editor(removals@[i].sender_type) {
                r matches Err(CommitError::EditNotAllowed(e)) && e.certificate_type == removals@[i].sender_type
            } else {
                r matches Err(CommitError::RemoveRequiredMember(e)) && e.member@ == removals@[i].removed@
            },
        forall|k: int|
            0 <= k < additions@.len() && (forall|i: int|
                0 <= i < removals@.len() ==> removal_accepted(hash_views(required@), #[trigger] removals@[i])) && (forall|j: int|
                0 <= j < k ==> addition_accepted(#[trigger] additions@[j])) && !addition_accepted(#[trigger] additions@[k])
                ==> if !editor(additions@[k].sender_type) {
                r matches Err(CommitError::EditNotAllowed(e)) && e.certificate_type == additions@[k].sender_type
            } else {
                r matches Err(CommitError::UnexpectedMemberType(t)) && t == additions@[k].added_type
            },
{
    let r = check_proposals_in_order(group_id, required, removals, additions);
    proof {
        lemma_commit_rules(hash_views(required@), removals@, additions@);
    }
    r
}

/// Checks the removals in order, then the additions in order.
fn check_proposals_in_order(
    group_id: &SvalinGroupId,
    required: &[SpkiHash],
    removals: &[RemoveProposal],
    additions: &[AddProposal],
) -> (r: Result<(), CommitError>)
    ensures
        match spec_commit_rejection(hash_views(required@), removals@, additions@) {
            None => r is Ok,
            Some(CommitRejection::EditNotAllowed(t)) => (r matches Err(CommitError::EditNotAllowed(e))
                && e.certificate_type == t && e.group_id@ == group_id@),
            Some(CommitRejection::RequiredMember(h)) => (r matches Err(CommitError::RemoveRequiredMember(e))
                && e.member@ == h),
            Some(CommitRejection::UnexpectedMemberType(t)) => (r matches Err(CommitError::UnexpectedMemberType(x))
                && x == t),
        },
{
    let n = removals.len();
    let mut i: usize = 0;
    assert(removals@.subrange(0, n as int) =~= removals@);
    while i < n
        invariant
            n == removals@.len(),
            i <= n,
            first_removal_rejection(hash_views(required@), removals@) == first_removal_rejection(
                hash_views(required@),
                removals@.subrange(i as int, n as int),
            ),
        decreases n - i,
    {
        let p = &removals[i];
        let ghost rest = removals@.subrange(i as int, n as int);
        assert(rest[0] == removals@[i as int]);
        assert(rest.drop_first() =~= removals@.subrange(i + 1, n as int));
        match check_edit_allowed(group_id, p.sender_type) {
            Err(e) => return Err(CommitError::EditNotAllowed(e)),
            Ok(()) => {},
        }
        match check_removal_allowed(required, &p.removed) {
            Err(e) => return Err(CommitError::RemoveRequiredMember(e)),
            Ok(()) => {},
        }
        i = i + 1;
    }
    assert(removals@.subrange(n as int, n as int).len() == 0);
    let m = additions.len();
    let mut j: usize = 0;
    assert(additions@.subrange(0, m as int) =~= additions@);
    while j < m
        invariant
            m == additions@.len(),
            j <= m,
            first_removal_rejection(hash_views(required@), removals@) is None,
            first_addition_rejection(additions@) == first_addition_rejection(additions@.subrange(j as int, m as int)),
        decreases m - j,
    {
        let p = &additions[j];
        let ghost rest = additions@.subrange(j as int, m as int);
        assert(rest[0] == additions@[j as int]);
        assert(rest.drop_first() =~= additions@.subrange(j + 1, m as int));
        match check_edit_allowed(group_id, p.sender_type) {
            Err(e) => return Err(CommitError::EditNotAllowed(e)),
            Ok(()) => {},
        }
        match check_added_member_type(p.added_type) {
            Err(t) => return Err(CommitError::UnexpectedMemberType(t)),
            Ok(()) => {},
        }
        j = j + 1;
    }
    assert(additions@.subrange(m as int, m as int).len() == 0);
    Ok(())
}

/// Why joining a group from a welcome is refused.
#[derive(Debug, Clone, Copy, PartialEq, Eq, Structural)]
pub enum WelcomeError {
    IncorrectCertificateType,
    IncorrectMembers,
}

/// Checks a welcome into a group: the device that a device (meta) group
/// belongs to, whose certificate type is `owner_type`, must be an agent, and
/// the group must contain every required member.
pub fn check_welcome(owner_type: Option<CertificateType>, required: &[SpkiHash], members: &[SpkiHash]) -> (r: Result<(), WelcomeError>)
    ensures
        (owner_type matches Some(t) && !spec_owns_device_groups(t)) ==> r == Err::<(), WelcomeError>(
            WelcomeError::IncorrectCertificateType,
        ),
        !(owner_type matches Some(t) && !spec_owns_device_groups(t)) ==> (r is Ok <==> forall|i: int|
            0 <= i < required@.len() ==> hash_views(members@).contains(#[trigger] required@[i]@)),
        !(owner_type matches Some(t) && !spec_owns_device_groups(t)) && r is Err ==> r == Err::<(), WelcomeError>(
            WelcomeError::IncorrectMembers,
        ),
        r is Ok <==> (owner_type matches Some(t) ==> t == CertificateType::Agent) && (forall|i: int|
            0 <= i < required@.len() ==> hash_views(members@).contains(#[trigger] required@[i]@)),
        (owner_type matches Some(t) && t != CertificateType::Agent) ==> r == Err::<(), WelcomeError>(
            WelcomeError::IncorrectCertificateType,
        ),
{
    match owner_type {
        Some(t) => {
            if !check_device_group_owner(t) {
                return Err(WelcomeError::IncorrectCertificateType);
            }
        },
        None => {},
    }
    match first_missing_member(required, members) {
        Some(_) => Err(WelcomeError::IncorrectMembers),
        None => Ok(()),
    }
}

/// Why a key package does not fit its certificate.
#[derive(Debug, Clone, Copy, PartialEq, Eq, Structural)]
pub enum KeyPackageMismatch {
    /// The key package is signed with another key than the certificate's.
    SignatureKeyMismatch,
    /// The key package carries another certificate than the expected one.
    CertificateMismatch,
}

/// Checks that a key package's signature key is its certificate's public key.
pub fn check_signature_key(signature_key: &[u8], certificate: &UnverifiedCertificate) -> (r: Result<(), KeyPackageMismatch>)
    ensures
        (signature_key@ == certificate@.public_key) <==> r is Ok,
        r is Err ==> r == Err::<(), KeyPackageMismatch>(KeyPackageMismatch::SignatureKeyMismatch),
{
    if bytes_eq(signature_key, certificate.public_key()) {
        Ok(())
    } else {
        Err(KeyPackageMismatch::SignatureKeyMismatch)
    }
}

/// Checks that the certificate carried by a key package is the expected one
/// (the same DER encoding).
pub fn check_key_package_certificate(carried: &UnverifiedCertificate, expected: &Certificate) -> (r: Result<(), KeyPackageMismatch>)
    ensures
        (carried@.der == expected@.der) <==> r is Ok,
        r is Err ==> r == Err::<(), KeyPackageMismatch>(KeyPackageMismatch::CertificateMismatch),
{
    if *carried == *expected {
        Ok(())
    } else {
        Err(KeyPackageMismatch::CertificateMismatch)
    }
}

} // verus!
