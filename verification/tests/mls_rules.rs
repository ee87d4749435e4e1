use svalin_pki::certificate_type::CertificateType;
use svalin_pki::certificate_type::CertificateType::{Agent, Root, Server, Temporary, User, UserDevice};
use svalin_pki::mls::group_id::SvalinGroupId;
use svalin_pki::mls::rules::{
    check_added_member_type, check_client_certificate_type, check_device_group_owner,
    check_commit_proposals, check_edit_allowed, check_key_package_owner, check_removal_allowed,
    check_welcome, classify_group_message, first_missing_member, required_others, AddProposal,
    CommitError, CreateClientError, GroupMessageError, MessageDataContent, RemoveProposal,
    SvalinMessage, WelcomeError,
};
use svalin_pki::mls::transport_types::{MessageToMemberTransport, MessageToSend};
use svalin_pki::spki_hash::SpkiHash;

fn h(b: u8) -> SpkiHash {
    SpkiHash([b; 32])
}

#[test]
fn edit_rights_by_type() {
    for t in [Root, User, UserDevice] {
        assert!(check_edit_allowed(&SvalinGroupId::GlobalGroup, t).is_ok());
        assert!(check_client_certificate_type(t).is_ok());
    }
    for t in [Agent, Server, Temporary] {
        let err = check_edit_allowed(&SvalinGroupId::DeviceGroup(h(1)), t).unwrap_err();
        assert_eq!(err.certificate_type, t);
        assert_eq!(err.group_id, SvalinGroupId::DeviceGroup(h(1)));
        assert!(matches!(
            check_client_certificate_type(t),
            Err(CreateClientError::WrongCertificateType(x)) if x == t
        ));
    }
}

#[test]
fn added_members_and_group_owners() {
    assert!(check_added_member_type(User).is_ok());
    assert!(check_added_member_type(UserDevice).is_ok());
    for t in [Root, Agent, Server, Temporary] {
        assert_eq!(check_added_member_type(t), Err(t));
    }
    assert!(check_device_group_owner(Agent));
    for t in [Root, User, UserDevice, Server, Temporary] {
        assert!(!check_device_group_owner(t));
    }
}

#[test]
fn membership_helpers() {
    let required = [h(1), h(2), h(3)];
    assert_eq!(first_missing_member(&required, &[h(3), h(1), h(2)]), None);
    assert_eq!(first_missing_member(&required, &[h(1)]), Some(h(2)));
    assert_eq!(first_missing_member(&required, &[]), Some(h(1)));
    assert_eq!(required_others(&required, &h(2)), vec![h(1), h(3)]);
    assert_eq!(required_others(&required, &h(9)), required.to_vec());
    assert!(check_removal_allowed(&required, &h(4)).is_ok());
    assert_eq!(check_removal_allowed(&required, &h(3)).unwrap_err().member, h(3));
    assert!(check_key_package_owner(&h(5), &h(5)).is_ok());
    assert!(check_key_package_owner(&h(5), &h(6)).is_err());
}

#[test]
fn reports_only_from_the_device_in_its_group() {
    let device = h(7);
    let accepted = classify_group_message::<u32, ()>(
        SvalinGroupId::DeviceGroup(device),
        device,
        SvalinMessage::Report(42),
    )
    .unwrap();
    assert_eq!(accepted.group, SvalinGroupId::DeviceGroup(device));
    assert!(matches!(accepted.content, MessageDataContent::Report(s, 42) if s == device));

    let forbidden = classify_group_message::<u32, ()>(
        SvalinGroupId::DeviceGroup(device),
        h(8),
        SvalinMessage::Report(42),
    );
    assert!(matches!(
        forbidden,
        Err(GroupMessageError::ForbiddenSender { group_id }) if group_id == SvalinGroupId::DeviceGroup(device)
    ));

    let wrong_group = classify_group_message::<u32, ()>(
        SvalinGroupId::DeviceMetaGroup(device),
        device,
        SvalinMessage::Report(42),
    );
    assert!(matches!(wrong_group, Err(GroupMessageError::InvalidMessage { .. })));
}

#[test]
fn meta_info_only_in_meta_group() {
    let device = h(9);
    let accepted = classify_group_message::<(), &str>(
        SvalinGroupId::DeviceMetaGroup(device),
        h(1),
        SvalinMessage::MetaInfo("info"),
    )
    .unwrap();
    assert!(matches!(accepted.content, MessageDataContent::MetaInfo(s, "info") if s == device));
    let refused = classify_group_message::<(), &str>(
        SvalinGroupId::GlobalGroup,
        h(1),
        SvalinMessage::MetaInfo("info"),
    );
    assert!(matches!(
        refused,
        Err(GroupMessageError::InvalidMessage { group_id }) if group_id == SvalinGroupId::GlobalGroup
    ));
}

#[test]
fn remove_receiver_keeps_order() {
    let mut message = MessageToSend {
        receivers: vec![h(1), h(2), h(1), h(3)],
        message: MessageToMemberTransport::GroupMessage(vec![1, 2, 3]),
    };
    message.remove_receiver(&h(1));
    assert_eq!(message.receivers, vec![h(2), h(3)]);
    assert!(matches!(message.message, MessageToMemberTransport::GroupMessage(ref b) if b == &vec![1, 2, 3]));
    message.remove_receiver(&h(4));
    assert_eq!(message.receivers, vec![h(2), h(3)]);
}

#[test]
fn commit_checks_removals_then_additions() {
    let group = SvalinGroupId::DeviceGroup(h(1));
    let required = [h(1), h(2)];
    let removals = [RemoveProposal { sender_type: User, removed: h(5) }];
    let additions = [
        AddProposal { sender_type: UserDevice, added_type: User },
        AddProposal { sender_type: Root, added_type: UserDevice },
    ];
    assert!(check_commit_proposals(&group, &required, &removals, &additions).is_ok());

    let removing_required = [
        RemoveProposal { sender_type: User, removed: h(5) },
        RemoveProposal { sender_type: User, removed: h(2) },
    ];
    let bad_additions = [AddProposal { sender_type: Agent, added_type: User }];
    match check_commit_proposals(&group, &required, &removing_required, &bad_additions) {
        Err(CommitError::RemoveRequiredMember(e)) => assert_eq!(e.member, h(2)),
        other => panic!("unexpected {:?}", other),
    }
    match check_commit_proposals(&group, &required, &removals, &bad_additions) {
        Err(CommitError::EditNotAllowed(e)) => {
            assert_eq!(e.certificate_type, Agent);
            assert_eq!(e.group_id, group);
        }
        other => panic!("unexpected {:?}", other),
    }
    let adding_server = [AddProposal { sender_type: User, added_type: Server }];
    assert!(matches!(
        check_commit_proposals(&group, &required, &[], &adding_server),
        Err(CommitError::UnexpectedMemberType(Server))
    ));
    let removal_by_agent = [RemoveProposal { sender_type: Agent, removed: h(9) }];
    assert!(matches!(
        check_commit_proposals(&group, &required, &removal_by_agent, &[]),
        Err(CommitError::EditNotAllowed(_))
    ));
}

#[test]
fn welcome_checks_owner_and_members() {
    let required = [h(1), h(2)];
    assert_eq!(check_welcome(Some(Agent), &required, &[h(2), h(1), h(3)]), Ok(()));
    assert_eq!(check_welcome(None, &required, &[h(1), h(2)]), Ok(()));
    assert_eq!(
        check_welcome(Some(User), &required, &[h(1), h(2)]),
        Err(WelcomeError::IncorrectCertificateType)
    );
    assert_eq!(
        check_welcome(Some(Agent), &required, &[h(1)]),
        Err(WelcomeError::IncorrectMembers)
    );
}
