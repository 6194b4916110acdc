use chat_gateway::model::guild::integration::{
    Integration, IntegrationAccount, IntegrationApplication, IntegrationExpireBehaviour,
};
use chat_gateway::model::id::{ApplicationId, GuildId, IntegrationId, RoleId, UserId};
use chat_gateway::model::misc::ImageHash;
use chat_gateway::model::user::User;

fn integration(id: u64) -> Integration {
    Integration {
        id: IntegrationId(id),
        name: "stream".to_string(),
        kind: "twitch".to_string(),
        enabled: true,
        syncing: Some(false),
        role_id: Some(RoleId(4)),
        enable_emoticons: None,
        expire_behaviour: Some(IntegrationExpireBehaviour::Kick),
        expire_grace_period: Some(7),
        user: Some(User { id: UserId(9), name: "owner".to_string(), bot: false }),
        account: IntegrationAccount { id: "acc".to_string(), name: "account".to_string() },
        synced_at: None,
        subscriber_count: Some(12),
        revoked: None,
        application: Some(IntegrationApplication {
            id: ApplicationId(33),
            name: "app".to_string(),
            icon: Some(ImageHash("abcdef".to_string())),
            description: "an application".to_string(),
            bot: None,
        }),
        scopes: None,
        guild_id: Some(GuildId(1)),
    }
}

#[test]
fn integration_id_comes_from_the_integration() {
    assert_eq!(IntegrationId::from(integration(42)), IntegrationId(42));
    assert_eq!(IntegrationId::from(integration(0)), IntegrationId(0));
    let id: IntegrationId = integration(u64::MAX).into();
    assert_eq!(id, IntegrationId(u64::MAX));
}

#[test]
fn integration_keeps_its_parts() {
    let integration = integration(5);
    assert_eq!(integration.account.id, "acc");
    assert_eq!(integration.application.as_ref().unwrap().id, ApplicationId(33));
    assert_eq!(integration.clone().kind, "twitch");
}

#[test]
fn expire_behaviour_from_number() {
    assert_eq!(IntegrationExpireBehaviour::from(0), IntegrationExpireBehaviour::RemoveRole);
    assert_eq!(IntegrationExpireBehaviour::from(1), IntegrationExpireBehaviour::Kick);
    assert_eq!(IntegrationExpireBehaviour::from(2), IntegrationExpireBehaviour::Unknown(2));
    assert_eq!(IntegrationExpireBehaviour::from(255), IntegrationExpireBehaviour::Unknown(255));
}

#[test]
fn expire_behaviour_to_number() {
    assert_eq!(u8::from(IntegrationExpireBehaviour::RemoveRole), 0);
    assert_eq!(u8::from(IntegrationExpireBehaviour::Kick), 1);
    assert_eq!(u8::from(IntegrationExpireBehaviour::Unknown(9)), 9);
}

#[test]
fn expire_behaviour_round_trips_every_number() {
    for number in 0..=u8::MAX {
        assert_eq!(u8::from(IntegrationExpireBehaviour::from(number)), number);
    }
}

#[test]
fn expire_behaviours_are_ordered() {
    assert!(IntegrationExpireBehaviour::RemoveRole < IntegrationExpireBehaviour::Kick);
    assert!(IntegrationExpireBehaviour::Kick < IntegrationExpireBehaviour::Unknown(0));
    assert!(IntegrationExpireBehaviour::Unknown(2) < IntegrationExpireBehaviour::Unknown(3));
    assert_eq!(
        IntegrationExpireBehaviour::Kick.max(IntegrationExpireBehaviour::RemoveRole),
        IntegrationExpireBehaviour::Kick
    );
}
