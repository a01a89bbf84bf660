use pico_limbo::connection::{
    accepts_vanilla_core, configuration_plan, connection_step, known_pack_version,
    known_packs_answered, login_acknowledged, new_connection, post_known_packs_plan, Action,
    ConfigStep, ConnView, DisconnectPacket, HandlerError, KnownPack, PacketEvent,
    ProcessingError, State,
};
use pico_limbo::protocol_version::ProtocolVersion;
use pico_limbo::registry_provider::get_registry_keys;

fn pack(namespace: &str, id: &str, version: &str) -> KnownPack {
    KnownPack { namespace: namespace.to_string(), id: id.to_string(), version: version.to_string() }
}

#[test]
fn test_login_ack_supported_protocol() {
    let (state, plan) = login_acknowledged(ProtocolVersion::V1_20_2).unwrap();
    assert_eq!(state, State::Configuration);
    assert!(!plan.is_empty());
}

#[test]
fn test_login_ack_unsupported_protocol() {
    assert_eq!(login_acknowledged(ProtocolVersion::V1_20).unwrap_err(), HandlerError::InvalidState);
    assert_eq!(login_acknowledged(ProtocolVersion::V1_8).unwrap_err(), HandlerError::InvalidState);
}

#[test]
fn configuration_before_known_packs_sends_everything() {
    assert_eq!(
        configuration_plan(ProtocolVersion::V1_20_2),
        vec![ConfigStep::Brand, ConfigStep::RegistryCodec, ConfigStep::FinishConfiguration]
    );
    assert_eq!(
        configuration_plan(ProtocolVersion::V1_20_3),
        vec![ConfigStep::Brand, ConfigStep::RegistryCodec, ConfigStep::FinishConfiguration]
    );
}

#[test]
fn configuration_since_known_packs_stops_after_offer() {
    assert_eq!(configuration_plan(ProtocolVersion::V1_20_5), vec![ConfigStep::Brand, ConfigStep::KnownPacks]);
    assert_eq!(configuration_plan(ProtocolVersion::V1_21_4), vec![ConfigStep::Brand, ConfigStep::KnownPacks]);
}

#[test]
fn post_known_packs_plans() {
    assert_eq!(
        post_known_packs_plan(ProtocolVersion::V1_21_4, false),
        vec![ConfigStep::RegistryDataPerRegistry, ConfigStep::FinishConfiguration]
    );
    assert_eq!(post_known_packs_plan(ProtocolVersion::V1_21_4, true), vec![ConfigStep::FinishConfiguration]);
    assert_eq!(
        post_known_packs_plan(ProtocolVersion::V1_20_2, false),
        vec![ConfigStep::RegistryCodec, ConfigStep::FinishConfiguration]
    );
}

#[test]
fn vanilla_core_pack_is_recognised() {
    assert_eq!(known_pack_version(ProtocolVersion::V1_21_4), "1.21.4");
    let accepted = vec![pack("other", "x", "1"), pack("minecraft", "core", "1.21.4")];
    assert!(accepts_vanilla_core(&accepted, ProtocolVersion::V1_21_4));
    let wrong_version = vec![pack("minecraft", "core", "1.21")];
    assert!(!accepts_vanilla_core(&wrong_version, ProtocolVersion::V1_21_4));
    assert!(!accepts_vanilla_core(&[], ProtocolVersion::V1_21_4));
    assert_eq!(known_packs_answered(&accepted, ProtocolVersion::V1_21_4), vec![ConfigStep::FinishConfiguration]);
    assert_eq!(
        known_packs_answered(&wrong_version, ProtocolVersion::V1_21_4),
        vec![ConfigStep::RegistryDataPerRegistry, ConfigStep::FinishConfiguration]
    );
}

#[test]
fn error_codes() {
    assert_eq!(ProcessingError::Disconnected.error_code(), "NET_DISCONNECTED");
    assert_eq!(ProcessingError::PacketNotFound.error_code(), "PKT_NOT_FOUND");
    assert_eq!(ProcessingError::Handler.error_code(), "PKT_HANDLER_ERR");
    assert_eq!(ProcessingError::Encode.error_code(), "PKT_ENCODE_ERR");
    assert_eq!(ProcessingError::IntConversion.error_code(), "ERR_INT_CONV");
    assert_eq!(ProcessingError::Decode.error_code(), "PKT_DECODE_ERR");
    assert_eq!(ProcessingError::Stream.error_code(), "NET_STREAM_ERR");
}

#[test]
fn player_joins_once_and_leaves() {
    let s = new_connection();
    let (s, a) = connection_step(s, PacketEvent::Handled(State::Login));
    assert_eq!(a, Action::Nothing);
    let (s, a) = connection_step(s, PacketEvent::KeepAliveTick);
    assert_eq!(a, Action::Nothing);
    let (s, a) = connection_step(s, PacketEvent::Handled(State::Play));
    assert_eq!(a, Action::JoinGame);
    assert!(s.was_in_play);
    let (s, a) = connection_step(s, PacketEvent::Handled(State::Play));
    assert_eq!(a, Action::Nothing);
    let (s, a) = connection_step(s, PacketEvent::KeepAliveTick);
    assert_eq!(a, Action::SendKeepAlive);
    let (s, a) = connection_step(s, PacketEvent::Closed);
    assert_eq!(a, Action::LeaveGame);
    assert!(!s.open);
}

#[test]
fn compression_kick_and_failures() {
    let s = ConnView { state: State::Login, was_in_play: false, compression: false, open: true };
    let (s1, a) = connection_step(s, PacketEvent::Sent { set_compression: true, compression_configured: true });
    assert_eq!(a, Action::EnableCompression);
    assert!(s1.compression);
    let (_, a) = connection_step(s, PacketEvent::Sent { set_compression: true, compression_configured: false });
    assert_eq!(a, Action::Nothing);
    let (s2, a) = connection_step(s, PacketEvent::AnswerSent { kick: true });
    assert_eq!(a, Action::Kick(Some(DisconnectPacket::Login)));
    assert!(!s2.open);
    let status = ConnView { state: State::Status, ..s };
    assert_eq!(connection_step(status, PacketEvent::AnswerSent { kick: true }).1, Action::Kick(None));
    assert_eq!(connection_step(s, PacketEvent::AnswerSent { kick: false }).1, Action::EnableKeepAlive);
    let (s3, a) = connection_step(s, PacketEvent::Failed(ProcessingError::PacketNotFound));
    assert_eq!(a, Action::CountError(ProcessingError::PacketNotFound));
    assert!(s3.open);
    let (s4, a) = connection_step(s, PacketEvent::Failed(ProcessingError::Decode));
    assert_eq!(a, Action::Stop(ProcessingError::Decode));
    assert!(!s4.open);
    assert_eq!(connection_step(s, PacketEvent::Closed).1, Action::Nothing);
}

#[test]
fn test_configuration_packets_v1_20_2() {
    let plan = configuration_plan(ProtocolVersion::V1_20_2);
    assert_eq!(plan[0], ConfigStep::Brand);
    assert_eq!(plan[1], ConfigStep::RegistryCodec);
    assert_eq!(plan[2], ConfigStep::FinishConfiguration);
    assert_eq!(plan.len(), 3);
}

#[test]
fn test_configuration_packets_v1_20_5_initial_sends_only_brand_and_known_packs() {
    let plan = configuration_plan(ProtocolVersion::V1_20_5);
    assert_eq!(plan[0], ConfigStep::Brand);
    assert_eq!(plan[1], ConfigStep::KnownPacks);
    assert_eq!(plan.len(), 2);
}

#[test]
fn test_post_known_packs_when_vanilla_rejected_sends_registries() {
    let plan = post_known_packs_plan(ProtocolVersion::V1_20_5, false);
    assert_eq!(plan, vec![ConfigStep::RegistryDataPerRegistry, ConfigStep::FinishConfiguration]);
    // one registry data packet per registry sent to 1.20.5 clients
    assert_eq!(get_registry_keys(ProtocolVersion::V1_20_5).unwrap().len(), 4);
}

#[test]
fn test_post_known_packs_when_vanilla_accepted_skips_registries() {
    let plan = post_known_packs_plan(ProtocolVersion::V1_20_5, true);
    assert_eq!(plan, vec![ConfigStep::FinishConfiguration]);
}
