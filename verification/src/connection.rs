//! The decisions of a client connection: which configuration packets are
//! sent after login and in what order, and how the connection reacts to
//! each packet it handled, sent or failed on. Reading and writing the
//! packets is left to the caller, which performs the actions decided here.
use crate::protocol_version::{spec_version_name, spec_version_number, ProtocolVersion};
use vstd::prelude::*;

verus! {

/// The protocol number of 1.20.2, the first version with a configuration
/// state.
pub const CONFIGURATION_MIN_PROTOCOL: u32 = 764;

/// The protocol number of 1.20.5, the first version that negotiates known
/// packs and receives one registry data packet per registry.
pub const KNOWN_PACKS_MIN_PROTOCOL: u32 = 766;

/// The protocol number of 1.21.6, the first version that is sent the
/// registry tags during configuration.
pub const UPDATE_TAGS_MIN_PROTOCOL: u32 = 771;

/// The state of a client connection.
#[derive(Debug, Clone, Copy, PartialEq, Eq, Structural)]
pub enum State {
    Handshake,
    Status,
    Login,
    Configuration,
    Play,
}

/// A packet, or group of packets, sent during configuration.
#[derive(Debug, Clone, Copy, PartialEq, Eq, Structural)]
pub enum ConfigStep {
    /// The plugin message that names the server brand.
    Brand,
    /// The offer of the vanilla `minecraft:core` pack.
    KnownPacks,
    /// The tags of every tagged registry, in one packet.
    UpdateTags,
    /// One registry data packet per registry.
    RegistryDataPerRegistry,
    /// The whole registry codec as one NBT compound.
    RegistryCodec,
    /// The end of configuration.
    FinishConfiguration,
}

/// Whether a client of `v` has a configuration state (1.20.2 and later).
pub open spec fn spec_supports_configuration(v: ProtocolVersion) -> bool {
    spec_version_number(v) >= CONFIGURATION_MIN_PROTOCOL
}

/// The packets sent once known packs are settled: the tags from 1.21.6 on;
/// the registry data unless the client accepted the vanilla pack, one
/// packet per registry from 1.20.5 on and the codec before; and last the
/// end of configuration.
pub open spec fn spec_post_known_packs_plan(v: ProtocolVersion, accepted_vanilla: bool) -> Seq<
    ConfigStep,
> {
    let tags = if spec_version_number(v) >= UPDATE_TAGS_MIN_PROTOCOL {
        seq![ConfigStep::UpdateTags]
    } else {
        Seq::<ConfigStep>::empty()
    };
    let data = if accepted_vanilla {
        Seq::<ConfigStep>::empty()
    } else if spec_version_number(v) >= KNOWN_PACKS_MIN_PROTOCOL {
        seq![ConfigStep::RegistryDataPerRegistry]
    } else {
        seq![ConfigStep::RegistryCodec]
    };
    tags + data + seq![ConfigStep::FinishConfiguration]
}

/// The packets sent when the client acknowledged its login: the brand, then
/// from 1.20.5 on the known packs offer alone (the rest follows the
/// client's answer), and before 1.20.5 everything at once.
pub open spec fn spec_configuration_plan(v: ProtocolVersion) -> Seq<ConfigStep> {
    if spec_version_number(v) >= KNOWN_PACKS_MIN_PROTOCOL {
        seq![ConfigStep::Brand, ConfigStep::KnownPacks]
    } else {
        seq![ConfigStep::Brand] + spec_post_known_packs_plan(v, false)
    }
}

/// The packets sent after the known packs handshake (or in its place
/// before 1.20.5). Before 1.20.2 registries travel with the join packet, so
/// registry data is only planned from 1.20.2 on.
pub fn post_known_packs_plan(v: ProtocolVersion, accepted_vanilla: bool) -> (r: Vec<ConfigStep>)
    requires
        accepted_vanilla || spec_supports_configuration(v),
    ensures
        r@ == spec_post_known_packs_plan(v, accepted_vanilla),
{
    let number = v.version_number();
    let mut plan: Vec<ConfigStep> = Vec::new();
    if number >= UPDATE_TAGS_MIN_PROTOCOL {
        plan.push(ConfigStep::UpdateTags);
    }
    if !accepted_vanilla {
        if number >= KNOWN_PACKS_MIN_PROTOCOL {
            plan.push(ConfigStep::RegistryDataPerRegistry);
        } else {
            plan.push(ConfigStep::RegistryCodec);
        }
    }
    plan.push(ConfigStep::FinishConfiguration);
    assert(plan@ =~= spec_post_known_packs_plan(v, accepted_vanilla));
    plan
}

/// The packets sent when a client of a version with a configuration state
/// acknowledged its login.
pub fn configuration_plan(v: ProtocolVersion) -> (r: Vec<ConfigStep>)
    requires
        spec_supports_configuration(v),
    ensures
        r@ == spec_configuration_plan(v),
{
    let mut plan: Vec<ConfigStep> = Vec::new();
    plan.push(ConfigStep::Brand);
    if v.version_number() >= KNOWN_PACKS_MIN_PROTOCOL {
        plan.push(ConfigStep::KnownPacks);
    } else {
        let rest = post_known_packs_plan(v, false);
        let mut k: usize = 0;
        while k < rest.len()
            invariant
                k <= rest@.len(),
                plan@ == seq![ConfigStep::Brand] + rest@.take(k as int),
            decreases rest@.len() - k,
        {
            plan.push(rest[k]);
            k = k + 1;
            assert(plan@ =~= seq![ConfigStep::Brand] + rest@.take(k as int));
        }
        assert(rest@.take(k as int) =~= rest@);
    }
    assert(plan@ =~= spec_configuration_plan(v));
    plan
}

/// The version of the vanilla `minecraft:core` pack offered to a client of
/// `v`: its release name.
pub fn known_pack_version(v: ProtocolVersion) -> (r: String)
    ensures
        r@ == spec_version_name(v),
{
    v.version_name()
}

/// A data pack that a client says it knows.
pub struct KnownPack {
    pub namespace: String,
    pub id: String,
    pub version: String,
}

/// Whether `pack` is the vanilla `minecraft:core` pack at `version`.
pub open spec fn spec_is_vanilla_core(pack: KnownPack, version: Seq<char>) -> bool {
    pack.namespace@ == "minecraft"@ && pack.id@ == "core"@ && pack.version@ == version
}

/// Whether the client accepted the vanilla `minecraft:core` pack at the
/// version offered to a client of `v`.
pub fn accepts_vanilla_core(packs: &[KnownPack], v: ProtocolVersion) -> (r: bool)
    ensures
        r <==> exists|i: int|
            0 <= i < packs@.len() && #[trigger] spec_is_vanilla_core(
                packs@[i],
                spec_version_name(v),
            ),
{
    let expected = known_pack_version(v);
    let minecraft = "minecraft".to_owned();
    let core = "core".to_owned();
    let mut k: usize = 0;
    while k < packs.len()
        invariant
            k <= packs@.len(),
            expected@ == spec_version_name(v),
            minecraft@ == "minecraft"@,
            core@ == "core"@,
            forall|i: int| 0 <= i < k ==> !#[trigger] spec_is_vanilla_core(packs@[i], expected@),
        decreases packs@.len() - k,
    {
        let pack = &packs[k];
        if pack.namespace == minecraft && pack.id == core && pack.version == expected {
            assert(spec_is_vanilla_core(packs@[k as int], expected@));
            return true;
        }
        k = k + 1;
    }
    false
}

/// Why a login acknowledgement was refused.
#[derive(Debug, Clone, Copy, PartialEq, Eq, Structural)]
pub enum HandlerError {
    /// The client's version has no configuration state.
    InvalidState,
}

/// A client of `v` acknowledged its login: it moves to the configuration
/// state and is sent the configuration plan, unless its version has no
/// configuration state.
pub fn login_acknowledged(v: ProtocolVersion) -> (r: Result<(State, Vec<ConfigStep>), HandlerError>)
    ensures
        spec_supports_configuration(v) ==> (r matches Ok((state, plan)) && state == State::Configuration
            && plan@ == spec_configuration_plan(v)),
        !spec_supports_configuration(v) ==> r == Err::<(State, Vec<ConfigStep>), HandlerError>(
            HandlerError::InvalidState,
        ),
{
    if v.version_number() >= CONFIGURATION_MIN_PROTOCOL {
        Ok((State::Configuration, configuration_plan(v)))
    } else {
        Err(HandlerError::InvalidState)
    }
}

/// The client answered with the packs it knows: the rest of the
/// configuration, without registry data when it accepted the vanilla pack.
pub fn known_packs_answered(packs: &[KnownPack], v: ProtocolVersion) -> (r: Vec<ConfigStep>)
    requires
        spec_supports_configuration(v),
    ensures
        r@ == spec_post_known_packs_plan(
            v,
            exists|i: int|
                0 <= i < packs@.len() && #[trigger] spec_is_vanilla_core(
                    packs@[i],
                    spec_version_name(v),
                ),
        ),
{
    let accepted = accepts_vanilla_core(packs, v);
    post_known_packs_plan(v, accepted)
}


/// Why handling a packet failed.
#[derive(Debug, Clone, Copy, PartialEq, Eq, Structural)]
pub enum ProcessingError {
    /// The client went away.
    Disconnected,
    /// No packet of the client's version and state has the id read.
    PacketNotFound,
    /// The packet's handler failed.
    Handler,
    /// A packet could not be encoded.
    Encode,
    /// An integer did not fit.
    IntConversion,
    /// A packet could not be decoded.
    Decode,
    /// The packet stream failed.
    Stream,
}

/// The metrics label of an error.
pub open spec fn spec_error_code(e: ProcessingError) -> Seq<char> {
    match e {
        ProcessingError::Disconnected => "NET_DISCONNECTED"@,
        ProcessingError::PacketNotFound => "PKT_NOT_FOUND"@,
        ProcessingError::Handler => "PKT_HANDLER_ERR"@,
        ProcessingError::Encode => "PKT_ENCODE_ERR"@,
        ProcessingError::IntConversion => "ERR_INT_CONV"@,
        ProcessingError::Decode => "PKT_DECODE_ERR"@,
        ProcessingError::Stream => "NET_STREAM_ERR"@,
    }
}

impl ProcessingError {
    /// The label under which the error is counted.
    pub fn error_code(&self) -> (r: &'static str)
        ensures
            r@ == spec_error_code(*self),
    {
        match self {
            Self::Disconnected => "NET_DISCONNECTED",
            Self::PacketNotFound => "PKT_NOT_FOUND",
            Self::Handler => "PKT_HANDLER_ERR",
            Self::Encode => "PKT_ENCODE_ERR",
            Self::IntConversion => "ERR_INT_CONV",
            Self::Decode => "PKT_DECODE_ERR",
            Self::Stream => "NET_STREAM_ERR",
        }
    }
}

/// What the connection knows between two events: the client's state,
/// whether it has reached the play state, whether packets are compressed
/// and whether the connection is still served.
#[derive(Debug, Clone, Copy, PartialEq, Eq, Structural)]
pub struct ConnView {
    pub state: State,
    pub was_in_play: bool,
    pub compression: bool,
    pub open: bool,
}

/// Something that happened on a connection.
#[derive(Debug, Clone, Copy, PartialEq, Eq, Structural)]
pub enum PacketEvent {
    /// A packet was read and handled; the client is now in this state.
    Handled(State),
    /// A packet of the answer was sent; whether it turned compression on,
    /// and whether the server has compression settings.
    Sent { set_compression: bool, compression_configured: bool },
    /// The whole answer was sent; whether the handler asked to kick the
    /// client.
    AnswerSent { kick: bool },
    /// Reading, handling or sending failed.
    Failed(ProcessingError),
    /// The keep-alive timer fired.
    KeepAliveTick,
    /// The connection ended.
    Closed,
}

/// The packet that tells a client why it is disconnected, by state.
#[derive(Debug, Clone, Copy, PartialEq, Eq, Structural)]
pub enum DisconnectPacket {
    Login,
    Configuration,
    Play,
}

/// What the caller does after an event.
#[derive(Debug, Clone, Copy, PartialEq, Eq, Structural)]
pub enum Action {
    /// Nothing.
    Nothing,
    /// The player joined: count them online and in the version metrics.
    JoinGame,
    /// Compress the packets from now on, with the server's settings.
    EnableCompression,
    /// Start the keep-alive timer if it is not running.
    EnableKeepAlive,
    /// Send a keep-alive packet.
    SendKeepAlive,
    /// Send the disconnect packet, if the state has one, then count the
    /// error `NET_DISCONNECTED` and stop serving the connection.
    Kick(Option<DisconnectPacket>),
    /// Count the error under its label and go on.
    CountError(ProcessingError),
    /// Count the error under its label and stop serving the connection.
    Stop(ProcessingError),
    /// The player left: count them offline.
    LeaveGame,
}

/// The disconnect packet that a client in `state` can be sent.
pub open spec fn spec_disconnect_packet(state: State) -> Option<DisconnectPacket> {
    match state {
        State::Login => Some(DisconnectPacket::Login),
        State::Configuration => Some(DisconnectPacket::Configuration),
        State::Play => Some(DisconnectPacket::Play),
        _ => None,
    }
}

/// How a connection reacts to an event: the first time the client is in
/// the play state it joins the game; a packet that turned compression on
/// enables it when the server has settings; after an answer the client is
/// kicked if asked, else keep-alives are enabled; an unknown packet is
/// counted and skipped, any other failure counted and ends the
/// connection; keep-alives are only sent in the play state; and a closed
/// connection of a player who joined makes them leave.
pub open spec fn spec_connection_step(s: ConnView, e: PacketEvent) -> (ConnView, Action) {
    match e {
        PacketEvent::Handled(state) => {
            if !s.was_in_play && state == State::Play {
                (ConnView { state, was_in_play: true, ..s }, Action::JoinGame)
            } else {
                (ConnView { state, ..s }, Action::Nothing)
            }
        },
        PacketEvent::Sent { set_compression, compression_configured } => {
            if set_compression && compression_configured {
                (ConnView { compression: true, ..s }, Action::EnableCompression)
            } else {
                (s, Action::Nothing)
            }
        },
        PacketEvent::AnswerSent { kick } => {
            if kick {
                (ConnView { open: false, ..s }, Action::Kick(spec_disconnect_packet(s.state)))
            } else {
                (s, Action::EnableKeepAlive)
            }
        },
        PacketEvent::Failed(error) => {
            if error == ProcessingError::PacketNotFound {
                (s, Action::CountError(error))
            } else {
                (ConnView { open: false, ..s }, Action::Stop(error))
            }
        },
        PacketEvent::KeepAliveTick => {
            if s.state == State::Play {
                (s, Action::SendKeepAlive)
            } else {
                (s, Action::Nothing)
            }
        },
        PacketEvent::Closed => {
            if s.was_in_play {
                (ConnView { open: false, ..s }, Action::LeaveGame)
            } else {
                (ConnView { open: false, ..s }, Action::Nothing)
            }
        },
    }
}

/// A new connection: handshake state, not yet in play, uncompressed, served.
pub fn new_connection() -> (r: ConnView)
    ensures
        r == (ConnView { state: State::Handshake, was_in_play: false, compression: false, open: true }),
{
    ConnView { state: State::Handshake, was_in_play: false, compression: false, open: true }
}

/// The next view of a connection and the action to perform after `e`.
pub fn connection_step(s: ConnView, e: PacketEvent) -> (r: (ConnView, Action))
    ensures
        r == spec_connection_step(s, e),
{
    match e {
        PacketEvent::Handled(state) => {
            if !s.was_in_play && state == State::Play {
                (ConnView { state, was_in_play: true, ..s }, Action::JoinGame)
            } else {
                (ConnView { state, ..s }, Action::Nothing)
            }
        },
        PacketEvent::Sent { set_compression, compression_configured } => {
            if set_compression && compression_configured {
                (ConnView { compression: true, ..s }, Action::EnableCompression)
            } else {
                (s, Action::Nothing)
            }
        },
        PacketEvent::AnswerSent { kick } => {
            if kick {
                let packet = match s.state {
                    State::Login => Some(DisconnectPacket::Login),
                    State::Configuration => Some(DisconnectPacket::Configuration),
                    State::Play => Some(DisconnectPacket::Play),
                    _ => None,
                };
                (ConnView { open: false, ..s }, Action::Kick(packet))
            } else {
                (s, Action::EnableKeepAlive)
            }
        },
        PacketEvent::Failed(error) => {
            if error == ProcessingError::PacketNotFound {
                (s, Action::CountError(error))
            } else {
                (ConnView { open: false, ..s }, Action::Stop(error))
            }
        },
        PacketEvent::KeepAliveTick => {
            if s.state == State::Play {
                (s, Action::SendKeepAlive)
            } else {
                (s, Action::Nothing)
            }
        },
        PacketEvent::Closed => {
            if s.was_in_play {
                (ConnView { open: false, ..s }, Action::LeaveGame)
            } else {
                (ConnView { open: false, ..s }, Action::Nothing)
            }
        },
    }
}

/// A player joins at most once per connection: once the connection has
/// seen the play state it keeps that mark, and no later event makes the
/// player join again.
pub proof fn lemma_join_at_most_once(s: ConnView, e: PacketEvent)
    ensures
        s.was_in_play ==> spec_connection_step(s, e).0.was_in_play,
        s.was_in_play ==> spec_connection_step(s, e).1 != Action::JoinGame,
        spec_connection_step(s, e).1 == Action::JoinGame ==> !s.was_in_play
            && spec_connection_step(s, e).0.was_in_play,
{
}

/// A player leaves exactly when a connection that reached the play state
/// closes, and keep-alives go only to clients in the play state.
pub proof fn lemma_leave_and_keep_alive(s: ConnView, e: PacketEvent)
    ensures
        spec_connection_step(s, e).1 == Action::LeaveGame <==> (e == PacketEvent::Closed
            && s.was_in_play),
        spec_connection_step(s, e).1 == Action::SendKeepAlive ==> s.state == State::Play,
{
}

/// A kicked client is sent the disconnect packet of its state (login,
/// configuration or play), or none in the handshake and status states
/// where no such packet exists; either way the connection stops being
/// served and nothing else of it changes.
pub proof fn lemma_kick_by_state(s: ConnView)
    ensures
        spec_connection_step(s, PacketEvent::AnswerSent { kick: true }).0 == (ConnView {
            open: false,
            ..s
        }),
        s.state == State::Login ==> spec_connection_step(s, PacketEvent::AnswerSent { kick: true }).1
            == Action::Kick(Some(DisconnectPacket::Login)),
        s.state == State::Configuration ==> spec_connection_step(
            s,
            PacketEvent::AnswerSent { kick: true },
        ).1 == Action::Kick(Some(DisconnectPacket::Configuration)),
        s.state == State::Play ==> spec_connection_step(s, PacketEvent::AnswerSent { kick: true }).1
            == Action::Kick(Some(DisconnectPacket::Play)),
        (s.state == State::Handshake || s.state == State::Status) ==> spec_connection_step(
            s,
            PacketEvent::AnswerSent { kick: true },
        ).1 == Action::Kick(None),
        spec_connection_step(s, PacketEvent::AnswerSent { kick: false }) == (
            s,
            Action::EnableKeepAlive,
        ),
{
}

/// A handled packet moves the client to the state it reports; compression
/// is turned on exactly when a packet that asks for it was sent and the
/// server has settings, and it is never turned off; an unknown packet is
/// counted and the connection goes on, any other failure is counted and
/// ends it; keep-alives are sent exactly to clients in the play state.
pub proof fn lemma_connection_reactions(s: ConnView, e: PacketEvent)
    ensures
        e matches PacketEvent::Handled(state) ==> spec_connection_step(s, e).0.state == state,
        s.compression ==> spec_connection_step(s, e).0.compression,
        (spec_connection_step(s, e).1 == Action::EnableCompression) <==> (e matches PacketEvent::Sent {
            set_compression,
            compression_configured,
        } && set_compression && compression_configured),
        e == PacketEvent::Failed(ProcessingError::PacketNotFound) ==> spec_connection_step(s, e) == (
            s,
            Action::CountError(ProcessingError::PacketNotFound),
        ),
        e matches PacketEvent::Failed(err) ==> (err != ProcessingError::PacketNotFound
            ==> spec_connection_step(s, e).1 == Action::Stop(err) && !spec_connection_step(
            s,
            e,
        ).0.open),
        e == PacketEvent::KeepAliveTick ==> (spec_connection_step(s, e).1 == Action::SendKeepAlive
            <==> s.state == State::Play),
        e == PacketEvent::Closed ==> !spec_connection_step(s, e).0.open,
{
}

} // verus!
