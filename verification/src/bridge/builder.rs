//! How a bridge is put together.
use vstd::prelude::*;

use super::peer::{BridgePeer, BridgeSideState, CodecParameters, DirectionCodecState};
use super::routes::{PeerEntry, TransportMode};
use super::video::VideoCapability;
use super::LegStats;

verus! {

/// How session descriptions are written.
#[derive(Debug, Clone, Copy, PartialEq, Eq, Structural)]
pub enum SdpCompatibility {
    Standard,
    LegacySip,
}

/// An audio codec that a leg can take.
#[derive(Debug)]
pub struct AudioCapability {
    pub payload_type: u8,
    pub codec_name: String,
    pub clock_rate: u32,
    pub channels: u8,
    pub fmtp: Option<String>,
    pub rtcp_fbs: Vec<String>,
}

/// What a leg can take.
#[derive(Debug)]
pub struct MediaCapabilities {
    pub audio: Vec<AudioCapability>,
    pub video: Vec<VideoCapability>,
}

/// The settings of a leg's connection. Whatever is not named here has its default.
#[derive(Debug)]
pub struct SideConfig {
    pub transport: TransportMode,
    pub external_ip: Option<String>,
    pub bind_ip: Option<String>,
    pub rtp_ports: Option<(u16, u16)>,
    pub enable_latching: bool,
    pub probation_max_packets: Option<u8>,
    pub media: Option<MediaCapabilities>,
    pub sdp: SdpCompatibility,
    /// Whether the configured ICE servers are used.
    pub use_ice_servers: bool,
    pub cname: Option<String>,
}

/// The connection of a leg: its label, and its settings, unless they were handed in whole.
#[derive(Debug)]
pub struct SidePlan {
    pub config: Option<SideConfig>,
    pub label: String,
}

/// A bridge and the two connections that it needs.
pub struct BridgePlan {
    pub bridge: BridgePeer,
    pub caller: SidePlan,
    pub callee: SidePlan,
}

/// Collects the settings of a bridge.
#[derive(Debug)]
pub struct BridgePeerBuilder {
    pub bridge_id: String,
    pub session_id: Option<String>,
    /// Whether the caller's settings are handed in whole.
    pub has_caller_config: bool,
    /// Whether the callee's settings are handed in whole.
    pub has_callee_config: bool,
    pub rtp_port_range: (u16, u16),
    pub enable_latching: bool,
    pub probation_max_packets: Option<u8>,
    pub external_ip: Option<String>,
    pub bind_ip: Option<String>,
    pub caller_audio_capabilities: Option<Vec<AudioCapability>>,
    pub callee_audio_capabilities: Option<Vec<AudioCapability>>,
    pub caller_video_capabilities: Option<Vec<VideoCapability>>,
    pub callee_video_capabilities: Option<Vec<VideoCapability>>,
    pub caller_sender_codec: Option<CodecParameters>,
    pub callee_sender_codec: Option<CodecParameters>,
    pub rtp_sdp_compatibility: SdpCompatibility,
    pub cname: Option<String>,
    /// In microseconds.
    pub rtp_timeout: Option<u64>,
}

/// The video that is offered where none was configured: H.264 and VP8.
pub open spec fn is_default_video(caps: Seq<VideoCapability>) -> bool {
    &&& caps.len() == 2
    &&& caps[0].payload_type == 96
    &&& caps[0].codec_name@ == "H264"@
    &&& caps[0].clock_rate == 90000
    &&& caps[0].fmtp is Some
    &&& caps[0].fmtp->0@ == "packetization-mode=1"@
    &&& caps[0].rtcp_fbs@.len() == 0
    &&& caps[1].payload_type == 97
    &&& caps[1].codec_name@ == "VP8"@
    &&& caps[1].clock_rate == 90000
    &&& caps[1].fmtp is None
    &&& caps[1].rtcp_fbs@.len() == 0
}

/// The video that is offered where none was configured.
pub fn default_video_capabilities() -> (r: Vec<VideoCapability>)
    ensures
        is_default_video(r@),
{
    let mut caps: Vec<VideoCapability> = Vec::new();
    caps.push(
        VideoCapability {
            payload_type: 96,
            codec_name: "H264".to_owned(),
            clock_rate: 90000,
            fmtp: Some("packetization-mode=1".to_owned()),
            rtcp_fbs: Vec::new(),
        },
    );
    caps.push(
        VideoCapability {
            payload_type: 97,
            codec_name: "VP8".to_owned(),
            clock_rate: 90000,
            fmtp: None,
            rtcp_fbs: Vec::new(),
        },
    );
    caps
}

/// Whether `r` is the video that is offered for a configuration.
pub open spec fn resolved_video(configured: Option<Vec<VideoCapability>>, r: Seq<VideoCapability>) -> bool {
    match configured {
        Some(caps) => if caps@.len() > 0 {
            r == caps@
        } else {
            is_default_video(r)
        },
        None => is_default_video(r),
    }
}

/// The video that is offered: what was configured, the default where that is nothing.
pub fn resolve_video_caps(configured: Option<Vec<VideoCapability>>) -> (r: Vec<VideoCapability>)
    ensures
        resolved_video(configured, r@),
{
    match configured {
        Some(caps) => if caps.len() > 0 {
            caps
        } else {
            default_video_capabilities()
        },
        None => default_video_capabilities(),
    }
}

/// The parameters of the first capability that was configured.
pub open spec fn first_video(configured: Option<Vec<VideoCapability>>) -> Option<CodecParameters> {
    match configured {
        Some(caps) => if caps@.len() > 0 {
            Some(
                CodecParameters {
                    payload_type: caps@[0].payload_type,
                    clock_rate: caps@[0].clock_rate,
                    channels: 0,
                },
            )
        } else {
            None
        },
        None => None,
    }
}

fn first_video_codec(configured: &Option<Vec<VideoCapability>>) -> (r: Option<CodecParameters>)
    ensures
        r == first_video(*configured),
{
    match configured {
        Some(caps) => if caps.len() > 0 {
            Some(
                CodecParameters {
                    payload_type: caps[0].payload_type,
                    clock_rate: caps[0].clock_rate,
                    channels: 0,
                },
            )
        } else {
            None
        },
        None => None,
    }
}

/// Whether `r` holds what a leg can take. Without audio nothing is said of it.
pub open spec fn capabilities(
    audio: Option<Vec<AudioCapability>>,
    video: Option<Vec<VideoCapability>>,
    r: Option<MediaCapabilities>,
) -> bool {
    match (audio, r) {
        (Some(a), Some(m)) => m.audio == a && resolved_video(video, m.video@),
        (None, None) => true,
        _ => false,
    }
}

fn media_capabilities(
    audio: Option<Vec<AudioCapability>>,
    video: Option<Vec<VideoCapability>>,
) -> (r: Option<MediaCapabilities>)
    ensures
        capabilities(audio, video, r),
{
    match audio {
        Some(audio) => Some(MediaCapabilities { audio, video: resolve_video_caps(video) }),
        None => None,
    }
}

fn copy_text(t: &Option<String>) -> (r: Option<String>)
    ensures
        r == *t,
{
    match t {
        Some(s) => Some(s.clone()),
        None => None,
    }
}

fn labelled(id: &String, suffix: &str) -> (r: String)
    ensures
        r@ == id@ + suffix@,
{
    let mut label: String = id.clone();
    label.append(suffix);
    label
}

impl BridgePeerBuilder {
    /// The settings of a bridge of which only the name is known: ports 20000 to 30000, session
    /// descriptions in the older style on the callee's side.
    pub fn new(bridge_id: String) -> (r: Self)
        ensures
            r == (BridgePeerBuilder {
                bridge_id,
                session_id: None,
                has_caller_config: false,
                has_callee_config: false,
                rtp_port_range: (20000, 30000),
                enable_latching: false,
                probation_max_packets: None,
                external_ip: None,
                bind_ip: None,
                caller_audio_capabilities: None,
                callee_audio_capabilities: None,
                caller_video_capabilities: None,
                callee_video_capabilities: None,
                caller_sender_codec: None,
                callee_sender_codec: None,
                rtp_sdp_compatibility: SdpCompatibility::LegacySip,
                cname: None,
                rtp_timeout: None,
            }),
    {
        BridgePeerBuilder {
            bridge_id,
            session_id: None,
            has_caller_config: false,
            has_callee_config: false,
            rtp_port_range: (20000, 30000),
            enable_latching: false,
            probation_max_packets: None,
            external_ip: None,
            bind_ip: None,
            caller_audio_capabilities: None,
            callee_audio_capabilities: None,
            caller_video_capabilities: None,
            callee_video_capabilities: None,
            caller_sender_codec: None,
            callee_sender_codec: None,
            rtp_sdp_compatibility: SdpCompatibility::LegacySip,
            cname: None,
            rtp_timeout: None,
        }
    }

    /// The caller's settings are handed in whole.
    pub fn with_caller_config(self) -> (r: Self)
        ensures
            r == (BridgePeerBuilder { has_caller_config: true, ..self }),
    {
        BridgePeerBuilder { has_caller_config: true, ..self }
    }

    /// The callee's settings are handed in whole.
    pub fn with_callee_config(self) -> (r: Self)
        ensures
            r == (BridgePeerBuilder { has_callee_config: true, ..self }),
    {
        BridgePeerBuilder { has_callee_config: true, ..self }
    }

    pub fn with_rtp_port_range(self, start: u16, end: u16) -> (r: Self)
        ensures
            r == (BridgePeerBuilder { rtp_port_range: (start, end), ..self }),
    {
        BridgePeerBuilder { rtp_port_range: (start, end), ..self }
    }

    pub fn with_enable_latching(self, enable: bool) -> (r: Self)
        ensures
            r == (BridgePeerBuilder { enable_latching: enable, ..self }),
    {
        BridgePeerBuilder { enable_latching: enable, ..self }
    }

    pub fn with_probation_max_packets(self, max: Option<u8>) -> (r: Self)
        ensures
            r == (BridgePeerBuilder { probation_max_packets: max, ..self }),
    {
        BridgePeerBuilder { probation_max_packets: max, ..self }
    }

    pub fn with_external_ip(self, ip: String) -> (r: Self)
        ensures
            r == (BridgePeerBuilder { external_ip: Some(ip), ..self }),
    {
        BridgePeerBuilder { external_ip: Some(ip), ..self }
    }

    pub fn with_bind_ip(self, ip: String) -> (r: Self)
        ensures
            r == (BridgePeerBuilder { bind_ip: Some(ip), ..self }),
    {
        BridgePeerBuilder { bind_ip: Some(ip), ..self }
    }

    pub fn with_caller_audio_capabilities(self, caps: Vec<AudioCapability>) -> (r: Self)
        ensures
            r == (BridgePeerBuilder { caller_audio_capabilities: Some(caps), ..self }),
    {
        BridgePeerBuilder { caller_audio_capabilities: Some(caps), ..self }
    }

    pub fn with_callee_audio_capabilities(self, caps: Vec<AudioCapability>) -> (r: Self)
        ensures
            r == (BridgePeerBuilder { callee_audio_capabilities: Some(caps), ..self }),
    {
        BridgePeerBuilder { callee_audio_capabilities: Some(caps), ..self }
    }

    pub fn with_caller_video_capabilities(self, caps: Vec<VideoCapability>) -> (r: Self)
        ensures
            r == (BridgePeerBuilder { caller_video_capabilities: Some(caps), ..self }),
    {
        BridgePeerBuilder { caller_video_capabilities: Some(caps), ..self }
    }

    pub fn with_callee_video_capabilities(self, caps: Vec<VideoCapability>) -> (r: Self)
        ensures
            r == (BridgePeerBuilder { callee_video_capabilities: Some(caps), ..self }),
    {
        BridgePeerBuilder { callee_video_capabilities: Some(caps), ..self }
    }

    pub fn with_sender_codecs(self, caller: CodecParameters, callee: CodecParameters) -> (r: Self)
        ensures
            r == (BridgePeerBuilder { caller_sender_codec: Some(caller), callee_sender_codec: Some(callee), ..self }),
    {
        BridgePeerBuilder { caller_sender_codec: Some(caller), callee_sender_codec: Some(callee), ..self }
    }

    pub fn with_rtp_sdp_compatibility(self, mode: SdpCompatibility) -> (r: Self)
        ensures
            r == (BridgePeerBuilder { rtp_sdp_compatibility: mode, ..self }),
    {
        BridgePeerBuilder { rtp_sdp_compatibility: mode, ..self }
    }

    pub fn with_cname(self, cname: String) -> (r: Self)
        ensures
            r == (BridgePeerBuilder { cname: Some(cname), ..self }),
    {
        BridgePeerBuilder { cname: Some(cname), ..self }
    }

    pub fn with_session_id(self, session_id: String) -> (r: Self)
        ensures
            r == (BridgePeerBuilder { session_id: Some(session_id), ..self }),
    {
        BridgePeerBuilder { session_id: Some(session_id), ..self }
    }

    /// Notices of silent legs are asked for after a timeout in microseconds.
    pub fn with_rtp_timeout_notify(self, timeout: u64) -> (r: Self)
        ensures
            r == (BridgePeerBuilder { rtp_timeout: Some(timeout), ..self }),
    {
        BridgePeerBuilder { rtp_timeout: Some(timeout), ..self }
    }

    /// Whether `c` are the caller's settings.
    pub open spec fn caller_settings(self, c: SideConfig) -> bool {
        &&& c.transport == TransportMode::WebRtc
        &&& c.external_ip == self.external_ip
        &&& c.bind_ip is None
        &&& c.rtp_ports is None
        &&& !c.enable_latching
        &&& c.probation_max_packets is None
        &&& capabilities(self.caller_audio_capabilities, self.caller_video_capabilities, c.media)
        &&& c.sdp == SdpCompatibility::Standard
        &&& c.use_ice_servers
        &&& c.cname == self.cname
    }

    /// Whether `c` are the callee's settings.
    pub open spec fn callee_settings(self, c: SideConfig) -> bool {
        &&& c.transport == TransportMode::Rtp
        &&& c.external_ip == self.external_ip
        &&& c.bind_ip == self.bind_ip
        &&& c.rtp_ports == Some(self.rtp_port_range)
        &&& c.enable_latching == self.enable_latching
        &&& c.probation_max_packets == self.probation_max_packets
        &&& capabilities(self.callee_audio_capabilities, self.callee_video_capabilities, c.media)
        &&& c.sdp == self.rtp_sdp_compatibility
        &&& !c.use_ice_servers
        &&& c.cname == self.cname
    }

    /// Puts the bridge together. Video senders are set up only where video was configured.
    pub fn build(self) -> (r: BridgePlan)
        ensures
            r.bridge.wf(),
            r.bridge.id == self.bridge_id,
            r.bridge.session_id == self.session_id,
            r.bridge.rtp_timeout == self.rtp_timeout,
            !r.bridge.caller_gate,
            !r.bridge.forwarding_started,
            r.bridge.dtmf_sink is None,
            r.bridge.caller_to_callee == (LegStats { packets: 0, bytes: 0, lost: 0, dropped: 0 }),
            r.bridge.callee_to_caller == (LegStats { packets: 0, bytes: 0, lost: 0, dropped: 0 }),
            r.bridge.caller_to_callee_codec == (DirectionCodecState {
                transcoder: None,
                timing: None,
                dtmf_mapping: None,
            }),
            r.bridge.callee_to_caller_codec == (DirectionCodecState {
                transcoder: None,
                timing: None,
                dtmf_mapping: None,
            }),
            r.bridge.peer_routes.peers() == Map::<Seq<char>, PeerEntry>::empty(),
            r.bridge.peer_routes.routes() == Map::<Seq<char>, Set<Seq<char>>>::empty(),
            r.bridge.caller.sender_codec == self.caller_sender_codec,
            r.bridge.callee.sender_codec == self.callee_sender_codec,
            r.bridge.caller.video_codec == first_video(self.caller_video_capabilities),
            r.bridge.callee.video_codec == first_video(self.callee_video_capabilities),
            (BridgeSideState {
                sender_codec: None,
                video_codec: None,
                ..r.bridge.caller
            }).is_new(),
            (BridgeSideState {
                sender_codec: None,
                video_codec: None,
                ..r.bridge.callee
            }).is_new(),
            r.caller.label@ == self.bridge_id@ + "-caller"@,
            r.callee.label@ == self.bridge_id@ + "-callee"@,
            r.caller.config is None == self.has_caller_config,
            r.callee.config is None == self.has_callee_config,
            r.caller.config matches Some(c) ==> self.caller_settings(c),
            r.callee.config matches Some(c) ==> self.callee_settings(c),
    {
        let caller_video_codec = first_video_codec(&self.caller_video_capabilities);
        let callee_video_codec = first_video_codec(&self.callee_video_capabilities);
        let caller_label = labelled(&self.bridge_id, "-caller");
        let callee_label = labelled(&self.bridge_id, "-callee");
        let caller_media = media_capabilities(
            self.caller_audio_capabilities,
            self.caller_video_capabilities,
        );
        let callee_media = media_capabilities(
            self.callee_audio_capabilities,
            self.callee_video_capabilities,
        );
        let caller_config = if self.has_caller_config {
            None
        } else {
            Some(
                SideConfig {
                    transport: TransportMode::WebRtc,
                    external_ip: copy_text(&self.external_ip),
                    bind_ip: None,
                    rtp_ports: None,
                    enable_latching: false,
                    probation_max_packets: None,
                    media: caller_media,
                    sdp: SdpCompatibility::Standard,
                    use_ice_servers: true,
                    cname: copy_text(&self.cname),
                },
            )
        };
        let callee_config = if self.has_callee_config {
            None
        } else {
            Some(
                SideConfig {
                    transport: TransportMode::Rtp,
                    external_ip: self.external_ip,
                    bind_ip: self.bind_ip,
                    rtp_ports: Some(self.rtp_port_range),
                    enable_latching: self.enable_latching,
                    probation_max_packets: self.probation_max_packets,
                    media: callee_media,
                    sdp: self.rtp_sdp_compatibility,
                    use_ice_servers: false,
                    cname: self.cname,
                },
            )
        };
        let mut bridge = BridgePeer::new(self.bridge_id);
        bridge.session_id = self.session_id;
        bridge.caller.sender_codec = self.caller_sender_codec;
        bridge.callee.sender_codec = self.callee_sender_codec;
        bridge.rtp_timeout = self.rtp_timeout;
        bridge.caller.video_codec = caller_video_codec;
        bridge.callee.video_codec = callee_video_codec;
        BridgePlan {
            bridge,
            caller: SidePlan { config: caller_config, label: caller_label },
            callee: SidePlan { config: callee_config, label: callee_label },
        }
    }
}

/// Whatever was configured is offered; where nothing was, H.264 and VP8 are. A video sender is set
/// up exactly where video was configured, for the first of it.
pub proof fn law_configured_video_is_offered(caps: Vec<VideoCapability>, r: Seq<VideoCapability>)
    ensures
        caps@.len() > 0 ==> (resolved_video(Some(caps), r) <==> r == caps@),
        resolved_video(None, r) ==> r.len() == 2 && r[0].payload_type == 96 && r[1].payload_type == 97
            && r[0].codec_name@ == "H264"@ && r[1].codec_name@ == "VP8"@ && r[0].clock_rate == 90000
            && r[1].clock_rate == 90000,
        caps@.len() == 0 ==> (resolved_video(Some(caps), r) <==> resolved_video(None, r)),
        first_video(None) is None,
        first_video(Some(caps)) is Some <==> caps@.len() > 0,
        first_video(Some(caps)) matches Some(p) ==> p.payload_type == caps@[0].payload_type
            && p.clock_rate == caps@[0].clock_rate,
{
}

/// Each leg is set up with what was configured for it: the caller as a browser, with the servers
/// that help through the network; the callee over plain RTP, on the ports and the address that were
/// given. Both offer just the audio that was configured for them.
pub proof fn law_legs_are_set_up_as_configured(b: BridgePeerBuilder, caller: SideConfig, callee: SideConfig)
    requires
        b.caller_settings(caller),
        b.callee_settings(callee),
    ensures
        caller.transport == TransportMode::WebRtc,
        callee.transport == TransportMode::Rtp,
        caller.use_ice_servers && !callee.use_ice_servers,
        caller.external_ip == b.external_ip && callee.external_ip == b.external_ip,
        caller.cname == b.cname && callee.cname == b.cname,
        caller.bind_ip is None && callee.bind_ip == b.bind_ip,
        caller.rtp_ports is None && callee.rtp_ports == Some(b.rtp_port_range),
        callee.enable_latching == b.enable_latching && !caller.enable_latching,
        callee.probation_max_packets == b.probation_max_packets,
        caller.probation_max_packets is None,
        caller.sdp == SdpCompatibility::Standard && callee.sdp == b.rtp_sdp_compatibility,
        caller.media is Some <==> b.caller_audio_capabilities is Some,
        callee.media is Some <==> b.callee_audio_capabilities is Some,
        caller.media matches Some(m) ==> Some(m.audio) == b.caller_audio_capabilities,
        callee.media matches Some(m) ==> Some(m.audio) == b.callee_audio_capabilities,
{
}

/// Both legs offer the video that was configured for them, along with their audio.
pub proof fn law_legs_offer_their_video(b: BridgePeerBuilder, caller: SideConfig, callee: SideConfig)
    requires
        b.caller_settings(caller),
        b.callee_settings(callee),
    ensures
        caller.media matches Some(m) ==> {
            &&& b.caller_video_capabilities matches Some(v) ==> (v@.len() > 0 ==> m.video@ == v@)
            &&& b.caller_video_capabilities is None ==> resolved_video(None, m.video@)
        },
        callee.media matches Some(m) ==> {
            &&& b.callee_video_capabilities matches Some(v) ==> (v@.len() > 0 ==> m.video@ == v@)
            &&& b.callee_video_capabilities is None ==> resolved_video(None, m.video@)
        },
{
}

} // verus!
