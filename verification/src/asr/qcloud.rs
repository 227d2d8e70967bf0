//! The recognition service of Tencent Cloud.
use vstd::prelude::*;

use crate::text::{decimal, format_decimal, has_prefix, has_suffix, law_prefix_and_rest};

verus! {

/// What the service is asked for.
#[derive(Debug)]
pub struct QCloudAsrConfig {
    pub app_id: String,
    pub secret_id: String,
    pub secret_key: String,
    pub engine_type: String,
    pub voice_format: String,
    pub speaker_diarization: bool,
    pub filter_dirty: bool,
    pub filter_modal: bool,
    pub filter_punc: bool,
    pub convert_num_mode: i32,
}

impl Default for QCloudAsrConfig {
    fn default() -> (r: Self)
        ensures
            r.app_id@ == ""@,
            r.secret_id@ == ""@,
            r.secret_key@ == ""@,
            r.engine_type@ == "16k_zh"@,
            r.voice_format@ == "pcm"@,
            !r.speaker_diarization,
            !r.filter_dirty,
            !r.filter_modal,
            !r.filter_punc,
            r.convert_num_mode == 1,
    {
        QCloudAsrConfig {
            app_id: "".to_owned(),
            secret_id: "".to_owned(),
            secret_key: "".to_owned(),
            engine_type: "16k_zh".to_owned(),
            voice_format: "pcm".to_owned(),
            speaker_diarization: false,
            filter_dirty: false,
            filter_modal: false,
            filter_punc: false,
            convert_num_mode: 1,
        }
    }
}

/// An integer in decimal notation.
pub open spec fn signed_decimal(n: int) -> Seq<char> {
    if n < 0 {
        "-"@ + decimal((-n) as nat)
    } else {
        decimal(n as nat)
    }
}

pub open spec fn flag(b: bool) -> Seq<char> {
    if b {
        "1"@
    } else {
        "0"@
    }
}

fn flag_text(b: bool) -> (r: &'static str)
    ensures
        r@ == flag(b),
{
    if b {
        "1"
    } else {
        "0"
    }
}

fn format_signed(n: i32) -> (r: String)
    ensures
        r@ == signed_decimal(n as int),
{
    if n < 0 {
        let mut s = "-".to_owned();
        let digits = format_decimal((-(n as i64)) as u64);
        s.append(digits.as_str());
        s
    } else {
        format_decimal(n as u64)
    }
}

/// The address of a recognition session.
pub open spec fn session_url(config: QCloudAsrConfig, session: Seq<char>) -> Seq<char> {
    "wss://asr.cloud.tencent.com/asr/v2/"@ + config.app_id@ + "/"@ + session + "?secretid="@
        + config.secret_id@ + "&engine_type="@ + config.engine_type@ + "&voice_format="@
        + config.voice_format@ + "&speaker_diarization="@ + flag(config.speaker_diarization)
        + "&filter_dirty="@ + flag(config.filter_dirty) + "&filter_modal="@ + flag(
        config.filter_modal,
    ) + "&filter_punc="@ + flag(config.filter_punc) + "&convert_num_mode="@ + signed_decimal(
        config.convert_num_mode as int,
    )
}

/// What `url::Url::parse` makes of a text, written out again: nothing where it is no address.
pub uninterp spec fn parsed_url(text: Seq<char>) -> Option<Seq<char>>;

/// `url::Url::parse`, and the address that it gives as text. What that is, is a function of the
/// text.
#[verifier::external_body]
fn parse_url(text: &str) -> (r: Option<String>)
    ensures
        r is Some == parsed_url(text@) is Some,
        r matches Some(s) ==> s@ == parsed_url(text@)->0,
{
    url::Url::parse(text).ok().map(|u| u.to_string())
}

/// A random name for a session, from `uuid::Uuid::new_v4`. Nothing is claimed of it.
#[verifier::external_body]
fn random_session() -> (r: String) {
    uuid::Uuid::new_v4().to_string()
}

/// A session with the service.
#[derive(Debug)]
pub struct QCloudAsr {
    pub track_id: String,
    pub ssrc: u32,
    pub config: QCloudAsrConfig,
}

impl QCloudAsr {
    pub fn new(track_id: String, ssrc: u32, config: QCloudAsrConfig) -> (r: Self)
        ensures
            r == (QCloudAsr { track_id, ssrc, config }),
    {
        QCloudAsr { track_id, ssrc, config }
    }

    /// The address of a recognition session of a name.
    pub fn url_of(&self, session: &str) -> (r: String)
        ensures
            r@ == session_url(self.config, session@),
    {
        let c = &self.config;
        let mut url = "wss://asr.cloud.tencent.com/asr/v2/".to_owned();
        url.append(c.app_id.as_str());
        url.append("/");
        url.append(session);
        url.append("?secretid=");
        url.append(c.secret_id.as_str());
        url.append("&engine_type=");
        url.append(c.engine_type.as_str());
        url.append("&voice_format=");
        url.append(c.voice_format.as_str());
        url.append("&speaker_diarization=");
        url.append(flag_text(c.speaker_diarization));
        url.append("&filter_dirty=");
        url.append(flag_text(c.filter_dirty));
        url.append("&filter_modal=");
        url.append(flag_text(c.filter_modal));
        url.append("&filter_punc=");
        url.append(flag_text(c.filter_punc));
        url.append("&convert_num_mode=");
        let mode = format_signed(c.convert_num_mode);
        url.append(mode.as_str());
        url
    }

    /// The address to connect to for a session of a name, if it is one.
    pub fn address_of(&self, session: &str) -> (r: Option<String>)
        ensures
            r is Some == parsed_url(session_url(self.config, session@)) is Some,
            r matches Some(s) ==> s@ == parsed_url(session_url(self.config, session@))->0,
    {
        let url = self.url_of(session);
        parse_url(url.as_str())
    }

    /// The address to connect to for a new session.
    pub fn connect_address(&self) -> (r: Option<String>)
        ensures
            exists|session: Seq<char>|
                {
                    let parsed = parsed_url(#[trigger] session_url(self.config, session));
                    &&& r is Some == parsed is Some
                    &&& r matches Some(s) ==> s@ == parsed->0
                },
    {
        let session = random_session();
        let r = self.address_of(session.as_str());
        assert(({
            let parsed = parsed_url(session_url(self.config, session@));
            &&& r is Some == parsed is Some
            &&& r matches Some(s) ==> s@ == parsed->0
        }));
        r
    }
}

/// The address of a session begins with that of the service, the application and the session.
pub proof fn law_addresses_begin_with_the_session(config: QCloudAsrConfig, session: Seq<char>)
    ensures
        has_prefix(
            session_url(config, session),
            "wss://asr.cloud.tencent.com/asr/v2/"@ + config.app_id@ + "/"@ + session + "?secretid="@
                + config.secret_id@ + "&engine_type="@ + config.engine_type@ + "&voice_format="@
                + config.voice_format@,
        ),
{
    let head = "wss://asr.cloud.tencent.com/asr/v2/"@ + config.app_id@ + "/"@ + session
        + "?secretid="@ + config.secret_id@ + "&engine_type="@ + config.engine_type@
        + "&voice_format="@ + config.voice_format@;
    assert(session_url(config, session).take(head.len() as int) =~= head);
}

/// Integers are written with a sign where they are negative; what is asked for is written as a one.
pub proof fn law_negative_numbers_have_a_sign(a: int)
    ensures
        a >= 0 ==> signed_decimal(a) == decimal(a as nat),
        a < 0 ==> signed_decimal(a).skip(1) == decimal((-a) as nat) && signed_decimal(a)[0] == '-',
        flag(true) == "1"@ && flag(false) == "0"@,
{
    reveal_strlit("-");
    if a < 0 {
        assert(signed_decimal(a).skip(1) =~= decimal((-a) as nat));
    }
}

/// The address ends with what is asked of the service: a one for each option that is wanted and a
/// zero for each that is not, and how numbers are to be written.
pub proof fn law_addresses_end_with_the_options(config: QCloudAsrConfig, session: Seq<char>)
    ensures
        has_suffix(
            session_url(config, session),
            "&speaker_diarization="@ + seq![
                if config.speaker_diarization {
                    '1'
                } else {
                    '0'
                },
            ] + "&filter_dirty="@ + seq![
                if config.filter_dirty {
                    '1'
                } else {
                    '0'
                },
            ] + "&filter_modal="@ + seq![
                if config.filter_modal {
                    '1'
                } else {
                    '0'
                },
            ] + "&filter_punc="@ + seq![
                if config.filter_punc {
                    '1'
                } else {
                    '0'
                },
            ] + "&convert_num_mode="@ + signed_decimal(config.convert_num_mode as int),
        ),
{
    reveal_strlit("1");
    reveal_strlit("0");
    assert("1"@ =~= seq!['1']);
    assert("0"@ =~= seq!['0']);
    let front = "wss://asr.cloud.tencent.com/asr/v2/"@ + config.app_id@ + "/"@ + session
        + "?secretid="@ + config.secret_id@ + "&engine_type="@ + config.engine_type@
        + "&voice_format="@ + config.voice_format@;
    let end = "&speaker_diarization="@ + flag(config.speaker_diarization) + "&filter_dirty="@ + flag(
        config.filter_dirty,
    ) + "&filter_modal="@ + flag(config.filter_modal) + "&filter_punc="@ + flag(config.filter_punc)
        + "&convert_num_mode="@ + signed_decimal(config.convert_num_mode as int);
    assert(session_url(config, session) =~= front + end);
    law_prefix_and_rest(end, end, front);
}

} // verus!
