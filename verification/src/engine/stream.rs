//! What processes the audio of a stream, and in what order.
use vstd::prelude::*;

use crate::text::same_text;

verus! {

/// A voice activity detector.
#[derive(Debug, Clone, Copy, PartialEq, Eq, Structural)]
pub enum VadType {
    Silero,
    WebRTC,
    Ten,
}

/// A speech recognition service.
#[derive(Debug, Clone, Copy, PartialEq, Eq, Structural)]
pub enum TranscriptionType {
    TencentCloud,
    VoiceApi,
    Aliyun,
}

/// A speech synthesis service.
#[derive(Debug, Clone, Copy, PartialEq, Eq, Structural)]
pub enum SynthesisType {
    Aliyun,
    TencentCloud,
    VoiceApi,
}

/// Something that a creator is registered for.
#[derive(Debug, Clone, Copy, PartialEq, Eq, Structural)]
pub enum CreatorKind {
    Vad(VadType),
    Asr(TranscriptionType),
    Tts(SynthesisType),
}

/// A creator, by its number.
#[derive(Debug, Clone, Copy, PartialEq, Eq, Structural)]
pub struct Registration {
    pub kind: CreatorKind,
    pub creator: usize,
}

/// A creator of a detector of the end of an utterance, by its number.
#[derive(Debug)]
pub struct EouRegistration {
    pub name: String,
    pub creator: usize,
}

/// Nothing is registered for what is asked for.
#[derive(Debug, Clone, Copy, PartialEq, Eq, Structural)]
pub enum EngineError {
    VadTypeNotFound,
    EouTypeNotFound,
    AsrTypeNotFound,
    TtsTypeNotFound,
}

/// What a call asks for.
#[derive(Debug)]
pub struct CallOption {
    pub denoise: Option<bool>,
    pub vad: Option<VadType>,
    /// The recognition that is wanted, and its service if one is named.
    pub asr: Option<Option<TranscriptionType>>,
    /// The end-of-utterance detection that is wanted, and its name if it has one.
    pub eou: Option<Option<String>>,
}

/// A step of making the processors of a track.
#[derive(Debug, Clone, Copy, PartialEq, Eq, Structural)]
pub enum ProcessorStep {
    /// A noise reducer at a sample rate.
    Denoise(usize),
    /// The processor of a creator.
    Vad(usize),
    Asr(usize),
    Eou(usize),
    /// Making them fails.
    Fail(EngineError),
}

/// The creators that are registered.
#[derive(Debug)]
pub struct StreamEngine {
    pub creators: Vec<Registration>,
    pub eou_creators: Vec<EouRegistration>,
}

/// The creator registered last for something.
pub open spec fn creator_of(creators: Seq<Registration>, kind: CreatorKind) -> Option<usize>
    decreases creators.len(),
{
    if creators.len() == 0 {
        None
    } else if creators.last().kind == kind {
        Some(creators.last().creator)
    } else {
        creator_of(creators.drop_last(), kind)
    }
}

/// The end-of-utterance creator registered last under a name.
pub open spec fn eou_creator_of(creators: Seq<EouRegistration>, name: Seq<char>) -> Option<usize>
    decreases creators.len(),
{
    if creators.len() == 0 {
        None
    } else if creators.last().name@ == name {
        Some(creators.last().creator)
    } else {
        eou_creator_of(creators.drop_last(), name)
    }
}

/// The name that an end-of-utterance detection is looked up by.
pub open spec fn eou_name(name: Option<String>) -> Seq<char> {
    match name {
        Some(n) => n@,
        None => Seq::empty(),
    }
}

impl StreamEngine {
    pub fn new() -> (r: Self)
        ensures
            r.creators@ == Seq::<Registration>::empty(),
            r.eou_creators@ == Seq::<EouRegistration>::empty(),
    {
        StreamEngine { creators: Vec::new(), eou_creators: Vec::new() }
    }

    fn register(&mut self, kind: CreatorKind, creator: usize)
        ensures
            final(self).eou_creators == old(self).eou_creators,
            forall|k: CreatorKind| #[trigger]
                creator_of(final(self).creators@, k) == if k == kind {
                    Some(creator)
                } else {
                    creator_of(old(self).creators@, k)
                },
    {
        let ghost before = self.creators@;
        self.creators.push(Registration { kind, creator });
        assert(self.creators@.drop_last() =~= before);
    }

    pub fn register_vad(&mut self, vad_type: VadType, creator: usize)
        ensures
            final(self).eou_creators == old(self).eou_creators,
            forall|k: CreatorKind| #[trigger]
                creator_of(final(self).creators@, k) == if k == CreatorKind::Vad(vad_type) {
                    Some(creator)
                } else {
                    creator_of(old(self).creators@, k)
                },
    {
        self.register(CreatorKind::Vad(vad_type), creator);
    }

    pub fn register_asr(&mut self, asr_type: TranscriptionType, creator: usize)
        ensures
            final(self).eou_creators == old(self).eou_creators,
            forall|k: CreatorKind| #[trigger]
                creator_of(final(self).creators@, k) == if k == CreatorKind::Asr(asr_type) {
                    Some(creator)
                } else {
                    creator_of(old(self).creators@, k)
                },
    {
        self.register(CreatorKind::Asr(asr_type), creator);
    }

    pub fn register_tts(&mut self, tts_type: SynthesisType, creator: usize)
        ensures
            final(self).eou_creators == old(self).eou_creators,
            forall|k: CreatorKind| #[trigger]
                creator_of(final(self).creators@, k) == if k == CreatorKind::Tts(tts_type) {
                    Some(creator)
                } else {
                    creator_of(old(self).creators@, k)
                },
    {
        self.register(CreatorKind::Tts(tts_type), creator);
    }

    pub fn register_eou(&mut self, name: String, creator: usize)
        ensures
            final(self).creators == old(self).creators,
            forall|n: Seq<char>| #[trigger]
                eou_creator_of(final(self).eou_creators@, n) == if n == name@ {
                    Some(creator)
                } else {
                    eou_creator_of(old(self).eou_creators@, n)
                },
    {
        let ghost before = self.eou_creators@;
        self.eou_creators.push(EouRegistration { name, creator });
        assert(self.eou_creators@.drop_last() =~= before);
    }

    fn find(&self, kind: CreatorKind) -> (r: Option<usize>)
        ensures
            r == creator_of(self.creators@, kind),
    {
        let mut n: usize = self.creators.len();
        assert(self.creators@.take(n as int) =~= self.creators@);
        while n > 0
            invariant
                n <= self.creators@.len(),
                creator_of(self.creators@, kind) == creator_of(
                    self.creators@.take(n as int),
                    kind,
                ),
            decreases n,
        {
            let ghost seen = self.creators@.take(n as int);
            assert(seen.last() == self.creators@[n - 1]);
            assert(seen.drop_last() =~= self.creators@.take(n - 1));
            if self.creators[n - 1].kind == kind {
                return Some(self.creators[n - 1].creator);
            }
            n = n - 1;
        }
        None
    }

    fn find_eou(&self, name: &str) -> (r: Option<usize>)
        ensures
            r == eou_creator_of(self.eou_creators@, name@),
    {
        let mut n: usize = self.eou_creators.len();
        assert(self.eou_creators@.take(n as int) =~= self.eou_creators@);
        while n > 0
            invariant
                n <= self.eou_creators@.len(),
                eou_creator_of(self.eou_creators@, name@) == eou_creator_of(
                    self.eou_creators@.take(n as int),
                    name@,
                ),
            decreases n,
        {
            let ghost seen = self.eou_creators@.take(n as int);
            assert(seen.last() == self.eou_creators@[n - 1]);
            assert(seen.drop_last() =~= self.eou_creators@.take(n - 1));
            if same_text(self.eou_creators[n - 1].name.as_str(), name) {
                return Some(self.eou_creators[n - 1].creator);
            }
            n = n - 1;
        }
        None
    }

    /// The creator of a voice activity detector.
    pub fn create_vad_processor(&self, vad_type: VadType) -> (r: Result<usize, EngineError>)
        ensures
            r == (match creator_of(self.creators@, CreatorKind::Vad(vad_type)) {
                Some(c) => Ok(c),
                None => Err(EngineError::VadTypeNotFound),
            }),
    {
        match self.find(CreatorKind::Vad(vad_type)) {
            Some(c) => Ok(c),
            None => Err(EngineError::VadTypeNotFound),
        }
    }

    /// The creator of an end-of-utterance detector. One without a name is looked up under the
    /// empty one.
    pub fn create_eou_processor(&self, name: &Option<String>) -> (r: Result<usize, EngineError>)
        ensures
            r == (match eou_creator_of(self.eou_creators@, eou_name(*name)) {
                Some(c) => Ok(c),
                None => Err(EngineError::EouTypeNotFound),
            }),
    {
        proof {
            reveal_strlit("");
            assert(""@ =~= Seq::<char>::empty());
        }
        let found = match name {
            Some(n) => self.find_eou(n.as_str()),
            None => self.find_eou(""),
        };
        match found {
            Some(c) => Ok(c),
            None => Err(EngineError::EouTypeNotFound),
        }
    }

    /// The creator of a recognition service.
    pub fn create_asr_processor(&self, provider: Option<TranscriptionType>) -> (r: Result<
        usize,
        EngineError,
    >)
        ensures
            r == (match provider {
                Some(p) => match creator_of(self.creators@, CreatorKind::Asr(p)) {
                    Some(c) => Ok(c),
                    None => Err(EngineError::AsrTypeNotFound),
                },
                None => Err(EngineError::AsrTypeNotFound),
            }),
    {
        match provider {
            Some(p) => match self.find(CreatorKind::Asr(p)) {
                Some(c) => Ok(c),
                None => Err(EngineError::AsrTypeNotFound),
            },
            None => Err(EngineError::AsrTypeNotFound),
        }
    }

    /// The creator of a synthesis service.
    pub fn create_tts_client(&self, provider: Option<SynthesisType>) -> (r: Result<
        usize,
        EngineError,
    >)
        ensures
            r == (match provider {
                Some(p) => match creator_of(self.creators@, CreatorKind::Tts(p)) {
                    Some(c) => Ok(c),
                    None => Err(EngineError::TtsTypeNotFound),
                },
                None => Err(EngineError::TtsTypeNotFound),
            }),
    {
        match provider {
            Some(p) => match self.find(CreatorKind::Tts(p)) {
                Some(c) => Ok(c),
                None => Err(EngineError::TtsTypeNotFound),
            },
            None => Err(EngineError::TtsTypeNotFound),
        }
    }

    /// The step for voice activity detection, if a call asks for it.
    pub open spec fn vad_step(&self, option: CallOption) -> Seq<ProcessorStep> {
        match option.vad {
            Some(v) => seq![
                match creator_of(self.creators@, CreatorKind::Vad(v)) {
                    Some(c) => ProcessorStep::Vad(c),
                    None => ProcessorStep::Fail(EngineError::VadTypeNotFound),
                },
            ],
            None => Seq::empty(),
        }
    }

    /// The step for recognition, if a call asks for it.
    pub open spec fn asr_step(&self, option: CallOption) -> Seq<ProcessorStep> {
        match option.asr {
            Some(p) => seq![
                match p {
                    Some(p) => match creator_of(self.creators@, CreatorKind::Asr(p)) {
                        Some(c) => ProcessorStep::Asr(c),
                        None => ProcessorStep::Fail(EngineError::AsrTypeNotFound),
                    },
                    None => ProcessorStep::Fail(EngineError::AsrTypeNotFound),
                },
            ],
            None => Seq::empty(),
        }
    }

    /// The step for end-of-utterance detection, if a call asks for it.
    pub open spec fn eou_step(&self, option: CallOption) -> Seq<ProcessorStep> {
        match option.eou {
            Some(n) => seq![
                match eou_creator_of(self.eou_creators@, eou_name(n)) {
                    Some(c) => ProcessorStep::Eou(c),
                    None => ProcessorStep::Fail(EngineError::EouTypeNotFound),
                },
            ],
            None => Seq::empty(),
        }
    }

    pub open spec fn denoise_step(option: CallOption, samplerate: usize) -> Seq<ProcessorStep> {
        if option.denoise == Some(true) {
            seq![ProcessorStep::Denoise(samplerate)]
        } else {
            Seq::empty()
        }
    }

    /// The steps of making the processors of a track: noise reduction, voice activity, recognition
    /// and the end of utterances, as far as the call asks for them. They are taken in turn, and
    /// the first that fails ends it.
    pub fn default_create_processors_hook(&self, option: &CallOption, samplerate: usize) -> (r: Vec<
        ProcessorStep,
    >)
        ensures
            r@ == Self::denoise_step(*option, samplerate) + self.vad_step(*option) + self.asr_step(
                *option,
            ) + self.eou_step(*option),
    {
        let mut steps: Vec<ProcessorStep> = Vec::new();
        if let Some(true) = option.denoise {
            steps.push(ProcessorStep::Denoise(samplerate));
        }
        assert(steps@ =~= Self::denoise_step(*option, samplerate));
        if let Some(v) = option.vad {
            steps.push(
                match self.create_vad_processor(v) {
                    Ok(c) => ProcessorStep::Vad(c),
                    Err(e) => ProcessorStep::Fail(e),
                },
            );
        }
        assert(steps@ =~= Self::denoise_step(*option, samplerate) + self.vad_step(*option));
        if let Some(p) = option.asr {
            steps.push(
                match self.create_asr_processor(p) {
                    Ok(c) => ProcessorStep::Asr(c),
                    Err(e) => ProcessorStep::Fail(e),
                },
            );
        }
        assert(steps@ =~= Self::denoise_step(*option, samplerate) + self.vad_step(*option)
            + self.asr_step(*option));
        if let Some(n) = &option.eou {
            steps.push(
                match self.create_eou_processor(n) {
                    Ok(c) => ProcessorStep::Eou(c),
                    Err(e) => ProcessorStep::Fail(e),
                },
            );
        }
        assert(steps@ =~= Self::denoise_step(*option, samplerate) + self.vad_step(*option)
            + self.asr_step(*option) + self.eou_step(*option));
        steps
    }
}

/// The creator that was registered last counts; where none was registered there is none.
pub proof fn law_last_creator_counts(creators: Seq<Registration>, kind: CreatorKind, i: int)
    requires
        -1 <= i < creators.len(),
        i >= 0 ==> creators[i].kind == kind,
        forall|k: int| i < k < creators.len() ==> (#[trigger] creators[k]).kind != kind,
    ensures
        i >= 0 ==> creator_of(creators, kind) == Some(creators[i].creator),
        i < 0 ==> creator_of(creators, kind) is None,
    decreases creators.len(),
{
    if creators.len() > 0 && i < creators.len() - 1 {
        assert(creators[creators.len() - 1] == creators.last());
        law_last_creator_counts(creators.drop_last(), kind, i);
    }
}

/// The end-of-utterance creator that was registered last under a name counts; where none was
/// registered there is none.
pub proof fn law_last_eou_creator_counts(creators: Seq<EouRegistration>, name: Seq<char>, i: int)
    requires
        -1 <= i < creators.len(),
        i >= 0 ==> creators[i].name@ == name,
        forall|k: int| i < k < creators.len() ==> (#[trigger] creators[k]).name@ != name,
    ensures
        i >= 0 ==> eou_creator_of(creators, name) == Some(creators[i].creator),
        i < 0 ==> eou_creator_of(creators, name) is None,
    decreases creators.len(),
{
    if creators.len() > 0 && i < creators.len() - 1 {
        assert(creators[creators.len() - 1] == creators.last());
        law_last_eou_creator_counts(creators.drop_last(), name, i);
    }
}

/// A processor is made exactly where a call asks for it, with the creator that is registered for
/// it; making it fails where there is none.
pub proof fn law_asked_processors_are_made(e: &StreamEngine, option: CallOption, samplerate: usize)
    ensures
        StreamEngine::denoise_step(option, samplerate).len() == (if option.denoise == Some(true) {
            1int
        } else {
            0
        }),
        option.denoise == Some(true) ==> StreamEngine::denoise_step(option, samplerate)[0]
            == ProcessorStep::Denoise(samplerate),
        e.vad_step(option).len() == (if option.vad is Some {
            1int
        } else {
            0
        }),
        option.vad matches Some(v) ==> match creator_of(e.creators@, CreatorKind::Vad(v)) {
            Some(c) => e.vad_step(option)[0] == ProcessorStep::Vad(c),
            None => e.vad_step(option)[0] is Fail,
        },
        e.asr_step(option).len() == (if option.asr is Some {
            1int
        } else {
            0
        }),
        option.asr matches Some(Some(p)) ==> match creator_of(e.creators@, CreatorKind::Asr(p)) {
            Some(c) => e.asr_step(option)[0] == ProcessorStep::Asr(c),
            None => e.asr_step(option)[0] is Fail,
        },
        option.asr matches Some(None) ==> e.asr_step(option)[0] is Fail,
        e.eou_step(option).len() == (if option.eou is Some {
            1int
        } else {
            0
        }),
        option.eou matches Some(Some(n)) ==> match eou_creator_of(e.eou_creators@, n@) {
            Some(c) => e.eou_step(option)[0] == ProcessorStep::Eou(c),
            None => e.eou_step(option)[0] is Fail,
        },
        option.eou matches Some(None) ==> match eou_creator_of(e.eou_creators@, Seq::empty()) {
            Some(c) => e.eou_step(option)[0] == ProcessorStep::Eou(c),
            None => e.eou_step(option)[0] is Fail,
        },
{
}

} // verus!
