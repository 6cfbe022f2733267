//! The rules engine, and `Default Space Saver`.
//!
//! Rules are an ordered list of typed entries, a match and an action, first match wins
//! per stage. Evaluation is a pure function of facts and policy, so a decision
//! is reproducible and can be explained.
use vstd::prelude::*;

use crate::capability::{
    AgentClass, ContainerId, DecoderKind, DecoderTriple, Requirement, Requirements,
};
use crate::document;
use crate::facts::{content_sig, size_bucket_for, FileFacts, SizeThresholds};
use crate::job::{JobClass, JobSpec};
use crate::plan::{pix_fmt_for, BitDepth, EncodePlan, EncoderId, PixFmt};
use crate::text;
use crate::validate::{SizePolicy, ValidationSpec};

verus! {

/// Predicates selecting which files a rule applies to. All present fields must
/// match; an empty `Match` matches everything.
#[derive(Debug, Clone, PartialEq)]
pub struct Match {
    /// Video codec must be one of these.
    pub video_codec_in: Vec<String>,
    /// At least one audio codec must contain one of these.
    pub audio_codec_any: Vec<String>,
    /// Minimum width in pixels.
    pub min_width: Option<u32>,
    /// Minimum overall bitrate.
    pub min_bit_rate_bps: Option<u64>,
    /// Minimum file size.
    pub min_size_bytes: Option<u64>,
    /// Require (or forbid) HDR.
    pub is_hdr: Option<bool>,
    /// Require (or forbid) Dolby Vision.
    pub is_dovi: Option<bool>,
}

impl Default for Match {
    /// Matches everything.
    fn default() -> (r: Match)
        ensures
            r.is_empty(),
    {
        Match {
            video_codec_in: Vec::new(),
            audio_codec_any: Vec::new(),
            min_width: None,
            min_bit_rate_bps: None,
            min_size_bytes: None,
            is_hdr: None,
            is_dovi: None,
        }
    }
}

/// A text is one of a list.
pub open spec fn listed(list: Seq<String>, s: Seq<char>) -> bool {
    exists|i: int| 0 <= i < list.len() && (#[trigger] list[i])@ == s
}

/// A text contains one of a list.
pub open spec fn contains_listed(list: Seq<String>, s: Seq<char>) -> bool {
    exists|i: int| 0 <= i < list.len() && text::has(s, (#[trigger] list[i])@)
}

/// The value, or zero.
pub open spec fn or_zero(n: Option<u64>) -> u64 {
    match n {
        Some(v) => v,
        None => 0,
    }
}

/// The width, or zero.
pub open spec fn width_or_zero(n: Option<u32>) -> u32 {
    match n {
        Some(v) => v,
        None => 0,
    }
}

fn contains_any(list: &Vec<String>, s: &str) -> (r: bool)
    ensures
        r == contains_listed(list@, s@),
{
    let mut i: usize = 0;
    while i < list.len()
        invariant
            i <= list@.len(),
            forall|j: int| 0 <= j < i ==> !text::has(s@, (#[trigger] list@[j])@),
        decreases list.len() - i,
    {
        if text::contains(s, list[i].as_str()) {
            return true;
        }
        i += 1;
    }
    false
}

fn any_contains_any(codecs: &Vec<String>, list: &Vec<String>) -> (r: bool)
    ensures
        r == exists|i: int| 0 <= i < codecs@.len() && contains_listed(list@, (#[trigger] codecs@[i])@),
{
    let mut i: usize = 0;
    while i < codecs.len()
        invariant
            i <= codecs@.len(),
            forall|j: int| 0 <= j < i ==> !contains_listed(list@, (#[trigger] codecs@[j])@),
        decreases codecs.len() - i,
    {
        if contains_any(list, codecs[i].as_str()) {
            return true;
        }
        i += 1;
    }
    false
}

impl Match {
    /// No predicate is present.
    pub open spec fn is_empty(self) -> bool {
        &&& self.video_codec_in@.len() == 0
        &&& self.audio_codec_any@.len() == 0
        &&& self.min_width is None
        &&& self.min_bit_rate_bps is None
        &&& self.min_size_bytes is None
        &&& self.is_hdr is None
        &&& self.is_dovi is None
    }

    /// Every present predicate holds of the facts.
    pub open spec fn holds(self, f: FileFacts) -> bool {
        &&& self.video_codec_in@.len() > 0 ==> f.video_codec is Some && listed(
            self.video_codec_in@,
            f.video_codec->0@,
        )
        &&& self.audio_codec_any@.len() > 0 ==> exists|i: int|
            0 <= i < f.audio_codecs@.len() && contains_listed(
                self.audio_codec_any@,
                (#[trigger] f.audio_codecs@[i])@,
            )
        &&& self.min_width matches Some(w) ==> width_or_zero(f.width) >= w
        &&& self.min_bit_rate_bps matches Some(b) ==> or_zero(f.bit_rate_bps) >= b
        &&& self.min_size_bytes matches Some(s) ==> f.size_bytes >= s
        &&& self.is_hdr matches Some(h) ==> f.is_hdr == h
        &&& self.is_dovi matches Some(d) ==> f.is_dovi == d
    }

    /// Whether these facts satisfy every present predicate.
    pub fn matches(&self, f: &FileFacts) -> (r: bool)
        ensures
            r == self.holds(*f),
    {
        if self.video_codec_in.len() > 0 {
            match &f.video_codec {
                Some(c) => {
                    if !text::list_has(&self.video_codec_in, c.as_str()) {
                        return false;
                    }
                },
                None => {
                    return false;
                },
            }
        }
        if self.audio_codec_any.len() > 0 && !any_contains_any(
            &f.audio_codecs,
            &self.audio_codec_any,
        ) {
            return false;
        }
        match self.min_width {
            Some(w) => {
                if f.width.unwrap_or(0) < w {
                    return false;
                }
            },
            None => {},
        }
        match self.min_bit_rate_bps {
            Some(b) => {
                if f.bit_rate_bps.unwrap_or(0) < b {
                    return false;
                }
            },
            None => {},
        }
        match self.min_size_bytes {
            Some(s) => {
                if f.size_bytes < s {
                    return false;
                }
            },
            None => {},
        }
        match self.is_hdr {
            Some(h) => {
                if f.is_hdr != h {
                    return false;
                }
            },
            None => {},
        }
        match self.is_dovi {
            Some(d) => {
                if f.is_dovi != d {
                    return false;
                }
            },
            None => {},
        }
        true
    }
}

/// What to do with a matching file.
#[derive(Debug, Clone, PartialEq)]
#[non_exhaustive]
pub enum Action {
    /// Re-encode video with this encoder preference, in order.
    EncodeVideo {
        /// Encoders to try, most preferred first.
        encoder_preference: Vec<EncoderId>,
        /// Quality target (CRF or CQ).
        quality: u8,
    },
    /// Re-encode audio to this codec at this bitrate.
    EncodeAudio {
        /// Target codec.
        codec: EncoderId,
        /// Bitrate string, e.g. `640k`.
        bitrate: String,
    },
    /// Do nothing at all.
    Skip,
    /// Leave the video alone, but audio may still be planned.
    SkipVideo,
    /// Exclude the file from all work and flag it.
    Quarantine,
}

/// One named rule.
#[derive(Debug, Clone, PartialEq)]
pub struct Rule {
    /// Name, shown in explanations and diffs.
    pub name: String,
    /// Predicates.
    pub when: Match,
    /// What to do.
    pub action: Action,
}

/// An ordered rule list plus global thresholds.
#[derive(Debug, Clone, PartialEq)]
pub struct Policy {
    /// Rules, evaluated in order, first match wins per stage.
    pub rules: Vec<Rule>,
    /// Size bucket boundaries.
    pub size_thresholds: SizeThresholds,
}

/// Which stages a decision covers.
#[derive(Debug, Clone, Copy, PartialEq, Eq, Hash, Structural)]
#[non_exhaustive]
pub enum DecisionClass {
    /// Nothing to do.
    Nothing,
    /// Audio only.
    Audio,
    /// Video only.
    Video,
    /// Audio first, then video as a follow-up job.
    AudioThenVideo,
    /// Excluded and flagged.
    Quarantined,
}

impl DecisionClass {
    /// The canonical spelling.
    pub open spec fn spelling(self) -> Seq<char> {
        match self {
            DecisionClass::Nothing => "None"@,
            DecisionClass::Audio => "Audio"@,
            DecisionClass::Video => "Video"@,
            DecisionClass::AudioThenVideo => "AudioThenVideo"@,
            DecisionClass::Quarantined => "Quarantined"@,
        }
    }

    /// What a canonical spelling names.
    pub open spec fn spelled(s: Seq<char>) -> Option<DecisionClass> {
        if s == "None"@ {
            Some(DecisionClass::Nothing)
        } else if s == "Audio"@ {
            Some(DecisionClass::Audio)
        } else if s == "Video"@ {
            Some(DecisionClass::Video)
        } else if s == "AudioThenVideo"@ {
            Some(DecisionClass::AudioThenVideo)
        } else if s == "Quarantined"@ {
            Some(DecisionClass::Quarantined)
        } else {
            None
        }
    }

    /// The canonical spelling, which is also the value stored.
    pub fn as_str(self) -> (r: &'static str)
        ensures
            r@ == self.spelling(),
            self is Nothing ==> r@ == "None"@,
            self is Audio ==> r@ == "Audio"@,
            self is Video ==> r@ == "Video"@,
            self is AudioThenVideo ==> r@ == "AudioThenVideo"@,
            self is Quarantined ==> r@ == "Quarantined"@,
    {
        match self {
            DecisionClass::Nothing => "None",
            DecisionClass::Audio => "Audio",
            DecisionClass::Video => "Video",
            DecisionClass::AudioThenVideo => "AudioThenVideo",
            DecisionClass::Quarantined => "Quarantined",
        }
    }

    /// Parse the canonical spelling. `None` for anything else.
    pub fn parse(s: &str) -> (r: Option<DecisionClass>)
        ensures
            r == DecisionClass::spelled(s@),
            r == Some(DecisionClass::Nothing) ==> s@ == "None"@,
            r == Some(DecisionClass::Audio) ==> s@ == "Audio"@,
            r == Some(DecisionClass::Video) ==> s@ == "Video"@,
            r == Some(DecisionClass::AudioThenVideo) ==> s@ == "AudioThenVideo"@,
            r == Some(DecisionClass::Quarantined) ==> s@ == "Quarantined"@,
    {
        if text::same(s, "None") {
            Some(DecisionClass::Nothing)
        } else if text::same(s, "Audio") {
            Some(DecisionClass::Audio)
        } else if text::same(s, "Video") {
            Some(DecisionClass::Video)
        } else if text::same(s, "AudioThenVideo") {
            Some(DecisionClass::AudioThenVideo)
        } else if text::same(s, "Quarantined") {
            Some(DecisionClass::Quarantined)
        } else {
            None
        }
    }

    /// Every value survives its spelling, and nothing else is accepted.
    pub proof fn law_round_trip(self, s: Seq<char>)
        ensures
            DecisionClass::spelled(self.spelling()) == Some(self),
            DecisionClass::spelled(s) matches Some(v) ==> v.spelling() == s,
    {
        reveal_strlit("None");
        reveal_strlit("Audio");
        reveal_strlit("Video");
        reveal_strlit("AudioThenVideo");
        reveal_strlit("Quarantined");
        assert("None"@.len() == 4);
        assert("Audio"@.len() == 5);
        assert("Video"@.len() == 5);
        assert("AudioThenVideo"@.len() == 14);
        assert("Quarantined"@.len() == 11);
        assert("Audio"@[0] != "Video"@[0]);
    }
}

/// Target audio encode.
#[derive(Debug, Clone, PartialEq)]
pub struct AudioPlan {
    /// Target codec.
    pub codec: EncoderId,
    /// Target bitrate.
    pub bitrate: String,
}

/// Target video encode.
#[derive(Debug, Clone, PartialEq)]
pub struct VideoPlan {
    /// Encoders to try, most preferred first.
    pub encoder_preference: Vec<EncoderId>,
    /// Quality target.
    pub quality: u8,
    /// Source bit depth, which the output must preserve.
    pub source_depth: BitDepth,
}

/// The outcome of evaluating a policy.
#[derive(Debug, Clone, PartialEq)]
pub struct Decision {
    /// Which stages apply.
    pub class: DecisionClass,
    /// Audio stage, if any.
    pub audio: Option<AudioPlan>,
    /// Video stage, if any.
    pub video: Option<VideoPlan>,
    /// Why, in words an operator can act on.
    pub reason: String,
}

/// Which rule produced which effect.
#[derive(Debug, Clone, PartialEq)]
pub struct RuleTrace {
    /// Rule name.
    pub rule: String,
    /// Whether it matched.
    pub matched: bool,
    /// What it contributed.
    pub effect: String,
}

// ------------------------------------------------------------------ models --

/// What an audio plan says.
pub struct AudioModel {
    /// Target codec.
    pub codec: EncoderId,
    /// Target bitrate.
    pub bitrate: Seq<char>,
}

/// What a video plan says.
pub struct VideoModel {
    /// Encoders to try, most preferred first.
    pub encoder_preference: Seq<EncoderId>,
    /// Quality target.
    pub quality: u8,
    /// Source bit depth.
    pub source_depth: BitDepth,
}

/// What a decision says.
pub struct DecisionModel {
    /// Which stages apply.
    pub class: DecisionClass,
    /// Audio stage, if any.
    pub audio: Option<AudioModel>,
    /// Video stage, if any.
    pub video: Option<VideoModel>,
    /// Why.
    pub reason: Seq<char>,
}

/// What a trace entry says.
pub struct TraceModel {
    /// Rule name.
    pub rule: Seq<char>,
    /// Whether it matched.
    pub matched: bool,
    /// What it contributed.
    pub effect: Seq<char>,
}

impl View for AudioPlan {
    type V = AudioModel;

    open spec fn view(&self) -> AudioModel {
        AudioModel { codec: self.codec, bitrate: self.bitrate@ }
    }
}

impl View for VideoPlan {
    type V = VideoModel;

    open spec fn view(&self) -> VideoModel {
        VideoModel {
            encoder_preference: self.encoder_preference@,
            quality: self.quality,
            source_depth: self.source_depth,
        }
    }
}

/// An optional audio plan's model.
pub open spec fn audio_model(a: Option<AudioPlan>) -> Option<AudioModel> {
    match a {
        Some(p) => Some(p@),
        None => None,
    }
}

/// An optional video plan's model.
pub open spec fn video_model(v: Option<VideoPlan>) -> Option<VideoModel> {
    match v {
        Some(p) => Some(p@),
        None => None,
    }
}

impl View for Decision {
    type V = DecisionModel;

    open spec fn view(&self) -> DecisionModel {
        DecisionModel {
            class: self.class,
            audio: audio_model(self.audio),
            video: video_model(self.video),
            reason: self.reason@,
        }
    }
}

impl View for RuleTrace {
    type V = TraceModel;

    open spec fn view(&self) -> TraceModel {
        TraceModel { rule: self.rule@, matched: self.matched, effect: self.effect@ }
    }
}

/// The models of a trace.
pub open spec fn trace_models(v: Seq<RuleTrace>) -> Seq<TraceModel> {
    v.map_values(|t: RuleTrace| t@)
}

// -------------------------------------------------------------- evaluation --

/// How far an evaluation has come.
pub struct Progress {
    /// The audio stage planned so far.
    pub audio: Option<AudioModel>,
    /// The video stage planned so far.
    pub video: Option<VideoModel>,
    /// Whether the video stage has been vetoed.
    pub vetoed: bool,
    /// What has been decided, in words.
    pub reasons: Seq<Seq<char>>,
    /// What each rule contributed.
    pub trace: Seq<TraceModel>,
    /// The verdict of a rule that ended the evaluation.
    pub stopped: Option<(DecisionClass, Seq<char>)>,
}

/// Before the first rule. HDR and Dolby Vision veto the video stage and leave
/// audio available.
pub open spec fn begun(f: FileFacts) -> Progress {
    Progress {
        audio: None,
        video: None,
        vetoed: !f.encodable(),
        reasons: if f.encodable() {
            Seq::empty()
        } else {
            seq!["video left alone (HDR or Dolby Vision)"@]
        },
        trace: if f.encodable() {
            Seq::empty()
        } else {
            seq![
                TraceModel {
                    rule: "<builtin HDR/DV veto>"@,
                    matched: true,
                    effect: "video stage vetoed"@,
                },
            ]
        },
        stopped: None,
    }
}

/// The depth of the source, or eight bits.
pub open spec fn depth_or_eight(d: Option<BitDepth>) -> BitDepth {
    match d {
        Some(b) => b,
        None => BitDepth::Eight,
    }
}

/// What one rule does to an evaluation, but for the trace, with its effect.
pub open spec fn applied(f: FileFacts, rule: Rule, p: Progress) -> (Progress, Seq<char>) {
    if !rule.when.holds(f) {
        (p, "no match"@)
    } else {
        match rule.action {
            Action::Skip => (
                Progress {
                    stopped: Some(
                        (DecisionClass::Nothing, "rule '"@ + rule.name@ + "' says skip"@),
                    ),
                    ..p
                },
                "skip all"@,
            ),
            Action::Quarantine => (
                Progress {
                    stopped: Some(
                        (
                            DecisionClass::Quarantined,
                            "rule '"@ + rule.name@ + "' quarantined this file"@,
                        ),
                    ),
                    ..p
                },
                "quarantine"@,
            ),
            Action::SkipVideo => (Progress { vetoed: true, ..p }, "video stage vetoed"@),
            Action::EncodeAudio { codec, bitrate } => if p.audio is None {
                (
                    Progress {
                        audio: Some(AudioModel { codec, bitrate: bitrate@ }),
                        reasons: p.reasons.push("audio -> "@ + codec.ffmpeg()),
                        ..p
                    },
                    "audio stage planned"@,
                )
            } else {
                (p, "audio already planned by an earlier rule"@)
            },
            Action::EncodeVideo { encoder_preference, quality } => if p.vetoed {
                (p, "video stage vetoed, rule ignored"@)
            } else if p.video is None {
                (
                    Progress {
                        video: Some(
                            VideoModel {
                                encoder_preference: encoder_preference@,
                                quality,
                                source_depth: depth_or_eight(f.video_bit_depth),
                            },
                        ),
                        reasons: p.reasons.push("video re-encode planned"@),
                        ..p
                    },
                    "video stage planned"@,
                )
            } else {
                (p, "video already planned by an earlier rule"@)
            },
        }
    }
}

/// What one rule does to an evaluation. Nothing follows a rule that ended it.
pub open spec fn stepped(f: FileFacts, rule: Rule, p: Progress) -> Progress {
    if p.stopped is Some {
        p
    } else {
        let (q, effect) = applied(f, rule, p);
        Progress {
            trace: p.trace.push(
                TraceModel { rule: rule.name@, matched: rule.when.holds(f), effect },
            ),
            ..q
        }
    }
}

/// The evaluation after a list of rules.
pub open spec fn scanned(f: FileFacts, rules: Seq<Rule>) -> Progress
    decreases rules.len(),
{
    if rules.len() == 0 {
        begun(f)
    } else {
        stepped(f, rules.last(), scanned(f, rules.drop_last()))
    }
}

/// The class two stages make together.
pub open spec fn class_of(audio: bool, video: bool) -> DecisionClass {
    if audio && video {
        DecisionClass::AudioThenVideo
    } else if audio {
        DecisionClass::Audio
    } else if video {
        DecisionClass::Video
    } else {
        DecisionClass::Nothing
    }
}

/// The decision an evaluation comes to.
pub open spec fn concluded(p: Progress) -> DecisionModel {
    match p.stopped {
        Some((class, reason)) => DecisionModel { class, audio: None, video: None, reason },
        None => DecisionModel {
            class: class_of(p.audio is Some, p.video is Some),
            audio: p.audio,
            video: p.video,
            reason: if p.reasons.len() == 0 {
                "no rule required work"@
            } else {
                text::joined(p.reasons, "; "@)
            },
        },
    }
}

/// Why a file is excluded whatever the policy says.
pub open spec fn exclusion_reason(f: FileFacts) -> Seq<char> {
    if f.has_object_audio {
        "object audio (Atmos/DTS:X) would be destroyed by a channel re-encode"@
    } else {
        "Dolby Vision profile cannot be round-tripped"@
    }
}

/// The decision a policy makes on facts. Hard exclusions come first: they are
/// not rules, so no policy edit overrides them.
pub open spec fn decided(f: FileFacts, policy: Policy) -> DecisionModel {
    if f.excluded() {
        DecisionModel {
            class: DecisionClass::Quarantined,
            audio: None,
            video: None,
            reason: exclusion_reason(f),
        }
    } else {
        concluded(scanned(f, policy.rules@))
    }
}

/// The explanation of a decision.
pub open spec fn explained(f: FileFacts, policy: Policy) -> Seq<TraceModel> {
    if f.excluded() {
        seq![
            TraceModel { rule: "<builtin exclusion>"@, matched: true, effect: "quarantined"@ },
        ]
    } else {
        scanned(f, policy.rules@).trace
    }
}

fn push_trace(trace: &mut Vec<RuleTrace>, rule: &str, matched: bool, effect: &str)
    ensures
        trace_models(final(trace)@) == trace_models(old(trace)@).push(
            TraceModel { rule: rule@, matched, effect: effect@ },
        ),
{
    trace.push(RuleTrace { rule: rule.to_owned(), matched, effect: effect.to_owned() });
    assert(trace_models(trace@) =~= trace_models(old(trace)@).push(
        TraceModel { rule: rule@, matched, effect: effect@ },
    ));
}

fn copy_encoders(v: &Vec<EncoderId>) -> (r: Vec<EncoderId>)
    ensures
        r@ == v@,
{
    let mut r: Vec<EncoderId> = Vec::new();
    let mut i: usize = 0;
    while i < v.len()
        invariant
            i <= v@.len(),
            r@ == v@.take(i as int),
        decreases v.len() - i,
    {
        r.push(v[i]);
        i += 1;
        assert(r@ =~= v@.take(i as int));
    }
    assert(v@.take(i as int) =~= v@);
    r
}

proof fn lemma_stopped_stays(f: FileFacts, rules: Seq<Rule>, n: int)
    requires
        0 <= n <= rules.len(),
        scanned(f, rules.take(n)).stopped is Some,
    ensures
        scanned(f, rules) == scanned(f, rules.take(n)),
    decreases rules.len(),
{
    if n < rules.len() {
        assert(rules.drop_last().take(n) =~= rules.take(n));
        lemma_stopped_stays(f, rules.drop_last(), n);
    } else {
        assert(rules.take(n) =~= rules);
    }
}

/// Evaluate a policy against a file's facts.
pub fn evaluate(facts: &FileFacts, policy: &Policy) -> (r: Decision)
    ensures
        r@ == decided(*facts, *policy),
{
    evaluate_explained(facts, policy).0
}

/// Evaluate, and report which rules fired.
#[verifier::rlimit(40)]
pub fn evaluate_explained(facts: &FileFacts, policy: &Policy) -> (r: (Decision, Vec<RuleTrace>))
    ensures
        r.0@ == decided(*facts, *policy),
        trace_models(r.1@) == explained(*facts, *policy),
{
    let mut trace: Vec<RuleTrace> = Vec::new();
    if facts.is_excluded() {
        push_trace(&mut trace, "<builtin exclusion>", true, "quarantined");
        assert(trace_models(trace@) =~= explained(*facts, *policy));
        let reason = if facts.has_object_audio {
            "object audio (Atmos/DTS:X) would be destroyed by a channel re-encode".to_owned()
        } else {
            "Dolby Vision profile cannot be round-tripped".to_owned()
        };
        let d = Decision { class: DecisionClass::Quarantined, audio: None, video: None, reason };
        return (d, trace);
    }
    let mut audio: Option<AudioPlan> = None;
    let mut video: Option<VideoPlan> = None;
    let mut vetoed: bool = false;
    let mut reasons: Vec<String> = Vec::new();
    // The two stages are decided independently: an HDR film with a TrueHD track
    // still has useful audio work.
    if !facts.video_is_encodable() {
        vetoed = true;
        text::push_text(&mut reasons, "video left alone (HDR or Dolby Vision)");
        push_trace(&mut trace, "<builtin HDR/DV veto>", true, "video stage vetoed");
    }
    assert(text::texts(reasons@) =~= begun(*facts).reasons);
    assert(trace_models(trace@) =~= begun(*facts).trace);
    assert(policy.rules@.take(0) =~= Seq::empty());
    let mut i: usize = 0;
    while i < policy.rules.len()
        invariant
            i <= policy.rules@.len(),
            !facts.excluded(),
            ({
                let p = scanned(*facts, policy.rules@.take(i as int));
                &&& p.stopped is None
                &&& p.audio == audio_model(audio)
                &&& p.video == video_model(video)
                &&& p.vetoed == vetoed
                &&& p.reasons == text::texts(reasons@)
                &&& p.trace == trace_models(trace@)
            }),
        decreases policy.rules.len() - i,
    {
        let rule = &policy.rules[i];
        let ghost before = scanned(*facts, policy.rules@.take(i as int));
        let ghost next = policy.rules@.take(i + 1);
        assert(next.drop_last() =~= policy.rules@.take(i as int));
        assert(next.last() == *rule);
        assert(scanned(*facts, next) == stepped(*facts, *rule, before));
        let matched = rule.when.matches(facts);
        let effect: &str = if !matched {
            "no match"
        } else {
            match &rule.action {
                Action::Skip => {
                    push_trace(&mut trace, rule.name.as_str(), true, "skip all");
                    let reason = text::cat3("rule '", rule.name.as_str(), "' says skip");
                    proof {
                        lemma_stopped_stays(*facts, policy.rules@, i + 1);
                    }
                    let d = Decision {
                        class: DecisionClass::Nothing,
                        audio: None,
                        video: None,
                        reason,
                    };
                    return (d, trace);
                },
                Action::Quarantine => {
                    push_trace(&mut trace, rule.name.as_str(), true, "quarantine");
                    let reason = text::cat3("rule '", rule.name.as_str(), "' quarantined this file");
                    proof {
                        lemma_stopped_stays(*facts, policy.rules@, i + 1);
                    }
                    let d = Decision {
                        class: DecisionClass::Quarantined,
                        audio: None,
                        video: None,
                        reason,
                    };
                    return (d, trace);
                },
                Action::SkipVideo => {
                    vetoed = true;
                    "video stage vetoed"
                },
                Action::EncodeAudio { codec, bitrate } => {
                    if audio.is_none() {
                        audio = Some(AudioPlan { codec: *codec, bitrate: bitrate.clone() });
                        text::push_owned(
                            &mut reasons,
                            text::cat2("audio -> ", codec.as_ffmpeg()),
                        );
                        "audio stage planned"
                    } else {
                        "audio already planned by an earlier rule"
                    }
                },
                Action::EncodeVideo { encoder_preference, quality } => {
                    if vetoed {
                        "video stage vetoed, rule ignored"
                    } else if video.is_none() {
                        video = Some(
                            VideoPlan {
                                encoder_preference: copy_encoders(encoder_preference),
                                quality: *quality,
                                source_depth: facts.video_bit_depth.unwrap_or(BitDepth::Eight),
                            },
                        );
                        text::push_text(&mut reasons, "video re-encode planned");
                        "video stage planned"
                    } else {
                        "video already planned by an earlier rule"
                    }
                },
            }
        };
        push_trace(&mut trace, rule.name.as_str(), matched, effect);
        i += 1;
    }
    assert(policy.rules@.take(i as int) =~= policy.rules@);
    // Audio runs first and the video job is derived afterwards, from a fresh
    // probe of the audio stage's output.
    let class = match (audio.is_some(), video.is_some()) {
        (false, false) => DecisionClass::Nothing,
        (true, false) => DecisionClass::Audio,
        (false, true) => DecisionClass::Video,
        (true, true) => DecisionClass::AudioThenVideo,
    };
    assert(text::texts(reasons@).len() == reasons@.len());
    let reason = if reasons.len() == 0 {
        "no rule required work".to_owned()
    } else {
        text::join(reasons.as_slice(), "; ")
    };
    (Decision { class, audio, video, reason }, trace)
}

// -------------------------------------------------------------- what is owed --

/// A decision owes an encode, and a job to run it. Video of 12 bits has no
/// target format, so it owes none.
pub open spec fn owes_work(d: Decision) -> bool {
    match d.class {
        DecisionClass::Nothing => false,
        DecisionClass::Quarantined => false,
        DecisionClass::Audio => d.audio is Some,
        DecisionClass::AudioThenVideo => d.audio is Some,
        DecisionClass::Video => d.video is Some && d.video->0.encoder_preference@.len() > 0
            && !(d.video->0.source_depth is Twelve),
    }
}

fn is_twelve(depth: BitDepth) -> (r: bool)
    ensures
        r == (depth is Twelve),
{
    matches!(depth, BitDepth::Twelve)
}

/// Turn a decision into the encode it describes.
///
/// `None` when the decision owes no encode, and for video of 12 bits, which has
/// no target format: declining is safe, and reducing it is not. The audio stage
/// is emitted for `Audio` and for `AudioThenVideo`: the video half is a
/// follow-up job. Every stream is mapped, or ffmpeg would keep only the default
/// track.
pub fn encode_plan_for(d: &Decision, _facts: &FileFacts) -> (r: Option<EncodePlan>)
    ensures
        r is Some == owes_work(*d),
        r is Some && !(d.class is Video) ==> {
            let plan = r->0;
            &&& plan.video_codec is Copy
            &&& plan.audio_codec == d.audio->0.codec
            &&& plan.pix_fmt is None
            &&& text::texts(plan.extra_args@) == seq![
                "-b:a"@,
                d.audio->0.bitrate@,
                "-map"@,
                "0"@,
            ]
        },
        r is Some && d.class is Video ==> {
            let plan = r->0;
            let encoder = d.video->0.encoder_preference@[0];
            &&& plan.video_codec == encoder
            &&& plan.audio_codec is Copy
            &&& plan.pix_fmt == crate::plan::spec_pix_fmt_for(encoder, d.video->0.source_depth)
            &&& (encoder is HevcNvenc || encoder is Libx265 || encoder is Libx264)
                && d.video->0.source_depth is Eight ==> plan.pix_fmt == Some(PixFmt::Yuv420p)
            &&& encoder is HevcNvenc && d.video->0.source_depth is Ten ==> plan.pix_fmt == Some(
                PixFmt::P010le,
            )
            &&& (encoder is Libx265 || encoder is Libx264) && d.video->0.source_depth is Ten
                ==> plan.pix_fmt == Some(PixFmt::Yuv420p10le)
            &&& text::texts(plan.extra_args@) == seq![
                "-crf"@,
                text::dec(d.video->0.quality as nat),
                "-map"@,
                "0"@,
            ]
        },
{
    match d.class {
        DecisionClass::Nothing | DecisionClass::Quarantined => None,
        DecisionClass::Audio | DecisionClass::AudioThenVideo => match &d.audio {
            None => None,
            Some(audio) => {
                let mut extra_args: Vec<String> = Vec::new();
                text::push_text(&mut extra_args, "-b:a");
                text::push_text(&mut extra_args, audio.bitrate.as_str());
                text::push_text(&mut extra_args, "-map");
                text::push_text(&mut extra_args, "0");
                assert(text::texts(extra_args@) =~= seq!["-b:a"@, audio.bitrate@, "-map"@, "0"@]);
                Some(
                    EncodePlan {
                        video_codec: EncoderId::Copy,
                        audio_codec: audio.codec,
                        pix_fmt: None,
                        extra_args,
                    },
                )
            },
        },
        DecisionClass::Video => match &d.video {
            None => None,
            Some(video) => {
                if video.encoder_preference.len() == 0 || is_twelve(video.source_depth) {
                    return None;
                }
                let encoder = video.encoder_preference[0];
                let quality = text::u64_text(video.quality as u64);
                let mut extra_args: Vec<String> = Vec::new();
                text::push_text(&mut extra_args, "-crf");
                text::push_text(&mut extra_args, quality.as_str());
                text::push_text(&mut extra_args, "-map");
                text::push_text(&mut extra_args, "0");
                assert(text::texts(extra_args@) =~= seq!["-crf"@, quality@, "-map"@, "0"@]);
                Some(
                    EncodePlan {
                        video_codec: encoder,
                        audio_codec: EncoderId::Copy,
                        pix_fmt: pix_fmt_for(encoder, video.source_depth),
                        extra_args,
                    },
                )
            },
        },
    }
}

/// The share a video pass must save: 2%.
pub const VIDEO_MIN_SHRINK_PPM: u32 = 20_000;

/// The contract an output is validated against.
pub open spec fn spec_for(facts: FileFacts, class: DecisionClass) -> ValidationSpec {
    let source = or_zero(facts.duration_us);
    ValidationSpec {
        source_duration_us: source,
        max_shorter_us: if source / 200 < 5_000_000 {
            (source / 200) as u64
        } else {
            5_000_000
        },
        max_longer_us: 2_000_000,
        expected_audio_streams: facts.audio_track_count,
        expected_subtitle_streams: facts.subtitle_track_count,
        source_bytes: facts.size_bytes,
        size_policy: if class is Audio || class is AudioThenVideo {
            SizePolicy::MayGrow
        } else {
            SizePolicy::RequireSmaller { min_shrink_ppm: VIDEO_MIN_SHRINK_PPM }
        },
    }
}

/// Build the validation contract for an output, from the source's facts.
///
/// The tolerance is asymmetric and capped absolutely, and an audio-only pass
/// may grow the file.
pub fn validation_spec_for(facts: &FileFacts, d: &Decision) -> (r: ValidationSpec)
    ensures
        r == spec_for(*facts, d.class),
{
    let source_duration_us: u64 = facts.duration_us.unwrap_or(0);
    let share: u64 = source_duration_us / 200;
    let max_shorter_us: u64 = if share < 5_000_000 {
        share
    } else {
        5_000_000
    };
    let size_policy = match d.class {
        DecisionClass::Audio | DecisionClass::AudioThenVideo => SizePolicy::MayGrow,
        _ => SizePolicy::RequireSmaller { min_shrink_ppm: VIDEO_MIN_SHRINK_PPM },
    };
    ValidationSpec {
        source_duration_us,
        max_shorter_us,
        max_longer_us: 2_000_000,
        expected_audio_streams: facts.audio_track_count,
        expected_subtitle_streams: facts.subtitle_track_count,
        source_bytes: facts.size_bytes,
        size_policy,
    }
}

/// The requirements of an audio job: the class every agent offers, the encoder
/// and the muxer.
pub open spec fn audio_requirements(reqs: Seq<Requirement>, codec: EncoderId) -> bool {
    &&& reqs.len() == 3
    &&& reqs[0] == Requirement::AgentClass(AgentClass::Audio)
    &&& reqs[1] == Requirement::Encoder(codec)
    &&& reqs[2] == Requirement::Muxer(ContainerId::Matroska)
}

/// The requirements of a video job: class, encoder, muxer and, where the codec
/// is known, the software decode it performs.
pub open spec fn video_requirements(
    reqs: Seq<Requirement>,
    encoder: EncoderId,
    depth: BitDepth,
    codec: Option<String>,
) -> bool {
    &&& reqs.len() == (if codec is Some {
        4int
    } else {
        3int
    })
    &&& reqs[0] == Requirement::AgentClass(
        if encoder is HevcNvenc {
            AgentClass::Gpu
        } else {
            AgentClass::Cpu
        },
    )
    &&& reqs[1] == Requirement::Encoder(encoder)
    &&& reqs[2] == Requirement::Muxer(ContainerId::Matroska)
    &&& codec matches Some(c) ==> {
        &&& reqs[3] is Decoder
        &&& reqs[3]->Decoder_0.codec@ == c@
        &&& reqs[3]->Decoder_0.profile@.len() == 0
        &&& reqs[3]->Decoder_0.bit_depth == depth
        &&& reqs[3]->Decoder_0.kind is Software
    }
}

/// A job is what a decision owes next.
pub open spec fn owed(d: Decision, facts: FileFacts, t: SizeThresholds, job: JobSpec) -> bool {
    &&& job.size_bucket == crate::facts::spec_bucket(facts.size_bytes, t)
    &&& job.expected_content_sig@ == document::blake3_hex(crate::facts::material(facts))
    &&& if d.class is Video {
        let encoder = d.video->0.encoder_preference@[0];
        &&& job.class == (if encoder is HevcNvenc {
            JobClass::VideoGpu
        } else {
            JobClass::VideoCpu
        })
        &&& video_requirements(
            job.requirements.0@,
            encoder,
            d.video->0.source_depth,
            facts.video_codec,
        )
    } else {
        &&& job.class is Audio
        &&& audio_requirements(job.requirements.0@, d.audio->0.codec)
    }
}

/// Derive the next job for a decision, or `None` when there is nothing to do.
///
/// Only ever one job at a time per file: for `AudioThenVideo` this is the
/// audio job, and the video job is derived after its output is probed. Video of
/// 12 bits has no job, as it has no encode plan.
pub fn next_job(d: &Decision, facts: &FileFacts, t: &SizeThresholds) -> (r: Option<JobSpec>)
    ensures
        r is Some == owes_work(*d),
        r is Some ==> owed(*d, *facts, *t, r->0),
{
    let bucket = size_bucket_for(facts.size_bytes, t);
    let sig = content_sig(facts).0;
    match d.class {
        DecisionClass::Nothing | DecisionClass::Quarantined => None,
        DecisionClass::Audio | DecisionClass::AudioThenVideo => match &d.audio {
            None => None,
            Some(plan) => {
                // `Audio`, not `Cpu`: the video is copied, so a software video
                // encoder is no precondition.
                let mut reqs: Vec<Requirement> = Vec::new();
                reqs.push(Requirement::AgentClass(AgentClass::Audio));
                reqs.push(Requirement::Encoder(plan.codec));
                reqs.push(Requirement::Muxer(ContainerId::Matroska));
                Some(
                    JobSpec {
                        class: JobClass::Audio,
                        size_bucket: bucket,
                        requirements: Requirements(reqs),
                        expected_content_sig: sig,
                    },
                )
            },
        },
        DecisionClass::Video => match &d.video {
            None => None,
            Some(plan) => {
                if plan.encoder_preference.len() == 0 || is_twelve(plan.source_depth) {
                    return None;
                }
                let encoder = plan.encoder_preference[0];
                let gpu = matches!(encoder, EncoderId::HevcNvenc);
                let mut reqs: Vec<Requirement> = Vec::new();
                reqs.push(
                    Requirement::AgentClass(
                        if gpu {
                            AgentClass::Gpu
                        } else {
                            AgentClass::Cpu
                        },
                    ),
                );
                reqs.push(Requirement::Encoder(encoder));
                reqs.push(Requirement::Muxer(ContainerId::Matroska));
                // The decode this job performs is a software one on both
                // paths, and software decode does not vary by profile.
                match &facts.video_codec {
                    Some(codec) => {
                        reqs.push(
                            Requirement::Decoder(
                                DecoderTriple {
                                    codec: codec.clone(),
                                    profile: String::new(),
                                    bit_depth: plan.source_depth,
                                    kind: DecoderKind::Software,
                                },
                            ),
                        );
                    },
                    None => {},
                }
                Some(
                    JobSpec {
                        class: if gpu {
                            JobClass::VideoGpu
                        } else {
                            JobClass::VideoCpu
                        },
                        size_bucket: bucket,
                        requirements: Requirements(reqs),
                        expected_content_sig: sig,
                    },
                )
            },
        },
    }
}

// ----------------------------------------------------------------- version --

/// A content-addressed version of a policy.
#[derive(Debug, Clone, PartialEq, Eq)]
pub struct RulesVersion(pub String);

/// A list of texts as a JSON array of strings.
pub open spec fn string_list(v: Seq<String>) -> Seq<char> {
    document::json_list(v.map_values(|s: String| document::json_string(s@)))
}

/// A list of encoders as a JSON array.
pub open spec fn encoder_list(v: Seq<EncoderId>) -> Seq<char> {
    document::json_list(v.map_values(|e: EncoderId| document::json_word(e.name())))
}

/// An optional boolean as JSON.
pub open spec fn json_opt_bool(b: Option<bool>) -> Seq<char> {
    match b {
        Some(v) => document::bool_word(v),
        None => "null"@,
    }
}

/// An optional 64-bit number.
pub open spec fn opt_u64(n: Option<u64>) -> Option<nat> {
    match n {
        Some(v) => Some(v as nat),
        None => None,
    }
}

impl Match {
    /// The predicates as a JSON object.
    pub open spec fn json(self) -> Seq<char> {
        "{\"video_codec_in\":"@ + string_list(self.video_codec_in@) + ",\"audio_codec_any\":"@
            + string_list(self.audio_codec_any@) + ",\"min_width\":"@
            + document::json_opt_number(crate::facts::opt_u32(self.min_width))
            + ",\"min_bit_rate_bps\":"@ + document::json_opt_number(
            opt_u64(self.min_bit_rate_bps),
        ) + ",\"min_size_bytes\":"@ + document::json_opt_number(opt_u64(self.min_size_bytes))
            + ",\"is_hdr\":"@ + json_opt_bool(self.is_hdr) + ",\"is_dovi\":"@ + json_opt_bool(
            self.is_dovi,
        ) + "}"@
    }

    fn json_text(&self) -> (r: String)
        ensures
            r@ == self.json(),
    {
        let width: Option<u64> = match self.min_width {
            Some(w) => Some(w as u64),
            None => None,
        };
        let mut s = "{\"video_codec_in\":".to_owned();
        s.append(string_list_text(&self.video_codec_in).as_str());
        s.append(",\"audio_codec_any\":");
        s.append(string_list_text(&self.audio_codec_any).as_str());
        s.append(",\"min_width\":");
        s.append(document::opt_number_text(width).as_str());
        s.append(",\"min_bit_rate_bps\":");
        s.append(document::opt_number_text(self.min_bit_rate_bps).as_str());
        s.append(",\"min_size_bytes\":");
        s.append(document::opt_number_text(self.min_size_bytes).as_str());
        s.append(",\"is_hdr\":");
        s.append(opt_bool_text(self.is_hdr));
        s.append(",\"is_dovi\":");
        s.append(opt_bool_text(self.is_dovi));
        s.append("}");
        s
    }
}

impl Action {
    /// The action as a JSON value.
    pub open spec fn json(self) -> Seq<char> {
        match self {
            Action::EncodeVideo { encoder_preference, quality } =>
                "{\"EncodeVideo\":{\"encoder_preference\":"@ + encoder_list(encoder_preference@)
                + ",\"quality\":"@ + text::dec(quality as nat) + "}}"@,
            Action::EncodeAudio { codec, bitrate } => "{\"EncodeAudio\":{\"codec\":"@
                + document::json_word(codec.name()) + ",\"bitrate\":"@ + document::json_string(
                bitrate@,
            ) + "}}"@,
            Action::Skip => "\"Skip\""@,
            Action::SkipVideo => "\"SkipVideo\""@,
            Action::Quarantine => "\"Quarantine\""@,
        }
    }

    fn json_text(&self) -> (r: String)
        ensures
            r@ == self.json(),
    {
        match self {
            Action::EncodeVideo { encoder_preference, quality } => {
                let mut s = "{\"EncodeVideo\":{\"encoder_preference\":".to_owned();
                s.append(encoder_list_text(encoder_preference).as_str());
                s.append(",\"quality\":");
                text::push_u64(&mut s, *quality as u64);
                s.append("}}");
                s
            },
            Action::EncodeAudio { codec, bitrate } => {
                let mut s = "{\"EncodeAudio\":{\"codec\":".to_owned();
                s.append(document::word_text(codec.variant_name()).as_str());
                s.append(",\"bitrate\":");
                s.append(document::json_text(bitrate.as_str()).as_str());
                s.append("}}");
                s
            },
            Action::Skip => "\"Skip\"".to_owned(),
            Action::SkipVideo => "\"SkipVideo\"".to_owned(),
            Action::Quarantine => "\"Quarantine\"".to_owned(),
        }
    }
}

impl Rule {
    /// The rule as a JSON object.
    pub open spec fn json(self) -> Seq<char> {
        "{\"name\":"@ + document::json_string(self.name@) + ",\"when\":"@ + self.when.json()
            + ",\"then\":"@ + self.action.json() + "}"@
    }

    fn json_text(&self) -> (r: String)
        ensures
            r@ == self.json(),
    {
        let mut s = "{\"name\":".to_owned();
        s.append(document::json_text(self.name.as_str()).as_str());
        s.append(",\"when\":");
        s.append(self.when.json_text().as_str());
        s.append(",\"then\":");
        s.append(self.action.json_text().as_str());
        s.append("}");
        s
    }
}

/// The rules of a policy as JSON objects.
pub open spec fn rule_objects(v: Seq<Rule>) -> Seq<Seq<char>> {
    v.map_values(|r: Rule| r.json())
}

impl Policy {
    /// The canonical JSON document: every field, in declaration order.
    pub open spec fn document(self) -> Seq<char> {
        "{\"rules\":"@ + document::json_list(rule_objects(self.rules@))
            + ",\"size_thresholds\":{\"small_max_bytes\":"@ + text::dec(
            self.size_thresholds.small_max_bytes as nat,
        ) + ",\"medium_max_bytes\":"@ + text::dec(self.size_thresholds.medium_max_bytes as nat)
            + "}}"@
    }

    /// The canonical JSON document.
    pub fn canonical_json(&self) -> (r: String)
        ensures
            r@ == self.document(),
    {
        let mut parts: Vec<String> = Vec::new();
        let mut i: usize = 0;
        while i < self.rules.len()
            invariant
                i <= self.rules@.len(),
                text::texts(parts@) == rule_objects(self.rules@.take(i as int)),
            decreases self.rules.len() - i,
        {
            text::push_owned(&mut parts, self.rules[i].json_text());
            i += 1;
            assert(text::texts(parts@) =~= rule_objects(self.rules@.take(i as int)));
        }
        assert(self.rules@.take(i as int) =~= self.rules@);
        let mut s = "{\"rules\":".to_owned();
        s.append(document::list_text(parts.as_slice()).as_str());
        s.append(",\"size_thresholds\":{\"small_max_bytes\":");
        text::push_u64(&mut s, self.size_thresholds.small_max_bytes);
        s.append(",\"medium_max_bytes\":");
        text::push_u64(&mut s, self.size_thresholds.medium_max_bytes);
        s.append("}}");
        s
    }
}

fn opt_bool_text(b: Option<bool>) -> (r: &'static str)
    ensures
        r@ == json_opt_bool(b),
{
    match b {
        Some(v) => document::bool_text(v),
        None => "null",
    }
}

fn string_list_text(v: &Vec<String>) -> (r: String)
    ensures
        r@ == string_list(v@),
{
    let ghost all = v@.map_values(|s: String| document::json_string(s@));
    let mut parts: Vec<String> = Vec::new();
    let mut i: usize = 0;
    while i < v.len()
        invariant
            i <= v@.len(),
            all == v@.map_values(|s: String| document::json_string(s@)),
            text::texts(parts@) == all.take(i as int),
        decreases v.len() - i,
    {
        text::push_owned(&mut parts, document::json_text(v[i].as_str()));
        i += 1;
        assert(text::texts(parts@) =~= all.take(i as int));
    }
    assert(all.take(i as int) =~= all);
    document::list_text(parts.as_slice())
}

fn encoder_list_text(v: &Vec<EncoderId>) -> (r: String)
    ensures
        r@ == encoder_list(v@),
{
    let ghost all = v@.map_values(|e: EncoderId| document::json_word(e.name()));
    let mut parts: Vec<String> = Vec::new();
    let mut i: usize = 0;
    while i < v.len()
        invariant
            i <= v@.len(),
            all == v@.map_values(|e: EncoderId| document::json_word(e.name())),
            text::texts(parts@) == all.take(i as int),
        decreases v.len() - i,
    {
        text::push_owned(&mut parts, document::word_text(v[i].variant_name()));
        i += 1;
        assert(text::texts(parts@) =~= all.take(i as int));
    }
    assert(all.take(i as int) =~= all);
    document::list_text(parts.as_slice())
}

/// Hash a policy. Bumping the version invalidates every stored skip marker by
/// construction, so a policy change cannot leave stale decisions behind.
pub fn rules_version(policy: &Policy) -> (r: RulesVersion)
    ensures
        r.0@ == document::blake3_hex(policy.document()),
{
    RulesVersion(document::digest(policy.canonical_json().as_str()))
}

// ------------------------------------------------------- the built-in policy --

/// A match on audio codecs alone.
pub open spec fn only_audio(m: Match, codecs: Seq<Seq<char>>) -> bool {
    &&& text::texts(m.audio_codec_any@) == codecs
    &&& m.video_codec_in@.len() == 0
    &&& m.min_width is None
    &&& m.min_bit_rate_bps is None
    &&& m.min_size_bytes is None
    &&& m.is_hdr is None
    &&& m.is_dovi is None
}

/// A match on video codecs, with an optional bitrate floor.
pub open spec fn only_video(m: Match, codecs: Seq<Seq<char>>, floor: Option<u64>) -> bool {
    &&& text::texts(m.video_codec_in@) == codecs
    &&& m.audio_codec_any@.len() == 0
    &&& m.min_width is None
    &&& m.min_bit_rate_bps == floor
    &&& m.min_size_bytes is None
    &&& m.is_hdr is None
    &&& m.is_dovi is None
}

/// The three rules of the built-in policy and its thresholds.
pub open spec fn is_space_saver(p: Policy) -> bool {
    let rules = p.rules@;
    &&& rules.len() == 3
    &&& rules[0].name@ == "convert lossless and opus audio to eac3"@
    &&& only_audio(
        rules[0].when,
        seq!["truehd"@, "dts"@, "flac"@, "pcm"@, "mlp"@, "opus"@],
    )
    &&& rules[0].action is EncodeAudio
    &&& rules[0].action->codec is Eac3
    &&& rules[0].action->bitrate@ == "640k"@
    &&& rules[1].name@ == "re-encode non-hevc video above 2 Mbps"@
    &&& only_video(rules[1].when, seq!["h264"@, "mpeg2video"@, "vc1"@], Some(2_000_000))
    &&& rules[1].action is EncodeVideo
    &&& rules[1].action->encoder_preference@ == seq![EncoderId::HevcNvenc, EncoderId::Libx265]
    &&& rules[1].action->quality == 22
    &&& rules[2].name@ == "re-encode av1 on cpu only"@
    &&& only_video(rules[2].when, seq!["av1"@], None)
    &&& rules[2].action is EncodeVideo
    &&& rules[2].action->encoder_preference@ == seq![EncoderId::Libx265]
    &&& rules[2].action->quality == 22
    &&& p.size_thresholds.small_max_bytes == 4294967296
    &&& p.size_thresholds.medium_max_bytes == 21474836480
}

/// The built-in policy: convert unwanted audio, shrink oversized video, and
/// leave everything else alone.
pub fn default_space_saver() -> (r: Policy)
    ensures
        is_space_saver(r),
{
    let mut lossless: Vec<String> = Vec::new();
    text::push_text(&mut lossless, "truehd");
    text::push_text(&mut lossless, "dts");
    text::push_text(&mut lossless, "flac");
    text::push_text(&mut lossless, "pcm");
    text::push_text(&mut lossless, "mlp");
    text::push_text(&mut lossless, "opus");
    assert(text::texts(lossless@) =~= seq!["truehd"@, "dts"@, "flac"@, "pcm"@, "mlp"@, "opus"@]);
    let mut audio = Match::default();
    audio.audio_codec_any = lossless;

    let mut older: Vec<String> = Vec::new();
    text::push_text(&mut older, "h264");
    text::push_text(&mut older, "mpeg2video");
    text::push_text(&mut older, "vc1");
    assert(text::texts(older@) =~= seq!["h264"@, "mpeg2video"@, "vc1"@]);
    let mut oversized = Match::default();
    oversized.video_codec_in = older;
    oversized.min_bit_rate_bps = Some(2_000_000);

    let mut newer: Vec<String> = Vec::new();
    text::push_text(&mut newer, "av1");
    assert(text::texts(newer@) =~= seq!["av1"@]);
    let mut av1 = Match::default();
    av1.video_codec_in = newer;

    let mut either: Vec<EncoderId> = Vec::new();
    either.push(EncoderId::HevcNvenc);
    either.push(EncoderId::Libx265);
    assert(either@ =~= seq![EncoderId::HevcNvenc, EncoderId::Libx265]);
    // No NVENC here: the card cannot decode AV1, so offering it would plan a
    // job that can only fail.
    let mut cpu: Vec<EncoderId> = Vec::new();
    cpu.push(EncoderId::Libx265);
    assert(cpu@ =~= seq![EncoderId::Libx265]);

    let mut rules: Vec<Rule> = Vec::new();
    rules.push(
        Rule {
            name: "convert lossless and opus audio to eac3".to_owned(),
            when: audio,
            action: Action::EncodeAudio { codec: EncoderId::Eac3, bitrate: "640k".to_owned() },
        },
    );
    rules.push(
        Rule {
            name: "re-encode non-hevc video above 2 Mbps".to_owned(),
            when: oversized,
            action: Action::EncodeVideo { encoder_preference: either, quality: 22 },
        },
    );
    rules.push(
        Rule {
            name: "re-encode av1 on cpu only".to_owned(),
            when: av1,
            action: Action::EncodeVideo { encoder_preference: cpu, quality: 22 },
        },
    );
    Policy { rules, size_thresholds: SizeThresholds::default() }
}

// ------------------------------------------------------------------- laws --

/// An empty match is a catch-all.
pub proof fn law_empty_match_matches_everything(m: Match, f: FileFacts)
    requires
        m.is_empty(),
    ensures
        m.holds(f),
{
}

/// An excluded file is quarantined whatever the policy says.
pub proof fn law_exclusions_cannot_be_overridden(f: FileFacts, policy: Policy)
    requires
        f.excluded(),
    ensures
        decided(f, policy).class is Quarantined,
        decided(f, policy).audio is None,
        decided(f, policy).video is None,
{
}

proof fn lemma_veto_stays(f: FileFacts, rules: Seq<Rule>)
    requires
        !f.encodable(),
    ensures
        scanned(f, rules).vetoed,
        scanned(f, rules).video is None,
    decreases rules.len(),
{
    if rules.len() > 0 {
        lemma_veto_stays(f, rules.drop_last());
    }
}

/// HDR and Dolby Vision are never re-encoded, whatever the policy says.
pub proof fn law_hdr_vetoes_video(f: FileFacts, policy: Policy)
    requires
        !f.encodable(),
    ensures
        decided(f, policy).video is None,
        !(decided(f, policy).class is Video),
        !(decided(f, policy).class is AudioThenVideo),
{
    if !f.excluded() {
        lemma_veto_stays(f, policy.rules@);
        lemma_stop_class(f, policy.rules@);
    }
}

proof fn lemma_stop_class(f: FileFacts, rules: Seq<Rule>)
    ensures
        scanned(f, rules).stopped matches Some((c, _)) ==> c is Nothing || c is Quarantined,
    decreases rules.len(),
{
    if rules.len() > 0 {
        lemma_stop_class(f, rules.drop_last());
    }
}

/// The class says exactly which stages are planned.
pub proof fn law_class_agrees_with_the_stages(f: FileFacts, policy: Policy)
    ensures
        ({
            let d = decided(f, policy);
            &&& d.audio is Some == (d.class is Audio || d.class is AudioThenVideo)
            &&& d.video is Some == (d.class is Video || d.class is AudioThenVideo)
        }),
{
    if !f.excluded() {
        lemma_stop_class(f, policy.rules@);
    }
}

/// A rule that ends the evaluation, and matches.
pub open spec fn stops(rule: Rule, f: FileFacts) -> bool {
    rule.when.holds(f) && (rule.action is Skip || rule.action is Quarantine)
}

/// A matching rule that plans audio.
pub open spec fn plans_audio(rule: Rule, f: FileFacts) -> bool {
    rule.when.holds(f) && rule.action is EncodeAudio
}

/// A matching rule that plans video.
pub open spec fn plans_video(rule: Rule, f: FileFacts) -> bool {
    rule.when.holds(f) && rule.action is EncodeVideo
}

proof fn lemma_never_stopped(f: FileFacts, rules: Seq<Rule>)
    requires
        forall|j: int| 0 <= j < rules.len() ==> !stops(#[trigger] rules[j], f),
    ensures
        scanned(f, rules).stopped is None,
    decreases rules.len(),
{
    if rules.len() > 0 {
        let head = rules.drop_last();
        assert forall|j: int| 0 <= j < head.len() implies !stops(#[trigger] head[j], f) by {
            assert(head[j] == rules[j]);
        }
        lemma_never_stopped(f, head);
        assert(!stops(rules[rules.len() - 1], f));
    }
}

proof fn lemma_audio_scan(f: FileFacts, rules: Seq<Rule>, i: int)
    requires
        forall|j: int| 0 <= j < rules.len() ==> !stops(#[trigger] rules[j], f),
        0 <= i <= rules.len(),
        forall|j: int| 0 <= j < i && j < rules.len() ==> !plans_audio(#[trigger] rules[j], f),
        i < rules.len() ==> plans_audio(rules[i], f),
    ensures
        scanned(f, rules).stopped is None,
        i == rules.len() ==> scanned(f, rules).audio is None,
        i < rules.len() ==> scanned(f, rules).audio == Some(
            AudioModel { codec: rules[i].action->codec, bitrate: rules[i].action->bitrate@ },
        ),
    decreases rules.len(),
{
    lemma_never_stopped(f, rules);
    if rules.len() > 0 {
        let head = rules.drop_last();
        let last = rules[rules.len() - 1];
        assert forall|j: int| 0 <= j < head.len() implies !stops(#[trigger] head[j], f) by {
            assert(head[j] == rules[j]);
        }
        assert forall|j: int| 0 <= j < i && j < head.len() implies !plans_audio(
            #[trigger] head[j],
            f,
        ) by {
            assert(head[j] == rules[j]);
        }
        assert(!stops(last, f));
        if i < head.len() {
            assert(head[i] == rules[i]);
            lemma_audio_scan(f, head, i);
        } else {
            lemma_audio_scan(f, head, head.len() as int);
            if i == rules.len() {
                assert(!plans_audio(last, f));
            }
        }
    }
}

/// Where no rule ends the evaluation, the audio stage is the one of the first
/// matching audio rule, and there is none where no audio rule matches. The
/// veto on video has no say in it.
pub proof fn law_first_audio_rule_wins(f: FileFacts, policy: Policy, i: int)
    requires
        !f.excluded(),
        forall|j: int|
            0 <= j < policy.rules@.len() ==> !stops(#[trigger] policy.rules@[j], f),
        0 <= i <= policy.rules@.len(),
        forall|j: int|
            0 <= j < i && j < policy.rules@.len() ==> !plans_audio(
                #[trigger] policy.rules@[j],
                f,
            ),
        i < policy.rules@.len() ==> plans_audio(policy.rules@[i], f),
    ensures
        i == policy.rules@.len() ==> decided(f, policy).audio is None,
        i < policy.rules@.len() ==> decided(f, policy).audio == Some(
            AudioModel {
                codec: policy.rules@[i].action->codec,
                bitrate: policy.rules@[i].action->bitrate@,
            },
        ),
{
    lemma_audio_scan(f, policy.rules@, i);
}

proof fn lemma_video_scan(f: FileFacts, rules: Seq<Rule>, i: int)
    requires
        f.encodable(),
        forall|j: int| 0 <= j < rules.len() ==> !stops(#[trigger] rules[j], f),
        0 <= i <= rules.len(),
        forall|j: int|
            0 <= j < i && j < rules.len() ==> !plans_video(#[trigger] rules[j], f) && !(
            rules[j].when.holds(f) && rules[j].action is SkipVideo),
        i < rules.len() ==> plans_video(rules[i], f),
    ensures
        scanned(f, rules).stopped is None,
        i == rules.len() ==> scanned(f, rules).video is None && !scanned(f, rules).vetoed,
        i < rules.len() ==> scanned(f, rules).video == Some(
            VideoModel {
                encoder_preference: rules[i].action->encoder_preference@,
                quality: rules[i].action->quality,
                source_depth: depth_or_eight(f.video_bit_depth),
            },
        ),
    decreases rules.len(),
{
    lemma_never_stopped(f, rules);
    if rules.len() > 0 {
        let head = rules.drop_last();
        let last = rules[rules.len() - 1];
        assert forall|j: int| 0 <= j < head.len() implies !stops(#[trigger] head[j], f) by {
            assert(head[j] == rules[j]);
        }
        assert forall|j: int| 0 <= j < i && j < head.len() implies !plans_video(
            #[trigger] head[j],
            f,
        ) && !(head[j].when.holds(f) && head[j].action is SkipVideo) by {
            assert(head[j] == rules[j]);
        }
        assert(!stops(last, f));
        if i < head.len() {
            assert(head[i] == rules[i]);
            lemma_video_scan(f, head, i);
        } else {
            lemma_video_scan(f, head, head.len() as int);
            if i == rules.len() {
                assert(!plans_video(last, f));
            }
        }
    }
}

/// Where no rule ends the evaluation and the video may be encoded, the video
/// stage is the one of the first matching video rule that no matching veto
/// precedes.
pub proof fn law_first_video_rule_wins(f: FileFacts, policy: Policy, i: int)
    requires
        !f.excluded(),
        f.encodable(),
        forall|j: int|
            0 <= j < policy.rules@.len() ==> !stops(#[trigger] policy.rules@[j], f),
        0 <= i <= policy.rules@.len(),
        forall|j: int|
            0 <= j < i && j < policy.rules@.len() ==> !plans_video(
                #[trigger] policy.rules@[j],
                f,
            ) && !(policy.rules@[j].when.holds(f) && policy.rules@[j].action is SkipVideo),
        i < policy.rules@.len() ==> plans_video(policy.rules@[i], f),
    ensures
        i == policy.rules@.len() ==> decided(f, policy).video is None,
        i < policy.rules@.len() ==> decided(f, policy).video == Some(
            VideoModel {
                encoder_preference: policy.rules@[i].action->encoder_preference@,
                quality: policy.rules@[i].action->quality,
                source_depth: depth_or_eight(f.video_bit_depth),
            },
        ),
{
    lemma_video_scan(f, policy.rules@, i);
}

/// The first matching rule that says skip or quarantine decides alone.
pub proof fn law_first_stop_decides(f: FileFacts, policy: Policy, i: int)
    requires
        !f.excluded(),
        0 <= i < policy.rules@.len(),
        forall|j: int| 0 <= j < i ==> !stops(#[trigger] policy.rules@[j], f),
        stops(policy.rules@[i], f),
    ensures
        decided(f, policy).audio is None,
        decided(f, policy).video is None,
        decided(f, policy).class == (if policy.rules@[i].action is Skip {
            DecisionClass::Nothing
        } else {
            DecisionClass::Quarantined
        }),
        decided(f, policy).reason == "rule '"@ + policy.rules@[i].name@ + (if policy.rules@[i].action
            is Skip {
            "' says skip"@
        } else {
            "' quarantined this file"@
        }),
{
    let rules = policy.rules@;
    let head = rules.take(i);
    assert forall|j: int| 0 <= j < head.len() implies !stops(#[trigger] head[j], f) by {
        assert(head[j] == rules[j]);
    }
    lemma_never_stopped(f, head);
    assert(rules.take(i + 1).drop_last() =~= head);
    assert(rules.take(i + 1).last() == rules[i]);
    lemma_stopped_stays(f, rules, i + 1);
}

/// How many entries the built-in veto adds to an explanation.
pub open spec fn lead(f: FileFacts) -> int {
    if f.encodable() {
        0
    } else {
        1
    }
}

/// A trace entry says of a rule whether it matched.
pub open spec fn tells(t: TraceModel, rule: Rule, f: FileFacts) -> bool {
    t.rule == rule.name@ && t.matched == rule.when.holds(f)
}

/// The explanation has one entry for every rule, in order, after the built-in
/// veto where there is one.
pub proof fn law_every_rule_is_explained(f: FileFacts, policy: Policy)
    requires
        !f.excluded(),
        forall|j: int|
            0 <= j < policy.rules@.len() ==> !stops(#[trigger] policy.rules@[j], f),
    ensures
        explained(f, policy).len() == lead(f) + policy.rules@.len(),
        forall|j: int|
            0 <= j < policy.rules@.len() ==> tells(
                explained(f, policy)[lead(f) + j],
                #[trigger] policy.rules@[j],
                f,
            ),
{
    lemma_trace(f, policy.rules@);
}

proof fn lemma_trace(f: FileFacts, rules: Seq<Rule>)
    requires
        forall|j: int| 0 <= j < rules.len() ==> !stops(#[trigger] rules[j], f),
    ensures
        scanned(f, rules).trace.len() == lead(f) + rules.len(),
        forall|j: int|
            0 <= j < rules.len() ==> tells(
                scanned(f, rules).trace[lead(f) + j],
                #[trigger] rules[j],
                f,
            ),
    decreases rules.len(),
{
    if rules.len() > 0 {
        let head = rules.drop_last();
        assert forall|j: int| 0 <= j < head.len() implies !stops(#[trigger] head[j], f) by {
            assert(head[j] == rules[j]);
        }
        lemma_trace(f, head);
        lemma_never_stopped(f, head);
        let trace = scanned(f, rules).trace;
        let before = scanned(f, head).trace;
        assert forall|j: int| 0 <= j < rules.len() implies tells(
            trace[lead(f) + j],
            #[trigger] rules[j],
            f,
        ) by {
            if j < head.len() {
                assert(trace[lead(f) + j] == before[lead(f) + j]);
                assert(head[j] == rules[j]);
                assert(tells(before[lead(f) + j], head[j], f));
            }
        }
    }
}

/// What an output may lose is at most half a percent of the source and at most
/// five seconds.
pub proof fn law_tolerance_is_capped(facts: FileFacts, class: DecisionClass)
    ensures
        spec_for(facts, class).max_shorter_us <= 5_000_000,
        spec_for(facts, class).max_shorter_us * 200 <= spec_for(facts, class).source_duration_us,
        spec_for(facts, class).max_longer_us == 2_000_000,
{
}

/// An audio pass may grow the file; a video pass must save space; every track
/// must survive either.
pub proof fn law_every_track_must_survive(facts: FileFacts, class: DecisionClass)
    ensures
        spec_for(facts, class).expected_audio_streams == facts.audio_track_count,
        spec_for(facts, class).expected_subtitle_streams == facts.subtitle_track_count,
        spec_for(facts, class).size_policy is MayGrow == (class is Audio || class is AudioThenVideo),
{
}

/// A two-stage decision owes the audio job first, and a job never asks for a
/// hardware decode.
pub proof fn law_audio_comes_first(
    d: Decision,
    facts: FileFacts,
    t: SizeThresholds,
    job: JobSpec,
)
    requires
        owed(d, facts, t, job),
    ensures
        d.class is AudioThenVideo ==> job.class is Audio,
        forall|i: int|
            0 <= i < job.requirements.0@.len() && (#[trigger] job.requirements.0@[i]) is Decoder
                ==> job.requirements.0@[i]->Decoder_0.kind is Software,
{
}

/// The built-in policy plans audio exactly for the files that need their audio
/// converted.
pub proof fn law_space_saver_converts_unwanted_audio(f: FileFacts, policy: Policy)
    requires
        is_space_saver(policy),
        !f.excluded(),
    ensures
        decided(f, policy).audio is Some == exists|i: int|
            0 <= i < f.audio_codecs@.len() && crate::facts::unwanted_audio(
                (#[trigger] f.audio_codecs@[i])@,
            ),
{
    let rules = policy.rules@;
    let list = rules[0].when.audio_codec_any@;
    let names = text::texts(list);
    assert(names.len() == list.len());
    assert(names[0] == list[0]@ && names[1] == list[1]@ && names[2] == list[2]@ && names[3]
        == list[3]@ && names[4] == list[4]@ && names[5] == list[5]@);
    assert forall|c: Seq<char>| #[trigger]
        contains_listed(list, c) == crate::facts::unwanted_audio(c) by {
        if text::has(c, "pcm_s16le"@) {
            reveal_strlit("pcm_s16le");
            reveal_strlit("pcm");
            let i = choose|i: int| text::occurs_at(c, "pcm_s16le"@, i);
            assert(c.subrange(i, i + 3) =~= c.subrange(i, i + 9).take(3));
            assert("pcm_s16le"@.take(3) =~= "pcm"@);
            assert(text::occurs_at(c, "pcm"@, i));
        }
        if text::has(c, "pcm_s24le"@) {
            reveal_strlit("pcm_s24le");
            reveal_strlit("pcm");
            let i = choose|i: int| text::occurs_at(c, "pcm_s24le"@, i);
            assert(c.subrange(i, i + 3) =~= c.subrange(i, i + 9).take(3));
            assert("pcm_s24le"@.take(3) =~= "pcm"@);
            assert(text::occurs_at(c, "pcm"@, i));
        }
        if crate::facts::unwanted_audio(c) {
            assert(text::has(c, list[0]@) || text::has(c, list[1]@) || text::has(c, list[2]@)
                || text::has(c, list[3]@) || text::has(c, list[4]@) || text::has(c, list[5]@));
        }
        if contains_listed(list, c) {
            let k = choose|k: int| 0 <= k < list.len() && text::has(c, (#[trigger] list[k])@);
            assert(k == 0 || k == 1 || k == 2 || k == 3 || k == 4 || k == 5);
        }
    }
    if plans_audio(rules[0], f) {
        law_first_audio_rule_wins(f, policy, 0);
    } else {
        law_first_audio_rule_wins(f, policy, 3);
    }
}


proof fn lemma_depth(f: FileFacts, rules: Seq<Rule>)
    ensures
        scanned(f, rules).video matches Some(v) ==> {
            &&& f.video_bit_depth matches Some(d) ==> v.source_depth == d
            &&& f.video_bit_depth is None ==> v.source_depth is Eight
        },
    decreases rules.len(),
{
    if rules.len() > 0 {
        lemma_depth(f, rules.drop_last());
    }
}

/// Whatever the policy, a planned video stage is given the depth the facts
/// know, and eight bits where they know none.
pub proof fn law_the_source_depth_is_kept(f: FileFacts, policy: Policy)
    ensures
        decided(f, policy).video matches Some(v) ==> {
            &&& f.video_bit_depth matches Some(d) ==> v.source_depth == d
            &&& f.video_bit_depth is None ==> v.source_depth is Eight
        },
{
    lemma_depth(f, policy.rules@);
}

/// From the probe to the plan: where the first video stream of a probed file is
/// planned for re-encoding, the pixel format chosen for a video encoder holds
/// the depth the stream has. A reported sample size decides, then a pixel format
/// that contains `12` or `10`; a stream that tells neither has eight bits. Twelve
/// bits have no format.
pub proof fn law_the_plan_holds_the_probed_depth(
    probe: crate::probe::MediaProbe,
    size: u64,
    f: FileFacts,
    policy: Policy,
    enc: EncoderId,
    i: int,
)
    requires
        crate::facts::facts_of(probe, size, f),
        0 <= i < probe.streams@.len(),
        probe.streams@[i].kind is Video,
        forall|j: int| 0 <= j < i ==> !((#[trigger] probe.streams@[j]).kind is Video),
        decided(f, policy).video is Some,
        enc is HevcNvenc || enc is Libx265 || enc is Libx264,
    ensures
        ({
            let v = probe.streams@[i];
            let depth = decided(f, policy).video->0.source_depth;
            let chosen = crate::plan::spec_pix_fmt_for(enc, depth);
            let ten = if enc is HevcNvenc {
                PixFmt::P010le
            } else {
                PixFmt::Yuv420p10le
            };
            &&& v.bit_depth matches Some(b) ==> {
                &&& b <= 8 ==> chosen == Some(PixFmt::Yuv420p)
                &&& 8 < b <= 10 ==> chosen == Some(ten)
                &&& b > 10 ==> chosen is None && depth is Twelve
            }
            &&& v.bit_depth is None && v.pix_fmt is None ==> chosen == Some(PixFmt::Yuv420p)
            &&& v.bit_depth is None ==> (v.pix_fmt matches Some(t) ==> {
                &&& text::has(t@, "12"@) ==> chosen is None && depth is Twelve
                &&& !text::has(t@, "12"@) && text::has(t@, "10"@) ==> chosen == Some(ten)
                &&& !text::has(t@, "12"@) && !text::has(t@, "10"@) ==> chosen == Some(
                    PixFmt::Yuv420p,
                )
            })
        }),
{
    lemma_depth(f, policy.rules@);
    crate::probe::law_the_primary_video_is_the_first(probe.streams@, i);
    if let Some(t) = probe.streams@[i].pix_fmt {
        crate::probe::law_what_a_pixel_format_means(t@);
    }
}

/// A match asks for every predicate that is present: a file it holds of has one
/// of the codecs, is at least as wide, as fast and as large, and is HDR or Dolby
/// Vision exactly where that is asked.
pub proof fn law_a_match_asks_every_predicate(m: Match, f: FileFacts)
    requires
        m.holds(f),
    ensures
        m.video_codec_in@.len() > 0 ==> f.video_codec is Some && exists|i: int|
            0 <= i < m.video_codec_in@.len() && (#[trigger] m.video_codec_in@[i])@
                == f.video_codec->0@,
        m.audio_codec_any@.len() > 0 ==> exists|i: int, j: int|
            0 <= i < f.audio_codecs@.len() && 0 <= j < m.audio_codec_any@.len() && text::has(
                (#[trigger] f.audio_codecs@[i])@,
                (#[trigger] m.audio_codec_any@[j])@,
            ),
        m.min_width matches Some(w) ==> w == 0 || (f.width matches Some(x) && x >= w),
        m.min_bit_rate_bps matches Some(b) ==> b == 0 || (f.bit_rate_bps matches Some(x) && x >= b),
        m.min_size_bytes matches Some(b) ==> f.size_bytes >= b,
        m.is_hdr matches Some(h) ==> f.is_hdr == h,
        m.is_dovi matches Some(h) ==> f.is_dovi == h,
{
    if m.audio_codec_any@.len() > 0 {
        let i = choose|i: int|
            0 <= i < f.audio_codecs@.len() && contains_listed(
                m.audio_codec_any@,
                (#[trigger] f.audio_codecs@[i])@,
            );
        let j = choose|j: int|
            0 <= j < m.audio_codec_any@.len() && text::has(
                f.audio_codecs@[i]@,
                (#[trigger] m.audio_codec_any@[j])@,
            );
        assert(text::has(f.audio_codecs@[i]@, m.audio_codec_any@[j]@));
    }
}

/// A match asks for nothing else: a file it does not hold of fails one of the
/// predicates that are present.
pub proof fn law_a_match_asks_nothing_else(m: Match, f: FileFacts, v: int, i: int, j: int)
    requires
        m.video_codec_in@.len() > 0 ==> f.video_codec is Some && 0 <= v < m.video_codec_in@.len()
            && m.video_codec_in@[v]@ == f.video_codec->0@,
        m.audio_codec_any@.len() > 0 ==> 0 <= i < f.audio_codecs@.len() && 0 <= j
            < m.audio_codec_any@.len() && text::has(f.audio_codecs@[i]@, m.audio_codec_any@[j]@),
        m.min_width matches Some(w) ==> w == 0 || (f.width matches Some(x) && x >= w),
        m.min_bit_rate_bps matches Some(b) ==> b == 0 || (f.bit_rate_bps matches Some(x) && x >= b),
        m.min_size_bytes matches Some(b) ==> f.size_bytes >= b,
        m.is_hdr matches Some(h) ==> f.is_hdr == h,
        m.is_dovi matches Some(h) ==> f.is_dovi == h,
    ensures
        m.holds(f),
{
    if m.video_codec_in@.len() > 0 {
        assert(m.video_codec_in@[v]@ == f.video_codec->0@);
    }
    if m.audio_codec_any@.len() > 0 {
        assert(contains_listed(m.audio_codec_any@, f.audio_codecs@[i]@));
    }
}

/// Object audio, Dolby Vision profile 7 and a Dolby Vision profile that is not
/// known put a file out of reach of every policy, and nothing is planned for it.
pub proof fn law_what_cannot_be_kept_is_quarantined(f: FileFacts, policy: Policy)
    requires
        f.has_object_audio || f.dovi_profile == Some(7u8) || f.dovi_profile == Some(0u8),
    ensures
        decided(f, policy).class is Quarantined,
        decided(f, policy).audio is None,
        decided(f, policy).video is None,
        f.has_object_audio ==> decided(f, policy).reason
            == "object audio (Atmos/DTS:X) would be destroyed by a channel re-encode"@,
        !f.has_object_audio ==> decided(f, policy).reason
            == "Dolby Vision profile cannot be round-tripped"@,
        explained(f, policy).len() == 1,
        explained(f, policy)[0].rule == "<builtin exclusion>"@,
        explained(f, policy)[0].matched,
        explained(f, policy)[0].effect == "quarantined"@,
{
}

proof fn lemma_stop_has_a_rule(f: FileFacts, rules: Seq<Rule>) -> (i: int)
    requires
        scanned(f, rules).stopped is Some,
    ensures
        0 <= i < rules.len(),
        rules[i].when.holds(f),
        scanned(f, rules).stopped matches Some((class, _)) ==> (if class is Quarantined {
            rules[i].action is Quarantine
        } else {
            rules[i].action is Skip
        }),
    decreases rules.len(),
{
    let head = rules.drop_last();
    if rules.len() > 0 && scanned(f, head).stopped is Some {
        let i = lemma_stop_has_a_rule(f, head);
        assert(head[i] == rules[i]);
        i
    } else {
        rules.len() - 1
    }
}

/// A file is quarantined only by its own facts or by a matching rule that says
/// so.
pub proof fn law_nothing_else_is_quarantined(f: FileFacts, policy: Policy)
    requires
        !f.has_object_audio,
        f.dovi_profile matches Some(n) ==> n != 7 && n != 0,
        forall|j: int|
            0 <= j < policy.rules@.len() && (#[trigger] policy.rules@[j]).action is Quarantine
                ==> !policy.rules@[j].when.holds(f),
    ensures
        !(decided(f, policy).class is Quarantined),
{
    if scanned(f, policy.rules@).stopped is Some {
        let i = lemma_stop_has_a_rule(f, policy.rules@);
    }
}

/// HDR video and Dolby Vision are never planned for re-encoding, and the
/// explanation says so first.
pub proof fn law_hdr_and_dolby_vision_are_copied(f: FileFacts, policy: Policy)
    requires
        f.is_hdr || f.is_dovi,
    ensures
        decided(f, policy).video is None,
        !(decided(f, policy).class is Video || decided(f, policy).class is AudioThenVideo),
        decided(f, policy).audio is Some ==> decided(f, policy).class is Audio,
{
    law_hdr_vetoes_video(f, policy);
    law_class_agrees_with_the_stages(f, policy);
}

proof fn lemma_vetoed_scan(f: FileFacts, rules: Seq<Rule>, i: int)
    requires
        0 <= i < rules.len(),
        rules[i].when.holds(f),
        rules[i].action is SkipVideo,
        forall|j: int|
            0 <= j < i ==> !((#[trigger] rules[j]).action is EncodeVideo && rules[j].when.holds(f)),
    ensures
        scanned(f, rules).video is None,
        scanned(f, rules).stopped is Some || scanned(f, rules).vetoed,
    decreases rules.len(),
{
    let head = rules.drop_last();
    if i < head.len() {
        assert(head[i] == rules[i]);
        assert forall|j: int| 0 <= j < i implies !((#[trigger] head[j]).action is EncodeVideo
            && head[j].when.holds(f)) by {
            assert(head[j] == rules[j]);
        }
        lemma_vetoed_scan(f, head, i);
    } else {
        lemma_no_video(f, head);
    }
}

proof fn lemma_no_video(f: FileFacts, rules: Seq<Rule>)
    requires
        forall|j: int|
            0 <= j < rules.len() ==> !((#[trigger] rules[j]).action is EncodeVideo
                && rules[j].when.holds(f)),
    ensures
        scanned(f, rules).video is None,
    decreases rules.len(),
{
    if rules.len() > 0 {
        let head = rules.drop_last();
        assert forall|j: int| 0 <= j < head.len() implies !((#[trigger] head[j]).action
            is EncodeVideo && head[j].when.holds(f)) by {
            assert(head[j] == rules[j]);
        }
        lemma_no_video(f, head);
        assert(!(rules[rules.len() - 1].action is EncodeVideo && rules[rules.len()
            - 1].when.holds(f)));
    }
}

/// A matching rule that leaves the video alone holds against every video rule
/// after it.
pub proof fn law_a_veto_holds_against_later_rules(f: FileFacts, policy: Policy, i: int)
    requires
        0 <= i < policy.rules@.len(),
        policy.rules@[i].when.holds(f),
        policy.rules@[i].action is SkipVideo,
        forall|j: int|
            0 <= j < i ==> !((#[trigger] policy.rules@[j]).action is EncodeVideo
                && policy.rules@[j].when.holds(f)),
    ensures
        decided(f, policy).video is None,
{
    lemma_vetoed_scan(f, policy.rules@, i);
}

proof fn lemma_stages_have_rules(f: FileFacts, rules: Seq<Rule>)
    ensures
        scanned(f, rules).audio matches Some(a) ==> exists|i: int|
            0 <= i < rules.len() && (#[trigger] rules[i]).when.holds(f) && (rules[i].action
                matches Action::EncodeAudio { codec, bitrate } && a.codec == codec && a.bitrate
                == bitrate@),
        scanned(f, rules).video matches Some(v) ==> exists|i: int|
            0 <= i < rules.len() && (#[trigger] rules[i]).when.holds(f) && (rules[i].action
                matches Action::EncodeVideo { encoder_preference, quality } && v.encoder_preference
                == encoder_preference@ && v.quality == quality),
    decreases rules.len(),
{
    if rules.len() > 0 {
        let head = rules.drop_last();
        lemma_stages_have_rules(f, head);
        let last = rules[rules.len() - 1];
        if let Some(a) = scanned(f, rules).audio {
            if scanned(f, head).audio == Some(a) {
                let i = choose|i: int|
                    0 <= i < head.len() && (#[trigger] head[i]).when.holds(f) && (head[i].action
                        matches Action::EncodeAudio { codec, bitrate } && a.codec == codec
                        && a.bitrate == bitrate@);
                assert(rules[i] == head[i]);
            } else {
                assert(last.when.holds(f));
            }
        }
        if let Some(v) = scanned(f, rules).video {
            if scanned(f, head).video == Some(v) {
                let i = choose|i: int|
                    0 <= i < head.len() && (#[trigger] head[i]).when.holds(f) && (head[i].action
                        matches Action::EncodeVideo { encoder_preference, quality }
                        && v.encoder_preference == encoder_preference@ && v.quality == quality);
                assert(rules[i] == head[i]);
            } else {
                assert(last.when.holds(f));
            }
        }
    }
}

/// Nothing is planned that no rule asked for: every stage is word for word the
/// action of a rule that matches.
pub proof fn law_every_stage_has_its_rule(f: FileFacts, policy: Policy)
    ensures
        decided(f, policy).audio matches Some(a) ==> exists|i: int|
            0 <= i < policy.rules@.len() && (#[trigger] policy.rules@[i]).when.holds(f) && (
            policy.rules@[i].action matches Action::EncodeAudio { codec, bitrate } && a.codec
                == codec && a.bitrate == bitrate@),
        decided(f, policy).video matches Some(v) ==> exists|i: int|
            0 <= i < policy.rules@.len() && (#[trigger] policy.rules@[i]).when.holds(f) && (
            policy.rules@[i].action matches Action::EncodeVideo { encoder_preference, quality }
                && v.encoder_preference == encoder_preference@ && v.quality == quality),
{
    lemma_stages_have_rules(f, policy.rules@);
}

proof fn lemma_reasons(f: FileFacts, rules: Seq<Rule>)
    ensures
        ({
            let p = scanned(f, rules);
            let left = !(f.is_hdr || f.is_dovi);
            &&& left && p.audio is None && p.video is None ==> p.reasons.len() == 0
            &&& left && p.video is None ==> (p.audio matches Some(a) ==> p.reasons == seq![
                "audio -> "@ + a.codec.ffmpeg(),
            ])
            &&& left && p.audio is None && p.video is Some ==> p.reasons == seq![
                "video re-encode planned"@,
            ]
            &&& left && p.video is Some ==> (p.audio matches Some(a) ==> p.reasons == seq![
                "audio -> "@ + a.codec.ffmpeg(),
                "video re-encode planned"@,
            ] || p.reasons == seq![
                "video re-encode planned"@,
                "audio -> "@ + a.codec.ffmpeg(),
            ])
            &&& !left && p.audio is None ==> p.reasons == seq![
                "video left alone (HDR or Dolby Vision)"@,
            ]
            &&& !left ==> (p.audio matches Some(a) ==> p.reasons == seq![
                "video left alone (HDR or Dolby Vision)"@,
                "audio -> "@ + a.codec.ffmpeg(),
            ])
        }),
    decreases rules.len(),
{
    if !(!f.is_hdr && !f.is_dovi) {
        lemma_veto_stays(f, rules);
    }
    if rules.len() > 0 {
        lemma_reasons(f, rules.drop_last());
    }
}

/// The reason of a decision that no rule ended tells what is planned, in words:
/// the audio codec, the video pass, and that HDR and Dolby Vision video is left
/// alone.
pub proof fn law_the_reason_tells_the_plan(f: FileFacts, policy: Policy)
    requires
        !f.has_object_audio,
        f.dovi_profile matches Some(n) ==> n != 7 && n != 0,
        forall|j: int|
            0 <= j < policy.rules@.len() && policy.rules@[j].when.holds(f) ==> !((
            #[trigger] policy.rules@[j]).action is Skip || policy.rules@[j].action is Quarantine),
    ensures
        ({
            let d = decided(f, policy);
            let left = !(f.is_hdr || f.is_dovi);
            &&& left && d.class is Nothing ==> d.reason == "no rule required work"@
            &&& left && d.class is Audio ==> d.reason == "audio -> "@ + d.audio->0.codec.ffmpeg()
            &&& left && d.class is Video ==> d.reason == "video re-encode planned"@
            &&& left && d.class is AudioThenVideo ==> d.reason == "audio -> "@
                + d.audio->0.codec.ffmpeg() + "; "@ + "video re-encode planned"@ || d.reason
                == "video re-encode planned"@ + "; "@ + ("audio -> "@ + d.audio->0.codec.ffmpeg())
            &&& !left && d.class is Nothing ==> d.reason
                == "video left alone (HDR or Dolby Vision)"@
            &&& !left && d.class is Audio ==> d.reason == "video left alone (HDR or Dolby Vision)"@
                + "; "@ + ("audio -> "@ + d.audio->0.codec.ffmpeg())
        }),
{
    assert forall|j: int| 0 <= j < policy.rules@.len() implies !stops(
        #[trigger] policy.rules@[j],
        f,
    ) by {
        if policy.rules@[j].when.holds(f) {
        }
    }
    lemma_never_stopped(f, policy.rules@);
    lemma_reasons(f, policy.rules@);
    law_class_agrees_with_the_stages(f, policy);
    reveal_with_fuel(text::joined, 3);
    let p = scanned(f, policy.rules@);
    assert(p.reasons.len() == 1 ==> text::joined(p.reasons, "; "@) == p.reasons[0]);
    assert(p.reasons.len() == 2 ==> text::joined(p.reasons, "; "@) =~= p.reasons[0] + "; "@
        + p.reasons[1]);
}

/// The contract of an output is the source's: its length, its size and its
/// tracks. It may be shorter by a two-hundredth, five seconds at the most, and
/// longer by two seconds. A video pass must save two percent.
pub proof fn law_the_contract_is_the_sources(facts: FileFacts, class: DecisionClass)
    ensures
        ({
            let s = spec_for(facts, class);
            &&& facts.duration_us matches Some(d) ==> {
                &&& s.source_duration_us == d
                &&& d >= 1_000_000_000 ==> s.max_shorter_us == 5_000_000
                &&& d < 1_000_000_000 ==> s.max_shorter_us * 200 <= d < (s.max_shorter_us + 1) * 200
            }
            &&& facts.duration_us is None ==> s.source_duration_us == 0 && s.max_shorter_us == 0
            &&& s.max_longer_us == 2_000_000
            &&& s.source_bytes == facts.size_bytes
            &&& s.expected_audio_streams == facts.audio_track_count
            &&& s.expected_subtitle_streams == facts.subtitle_track_count
            &&& class is Audio || class is AudioThenVideo ==> s.size_policy is MayGrow
            &&& !(class is Audio || class is AudioThenVideo) ==> s.size_policy == (
            SizePolicy::RequireSmaller { min_shrink_ppm: 20_000 })
        }),
{
}

/// What a job asks for. An audio job asks for an agent of the audio class with
/// the encoder the decision names. A video job asks for the preferred encoder,
/// on a GPU exactly where that is NVENC, and for a software decode of the source
/// at its depth. Both write Matroska.
pub proof fn law_what_a_job_asks_for(d: Decision, facts: FileFacts, t: SizeThresholds, job: JobSpec)
    requires
        owed(d, facts, t, job),
    ensures
        ({
            let reqs = job.requirements.0@;
            &&& facts.size_bytes < t.small_max_bytes ==> job.size_bucket is Small
            &&& t.small_max_bytes <= facts.size_bytes < t.medium_max_bytes
                ==> job.size_bucket is Medium
            &&& t.small_max_bytes <= facts.size_bytes && t.medium_max_bytes <= facts.size_bytes
                ==> job.size_bucket is Large
            &&& d.class is Audio || d.class is AudioThenVideo ==> {
                &&& job.class is Audio
                &&& reqs =~= seq![
                    Requirement::AgentClass(AgentClass::Audio),
                    Requirement::Encoder(d.audio->0.codec),
                    Requirement::Muxer(ContainerId::Matroska),
                ]
            }
            &&& d.class is Video ==> {
                let first = d.video->0.encoder_preference@[0];
                &&& first is HevcNvenc ==> job.class is VideoGpu && reqs[0]
                    == Requirement::AgentClass(AgentClass::Gpu)
                &&& !(first is HevcNvenc) ==> job.class is VideoCpu && reqs[0]
                    == Requirement::AgentClass(AgentClass::Cpu)
                &&& reqs[1] == Requirement::Encoder(first)
                &&& reqs[2] == Requirement::Muxer(ContainerId::Matroska)
                &&& facts.video_codec is None ==> reqs.len() == 3
                &&& facts.video_codec matches Some(c) ==> reqs.len() == 4 && (reqs[3]
                    matches Requirement::Decoder(triple) && triple.codec@ == c@
                    && triple.profile@.len() == 0 && triple.bit_depth == d.video->0.source_depth
                    && triple.kind is Software)
            }
        }),
{
}

/// Work is owed exactly where a stage is planned: by an audio stage always, by a
/// video stage alone where it names an encoder and the source is not of 12 bits.
pub proof fn law_when_work_is_owed(d: Decision)
    ensures
        d.class is Nothing || d.class is Quarantined ==> !owes_work(d),
        d.class is Audio || d.class is AudioThenVideo ==> (owes_work(d) <==> d.audio is Some),
        d.class is Video ==> (owes_work(d) <==> (d.video matches Some(v)
            && v.encoder_preference@.len() > 0 && (v.source_depth is Eight || v.source_depth is Ten))),
{
}

/// What the built-in policy does with audio: a track whose codec name contains
/// one of six names is converted to EAC3 at 640k, and no other is touched.
pub proof fn law_space_saver_audio(f: FileFacts, policy: Policy)
    requires
        is_space_saver(policy),
        !f.has_object_audio,
        f.dovi_profile matches Some(n) ==> n != 7 && n != 0,
    ensures
        decided(f, policy).audio is Some <==> exists|i: int|
            0 <= i < f.audio_codecs@.len() && {
                let c = (#[trigger] f.audio_codecs@[i])@;
                ||| text::has(c, "truehd"@)
                ||| text::has(c, "dts"@)
                ||| text::has(c, "flac"@)
                ||| text::has(c, "pcm"@)
                ||| text::has(c, "mlp"@)
                ||| text::has(c, "opus"@)
            },
        decided(f, policy).audio matches Some(a) ==> a.codec is Eac3 && a.bitrate == "640k"@,
{
    let rules = policy.rules@;
    let list = rules[0].when.audio_codec_any@;
    let names = text::texts(list);
    assert(names.len() == list.len());
    assert(names[0] == list[0]@ && names[1] == list[1]@ && names[2] == list[2]@ && names[3]
        == list[3]@ && names[4] == list[4]@ && names[5] == list[5]@);
    assert forall|c: Seq<char>| #[trigger] contains_listed(list, c) == (text::has(c, "truehd"@)
        || text::has(c, "dts"@) || text::has(c, "flac"@) || text::has(c, "pcm"@) || text::has(
        c,
        "mlp"@,
    ) || text::has(c, "opus"@)) by {
        if contains_listed(list, c) {
            let k = choose|k: int| 0 <= k < list.len() && text::has(c, (#[trigger] list[k])@);
            assert(k == 0 || k == 1 || k == 2 || k == 3 || k == 4 || k == 5);
        } else {
            assert(!text::has(c, list[0]@) && !text::has(c, list[1]@) && !text::has(c, list[2]@)
                && !text::has(c, list[3]@) && !text::has(c, list[4]@) && !text::has(c, list[5]@));
        }
    }
    if plans_audio(rules[0], f) {
        law_first_audio_rule_wins(f, policy, 0);
    } else {
        law_first_audio_rule_wins(f, policy, 3);
        if exists|i: int|
            0 <= i < f.audio_codecs@.len() && contains_listed(
                list,
                (#[trigger] f.audio_codecs@[i])@,
            ) {
            assert(rules[0].when.holds(f));
        }
        assert forall|i: int| 0 <= i < f.audio_codecs@.len() implies !contains_listed(
            list,
            (#[trigger] f.audio_codecs@[i])@,
        ) by {}
    }
}

/// What the built-in policy does with video: H.264, MPEG-2 and VC-1 of two
/// megabits and more are re-encoded, on NVENC before x265, AV1 of any rate is
/// re-encoded by x265, both at quality 22, and no other video is touched.
pub proof fn law_space_saver_video(f: FileFacts, policy: Policy)
    requires
        is_space_saver(policy),
        !f.has_object_audio,
        !f.is_hdr,
        !f.is_dovi,
        f.dovi_profile is None,
    ensures
        ({
            let video = decided(f, policy).video;
            let codec = f.video_codec->0@;
            let known = f.video_codec is Some;
            let older = codec == "h264"@ || codec == "mpeg2video"@ || codec == "vc1"@;
            let fast = f.bit_rate_bps matches Some(b) && b >= 2_000_000;
            &&& known && older && fast ==> (video matches Some(v) && v.encoder_preference == seq![
                EncoderId::HevcNvenc,
                EncoderId::Libx265,
            ] && v.quality == 22)
            &&& known && codec == "av1"@ ==> (video matches Some(v) && v.encoder_preference == seq![
                EncoderId::Libx265,
            ] && v.quality == 22)
            &&& !known || !(older && fast || codec == "av1"@) ==> video is None
        }),
{
    let rules = policy.rules@;
    let older = rules[1].when.video_codec_in@;
    let newer = rules[2].when.video_codec_in@;
    let names = text::texts(older);
    assert(names.len() == older.len() && text::texts(newer).len() == newer.len());
    assert(names[0] == older[0]@ && names[1] == older[1]@ && names[2] == older[2]@);
    assert(text::texts(newer)[0] == newer[0]@);
    assert forall|c: Seq<char>| #[trigger] listed(older, c) == (c == "h264"@ || c == "mpeg2video"@
        || c == "vc1"@) by {
        if listed(older, c) {
            let k = choose|k: int| 0 <= k < older.len() && (#[trigger] older[k])@ == c;
            assert(k == 0 || k == 1 || k == 2);
        } else {
            assert(older[0]@ != c && older[1]@ != c && older[2]@ != c);
        }
    }
    assert forall|c: Seq<char>| #[trigger] listed(newer, c) == (c == "av1"@) by {
        if listed(newer, c) {
        } else {
            assert(newer[0]@ != c);
        }
    }
    reveal_strlit("h264");
    reveal_strlit("mpeg2video");
    reveal_strlit("vc1");
    reveal_strlit("av1");
    assert("av1"@[0] != "vc1"@[0]);
    assert("av1"@.len() != "h264"@.len() && "av1"@.len() != "mpeg2video"@.len());
    if plans_video(rules[1], f) {
        law_first_video_rule_wins(f, policy, 1);
    } else if plans_video(rules[2], f) {
        law_first_video_rule_wins(f, policy, 2);
    } else {
        law_first_video_rule_wins(f, policy, 3);
    }
}

/// A title that names object audio keeps a file out of every policy's reach:
/// where the lowercase title of any audio stream contains `atmos`, `dts:x` or
/// `dts-x`, the derived facts are excluded and the file is quarantined.
pub proof fn law_object_audio_is_quarantined(
    probe: crate::probe::MediaProbe,
    size: u64,
    f: FileFacts,
    policy: Policy,
    i: int,
)
    requires
        crate::facts::facts_of(probe, size, f),
        0 <= i < probe.streams@.len(),
        probe.streams@[i].kind is Audio,
        probe.streams@[i].title is Some,
        text::has(text::lowercase(probe.streams@[i].title->0@), "atmos"@) || text::has(
            text::lowercase(probe.streams@[i].title->0@),
            "dts:x"@,
        ) || text::has(text::lowercase(probe.streams@[i].title->0@), "dts-x"@),
    ensures
        f.has_object_audio,
        f.excluded(),
        decided(f, policy).class is Quarantined,
        decided(f, policy).audio is None,
        decided(f, policy).video is None,
{
    crate::facts::law_titles_reveal_object_audio(probe, size, f, i);
}

/// Policies that differ in one threshold have different documents, and so
/// different versions as far as the digest tells them apart.
pub proof fn law_the_version_sees_the_thresholds(a: Policy, small: u64, medium: u64)
    ensures
        a.document() == (Policy {
            size_thresholds: SizeThresholds {
                small_max_bytes: small,
                medium_max_bytes: a.size_thresholds.medium_max_bytes,
            },
            ..a
        }).document() ==> small == a.size_thresholds.small_max_bytes,
        a.document() == (Policy {
            size_thresholds: SizeThresholds {
                small_max_bytes: a.size_thresholds.small_max_bytes,
                medium_max_bytes: medium,
            },
            ..a
        }).document() ==> medium == a.size_thresholds.medium_max_bytes,
{
    let rules = "{\"rules\":"@ + document::json_list(rule_objects(a.rules@));
    let head = rules + ",\"size_thresholds\":{\"small_max_bytes\":"@;
    let s = text::dec(a.size_thresholds.small_max_bytes as nat);
    let m = text::dec(a.size_thresholds.medium_max_bytes as nat);
    let mid = ",\"medium_max_bytes\":"@;
    let end = "}}"@;
    let s2 = text::dec(small as nat);
    let m2 = text::dec(medium as nat);
    text::law_decimal_reads_back(a.size_thresholds.small_max_bytes as nat);
    text::law_decimal_reads_back(a.size_thresholds.medium_max_bytes as nat);
    text::law_decimal_reads_back(small as nat);
    text::law_decimal_reads_back(medium as nat);
    if head + s + mid + m + end == head + s2 + mid + m + end {
        text::lemma_cancel_back(head + s + mid + m, head + s2 + mid + m, end);
        text::lemma_cancel_back(head + s + mid, head + s2 + mid, m);
        text::lemma_cancel_back(head + s, head + s2, mid);
        text::lemma_cancel_front(head, s, s2);
    }
    if head + s + mid + m + end == head + s + mid + m2 + end {
        text::lemma_cancel_back(head + s + mid + m, head + s + mid + m2, end);
        text::lemma_cancel_front(head + s + mid, m, m2);
    }
}

/// How an action is written in a policy document.
pub proof fn law_how_an_action_is_written(a: Action)
    ensures
        a is Skip ==> a.json() == "\"Skip\""@,
        a is SkipVideo ==> a.json() == "\"SkipVideo\""@,
        a is Quarantine ==> a.json() == "\"Quarantine\""@,
        a matches Action::EncodeAudio { codec, bitrate } ==> a.json()
            == "{\"EncodeAudio\":{\"codec\":"@ + document::json_word(codec.name())
            + ",\"bitrate\":"@ + document::json_string(bitrate@) + "}}"@,
        a matches Action::EncodeVideo { encoder_preference, quality } ==> a.json()
            == "{\"EncodeVideo\":{\"encoder_preference\":"@ + encoder_list(encoder_preference@)
            + ",\"quality\":"@ + text::dec(quality as nat) + "}}"@,
{
}

proof fn lemma_optional_numbers(a: Option<nat>, b: Option<nat>)
    requires
        document::json_opt_number(a) == document::json_opt_number(b),
    ensures
        a == b,
{
    reveal_strlit("null");
    match (a, b) {
        (Some(x), Some(y)) => {
            text::law_decimal_reads_back(x);
            text::law_decimal_reads_back(y);
        },
        (Some(x), None) => {
            text::law_decimal_reads_back(x);
            assert(text::is_digit(text::dec(x)[0]));
        },
        (None, Some(y)) => {
            text::law_decimal_reads_back(y);
            assert(text::is_digit(text::dec(y)[0]));
        },
        (None, None) => {},
    }
}

proof fn lemma_optional_bools(a: Option<bool>, b: Option<bool>)
    requires
        json_opt_bool(a) == json_opt_bool(b),
    ensures
        a == b,
{
    reveal_strlit("null");
    reveal_strlit("true");
    reveal_strlit("false");
    assert("null"@[0] != "true"@[0] && "null"@[0] != "false"@[0] && "true"@[0] != "false"@[0]);
}

/// Matches that ask for different widths are written differently.
pub proof fn law_the_document_sees_the_width(a: Match, other: Option<u32>)
    ensures
        a.json() == (Match { min_width: other, ..a }).json() ==> other == a.min_width,
{
    let b = Match { min_width: other, ..a };
    if a.json() == b.json() {
        let front = "{\"video_codec_in\":"@ + string_list(a.video_codec_in@) + ",\"audio_codec_any\":"@ + string_list(a.audio_codec_any@) + ",\"min_width\":"@;
        let x0 = document::json_opt_number(crate::facts::opt_u32(a.min_width));
        let y0 = document::json_opt_number(crate::facts::opt_u32(b.min_width));
        let x = front + x0;
        let y = front + y0;
        let t0 = ",\"min_bit_rate_bps\":"@;
        let t1 = document::json_opt_number(opt_u64(a.min_bit_rate_bps));
        let t2 = ",\"min_size_bytes\":"@;
        let t3 = document::json_opt_number(opt_u64(a.min_size_bytes));
        let t4 = ",\"is_hdr\":"@;
        let t5 = json_opt_bool(a.is_hdr);
        let t6 = ",\"is_dovi\":"@;
        let t7 = json_opt_bool(a.is_dovi);
        let t8 = "}"@;
        text::lemma_cancel_back(x + t0 + t1 + t2 + t3 + t4 + t5 + t6 + t7, y + t0 + t1 + t2 + t3 + t4 + t5 + t6 + t7, t8);
        text::lemma_cancel_back(x + t0 + t1 + t2 + t3 + t4 + t5 + t6, y + t0 + t1 + t2 + t3 + t4 + t5 + t6, t7);
        text::lemma_cancel_back(x + t0 + t1 + t2 + t3 + t4 + t5, y + t0 + t1 + t2 + t3 + t4 + t5, t6);
        text::lemma_cancel_back(x + t0 + t1 + t2 + t3 + t4, y + t0 + t1 + t2 + t3 + t4, t5);
        text::lemma_cancel_back(x + t0 + t1 + t2 + t3, y + t0 + t1 + t2 + t3, t4);
        text::lemma_cancel_back(x + t0 + t1 + t2, y + t0 + t1 + t2, t3);
        text::lemma_cancel_back(x + t0 + t1, y + t0 + t1, t2);
        text::lemma_cancel_back(x + t0, y + t0, t1);
        text::lemma_cancel_back(x, y, t0);
        text::lemma_cancel_front(front, x0, y0);
        lemma_optional_numbers(
            crate::facts::opt_u32(a.min_width),
            crate::facts::opt_u32(b.min_width),
        );
    }
}

/// Matches that ask for different rates are written differently.
pub proof fn law_the_document_sees_the_rate(a: Match, other: Option<u64>)
    ensures
        a.json() == (Match { min_bit_rate_bps: other, ..a }).json() ==> other == a.min_bit_rate_bps,
{
    let b = Match { min_bit_rate_bps: other, ..a };
    if a.json() == b.json() {
        let front = "{\"video_codec_in\":"@ + string_list(a.video_codec_in@) + ",\"audio_codec_any\":"@ + string_list(a.audio_codec_any@) + ",\"min_width\":"@ + document::json_opt_number(crate::facts::opt_u32(a.min_width)) + ",\"min_bit_rate_bps\":"@;
        let x0 = document::json_opt_number(opt_u64(a.min_bit_rate_bps));
        let y0 = document::json_opt_number(opt_u64(b.min_bit_rate_bps));
        let x = front + x0;
        let y = front + y0;
        let t0 = ",\"min_size_bytes\":"@;
        let t1 = document::json_opt_number(opt_u64(a.min_size_bytes));
        let t2 = ",\"is_hdr\":"@;
        let t3 = json_opt_bool(a.is_hdr);
        let t4 = ",\"is_dovi\":"@;
        let t5 = json_opt_bool(a.is_dovi);
        let t6 = "}"@;
        text::lemma_cancel_back(x + t0 + t1 + t2 + t3 + t4 + t5, y + t0 + t1 + t2 + t3 + t4 + t5, t6);
        text::lemma_cancel_back(x + t0 + t1 + t2 + t3 + t4, y + t0 + t1 + t2 + t3 + t4, t5);
        text::lemma_cancel_back(x + t0 + t1 + t2 + t3, y + t0 + t1 + t2 + t3, t4);
        text::lemma_cancel_back(x + t0 + t1 + t2, y + t0 + t1 + t2, t3);
        text::lemma_cancel_back(x + t0 + t1, y + t0 + t1, t2);
        text::lemma_cancel_back(x + t0, y + t0, t1);
        text::lemma_cancel_back(x, y, t0);
        text::lemma_cancel_front(front, x0, y0);
        lemma_optional_numbers(opt_u64(a.min_bit_rate_bps), opt_u64(b.min_bit_rate_bps));
    }
}

/// Matches that ask for different sizes are written differently.
pub proof fn law_the_document_sees_the_size(a: Match, other: Option<u64>)
    ensures
        a.json() == (Match { min_size_bytes: other, ..a }).json() ==> other == a.min_size_bytes,
{
    let b = Match { min_size_bytes: other, ..a };
    if a.json() == b.json() {
        let front = "{\"video_codec_in\":"@ + string_list(a.video_codec_in@) + ",\"audio_codec_any\":"@ + string_list(a.audio_codec_any@) + ",\"min_width\":"@ + document::json_opt_number(crate::facts::opt_u32(a.min_width)) + ",\"min_bit_rate_bps\":"@ + document::json_opt_number(opt_u64(a.min_bit_rate_bps)) + ",\"min_size_bytes\":"@;
        let x0 = document::json_opt_number(opt_u64(a.min_size_bytes));
        let y0 = document::json_opt_number(opt_u64(b.min_size_bytes));
        let x = front + x0;
        let y = front + y0;
        let t0 = ",\"is_hdr\":"@;
        let t1 = json_opt_bool(a.is_hdr);
        let t2 = ",\"is_dovi\":"@;
        let t3 = json_opt_bool(a.is_dovi);
        let t4 = "}"@;
        text::lemma_cancel_back(x + t0 + t1 + t2 + t3, y + t0 + t1 + t2 + t3, t4);
        text::lemma_cancel_back(x + t0 + t1 + t2, y + t0 + t1 + t2, t3);
        text::lemma_cancel_back(x + t0 + t1, y + t0 + t1, t2);
        text::lemma_cancel_back(x + t0, y + t0, t1);
        text::lemma_cancel_back(x, y, t0);
        text::lemma_cancel_front(front, x0, y0);
        lemma_optional_numbers(opt_u64(a.min_size_bytes), opt_u64(b.min_size_bytes));
    }
}

/// Matches that ask differently for HDR are written differently.
pub proof fn law_the_document_sees_hdr(a: Match, other: Option<bool>)
    ensures
        a.json() == (Match { is_hdr: other, ..a }).json() ==> other == a.is_hdr,
{
    let b = Match { is_hdr: other, ..a };
    if a.json() == b.json() {
        let front = "{\"video_codec_in\":"@ + string_list(a.video_codec_in@) + ",\"audio_codec_any\":"@ + string_list(a.audio_codec_any@) + ",\"min_width\":"@ + document::json_opt_number(crate::facts::opt_u32(a.min_width)) + ",\"min_bit_rate_bps\":"@ + document::json_opt_number(opt_u64(a.min_bit_rate_bps)) + ",\"min_size_bytes\":"@ + document::json_opt_number(opt_u64(a.min_size_bytes)) + ",\"is_hdr\":"@;
        let x0 = json_opt_bool(a.is_hdr);
        let y0 = json_opt_bool(b.is_hdr);
        let x = front + x0;
        let y = front + y0;
        let t0 = ",\"is_dovi\":"@;
        let t1 = json_opt_bool(a.is_dovi);
        let t2 = "}"@;
        text::lemma_cancel_back(x + t0 + t1, y + t0 + t1, t2);
        text::lemma_cancel_back(x + t0, y + t0, t1);
        text::lemma_cancel_back(x, y, t0);
        text::lemma_cancel_front(front, x0, y0);
        lemma_optional_bools(a.is_hdr, b.is_hdr);
    }
}

/// Matches that ask differently for Dolby Vision are written differently.
pub proof fn law_the_document_sees_dolby_vision(a: Match, other: Option<bool>)
    ensures
        a.json() == (Match { is_dovi: other, ..a }).json() ==> other == a.is_dovi,
{
    let b = Match { is_dovi: other, ..a };
    if a.json() == b.json() {
        let front = "{\"video_codec_in\":"@ + string_list(a.video_codec_in@) + ",\"audio_codec_any\":"@ + string_list(a.audio_codec_any@) + ",\"min_width\":"@ + document::json_opt_number(crate::facts::opt_u32(a.min_width)) + ",\"min_bit_rate_bps\":"@ + document::json_opt_number(opt_u64(a.min_bit_rate_bps)) + ",\"min_size_bytes\":"@ + document::json_opt_number(opt_u64(a.min_size_bytes)) + ",\"is_hdr\":"@ + json_opt_bool(a.is_hdr) + ",\"is_dovi\":"@;
        let x0 = json_opt_bool(a.is_dovi);
        let y0 = json_opt_bool(b.is_dovi);
        let x = front + x0;
        let y = front + y0;
        let t0 = "}"@;
        text::lemma_cancel_back(x, y, t0);
        text::lemma_cancel_front(front, x0, y0);
        lemma_optional_bools(a.is_dovi, b.is_dovi);
    }
}

/// Rules that are the same but for a match that is written otherwise are written
/// differently.
pub proof fn law_the_document_sees_the_match(a: Rule, other: Match)
    ensures
        a.json() == (Rule { when: other, ..a }).json() ==> other.json() == a.when.json(),
{
    let b = Rule { when: other, ..a };
    if a.json() == b.json() {
        let front = "{\"name\":"@ + document::json_string(a.name@) + ",\"when\":"@;
        let x0 = a.when.json();
        let y0 = b.when.json();
        let x = front + x0;
        let y = front + y0;
        let t0 = ",\"then\":"@;
        let t1 = a.action.json();
        let t2 = "}"@;
        text::lemma_cancel_back(x + t0 + t1, y + t0 + t1, t2);
        text::lemma_cancel_back(x + t0, y + t0, t1);
        text::lemma_cancel_back(x, y, t0);
        text::lemma_cancel_front(front, x0, y0);
    }
}

/// Rules that are the same but for an action that is written otherwise are
/// written differently.
pub proof fn law_the_document_sees_the_action(a: Rule, other: Action)
    ensures
        a.json() == (Rule { action: other, ..a }).json() ==> other.json() == a.action.json(),
{
    let b = Rule { action: other, ..a };
    if a.json() == b.json() {
        let front = "{\"name\":"@ + document::json_string(a.name@) + ",\"when\":"@ + a.when.json() + ",\"then\":"@;
        let x0 = a.action.json();
        let y0 = b.action.json();
        let x = front + x0;
        let y = front + y0;
        let t0 = "}"@;
        text::lemma_cancel_back(x, y, t0);
        text::lemma_cancel_front(front, x0, y0);
    }
}

/// What a rule is said to have done. One that does not match did nothing. One
/// that ends the evaluation says so. Of two rules for one stage the first plans
/// it and the second is told so, and a video rule after a veto is ignored.
pub proof fn law_what_a_rule_is_said_to_do(f: FileFacts, rule: Rule, p: Progress)
    requires
        p.stopped is None,
    ensures
        ({
            let after = stepped(f, rule, p);
            let said = after.trace.last();
            let hit = rule.when.holds(f);
            &&& after.trace.len() == p.trace.len() + 1
            &&& said.rule == rule.name@
            &&& said.matched == hit
            &&& !hit ==> said.effect == "no match"@ && after.audio == p.audio && after.video
                == p.video && after.vetoed == p.vetoed && after.stopped is None
            &&& hit && rule.action is Skip ==> said.effect == "skip all"@ && after.stopped is Some
            &&& hit && rule.action is Quarantine ==> said.effect == "quarantine"@ && after.stopped
                is Some
            &&& hit && rule.action is SkipVideo ==> said.effect == "video stage vetoed"@
                && after.vetoed && after.audio == p.audio
            &&& hit && rule.action is EncodeAudio && p.audio is None ==> said.effect
                == "audio stage planned"@ && after.audio is Some
            &&& hit && rule.action is EncodeAudio && p.audio is Some ==> said.effect
                == "audio already planned by an earlier rule"@ && after.audio == p.audio
            &&& hit && rule.action is EncodeVideo && p.vetoed ==> said.effect
                == "video stage vetoed, rule ignored"@ && after.video == p.video
            &&& hit && rule.action is EncodeVideo && !p.vetoed && p.video is None ==> said.effect
                == "video stage planned"@ && after.video is Some
            &&& hit && rule.action is EncodeVideo && !p.vetoed && p.video is Some ==> said.effect
                == "video already planned by an earlier rule"@ && after.video == p.video
        }),
{
}

/// The explanation of a file whose video is left alone begins with the built-in
/// veto, and that of another file with its first rule.
pub proof fn law_the_builtin_veto_is_explained(f: FileFacts)
    ensures
        f.is_hdr || f.is_dovi ==> begun(f).trace.len() == 1 && begun(f).trace[0].rule
            == "<builtin HDR/DV veto>"@ && begun(f).trace[0].matched && begun(f).trace[0].effect
            == "video stage vetoed"@ && begun(f).vetoed,
        !f.is_hdr && !f.is_dovi ==> begun(f).trace.len() == 0 && !begun(f).vetoed,
        begun(f).audio is None && begun(f).video is None && begun(f).stopped is None,
{
}

/// The built-in policy calls its rules by what they do, and a file is large from
/// twenty gibibytes and small below four.
pub proof fn law_space_saver_names_and_sizes(policy: Policy)
    requires
        is_space_saver(policy),
    ensures
        policy.rules@.len() == 3,
        policy.rules@[0].name@ == "convert lossless and opus audio to eac3"@,
        policy.rules@[1].name@ == "re-encode non-hevc video above 2 Mbps"@,
        policy.rules@[2].name@ == "re-encode av1 on cpu only"@,
        policy.size_thresholds.small_max_bytes == 4 * 1024 * 1024 * 1024,
        policy.size_thresholds.medium_max_bytes == 20 * 1024 * 1024 * 1024,
{
}

} // verus!
