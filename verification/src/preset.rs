//! Named quality presets.
//!
//! Intent is carried by `Option<EncoderId>`: `None` means unspecified, which
//! is a fact the type system can hold and a sentinel string cannot.
use vstd::prelude::*;

use crate::error::CoreError;
use crate::plan::{EncodePlan, EncoderId};
use crate::text;

verus! {

/// One named preset: the codecs it selects and the ffmpeg arguments it adds.
#[derive(Debug, Clone, PartialEq, Eq)]
pub struct Preset {
    /// Canonical name.
    pub name: String,
    /// Alternative names accepted for the same preset.
    pub aliases: Vec<String>,
    /// Video encoder this preset selects.
    pub video: EncoderId,
    /// Audio encoder this preset selects.
    pub audio: EncoderId,
    /// Arguments appended before any user-supplied extras.
    pub args: Vec<String>,
    /// One-line summary, shown when a lookup fails.
    pub description: String,
}

/// What a preset says.
pub struct PresetModel {
    /// Canonical name.
    pub name: Seq<char>,
    /// Alternative names.
    pub aliases: Seq<Seq<char>>,
    /// Video encoder.
    pub video: EncoderId,
    /// Audio encoder.
    pub audio: EncoderId,
    /// Arguments.
    pub args: Seq<Seq<char>>,
    /// Summary.
    pub description: Seq<char>,
}

impl View for Preset {
    type V = PresetModel;

    open spec fn view(&self) -> PresetModel {
        PresetModel {
            name: self.name@,
            aliases: text::texts(self.aliases@),
            video: self.video,
            audio: self.audio,
            args: text::texts(self.args@),
            description: self.description@,
        }
    }
}

/// The built-in presets.
pub open spec fn builtin_models() -> Seq<PresetModel> {
    seq![
        PresetModel {
            name: "original-h265"@,
            aliases: seq!["original"@],
            video: EncoderId::Libx265,
            audio: EncoderId::Aac,
            args: seq!["-crf"@, "18"@, "-preset"@, "slow"@, "-b:a"@, "256k"@],
            description: "archive quality: h265 CRF 18 slow, AAC 256k"@,
        },
        PresetModel {
            name: "tv-h265-fast"@,
            aliases: seq!["tv-fast"@],
            video: EncoderId::Libx265,
            audio: EncoderId::Aac,
            args: seq!["-crf"@, "22"@, "-preset"@, "medium"@, "-b:a"@, "160k"@],
            description: "TV episodes: h265 CRF 22 medium, AAC 160k"@,
        },
        PresetModel {
            name: "movie-quality"@,
            aliases: seq!["movie"@],
            video: EncoderId::Libx265,
            audio: EncoderId::Aac,
            args: seq!["-crf"@, "16"@, "-preset"@, "slow"@, "-b:a"@, "320k"@],
            description: "films: h265 CRF 16 slow, AAC 320k"@,
        },
    ]
}

/// The models of a list of presets.
pub open spec fn models(v: Seq<Preset>) -> Seq<PresetModel> {
    v.map_values(|p: Preset| p@)
}

fn entry(
    name: &str,
    alias: &str,
    crf: &str,
    speed: &str,
    bitrate: &str,
    description: &str,
) -> (p: Preset)
    ensures
        p@ == (PresetModel {
            name: name@,
            aliases: seq![alias@],
            video: EncoderId::Libx265,
            audio: EncoderId::Aac,
            args: seq!["-crf"@, crf@, "-preset"@, speed@, "-b:a"@, bitrate@],
            description: description@,
        }),
{
    let mut aliases: Vec<String> = Vec::new();
    text::push_text(&mut aliases, alias);
    let mut args: Vec<String> = Vec::new();
    text::push_text(&mut args, "-crf");
    text::push_text(&mut args, crf);
    text::push_text(&mut args, "-preset");
    text::push_text(&mut args, speed);
    text::push_text(&mut args, "-b:a");
    text::push_text(&mut args, bitrate);
    assert(text::texts(aliases@) =~= seq![alias@]);
    assert(text::texts(args@) =~= seq!["-crf"@, crf@, "-preset"@, speed@, "-b:a"@, bitrate@]);
    Preset {
        name: name.to_owned(),
        aliases,
        video: EncoderId::Libx265,
        audio: EncoderId::Aac,
        args,
        description: description.to_owned(),
    }
}

/// The built-in preset table.
pub fn builtin() -> (r: Vec<Preset>)
    ensures
        models(r@) == builtin_models(),
{
    let mut r: Vec<Preset> = Vec::new();
    r.push(
        entry(
            "original-h265",
            "original",
            "18",
            "slow",
            "256k",
            "archive quality: h265 CRF 18 slow, AAC 256k",
        ),
    );
    r.push(
        entry(
            "tv-h265-fast",
            "tv-fast",
            "22",
            "medium",
            "160k",
            "TV episodes: h265 CRF 22 medium, AAC 160k",
        ),
    );
    r.push(
        entry(
            "movie-quality",
            "movie",
            "16",
            "slow",
            "320k",
            "films: h265 CRF 16 slow, AAC 320k",
        ),
    );
    assert(models(r@) =~= builtin_models());
    r
}

/// How one preset is listed.
pub open spec fn listing(p: PresetModel) -> Seq<char> {
    if p.aliases.len() == 0 {
        p.name
    } else {
        p.name + " (aliases: "@ + text::joined(p.aliases, ", "@) + ")"@
    }
}

/// How the built-in presets are listed.
pub open spec fn all_names() -> Seq<char> {
    text::joined(builtin_models().map_values(|p: PresetModel| listing(p)), ", "@)
}

/// Every accepted name, canonical and alias, as a human-readable list.
pub fn valid_names() -> (r: String)
    ensures
        r@ == all_names(),
{
    let table = builtin();
    let ghost all = builtin_models();
    let ghost listed = all.map_values(|p: PresetModel| listing(p));
    let mut parts: Vec<String> = Vec::new();
    let mut i: usize = 0;
    while i < table.len()
        invariant
            i <= table@.len(),
            models(table@) == all,
            listed == all.map_values(|p: PresetModel| listing(p)),
            text::texts(parts@) == listed.take(i as int),
        decreases table.len() - i,
    {
        let p = &table[i];
        assert(p@ == all[i as int]);
        assert(text::texts(p.aliases@).len() == p.aliases@.len());
        if p.aliases.len() == 0 {
            text::push_text(&mut parts, p.name.as_str());
        } else {
            let mut s = text::cat2(p.name.as_str(), " (aliases: ");
            s.append(text::join(p.aliases.as_slice(), ", ").as_str());
            s.append(")");
            text::push_owned(&mut parts, s);
        }
        i += 1;
        assert(text::texts(parts@) =~= listed.take(i as int));
    }
    assert(listed.take(i as int) =~= listed);
    text::join(parts.as_slice(), ", ")
}

/// A name is the preset's own or one of its aliases.
pub open spec fn answers_to(p: PresetModel, name: Seq<char>) -> bool {
    p.name == name || p.aliases.contains(name)
}

/// The first preset of a table that answers to a name.
pub open spec fn found_in(table: Seq<PresetModel>, name: Seq<char>) -> Option<PresetModel>
    decreases table.len(),
{
    if table.len() == 0 {
        None
    } else if answers_to(table[0], name) {
        Some(table[0])
    } else {
        found_in(table.skip(1), name)
    }
}

fn answers(p: &Preset, name: &str) -> (r: bool)
    ensures
        r == answers_to(p@, name@),
{
    if text::same(p.name.as_str(), name) {
        return true;
    }
    let ghost aliases = text::texts(p.aliases@);
    let mut i: usize = 0;
    while i < p.aliases.len()
        invariant
            i <= p.aliases@.len(),
            aliases == text::texts(p.aliases@),
            forall|j: int| 0 <= j < i ==> aliases[j] != name@,
        decreases p.aliases.len() - i,
    {
        if text::same(p.aliases[i].as_str(), name) {
            assert(aliases[i as int] == name@);
            return true;
        }
        i += 1;
    }
    false
}

/// Look up a preset by canonical name or alias.
///
/// An unknown name is an error that lists the valid ones: a typo must not
/// produce a full run at the wrong settings.
pub fn lookup(name: &str) -> (r: Result<Preset, CoreError>)
    ensures
        r is Ok == found_in(builtin_models(), name@) is Some,
        r is Ok ==> r->Ok_0@ == found_in(builtin_models(), name@)->0,
        r is Err ==> {
            &&& r->Err_0 is UnknownPreset
            &&& r->Err_0->name@ == name@
            &&& r->Err_0->valid@ == all_names()
        },
{
    let mut table = builtin();
    let ghost all = builtin_models();
    let ghost mut at: int = 0;
    assert(all.skip(0) =~= all);
    while table.len() > 0
        invariant
            0 <= at <= all.len(),
            all == builtin_models(),
            models(table@) == all.skip(at),
            found_in(all.skip(at), name@) == found_in(all, name@),
        decreases table.len(),
    {
        let ghost here = all.skip(at);
        assert(models(table@)[0] == table@[0]@);
        assert(here.skip(1) =~= all.skip(at + 1));
        let p = table.remove(0);
        assert(models(table@) =~= here.skip(1));
        if answers(&p, name) {
            return Ok(p);
        }
        proof {
            at = at + 1;
        }
    }
    assert(models(table@).len() == 0);
    Err(CoreError::UnknownPreset { name: name.to_owned(), valid: valid_names() })
}

/// The first value there is.
pub open spec fn chosen(
    explicit: Option<EncoderId>,
    preset: Option<EncoderId>,
    default: EncoderId,
) -> EncoderId {
    match explicit {
        Some(e) => e,
        None => match preset {
            Some(p) => p,
            None => default,
        },
    }
}

/// Resolve a preset plus explicit overrides into a concrete [`EncodePlan`].
///
/// A preset supplies codecs and arguments; an explicit codec overrides it;
/// user extras are appended after the preset's arguments, so they win. The
/// defaults apply only where neither provides a codec.
pub fn apply(
    preset: Option<&str>,
    vcodec: Option<EncoderId>,
    acodec: Option<EncoderId>,
    extra: &[String],
    default_video: EncoderId,
    default_audio: EncoderId,
) -> (r: Result<EncodePlan, CoreError>)
    ensures
        r is Err == (preset is Some && found_in(builtin_models(), preset->0@) is None),
        r is Err ==> {
            &&& r->Err_0 is UnknownPreset
            &&& r->Err_0->name@ == preset->0@
            &&& r->Err_0->valid@ == all_names()
        },
        r is Ok ==> {
            let found = match preset {
                Some(name) => found_in(builtin_models(), name@),
                None => None,
            };
            let plan = r->Ok_0;
            &&& plan.video_codec == chosen(
                vcodec,
                match found {
                    Some(p) => Some(p.video),
                    None => None,
                },
                default_video,
            )
            &&& plan.audio_codec == chosen(
                acodec,
                match found {
                    Some(p) => Some(p.audio),
                    None => None,
                },
                default_audio,
            )
            &&& plan.pix_fmt is None
            &&& text::texts(plan.extra_args@) == (match found {
                Some(p) => p.args,
                None => Seq::empty(),
            }) + text::texts(extra@)
        },
{
    let found: Option<Preset> = match preset {
        Some(name) => match lookup(name) {
            Ok(p) => Some(p),
            Err(e) => {
                return Err(e);
            },
        },
        None => None,
    };
    let video_codec = match vcodec {
        Some(e) => e,
        None => match &found {
            Some(p) => p.video,
            None => default_video,
        },
    };
    let audio_codec = match acodec {
        Some(e) => e,
        None => match &found {
            Some(p) => p.audio,
            None => default_audio,
        },
    };
    let mut extra_args: Vec<String> = match found {
        Some(p) => p.args,
        None => Vec::new(),
    };
    assert(preset is None ==> text::texts(extra_args@) =~= Seq::empty());
    text::push_texts(&mut extra_args, extra);
    Ok(EncodePlan { video_codec, audio_codec, pix_fmt: None, extra_args })
}

// ------------------------------------------------------------------- laws --

/// An explicit codec is honoured whatever the preset and the default say, even
/// where it is the default.
pub proof fn law_explicit_codec_wins(e: EncoderId, preset: Option<EncoderId>, default: EncoderId)
    ensures
        chosen(Some(e), preset, default) == e,
        chosen(None, None, default) == default,
        preset matches Some(p) ==> chosen(None, preset, default) == p,
{
}

/// Every preset is found under its own name and under each alias.
pub proof fn law_every_name_resolves(i: int, name: Seq<char>)
    requires
        0 <= i < builtin_models().len(),
        answers_to(builtin_models()[i], name),
    ensures
        found_in(builtin_models(), name) == Some(builtin_models()[i]),
{
    let all = builtin_models();
    reveal_strlit("original-h265");
    reveal_strlit("original");
    reveal_strlit("tv-h265-fast");
    reveal_strlit("tv-fast");
    reveal_strlit("movie-quality");
    reveal_strlit("movie");
    assert("original-h265"@.len() == 13);
    assert("original"@.len() == 8);
    assert("tv-h265-fast"@.len() == 12);
    assert("tv-fast"@.len() == 7);
    assert("movie-quality"@.len() == 13);
    assert("movie"@.len() == 5);
    assert("original-h265"@[0] != "movie-quality"@[0]);
    assert(all.skip(1)[0] == all[1]);
    assert(all.skip(1).skip(1)[0] == all[2]);
    reveal_with_fuel(found_in, 4);
}

/// What the built-in presets do: each encodes with x265 and AAC, at its own
/// quality, speed and audio rate.
pub proof fn law_what_the_presets_do(name: Seq<char>)
    ensures
        ({
            let p = found_in(builtin_models(), name);
            &&& p is Some <==> name == "original-h265"@ || name == "original"@ || name
                == "tv-h265-fast"@ || name == "tv-fast"@ || name == "movie-quality"@ || name
                == "movie"@
            &&& p matches Some(m) ==> m.video is Libx265 && m.audio is Aac
            &&& name == "original-h265"@ || name == "original"@ ==> p->0.args == seq![
                "-crf"@,
                "18"@,
                "-preset"@,
                "slow"@,
                "-b:a"@,
                "256k"@,
            ]
            &&& name == "tv-h265-fast"@ || name == "tv-fast"@ ==> p->0.args == seq![
                "-crf"@,
                "22"@,
                "-preset"@,
                "medium"@,
                "-b:a"@,
                "160k"@,
            ]
            &&& name == "movie-quality"@ || name == "movie"@ ==> p->0.args == seq![
                "-crf"@,
                "16"@,
                "-preset"@,
                "slow"@,
                "-b:a"@,
                "320k"@,
            ]
        }),
{
    let table = builtin_models();
    assert(table[0].aliases[0] == "original"@);
    assert(table[1].aliases[0] == "tv-fast"@);
    assert(table[2].aliases[0] == "movie"@);
    reveal_with_fuel(found_in, 4);
    assert(table.skip(1)[0] == table[1]);
    assert(table.skip(1).skip(1)[0] == table[2]);
    assert(table.skip(1).skip(1).skip(1).len() == 0);
    if name == "original-h265"@ || name == "original"@ {
        law_every_name_resolves(0, name);
    }
    if name == "tv-h265-fast"@ || name == "tv-fast"@ {
        law_every_name_resolves(1, name);
    }
    if name == "movie-quality"@ || name == "movie"@ {
        law_every_name_resolves(2, name);
    }
}

/// A preset answers to its name and to each of its aliases, and to nothing else.
pub proof fn law_what_a_preset_answers_to(p: PresetModel, name: Seq<char>, i: int)
    ensures
        answers_to(p, p.name),
        0 <= i < p.aliases.len() ==> answers_to(p, p.aliases[i]),
        name != p.name && (forall|j: int| 0 <= j < p.aliases.len() ==> #[trigger] p.aliases[j]
            != name) ==> !answers_to(p, name),
{
}

/// A preset is listed by its name, with its other names behind it.
pub proof fn law_how_a_preset_is_listed(p: PresetModel)
    ensures
        p.aliases.len() == 0 ==> listing(p) == p.name,
        p.aliases.len() > 0 ==> listing(p) == p.name + " (aliases: "@ + text::joined(
            p.aliases,
            ", "@,
        ) + ")"@,
        all_names() == listing(builtin_models()[0]) + ", "@ + listing(builtin_models()[1]) + ", "@
            + listing(builtin_models()[2]),
{
    let m = builtin_models().map_values(|p: PresetModel| listing(p));
    assert(m.len() == 3);
    reveal_with_fuel(text::joined, 4);
    assert(m.drop_last().drop_last()[0] == m[0]);
    assert(m.drop_last().last() == m[1]);
    assert(m.last() == m[2]);
}

} // verus!
