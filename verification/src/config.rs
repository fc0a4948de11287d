//! The persisted voice settings and the clamping rules that keep them valid.

use crate::decimal::{decimal_milli, format_milli, lemma_text_round_trip, milli_text, parse_milli, saturated};
use crate::ini::{
    ini_get, ini_new, ini_parse, ini_plain, ini_read, ini_set, ini_values, ini_writes, is_folded,
    no_entries, Entries, MAX_TEXT_LEN,
};
use configparser::ini::Ini;
use vstd::prelude::*;
use vstd::string::{StrSliceExecFns, StringExecFns};

verus! {

/// Lowest volume, in thousandths.
pub const VOLUME_MIN: i64 = 0;

/// Highest volume, in thousandths.
pub const VOLUME_MAX: i64 = 1000;

/// Lowest playback rate, in thousandths.
pub const RATE_MIN: i64 = 200;

/// Highest playback rate, in thousandths.
pub const RATE_MAX: i64 = 2000;

/// Playback rates are whole multiples of this step, in thousandths.
pub const RATE_STEP: i64 = 100;

/// Volume and rate of a fresh configuration, in thousandths.
pub const DEFAULT_LEVEL: i64 = 1000;

/// `v` limited to the closed interval from `lo` to `hi`.
pub open spec fn clamped(v: int, lo: int, hi: int) -> int {
    if v < lo {
        lo
    } else if v > hi {
        hi
    } else {
        v
    }
}

/// The volume that is stored for a requested volume.
pub open spec fn volume_of(raw: int) -> int {
    clamped(raw, VOLUME_MIN as int, VOLUME_MAX as int)
}

/// The rate that is stored for a requested rate: limited to the rate interval,
/// then moved to the nearest step, a value halfway between two steps going up.
pub open spec fn rate_of(raw: int) -> int {
    (clamped(raw, RATE_MIN as int, RATE_MAX as int) + RATE_STEP / 2) / (RATE_STEP as int) * RATE_STEP
}

/// Whether `rate` is a rate that a configuration may hold.
pub open spec fn is_rate(rate: int) -> bool {
    RATE_MIN <= rate <= RATE_MAX && rate % (RATE_STEP as int) == 0
}

/// Whether `volume` is a volume that a configuration may hold.
pub open spec fn is_volume(volume: int) -> bool {
    VOLUME_MIN <= volume <= VOLUME_MAX
}

/// Every stored rate is a whole step within the rate interval, at most half a
/// step away from the limited request; a valid rate is stored as it is.
pub proof fn lemma_rate_of(raw: int)
    ensures
        is_rate(rate_of(raw)),
        rate_of(raw) - RATE_STEP / 2 <= clamped(raw, RATE_MIN as int, RATE_MAX as int) < rate_of(
            raw,
        ) + RATE_STEP / 2,
        is_rate(raw) ==> rate_of(raw) == raw,
{
}

/// Every stored volume lies within the volume interval; a valid volume is stored
/// as it is, one below the interval as the lowest, one above as the highest.
pub proof fn lemma_volume_of(raw: int)
    ensures
        is_volume(volume_of(raw)),
        is_volume(raw) ==> volume_of(raw) == raw,
        raw < VOLUME_MIN ==> volume_of(raw) == VOLUME_MIN,
        raw > VOLUME_MAX ==> volume_of(raw) == VOLUME_MAX,
{
}

/// Limits a requested volume to the interval of valid volumes.
pub fn clamp_volume(raw: i64) -> (volume: i64)
    ensures
        volume == volume_of(raw as int),
        is_volume(volume as int),
        is_volume(raw as int) ==> volume == raw,
        raw < VOLUME_MIN ==> volume == VOLUME_MIN,
        raw > VOLUME_MAX ==> volume == VOLUME_MAX,
{
    if raw < VOLUME_MIN {
        VOLUME_MIN
    } else if raw > VOLUME_MAX {
        VOLUME_MAX
    } else {
        raw
    }
}

/// Limits a requested rate to the interval of valid rates and rounds it to the
/// nearest step, half a step rounding up.
pub fn clamp_round_rate(raw: i64) -> (rate: i64)
    ensures
        rate == rate_of(raw as int),
        is_rate(rate as int),
        rate - RATE_STEP / 2 <= clamped(raw as int, RATE_MIN as int, RATE_MAX as int) < rate
            + RATE_STEP / 2,
        is_rate(raw as int) ==> rate == raw,
{
    let limited: i64 = if raw < RATE_MIN {
        RATE_MIN
    } else if raw > RATE_MAX {
        RATE_MAX
    } else {
        raw
    };
    let steps: i64 = (limited + RATE_STEP / 2) / RATE_STEP;
    steps * RATE_STEP
}

/// What a configuration holds, as mathematical values.
pub struct ConfigView {
    /// Display name of the chosen voice.
    pub voice: Seq<char>,
    /// Volume in thousandths.
    pub volume: int,
    /// Playback rate in thousandths.
    pub rate: int,
}

impl ConfigView {
    /// Volume and rate lie in their intervals and the rate is a whole step.
    pub open spec fn valid(self) -> bool {
        is_volume(self.volume) && is_rate(self.rate)
    }

    /// The configuration of a first run.
    pub open spec fn initial() -> ConfigView {
        ConfigView { voice: "default"@, volume: DEFAULT_LEVEL as int, rate: DEFAULT_LEVEL as int }
    }

    /// The configuration that requested values lead to.
    pub open spec fn of(voice: Seq<char>, volume: int, rate: int) -> ConfigView {
        ConfigView { voice, volume: volume_of(volume), rate: rate_of(rate) }
    }
}

/// The voice settings that survive a restart. Every value of this type is valid:
/// the setters clamp before they store.
#[derive(Debug, PartialEq, Eq)]
pub struct TtsConfig {
    voice: String,
    volume: i64,
    rate: i64,
}

impl View for TtsConfig {
    type V = ConfigView;

    closed spec fn view(&self) -> ConfigView {
        ConfigView { voice: self.voice@, volume: self.volume as int, rate: self.rate as int }
    }
}

impl TtsConfig {
    /// What holds of every configuration: its values are valid.
    #[verifier::type_invariant]
    pub open spec fn inv(&self) -> bool {
        self@.valid()
    }

    /// Stores the display name of the chosen voice.
    pub fn set_voice(&mut self, voice: String)
        ensures
            final(self)@ == (ConfigView { voice: voice@, ..old(self)@ }),
            final(self)@.valid(),
    {
        proof {
            use_type_invariant(&*self);
        }
        self.voice = voice;
    }

    /// Stores the requested volume, limited to the valid interval.
    pub fn set_volume(&mut self, volume: i64)
        ensures
            final(self)@ == (ConfigView { volume: volume_of(volume as int), ..old(self)@ }),
            final(self)@.valid(),
    {
        proof {
            use_type_invariant(&*self);
        }
        self.volume = clamp_volume(volume);
    }

    /// Stores the requested rate, limited to the valid interval and rounded to a
    /// whole step.
    pub fn set_rate(&mut self, rate: i64)
        ensures
            final(self)@ == (ConfigView { rate: rate_of(rate as int), ..old(self)@ }),
            final(self)@.valid(),
    {
        proof {
            use_type_invariant(&*self);
        }
        self.rate = clamp_round_rate(rate);
    }

    /// A configuration from requested values, clamped as the setters clamp.
    pub fn new(voice: String, volume: i64, rate: i64) -> (config: Self)
        ensures
            config@ == ConfigView::of(voice@, volume as int, rate as int),
            config@.valid(),
    {
        let mut result: Self = Self::default();
        result.set_rate(rate);
        result.set_volume(volume);
        result.set_voice(voice);
        result
    }

    /// Display name of the chosen voice.
    pub fn voice(&self) -> (voice: &str)
        ensures
            voice@ == self@.voice,
    {
        self.voice.as_str()
    }

    /// Volume in thousandths, between `VOLUME_MIN` and `VOLUME_MAX`.
    pub fn volume(&self) -> (volume: i64)
        ensures
            volume == self@.volume,
            is_volume(volume as int),
    {
        proof {
            use_type_invariant(self);
        }
        self.volume
    }

    /// Playback rate in thousandths, a whole step between `RATE_MIN` and `RATE_MAX`.
    pub fn rate(&self) -> (rate: i64)
        ensures
            rate == self@.rate,
            is_rate(rate as int),
    {
        proof {
            use_type_invariant(self);
        }
        self.rate
    }
}

impl Default for TtsConfig {
    fn default() -> (config: Self)
        ensures
            config@ == ConfigView::initial(),
            config@.valid(),
    {
        Self { voice: String::from_str("default"), volume: DEFAULT_LEVEL, rate: DEFAULT_LEVEL }
    }
}

impl Clone for TtsConfig {
    fn clone(&self) -> (copy: Self)
        ensures
            copy@ == self@,
    {
        proof {
            use_type_invariant(self);
        }
        Self { voice: self.voice.clone(), volume: self.volume, rate: self.rate }
    }
}

/// Why a settings text could not be read.
#[derive(Debug, PartialEq, Eq)]
pub enum ConfigError {
    /// The text is no INI text, or too long to be handed to the parser;
    /// `reason` says which, in the parser's words where it refused the text.
    Malformed { reason: String },
    /// The settings text that was written would not be read back as the
    /// settings it was written for; `text` is that text.
    Unfaithful { text: String },
}

/// Name of the section that holds the settings.
pub open spec fn section_name() -> Seq<char> {
    "default"@
}

/// What the settings file stores under `key`, if anything.
pub open spec fn field(values: Entries, key: Seq<char>) -> Option<Seq<char>> {
    if values.contains_key((section_name(), key)) {
        Some(values[(section_name(), key)])
    } else {
        None
    }
}

/// The level, in thousandths, that a stored text stands for: the decimal it
/// holds, limited to what an `i64` holds; the default level where the text is
/// missing or no decimal.
pub open spec fn level_of(text: Option<Seq<char>>) -> int {
    match text {
        Some(t) => match decimal_milli(t) {
            Some(v) => saturated(v),
            None => DEFAULT_LEVEL as int,
        },
        None => DEFAULT_LEVEL as int,
    }
}

/// The configuration that stored fields lead to. A missing or unreadable field
/// counts as its default; what is read is clamped like any request.
pub open spec fn stored_config(
    voice: Option<Seq<char>>,
    volume: Option<Seq<char>>,
    rate: Option<Seq<char>>,
) -> ConfigView {
    ConfigView::of(
        match voice {
            Some(v) => v,
            None => "default"@,
        },
        level_of(volume),
        level_of(rate),
    )
}

/// The configuration that the entries of a settings file lead to.
pub open spec fn config_of_values(values: Entries) -> ConfigView {
    stored_config(field(values, "voice"@), field(values, "volume"@), field(values, "rate"@))
}

/// The entries under which a configuration is stored.
pub open spec fn values_of_config(c: ConfigView) -> Entries {
    no_entries().insert((section_name(), "voice"@), c.voice).insert(
        (section_name(), "rate"@),
        milli_text(c.rate),
    ).insert((section_name(), "volume"@), milli_text(c.volume))
}

/// The names used in the settings file are left alone by the folding to lower
/// case, and no two keys are the same.
pub proof fn lemma_names()
    ensures
        is_folded("default"@),
        is_folded("voice"@),
        is_folded("volume"@),
        is_folded("rate"@),
        "voice"@ != "volume"@,
        "voice"@ != "rate"@,
        "volume"@ != "rate"@,
{
    reveal_strlit("default");
    reveal_strlit("voice");
    reveal_strlit("volume");
    reveal_strlit("rate");
    assert("voice"@.len() == 5 && "volume"@.len() == 6 && "rate"@.len() == 4);
}

/// Storing a configuration and reading the stored fields gives the same
/// configuration: every valid value is stored as it is.
pub proof fn lemma_stored_round_trip(c: ConfigView)
    requires
        c.valid(),
    ensures
        stored_config(Some(c.voice), Some(milli_text(c.volume)), Some(milli_text(c.rate))) == c,
        config_of_values(values_of_config(c)) == c,
{
    lemma_text_round_trip(c.volume);
    lemma_text_round_trip(c.rate);
    lemma_rate_of(c.rate);
    lemma_names();
    let values = values_of_config(c);
    assert(field(values, "voice"@) == Some(c.voice));
    assert(field(values, "rate"@) == Some(milli_text(c.rate)));
    assert(field(values, "volume"@) == Some(milli_text(c.volume)));
}

/// The level that a stored text stands for.
fn stored_level(text: &Option<String>) -> (level: i64)
    ensures
        level == level_of(text.deep_view()),
{
    match text {
        Some(t) => match parse_milli(t.as_str()) {
            Some(v) => v,
            None => DEFAULT_LEVEL,
        },
        None => DEFAULT_LEVEL,
    }
}

impl TtsConfig {
    /// The configuration that the stored fields of a settings file lead to.
    pub fn from_stored(voice: Option<String>, volume: Option<String>, rate: Option<String>) -> (config:
        Self)
        ensures
            config@ == stored_config(voice.deep_view(), volume.deep_view(), rate.deep_view()),
            config@.valid(),
    {
        let volume_level: i64 = stored_level(&volume);
        let rate_level: i64 = stored_level(&rate);
        let name: String = match voice {
            Some(v) => v,
            None => String::from_str("default"),
        };
        TtsConfig::new(name, volume_level, rate_level)
    }

    /// The fields under which this configuration is stored: the voice, the
    /// volume and the rate, the last two as decimals.
    pub fn stored_fields(&self) -> (fields: (String, String, String))
        ensures
            fields.0@ == self@.voice,
            fields.1@ == milli_text(self@.volume),
            fields.2@ == milli_text(self@.rate),
            stored_config(Some(fields.0@), Some(fields.1@), Some(fields.2@)) == self@,
    {
        proof {
            use_type_invariant(self);
            lemma_stored_round_trip(self@);
        }
        (self.voice.clone(), format_milli(self.volume), format_milli(self.rate))
    }
}

/// The configuration that a settings text is read as; `None` for a text that
/// is too long for the parser or is no INI text.
pub open spec fn loaded_from(text: Seq<char>) -> Option<ConfigView> {
    if text.len() > MAX_TEXT_LEN {
        None
    } else {
        match ini_parse(text) {
            Some(values) => Some(config_of_values(values)),
            None => None,
        }
    }
}

/// Whether a settings text is read as the configuration `c`.
pub open spec fn reads_back(text: Seq<char>, c: ConfigView) -> bool {
    loaded_from(text) == Some(c)
}

/// Reads a configuration from the text of a settings file. Fields that are
/// missing or unreadable take their defaults; only a text that is no INI text,
/// or one of more than `MAX_TEXT_LEN` characters, is an error.
pub fn load_config(text: String) -> (loaded: Result<TtsConfig, ConfigError>)
    ensures
        match loaded_from(text@) {
            Some(c) => loaded is Ok && loaded->Ok_0@ == c,
            None => loaded is Err && loaded->Err_0 is Malformed,
        },
{
    proof {
        lemma_names();
    }
    if text.as_str().unicode_len() > MAX_TEXT_LEN {
        return Err(ConfigError::Malformed { reason: String::from_str("the text is too long") });
    }
    let mut ini: Ini = ini_new();
    match ini_read(&mut ini, text) {
        Err(reason) => Err(ConfigError::Malformed { reason }),
        Ok(_) => {
            let voice: Option<String> = ini_get(&ini, "default", "voice");
            let volume: Option<String> = ini_get(&ini, "default", "volume");
            let rate: Option<String> = ini_get(&ini, "default", "rate");
            Ok(TtsConfig::from_stored(voice, volume, rate))
        },
    }
}

/// The entries of a settings file that stores `config`: in the one section, the
/// voice, the rate and the volume, and nothing else.
pub fn config_entries(config: &TtsConfig) -> (ini: Ini)
    ensures
        ini_values(ini) == values_of_config(config@),
        ini_plain(ini),
{
    proof {
        lemma_names();
    }
    let fields: (String, String, String) = config.stored_fields();
    let mut ini: Ini = ini_new();
    ini_set(&mut ini, "default", "voice", fields.0);
    ini_set(&mut ini, "default", "rate", fields.2);
    ini_set(&mut ini, "default", "volume", fields.1);
    ini
}

impl TtsConfig {
    /// Whether two configurations hold the same voice, volume and rate.
    fn same_as(&self, other: &TtsConfig) -> (same: bool)
        ensures
            same == (self@ == other@),
    {
        self.voice == other.voice && self.volume == other.volume && self.rate == other.rate
    }
}

/// Decides what becomes of a settings text that was written for `config`. The
/// text is read once more: it is handed out as saved exactly when it is read
/// as `config` again. A text that would be read as something else (a voice name
/// with a comment sign in it, say) comes back inside `ConfigError::Unfaithful`.
/// Either way the text is returned as it was given.
pub fn settle_saved(config: &TtsConfig, text: String) -> (saved: Result<String, ConfigError>)
    ensures
        reads_back(text@, config@) ==> saved is Ok && saved->Ok_0@ == text@,
        !reads_back(text@, config@) ==> saved is Err && saved->Err_0 is Unfaithful
            && saved->Err_0->Unfaithful_text@ == text@,
{
    let faithful: bool = match load_config(text.clone()) {
        Ok(back) => back.same_as(config),
        Err(_) => false,
    };
    if faithful {
        Ok(text)
    } else {
        Err(ConfigError::Unfaithful { text })
    }
}

/// The text of a settings file that stores `config`: the entries of
/// `config_entries`, written by the INI container and settled by
/// `settle_saved`. The order of the written lines is the container's own, so
/// whether the text reads back is known only once it is written.
pub fn save_config(config: TtsConfig) -> (saved: Result<String, ConfigError>)
    ensures
        saved is Ok ==> reads_back(saved->Ok_0@, config@),
        saved is Err ==> saved->Err_0 is Unfaithful && !reads_back(
            saved->Err_0->Unfaithful_text@,
            config@,
        ),
{
    let ini: Ini = config_entries(&config);
    let text: String = ini_writes(&ini);
    settle_saved(&config, text)
}

} // verus!
