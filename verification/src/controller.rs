//! The playback controller: one utterance at a time, commands handled one after
//! another, and the speech engines reached only through scripts.
//!
//! A command is handled in two steps. `Controller::plan` says which outside work
//! the command calls for; the caller carries it out and reports how it went;
//! `Controller::commit` then moves the controller to its next state. Both steps
//! are total: every command is answered in every state.

use crate::config::{is_rate, lemma_rate_of, rate_of, volume_of, ConfigView, TtsConfig};
use crate::tts::{speak_script, spoken_words, stop_script, words_of, Action, ActionView, Tts};
use crate::views::{empty_deep, push_deep};
use crate::voices::{initial_voice, load_voice_labels, lemma_last_match, VoiceDescriptor, VoiceView};
use vstd::prelude::*;
use vstd::string::StringExecFns;

verus! {

/// Milliseconds for which rate input must rest before the rate is committed.
pub const RATE_DEBOUNCE_MS: u64 = 500;

/// Where playback stands.
#[derive(Clone, Copy, Debug, PartialEq, Eq, Structural)]
pub enum PlaybackState {
    /// Nothing is loaded.
    Idle,
    /// An utterance is playing.
    Speaking,
    /// An utterance is loaded and halted.
    Paused,
}

/// The kinds of command that the dispatcher queues.
#[derive(Clone, Copy, Debug, PartialEq, Eq, Structural)]
pub enum TTSCommand {
    TogglePlayPause,
    Stop,
    VolumeChanged,
    PlaybackRateChanged,
    PlaybackRateSet,
    SpeakerChanged,
    WordBoundaryAdvanced,
    DraggedFile,
}

impl PlaybackState {
    /// Whether the stop control is enabled: whenever something is loaded.
    pub open spec fn stop_enabled_spec(self) -> bool {
        self != PlaybackState::Idle
    }

    /// Whether a voice may be chosen: only while nothing is loaded.
    pub open spec fn voice_selection_enabled_spec(self) -> bool {
        self == PlaybackState::Idle
    }

    /// Whether the play control shows as switched on: while speaking.
    pub open spec fn toggled_spec(self) -> bool {
        self == PlaybackState::Speaking
    }

    /// The caption of the play control: what pressing it would do.
    pub open spec fn play_label_spec(self) -> Seq<char> {
        match self {
            PlaybackState::Idle => "Start"@,
            PlaybackState::Speaking => "Pause"@,
            PlaybackState::Paused => "Resume"@,
        }
    }

    /// Whether the stop control is enabled: whenever something is loaded.
    #[verifier::when_used_as_spec(stop_enabled_spec)]
    pub fn stop_enabled(self) -> (enabled: bool)
        ensures
            enabled == self.stop_enabled_spec(),
    {
        match self {
            PlaybackState::Idle => false,
            _ => true,
        }
    }

    /// Whether a voice may be chosen: only while nothing is loaded.
    #[verifier::when_used_as_spec(voice_selection_enabled_spec)]
    pub fn voice_selection_enabled(self) -> (enabled: bool)
        ensures
            enabled == self.voice_selection_enabled_spec(),
    {
        match self {
            PlaybackState::Idle => true,
            _ => false,
        }
    }

    /// Whether the play control shows as switched on: while speaking.
    #[verifier::when_used_as_spec(toggled_spec)]
    pub fn toggled(self) -> (on: bool)
        ensures
            on == self.toggled_spec(),
    {
        match self {
            PlaybackState::Speaking => true,
            _ => false,
        }
    }

    /// The caption of the play control: what pressing it would do.
    pub fn play_label(self) -> (label: &'static str)
        ensures
            label@ == self.play_label_spec(),
    {
        match self {
            PlaybackState::Idle => "Start",
            PlaybackState::Speaking => "Pause",
            PlaybackState::Paused => "Resume",
        }
    }
}

/// A queued command together with what was read when it was taken off the queue.
#[derive(Debug, PartialEq, Eq)]
pub enum Command {
    /// The play control was switched on (`toggled`) or off; `text` is the source
    /// text at hand when it was switched on.
    TogglePlayPause { toggled: bool, text: String },
    /// Stop was asked for: by the user (`ended` is `None`), or by the player when
    /// the utterance of generation `ended` ran out.
    Stop { ended: Option<u64> },
    /// The volume control moved to `volume`, in thousandths.
    VolumeChanged { volume: i64 },
    /// The rate control moved to `rate`, in thousandths.
    PlaybackRateChanged { rate: i64 },
    /// The rate timer with identity `timer` ran out.
    PlaybackRateSet { timer: u64 },
    /// The voice at position `index` of the catalogue was chosen.
    SpeakerChanged { index: usize },
    /// The player entered the next word of the utterance of `generation`.
    WordBoundaryAdvanced { generation: u64 },
    /// Text arrived by drag and drop.
    DraggedFile { text: String },
}

/// A `Command` as a mathematical value.
pub enum CommandView {
    TogglePlayPause { toggled: bool, text: Seq<char> },
    Stop { ended: Option<u64> },
    VolumeChanged { volume: i64 },
    PlaybackRateChanged { rate: i64 },
    PlaybackRateSet { timer: u64 },
    SpeakerChanged { index: usize },
    WordBoundaryAdvanced { generation: u64 },
    DraggedFile { text: Seq<char> },
}

impl View for Command {
    type V = CommandView;

    open spec fn view(&self) -> CommandView {
        match self {
            Command::TogglePlayPause { toggled, text } => CommandView::TogglePlayPause {
                toggled: *toggled,
                text: text@,
            },
            Command::Stop { ended } => CommandView::Stop { ended: *ended },
            Command::VolumeChanged { volume } => CommandView::VolumeChanged { volume: *volume },
            Command::PlaybackRateChanged { rate } => CommandView::PlaybackRateChanged {
                rate: *rate,
            },
            Command::PlaybackRateSet { timer } => CommandView::PlaybackRateSet { timer: *timer },
            Command::SpeakerChanged { index } => CommandView::SpeakerChanged { index: *index },
            Command::WordBoundaryAdvanced { generation } => CommandView::WordBoundaryAdvanced {
                generation: *generation,
            },
            Command::DraggedFile { text } => CommandView::DraggedFile { text: text@ },
        }
    }
}

impl CommandView {
    /// The kind under which the command is queued.
    pub open spec fn kind(self) -> TTSCommand {
        match self {
            CommandView::TogglePlayPause { .. } => TTSCommand::TogglePlayPause,
            CommandView::Stop { .. } => TTSCommand::Stop,
            CommandView::VolumeChanged { .. } => TTSCommand::VolumeChanged,
            CommandView::PlaybackRateChanged { .. } => TTSCommand::PlaybackRateChanged,
            CommandView::PlaybackRateSet { .. } => TTSCommand::PlaybackRateSet,
            CommandView::SpeakerChanged { .. } => TTSCommand::SpeakerChanged,
            CommandView::WordBoundaryAdvanced { .. } => TTSCommand::WordBoundaryAdvanced,
            CommandView::DraggedFile { .. } => TTSCommand::DraggedFile,
        }
    }
}

impl Command {
    /// The kind under which the command is queued.
    pub fn kind(&self) -> (kind: TTSCommand)
        ensures
            kind == self@.kind(),
    {
        match self {
            Command::TogglePlayPause { .. } => TTSCommand::TogglePlayPause,
            Command::Stop { .. } => TTSCommand::Stop,
            Command::VolumeChanged { .. } => TTSCommand::VolumeChanged,
            Command::PlaybackRateChanged { .. } => TTSCommand::PlaybackRateChanged,
            Command::PlaybackRateSet { .. } => TTSCommand::PlaybackRateSet,
            Command::SpeakerChanged { .. } => TTSCommand::SpeakerChanged,
            Command::WordBoundaryAdvanced { .. } => TTSCommand::WordBoundaryAdvanced,
            Command::DraggedFile { .. } => TTSCommand::DraggedFile,
        }
    }
}

/// How the script of a command went.
#[derive(Debug, PartialEq, Eq)]
pub enum Outcome {
    /// A step failed; the steps after it were not taken.
    Failed,
    /// Every step was taken. `cues` holds, for a script that synthesized, the
    /// text of each word cue in order, `None` for a cue without readable text.
    Completed { cues: Vec<Option<String>> },
}

/// An `Outcome` as a mathematical value.
pub enum OutcomeView {
    Failed,
    Completed { cues: Seq<Option<Seq<char>>> },
}

impl View for Outcome {
    type V = OutcomeView;

    open spec fn view(&self) -> OutcomeView {
        match self {
            Outcome::Failed => OutcomeView::Failed,
            Outcome::Completed { cues } => OutcomeView::Completed { cues: cues.deep_view() },
        }
    }
}

/// A rate that waits for its timer.
#[derive(Clone, Copy, Debug, PartialEq, Eq, Structural)]
pub struct PendingRate {
    /// Identity of the timer that commits the rate.
    pub timer: u64,
    /// The requested rate, in thousandths, as the control gave it.
    pub rate: i64,
}

/// The identity after `id`, starting over after the last one.
pub open spec fn next_id(id: u64) -> u64 {
    if id == u64::MAX {
        0
    } else {
        (id + 1) as u64
    }
}

/// The controller as a mathematical value.
pub struct ControllerView {
    /// Where playback stands.
    pub state: PlaybackState,
    /// The words of the current utterance.
    pub words: Seq<Seq<char>>,
    /// How many word boundaries of the current utterance were entered.
    pub cursor: nat,
    /// Generation of the current utterance; it changes with every new utterance.
    pub generation: u64,
    /// The rate that waits for its timer, if one does.
    pub pending: Option<PendingRate>,
    /// Identity that the next rate timer gets.
    pub timers: u64,
    /// The settings to persist.
    pub config: ConfigView,
    /// The installed voices.
    pub catalog: Seq<VoiceView>,
    /// The rate that the next utterance starts with.
    pub remembered_rate: int,
    /// Engine handle of the voice that was last selected.
    pub selected_voice: Option<usize>,
}

impl ControllerView {
    /// The cursor stays within the words, the settings are valid, and an idle
    /// controller holds no words.
    pub open spec fn valid(self) -> bool {
        &&& self.cursor <= self.words.len()
        &&& self.config.valid()
        &&& is_rate(self.remembered_rate)
        &&& self.state == PlaybackState::Idle ==> self.words.len() == 0
    }

    /// The word on display: none while idle or for an utterance without words;
    /// else the word whose boundary was entered last, the first word before any
    /// boundary was entered.
    pub open spec fn displayed(self) -> Seq<char> {
        if self.state == PlaybackState::Idle || self.words.len() == 0 {
            Seq::empty()
        } else if self.cursor == 0 {
            self.words[0]
        } else {
            self.words[self.cursor - 1]
        }
    }

    /// Whether an end-of-media notice belongs to an utterance that is no longer
    /// the current one.
    pub open spec fn stale(self, ended: Option<u64>) -> bool {
        ended is Some && ended != Some(self.generation)
    }

    /// Whether the rate timer `timer` is the one that the controller waits for.
    pub open spec fn awaits(self, timer: u64) -> bool {
        self.pending is Some && self.pending->Some_0.timer == timer
    }

    /// The script that starts an utterance of `text` from this state.
    pub open spec fn start_script(self, text: Seq<char>) -> Seq<ActionView> {
        speak_script(text, next_id(self.generation), self.remembered_rate)
    }

    /// The outside work that `cmd` calls for in this state.
    pub open spec fn plan(self, cmd: CommandView) -> Seq<ActionView> {
        match cmd {
            CommandView::TogglePlayPause { toggled, text } => if toggled {
                match self.state {
                    PlaybackState::Idle => if text.len() == 0 {
                        Seq::empty()
                    } else {
                        self.start_script(text)
                    },
                    PlaybackState::Paused => seq![ActionView::Play],
                    PlaybackState::Speaking => Seq::empty(),
                }
            } else {
                match self.state {
                    PlaybackState::Speaking => seq![ActionView::Pause],
                    _ => Seq::empty(),
                }
            },
            CommandView::Stop { ended } => if self.stale(ended) {
                Seq::empty()
            } else {
                stop_script()
            },
            CommandView::VolumeChanged { volume } => seq![
                ActionView::SetVolume { volume: volume_of(volume as int) },
            ],
            CommandView::PlaybackRateChanged { rate } => match self.pending {
                Some(p) => seq![
                    ActionView::CancelTimer { timer: p.timer },
                    ActionView::StartTimer { timer: self.timers, delay_ms: RATE_DEBOUNCE_MS },
                ],
                None => seq![
                    ActionView::StartTimer { timer: self.timers, delay_ms: RATE_DEBOUNCE_MS },
                ],
            },
            CommandView::PlaybackRateSet { timer } => if self.awaits(timer) {
                seq![ActionView::SetRate { rate: rate_of(self.pending->Some_0.rate as int) }]
            } else {
                Seq::empty()
            },
            CommandView::SpeakerChanged { index } => if index < self.catalog.len() {
                seq![ActionView::SetVoice { handle: self.catalog[index as int].handle }]
            } else {
                Seq::empty()
            },
            CommandView::WordBoundaryAdvanced { .. } => Seq::empty(),
            CommandView::DraggedFile { text } => if text.len() == 0 {
                Seq::empty()
            } else {
                self.start_script(text)
            },
        }
    }

    /// The state after an attempt to start an utterance: speaking the reported
    /// words from their start under a new generation, or unchanged after a failure.
    pub open spec fn started(self, outcome: OutcomeView) -> ControllerView {
        match outcome {
            OutcomeView::Failed => self,
            OutcomeView::Completed { cues } => ControllerView {
                state: PlaybackState::Speaking,
                words: words_of(cues),
                cursor: 0,
                generation: next_id(self.generation),
                ..self
            },
        }
    }

    /// The state after the player was silenced: idle, no words, cursor at the start.
    pub open spec fn stopped(self) -> ControllerView {
        ControllerView { state: PlaybackState::Idle, words: Seq::empty(), cursor: 0, ..self }
    }

    /// The state after `cmd` was handled in this state and its script went as
    /// `outcome` says.
    pub open spec fn next(self, cmd: CommandView, outcome: OutcomeView) -> ControllerView {
        match cmd {
            CommandView::TogglePlayPause { toggled, text } => if toggled {
                match self.state {
                    PlaybackState::Idle => if text.len() == 0 {
                        self
                    } else {
                        self.started(outcome)
                    },
                    PlaybackState::Paused => if outcome is Completed {
                        ControllerView { state: PlaybackState::Speaking, ..self }
                    } else {
                        self
                    },
                    PlaybackState::Speaking => self,
                }
            } else {
                if self.state == PlaybackState::Speaking && outcome is Completed {
                    ControllerView { state: PlaybackState::Paused, ..self }
                } else {
                    self
                }
            },
            CommandView::Stop { ended } => if self.stale(ended) || outcome is Failed {
                self
            } else {
                self.stopped()
            },
            CommandView::VolumeChanged { volume } => if outcome is Completed {
                ControllerView {
                    config: ConfigView { volume: volume_of(volume as int), ..self.config },
                    ..self
                }
            } else {
                self
            },
            CommandView::PlaybackRateChanged { rate } => ControllerView {
                pending: Some(PendingRate { timer: self.timers, rate }),
                timers: next_id(self.timers),
                ..self
            },
            CommandView::PlaybackRateSet { timer } => if self.awaits(timer) {
                let rate = rate_of(self.pending->Some_0.rate as int);
                if outcome is Completed {
                    ControllerView {
                        pending: None,
                        config: ConfigView { rate, ..self.config },
                        remembered_rate: rate,
                        ..self
                    }
                } else {
                    ControllerView { pending: None, ..self }
                }
            } else {
                self
            },
            CommandView::SpeakerChanged { index } => if index < self.catalog.len()
                && outcome is Completed {
                let voice = self.catalog[index as int];
                ControllerView {
                    config: match voice.display_name {
                        Some(name) => ConfigView { voice: name, ..self.config },
                        None => self.config,
                    },
                    selected_voice: Some(voice.handle),
                    ..self
                }
            } else {
                self
            },
            CommandView::WordBoundaryAdvanced { generation } => if generation == self.generation
                && self.state != PlaybackState::Idle && self.cursor < self.words.len() {
                ControllerView { cursor: self.cursor + 1, ..self }
            } else {
                self
            },
            CommandView::DraggedFile { text } => if text.len() == 0 {
                self
            } else {
                self.started(outcome)
            },
        }
    }

    /// The controller of a new session: idle, with the given settings and
    /// catalogue, the persisted rate remembered for the first utterance and the
    /// starting voice selected.
    pub open spec fn initial(config: ConfigView, catalog: Seq<VoiceView>) -> ControllerView {
        ControllerView {
            state: PlaybackState::Idle,
            words: Seq::empty(),
            cursor: 0,
            generation: 0,
            pending: None,
            timers: 0,
            config,
            catalog,
            remembered_rate: config.rate,
            selected_voice: match initial_voice(catalog, config.voice) {
                Some(i) => Some(catalog[i].handle),
                None => None,
            },
        }
    }

    /// The script that brings the engines in line with a new session's settings.
    pub open spec fn startup_script(self) -> Seq<ActionView> {
        let settings = seq![
            ActionView::SetRate { rate: self.config.rate },
            ActionView::SetVolume { volume: self.config.volume },
        ];
        match self.selected_voice {
            Some(handle) => settings.push(ActionView::SetVoice { handle }),
            None => settings,
        }
    }
}

/// Handling a command keeps a valid controller valid, however its script went.
pub proof fn lemma_next_valid(c: ControllerView, cmd: CommandView, outcome: OutcomeView)
    requires
        c.valid(),
    ensures
        c.next(cmd, outcome).valid(),
{
}

/// The playback controller. It owns the words of the current utterance and the
/// place reached in them, the playback state, the rate that waits for its timer,
/// and the settings to persist. Every value of this type is valid.
#[derive(Debug)]
pub struct Controller {
    state: PlaybackState,
    words: Vec<String>,
    cursor: usize,
    generation: u64,
    pending: Option<PendingRate>,
    timers: u64,
    config: TtsConfig,
    catalog: Vec<VoiceDescriptor>,
    tts: Tts,
}

impl View for Controller {
    type V = ControllerView;

    closed spec fn view(&self) -> ControllerView {
        ControllerView {
            state: self.state,
            words: self.words.deep_view(),
            cursor: self.cursor as nat,
            generation: self.generation,
            pending: self.pending,
            timers: self.timers,
            config: self.config@,
            catalog: self.catalog.deep_view(),
            remembered_rate: self.tts.remembered_rate(),
            selected_voice: self.tts.selected_voice(),
        }
    }
}

/// The identity after `id`, starting over after the last one.
fn following(id: u64) -> (next: u64)
    ensures
        next == next_id(id),
{
    if id == u64::MAX {
        0
    } else {
        id + 1
    }
}

impl Controller {
    /// What holds of every controller: its value is valid.
    #[verifier::type_invariant]
    pub open spec fn inv(&self) -> bool {
        self@.valid()
    }

    /// The controller of a new session. The persisted voice is looked up in the
    /// catalogue by display name; where it is missing, the first voice of the
    /// catalogue is selected.
    pub fn new(config: TtsConfig, catalog: Vec<VoiceDescriptor>) -> (controller: Self)
        ensures
            controller@ == ControllerView::initial(config@, catalog.deep_view()),
            controller@.valid(),
    {
        let mut tts: Tts = Tts::new();
        tts.remember_rate(config.rate());
        let found: (Vec<String>, Option<usize>) = load_voice_labels(&catalog, &config);
        proof {
            use_type_invariant(&config);
            use_type_invariant(&tts);
            lemma_last_match(catalog.deep_view(), config@.voice);
            lemma_rate_of(config@.rate);
        }
        match found.1 {
            Some(i) => {
                tts.remember_voice(&catalog[i]);
            },
            None => {
                if catalog.len() > 0 {
                    tts.remember_voice(&catalog[0]);
                }
            },
        }
        let words: Vec<String> = empty_deep();
        Controller {
            state: PlaybackState::Idle,
            words,
            cursor: 0,
            generation: 0,
            pending: None,
            timers: 0,
            config,
            catalog,
            tts,
        }
    }

    /// The script that brings the engines in line with the settings of a new
    /// session: rate, volume, and the selected voice if there is one.
    pub fn startup_plan(&self) -> (script: Vec<Action>)
        ensures
            script.deep_view() == self@.startup_script(),
    {
        let mut script: Vec<Action> = empty_deep();
        push_deep(&mut script, Action::SetRate { rate: self.config.rate() });
        push_deep(&mut script, Action::SetVolume { volume: self.config.volume() });
        match self.tts.voice() {
            Some(handle) => {
                push_deep(&mut script, Action::SetVoice { handle });
            },
            None => {},
        }
        proof {
            assert(script.deep_view() =~= self@.startup_script());
        }
        script
    }

    /// The outside work that `cmd` calls for in the present state. The caller
    /// carries the script out in order, stops at the first step that fails, and
    /// reports to `commit` how it went. An empty script asks for nothing.
    pub fn plan(&self, cmd: &Command) -> (script: Vec<Action>)
        ensures
            script.deep_view() == self@.plan(cmd@),
    {
        match cmd {
            Command::TogglePlayPause { toggled, text } => {
                if *toggled {
                    match self.state {
                        PlaybackState::Idle => {
                            if text.as_str().is_empty() {
                                empty_deep()
                            } else {
                                self.tts.speak(text.clone(), following(self.generation))
                            }
                        },
                        PlaybackState::Paused => self.tts.resume(),
                        PlaybackState::Speaking => empty_deep(),
                    }
                } else {
                    match self.state {
                        PlaybackState::Speaking => self.tts.pause(),
                        _ => empty_deep(),
                    }
                }
            },
            Command::Stop { ended } => {
                if self.is_stale(*ended) {
                    empty_deep()
                } else {
                    self.tts.stop()
                }
            },
            Command::VolumeChanged { volume } => self.tts.set_volume(*volume),
            Command::PlaybackRateChanged { .. } => {
                let mut script: Vec<Action> = empty_deep();
                match self.pending {
                    Some(p) => {
                        push_deep(&mut script, Action::CancelTimer { timer: p.timer });
                    },
                    None => {},
                }
                push_deep(
                    &mut script,
                    Action::StartTimer { timer: self.timers, delay_ms: RATE_DEBOUNCE_MS },
                );
                proof {
                    assert(script.deep_view() =~= self@.plan(cmd@));
                }
                script
            },
            Command::PlaybackRateSet { timer } => {
                match self.pending {
                    Some(p) => {
                        if p.timer == *timer {
                            self.tts.set_rate(p.rate)
                        } else {
                            empty_deep()
                        }
                    },
                    None => empty_deep(),
                }
            },
            Command::SpeakerChanged { index } => {
                if *index < self.catalog.len() {
                    self.tts.change_voice(&self.catalog[*index])
                } else {
                    empty_deep()
                }
            },
            Command::WordBoundaryAdvanced { .. } => empty_deep(),
            Command::DraggedFile { text } => {
                if text.as_str().is_empty() {
                    empty_deep()
                } else {
                    self.tts.speak(text.clone(), following(self.generation))
                }
            },
        }
    }

    /// Moves the controller to the state that follows `cmd`, given how the script
    /// of `plan` went. For a command whose script is empty the outcome plays no
    /// part. A failed script leaves playback and settings as they were: the
    /// command is dropped. Only the timers keep their course: a rate request
    /// waits for its new timer, and a timer that has run out is waited for no
    /// longer, however the script went.
    pub fn commit(&mut self, cmd: Command, outcome: Outcome)
        ensures
            final(self)@ == old(self)@.next(cmd@, outcome@),
            final(self)@.valid(),
    {
        proof {
            use_type_invariant(&*self);
            lemma_next_valid(self@, cmd@, outcome@);
        }
        match cmd {
            Command::TogglePlayPause { toggled, text } => {
                if toggled {
                    match self.state {
                        PlaybackState::Idle => {
                            if !text.as_str().is_empty() {
                                self.start(outcome);
                            }
                        },
                        PlaybackState::Paused => {
                            if let Outcome::Completed { .. } = outcome {
                                self.state = PlaybackState::Speaking;
                            }
                        },
                        PlaybackState::Speaking => {},
                    }
                } else {
                    if let Outcome::Completed { .. } = outcome {
                        if let PlaybackState::Speaking = self.state {
                            self.state = PlaybackState::Paused;
                        }
                    }
                }
            },
            Command::Stop { ended } => {
                if !self.is_stale(ended) {
                    if let Outcome::Completed { .. } = outcome {
                        self.cursor = 0;
                        self.words = empty_deep();
                        self.state = PlaybackState::Idle;
                    }
                }
            },
            Command::VolumeChanged { volume } => {
                if let Outcome::Completed { .. } = outcome {
                    let mut config: TtsConfig = self.config.clone();
                    config.set_volume(volume);
                    self.config = config;
                }
            },
            Command::PlaybackRateChanged { rate } => {
                self.pending = Some(PendingRate { timer: self.timers, rate });
                self.timers = following(self.timers);
            },
            Command::PlaybackRateSet { timer } => {
                match self.pending {
                    Some(p) => {
                        if p.timer == timer {
                            self.pending = None;
                            if let Outcome::Completed { .. } = outcome {
                                let mut config: TtsConfig = self.config.clone();
                                config.set_rate(p.rate);
                                self.config = config;
                                let mut engines: Tts = self.tts;
                                engines.remember_rate(p.rate);
                                self.tts = engines;
                            }
                        }
                    },
                    None => {},
                }
            },
            Command::SpeakerChanged { index } => {
                if index < self.catalog.len() {
                    if let Outcome::Completed { .. } = outcome {
                        match self.catalog[index].display_name() {
                            Some(name) => {
                                let mut config: TtsConfig = self.config.clone();
                                config.set_voice(String::from_str(name));
                                self.config = config;
                            },
                            None => {},
                        }
                        let mut engines: Tts = self.tts;
                        engines.remember_voice(&self.catalog[index]);
                        self.tts = engines;
                    }
                }
            },
            Command::WordBoundaryAdvanced { generation } => {
                if generation == self.generation && self.cursor < self.words.len() {
                    self.cursor = self.cursor + 1;
                }
            },
            Command::DraggedFile { text } => {
                if !text.as_str().is_empty() {
                    self.start(outcome);
                }
            },
        }
    }

    /// Where playback stands.
    pub fn state(&self) -> (state: PlaybackState)
        ensures
            state == self@.state,
    {
        self.state
    }

    /// The words of the current utterance.
    pub fn words(&self) -> (words: &Vec<String>)
        ensures
            words.deep_view() == self@.words,
            self@.cursor <= words.len(),
    {
        proof {
            use_type_invariant(self);
        }
        &self.words
    }

    /// How many word boundaries of the current utterance were entered. It never
    /// exceeds the number of words.
    pub fn word_cursor(&self) -> (cursor: usize)
        ensures
            cursor == self@.cursor,
            cursor <= self@.words.len(),
    {
        proof {
            use_type_invariant(self);
        }
        self.cursor
    }

    /// The word on display.
    pub fn displayed_word(&self) -> (word: &str)
        ensures
            word@ == self@.displayed(),
    {
        proof {
            use_type_invariant(self);
            reveal_strlit("");
        }
        if self.words.len() == 0 {
            proof {
                assert(""@ =~= Seq::<char>::empty());
            }
            ""
        } else if self.cursor == 0 {
            proof {
                assert(self.words.deep_view()[0] == self.words[0]@);
            }
            self.words[0].as_str()
        } else {
            proof {
                assert(self.words.deep_view()[self.cursor - 1] == self.words[self.cursor - 1]@);
            }
            self.words[self.cursor - 1].as_str()
        }
    }

    /// Generation of the current utterance.
    pub fn generation(&self) -> (generation: u64)
        ensures
            generation == self@.generation,
    {
        self.generation
    }

    /// The rate that waits for its timer, if one does.
    pub fn pending_rate(&self) -> (pending: Option<PendingRate>)
        ensures
            pending == self@.pending,
    {
        self.pending
    }

    /// The settings to persist.
    pub fn config(&self) -> (config: &TtsConfig)
        ensures
            config@ == self@.config,
            config@.valid(),
    {
        proof {
            use_type_invariant(self);
        }
        &self.config
    }

    /// The installed voices.
    pub fn voices(&self) -> (voices: &Vec<VoiceDescriptor>)
        ensures
            voices.deep_view() == self@.catalog,
    {
        &self.catalog
    }

    /// Engine handle of the voice that was last selected.
    pub fn selected_voice(&self) -> (handle: Option<usize>)
        ensures
            handle == self@.selected_voice,
    {
        self.tts.voice()
    }

    /// The rate, in thousandths, that the next utterance starts with.
    pub fn remembered_rate(&self) -> (rate: i64)
        ensures
            rate == self@.remembered_rate,
            is_rate(rate as int),
    {
        self.tts.rate()
    }

    /// Takes up the utterance that a completed start script reports.
    fn start(&mut self, outcome: Outcome)
        ensures
            final(self)@ == old(self)@.started(outcome@),
    {
        proof {
            use_type_invariant(&*self);
        }
        match outcome {
            Outcome::Failed => {},
            Outcome::Completed { cues } => {
                self.cursor = 0;
                self.state = PlaybackState::Speaking;
                self.words = spoken_words(&cues);
                self.generation = following(self.generation);
            },
        }
    }

    /// Whether an end-of-media notice belongs to an utterance that is no longer
    /// the current one.
    fn is_stale(&self, ended: Option<u64>) -> (stale: bool)
        ensures
            stale == self@.stale(ended),
    {
        match ended {
            Some(generation) => generation != self.generation,
            None => false,
        }
    }
}

} // verus!
