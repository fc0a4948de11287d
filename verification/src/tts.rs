//! The speech engines as the controller sees them: the calls it may ask for, the
//! order in which an utterance is started and stopped, and the words of an
//! utterance as the synthesis engine reports them.

use crate::config::{clamp_round_rate, clamp_volume, is_rate, rate_of, volume_of, DEFAULT_LEVEL};
use crate::views::{empty_deep, push_deep};
use crate::voices::VoiceDescriptor;
use vstd::prelude::*;

verus! {

/// One piece of outside work. A script is a list of these, carried out in order
/// and abandoned at the first step that fails.
#[derive(Debug, PartialEq, Eq)]
pub enum Action {
    /// Halt the player where it is.
    Pause,
    /// Take the current source away from the player.
    ClearSource,
    /// Turn the text into an audio stream and its word cues.
    Synthesize { text: String },
    /// Hand the synthesized stream to the player. Word-boundary and end-of-media
    /// notifications of this source carry `generation`.
    LoadSource { generation: u64 },
    /// Set the playback rate, in thousandths.
    SetRate { rate: i64 },
    /// Set the volume, in thousandths.
    SetVolume { volume: i64 },
    /// Start or continue playing the loaded source.
    Play,
    /// Select the voice with this engine handle for later utterances.
    SetVoice { handle: usize },
    /// Cancel the rate timer with this identity.
    CancelTimer { timer: u64 },
    /// Schedule a rate timer that reports `timer` after `delay_ms` milliseconds.
    StartTimer { timer: u64, delay_ms: u64 },
}

/// An `Action` as a mathematical value.
pub enum ActionView {
    Pause,
    ClearSource,
    Synthesize { text: Seq<char> },
    LoadSource { generation: u64 },
    SetRate { rate: int },
    SetVolume { volume: int },
    Play,
    SetVoice { handle: usize },
    CancelTimer { timer: u64 },
    StartTimer { timer: u64, delay_ms: u64 },
}

impl View for Action {
    type V = ActionView;

    open spec fn view(&self) -> ActionView {
        match self {
            Action::Pause => ActionView::Pause,
            Action::ClearSource => ActionView::ClearSource,
            Action::Synthesize { text } => ActionView::Synthesize { text: text@ },
            Action::LoadSource { generation } => ActionView::LoadSource { generation: *generation },
            Action::SetRate { rate } => ActionView::SetRate { rate: *rate as int },
            Action::SetVolume { volume } => ActionView::SetVolume { volume: *volume as int },
            Action::Play => ActionView::Play,
            Action::SetVoice { handle } => ActionView::SetVoice { handle: *handle },
            Action::CancelTimer { timer } => ActionView::CancelTimer { timer: *timer },
            Action::StartTimer { timer, delay_ms } => ActionView::StartTimer {
                timer: *timer,
                delay_ms: *delay_ms,
            },
        }
    }
}

impl DeepView for Action {
    type V = ActionView;

    open spec fn deep_view(&self) -> ActionView {
        self.view()
    }
}

/// The script that silences the player: pause, then take the source away.
pub open spec fn stop_script() -> Seq<ActionView> {
    seq![ActionView::Pause, ActionView::ClearSource]
}

/// The script that starts an utterance: silence the player, synthesize, load the
/// new source, restore the remembered rate, play.
pub open spec fn speak_script(text: Seq<char>, generation: u64, rate: int) -> Seq<ActionView> {
    seq![
        ActionView::Pause,
        ActionView::ClearSource,
        ActionView::Synthesize { text },
        ActionView::LoadSource { generation },
        ActionView::SetRate { rate },
        ActionView::Play,
    ]
}

/// Whether a player that holds a source (`loaded`) or none is never handed a
/// source while it still holds one, however far `script` gets.
pub open spec fn never_overlaps(script: Seq<ActionView>, loaded: bool) -> bool
    decreases script.len(),
{
    if script.len() == 0 {
        true
    } else {
        match script[0] {
            ActionView::ClearSource => never_overlaps(script.skip(1), false),
            ActionView::LoadSource { .. } => !loaded && never_overlaps(script.skip(1), true),
            _ => never_overlaps(script.skip(1), loaded),
        }
    }
}

/// The words of an utterance: the texts of the cues that carry one, in cue order.
pub open spec fn words_of(cues: Seq<Option<Seq<char>>>) -> Seq<Seq<char>> {
    cues.filter(|c: Option<Seq<char>>| c is Some).map_values(|c: Option<Seq<char>>| c->Some_0)
}

/// Collects the words of an utterance from its cues. A cue without readable text
/// (`None`) contributes nothing.
pub fn spoken_words(cues: &Vec<Option<String>>) -> (words: Vec<String>)
    ensures
        words.deep_view() == words_of(cues.deep_view()),
{
    let mut words: Vec<String> = Vec::new();
    let mut i: usize = 0;
    proof {
        assert(cues.deep_view().take(0) =~= Seq::empty());
        assert(words.deep_view() =~= words_of(cues.deep_view().take(0)));
    }
    while i < cues.len()
        invariant
            i <= cues.len(),
            words.deep_view() == words_of(cues.deep_view().take(i as int)),
        decreases cues.len() - i,
    {
        let ghost before = words.deep_view();
        let ghost pred = |c: Option<Seq<char>>| c is Some;
        proof {
            let all = cues.deep_view();
            assert(all.take(i + 1).drop_last() =~= all.take(i as int));
            assert(all.take(i + 1).last() == all[i as int]);
            assert(all[i as int] == cues[i as int].deep_view());
            reveal(Seq::filter);
            assert(all.take(i + 1).filter(pred) == if pred(all[i as int]) {
                all.take(i as int).filter(pred).push(all[i as int])
            } else {
                all.take(i as int).filter(pred)
            });
        }
        match &cues[i] {
            Some(word) => {
                words.push(word.clone());
                proof {
                    assert(words.deep_view() =~= before.push(word@));
                    assert(words.deep_view() =~= words_of(cues.deep_view().take(i + 1)));
                }
            },
            None => {},
        }
        i += 1;
    }
    proof {
        assert(cues.deep_view().take(i as int) =~= cues.deep_view());
    }
    words
}

/// What the library remembers of the engines between calls: the rate that the
/// next utterance starts with, and the voice that was last selected.
#[derive(Clone, Copy, Debug)]
pub struct Tts {
    playback_rate: i64,
    voice: Option<usize>,
}

impl Tts {
    /// What holds of every value: the remembered rate is a valid rate.
    #[verifier::type_invariant]
    pub open spec fn inv(&self) -> bool {
        is_rate(self.remembered_rate())
    }

    /// The rate, in thousandths, that the next utterance starts with.
    pub closed spec fn remembered_rate(&self) -> int {
        self.playback_rate as int
    }

    /// Engine handle of the voice that was last selected, if any was.
    pub closed spec fn selected_voice(&self) -> Option<usize> {
        self.voice
    }

    /// Engines at rest: normal rate, no voice selected yet.
    pub fn new() -> (tts: Self)
        ensures
            tts.remembered_rate() == DEFAULT_LEVEL,
            tts.selected_voice() is None,
    {
        Tts { playback_rate: DEFAULT_LEVEL, voice: None }
    }

    /// Engine handle of the voice that was last selected, if any was.
    pub fn voice(&self) -> (voice: Option<usize>)
        ensures
            voice == self.selected_voice(),
    {
        self.voice
    }

    /// The rate, in thousandths, that the next utterance starts with.
    pub fn rate(&self) -> (rate: i64)
        ensures
            rate == self.remembered_rate(),
            is_rate(rate as int),
    {
        proof {
            use_type_invariant(self);
        }
        self.playback_rate
    }

    /// The script that selects a voice for later utterances. The selection is
    /// remembered by `remember_voice`, once the engine has taken it.
    pub fn change_voice(&self, voice: &VoiceDescriptor) -> (script: Vec<Action>)
        ensures
            script.deep_view() == seq![ActionView::SetVoice { handle: voice@.handle }],
    {
        let handle: usize = voice.handle();
        let mut script: Vec<Action> = empty_deep();
        push_deep(&mut script, Action::SetVoice { handle });
        proof {
            assert(script.deep_view() =~= seq![ActionView::SetVoice { handle }]);
        }
        script
    }

    /// Remembers the voice that the engine has taken.
    pub fn remember_voice(&mut self, voice: &VoiceDescriptor)
        ensures
            final(self).selected_voice() == Some(voice@.handle),
            final(self).remembered_rate() == old(self).remembered_rate(),
    {
        proof {
            use_type_invariant(&*self);
        }
        self.voice = Some(voice.handle());
    }

    /// Starts an utterance. The player is silenced first, so the new source never
    /// meets an old one; the remembered rate is applied to the new source.
    pub fn speak(&self, text: String, generation: u64) -> (script: Vec<Action>)
        ensures
            script.deep_view() == speak_script(text@, generation, self.remembered_rate()),
            never_overlaps(script.deep_view(), true),
            never_overlaps(script.deep_view(), false),
    {
        let ghost chars = text@;
        let mut script: Vec<Action> = self.stop();
        push_deep(&mut script, Action::Synthesize { text });
        push_deep(&mut script, Action::LoadSource { generation });
        push_deep(&mut script, Action::SetRate { rate: self.playback_rate });
        push_deep(&mut script, Action::Play);
        proof {
            assert(script.deep_view() =~= speak_script(
                chars,
                generation,
                self.remembered_rate(),
            ));
            lemma_speak_never_overlaps(chars, generation, self.remembered_rate());
        }
        script
    }

    /// Silences the player and takes its source away.
    pub fn stop(&self) -> (script: Vec<Action>)
        ensures
            script.deep_view() == stop_script(),
    {
        let mut script: Vec<Action> = self.pause();
        push_deep(&mut script, Action::ClearSource);
        proof {
            assert(script.deep_view() =~= stop_script());
        }
        script
    }

    /// Halts the player where it is.
    pub fn pause(&self) -> (script: Vec<Action>)
        ensures
            script.deep_view() == seq![ActionView::Pause],
    {
        let mut script: Vec<Action> = empty_deep();
        push_deep(&mut script, Action::Pause);
        proof {
            assert(script.deep_view() =~= seq![ActionView::Pause]);
        }
        script
    }

    /// Lets the player continue with the loaded source.
    pub fn resume(&self) -> (script: Vec<Action>)
        ensures
            script.deep_view() == seq![ActionView::Play],
    {
        let mut script: Vec<Action> = empty_deep();
        push_deep(&mut script, Action::Play);
        proof {
            assert(script.deep_view() =~= seq![ActionView::Play]);
        }
        script
    }

    /// Applies a requested volume, limited to the valid interval.
    pub fn set_volume(&self, volume: i64) -> (script: Vec<Action>)
        ensures
            script.deep_view() == seq![ActionView::SetVolume { volume: volume_of(volume as int) }],
    {
        let mut script: Vec<Action> = empty_deep();
        push_deep(&mut script, Action::SetVolume { volume: clamp_volume(volume) });
        proof {
            assert(script.deep_view() =~= seq![
                ActionView::SetVolume { volume: volume_of(volume as int) },
            ]);
        }
        script
    }

    /// The script that applies a requested rate, limited and rounded. The rate
    /// is remembered for the utterances that follow by `remember_rate`, once the
    /// player has taken it; a rate that the player refused is not remembered.
    pub fn set_rate(&self, rate: i64) -> (script: Vec<Action>)
        ensures
            script.deep_view() == seq![ActionView::SetRate { rate: rate_of(rate as int) }],
    {
        let mut script: Vec<Action> = empty_deep();
        push_deep(&mut script, Action::SetRate { rate: clamp_round_rate(rate) });
        proof {
            assert(script.deep_view() =~= seq![ActionView::SetRate { rate: rate_of(rate as int) }]);
        }
        script
    }

    /// Remembers the rate that the player has taken, limited and rounded, for
    /// the utterances that follow.
    pub fn remember_rate(&mut self, rate: i64)
        ensures
            final(self).remembered_rate() == rate_of(rate as int),
            final(self).selected_voice() == old(self).selected_voice(),
    {
        self.playback_rate = clamp_round_rate(rate);
    }
}

/// Which step of a script is taken next: the step after the `taken` steps taken
/// so far, as long as the last of them went well; none once a step has failed or
/// the script is through. A script is thus abandoned at its first failure.
pub open spec fn step_after(script: Seq<ActionView>, taken: int, last_ok: bool) -> Option<int> {
    if last_ok && 0 <= taken < script.len() {
        Some(taken)
    } else {
        None
    }
}

/// The index of the step of `script` to take next, after `taken` steps of which
/// the last went as `last_ok` says; `None` where the script ends here.
pub fn next_step(script: &Vec<Action>, taken: usize, last_ok: bool) -> (step: Option<usize>)
    ensures
        step == if last_ok && taken < script@.len() {
            Some(taken)
        } else {
            None::<usize>
        },
        match step {
            Some(i) => step_after(script.deep_view(), taken as int, last_ok) == Some(i as int),
            None => step_after(script.deep_view(), taken as int, last_ok) is None,
        },
{
    if last_ok && taken < script.len() {
        Some(taken)
    } else {
        None
    }
}

/// Starting an utterance never hands the player a second source: the script
/// clears the player before it loads, whatever the player held.
pub proof fn lemma_speak_never_overlaps(text: Seq<char>, generation: u64, rate: int)
    ensures
        never_overlaps(speak_script(text, generation, rate), true),
        never_overlaps(speak_script(text, generation, rate), false),
{
    let s = speak_script(text, generation, rate);
    let s1 = s.skip(1);
    let s2 = s1.skip(1);
    let s3 = s2.skip(1);
    let s4 = s3.skip(1);
    let s5 = s4.skip(1);
    let s6 = s5.skip(1);
    assert(s6.len() == 0);
    assert(never_overlaps(s6, true));
    assert(never_overlaps(s5, true));
    assert(never_overlaps(s4, true));
    assert(never_overlaps(s3, false));
    assert(never_overlaps(s2, false));
    assert(never_overlaps(s1, true) && never_overlaps(s1, false));
}

} // verus!
