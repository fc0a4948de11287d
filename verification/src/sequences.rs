//! What holds of the controller over runs of several commands.

use crate::config::{rate_of, ConfigView};
use crate::controller::{
    lemma_next_valid, next_id, CommandView, ControllerView, OutcomeView, PendingRate,
    PlaybackState, RATE_DEBOUNCE_MS,
};
use crate::tts::{lemma_speak_never_overlaps, never_overlaps, ActionView};
use vstd::prelude::*;

verus! {

/// One handled command: the command and how its script went.
pub struct Step {
    pub cmd: CommandView,
    pub outcome: OutcomeView,
}

/// The state after `steps` were handled one after another, starting in `c`.
pub open spec fn run(c: ControllerView, steps: Seq<Step>) -> ControllerView
    decreases steps.len(),
{
    if steps.len() == 0 {
        c
    } else {
        run(c, steps.drop_last()).next(steps.last().cmd, steps.last().outcome)
    }
}

/// All the outside work that `steps` called for, in order, starting in `c`.
pub open spec fn work(c: ControllerView, steps: Seq<Step>) -> Seq<ActionView>
    decreases steps.len(),
{
    if steps.len() == 0 {
        Seq::empty()
    } else {
        work(c, steps.drop_last()) + run(c, steps.drop_last()).plan(steps.last().cmd)
    }
}

/// The rates that `actions` hand to the player, in order.
pub open spec fn rates_set(actions: Seq<ActionView>) -> Seq<int>
    decreases actions.len(),
{
    if actions.len() == 0 {
        Seq::empty()
    } else {
        match actions.last() {
            ActionView::SetRate { rate } => rates_set(actions.drop_last()).push(rate),
            _ => rates_set(actions.drop_last()),
        }
    }
}

/// Whether every step reports a word boundary.
pub open spec fn all_word_boundaries(steps: Seq<Step>) -> bool {
    forall|i: int| 0 <= i < steps.len() ==> (#[trigger] steps[i]).cmd is WordBoundaryAdvanced
}

/// Whether every step is a movement of the rate control.
pub open spec fn all_rate_changes(steps: Seq<Step>) -> bool {
    forall|i: int| 0 <= i < steps.len() ==> (#[trigger] steps[i]).cmd is PlaybackRateChanged
}

/// Whether every step is a rate timer running out.
pub open spec fn all_timer_events(steps: Seq<Step>) -> bool {
    forall|i: int| 0 <= i < steps.len() ==> (#[trigger] steps[i]).cmd is PlaybackRateSet
}

/// The first of the steps at which the rate timer `timer` runs out, if it runs
/// out in any of them.
pub open spec fn first_firing(steps: Seq<Step>, timer: u64) -> Option<Step>
    decreases steps.len(),
{
    if steps.len() == 0 {
        None
    } else {
        match first_firing(steps.drop_last(), timer) {
            Some(step) => Some(step),
            None => if steps.last().cmd == (CommandView::PlaybackRateSet { timer }) {
                Some(steps.last())
            } else {
                None
            },
        }
    }
}

/// What timer events make of a waiting rate, starting in `s`. Where the timer
/// of the waiting rate is not among the events, no rate is handed to the player
/// and nothing changes. Where it is, the player is handed the stored rate of
/// the waiting request exactly once, at the first such event, and nothing waits
/// any more; the rate is remembered and persisted if that one script completed,
/// and rate and settings stay as they were if it failed.
pub open spec fn commits_once(s: ControllerView, waiting: PendingRate, events: Seq<Step>) -> bool {
    let rate = rate_of(waiting.rate as int);
    let after = run(s, events);
    match first_firing(events, waiting.timer) {
        None => rates_set(work(s, events)) == Seq::<int>::empty() && after == s,
        Some(step) => {
            &&& rates_set(work(s, events)) == seq![rate]
            &&& after.pending is None
            &&& same_playback(s, after)
            &&& step.outcome is Completed ==> after.config == (ConfigView {
                rate,
                ..s.config
            }) && after.remembered_rate == rate
            &&& step.outcome is Failed ==> after.config == s.config && after.remembered_rate
                == s.remembered_rate
        },
    }
}

/// The cursor never passes the end of the words: a valid controller stays valid
/// over every run of commands, whatever the outcomes.
pub proof fn lemma_run_valid(c: ControllerView, steps: Seq<Step>)
    requires
        c.valid(),
    ensures
        run(c, steps).valid(),
        run(c, steps).cursor <= run(c, steps).words.len(),
    decreases steps.len(),
{
    if steps.len() > 0 {
        lemma_run_valid(c, steps.drop_last());
        lemma_next_valid(run(c, steps.drop_last()), steps.last().cmd, steps.last().outcome);
    }
}

/// A word boundary of the current utterance that is still within the words puts
/// the word at the cursor on display and moves the cursor by one; any other word
/// boundary changes nothing. No word boundary asks for outside work.
pub proof fn lemma_word_boundary(c: ControllerView, generation: u64, outcome: OutcomeView)
    requires
        c.valid(),
    ensures
        ({
            let cmd = CommandView::WordBoundaryAdvanced { generation };
            let after = c.next(cmd, outcome);
            &&& c.plan(cmd) == Seq::<ActionView>::empty()
            &&& after.words == c.words
            &&& after.state == c.state
            &&& if generation == c.generation && c.state != PlaybackState::Idle && c.cursor
                < c.words.len() {
                after.cursor == c.cursor + 1 && after.displayed() == c.words[c.cursor as int]
            } else {
                after == c
            }
        }),
{
}

/// Whether playback stands in `b` where it stood in `a`: same state, same
/// words, same cursor, same generation.
pub open spec fn same_playback(a: ControllerView, b: ControllerView) -> bool {
    &&& a.state == b.state
    &&& a.words == b.words
    &&& a.cursor == b.cursor
    &&& a.generation == b.generation
}

/// A new utterance never has the generation of the one before it, so what the
/// player reports of an earlier utterance is told apart; and such a report, a
/// word boundary or an end of media, asks for nothing and changes nothing.
pub proof fn lemma_stale_reports_are_ignored(
    c: ControllerView,
    generation: u64,
    outcome: OutcomeView,
)
    requires
        generation != c.generation,
    ensures
        next_id(c.generation) != c.generation,
        c.plan(CommandView::WordBoundaryAdvanced { generation }) == Seq::<ActionView>::empty(),
        c.next(CommandView::WordBoundaryAdvanced { generation }, outcome) == c,
        c.plan(CommandView::Stop { ended: Some(generation) }) == Seq::<ActionView>::empty(),
        c.next(CommandView::Stop { ended: Some(generation) }, outcome) == c,
{
}

/// A command whose script fails is dropped: playback, the settings, the
/// remembered rate and the selected voice stay where they stood. A word
/// boundary has no script that could fail, so it is not spoken of here.
pub proof fn lemma_failure_drops_the_command(c: ControllerView, cmd: CommandView)
    requires
        !(cmd is WordBoundaryAdvanced),
    ensures
        same_playback(c, c.next(cmd, OutcomeView::Failed)),
        c.next(cmd, OutcomeView::Failed).config == c.config,
        c.next(cmd, OutcomeView::Failed).remembered_rate == c.remembered_rate,
        c.next(cmd, OutcomeView::Failed).selected_voice == c.selected_voice,
        c.next(cmd, OutcomeView::Failed).catalog == c.catalog,
{
}

/// Where a command asks for no outside work, what is reported of such work
/// plays no part in the state that follows.
pub proof fn lemma_empty_plan_ignores_outcome(
    c: ControllerView,
    cmd: CommandView,
    first: OutcomeView,
    second: OutcomeView,
)
    requires
        c.plan(cmd).len() == 0,
    ensures
        c.next(cmd, first) == c.next(cmd, second),
{
}

/// Changes of volume, rate and voice leave playback where it stood, whatever
/// the engines made of them.
pub proof fn lemma_settings_leave_playback(c: ControllerView, cmd: CommandView, outcome: OutcomeView)
    requires
        cmd is VolumeChanged || cmd is PlaybackRateChanged || cmd is PlaybackRateSet
            || cmd is SpeakerChanged,
    ensures
        same_playback(c, c.next(cmd, outcome)),
{
}

/// While an utterance lasts its words stay as they are and its cursor never
/// moves back: one command moves it by one at most.
pub proof fn lemma_cursor_moves_forward(c: ControllerView, cmd: CommandView, outcome: OutcomeView)
    requires
        c.valid(),
    ensures
        ({
            let after = c.next(cmd, outcome);
            after.generation == c.generation && after.state != PlaybackState::Idle ==> {
                &&& after.words == c.words
                &&& c.cursor <= after.cursor <= c.cursor + 1
            }
        }),
{
    lemma_next_id_differs(c.generation);
}

/// The identity after an identity is another identity.
pub proof fn lemma_next_id_differs(id: u64)
    ensures
        next_id(id) != id,
{
}

/// A stop by the user whose script completes leaves the controller idle, its
/// cursor at the start and nothing on display, from every state; and word
/// boundaries that arrive afterwards, however many, change none of that.
pub proof fn lemma_stop_resets(c: ControllerView, cues: Seq<Option<Seq<char>>>, late: Seq<Step>)
    requires
        c.valid(),
        all_word_boundaries(late),
    ensures
        ({
            let stopped = c.next(
                CommandView::Stop { ended: None },
                OutcomeView::Completed { cues },
            );
            let after = run(stopped, late);
            &&& after == stopped
            &&& after.state == PlaybackState::Idle
            &&& after.cursor == 0
            &&& after.words.len() == 0
            &&& after.displayed() == Seq::<char>::empty()
            &&& work(stopped, late) == Seq::<ActionView>::empty()
        }),
    decreases late.len(),
{
    let stopped = c.next(CommandView::Stop { ended: None }, OutcomeView::Completed { cues });
    assert(stopped.words.len() == 0);
    if late.len() > 0 {
        let earlier = late.drop_last();
        assert forall|i: int| 0 <= i < earlier.len() implies (#[trigger] earlier[i]).cmd
            is WordBoundaryAdvanced by {
            assert(earlier[i] == late[i]);
        }
        lemma_stop_resets(c, cues, earlier);
        assert(late.last() == late[late.len() - 1]);
        assert(late.last().cmd is WordBoundaryAdvanced);
        assert(work(stopped, late) =~= Seq::<ActionView>::empty());
    }
}

/// With no source text the play control starts nothing: an idle controller
/// stays idle and unchanged, and its script is empty, so nothing is synthesized.
/// The same holds of a drop without text.
pub proof fn lemma_empty_text_is_inert(c: ControllerView, toggled: bool, outcome: OutcomeView)
    requires
        c.state == PlaybackState::Idle,
    ensures
        c.plan(CommandView::TogglePlayPause { toggled, text: Seq::empty() }) == Seq::<
            ActionView,
        >::empty(),
        c.next(CommandView::TogglePlayPause { toggled, text: Seq::empty() }, outcome) == c,
        c.plan(CommandView::DraggedFile { text: Seq::empty() }) == Seq::<ActionView>::empty(),
        c.next(CommandView::DraggedFile { text: Seq::empty() }, outcome) == c,
{
}

/// Whether `script` takes the player's source away at some step before the step
/// at which it loads one, and loads only once.
pub open spec fn clears_before_loading(script: Seq<ActionView>) -> bool {
    exists|i: int, j: int|
        {
            &&& 0 <= i < j < script.len()
            &&& #[trigger] script[i] == ActionView::ClearSource
            &&& #[trigger] script[j] is LoadSource
            &&& forall|k: int| 0 <= k < script.len() && script[k] is LoadSource ==> k == j
        }
}

/// A new utterance, in whatever state it is asked for, begins by silencing the
/// player: the script clears the player's source before it loads the new one, so
/// the player never holds two.
pub proof fn lemma_new_utterance_stops_first(c: ControllerView, text: Seq<char>)
    requires
        text.len() > 0,
    ensures
        clears_before_loading(c.plan(CommandView::DraggedFile { text })),
        never_overlaps(c.plan(CommandView::DraggedFile { text }), true),
        never_overlaps(c.plan(CommandView::DraggedFile { text }), false),
        c.state == PlaybackState::Idle ==> c.plan(
            CommandView::TogglePlayPause { toggled: true, text },
        ) == c.plan(CommandView::DraggedFile { text }),
{
    let script = c.plan(CommandView::DraggedFile { text });
    lemma_speak_never_overlaps(text, next_id(c.generation), c.remembered_rate);
    assert(script[1] == ActionView::ClearSource);
    assert(script[3] is LoadSource);
}

/// A script without a load never hands the player a source.
pub proof fn lemma_without_load_never_overlaps(script: Seq<ActionView>, loaded: bool)
    requires
        forall|i: int| 0 <= i < script.len() ==> !((#[trigger] script[i]) is LoadSource),
    ensures
        never_overlaps(script, loaded),
    decreases script.len(),
{
    if script.len() > 0 {
        let rest = script.skip(1);
        assert forall|i: int| 0 <= i < rest.len() implies !((#[trigger] rest[i]) is LoadSource) by {
            assert(rest[i] == script[i + 1]);
        }
        assert(!(script[0] is LoadSource));
        lemma_without_load_never_overlaps(rest, true);
        lemma_without_load_never_overlaps(rest, false);
    }
}

/// No script that the controller asks for hands the player a source while the
/// player may still hold one, whatever the command and the state.
pub proof fn lemma_no_script_overlaps(c: ControllerView, cmd: CommandView, loaded: bool)
    ensures
        never_overlaps(c.plan(cmd), loaded),
{
    let script = c.plan(cmd);
    if script.len() == 6 {
        let text = script[2]->Synthesize_text;
        lemma_speak_never_overlaps(text, next_id(c.generation), c.remembered_rate);
    } else {
        lemma_without_load_never_overlaps(script, loaded);
    }
}

/// The rates handed to the player by two scripts in a row are those of the
/// first, then those of the second.
pub proof fn lemma_rates_set_concat(a: Seq<ActionView>, b: Seq<ActionView>)
    ensures
        rates_set(a + b) == rates_set(a) + rates_set(b),
    decreases b.len(),
{
    if b.len() == 0 {
        assert(a + b =~= a);
        assert(rates_set(a) + rates_set(b) =~= rates_set(a));
    } else {
        assert((a + b).drop_last() =~= a + b.drop_last());
        assert((a + b).last() == b.last());
        lemma_rates_set_concat(a, b.drop_last());
        match b.last() {
            ActionView::SetRate { rate } => {
                assert(rates_set(a + b) =~= rates_set(a) + rates_set(b));
            },
            _ => {},
        }
    }
}

/// Movements of the rate control hand no rate to the player and touch nothing
/// but the waiting rate and the timer identities.
pub proof fn lemma_rate_changes_set_nothing(c: ControllerView, burst: Seq<Step>)
    requires
        all_rate_changes(burst),
    ensures
        rates_set(work(c, burst)) == Seq::<int>::empty(),
        run(c, burst) == (ControllerView {
            pending: run(c, burst).pending,
            timers: run(c, burst).timers,
            ..c
        }),
    decreases burst.len(),
{
    if burst.len() > 0 {
        let earlier = burst.drop_last();
        assert forall|i: int| 0 <= i < earlier.len() implies (#[trigger] earlier[i]).cmd
            is PlaybackRateChanged by {
            assert(earlier[i] == burst[i]);
        }
        lemma_rate_changes_set_nothing(c, earlier);
        assert(burst.last() == burst[burst.len() - 1]);
        let script = run(c, earlier).plan(burst.last().cmd);
        lemma_rates_set_concat(work(c, earlier), script);
        assert(rates_set(script) =~= Seq::<int>::empty()) by {
            reveal_with_fuel(rates_set, 3);
            if script.len() == 2 {
                assert(script.drop_last().last() == script[0]);
                assert(script.drop_last().drop_last().len() == 0);
            } else {
                assert(script.drop_last().len() == 0);
            }
        }
        assert(rates_set(work(c, burst)) =~= Seq::<int>::empty());
    }
}

/// Timer events, handled while the rate `waiting` waits for its timer, commit
/// that rate at most once: see `commits_once`.
pub proof fn lemma_timer_events(s: ControllerView, waiting: PendingRate, events: Seq<Step>)
    requires
        s.pending == Some(waiting),
        all_timer_events(events),
    ensures
        commits_once(s, waiting, events),
    decreases events.len(),
{
    if events.len() > 0 {
        let earlier = events.drop_last();
        let last = events.last();
        assert(last == events[events.len() - 1]);
        assert(last.cmd is PlaybackRateSet);
        assert forall|i: int| 0 <= i < earlier.len() implies (#[trigger] earlier[i]).cmd
            is PlaybackRateSet by {
            assert(earlier[i] == events[i]);
        }
        lemma_timer_events(s, waiting, earlier);
        let before = run(s, earlier);
        let script = before.plan(last.cmd);
        lemma_rates_set_concat(work(s, earlier), script);
        let rate = rate_of(waiting.rate as int);
        match first_firing(earlier, waiting.timer) {
            Some(step) => {
                assert(script =~= Seq::<ActionView>::empty());
                assert(rates_set(work(s, events)) =~= seq![rate]);
            },
            None => {
                if last.cmd == (CommandView::PlaybackRateSet { timer: waiting.timer }) {
                    assert(script =~= seq![ActionView::SetRate { rate }]);
                    assert(rates_set(script) =~= seq![rate]) by {
                        reveal_with_fuel(rates_set, 2);
                        assert(script.drop_last().len() == 0);
                    }
                    assert(rates_set(work(s, events)) =~= seq![rate]);
                } else {
                    assert(script =~= Seq::<ActionView>::empty());
                    assert(rates_set(work(s, events)) =~= Seq::<int>::empty());
                }
            },
        }
    }
}

/// After a run of movements of the rate control only the last movement waits,
/// under the timer identity that was free when it arrived.
pub proof fn lemma_last_rate_change_waits(c: ControllerView, burst: Seq<Step>)
    requires
        burst.len() >= 1,
        all_rate_changes(burst),
    ensures
        run(c, burst).pending == Some(
            PendingRate {
                timer: run(c, burst.drop_last()).timers,
                rate: burst.last().cmd->PlaybackRateChanged_rate,
            },
        ),
{
    assert(burst.last() == burst[burst.len() - 1]);
    assert(burst.last().cmd is PlaybackRateChanged);
}

/// In a run of movements of the rate control, every movement but the first
/// cancels the timer of the movement before it and starts its own.
pub proof fn lemma_rate_change_cancels(c: ControllerView, burst: Seq<Step>, i: int)
    requires
        1 <= i < burst.len(),
        all_rate_changes(burst),
    ensures
        run(c, burst.take(i)).plan(burst[i].cmd) == seq![
            ActionView::CancelTimer { timer: run(c, burst.take(i - 1)).timers },
            ActionView::StartTimer {
                timer: run(c, burst.take(i)).timers,
                delay_ms: RATE_DEBOUNCE_MS,
            },
        ],
{
    let prefix = burst.take(i);
    assert forall|k: int| 0 <= k < prefix.len() implies (#[trigger] prefix[k]).cmd
        is PlaybackRateChanged by {
        assert(prefix[k] == burst[k]);
    }
    lemma_last_rate_change_waits(c, prefix);
    assert(prefix.drop_last() =~= burst.take(i - 1));
    assert(burst[i].cmd is PlaybackRateChanged);
}

/// A burst of movements of the rate control settles into one commit. While the
/// burst lasts no rate reaches the player; each movement but the first cancels
/// the timer of the movement before it; at the end only the last movement waits,
/// under the timer it started. Whatever timer events follow, the player is given
/// a rate at most once, exactly once if the last timer is among them, and the
/// rate it is given is that of the last movement (`commits_once`).
pub proof fn lemma_rate_burst_commits_once(c: ControllerView, burst: Seq<Step>, events: Seq<Step>)
    requires
        burst.len() >= 1,
        all_rate_changes(burst),
        all_timer_events(events),
    ensures
        rates_set(work(c, burst)) == Seq::<int>::empty(),
        run(c, burst).pending == Some(
            PendingRate {
                timer: run(c, burst.drop_last()).timers,
                rate: burst.last().cmd->PlaybackRateChanged_rate,
            },
        ),
        forall|i: int|
            1 <= i < burst.len() ==> run(c, burst.take(i)).plan(#[trigger] burst[i].cmd) == seq![
                ActionView::CancelTimer { timer: run(c, burst.take(i - 1)).timers },
                ActionView::StartTimer {
                    timer: run(c, burst.take(i)).timers,
                    delay_ms: RATE_DEBOUNCE_MS,
                },
            ],
        commits_once(
            run(c, burst),
            PendingRate {
                timer: run(c, burst.drop_last()).timers,
                rate: burst.last().cmd->PlaybackRateChanged_rate,
            },
            events,
        ),
{
    let waiting = PendingRate {
        timer: run(c, burst.drop_last()).timers,
        rate: burst.last().cmd->PlaybackRateChanged_rate,
    };
    lemma_rate_changes_set_nothing(c, burst);
    lemma_last_rate_change_waits(c, burst);
    lemma_timer_events(run(c, burst), waiting, events);
    assert forall|i: int| 1 <= i < burst.len() implies run(c, burst.take(i)).plan(
        #[trigger] burst[i].cmd,
    ) == seq![
        ActionView::CancelTimer { timer: run(c, burst.take(i - 1)).timers },
        ActionView::StartTimer { timer: run(c, burst.take(i)).timers, delay_ms: RATE_DEBOUNCE_MS },
    ] by {
        lemma_rate_change_cancels(c, burst, i);
    }
}

} // verus!
