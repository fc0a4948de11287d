//! The voice catalogue: what is known of each installed voice, the labels shown
//! for them, and the match of the persisted voice name against the catalogue.

use crate::config::TtsConfig;
use crate::tts::Tts;
use crate::views::{empty_deep, push_deep};
use vstd::prelude::*;
use vstd::seq_lib::{to_multiset_build, to_multiset_insert};
use vstd::string::StringExecFns;

verus! {

/// A voice as a mathematical value.
pub struct VoiceView {
    /// Name under which the voice is shown and persisted; `None` where the
    /// engine could not tell it.
    pub display_name: Option<Seq<char>>,
    /// Language tag of the voice.
    pub language: Seq<char>,
    /// Position of the voice in the engine's own enumeration.
    pub handle: usize,
}

impl VoiceView {
    /// The label that a voice chooser shows: the name, then the language in
    /// round brackets. A voice without a name has no label.
    pub open spec fn label(self) -> Option<Seq<char>> {
        match self.display_name {
            Some(name) => Some(name + " ("@ + self.language + ")"@),
            None => None,
        }
    }
}

/// One installed voice. The value never changes once enumerated; the engine's
/// own object is found again through `handle`.
#[derive(Debug, PartialEq, Eq)]
pub struct VoiceDescriptor {
    display_name: Option<String>,
    language: String,
    handle: usize,
}

impl View for VoiceDescriptor {
    type V = VoiceView;

    closed spec fn view(&self) -> VoiceView {
        VoiceView {
            display_name: self.display_name.deep_view(),
            language: self.language@,
            handle: self.handle,
        }
    }
}

impl DeepView for VoiceDescriptor {
    type V = VoiceView;

    open spec fn deep_view(&self) -> VoiceView {
        self.view()
    }
}

impl VoiceDescriptor {
    /// Describes the voice that the engine enumerates at position `handle`.
    /// `display_name` is `None` where the engine could not tell the name.
    pub fn new(display_name: Option<String>, language: String, handle: usize) -> (voice: Self)
        ensures
            voice@ == (VoiceView {
                display_name: display_name.deep_view(),
                language: language@,
                handle,
            }),
    {
        VoiceDescriptor { display_name, language, handle }
    }

    /// Name under which the voice is shown and persisted, if the engine told it.
    pub fn display_name(&self) -> (name: Option<&str>)
        ensures
            match name {
                Some(n) => self@.display_name == Some(n@),
                None => self@.display_name is None,
            },
    {
        match &self.display_name {
            Some(n) => Some(n.as_str()),
            None => None,
        }
    }

    /// Language tag of the voice.
    pub fn language(&self) -> (language: &str)
        ensures
            language@ == self@.language,
    {
        self.language.as_str()
    }

    /// Position of the voice in the engine's own enumeration.
    pub fn handle(&self) -> (handle: usize)
        ensures
            handle == self@.handle,
    {
        self.handle
    }

    /// The label that a voice chooser shows for this voice, if it has a name.
    pub fn label(&self) -> (label: Option<String>)
        ensures
            label.deep_view() == self@.label(),
    {
        match &self.display_name {
            Some(name) => {
                let mut label: String = name.clone();
                label.append(" (");
                label.append(self.language.as_str());
                label.append(")");
                Some(label)
            },
            None => None,
        }
    }
}

impl Clone for VoiceDescriptor {
    fn clone(&self) -> (copy: Self)
        ensures
            copy@ == self@,
    {
        let display_name: Option<String> = match &self.display_name {
            Some(name) => Some(name.clone()),
            None => None,
        };
        VoiceDescriptor { display_name, language: self.language.clone(), handle: self.handle }
    }
}

/// Position of the last voice in `catalog` whose display name is `voice`.
pub open spec fn last_match(catalog: Seq<VoiceView>, voice: Seq<char>) -> Option<int>
    decreases catalog.len(),
{
    if catalog.len() == 0 {
        None
    } else if catalog.last().display_name == Some(voice) {
        Some(catalog.len() - 1)
    } else {
        last_match(catalog.drop_last(), voice)
    }
}

/// The voice that a session starts with: the persisted one where the catalogue
/// still has it, else the first of the catalogue; none for an empty catalogue.
pub open spec fn initial_voice(catalog: Seq<VoiceView>, voice: Seq<char>) -> Option<int> {
    match last_match(catalog, voice) {
        Some(i) => Some(i),
        None => if catalog.len() > 0 {
            Some(0)
        } else {
            None
        },
    }
}

/// The labels of a catalogue: one for each voice that has a name, in the order
/// of the catalogue.
pub open spec fn labels_of(catalog: Seq<VoiceView>) -> Seq<Seq<char>>
    decreases catalog.len(),
{
    if catalog.len() == 0 {
        Seq::empty()
    } else {
        let earlier = labels_of(catalog.drop_last());
        match catalog.last().label() {
            Some(label) => earlier.push(label),
            None => earlier,
        }
    }
}

/// `last_match` finds a voice of that name, and no later voice has the name;
/// it finds none only where no voice has it.
pub proof fn lemma_last_match(catalog: Seq<VoiceView>, voice: Seq<char>)
    ensures
        match last_match(catalog, voice) {
            Some(i) => 0 <= i < catalog.len() && catalog[i].display_name == Some(voice)
                && forall|j: int| i < j < catalog.len() ==> catalog[j].display_name != Some(voice),
            None => forall|j: int|
                0 <= j < catalog.len() ==> catalog[j].display_name != Some(voice),
        },
    decreases catalog.len(),
{
    if catalog.len() > 0 && catalog.last().display_name != Some(voice) {
        let init = catalog.drop_last();
        lemma_last_match(init, voice);
        assert forall|j: int| 0 <= j < init.len() implies init[j] == catalog[j] by {}
        match last_match(init, voice) {
            Some(i) => {
                assert forall|j: int| i < j < catalog.len() implies catalog[j].display_name
                    != Some(voice) by {
                    if j < init.len() {
                        assert(init[j] == catalog[j]);
                    }
                }
            },
            None => {
                assert forall|j: int| 0 <= j < catalog.len() implies catalog[j].display_name
                    != Some(voice) by {
                    if j < init.len() {
                        assert(init[j] == catalog[j]);
                    }
                }
            },
        }
    }
}

/// The chooser labels of the catalogue, and the position in the catalogue of the
/// voice that the configuration names, if the catalogue has a voice of that
/// name. Where several voices share the name, the last one is found. A voice
/// without a name has no label and is never found.
pub fn load_voice_labels(speakers: &Vec<VoiceDescriptor>, config: &TtsConfig) -> (result: (
    Vec<String>,
    Option<usize>,
))
    ensures
        result.0.deep_view() == labels_of(speakers.deep_view()),
        match result.1 {
            Some(i) => last_match(speakers.deep_view(), config@.voice) == Some(i as int),
            None => last_match(speakers.deep_view(), config@.voice) is None,
        },
{
    let wanted: String = String::from_str(config.voice());
    let mut labels: Vec<String> = empty_deep();
    let mut index: Option<usize> = None;
    let mut i: usize = 0;
    proof {
        assert(speakers.deep_view().take(0) =~= Seq::empty());
        assert(labels.deep_view() =~= labels_of(speakers.deep_view().take(0)));
    }
    while i < speakers.len()
        invariant
            i <= speakers.len(),
            wanted@ == config@.voice,
            labels.deep_view() == labels_of(speakers.deep_view().take(i as int)),
            match index {
                Some(k) => last_match(speakers.deep_view().take(i as int), wanted@) == Some(
                    k as int,
                ),
                None => last_match(speakers.deep_view().take(i as int), wanted@) is None,
            },
        decreases speakers.len() - i,
    {
        let speaker: &VoiceDescriptor = &speakers[i];
        proof {
            let all = speakers.deep_view();
            assert(all.take(i + 1).drop_last() =~= all.take(i as int));
            assert(all.take(i + 1).last() == speaker@);
        }
        match speaker.label() {
            Some(label) => {
                push_deep(&mut labels, label);
            },
            None => {},
        }
        match &speaker.display_name {
            Some(name) => {
                if *name == wanted {
                    index = Some(i);
                }
            },
            None => {},
        }
        i += 1;
    }
    proof {
        assert(speakers.deep_view().take(i as int) =~= speakers.deep_view());
    }
    (labels, index)
}

/// The row of the chooser that shows the voice at `position` of the catalogue:
/// the number of labels before it.
pub open spec fn row_at(catalog: Seq<VoiceView>, position: int) -> int {
    labels_of(catalog.take(position)).len() as int
}

/// Whether the voice at `position` of the catalogue is the one shown in row
/// `row` of the chooser.
pub open spec fn shown_in_row(catalog: Seq<VoiceView>, position: int, row: int) -> bool {
    &&& 0 <= position < catalog.len()
    &&& catalog[position].display_name is Some
    &&& row_at(catalog, position) == row
}

/// The rows of the chooser count the voices with a name: one more row after
/// each of them, the same row after a voice without a name.
pub proof fn lemma_row_at_step(catalog: Seq<VoiceView>, position: int)
    requires
        0 <= position < catalog.len(),
    ensures
        row_at(catalog, position + 1) == row_at(catalog, position) + if catalog[position].display_name
            is Some {
            1int
        } else {
            0int
        },
        row_at(catalog, 0) == 0,
{
    assert(catalog.take(position + 1).drop_last() =~= catalog.take(position));
    assert(catalog.take(position + 1).last() == catalog[position]);
    assert(catalog.take(0) =~= Seq::<VoiceView>::empty());
}

/// No row shows two voices: rows never fall along the catalogue, and they rise
/// after every voice with a name.
pub proof fn lemma_row_shows_one_voice(catalog: Seq<VoiceView>, p: int, q: int, row: int)
    requires
        shown_in_row(catalog, p, row),
        shown_in_row(catalog, q, row),
    ensures
        p == q,
{
    if p < q {
        lemma_rows_rise(catalog, p + 1, q);
        lemma_row_at_step(catalog, p);
    } else if q < p {
        lemma_rows_rise(catalog, q + 1, p);
        lemma_row_at_step(catalog, q);
    }
}

/// Rows never fall along the catalogue.
pub proof fn lemma_rows_rise(catalog: Seq<VoiceView>, p: int, q: int)
    requires
        0 <= p <= q <= catalog.len(),
    ensures
        row_at(catalog, p) <= row_at(catalog, q),
    decreases q - p,
{
    if p < q {
        lemma_rows_rise(catalog, p, q - 1);
        lemma_row_at_step(catalog, q - 1);
    }
}

/// The position in the catalogue of the voice that row `row` of the chooser
/// shows; `None` where the chooser has no such row.
pub fn position_of_row(catalog: &Vec<VoiceDescriptor>, row: usize) -> (position: Option<usize>)
    ensures
        match position {
            Some(p) => shown_in_row(catalog.deep_view(), p as int, row as int),
            None => labels_of(catalog.deep_view()).len() <= row,
        },
{
    let mut rows: usize = 0;
    let mut i: usize = 0;
    proof {
        assert(catalog.deep_view().take(0) =~= Seq::<VoiceView>::empty());
    }
    while i < catalog.len()
        invariant
            i <= catalog.len(),
            rows <= i,
            rows <= row,
            rows == row_at(catalog.deep_view(), i as int),
        decreases catalog.len() - i,
    {
        proof {
            lemma_row_at_step(catalog.deep_view(), i as int);
            assert(catalog.deep_view()[i as int] == catalog[i as int]@);
        }
        match catalog[i].display_name() {
            Some(_) => {
                if rows == row {
                    return Some(i);
                }
                rows += 1;
            },
            None => {},
        }
        i += 1;
    }
    proof {
        assert(catalog.deep_view().take(i as int) =~= catalog.deep_view());
    }
    None
}

/// The row of the chooser that shows the voice at `position` of the catalogue;
/// `None` where the catalogue has no such voice or the voice has no name and so
/// no row.
pub fn row_of_position(catalog: &Vec<VoiceDescriptor>, position: usize) -> (row: Option<usize>)
    ensures
        match row {
            Some(r) => shown_in_row(catalog.deep_view(), position as int, r as int),
            None => position >= catalog.len() || catalog.deep_view()[position as int].display_name
                is None,
        },
{
    if position >= catalog.len() {
        return None;
    }
    proof {
        assert(catalog.deep_view()[position as int] == catalog[position as int]@);
    }
    if catalog[position].display_name().is_none() {
        return None;
    }
    let mut rows: usize = 0;
    let mut i: usize = 0;
    proof {
        assert(catalog.deep_view().take(0) =~= Seq::<VoiceView>::empty());
    }
    while i < position
        invariant
            i <= position < catalog.len(),
            rows <= i,
            rows == row_at(catalog.deep_view(), i as int),
        decreases position - i,
    {
        proof {
            lemma_row_at_step(catalog.deep_view(), i as int);
            assert(catalog.deep_view()[i as int] == catalog[i as int]@);
        }
        match catalog[i].display_name() {
            Some(_) => {
                rows += 1;
            },
            None => {},
        }
        i += 1;
    }
    Some(rows)
}

/// What the engine reports of one installed voice. A field is `None` where the
/// engine could not tell.
#[derive(Debug, PartialEq, Eq)]
pub struct EnumeratedVoice {
    pub display_name: Option<String>,
    pub language: Option<String>,
}

/// An `EnumeratedVoice` as a mathematical value.
pub struct EnumeratedView {
    pub display_name: Option<Seq<char>>,
    pub language: Option<Seq<char>>,
}

impl View for EnumeratedVoice {
    type V = EnumeratedView;

    open spec fn view(&self) -> EnumeratedView {
        EnumeratedView {
            display_name: self.display_name.deep_view(),
            language: self.language.deep_view(),
        }
    }
}

impl DeepView for EnumeratedVoice {
    type V = EnumeratedView;

    open spec fn deep_view(&self) -> EnumeratedView {
        self.view()
    }
}

/// The order of byte strings: at the first place where they differ the smaller
/// byte decides; a string comes before every string that it begins.
pub open spec fn bytes_le(a: Seq<u8>, b: Seq<u8>) -> bool
    decreases a.len(),
{
    if a.len() == 0 {
        true
    } else if b.len() == 0 {
        false
    } else if a[0] != b[0] {
        a[0] < b[0]
    } else {
        bytes_le(a.skip(1), b.skip(1))
    }
}

/// The order of language tags: that of their UTF-8 bytes.
pub open spec fn language_le(a: Seq<char>, b: Seq<char>) -> bool {
    bytes_le(vstd::utf8::encode_utf8(a), vstd::utf8::encode_utf8(b))
}

/// Whether `x` is listed no later than `y`: by language, and among voices whose
/// languages order the same, by the engine's enumeration.
pub open spec fn listed_before(x: VoiceView, y: VoiceView) -> bool {
    language_le(x.language, y.language) && (language_le(y.language, x.language) ==> x.handle
        <= y.handle)
}

/// Whether a catalogue is in listing order throughout.
pub open spec fn in_listing_order(catalog: Seq<VoiceView>) -> bool {
    forall|i: int, j: int|
        0 <= i < j < catalog.len() ==> listed_before(#[trigger] catalog[i], #[trigger] catalog[j])
}

/// The voices of an enumeration that can be described, in enumeration order:
/// those of which the engine told the language, each with its place in the
/// enumeration as handle and with its name if the engine told that too.
pub open spec fn described(enumerated: Seq<EnumeratedView>) -> Seq<VoiceView>
    decreases enumerated.len(),
{
    if enumerated.len() == 0 {
        Seq::empty()
    } else {
        let earlier = described(enumerated.drop_last());
        let last = enumerated.last();
        if last.language is Some {
            earlier.push(
                VoiceView {
                    display_name: last.display_name,
                    language: last.language->Some_0,
                    handle: (enumerated.len() - 1) as usize,
                },
            )
        } else {
            earlier
        }
    }
}

/// Of two byte strings one comes no later than the other.
pub proof fn lemma_bytes_le_total(a: Seq<u8>, b: Seq<u8>)
    ensures
        bytes_le(a, b) || bytes_le(b, a),
    decreases a.len(),
{
    if a.len() > 0 && b.len() > 0 && a[0] == b[0] {
        lemma_bytes_le_total(a.skip(1), b.skip(1));
    }
}

/// The order of byte strings is transitive.
pub proof fn lemma_bytes_le_transitive(a: Seq<u8>, b: Seq<u8>, c: Seq<u8>)
    requires
        bytes_le(a, b),
        bytes_le(b, c),
    ensures
        bytes_le(a, c),
    decreases a.len(),
{
    if a.len() > 0 && b.len() > 0 && c.len() > 0 && a[0] == b[0] && b[0] == c[0] {
        lemma_bytes_le_transitive(a.skip(1), b.skip(1), c.skip(1));
    }
}

/// Of two voices one is listed no later than the other.
pub proof fn lemma_listed_before_total(x: VoiceView, y: VoiceView)
    ensures
        listed_before(x, y) || listed_before(y, x),
{
    lemma_bytes_le_total(
        vstd::utf8::encode_utf8(x.language),
        vstd::utf8::encode_utf8(y.language),
    );
}

/// The listing order is transitive.
pub proof fn lemma_listed_before_transitive(x: VoiceView, y: VoiceView, z: VoiceView)
    requires
        listed_before(x, y),
        listed_before(y, z),
    ensures
        listed_before(x, z),
{
    let a = vstd::utf8::encode_utf8(x.language);
    let b = vstd::utf8::encode_utf8(y.language);
    let c = vstd::utf8::encode_utf8(z.language);
    lemma_bytes_le_transitive(a, b, c);
    if bytes_le(c, a) {
        lemma_bytes_le_transitive(c, a, b);
        lemma_bytes_le_transitive(b, c, a);
    }
}

/// Whether language tag `a` orders no later than `b`.
fn language_no_later(a: &str, b: &str) -> (le: bool)
    ensures
        le == language_le(a@, b@),
{
    let x: &[u8] = a.as_bytes();
    let y: &[u8] = b.as_bytes();
    let mut i: usize = 0;
    proof {
        assert(x@.skip(0) =~= x@);
        assert(y@.skip(0) =~= y@);
    }
    while i < x.len() && i < y.len()
        invariant
            i <= x.len(),
            i <= y.len(),
            x@ == vstd::utf8::encode_utf8(a@),
            y@ == vstd::utf8::encode_utf8(b@),
            bytes_le(x@, y@) == bytes_le(x@.skip(i as int), y@.skip(i as int)),
        decreases x.len() - i,
    {
        proof {
            assert(x@.skip(i as int)[0] == x@[i as int]);
            assert(y@.skip(i as int)[0] == y@[i as int]);
            assert(x@.skip(i as int).skip(1) =~= x@.skip(i + 1));
            assert(y@.skip(i as int).skip(1) =~= y@.skip(i + 1));
        }
        if x[i] != y[i] {
            return x[i] < y[i];
        }
        i += 1;
    }
    x.len() <= y.len()
}

/// Whether `x` is listed no later than `y`.
fn listed_no_later(x: &VoiceDescriptor, y: &VoiceDescriptor) -> (le: bool)
    ensures
        le == listed_before(x@, y@),
{
    if !language_no_later(x.language.as_str(), y.language.as_str()) {
        false
    } else if language_no_later(y.language.as_str(), x.language.as_str()) {
        x.handle <= y.handle
    } else {
        true
    }
}

/// Puts `voice` into a catalogue that is in listing order, at its place.
fn list_voice(catalog: &mut Vec<VoiceDescriptor>, voice: VoiceDescriptor)
    requires
        in_listing_order(old(catalog).deep_view()),
    ensures
        in_listing_order(final(catalog).deep_view()),
        final(catalog).deep_view().to_multiset() == old(catalog).deep_view().to_multiset().insert(
            voice@,
        ),
{
    let ghost before = catalog.deep_view();
    let mut place: usize = 0;
    while place < catalog.len() && listed_no_later(&catalog[place], &voice)
        invariant
            place <= catalog.len(),
            catalog.deep_view() == before,
            forall|k: int| 0 <= k < place ==> listed_before(#[trigger] before[k], voice@),
        decreases catalog.len() - place,
    {
        proof {
            assert(before[place as int] == catalog[place as int]@);
        }
        place += 1;
    }
    proof {
        if place < catalog.len() {
            assert(before[place as int] == catalog[place as int]@);
            lemma_listed_before_total(before[place as int], voice@);
        }
    }
    catalog.insert(place, voice);
    proof {
        let after = catalog.deep_view();
        assert(after =~= before.insert(place as int, voice@));
        to_multiset_insert(before, place as int, voice@);
        assert forall|i: int, j: int| 0 <= i < j < after.len() implies listed_before(
            #[trigger] after[i],
            #[trigger] after[j],
        ) by {
            if j < place {
            } else if j == place {
            } else if i == place {
                if j - 1 > place {
                    lemma_listed_before_transitive(voice@, before[place as int], before[j - 1]);
                }
            } else if i < place {
                assert(after[i] == before[i] && after[j] == before[j - 1]);
            } else {
                assert(after[i] == before[i - 1] && after[j] == before[j - 1]);
            }
        }
    }
}

impl Tts {
    /// The catalogue of an enumeration: every voice of which the engine told the
    /// language, ordered by language and, within a language, as the engine
    /// enumerated them.
    pub fn list_voices(&self, enumerated: &Vec<EnumeratedVoice>) -> (catalog: Vec<VoiceDescriptor>)
        ensures
            in_listing_order(catalog.deep_view()),
            catalog.deep_view().to_multiset() == described(enumerated.deep_view()).to_multiset(),
    {
        let mut catalog: Vec<VoiceDescriptor> = empty_deep();
        let mut i: usize = 0;
        proof {
            assert(enumerated.deep_view().take(0) =~= Seq::empty());
        }
        while i < enumerated.len()
            invariant
                i <= enumerated.len(),
                in_listing_order(catalog.deep_view()),
                catalog.deep_view().to_multiset() == described(
                    enumerated.deep_view().take(i as int),
                ).to_multiset(),
            decreases enumerated.len() - i,
        {
            let voice: &EnumeratedVoice = &enumerated[i];
            proof {
                let all = enumerated.deep_view();
                assert(all.take(i + 1).drop_last() =~= all.take(i as int));
                assert(all.take(i + 1).last() == voice@);
                to_multiset_build(
                    described(all.take(i as int)),
                    VoiceView {
                        display_name: voice@.display_name,
                        language: voice@.language->Some_0,
                        handle: i,
                    },
                );
            }
            match &voice.language {
                Some(language) => {
                    let name: Option<String> = match &voice.display_name {
                        Some(n) => Some(n.clone()),
                        None => None,
                    };
                    list_voice(&mut catalog, VoiceDescriptor::new(name, language.clone(), i));
                },
                None => {},
            }
            i += 1;
        }
        proof {
            assert(enumerated.deep_view().take(i as int) =~= enumerated.deep_view());
        }
        catalog
    }
}

} // verus!
