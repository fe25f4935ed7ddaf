//! The reading of a track's metadata, in steps.

use vstd::prelude::*;

use crate::config::DiscordConfig;
use crate::json::Json;
use crate::json::JsonView;
use crate::metadata;
use crate::metadata::Metadata;
use crate::mpv;
use crate::tag;
use crate::tag::TagData;
use crate::text;
use crate::track;
use crate::track::Length;
use crate::track::LengthView;
use crate::track::Track;
use crate::track::TrackView;

verus! {

broadcast use vstd::string::group_string_axioms;

/// A step towards a track's metadata.
#[derive(Debug, Clone, Copy, PartialEq, Eq, Structural)]
pub enum UpdateStep {
    /// Ask mpv for the path of the track, so many times at most.
    AskPath(u32),
    /// Read the tag of the track's file.
    ReadTag,
    /// Ask mpv for the length of the track, so many times at most.
    AskLength(u32),
    Done,
    /// mpv gave no reply to the question for the length.
    Failed,
}

/// What a step towards a track's metadata has found. Each part is of use for the steps that look for
/// it.
#[derive(Debug)]
pub struct Answer<'a> {
    /// mpv's reply; there may be none.
    pub reply: Option<&'a Json>,
    /// The tag of the track's file, where it has one.
    pub tag: Option<&'a TagData>,
    /// What the number in mpv's reply says, where there is one.
    pub length: Length,
}

/// What a step towards a track's metadata has found.
#[verifier::ext_equal]
pub struct AnswerView {
    pub reply: Option<JsonView>,
    pub tag: Option<Seq<tag::FrameView>>,
    pub length: LengthView,
}

impl<'a> View for Answer<'a> {
    type V = AnswerView;

    open spec fn view(&self) -> AnswerView {
        AnswerView {
            reply: mpv::reply_view(self.reply),
            tag: track::tag_view(self.tag),
            length: self.length@,
        }
    }
}

impl AnswerView {
    /// The length that mpv's reply tells, where it tells one.
    pub open spec fn told_length(self) -> Option<LengthView> {
        match self.reply {
            Some(json) => match json.number_field("data"@) {
                Some(seconds) => Some(LengthView { exact: seconds, ..self.length }),
                None => None,
            },
            None => None,
        }
    }
}

impl UpdateStep {
    /// The first step, by the message that reports new metadata. Without metadata in it, such as when
    /// mpv has just started, nothing is done.
    pub open spec fn initial(message: JsonView) -> UpdateStep {
        if metadata::table_in(message) is Some {
            UpdateStep::AskPath(mpv::PATH_ATTEMPTS)
        } else {
            UpdateStep::Done
        }
    }

    /// The step after this one, by what this one has found.
    pub open spec fn after(self, answer: AnswerView) -> UpdateStep {
        match self {
            UpdateStep::AskPath(left) => if mpv::path_in(answer.reply) is Ok || left <= 1 {
                UpdateStep::ReadTag
            } else {
                UpdateStep::AskPath((left - 1) as u32)
            },
            UpdateStep::ReadTag => UpdateStep::AskLength(mpv::DURATION_ATTEMPTS),
            UpdateStep::AskLength(left) => if answer.reply is None {
                UpdateStep::Failed
            } else if answer.told_length() is Some || left <= 1 {
                UpdateStep::Done
            } else {
                UpdateStep::AskLength((left - 1) as u32)
            },
            UpdateStep::Done => UpdateStep::Done,
            UpdateStep::Failed => UpdateStep::Failed,
        }
    }

    /// What this step sends to mpv.
    pub open spec fn sends(self) -> Option<Seq<char>> {
        match self {
            UpdateStep::AskPath(_) => Some(mpv::GET_PATH@),
            UpdateStep::AskLength(_) => Some(mpv::GET_DURATION@),
            _ => None,
        }
    }

    /// The first step, by the message that reports new metadata.
    pub fn first(message: &Json) -> (step: UpdateStep)
        ensures
            step == UpdateStep::initial(message@),
    {
        match message.get("data") {
            Some(Json::Table(_)) => UpdateStep::AskPath(mpv::PATH_ATTEMPTS),
            _ => UpdateStep::Done,
        }
    }

    /// What this step sends to mpv.
    pub fn command(&self) -> (command: Option<String>)
        ensures
            text::opt_view(command) == self.sends(),
    {
        match self {
            UpdateStep::AskPath(_) => Some(mpv::GET_PATH.to_owned()),
            UpdateStep::AskLength(_) => Some(mpv::GET_DURATION.to_owned()),
            _ => None,
        }
    }
}

impl TrackView {
    /// The track after a step towards its metadata: the tag is read together with what the message
    /// reports, and the length is noted once mpv tells it.
    pub open spec fn updated(
        self,
        step: UpdateStep,
        answer: AnswerView,
        message: JsonView,
        fallback_art: Seq<char>,
    ) -> TrackView {
        match step {
            UpdateStep::ReadTag => match metadata::table_in(message) {
                Some(table) => self.with_metadata(
                    metadata::entries_of(table),
                    answer.tag,
                    fallback_art,
                ),
                None => self,
            },
            UpdateStep::AskLength(_) => match answer.told_length() {
                Some(duration) => TrackView { duration, ..self },
                None => self,
            },
            _ => self,
        }
    }
}

impl Track {
    /// Takes a step towards the track's metadata, which `message` reports, and gives the next one.
    pub fn update(
        &mut self,
        step: UpdateStep,
        answer: Answer,
        message: &Json,
        discord: &DiscordConfig,
    ) -> (next: UpdateStep)
        ensures
            final(self)@ == old(self)@.updated(step, answer@, message@, discord.fallback_art@),
            next == step.after(answer@),
    {
        match step {
            UpdateStep::AskPath(left) => {
                if left <= 1 || mpv::get_filepath(answer.reply).is_some() {
                    UpdateStep::ReadTag
                } else {
                    UpdateStep::AskPath(left - 1)
                }
            },
            UpdateStep::ReadTag => {
                if let Some(data) = Metadata::read(message) {
                    self.update_metadata(&data, answer.tag, discord.fallback_art.as_str());
                }
                UpdateStep::AskLength(mpv::DURATION_ATTEMPTS)
            },
            UpdateStep::AskLength(left) => match answer.reply {
                None => UpdateStep::Failed,
                Some(json) => match json.get_number("data") {
                    Some(seconds) => {
                        let mut length = answer.length;
                        length.exact = seconds.to_owned();
                        self.update_duration(length);
                        UpdateStep::Done
                    },
                    None => {
                        if left <= 1 {
                            UpdateStep::Done
                        } else {
                            UpdateStep::AskLength(left - 1)
                        }
                    },
                },
            },
            UpdateStep::Done => UpdateStep::Done,
            UpdateStep::Failed => UpdateStep::Failed,
        }
    }
}

/// The track, and the step that is next, after some steps towards its metadata have found `answers`.
pub open spec fn update_run(
    track: TrackView,
    message: JsonView,
    fallback_art: Seq<char>,
    answers: Seq<AnswerView>,
) -> (TrackView, UpdateStep)
    decreases answers.len(),
{
    if answers.len() == 0 {
        (track, UpdateStep::initial(message))
    } else {
        let (before, step) = update_run(track, message, fallback_art, answers.drop_last());
        (before.updated(step, answers.last(), message, fallback_art), step.after(answers.last()))
    }
}

/// Where a message reports no metadata, nothing is asked and nothing changes.
pub proof fn law_no_metadata_no_change(
    track: TrackView,
    message: JsonView,
    fallback_art: Seq<char>,
    answers: Seq<AnswerView>,
)
    requires
        metadata::table_in(message) is None,
    ensures
        update_run(track, message, fallback_art, answers) == (track, UpdateStep::Done),
        UpdateStep::Done.sends() is None,
    decreases answers.len(),
{
    if answers.len() > 0 {
        law_no_metadata_no_change(track, message, fallback_art, answers.drop_last());
    }
}

/// How many steps are left at most.
spec fn distance(step: UpdateStep) -> int {
    match step {
        UpdateStep::AskPath(left) => 1 + mpv::DURATION_ATTEMPTS + if left <= 1 {
            1int
        } else {
            left as int
        },
        UpdateStep::ReadTag => 1 + mpv::DURATION_ATTEMPTS,
        UpdateStep::AskLength(left) => if left <= 1 {
            1int
        } else {
            left as int
        },
        _ => 0,
    }
}

proof fn lemma_update_comes_closer(
    track: TrackView,
    message: JsonView,
    fallback_art: Seq<char>,
    answers: Seq<AnswerView>,
)
    ensures
        ({
            let left = distance(update_run(track, message, fallback_art, answers).1);
            left == 0 || left <= distance(UpdateStep::initial(message)) - answers.len()
        }),
    decreases answers.len(),
{
    if answers.len() > 0 {
        lemma_update_comes_closer(track, message, fallback_art, answers.drop_last());
    }
}

/// Whatever is found, mpv is asked for the path and for the length no more often than allowed before
/// the metadata is done with.
pub proof fn law_update_ends(
    track: TrackView,
    message: JsonView,
    fallback_art: Seq<char>,
    answers: Seq<AnswerView>,
)
    requires
        answers.len() >= mpv::PATH_ATTEMPTS + 1 + mpv::DURATION_ATTEMPTS,
    ensures
        ({
            let step = update_run(track, message, fallback_art, answers).1;
            step == UpdateStep::Done || step == UpdateStep::Failed
        }),
{
    lemma_update_comes_closer(track, message, fallback_art, answers);
}

/// Whether `after` is `before` with the metadata that a message reports and a tag that was found.
pub open spec fn is_read(
    before: TrackView,
    after: TrackView,
    message: JsonView,
    fallback_art: Seq<char>,
    answers: Seq<AnswerView>,
) -> bool {
    metadata::table_in(message) matches Some(table) && exists|i: int|
        0 <= i < answers.len() && after == before.with_metadata(
            metadata::entries_of(table),
            (#[trigger] answers[i]).tag,
            fallback_art,
        )
}

/// Whether a length was told.
pub open spec fn is_told(length: LengthView, answers: Seq<AnswerView>) -> bool {
    exists|i: int|
        0 <= i < answers.len() && (#[trigger] answers[i]).told_length() == Some(length)
}

/// Before the tag is read nothing changes. After it all metadata is new but for the length, which
/// stays as it was until mpv tells it: also where mpv fails to reply, and where it has been asked for
/// the last time.
pub proof fn law_only_the_length_may_stay(
    track: TrackView,
    message: JsonView,
    fallback_art: Seq<char>,
    answers: Seq<AnswerView>,
)
    requires
        metadata::table_in(message) is Some,
    ensures
        ({
            let (after, step) = update_run(track, message, fallback_art, answers);
            let read = TrackView { duration: track.duration, ..after };
            match step {
                UpdateStep::AskPath(_) => after == track,
                UpdateStep::ReadTag => after == track,
                UpdateStep::AskLength(_) => {
                    &&& is_read(track, read, message, fallback_art, answers)
                    &&& after.duration == track.duration
                },
                UpdateStep::Failed => {
                    &&& is_read(track, read, message, fallback_art, answers)
                    &&& after.duration == track.duration
                    &&& exists|i: int|
                        0 <= i < answers.len() && (#[trigger] answers[i]).reply is None
                },
                UpdateStep::Done => {
                    &&& is_read(track, read, message, fallback_art, answers)
                    &&& after.duration == track.duration || is_told(after.duration, answers)
                },
            }
        }),
    decreases answers.len(),
{
    if answers.len() > 0 {
        let first = answers.drop_last();
        let last = answers.last();
        law_only_the_length_may_stay(track, message, fallback_art, first);
        let (before, step) = update_run(track, message, fallback_art, first);
        let (after, next) = update_run(track, message, fallback_art, answers);
        let table = metadata::table_in(message)->0;
        let was = TrackView { duration: track.duration, ..before };
        let read = TrackView { duration: track.duration, ..after };
        assert(answers[answers.len() - 1] == last);
        assert forall|i: int| 0 <= i < first.len() implies #[trigger] first[i] == answers[i] by {}
        match step {
            UpdateStep::AskPath(_) => {},
            UpdateStep::ReadTag => {
                assert(read == track.with_metadata(
                    metadata::entries_of(table),
                    answers[answers.len() - 1].tag,
                    fallback_art,
                ));
            },
            _ => {
                let i = choose|i: int|
                    0 <= i < first.len() && was == track.with_metadata(
                        metadata::entries_of(table),
                        (#[trigger] first[i]).tag,
                        fallback_art,
                    );
                assert(read == was);
                assert(answers[i].tag == first[i].tag);
                assert(is_read(track, read, message, fallback_art, answers));
                if is_told(before.duration, first) {
                    let k = choose|k: int|
                        0 <= k < first.len() && (#[trigger] first[k]).told_length() == Some(
                            before.duration,
                        );
                    assert(answers[k].told_length() == Some(before.duration));
                }
                if step == UpdateStep::Failed {
                    let k = choose|k: int|
                        0 <= k < first.len() && (#[trigger] first[k]).reply is None;
                    assert(answers[k].reply is None);
                }
            },
        }
    }
}

/// The length that is told is the number of the reply, as it is written, with what that number says.
pub proof fn law_lengths_are_told_as_written(answer: AnswerView, reply: JsonView, seconds: Seq<char>)
    ensures
        answer.reply is None ==> answer.told_length() is None,
        answer.reply == Some(reply) && reply.number_field("data"@) is None ==> answer.told_length()
            is None,
        answer.reply == Some(reply) && reply.number_field("data"@) == Some(seconds) ==> {
            &&& answer.told_length() matches Some(length) && length.exact == seconds && length.shown
                == answer.length.shown && length.placeholder == answer.length.placeholder
                && length.nanos == answer.length.nanos
        },
{
}

/// An answer is what its parts are.
pub proof fn law_answer_is_its_parts(answer: Answer, json: &Json, tag: &TagData)
    ensures
        answer.reply == Some(json) ==> answer@.reply == Some(json@),
        answer.reply is None ==> answer@.reply is None,
        answer.tag == Some(tag) ==> answer@.tag == Some(tag@),
        answer.tag is None ==> answer@.tag is None,
        answer@.length == answer.length@,
{
}

/// The path is asked for until it is told, four times at most, then the tag is read, and then the
/// length is asked for until it is told, 65535 times at most.
pub proof fn law_update_steps(message: JsonView, answer: AnswerView, left: u32)
    ensures
        metadata::table_in(message) is Some ==> UpdateStep::initial(message) == UpdateStep::AskPath(
            4,
        ),
        metadata::table_in(message) is None ==> UpdateStep::initial(message) == UpdateStep::Done,
        UpdateStep::AskPath(left).sends() == Some(
            r#" { "command" : [ "get_property", "path" ] } "#@,
        ),
        UpdateStep::AskLength(left).sends() == Some(
            r#"{"command": ["get_property", "duration"]}"#@,
        ),
        UpdateStep::ReadTag.sends() is None,
        UpdateStep::Done.sends() is None,
        UpdateStep::Failed.sends() is None,
        mpv::path_in(answer.reply) is Ok ==> UpdateStep::AskPath(left).after(answer)
            == UpdateStep::ReadTag,
        left > 1 && mpv::path_in(answer.reply) is Err ==> UpdateStep::AskPath(left).after(answer)
            == UpdateStep::AskPath((left - 1) as u32),
        left <= 1 ==> UpdateStep::AskPath(left).after(answer) == UpdateStep::ReadTag,
        UpdateStep::ReadTag.after(answer) == UpdateStep::AskLength(65535),
        answer.reply is None ==> UpdateStep::AskLength(left).after(answer) == UpdateStep::Failed,
        answer.reply is Some && answer.told_length() is Some ==> UpdateStep::AskLength(left).after(
            answer,
        ) == UpdateStep::Done,
        left > 1 && answer.reply is Some && answer.told_length() is None ==> UpdateStep::AskLength(
            left,
        ).after(answer) == UpdateStep::AskLength((left - 1) as u32),
        left <= 1 && answer.reply is Some ==> UpdateStep::AskLength(left).after(answer)
            == UpdateStep::Done,
{
}

/// Where mpv tells the path and the length at once, the track has the metadata that is reported, with
/// the tag that was read, and the length that was told.
pub proof fn law_answers_are_taken_over(
    track: TrackView,
    message: JsonView,
    table: Seq<(Seq<char>, JsonView)>,
    fallback_art: Seq<char>,
    path: AnswerView,
    tagged: AnswerView,
    told: AnswerView,
    length: LengthView,
)
    requires
        metadata::table_in(message) == Some(table),
        mpv::path_in(path.reply) is Ok,
        told.told_length() == Some(length),
    ensures
        update_run(track, message, fallback_art, seq![path, tagged, told]) == (
            TrackView {
                duration: length,
                ..track.with_metadata(metadata::entries_of(table), tagged.tag, fallback_art)
            },
            UpdateStep::Done,
        ),
{
    reveal_with_fuel(update_run, 4);
    assert(seq![path, tagged, told].drop_last() =~= seq![path, tagged]);
    assert(seq![path, tagged].drop_last() =~= seq![path]);
    assert(seq![path].drop_last() =~= Seq::<AnswerView>::empty());
}

/// A step changes nothing but what it looks for: no question changes the track before its tag is
/// read, and a question for the length changes the length alone.
pub proof fn law_steps_change_what_they_look_for(
    track: TrackView,
    step: UpdateStep,
    answer: AnswerView,
    message: JsonView,
    fallback_art: Seq<char>,
)
    ensures
        ({
            let after = track.updated(step, answer, message, fallback_art);
            &&& !(step is ReadTag) && !(step is AskLength) ==> after == track
            &&& step is AskLength ==> after == (TrackView { duration: after.duration, ..track })
            &&& step is AskLength && answer.told_length() is None ==> after == track
            &&& step is AskLength ==> (answer.told_length() matches Some(length) ==> after.duration
                == length)
            &&& step is ReadTag ==> after.duration == track.duration && after.progress
                == track.progress
        }),
{
}

} // verus!
