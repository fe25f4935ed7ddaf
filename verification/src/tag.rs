//! ID3 tags as plain data.

use vstd::prelude::*;

use crate::text;

verus! {

broadcast use vstd::string::group_string_axioms;

/// `id3::Tag`, the tag as the ID3 reader holds it.
#[verifier::external_type_specification]
#[verifier::external_body]
pub struct ExTag(id3::Tag);

/// What a frame of a tag says.
#[verifier::ext_equal]
pub enum ContentView {
    Text(Seq<char>),
    Link(Seq<char>),
    ExtendedLink { description: Seq<char>, link: Seq<char> },
    ExtendedText { description: Seq<char>, value: Seq<char> },
    Other,
}

/// A frame of a tag.
#[verifier::ext_equal]
pub struct FrameView {
    /// The identifier, four characters as a rule.
    pub id: Seq<char>,
    /// The content, written out.
    pub shown: Seq<char>,
    pub content: ContentView,
}

/// What a frame of a tag says.
#[derive(Debug)]
pub enum FrameContent {
    Text(String),
    Link(String),
    ExtendedLink { description: String, link: String },
    ExtendedText { description: String, value: String },
    Other,
}

/// A frame of a tag.
#[derive(Debug)]
pub struct Frame {
    /// The identifier, four characters as a rule.
    pub id: String,
    /// The content, written out.
    pub shown: String,
    pub content: FrameContent,
}

/// An ID3 tag: its frames, in order.
#[derive(Debug)]
pub struct TagData {
    pub frames: Vec<Frame>,
}

impl View for FrameContent {
    type V = ContentView;

    open spec fn view(&self) -> ContentView {
        match self {
            FrameContent::Text(t) => ContentView::Text(t@),
            FrameContent::Link(l) => ContentView::Link(l@),
            FrameContent::ExtendedLink { description, link } => ContentView::ExtendedLink {
                description: description@,
                link: link@,
            },
            FrameContent::ExtendedText { description, value } => ContentView::ExtendedText {
                description: description@,
                value: value@,
            },
            FrameContent::Other => ContentView::Other,
        }
    }
}

impl View for Frame {
    type V = FrameView;

    open spec fn view(&self) -> FrameView {
        FrameView { id: self.id@, shown: self.shown@, content: self.content@ }
    }
}

impl View for TagData {
    type V = Seq<FrameView>;

    open spec fn view(&self) -> Seq<FrameView> {
        self.frames@.map_values(|f: Frame| f@)
    }
}

/// The frames that a tag of the ID3 reader holds, in order.
pub uninterp spec fn frames_of(tag: id3::Tag) -> Seq<FrameView>;

/// `id3::Tag::frames` goes through the frames in order. Each gives its `id`, its content written
/// out by `to_string`, and the text, link or description of its content. What is written out is
/// the text itself where the content is a text.
#[verifier::external_body]
fn read_frames(tag: &id3::Tag) -> (frames: Vec<Frame>)
    ensures
        frames@.map_values(|f: Frame| f@) == frames_of(*tag),
        texts_are_shown(frames@.map_values(|f: Frame| f@)),
{
    tag.frames().map(|f| Frame {
        id: f.id().to_string(),
        shown: f.content().to_string(),
        content: match f.content() {
            id3::Content::Text(t) => FrameContent::Text(t.clone()),
            id3::Content::Link(l) => FrameContent::Link(l.clone()),
            id3::Content::ExtendedLink(l) => FrameContent::ExtendedLink {
                description: l.description.clone(), link: l.link.clone() },
            id3::Content::ExtendedText(t) => FrameContent::ExtendedText {
                description: t.description.clone(), value: t.value.clone() },
            _ => FrameContent::Other,
        },
    }).collect()
}

/// Whether every frame whose content is a text is written out as that text.
pub open spec fn texts_are_shown(frames: Seq<FrameView>) -> bool {
    forall|i: int|
        0 <= i < frames.len() ==> ((#[trigger] frames[i]).content matches ContentView::Text(t)
            ==> frames[i].shown == t)
}

/// The first frame with the given identifier.
pub open spec fn frame_with_id(frames: Seq<FrameView>, id: Seq<char>) -> Option<FrameView>
    decreases frames.len(),
{
    if frames.len() == 0 {
        None
    } else if frames.first().id == id {
        Some(frames.first())
    } else {
        frame_with_id(frames.drop_first(), id)
    }
}

/// The first text that `pick` finds, going through the frames in order.
pub open spec fn first_picked(
    frames: Seq<FrameView>,
    pick: spec_fn(FrameView) -> Option<Seq<char>>,
) -> Option<Seq<char>>
    decreases frames.len(),
{
    if frames.len() == 0 {
        None
    } else {
        match pick(frames.first()) {
            Some(found) => Some(found),
            None => first_picked(frames.drop_first(), pick),
        }
    }
}

/// The link that a frame holds, where it is a plain link.
pub open spec fn link_of(frame: FrameView) -> Option<Seq<char>> {
    match frame.content {
        ContentView::Link(l) => Some(l),
        _ => None,
    }
}

/// The text that a frame holds, where it is a plain text.
pub open spec fn text_of(frame: FrameView) -> Option<Seq<char>> {
    match frame.content {
        ContentView::Text(t) => Some(t),
        _ => None,
    }
}

impl TagData {
    /// The plain data of a tag of the ID3 reader.
    pub fn from_id3(tag: &id3::Tag) -> (plain: TagData)
        ensures
            plain@ == frames_of(*tag),
            texts_are_shown(plain@),
    {
        TagData { frames: read_frames(tag) }
    }

    /// The first frame with the given identifier.
    pub fn get(&self, id: &str) -> (frame: Option<&Frame>)
        ensures
            match frame {
                Some(f) => frame_with_id(self@, id@) == Some(f@),
                None => frame_with_id(self@, id@) is None,
            },
    {
        let mut i: usize = 0;
        assert(self@.skip(0) =~= self@);
        while i < self.frames.len()
            invariant
                i <= self.frames@.len() == self@.len(),
                frame_with_id(self@, id@) == frame_with_id(self@.skip(i as int), id@),
            decreases self.frames@.len() - i,
        {
            assert(self@[i as int] == self.frames@[i as int]@);
            if self.frames[i].id.as_str().eq(id) {
                return Some(&self.frames[i]);
            }
            assert(self@.skip(i as int).drop_first() =~= self@.skip(i + 1));
            i = i + 1;
        }
        None
    }

    /// The first text that `pick` finds, going through the frames in order.
    pub(crate) fn find_map<F: Fn(&Frame) -> Option<String>>(
        &self,
        pick: F,
        Ghost(model): Ghost<spec_fn(FrameView) -> Option<Seq<char>>>,
    ) -> (found: Option<String>)
        requires
            forall|f: &Frame| #[trigger] pick.requires((f,)),
            forall|f: &Frame, r: Option<String>| #[trigger]
                pick.ensures((f,), r) ==> text::opt_view(r) == model(f@),
        ensures
            text::opt_view(found) == first_picked(self@, model),
    {
        let mut i: usize = 0;
        assert(self@.skip(0) =~= self@);
        while i < self.frames.len()
            invariant
                i <= self.frames@.len() == self@.len(),
                first_picked(self@, model) == first_picked(self@.skip(i as int), model),
                forall|f: &Frame| #[trigger] pick.requires((f,)),
                forall|f: &Frame, r: Option<String>| #[trigger]
                    pick.ensures((f,), r) ==> text::opt_view(r) == model(f@),
            decreases self.frames@.len() - i,
        {
            assert(self@[i as int] == self.frames@[i as int]@);
            let found = pick(&self.frames[i]);
            if found.is_some() {
                return found;
            }
            assert(self@.skip(i as int).drop_first() =~= self@.skip(i + 1));
            i = i + 1;
        }
        None
    }
}

impl Frame {
    /// The link that the frame holds, where it is a plain link.
    pub fn link(&self) -> (link: Option<String>)
        ensures
            text::opt_view(link) == link_of(self@),
    {
        match &self.content {
            FrameContent::Link(l) => Some(l.clone()),
            _ => None,
        }
    }

    /// The text that the frame holds, where it is a plain text.
    pub fn text(&self) -> (text: Option<String>)
        ensures
            text::opt_view(text) == text_of(self@),
    {
        match &self.content {
            FrameContent::Text(t) => Some(t.clone()),
            _ => None,
        }
    }
}

/// A tag is what its frames are: each stands in it as it is, and in its place.
pub proof fn law_tag_is_its_frames(tag: TagData, frame: Frame)
    ensures
        tag@.len() == tag.frames@.len(),
        forall|i: int| 0 <= i < tag.frames@.len() ==> #[trigger] tag@[i] == tag.frames@[i]@,
        frame@.id == frame.id@,
        frame@.shown == frame.shown@,
        frame@.content == match frame.content {
            FrameContent::Text(t) => ContentView::Text(t@),
            FrameContent::Link(l) => ContentView::Link(l@),
            FrameContent::ExtendedLink { description, link } => ContentView::ExtendedLink {
                description: description@,
                link: link@,
            },
            FrameContent::ExtendedText { description, value } => ContentView::ExtendedText {
                description: description@,
                value: value@,
            },
            FrameContent::Other => ContentView::Other,
        },
{
}

/// Whether the frame at position `i` is the first one with an identifier.
pub open spec fn is_first(frames: Seq<FrameView>, i: int, id: Seq<char>) -> bool {
    &&& 0 <= i < frames.len()
    &&& frames[i].id == id
    &&& forall|j: int| 0 <= j < i ==> (#[trigger] frames[j]).id != id
}

/// Whether no frame has an identifier.
pub open spec fn lacks(frames: Seq<FrameView>, id: Seq<char>) -> bool {
    forall|j: int| 0 <= j < frames.len() ==> (#[trigger] frames[j]).id != id
}

/// The frame with an identifier is the first that has it, and there is none where no frame has it.
pub proof fn law_the_first_frame_is_found(frames: Seq<FrameView>, i: int, id: Seq<char>)
    ensures
        is_first(frames, i, id) ==> frame_with_id(frames, id) == Some(frames[i]),
        lacks(frames, id) ==> frame_with_id(frames, id) is None,
    decreases frames.len(),
{
    if frames.len() > 0 {
        let rest = frames.drop_first();
        law_the_first_frame_is_found(rest, i - 1, id);
        if lacks(frames, id) {
            assert(frames[0].id != id);
            assert forall|j: int| 0 <= j < rest.len() implies (#[trigger] rest[j]).id != id by {
                assert(rest[j] == frames[j + 1]);
            }
        }
        if is_first(frames, i, id) && i > 0 {
            assert(frames[0].id != id);
            assert(rest[i - 1] == frames[i]);
            assert forall|j: int| 0 <= j < i - 1 implies (#[trigger] rest[j]).id != id by {
                assert(rest[j] == frames[j + 1]);
            }
        }
    }
}

/// Whether the frame at position `i` is the first one in which something is found.
pub open spec fn is_first_pick(
    frames: Seq<FrameView>,
    i: int,
    pick: spec_fn(FrameView) -> Option<Seq<char>>,
) -> bool {
    &&& 0 <= i < frames.len()
    &&& pick(frames[i]) is Some
    &&& forall|j: int| 0 <= j < i ==> pick(#[trigger] frames[j]) is None
}

/// Whether nothing is found in any frame.
pub open spec fn is_no_pick(
    frames: Seq<FrameView>,
    pick: spec_fn(FrameView) -> Option<Seq<char>>,
) -> bool {
    forall|j: int| 0 <= j < frames.len() ==> pick(#[trigger] frames[j]) is None
}

/// What is found in a tag is what its first frame gives in which something is found, and there is
/// nothing where no frame gives anything.
pub proof fn law_the_first_pick_counts(
    frames: Seq<FrameView>,
    i: int,
    pick: spec_fn(FrameView) -> Option<Seq<char>>,
)
    ensures
        is_first_pick(frames, i, pick) ==> first_picked(frames, pick) == pick(frames[i]),
        is_no_pick(frames, pick) ==> first_picked(frames, pick) is None,
    decreases frames.len(),
{
    if frames.len() > 0 {
        let rest = frames.drop_first();
        law_the_first_pick_counts(rest, i - 1, pick);
        if is_no_pick(frames, pick) {
            assert(pick(frames[0]) is None);
            assert forall|j: int| 0 <= j < rest.len() implies pick(#[trigger] rest[j]) is None by {
                assert(rest[j] == frames[j + 1]);
            }
        }
        if is_first_pick(frames, i, pick) && i > 0 {
            assert(pick(frames[0]) is None);
            assert(rest[i - 1] == frames[i]);
            assert forall|j: int| 0 <= j < i - 1 implies pick(#[trigger] rest[j]) is None by {
                assert(rest[j] == frames[j + 1]);
            }
        }
    }
}

/// A frame holds a plain link or a plain text exactly where its content is one.
pub proof fn law_plain_content_is_given_as_it_is(frame: FrameView)
    ensures
        link_of(frame) == match frame.content {
            ContentView::Link(l) => Some(l),
            _ => None,
        },
        text_of(frame) == match frame.content {
            ContentView::Text(t) => Some(t),
            _ => None,
        },
{
}

} // verus!
