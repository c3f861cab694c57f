//! Demultiplexing of a `[core][extension substream]` DTS byte stream.
//!
//! Reading headers, sizing and classifying substreams, and decoding are the
//! work of a DTS decoder. The demultiplexer asks for each of them in turn and
//! goes on with what came back.

use crate::bridge::codec::{core_sync, substream_sync, word_at, DtsProfile};
use vstd::prelude::*;

verus! {

/// The first place from `index` on at which `data` holds `word`.
pub open spec fn first_word(data: Seq<u8>, word: Seq<u8>, index: int) -> Option<int>
    decreases data.len() - index,
{
    if index + 4 > data.len() {
        None
    } else if word_at(data, index, word) {
        Some(index)
    } else {
        first_word(data, word, index + 1)
    }
}

/// The first place at which `data` holds `needle`.
pub fn find(data: &[u8], needle: &[u8; 4]) -> (place: Option<usize>)
    ensures
        match place {
            Some(place) => first_word(data@, needle@, 0) == Some(place as int) && place + 4
                <= data@.len(),
            None => first_word(data@, needle@, 0) is None,
        },
{
    find_from(data, needle, 0)
}

/// The first place from `from` on at which `data` holds `needle`.
fn find_from(data: &[u8], needle: &[u8; 4], from: usize) -> (place: Option<usize>)
    requires
        from <= data@.len(),
    ensures
        match place {
            Some(place) => first_word(data@, needle@, from as int) == Some(place as int) && from
                <= place && place + 4 <= data@.len() && word_at(data@, place as int, needle@),
            None => first_word(data@, needle@, from as int) is None,
        },
{
    let mut index: usize = from;
    while data.len() - index >= 4
        invariant
            from <= index <= data@.len(),
            first_word(data@, needle@, from as int) == first_word(data@, needle@, index as int),
        decreases data.len() - index,
    {
        if data[index] == needle[0] && data[index + 1] == needle[1] && data[index + 2] == needle[2]
            && data[index + 3] == needle[3] {
            return Some(index);
        }
        index = index + 1;
    }
    None
}

/// What the header reader says of a core candidate.
#[derive(Clone, Copy, PartialEq, Eq, Debug, Structural)]
pub enum HeaderReply {
    /// A core frame of this many bytes.
    Frame(usize),
    /// The header is not complete yet.
    InsufficientData,
    /// This is no core frame.
    Invalid,
}

/// What an extension substream adds to the core.
#[derive(Clone, Copy, PartialEq, Eq, Debug, Structural)]
pub enum ExssKind {
    /// Nothing that is decoded.
    Core,
    /// Lossy extensions.
    Lossy,
    /// A lossless extension.
    Lossless,
}

/// What the demultiplexer is told.
#[derive(Clone, Copy, PartialEq, Eq, Debug, Structural)]
pub enum DtsReply {
    /// Go on: nothing was asked for, or the frame has been decoded.
    Next,
    /// The core header.
    Header(HeaderReply),
    /// The size of the substream, once enough of it is there.
    SubstreamSize(Option<usize>),
    /// What the substream adds.
    Kind(ExssKind),
}

/// What the demultiplexer asks for, by places in the buffer.
#[derive(Clone, Copy, PartialEq, Eq, Debug, Structural)]
pub enum DtsRequest {
    /// Read the core header at this place.
    ParseHeader { at: usize },
    /// Size the substream at this place.
    SizeSubstream { at: usize },
    /// Classify this substream.
    Classify { from: usize, to: usize },
    /// Decode this core frame alone.
    DecodeCore { from: usize, to: usize, profile: DtsProfile },
    /// Decode this core frame with the substream behind it.
    DecodeHd { from: usize, middle: usize, to: usize, profile: DtsProfile },
    /// Nothing more can be done with what is buffered.
    Done,
}

/// What the demultiplexer waits for.
#[derive(Clone, Copy, PartialEq, Eq, Debug, Structural)]
pub enum DtsStage {
    Search,
    Header,
    Size { frame_size: usize },
    Kind { frame_size: usize, substream_size: usize },
    Finished,
}

/// Demultiplexing of one buffer: `consumed` bytes are dealt with.
#[derive(Clone, Copy, PartialEq, Eq, Debug, Structural)]
pub struct DtsDemux {
    pub consumed: usize,
    pub stage: DtsStage,
}

/// Whether `reply` answers what was asked for.
pub open spec fn answers(stage: DtsStage, reply: DtsReply) -> bool {
    match stage {
        DtsStage::Search => reply is Next,
        DtsStage::Header => reply is Header,
        DtsStage::Size { .. } => reply is SubstreamSize,
        DtsStage::Kind { .. } => reply is Kind,
        DtsStage::Finished => false,
    }
}

/// The end of what can be done, with `consumed` bytes dealt with.
pub open spec fn finished(consumed: int) -> (DtsDemux, DtsRequest) {
    (DtsDemux { consumed: consumed as usize, stage: DtsStage::Finished }, DtsRequest::Done)
}

/// Looking for the next core frame from `consumed` on. Without one, only a
/// possible partial sync word at the end is kept.
pub open spec fn search(buffer: Seq<u8>, consumed: int) -> (DtsDemux, DtsRequest) {
    match first_word(buffer, core_sync(), consumed) {
        Some(at) => (
            DtsDemux { consumed: at as usize, stage: DtsStage::Header },
            DtsRequest::ParseHeader { at: at as usize },
        ),
        None => finished(
            if buffer.len() - consumed > 3 {
                buffer.len() - 3
            } else {
                consumed
            },
        ),
    }
}

/// The next state and request, from a state and a reply.
pub open spec fn demux_step(buffer: Seq<u8>, demux: DtsDemux, reply: DtsReply) -> (
    DtsDemux,
    DtsRequest,
) {
    let at = demux.consumed as int;
    let rest = buffer.len() - at;
    match (demux.stage, reply) {
        (DtsStage::Search, DtsReply::Next) => search(buffer, at),
        (DtsStage::Header, DtsReply::Header(HeaderReply::Invalid)) => search(buffer, at + 4),
        (DtsStage::Header, DtsReply::Header(HeaderReply::Frame(size))) => if rest < size + 4 {
            finished(at)
        } else if word_at(buffer, at + size, substream_sync()) {
            (
                DtsDemux { stage: DtsStage::Size { frame_size: size }, ..demux },
                DtsRequest::SizeSubstream { at: (at + size) as usize },
            )
        } else {
            (
                DtsDemux { consumed: (at + size) as usize, stage: DtsStage::Search },
                DtsRequest::DecodeCore {
                    from: at as usize,
                    to: (at + size) as usize,
                    profile: DtsProfile::Core,
                },
            )
        },
        (DtsStage::Size { frame_size }, DtsReply::SubstreamSize(Some(size))) => if rest < frame_size
            + size {
            finished(at)
        } else {
            (
                DtsDemux {
                    stage: DtsStage::Kind { frame_size, substream_size: size },
                    ..demux
                },
                DtsRequest::Classify {
                    from: (at + frame_size) as usize,
                    to: (at + frame_size + size) as usize,
                },
            )
        },
        (DtsStage::Kind { frame_size, substream_size }, DtsReply::Kind(kind)) => {
            let middle = at + frame_size;
            let end = middle + substream_size;
            (
                DtsDemux { consumed: end as usize, stage: DtsStage::Search },
                match kind {
                    ExssKind::Core => DtsRequest::DecodeCore {
                        from: at as usize,
                        to: middle as usize,
                        profile: DtsProfile::Hd,
                    },
                    ExssKind::Lossy => DtsRequest::DecodeHd {
                        from: at as usize,
                        middle: middle as usize,
                        to: end as usize,
                        profile: DtsProfile::Hd,
                    },
                    ExssKind::Lossless => DtsRequest::DecodeHd {
                        from: at as usize,
                        middle: middle as usize,
                        to: end as usize,
                        profile: DtsProfile::Ma,
                    },
                },
            )
        },
        _ => finished(at),
    }
}

impl DtsDemux {
    /// The places that the demultiplexer stands at lie in the buffer.
    pub open spec fn wf(&self, buffer: Seq<u8>) -> bool {
        &&& self.consumed <= buffer.len()
        &&& match self.stage {
            DtsStage::Header => word_at(buffer, self.consumed as int, core_sync()),
            DtsStage::Size { frame_size } => self.consumed + frame_size + 4 <= buffer.len(),
            DtsStage::Kind { frame_size, substream_size } => self.consumed + frame_size
                + substream_size <= buffer.len(),
            _ => true,
        }
    }

    /// Demultiplexing of a buffer from its start.
    pub fn new() -> (demux: Self)
        ensures
            demux == (DtsDemux { consumed: 0, stage: DtsStage::Search }),
    {
        DtsDemux { consumed: 0, stage: DtsStage::Search }
    }

    /// Looks for the next core frame from `from` on.
    fn search_from(&mut self, buffer: &Vec<u8>, from: usize) -> (request: DtsRequest)
        requires
            from <= buffer@.len(),
        ensures
            (*final(self), request) == search(buffer@, from as int),
            final(self).wf(buffer@),
            from <= final(self).consumed,
    {
        let sync: [u8; 4] = [0x7F, 0xFE, 0x80, 0x01];
        assert(sync@ =~= core_sync());
        match find_from(buffer.as_slice(), &sync, from) {
            Some(at) => {
                self.consumed = at;
                self.stage = DtsStage::Header;
                DtsRequest::ParseHeader { at }
            },
            None => {
                self.consumed = if buffer.len() - from > 3 {
                    buffer.len() - 3
                } else {
                    from
                };
                self.stage = DtsStage::Finished;
                DtsRequest::Done
            },
        }
    }

    /// Takes a reply and says what is needed next.
    pub fn step(&mut self, buffer: &Vec<u8>, reply: DtsReply) -> (request: DtsRequest)
        requires
            old(self).wf(buffer@),
            answers(old(self).stage, reply),
        ensures
            (*final(self), request) == demux_step(buffer@, *old(self), reply),
            final(self).wf(buffer@),
            // Nothing is dealt with twice.
            old(self).consumed <= final(self).consumed,
    {
        let at: usize = self.consumed;
        let rest: usize = buffer.len() - at;
        match (self.stage, reply) {
            (DtsStage::Search, DtsReply::Next) => self.search_from(buffer, at),
            (DtsStage::Header, DtsReply::Header(HeaderReply::Invalid)) => self.search_from(
                buffer,
                at + 4,
            ),
            (DtsStage::Header, DtsReply::Header(HeaderReply::Frame(size))) => {
                if rest < 4 || size > rest - 4 {
                    self.stage = DtsStage::Finished;
                    return DtsRequest::Done;
                }
                let end: usize = at + size;
                if buffer[end] == 0x64 && buffer[end + 1] == 0x58 && buffer[end + 2] == 0x20
                    && buffer[end + 3] == 0x25 {
                    self.stage = DtsStage::Size { frame_size: size };
                    DtsRequest::SizeSubstream { at: end }
                } else {
                    self.consumed = end;
                    self.stage = DtsStage::Search;
                    DtsRequest::DecodeCore { from: at, to: end, profile: DtsProfile::Core }
                }
            },
            (DtsStage::Size { frame_size }, DtsReply::SubstreamSize(Some(size))) => {
                if size > rest - frame_size {
                    self.stage = DtsStage::Finished;
                    return DtsRequest::Done;
                }
                self.stage = DtsStage::Kind { frame_size, substream_size: size };
                DtsRequest::Classify { from: at + frame_size, to: at + frame_size + size }
            },
            (DtsStage::Kind { frame_size, substream_size }, DtsReply::Kind(kind)) => {
                let middle: usize = at + frame_size;
                let to: usize = middle + substream_size;
                self.consumed = to;
                self.stage = DtsStage::Search;
                match kind {
                    ExssKind::Core => DtsRequest::DecodeCore {
                        from: at,
                        to: middle,
                        profile: DtsProfile::Hd,
                    },
                    ExssKind::Lossy => DtsRequest::DecodeHd {
                        from: at,
                        middle,
                        to,
                        profile: DtsProfile::Hd,
                    },
                    ExssKind::Lossless => DtsRequest::DecodeHd {
                        from: at,
                        middle,
                        to,
                        profile: DtsProfile::Ma,
                    },
                }
            },
            _ => {
                self.stage = DtsStage::Finished;
                DtsRequest::Done
            },
        }
    }
}

/// What comes before the first place of a word does not hold the word.
pub proof fn first_word_is_first(data: Seq<u8>, word: Seq<u8>, index: int)
    requires
        0 <= index,
    ensures
        match first_word(data, word, index) {
            Some(place) => index <= place && word_at(data, place, word) && forall|before: int|
                index <= before < place ==> !#[trigger] word_at(data, before, word),
            None => forall|before: int| index <= before ==> !#[trigger] word_at(data, before, word),
        },
    decreases data.len() - index,
{
    if index + 4 <= data.len() && !word_at(data, index, word) {
        first_word_is_first(data, word, index + 1);
    }
}

/// No frame is lost between packets: the bytes that a search gives up hold no
/// core sync word, whatever is appended to the buffer later.
pub proof fn searched_bytes_hold_no_sync(
    buffer: Seq<u8>,
    consumed: int,
    more: Seq<u8>,
    place: int,
)
    requires
        0 <= consumed <= buffer.len() <= usize::MAX,
        consumed <= place < search(buffer, consumed).0.consumed,
    ensures
        !word_at(buffer + more, place, core_sync()),
{
    first_word_is_first(buffer, core_sync(), consumed);
    assert(!word_at(buffer, place, core_sync()));
    let all = buffer + more;
    if word_at(all, place, core_sync()) {
        if place + 4 <= buffer.len() {
            assert(word_at(buffer, place, core_sync()));
        }
    }
}

/// The bytes of the frame that a request asks to decode, its substream included,
/// as far as it is decoded.
pub open spec fn frame_of(request: DtsRequest) -> Option<(int, int)> {
    match request {
        DtsRequest::DecodeCore { from, to, .. } => Some((from as int, to as int)),
        DtsRequest::DecodeHd { from, to, .. } => Some((from as int, to as int)),
        _ => None,
    }
}

/// A run of replies over one buffer: each leads from one state to the next, and
/// to a request.
pub open spec fn is_run(
    buffer: Seq<u8>,
    states: Seq<DtsDemux>,
    replies: Seq<DtsReply>,
    requests: Seq<DtsRequest>,
) -> bool {
    &&& buffer.len() <= usize::MAX
    &&& states.len() == replies.len() + 1
    &&& requests.len() == replies.len()
    &&& forall|index: int|
        0 <= index < replies.len() ==> {
            &&& (#[trigger] states[index]).wf(buffer)
            &&& answers(states[index].stage, replies[index])
            &&& (states[index + 1], requests[index]) == demux_step(
                buffer,
                states[index],
                replies[index],
            )
        }
}

/// A step deals with bytes only forward, and a frame that it asks for lies
/// between what was dealt with before and after it.
proof fn lemma_step_forward(buffer: Seq<u8>, demux: DtsDemux, reply: DtsReply)
    requires
        buffer.len() <= usize::MAX,
        demux.wf(buffer),
        answers(demux.stage, reply),
    ensures
        ({
            let (next, request) = demux_step(buffer, demux, reply);
            &&& demux.consumed <= next.consumed <= buffer.len()
            &&& frame_of(request) matches Some(frame) ==> demux.consumed <= frame.0 <= frame.1
                <= next.consumed
        }),
{
    first_word_is_first(buffer, core_sync(), demux.consumed as int);
    first_word_is_first(buffer, core_sync(), demux.consumed + 4);
}

/// Over any run of replies the bytes that are dealt with only grow, and stay
/// within the buffer.
pub proof fn consumed_only_grows(
    buffer: Seq<u8>,
    states: Seq<DtsDemux>,
    replies: Seq<DtsReply>,
    requests: Seq<DtsRequest>,
    first: int,
    second: int,
)
    requires
        is_run(buffer, states, replies, requests),
        0 <= first <= second <= replies.len(),
    ensures
        states[first].consumed <= states[second].consumed,
        first < second ==> states[second].consumed <= buffer.len(),
    decreases second - first,
{
    if first < second {
        consumed_only_grows(buffer, states, replies, requests, first, second - 1);
        assert(states[second - 1].wf(buffer));
        lemma_step_forward(buffer, states[second - 1], replies[second - 1]);
    }
}

/// The frames that a run asks to decode are disjoint and come in the order of
/// the buffer, and all lie in it.
pub proof fn frames_come_in_order(
    buffer: Seq<u8>,
    states: Seq<DtsDemux>,
    replies: Seq<DtsReply>,
    requests: Seq<DtsRequest>,
    first: int,
    second: int,
)
    requires
        is_run(buffer, states, replies, requests),
        0 <= first < second < replies.len(),
    ensures
        match (frame_of(requests[first]), frame_of(requests[second])) {
            (Some(one), Some(other)) => 0 <= one.0 <= one.1 <= other.0 <= other.1 <= buffer.len(),
            _ => true,
        },
{
    assert(states[first].wf(buffer));
    assert(states[second].wf(buffer));
    lemma_step_forward(buffer, states[first], replies[first]);
    lemma_step_forward(buffer, states[second], replies[second]);
    consumed_only_grows(buffer, states, replies, requests, first + 1, second);
}

} // verus!
