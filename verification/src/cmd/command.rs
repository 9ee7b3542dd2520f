use crate::buffer::buffer_bytes;
use crate::cmd::fields::{pairs_view, FieldSeq};
pub use crate::cmd::header::{CustomHeader, Header, HeaderView, LanguageCode, PROTOCOL_VERSION};
pub use crate::cmd::request_code::RequestCode;
use crate::error::{BodyDecodeError, DecodeError, ProtocolError};
use crate::wire::{
    declared_length, frame_status, payload_frame, WireFrame, FrameStatus, FrameView, JSON_TYPE_TAG,
};
use crate::util::strict::json_text;
use crate::util::text::text_of_utf8;
use bytes::BytesMut;
use vstd::prelude::*;
use vstd::slice::slice_to_vec;
use vstd::string::StringExecFns;
use vstd::utf8::{decode_utf8, encode_utf8, valid_utf8};

verus! {

/// A command as a value: a header and the text of a body.
pub struct CommandView {
    pub header: HeaderView,
    pub body: Seq<char>,
}

impl CommandView {
    /// The frame that carries a command: its header as JSON text, its body as
    /// UTF-8.
    pub open spec fn frame(self) -> FrameView {
        FrameView {
            type_tag: JSON_TYPE_TAG,
            header: encode_utf8(json_text(self.header.tree())),
            body: encode_utf8(self.body),
        }
    }

    /// The command that a frame carries. The header segment is to be the JSON
    /// text of a header, and the body UTF-8 text.
    pub open spec fn of_frame(frame: FrameView) -> Result<CommandView, DecodeError> {
        match HeaderView::of_bytes(frame.header) {
            Err(e) => Err(DecodeError::Header(e)),
            Ok(header) => if valid_utf8(frame.body) {
                Ok(CommandView { header, body: decode_utf8(frame.body) })
            } else {
                Err(DecodeError::Body(BodyDecodeError::Encoding))
            },
        }
    }

    /// The command that the bytes after a length prefix carry.
    pub open spec fn of_payload(payload: Seq<u8>) -> Result<CommandView, DecodeError> {
        match payload_frame(payload) {
            Some(frame) => Self::of_frame(frame),
            None => Err(DecodeError::Protocol(ProtocolError::Malformed)),
        }
    }
}

/// The parameter of a request for the route of a topic.
#[derive(Debug)]
pub struct TopicRouteInfoRequestHeader {
    topic: String,
}

impl TopicRouteInfoRequestHeader {
    pub closed spec fn topic(&self) -> Seq<char> {
        self.topic@
    }

    pub fn new(topic: String) -> (header: TopicRouteInfoRequestHeader)
        ensures
            header.topic() == topic@,
    {
        TopicRouteInfoRequestHeader { topic }
    }
}

/// The parameters of a request that names one topic.
pub open spec fn topic_fields(topic: Seq<char>) -> FieldSeq {
    seq![("topic"@, topic)]
}

fn topic_pairs(topic: &String) -> (pairs: Vec<(String, String)>)
    ensures
        pairs_view(pairs@) == topic_fields(topic@),
{
    let mut pairs: Vec<(String, String)> = Vec::new();
    pairs.push((String::from_str("topic"), topic.clone()));
    assert(pairs_view(pairs@) =~= topic_fields(topic@));
    pairs
}

impl CustomHeader for TopicRouteInfoRequestHeader {
    open spec fn fields(&self) -> FieldSeq {
        topic_fields(self.topic())
    }

    fn encode(&self) -> (pairs: Vec<(String, String)>) {
        topic_pairs(&self.topic)
    }
}

/// The parameter of a request for the statistics of a topic.
#[derive(Debug)]
pub struct GetTopicStatsInfoHeader {
    topic: String,
}

impl GetTopicStatsInfoHeader {
    pub closed spec fn topic(&self) -> Seq<char> {
        self.topic@
    }

    pub fn new(topic: String) -> (header: GetTopicStatsInfoHeader)
        ensures
            header.topic() == topic@,
    {
        GetTopicStatsInfoHeader { topic }
    }
}

impl CustomHeader for GetTopicStatsInfoHeader {
    open spec fn fields(&self) -> FieldSeq {
        topic_fields(self.topic())
    }

    fn encode(&self) -> (pairs: Vec<(String, String)>) {
        topic_pairs(&self.topic)
    }
}

/// The parameter of a request for the consumer groups of a topic.
#[derive(Debug)]
pub struct TopicConsumerByWhoHeader {
    topic: String,
}

impl TopicConsumerByWhoHeader {
    pub closed spec fn topic(&self) -> Seq<char> {
        self.topic@
    }

    pub fn new(topic: String) -> (header: TopicConsumerByWhoHeader)
        ensures
            header.topic() == topic@,
    {
        TopicConsumerByWhoHeader { topic }
    }
}

impl CustomHeader for TopicConsumerByWhoHeader {
    open spec fn fields(&self) -> FieldSeq {
        topic_fields(self.topic())
    }

    fn encode(&self) -> (pairs: Vec<(String, String)>) {
        topic_pairs(&self.topic)
    }
}

/// A request or a response: both have the same form.
#[derive(Debug)]
pub struct RemotingCommand {
    header: Header,
    body: String,
}

impl View for RemotingCommand {
    type V = CommandView;

    closed spec fn view(&self) -> CommandView {
        CommandView { header: self.header@, body: self.body@ }
    }
}

impl RemotingCommand {
    /// A request for the operation `code`, without parameters and without a body.
    pub fn new(code: RequestCode) -> (command: RemotingCommand)
        ensures
            command@ == (CommandView {
                header: HeaderView::request(code.wire_code() as i32),
                body: Seq::empty(),
            }),
    {
        RemotingCommand { header: Header::new(code), body: String::new() }
    }

    /// A request for the operation `code` with the parameters of `custom_header`,
    /// each set in turn, and without a body.
    pub fn build<T: CustomHeader>(code: RequestCode, custom_header: Option<T>) -> (command:
        RemotingCommand)
        ensures
            command@ == (CommandView {
                header: HeaderView::built(code.wire_code() as i32, custom_header),
                body: Seq::empty(),
            }),
    {
        let header = Header::build(code, custom_header);
        RemotingCommand { header, body: String::new() }
    }

    /// A command with the given header and body.
    pub fn with_body(header: Header, body: String) -> (command: RemotingCommand)
        ensures
            command@ == (CommandView { header: header@, body: body@ }),
    {
        RemotingCommand { header, body }
    }

    pub fn header(&self) -> (header: &Header)
        ensures
            header@ == self@.header,
    {
        &self.header
    }

    pub fn body(&self) -> (body: &str)
        ensures
            body@ == self@.body,
    {
        self.body.as_str()
    }

    /// Whether this is the response to a request that the server carried out.
    pub fn is_success(&self) -> (b: bool)
        ensures
            b == (self@.header.code == 0),
    {
        self.header.code() == 0
    }

    /// The command that a frame carries.
    pub fn from_frame(frame: WireFrame) -> (r: Result<RemotingCommand, DecodeError>)
        ensures
            match CommandView::of_frame(frame@) {
                Ok(command) => r matches Ok(c) && c@ == command,
                Err(e) => r == Err::<RemotingCommand, DecodeError>(e),
            },
    {
        match Header::parse_bytes(frame.header.as_slice()) {
            Err(e) => Err(DecodeError::Header(e)),
            Ok(header) => match text_of_utf8(frame.body) {
                Some(body) => Ok(RemotingCommand { header, body }),
                None => Err(DecodeError::Body(BodyDecodeError::Encoding)),
            },
        }
    }

    /// The frame that carries this command.
    pub fn to_frame(&self) -> (frame: WireFrame)
        ensures
            frame@ == self@.frame(),
    {
        let header = self.header.encode();
        WireFrame {
            type_tag: JSON_TYPE_TAG,
            header: slice_to_vec(header.as_str().as_bytes()),
            body: slice_to_vec(self.body.as_str().as_bytes()),
        }
    }

    /// The command that the content of a frame carries: the bytes that follow the
    /// length prefix.
    pub fn parse(content: &BytesMut) -> (r: Result<RemotingCommand, DecodeError>)
        ensures
            match CommandView::of_payload(buffer_bytes(*content)) {
                Ok(command) => r matches Ok(c) && c@ == command,
                Err(e) => r == Err::<RemotingCommand, DecodeError>(e),
            },
    {
        let bytes: &[u8] = &content;
        match WireFrame::parse(bytes) {
            Ok(frame) => Self::from_frame(frame),
            Err(e) => Err(DecodeError::Protocol(e)),
        }
    }

    /// The content of the frame of this command: what follows the length prefix.
    /// A command whose lengths do not fit the fields of a frame is refused.
    pub fn encode_no_length(&self) -> (r: Result<BytesMut, ProtocolError>)
        ensures
            match r {
                Ok(buffer) => self@.frame().fits() && buffer_bytes(buffer)
                    == self@.frame().payload(),
                Err(e) => !self@.frame().fits() && e == self@.frame().length_error(),
            },
    {
        match self.to_frame().payload() {
            Ok(payload) => {
                let mut buffer = BytesMut::new();
                buffer.extend_from_slice(payload.as_slice());
                assert(buffer_bytes(buffer) =~= self@.frame().payload());
                Ok(buffer)
            },
            Err(e) => Err(e),
        }
    }
}

/// The largest frame that a codec accepts unless it is told otherwise.
pub const DEFAULT_MAX_SIZE: u64 = 0x2_0000_0000;

/// Turns the bytes of a stream into commands and back. It holds nothing but the
/// length above which a frame is refused.
#[derive(Debug)]
pub struct CommandCoderc {
    max_size: u64,
}

impl CommandCoderc {
    pub closed spec fn max_size(&self) -> int {
        self.max_size as int
    }

    /// A codec that accepts frames of up to `DEFAULT_MAX_SIZE` bytes.
    pub fn new() -> (codec: CommandCoderc)
        ensures
            codec.max_size() == DEFAULT_MAX_SIZE,
    {
        CommandCoderc { max_size: DEFAULT_MAX_SIZE }
    }

    /// A codec that accepts frames of up to `max_size` bytes.
    pub fn with_max_size(max_size: u64) -> (codec: CommandCoderc)
        ensures
            codec.max_size() == max_size,
    {
        CommandCoderc { max_size }
    }

    /// Takes one command from the front of `src`, if a whole frame is there. A
    /// whole frame is taken out of `src`, whether or not it holds a command. Where
    /// there is none yet, or one that is refused for its lengths, `src` is left as
    /// it was.
    pub fn decode(&mut self, src: &mut BytesMut) -> (r: Result<
        Option<RemotingCommand>,
        DecodeError,
    >)
        ensures
            final(self).max_size() == old(self).max_size(),
            match frame_status(buffer_bytes(*old(src)), old(self).max_size()) {
                FrameStatus::Incomplete => r matches Ok(None) && buffer_bytes(*final(src))
                    == buffer_bytes(*old(src)),
                FrameStatus::Oversized => r == Err::<Option<RemotingCommand>, DecodeError>(
                    DecodeError::Protocol(ProtocolError::Oversized),
                ) && buffer_bytes(*final(src)) == buffer_bytes(*old(src)),
                FrameStatus::Malformed => r == Err::<Option<RemotingCommand>, DecodeError>(
                    DecodeError::Protocol(ProtocolError::Malformed),
                ) && buffer_bytes(*final(src)) == buffer_bytes(*old(src)),
                FrameStatus::Complete(frame) => buffer_bytes(*final(src)) == buffer_bytes(
                    *old(src),
                ).skip(4 + declared_length(buffer_bytes(*old(src)))) && match CommandView::of_frame(
                    frame,
                ) {
                    Ok(command) => r matches Ok(Some(c)) && c@ == command,
                    Err(e) => r == Err::<Option<RemotingCommand>, DecodeError>(e),
                },
            },
    {
        match WireFrame::decode(src, self.max_size) {
            Err(e) => Err(DecodeError::Protocol(e)),
            Ok(None) => Ok(None),
            Ok(Some(frame)) => match RemotingCommand::from_frame(frame) {
                Ok(command) => Ok(Some(command)),
                Err(e) => Err(e),
            },
        }
    }

    /// Appends the frame of `item` to `dst`. A command whose lengths do not fit
    /// the fields of a frame is refused, and `dst` left as it was.
    pub fn encode(&mut self, item: RemotingCommand, dst: &mut BytesMut) -> (r: Result<
        (),
        ProtocolError,
    >)
        ensures
            final(self).max_size() == old(self).max_size(),
            match r {
                Ok(_) => item@.frame().fits() && buffer_bytes(*final(dst)) == buffer_bytes(
                    *old(dst),
                ) + item@.frame().wire(),
                Err(e) => !item@.frame().fits() && buffer_bytes(*final(dst)) == buffer_bytes(
                    *old(dst),
                ) && e == item@.frame().length_error(),
            },
    {
        item.to_frame().encode(dst)
    }
}

} // verus!
