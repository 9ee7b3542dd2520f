use crate::buffer::buffer_bytes;
use crate::cmd::header::PROTOCOL_VERSION;
use crate::cmd::fields::{ExtFields, FieldSeq};
use crate::cmd::plain::{plain_json, plain_tree};
use crate::cmd::request_code::RequestCode;
use crate::error::ProtocolError;
use crate::wire::{WireFrame, FrameView, JSON_TYPE_TAG};
use crate::util::strict::{json_text, print_json};
use crate::util::value::{JsonTree, JsonValue};
use bytes::BytesMut;
use vstd::prelude::*;
use vstd::slice::slice_to_vec;
use vstd::string::StringExecFns;
use vstd::utf8::encode_utf8;

verus! {

/// A request for the brokers of the cluster as a value.
pub struct BrokerCommandView {
    pub code: i32,
    pub language: Seq<char>,
    pub version: i32,
    pub opaque: i32,
    pub flag: i32,
    pub remark: Seq<char>,
    pub ext_fields: FieldSeq,
}

impl BrokerCommandView {
    /// The JSON document of the request, each field under its own name.
    pub open spec fn tree(self) -> JsonTree {
        plain_tree(
            self.code,
            JsonTree::Text(self.language),
            self.version,
            self.opaque,
            self.flag,
            self.remark,
            self.ext_fields,
        )
    }

    /// The frame of the request: its document as JSON text, and no body.
    pub open spec fn frame(self) -> FrameView {
        FrameView {
            type_tag: JSON_TYPE_TAG,
            header: encode_utf8(json_text(self.tree())),
            body: Seq::empty(),
        }
    }
}

/// A request for the brokers of the cluster.
#[derive(Debug)]
pub struct BrokerCommand {
    code: i32,
    language: String,
    version: i32,
    opaque: i32,
    flag: i32,
    remark: String,
    ext_fields: ExtFields,
}

impl View for BrokerCommand {
    type V = BrokerCommandView;

    closed spec fn view(&self) -> BrokerCommandView {
        BrokerCommandView {
            code: self.code,
            language: self.language@,
            version: self.version,
            opaque: self.opaque,
            flag: self.flag,
            remark: self.remark@,
            ext_fields: self.ext_fields@,
        }
    }
}

impl BrokerCommand {
    pub fn new() -> (command: BrokerCommand)
        ensures
            command@ == (BrokerCommandView {
                code: RequestCode::GetBrokerClusterInfo.wire_code() as i32,
                language: "GO"@,
                version: PROTOCOL_VERSION,
                opaque: 1,
                flag: 0,
                remark: Seq::empty(),
                ext_fields: FieldSeq::empty(),
            }),
    {
        BrokerCommand {
            code: RequestCode::GetBrokerClusterInfo.code(),
            language: String::from_str("GO"),
            version: PROTOCOL_VERSION,
            opaque: 1,
            flag: 0,
            remark: String::new(),
            ext_fields: ExtFields::new(),
        }
    }

    /// The JSON text of the request.
    pub fn encode(&self) -> (text: String)
        ensures
            text@ == json_text(self@.tree()),
    {
        let json = plain_json(
            self.code,
            JsonValue::Text(self.language.clone()),
            self.version,
            self.opaque,
            self.flag,
            &self.remark,
            &self.ext_fields,
        );
        print_json(&json)
    }

    /// The bytes of the frame of the request, length prefix and all. A request
    /// whose text does not fit the length fields of a frame is refused.
    pub fn into_bytes(&self) -> (r: Result<BytesMut, ProtocolError>)
        ensures
            match r {
                Ok(buffer) => self@.frame().fits() && buffer_bytes(buffer) == self@.frame().wire(),
                Err(e) => !self@.frame().fits() && e == self@.frame().length_error(),
            },
    {
        let header_encode = self.encode();
        let frame = WireFrame {
            type_tag: JSON_TYPE_TAG,
            header: slice_to_vec(header_encode.as_str().as_bytes()),
            body: Vec::new(),
        };
        let mut buffer = BytesMut::new();
        match frame.encode(&mut buffer) {
            Ok(_) => {
                assert(buffer_bytes(buffer) =~= self@.frame().wire());
                Ok(buffer)
            },
            Err(e) => Err(e),
        }
    }
}

} // verus!
