use crate::cmd::header::PROTOCOL_VERSION;
use crate::cmd::fields::{ExtFields, FieldSeq};
use crate::cmd::plain::{plain_json, plain_tree};
use crate::util::strict::{json_text, print_json};
use crate::util::value::{JsonTree, JsonValue};
use vstd::prelude::*;

verus! {

/// The number that stands for this implementation where the language of a
/// command is a number.
pub const LANGUAGE: i32 = 7;

/// A command whose language is a number, as a value. The body is not part of
/// the header: it travels as bytes of its own.
pub struct CommandView {
    pub code: i32,
    pub language: i32,
    pub version: i32,
    pub opaque: i32,
    pub flag: i32,
    pub remark: Seq<char>,
    pub ext_fields: FieldSeq,
    pub body: Seq<char>,
}

impl CommandView {
    /// The JSON document of the header, each field under its own name.
    pub open spec fn tree(self) -> JsonTree {
        plain_tree(
            self.code,
            JsonTree::Int(self.language as i64),
            self.version,
            self.opaque,
            self.flag,
            self.remark,
            self.ext_fields,
        )
    }
}

/// A command whose language is a number.
#[derive(Debug)]
pub struct Command {
    code: i32,
    language: i32,
    version: i32,
    opaque: i32,
    flag: i32,
    remark: String,
    ext_fields: ExtFields,
    body: String,
}

impl View for Command {
    type V = CommandView;

    closed spec fn view(&self) -> CommandView {
        CommandView {
            code: self.code,
            language: self.language,
            version: self.version,
            opaque: self.opaque,
            flag: self.flag,
            remark: self.remark@,
            ext_fields: self.ext_fields@,
            body: self.body@,
        }
    }
}

impl Command {
    pub fn new(code: i32, body: String) -> (command: Command)
        ensures
            command@ == (CommandView {
                code,
                language: LANGUAGE,
                version: PROTOCOL_VERSION,
                opaque: 1,
                flag: 1,
                remark: Seq::empty(),
                ext_fields: FieldSeq::empty(),
                body: body@,
            }),
    {
        Command {
            code,
            language: LANGUAGE,
            version: PROTOCOL_VERSION,
            opaque: 1,
            flag: 1,
            remark: String::new(),
            ext_fields: ExtFields::new(),
            body,
        }
    }

    pub fn body(&self) -> (body: &String)
        ensures
            body@ == self@.body,
    {
        &self.body
    }

    /// The JSON text of the header of the command.
    pub fn encode(&self) -> (text: String)
        ensures
            text@ == json_text(self@.tree()),
    {
        let json = plain_json(
            self.code,
            JsonValue::Int(self.language as i64),
            self.version,
            self.opaque,
            self.flag,
            &self.remark,
            &self.ext_fields,
        );
        print_json(&json)
    }
}

} // verus!
