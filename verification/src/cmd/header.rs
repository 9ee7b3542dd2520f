use crate::cmd::fields::{
    field_members, keys_unique, lemma_field_members_printable, pairs_view, put, put_all, ExtFields,
    FieldSeq,
};
use crate::cmd::request_code::RequestCode;
use crate::error::HeaderDecodeError;
use crate::util::strict::{json_text, parse_json, print_json, strict_json};
use crate::util::value::{member_trees, object_of, push_member, JsonTree, JsonValue};
use vstd::prelude::*;
use vstd::string::StringExecFns;
use vstd::utf8::encode_utf8;

verus! {

/// The version of the protocol that this client speaks.
pub const PROTOCOL_VERSION: i32 = 317;

/// The correlation id of a connection that has one request under way at a time.
pub const SINGLE_SHOT_OPAQUE: i32 = 1;

/// The implementation that a command comes from. The server uses it for
/// diagnostics only.
#[allow(non_camel_case_types)]
#[derive(Debug, Clone, Copy, PartialEq, Eq, Structural)]
pub enum LanguageCode {
    JAVA,
    GO,
    RUST,
}

impl LanguageCode {
    /// The name of a language on the wire.
    pub open spec fn name(self) -> Seq<char> {
        match self {
            LanguageCode::JAVA => "JAVA"@,
            LanguageCode::GO => "GO"@,
            LanguageCode::RUST => "RUST"@,
        }
    }

    /// The language that a name on the wire stands for. A name that is not known
    /// stands for this implementation's own.
    pub open spec fn of_name(name: Seq<char>) -> LanguageCode {
        if name == "JAVA"@ {
            LanguageCode::JAVA
        } else if name == "GO"@ {
            LanguageCode::GO
        } else {
            LanguageCode::RUST
        }
    }

    pub fn as_str(&self) -> (name: &'static str)
        ensures
            name@ == self.name(),
    {
        match self {
            LanguageCode::JAVA => "JAVA",
            LanguageCode::GO => "GO",
            LanguageCode::RUST => "RUST",
        }
    }

    pub fn from_name(name: &str) -> (language: LanguageCode)
        ensures
            language == LanguageCode::of_name(name@),
    {
        let name = String::from_str(name);
        if name == String::from_str("JAVA") {
            LanguageCode::JAVA
        } else if name == String::from_str("GO") {
            LanguageCode::GO
        } else {
            LanguageCode::RUST
        }
    }
}

/// The pairs that the members of a JSON object give, each set in turn, where
/// every member is a text.
pub open spec fn text_fields(members: Seq<(Seq<char>, JsonTree)>) -> Option<FieldSeq>
    decreases members.len(),
{
    if members.len() == 0 {
        Some(FieldSeq::empty())
    } else {
        match (text_fields(members.drop_last()), members.last().1) {
            (Some(fields), JsonTree::Text(value)) => Some(put(fields, members.last().0, value)),
            _ => None,
        }
    }
}

/// What an operation adds to the header of its request: named string parameters.
pub trait CustomHeader {
    /// The parameters, as pairs of a name and a text.
    spec fn fields(&self) -> FieldSeq;

    fn encode(&self) -> (pairs: Vec<(String, String)>)
        ensures
            pairs_view(pairs@) == self.fields(),
    ;
}

/// A header as a value.
pub struct HeaderView {
    pub code: i32,
    pub flag: i32,
    pub language: LanguageCode,
    pub opaque: i32,
    pub serialize_type_current_rpc: Seq<char>,
    pub version: i32,
    pub remark: Seq<char>,
    pub ext_fields: FieldSeq,
}

impl HeaderView {
    /// The JSON document of a header, under the names that the wire uses. The
    /// remark is not sent.
    pub open spec fn tree(self) -> JsonTree {
        JsonTree::Object(
            seq![
                ("code"@, JsonTree::Int(self.code as i64)),
                ("flag"@, JsonTree::Int(self.flag as i64)),
                ("language"@, JsonTree::Text(self.language.name())),
                ("opaque"@, JsonTree::Int(self.opaque as i64)),
                ("serializeTypeCurrentRPC"@, JsonTree::Text(self.serialize_type_current_rpc)),
                ("version"@, JsonTree::Int(self.version as i64)),
                ("extFields"@, JsonTree::Object(field_members(self.ext_fields))),
            ],
        )
    }

    /// The extension fields of a document: none where it has no member of that
    /// name, and otherwise the texts of an object.
    pub open spec fn ext_fields_of(tree: JsonTree) -> Option<FieldSeq> {
        match tree.member("extFields"@) {
            None => Some(FieldSeq::empty()),
            Some(JsonTree::Object(members)) => text_fields(members),
            Some(_) => None,
        }
    }

    /// The remark of a document: its text where it has one, and otherwise none.
    pub open spec fn remark_of(tree: JsonTree) -> Seq<char> {
        match tree.member_text("remark"@) {
            Some(text) => text,
            None => Seq::empty(),
        }
    }

    /// The header that a JSON document holds. The numbers, the language and the
    /// serialization type are required; members under other names are ignored.
    pub open spec fn of_tree(tree: JsonTree) -> Result<HeaderView, HeaderDecodeError> {
        match (
            tree.member_int32("code"@),
            tree.member_int32("flag"@),
            tree.member_text("language"@),
            tree.member_int32("opaque"@),
            tree.member_text("serializeTypeCurrentRPC"@),
            tree.member_int32("version"@),
            Self::ext_fields_of(tree),
        ) {
            (
                Some(code),
                Some(flag),
                Some(language),
                Some(opaque),
                Some(serialize_type),
                Some(version),
                Some(ext_fields),
            ) => Ok(
                HeaderView {
                    code,
                    flag,
                    language: LanguageCode::of_name(language),
                    opaque,
                    serialize_type_current_rpc: serialize_type,
                    version,
                    remark: Self::remark_of(tree),
                    ext_fields,
                },
            ),
            _ => Err(HeaderDecodeError::Field),
        }
    }

    /// The header that the bytes of a header segment hold.
    pub open spec fn of_bytes(bytes: Seq<u8>) -> Result<HeaderView, HeaderDecodeError> {
        match strict_json(bytes) {
            Some(tree) => Self::of_tree(tree),
            None => Err(HeaderDecodeError::Syntax),
        }
    }

    /// The header of a request for the operation with the given number and with
    /// the parameters of `custom`, each set in turn.
    pub open spec fn built<T: CustomHeader>(code: i32, custom: Option<T>) -> HeaderView {
        HeaderView {
            ext_fields: match custom {
                Some(custom) => put_all(FieldSeq::empty(), custom.fields()),
                None => FieldSeq::empty(),
            },
            ..Self::request(code)
        }
    }

    /// The header of a request for the operation with the given number.
    pub open spec fn request(code: i32) -> HeaderView {
        HeaderView {
            code,
            flag: 0,
            language: LanguageCode::RUST,
            opaque: SINGLE_SHOT_OPAQUE,
            serialize_type_current_rpc: Seq::empty(),
            version: PROTOCOL_VERSION,
            remark: Seq::empty(),
            ext_fields: FieldSeq::empty(),
        }
    }
}

/// The metadata of a request or a response.
#[derive(Debug)]
pub struct Header {
    code: i32,
    flag: i32,
    language: LanguageCode,
    opaque: i32,
    serialize_type_current_rpc: String,
    version: i32,
    remark: String,
    ext_fields: ExtFields,
}

impl View for Header {
    type V = HeaderView;

    closed spec fn view(&self) -> HeaderView {
        HeaderView {
            code: self.code,
            flag: self.flag,
            language: self.language,
            opaque: self.opaque,
            serialize_type_current_rpc: self.serialize_type_current_rpc@,
            version: self.version,
            remark: self.remark@,
            ext_fields: self.ext_fields@,
        }
    }
}

impl Header {
    pub fn new(request_code: RequestCode) -> (header: Header)
        ensures
            header@ == HeaderView::request(request_code.wire_code() as i32),
    {
        Header {
            code: request_code.code(),
            flag: 0,
            language: LanguageCode::RUST,
            opaque: SINGLE_SHOT_OPAQUE,
            serialize_type_current_rpc: String::new(),
            version: PROTOCOL_VERSION,
            remark: String::new(),
            ext_fields: ExtFields::new(),
        }
    }

    /// The header of a request for the operation `code` with the parameters of
    /// `custom_header`, each set in turn.
    pub fn build<T: CustomHeader>(code: RequestCode, custom_header: Option<T>) -> (header: Header)
        ensures
            header@ == HeaderView::built(code.wire_code() as i32, custom_header),
    {
        let mut header = Header::new(code);
        if let Some(data) = custom_header {
            let pairs = data.encode();
            let ghost all = pairs_view(pairs@);
            let mut i: usize = 0;
            assert(all.skip(0) =~= all);
            while i < pairs.len()
                invariant
                    i <= pairs.len(),
                    all == pairs_view(pairs@),
                    header@ == (HeaderView {
                        ext_fields: header@.ext_fields,
                        ..HeaderView::request(code.wire_code() as i32)
                    }),
                    put_all(header@.ext_fields, all.skip(i as int)) == put_all(
                        FieldSeq::empty(),
                        all,
                    ),
                decreases pairs.len() - i,
            {
                assert(all.skip(i as int).skip(1) =~= all.skip(i + 1));
                assert(all[i as int] == (pairs@[i as int].0@, pairs@[i as int].1@));
                header.put_ext_field(pairs[i].0.clone(), pairs[i].1.clone());
                i = i + 1;
            }
        }
        header
    }

    pub fn code(&self) -> (code: i32)
        ensures
            code == self@.code,
    {
        self.code
    }

    pub fn flag(&self) -> (flag: i32)
        ensures
            flag == self@.flag,
    {
        self.flag
    }

    pub fn language(&self) -> (language: LanguageCode)
        ensures
            language == self@.language,
    {
        self.language
    }

    pub fn opaque(&self) -> (opaque: i32)
        ensures
            opaque == self@.opaque,
    {
        self.opaque
    }

    pub fn serialize_type_current_rpc(&self) -> (name: String)
        ensures
            name@ == self@.serialize_type_current_rpc,
    {
        self.serialize_type_current_rpc.clone()
    }

    pub fn version(&self) -> (version: i32)
        ensures
            version == self@.version,
    {
        self.version
    }

    pub fn remark(&self) -> (remark: &String)
        ensures
            remark@ == self@.remark,
    {
        &self.remark
    }

    pub fn ext_fields(&self) -> (fields: &ExtFields)
        ensures
            fields@ == self@.ext_fields,
    {
        &self.ext_fields
    }

    /// Sets one extension field.
    pub fn put_ext_field(&mut self, key: String, value: String)
        ensures
            final(self)@ == (HeaderView {
                ext_fields: put(old(self)@.ext_fields, key@, value@),
                ..old(self)@
            }),
    {
        self.ext_fields.insert(key, value);
    }

    /// The JSON document of this header.
    pub fn to_json(&self) -> (json: JsonValue)
        ensures
            json@ == self@.tree(),
            json@.printable(),
    {
        let ext_fields = self.ext_fields.to_json();
        proof {
            lemma_header_tree_printable(self@);
        }
        let mut members: Vec<(String, JsonValue)> = Vec::new();
        assert(member_trees(members@) =~= Seq::empty());
        push_member(&mut members, "code", JsonValue::Int(self.code as i64));
        push_member(&mut members, "flag", JsonValue::Int(self.flag as i64));
        push_member(
            &mut members,
            "language",
            JsonValue::Text(String::from_str(self.language.as_str())),
        );
        push_member(&mut members, "opaque", JsonValue::Int(self.opaque as i64));
        push_member(
            &mut members,
            "serializeTypeCurrentRPC",
            JsonValue::Text(self.serialize_type_current_rpc.clone()),
        );
        push_member(&mut members, "version", JsonValue::Int(self.version as i64));
        push_member(&mut members, "extFields", ext_fields);
        assert(member_trees(members@) =~= self@.tree()->Object_0);
        object_of(members)
    }

    /// The JSON text of this header.
    pub fn encode(&self) -> (text: String)
        ensures
            text@ == json_text(self@.tree()),
    {
        let json = self.to_json();
        print_json(&json)
    }

    /// The extension fields that a JSON document holds.
    fn ext_fields_from_json(json: &JsonValue) -> (r: Option<ExtFields>)
        ensures
            match r {
                Some(fields) => HeaderView::ext_fields_of(json@) == Some(fields@),
                None => HeaderView::ext_fields_of(json@) is None,
            },
    {
        let mut fields = ExtFields::new();
        match json.get("extFields") {
            None => Some(fields),
            Some(value) => match value.as_object() {
                None => None,
                Some(members) => {
                    let ghost all = member_trees(members@);
                    let mut i: usize = 0;
                    assert(all.take(0) =~= Seq::empty());
                    while i < members.len()
                        invariant
                            i <= members.len(),
                            all == member_trees(members@),
                            json@.member("extFields"@) == Some(JsonTree::Object(all)),
                            text_fields(all.take(i as int)) == Some(fields@),
                        decreases members.len() - i,
                    {
                        let ghost next = all.take(i + 1);
                        assert(next.drop_last() =~= all.take(i as int));
                        assert(next.last() == all[i as int]);
                        match members[i].1.as_text() {
                            Some(text) => {
                                fields.insert(members[i].0.clone(), text.clone());
                            },
                            None => {
                                proof {
                                    assert(text_fields(next) is None);
                                    lemma_text_fields_prefix(all, i + 1);
                                }
                                return None;
                            },
                        }
                        i = i + 1;
                    }
                    assert(all.take(i as int) =~= all);
                    Some(fields)
                },
            },
        }
    }

    /// The header that a JSON document holds.
    pub fn from_json(json: &JsonValue) -> (r: Result<Header, HeaderDecodeError>)
        ensures
            match HeaderView::of_tree(json@) {
                Ok(header) => r matches Ok(h) && h@ == header,
                Err(e) => r == Err::<Header, HeaderDecodeError>(e),
            },
    {
        let code = json.get_i32("code");
        let flag = json.get_i32("flag");
        let language = json.get_text("language");
        let opaque = json.get_i32("opaque");
        let serialize_type = json.get_text("serializeTypeCurrentRPC");
        let version = json.get_i32("version");
        let ext_fields = Self::ext_fields_from_json(json);
        let remark = match json.get_text("remark") {
            Some(text) => text.clone(),
            None => String::new(),
        };
        match (code, flag, language, opaque, serialize_type, version, ext_fields) {
            (
                Some(code),
                Some(flag),
                Some(language),
                Some(opaque),
                Some(serialize_type),
                Some(version),
                Some(ext_fields),
            ) => Ok(
                Header {
                    code,
                    flag,
                    language: LanguageCode::from_name(language.as_str()),
                    opaque,
                    serialize_type_current_rpc: serialize_type.clone(),
                    version,
                    remark,
                    ext_fields,
                },
            ),
            _ => Err(HeaderDecodeError::Field),
        }
    }

    /// The header that the bytes of a header segment hold.
    pub fn parse_bytes(bytes: &[u8]) -> (r: Result<Header, HeaderDecodeError>)
        ensures
            match HeaderView::of_bytes(bytes@) {
                Ok(header) => r matches Ok(h) && h@ == header,
                Err(e) => r == Err::<Header, HeaderDecodeError>(e),
            },
    {
        match parse_json(bytes) {
            Some(json) => Self::from_json(&json),
            None => Err(HeaderDecodeError::Syntax),
        }
    }

    /// The header that JSON text holds.
    pub fn parse(json_data: String) -> (r: Result<Header, HeaderDecodeError>)
        ensures
            match HeaderView::of_bytes(encode_utf8(json_data@)) {
                Ok(header) => r matches Ok(h) && h@ == header,
                Err(e) => r == Err::<Header, HeaderDecodeError>(e),
            },
    {
        Self::parse_bytes(json_data.as_str().as_bytes())
    }
}

/// The document of a header can be written: the names of its members differ
/// from each other, and so do the names of its extension fields.
pub proof fn lemma_header_tree_printable(header: HeaderView)
    requires
        keys_unique(header.ext_fields),
    ensures
        header.tree().printable(),
{
    lemma_field_members_printable(header.ext_fields);
    let members = header.tree()->Object_0;
    assert forall|i: int| 0 <= i < members.len() implies (#[trigger] members[i]).1.printable() by {
    }
    reveal_strlit("code");
    reveal_strlit("flag");
    reveal_strlit("language");
    reveal_strlit("opaque");
    reveal_strlit("serializeTypeCurrentRPC");
    reveal_strlit("version");
    reveal_strlit("extFields");
    assert("code"@.len() == 4 && "flag"@.len() == 4 && "language"@.len() == 8);
    assert("opaque"@.len() == 6 && "serializeTypeCurrentRPC"@.len() == 23);
    assert("version"@.len() == 7 && "extFields"@.len() == 9);
    assert("code"@[0] != "flag"@[0]);
}

/// Where one member of an object is no text, the object gives no fields.
pub proof fn lemma_text_fields_prefix(members: Seq<(Seq<char>, JsonTree)>, n: int)
    requires
        0 <= n <= members.len(),
        text_fields(members.take(n)) is None,
    ensures
        text_fields(members) is None,
    decreases members.len() - n,
{
    if n < members.len() {
        assert(members.take(n + 1).drop_last() =~= members.take(n));
        lemma_text_fields_prefix(members, n + 1);
    } else {
        assert(members.take(n) =~= members);
    }
}

} // verus!
