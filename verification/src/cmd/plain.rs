use crate::cmd::fields::{
    field_members, keys_unique, lemma_field_members_printable, ExtFields, FieldSeq,
};
use crate::util::value::{member_trees, object_of, push_member, JsonTree, JsonValue};
use vstd::prelude::*;

verus! {

/// The JSON document of a command that writes each of its fields under the name
/// that the field has in the command. Only the language differs from one such
/// command to another: it is a text in one and a number in another.
pub open spec fn plain_tree(
    code: i32,
    language: JsonTree,
    version: i32,
    opaque: i32,
    flag: i32,
    remark: Seq<char>,
    ext_fields: FieldSeq,
) -> JsonTree {
    JsonTree::Object(
        seq![
            ("code"@, JsonTree::Int(code as i64)),
            ("language"@, language),
            ("version"@, JsonTree::Int(version as i64)),
            ("opaque"@, JsonTree::Int(opaque as i64)),
            ("flag"@, JsonTree::Int(flag as i64)),
            ("remark"@, JsonTree::Text(remark)),
            ("ext_fields"@, JsonTree::Object(field_members(ext_fields))),
        ],
    )
}

/// Such a document can be written where its language can: the names of its
/// members differ from each other, and so do the names of its extension fields.
pub proof fn lemma_plain_tree_printable(
    code: i32,
    language: JsonTree,
    version: i32,
    opaque: i32,
    flag: i32,
    remark: Seq<char>,
    ext_fields: FieldSeq,
)
    requires
        language.printable(),
        keys_unique(ext_fields),
    ensures
        plain_tree(code, language, version, opaque, flag, remark, ext_fields).printable(),
{
    lemma_field_members_printable(ext_fields);
    let members = plain_tree(code, language, version, opaque, flag, remark, ext_fields)->Object_0;
    assert forall|i: int| 0 <= i < members.len() implies (#[trigger] members[i]).1.printable() by {
    }
    reveal_strlit("code");
    reveal_strlit("language");
    reveal_strlit("version");
    reveal_strlit("opaque");
    reveal_strlit("flag");
    reveal_strlit("remark");
    reveal_strlit("ext_fields");
    assert("code"@.len() == 4 && "language"@.len() == 8 && "version"@.len() == 7);
    assert("opaque"@.len() == 6 && "flag"@.len() == 4 && "remark"@.len() == 6);
    assert("ext_fields"@.len() == 10);
    assert("code"@[0] != "flag"@[0]);
    assert("opaque"@[0] != "remark"@[0]);
}

/// Builds such a document.
pub fn plain_json(
    code: i32,
    language: JsonValue,
    version: i32,
    opaque: i32,
    flag: i32,
    remark: &String,
    ext_fields: &ExtFields,
) -> (json: JsonValue)
    ensures
        json@ == plain_tree(code, language@, version, opaque, flag, remark@, ext_fields@),
        language@.printable() ==> json@.printable(),
{
    let ghost tree = plain_tree(code, language@, version, opaque, flag, remark@, ext_fields@);
    let fields = ext_fields.to_json();
    proof {
        if language@.printable() {
            lemma_plain_tree_printable(
                code,
                language@,
                version,
                opaque,
                flag,
                remark@,
                ext_fields@,
            );
        }
    }
    let mut members: Vec<(String, JsonValue)> = Vec::new();
    assert(member_trees(members@) =~= Seq::empty());
    push_member(&mut members, "code", JsonValue::Int(code as i64));
    push_member(&mut members, "language", language);
    push_member(&mut members, "version", JsonValue::Int(version as i64));
    push_member(&mut members, "opaque", JsonValue::Int(opaque as i64));
    push_member(&mut members, "flag", JsonValue::Int(flag as i64));
    push_member(&mut members, "remark", JsonValue::Text(remark.clone()));
    push_member(&mut members, "ext_fields", fields);
    assert(member_trees(members@) =~= tree->Object_0);
    object_of(members)
}

} // verus!
