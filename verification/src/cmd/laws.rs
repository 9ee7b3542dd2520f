use crate::cmd::command::CommandView;
use crate::cmd::fields::{field_members, keys_unique, lemma_position_none, put, FieldSeq};
use crate::cmd::header::{text_fields, HeaderView, LanguageCode};
use crate::error::DecodeError;
use crate::wire::{declared_length, frame_status, FrameStatus};
use crate::wire_laws::lemma_frame_round_trip;
use crate::util::strict::strict_json;
use crate::util::value::{lemma_find_member_at, lemma_find_member_none};
use vstd::prelude::*;
use vstd::utf8::{encode_utf8_decode_utf8, encode_utf8_valid_utf8};

verus! {

/// The name of a language stands for that language.
pub proof fn lemma_language_name_round_trip(language: LanguageCode)
    ensures
        LanguageCode::of_name(language.name()) == language,
{
    reveal_strlit("JAVA");
    reveal_strlit("GO");
    reveal_strlit("RUST");
    assert("GO"@.len() != "JAVA"@.len());
    assert("RUST"@[0] != "JAVA"@[0]);
    assert("RUST"@.len() != "GO"@.len());
}

/// The object that holds extension fields gives them back, where no name occurs
/// twice among them.
pub proof fn lemma_fields_round_trip(fields: FieldSeq)
    requires
        keys_unique(fields),
    ensures
        text_fields(field_members(fields)) == Some(fields),
    decreases fields.len(),
{
    let members = field_members(fields);
    if fields.len() == 0 {
        assert(fields =~= FieldSeq::empty());
    } else {
        let front = fields.drop_last();
        assert(members.drop_last() =~= field_members(front));
        assert(keys_unique(front)) by {
            assert forall|i: int, j: int| 0 <= i < j < front.len() implies (#[trigger] front[i]).0
                != (#[trigger] front[j]).0 by {
                assert(fields[i].0 != fields[j].0);
            }
        }
        lemma_fields_round_trip(front);
        assert forall|j: int| 0 <= j < front.len() implies (#[trigger] front[j]).0
            != fields.last().0 by {
            assert(fields[j].0 != fields[fields.len() - 1].0);
        }
        lemma_position_none(front, fields.last().0);
        assert(put(front, fields.last().0, fields.last().1) =~= fields);
    }
}

/// Header round trip: the document of a header holds that header again, with its
/// numbers, its language, its serialization type and its extension fields. The
/// remark is not part of the document, and comes back empty.
pub proof fn lemma_header_round_trip(header: HeaderView)
    requires
        keys_unique(header.ext_fields),
    ensures
        HeaderView::of_tree(header.tree()) == Ok::<HeaderView, crate::error::HeaderDecodeError>(
            HeaderView { remark: Seq::empty(), ..header },
        ),
{
    reveal_strlit("code");
    reveal_strlit("flag");
    reveal_strlit("language");
    reveal_strlit("opaque");
    reveal_strlit("serializeTypeCurrentRPC");
    reveal_strlit("version");
    reveal_strlit("extFields");
    reveal_strlit("remark");
    let tree = header.tree();
    let members = tree->Object_0;
    assert("code"@.len() == 4 && "flag"@.len() == 4 && "language"@.len() == 8);
    assert("opaque"@.len() == 6 && "serializeTypeCurrentRPC"@.len() == 23);
    assert("version"@.len() == 7 && "extFields"@.len() == 9 && "remark"@.len() == 6);
    assert("code"@[0] != "flag"@[0]);
    assert("opaque"@[0] != "remark"@[0]);
    lemma_find_member_at(members, "code"@, 0);
    lemma_find_member_at(members, "flag"@, 1);
    lemma_find_member_at(members, "language"@, 2);
    lemma_find_member_at(members, "opaque"@, 3);
    lemma_find_member_at(members, "serializeTypeCurrentRPC"@, 4);
    lemma_find_member_at(members, "version"@, 5);
    lemma_find_member_at(members, "extFields"@, 6);
    lemma_find_member_none(members, "remark"@);
    lemma_language_name_round_trip(header.language);
    lemma_fields_round_trip(header.ext_fields);
}

/// WireFrame round trip: a stream that begins with the frame of a command holds that
/// frame, and what follows the frame stays. The frame holds the command again,
/// with the same header but for the remark and with the same body, provided that
/// its header text is read back as the document that it was written from.
pub proof fn lemma_command_round_trip(command: CommandView, rest: Seq<u8>, max: int)
    requires
        keys_unique(command.header.ext_fields),
        command.frame().fits(),
        command.frame().total_length() <= max,
    ensures
        frame_status(command.frame().wire() + rest, max) == FrameStatus::Complete(command.frame()),
        (command.frame().wire() + rest).skip(
            4 + declared_length(command.frame().wire() + rest),
        ) == rest,
        strict_json(command.frame().header) == Some(command.header.tree())
            ==> CommandView::of_frame(command.frame()) == Ok::<CommandView, DecodeError>(
            CommandView {
                header: HeaderView { remark: Seq::empty(), ..command.header },
                body: command.body,
            },
        ),
{
    lemma_frame_round_trip(command.frame(), rest, max);
    lemma_header_round_trip(command.header);
    encode_utf8_valid_utf8(command.body);
    encode_utf8_decode_utf8(command.body);
}

} // verus!
