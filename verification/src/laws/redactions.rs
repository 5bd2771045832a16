//! What logs show of identifiers, and what they hide.

use vstd::prelude::*;
use vstd::string::*;
use crate::laws::characters;
use crate::redact;
use crate::redact::{IdPart, IdPartModel};
use crate::text;

verus! {

/// Whether a segment is a session's uuid behind one of the two prefixes that mark it.
pub open spec fn marks_session(segment: Seq<char>, uuid: Seq<char>) -> bool {
    uuid.len() > 0 && (segment == "acp_"@ + uuid || segment == "sess_"@ + uuid)
}

/// Whether the identities of a platform are private.
pub open spec fn is_messenger(platform: Seq<char>) -> bool {
    platform == "line"@ || platform == "telegram"@
}

/// LINE and Telegram are private platforms, and no others are.
pub proof fn lemma_messengers_are_private(platform: &str, r: bool)
    requires
        call_ensures(redact::is_private_messaging_platform, (platform,), r),
    ensures
        r <==> is_messenger(platform@),
{
}

/// Safe observability is on when its variable is `1` or `true`, and off otherwise.
pub proof fn lemma_safety_is_switched_on(setting: Option<&str>, r: bool)
    requires
        call_ensures(redact::safe_observability_enabled, (setting,), r),
    ensures
        setting is None ==> !r,
        setting is Some ==> (r <==> setting->0@ == "1"@ || setting->0@ == "true"@),
{
}

/// A tag is a hash sign and the first four bytes of a digest, two hexadecimal digits each.
pub proof fn lemma_tags_are_short_digests(digest: &[u8], r: String, k: int)
    requires
        digest@.len() >= 4,
        call_ensures(redact::tag_of_digest, (digest,), r),
        0 <= k < 4,
    ensures
        r@.len() == 9,
        r@[0] == '#',
        digest@[k] == 16 * characters::hex_value(r@[1 + 2 * k] as int) + characters::hex_value(
            r@[2 + 2 * k] as int,
        ),
        48 <= r@[1 + 2 * k] as int <= 57 || 97 <= r@[1 + 2 * k] as int <= 102,
        48 <= r@[2 + 2 * k] as int <= 57 || 97 <= r@[2 + 2 * k] as int <= 102,
{
    reveal_strlit("#");
    let d = digest@.take(4);
    lemma_hex_at(d, k);
    assert(r@ == "#"@ + text::hex(d));
    assert(r@[1 + 2 * k] == text::hex(d)[2 * k]);
    assert(r@[2 + 2 * k] == text::hex(d)[2 * k + 1]);
}

proof fn lemma_hex_at(d: Seq<u8>, k: int)
    requires
        0 <= k < d.len(),
    ensures
        text::hex(d).len() == 2 * d.len(),
        d[k] == 16 * characters::hex_value(text::hex(d)[2 * k] as int) + characters::hex_value(
            text::hex(d)[2 * k + 1] as int,
        ),
        48 <= text::hex(d)[2 * k] as int <= 57 || 97 <= text::hex(d)[2 * k] as int <= 102,
        48 <= text::hex(d)[2 * k + 1] as int <= 57 || 97 <= text::hex(d)[2 * k + 1] as int <= 102,
    decreases d.len(),
{
    let rest = d.drop_last();
    assert(rest.push(d.last()) =~= d);
    characters::lemma_hexadecimal(rest, d.last());
    if rest.len() > 0 {
        lemma_hex_at(
            rest,
            if k < rest.len() {
                k
            } else {
                0
            },
        );
    } else {
        assert(rest =~= Seq::empty());
    }
    if k < rest.len() {
        let front = text::hex(d).take(text::hex(rest).len() as int);
        assert(front[2 * k] == text::hex(d)[2 * k]);
        assert(front[2 * k + 1] == text::hex(d)[2 * k + 1]);
    }
}

/// The tag of a text is the tag of the SHA-256 digest of its UTF-8 encoding.
pub proof fn lemma_texts_are_tagged_by_their_digest(s: &str, r: String, digest: &[u8], t: String)
    requires
        call_ensures(redact::hash_tag, (s,), r),
        digest@ == redact::sha256_digest(vstd::utf8::encode_utf8(s@)),
        digest@.len() >= 4,
        call_ensures(redact::tag_of_digest, (digest,), t),
    ensures
        r@ == t@,
{
}

/// The segments of an identifier stand between colons. Behind a private platform all of them are
/// hidden while safe observability is on. Otherwise a session's uuid is hidden, without the
/// prefix that marks it, and everything else is shown.
pub proof fn lemma_segments_are_hidden_or_shown(
    s: &str,
    safe: bool,
    r: Vec<IdPart>,
    i: int,
    uuid: Seq<char>,
)
    requires
        call_ensures(redact::split_identifier, (s, safe), r),
        0 <= i < text::pieces(s@, ':').len(),
    ensures
        r@.len() == text::pieces(s@, ':').len(),
        safe && r@.len() > 1 && is_messenger(text::pieces(s@, ':')[0]) ==> r@[i]@ == if i == 0 {
            IdPartModel::Shown(text::pieces(s@, ':')[0])
        } else {
            IdPartModel::Hidden(text::pieces(s@, ':')[i])
        },
        !(safe && r@.len() > 1 && is_messenger(text::pieces(s@, ':')[0])) ==> {
            &&& marks_session(text::pieces(s@, ':')[i], uuid) ==> r@[i]@ == IdPartModel::Hidden(
                uuid,
            )
            &&& r@[i]@ is Hidden ==> marks_session(text::pieces(s@, ':')[i], r@[i]@->Hidden_0)
            &&& r@[i]@ is Shown ==> r@[i]@->Shown_0 == text::pieces(s@, ':')[i]
        },
{
    let segment = text::pieces(s@, ':')[i];
    let models = redact::part_models(r@);
    assert(models.len() == r@.len());
    assert(models[i] == r@[i]@);
    reveal_strlit("acp_");
    reveal_strlit("sess_");
    assert("acp_"@[0] == 'a' && "sess_"@[0] == 's');
    if marks_session(segment, uuid) {
        if segment == "acp_"@ + uuid {
            assert(segment.take(4) =~= "acp_"@);
            assert(segment.skip(4) =~= uuid);
            assert(text::begins_with(segment, "acp_"@));
        } else {
            assert(segment.skip(5) =~= uuid);
            assert(segment.take(5) =~= "sess_"@);
            assert(segment[0] == 's');
            assert(text::begins_with(segment, "sess_"@));
            assert(!text::begins_with(segment, "acp_"@));
        }
    }
    if text::begins_with(segment, "acp_"@) && segment.len() > 4 {
        assert("acp_"@ + segment.skip(4) =~= segment);
    } else if text::begins_with(segment, "sess_"@) && segment.len() > 5 {
        assert("sess_"@ + segment.skip(5) =~= segment);
    }
}

/// A redacted identifier is its parts in their order, joined by colons: what is shown as it is,
/// what is hidden as its tag.
pub proof fn lemma_hidden_parts_are_tagged(
    s: &str,
    safe: bool,
    r: String,
    parts: Vec<IdPart>,
    shown: Seq<Seq<char>>,
)
    requires
        call_ensures(redact::redact_session_ids_with_mode, (s, safe), r),
        call_ensures(redact::split_identifier, (s, safe), parts),
        shown.len() == parts@.len(),
        forall|i: int|
            0 <= i < shown.len() ==> (parts@[i]@ is Shown ==> #[trigger] shown[i]
                == parts@[i]@->Shown_0) && (parts@[i]@ is Hidden ==> shown[i] == redact::text_tag(
                parts@[i]@->Hidden_0,
            )),
    ensures
        r@ == text::joined(shown, ":"@),
{
    let models = redact::part_models(parts@);
    let rendered = redact::id_parts(s@, safe).map_values(
        |p: IdPartModel| redact::rendered_part(p),
    );
    assert(models.len() == parts@.len());
    assert forall|i: int| 0 <= i < shown.len() implies rendered[i] == #[trigger] shown[i] by {
        assert(models[i] == parts@[i]@);
    }
    assert(rendered =~= shown);
}

/// With the variable the redaction is as with the mode that the variable chooses; where it is
/// only for safe observability, nothing is redacted without it.
pub proof fn lemma_redaction_follows_its_setting(
    s: &str,
    setting: Option<&str>,
    on: bool,
    r: String,
    always: String,
    if_safe: String,
)
    requires
        call_ensures(redact::safe_observability_enabled, (setting,), on),
        call_ensures(redact::redact_session_ids_with_mode, (s, on), r),
        call_ensures(redact::redact_session_ids, (s, setting), always),
        call_ensures(redact::redact_session_ids_if_safe, (s, setting), if_safe),
    ensures
        always@ == r@,
        on ==> if_safe@ == r@,
        !on ==> if_safe@ == s@,
{
}

/// The identity of a private platform is hidden as a whole while safe observability is on; every
/// other identity is redacted as any identifier is.
pub proof fn lemma_identities_are_redacted(
    platform: &str,
    id: &str,
    safe: bool,
    r: String,
    tag: String,
    plain: String,
)
    requires
        call_ensures(redact::redact_platform_identity_with_mode, (platform, id, safe), r),
        call_ensures(redact::hash_tag, (id,), tag),
        call_ensures(redact::redact_session_ids_with_mode, (id, safe), plain),
    ensures
        safe && is_messenger(platform@) ==> r@ == tag@,
        !(safe && is_messenger(platform@)) ==> r@ == plain@,
{
}

/// With the variable an identity is redacted as with the mode that the variable chooses; where it
/// is only for safe observability, nothing is redacted without it.
pub proof fn lemma_identities_follow_the_setting(
    platform: &str,
    id: &str,
    setting: Option<&str>,
    on: bool,
    r: String,
    always: String,
    if_safe: String,
)
    requires
        call_ensures(redact::safe_observability_enabled, (setting,), on),
        call_ensures(redact::redact_platform_identity_with_mode, (platform, id, on), r),
        call_ensures(redact::redact_platform_identity, (platform, id, setting), always),
        call_ensures(redact::redact_platform_identity_if_safe, (platform, id, setting), if_safe),
    ensures
        always@ == r@,
        on ==> if_safe@ == r@,
        !on ==> if_safe@ == id@,
{
}

} // verus!
