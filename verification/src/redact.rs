//! Rendering session-bearing identifiers in logs without handing out the session.
//!
//! An ACP session is addressed two ways and both carry the same uuid: the session id is
//! `sess_<uuid>` and the channel id is `acp_<uuid>`. Either one is enough to resume, so both are
//! credentials, and a redaction that covers one of them covers nothing.
//!
//! Ids also travel embedded: a pool key is `<platform>:<channel_id>`. Redaction therefore goes by
//! the shape of the value, and can be applied to a composite without taking it apart.
//!
//! LINE and Telegram identifiers are private messaging identities and are pseudonymized whenever
//! safe observability is explicitly enabled. Other identifiers remain unchanged: a Discord or
//! Slack channel id is public and operators search for it.

use sha2::Digest;
use vstd::prelude::*;
use vstd::slice::slice_subrange;
use vstd::string::*;
use crate::text;

verus! {

/// The environment variable that enables safe observability.
pub const SAFE_OBSERVABILITY_ENV: &'static str = "OPENAB_SAFE_OBSERVABILITY";

/// The SHA-256 digest of a byte sequence.
pub uninterp spec fn sha256_digest(data: Seq<u8>) -> Seq<u8>;

/// Hashes bytes with `sha2::Sha256::digest`.
///
/// Trusted: the digest is a function of the bytes alone and has 32 bytes.
#[verifier::external_body]
fn sha256(data: &[u8]) -> (digest: Vec<u8>)
    ensures
        digest@ == sha256_digest(data@),
        digest@.len() == 32,
{
    sha2::Sha256::digest(data).to_vec()
}

/// Whether the setting of the environment variable enables safe observability.
pub open spec fn enables_safe_observability(setting: Option<&str>) -> bool {
    match setting {
        Some(value) => value@ == "1"@ || value@ == "true"@,
        None => false,
    }
}

/// Whether the opt-in bounded telemetry and private-platform log policy is enabled, given the
/// setting of [`SAFE_OBSERVABILITY_ENV`].
pub fn safe_observability_enabled(setting: Option<&str>) -> (r: bool)
    ensures
        r == enables_safe_observability(setting),
{
    match setting {
        Some(value) => text::str_eq(value, "1") || text::str_eq(value, "true"),
        None => false,
    }
}

/// One part of an identifier, as it is to be rendered.
#[derive(Debug, Clone, PartialEq, Eq)]
pub enum IdPart {
    /// Shown as it is.
    Shown(String),
    /// Replaced by the tag of what it holds.
    Hidden(String),
}

/// One part of an identifier as a mathematical value.
pub enum IdPartModel {
    Shown(Seq<char>),
    Hidden(Seq<char>),
}

impl View for IdPart {
    type V = IdPartModel;

    open spec fn view(&self) -> IdPartModel {
        match self {
            IdPart::Shown(s) => IdPartModel::Shown(s@),
            IdPart::Hidden(s) => IdPartModel::Hidden(s@),
        }
    }
}

pub open spec fn part_models(parts: Seq<IdPart>) -> Seq<IdPartModel> {
    parts.map_values(|p: IdPart| p@)
}

/// LINE and Telegram carry private messaging identities.
pub open spec fn is_private_platform(platform: Seq<char>) -> bool {
    platform == "line"@ || platform == "telegram"@
}

/// A segment that carries a session's uuid is hidden; its prefix is not part of the tag.
pub open spec fn segment_part(segment: Seq<char>) -> IdPartModel {
    if text::begins_with(segment, "acp_"@) && segment.len() > 4 {
        IdPartModel::Hidden(segment.skip(4))
    } else if text::begins_with(segment, "sess_"@) && segment.len() > 5 {
        IdPartModel::Hidden(segment.skip(5))
    } else {
        IdPartModel::Shown(segment)
    }
}

/// How the parts of an identifier are rendered. Its segments stand between colons. Behind a
/// private messaging platform every segment is hidden once safe observability is enabled.
pub open spec fn id_parts(s: Seq<char>, safe_observability: bool) -> Seq<IdPartModel> {
    let segments = text::pieces(s, ':');
    if safe_observability && segments.len() > 1 && is_private_platform(segments[0]) {
        Seq::new(
            segments.len(),
            |i: int|
                if i == 0 {
                    IdPartModel::Shown(segments[i])
                } else {
                    IdPartModel::Hidden(segments[i])
                },
        )
    } else {
        segments.map_values(|segment: Seq<char>| segment_part(segment))
    }
}

/// The tag of a digest: `#` and its first four bytes in hexadecimal.
pub open spec fn digest_tag(digest: Seq<u8>) -> Seq<char> {
    "#"@ + text::hex(digest.take(4))
}

/// The tag of a text.
pub open spec fn text_tag(s: Seq<char>) -> Seq<char> {
    digest_tag(sha256_digest(vstd::utf8::encode_utf8(s)))
}

pub open spec fn rendered_part(part: IdPartModel) -> Seq<char> {
    match part {
        IdPartModel::Shown(s) => s,
        IdPartModel::Hidden(s) => text_tag(s),
    }
}

/// An identifier with its hidden parts replaced by their tags.
pub open spec fn redacted(s: Seq<char>, safe_observability: bool) -> Seq<char> {
    text::joined(
        id_parts(s, safe_observability).map_values(|p: IdPartModel| rendered_part(p)),
        ":"@,
    )
}

/// The tag of a digest.
pub fn tag_of_digest(digest: &[u8]) -> (r: String)
    requires
        digest@.len() >= 4,
    ensures
        r@ == digest_tag(digest@),
        r@.len() == 9,
{
    let mut tag = String::from_str("#");
    let short = slice_subrange(digest, 0, 4);
    assert(short@ =~= digest@.take(4));
    text::push_hex(&mut tag, short);
    proof {
        reveal_strlit("#");
        text::lemma_hex_len(digest@.take(4));
    }
    tag
}

/// The tag of a text: nine characters that are the same wherever the text occurs.
pub fn hash_tag(s: &str) -> (r: String)
    ensures
        r@ == text_tag(s@),
        r@.len() == 9,
{
    let digest = sha256(s.as_bytes());
    tag_of_digest(digest.as_slice())
}

/// Whether a platform carries private messaging identities.
pub fn is_private_messaging_platform(platform: &str) -> (r: bool)
    ensures
        r == is_private_platform(platform@),
{
    text::str_eq(platform, "line") || text::str_eq(platform, "telegram")
}

/// How one segment is rendered.
fn part_of_segment(segment: &[char]) -> (r: IdPart)
    ensures
        r@ == segment_part(segment@),
{
    if text::starts_with_str(segment, "acp_") && segment.len() > 4 {
        let rest = slice_subrange(segment, 4, segment.len());
        assert(rest@ =~= segment@.skip(4));
        IdPart::Hidden(text::from_chars(rest))
    } else if text::starts_with_str(segment, "sess_") && segment.len() > 5 {
        let rest = slice_subrange(segment, 5, segment.len());
        assert(rest@ =~= segment@.skip(5));
        IdPart::Hidden(text::from_chars(rest))
    } else {
        IdPart::Shown(text::from_chars(segment))
    }
}

/// Takes an identifier apart and decides of each part whether it is hidden.
pub fn split_identifier(s: &str, safe_observability: bool) -> (r: Vec<IdPart>)
    ensures
        part_models(r@) == id_parts(s@, safe_observability),
        r@.len() > 0,
{
    let chars = text::to_chars(s);
    let segments = text::split(chars.as_slice(), ':');
    let private = safe_observability && segments.len() > 1 && is_private_messaging_platform(
        text::from_chars(segments[0].as_slice()).as_str(),
    );
    let ghost texts = text::texts(segments@);
    assert(texts[0] == segments@[0]@);
    let mut parts: Vec<IdPart> = Vec::new();
    let mut i: usize = 0;
    while i < segments.len()
        invariant
            i <= segments@.len(),
            texts == text::texts(segments@),
            parts@.len() == i,
            texts == text::pieces(s@, ':'),
            private == (safe_observability && texts.len() > 1 && is_private_platform(texts[0])),
            forall|j: int|
                0 <= j < i ==> (#[trigger] parts@[j])@ == id_parts(s@, safe_observability)[j],
        decreases segments@.len() - i,
    {
        let segment = segments[i].as_slice();
        assert(texts[i as int] == segment@);
        let part = if !private {
            part_of_segment(segment)
        } else if i == 0 {
            IdPart::Shown(text::from_chars(segment))
        } else {
            IdPart::Hidden(text::from_chars(segment))
        };
        parts.push(part);
        i = i + 1;
    }
    assert(part_models(parts@) =~= id_parts(s@, safe_observability));
    parts
}

/// Renders one part.
fn render_part(part: &IdPart) -> (r: String)
    ensures
        r@ == rendered_part(part@),
{
    match part {
        IdPart::Shown(s) => s.clone(),
        IdPart::Hidden(s) => hash_tag(s.as_str()),
    }
}

/// Redacts an identifier, with safe observability as given.
pub fn redact_session_ids_with_mode(s: &str, safe_observability: bool) -> (r: String)
    ensures
        r@ == redacted(s@, safe_observability),
{
    let parts = split_identifier(s, safe_observability);
    let ghost models = id_parts(s@, safe_observability);
    let mut rendered: Vec<String> = Vec::new();
    let mut i: usize = 0;
    while i < parts.len()
        invariant
            i <= parts@.len(),
            part_models(parts@) == models,
            rendered@.len() == i,
            forall|j: int| 0 <= j < i ==> (#[trigger] rendered@[j])@ == rendered_part(models[j]),
        decreases parts@.len() - i,
    {
        assert(part_models(parts@)[i as int] == parts@[i as int]@);
        rendered.push(render_part(&parts[i]));
        i = i + 1;
    }
    assert(text::strings(rendered@) =~= models.map_values(|p: IdPartModel| rendered_part(p)));
    text::join(rendered.as_slice(), ":")
}

/// Hashes any `acp_`/`sess_` segment and any LINE/Telegram composite identity in `s`. `setting`
/// is the setting of [`SAFE_OBSERVABILITY_ENV`].
///
/// The same uuid tags identically whichever prefix carried it, so one session reads as one tag
/// across every log line that mentions it.
pub fn redact_session_ids(s: &str, setting: Option<&str>) -> (r: String)
    ensures
        r@ == redacted(s@, enables_safe_observability(setting)),
{
    redact_session_ids_with_mode(s, safe_observability_enabled(setting))
}

/// Redacts every session/platform identifier only if safe observability is enabled, and gives
/// the identifier back unchanged otherwise.
pub fn redact_session_ids_if_safe(s: &str, setting: Option<&str>) -> (r: String)
    ensures
        r@ == if enables_safe_observability(setting) {
            redacted(s@, true)
        } else {
            s@
        },
{
    if safe_observability_enabled(setting) {
        redact_session_ids_with_mode(s, true)
    } else {
        s.to_owned()
    }
}

/// A platform identity as it is rendered for logs.
pub open spec fn redacted_identity(
    platform: Seq<char>,
    id: Seq<char>,
    safe_observability: bool,
) -> Seq<char> {
    if safe_observability && is_private_platform(platform) {
        text_tag(id)
    } else {
        redacted(id, safe_observability)
    }
}

/// Renders a platform identity for logs, with safe observability as given.
pub fn redact_platform_identity_with_mode(platform: &str, id: &str, safe_observability: bool) -> (r:
    String)
    ensures
        r@ == redacted_identity(platform@, id@, safe_observability),
{
    if safe_observability && is_private_messaging_platform(platform) {
        hash_tag(id)
    } else {
        redact_session_ids_with_mode(id, safe_observability)
    }
}

/// Renders a platform identity for logs. With safe observability enabled, LINE and Telegram
/// identifiers are reduced to a stable pseudonymous tag. Other platforms keep their ids, while
/// ACP resume credentials remain covered in either mode.
pub fn redact_platform_identity(platform: &str, id: &str, setting: Option<&str>) -> (r: String)
    ensures
        r@ == redacted_identity(platform@, id@, enables_safe_observability(setting)),
{
    redact_platform_identity_with_mode(platform, id, safe_observability_enabled(setting))
}

/// Renders a platform identity only if safe observability is enabled, and gives the identity
/// back unchanged otherwise.
pub fn redact_platform_identity_if_safe(platform: &str, id: &str, setting: Option<&str>) -> (r:
    String)
    ensures
        r@ == if enables_safe_observability(setting) {
            redacted_identity(platform@, id@, true)
        } else {
            id@
        },
{
    if safe_observability_enabled(setting) {
        redact_platform_identity_with_mode(platform, id, true)
    } else {
        id.to_owned()
    }
}

proof fn lemma_session_segment(uuid: Seq<char>)
    requires
        uuid.len() > 0,
    ensures
        segment_part("acp_"@ + uuid) == IdPartModel::Hidden(uuid),
        segment_part("sess_"@ + uuid) == IdPartModel::Hidden(uuid),
{
    reveal_strlit("acp_");
    reveal_strlit("sess_");
    let channel = "acp_"@ + uuid;
    let session = "sess_"@ + uuid;
    assert(channel.subrange(0, 4) =~= "acp_"@);
    assert(session.subrange(0, 5) =~= "sess_"@);
    assert(session.subrange(0, 4) != "acp_"@) by {
        assert(session.subrange(0, 4)[0] == 's');
    }
    assert(channel.skip(4) =~= uuid);
    assert(session.skip(5) =~= uuid);
}

proof fn lemma_prefix_keeps_colons(prefix: Seq<char>, s: Seq<char>)
    requires
        !prefix.contains(':'),
        !s.contains(':'),
    ensures
        !(prefix + s).contains(':'),
{
    let whole = prefix + s;
    if whole.contains(':') {
        let i = choose|i: int| 0 <= i < whole.len() && whole[i] == ':';
        if i < prefix.len() {
            assert(prefix[i] == ':');
        } else {
            assert(s[i - prefix.len()] == ':');
        }
    }
}

/// The same uuid tags identically whichever prefix carried it, alone or behind a platform, and
/// the platform stays readable.
pub proof fn lemma_both_encodings_tag_alike(
    platform: Seq<char>,
    uuid: Seq<char>,
    safe_observability: bool,
)
    requires
        uuid.len() > 0,
        !uuid.contains(':'),
        !platform.contains(':'),
        segment_part(platform) is Shown,
        !(safe_observability && is_private_platform(platform)),
    ensures
        redacted("acp_"@ + uuid, safe_observability) == text_tag(uuid),
        redacted("sess_"@ + uuid, safe_observability) == text_tag(uuid),
        redacted(platform + ":"@ + ("acp_"@ + uuid), safe_observability) == platform + ":"@
            + text_tag(uuid),
        redacted(platform + ":"@ + ("sess_"@ + uuid), safe_observability) == platform + ":"@
            + text_tag(uuid),
{
    reveal_strlit("acp_");
    reveal_strlit("sess_");
    reveal_strlit(":");
    lemma_session_segment(uuid);
    lemma_prefix_keeps_colons("acp_"@, uuid);
    lemma_prefix_keeps_colons("sess_"@, uuid);
    assert(":"@ =~= seq![':']);
    lemma_one_segment("acp_"@ + uuid, safe_observability);
    lemma_one_segment("sess_"@ + uuid, safe_observability);
    lemma_two_segments(platform, "acp_"@ + uuid, safe_observability);
    lemma_two_segments(platform, "sess_"@ + uuid, safe_observability);
}

proof fn lemma_one_segment(s: Seq<char>, safe_observability: bool)
    requires
        !s.contains(':'),
    ensures
        redacted(s, safe_observability) == rendered_part(segment_part(s)),
{
    text::lemma_one_piece(s, ':');
    let parts = id_parts(s, safe_observability);
    assert(parts =~= seq![segment_part(s)]);
    assert(parts.map_values(|p: IdPartModel| rendered_part(p)) =~= seq![
        rendered_part(segment_part(s)),
    ]);
}

proof fn lemma_two_segments(platform: Seq<char>, s: Seq<char>, safe_observability: bool)
    requires
        !platform.contains(':'),
        !s.contains(':'),
        !(safe_observability && is_private_platform(platform)),
    ensures
        redacted(platform + seq![':'] + s, safe_observability) == rendered_part(
            segment_part(platform),
        ) + ":"@ + rendered_part(segment_part(s)),
{
    text::lemma_one_piece(platform, ':');
    text::lemma_pieces_concat(platform, s, ':');
    let whole = platform + seq![':'] + s;
    assert(text::pieces(whole, ':') =~= seq![platform, s]);
    let parts = id_parts(whole, safe_observability);
    assert(parts =~= seq![segment_part(platform), segment_part(s)]);
    let rendered = parts.map_values(|p: IdPartModel| rendered_part(p));
    assert(rendered =~= seq![
        rendered_part(segment_part(platform)),
        rendered_part(segment_part(s)),
    ]);
    reveal_with_fuel(text::joined, 2);
    assert(rendered.drop_last() =~= seq![rendered_part(segment_part(platform))]);
}

/// An identifier none of whose segments carries a session's uuid is left as it is, unless it
/// belongs to a private messaging platform and safe observability is enabled.
pub proof fn lemma_public_ids_untouched(s: Seq<char>, safe_observability: bool)
    requires
        forall|i: int|
            0 <= i < text::pieces(s, ':').len() ==> segment_part(
                #[trigger] text::pieces(s, ':')[i],
            ) is Shown,
        !(safe_observability && text::pieces(s, ':').len() > 1 && is_private_platform(
            text::pieces(s, ':')[0],
        )),
    ensures
        redacted(s, safe_observability) == s,
{
    reveal_strlit(":");
    assert(":"@ =~= seq![':']);
    text::lemma_join_pieces(s, ':');
    assert(id_parts(s, safe_observability).map_values(|p: IdPartModel| rendered_part(p))
        =~= text::pieces(s, ':'));
}

/// With safe observability enabled, everything behind a private messaging platform is hidden
/// and the platform alone is shown; without it, those identifiers are treated as any other.
pub proof fn lemma_private_ids_hidden(s: Seq<char>)
    requires
        text::pieces(s, ':').len() > 1,
        is_private_platform(text::pieces(s, ':')[0]),
    ensures
        id_parts(s, true)[0] == IdPartModel::Shown(text::pieces(s, ':')[0]),
        forall|i: int|
            0 < i < id_parts(s, true).len() ==> #[trigger] id_parts(s, true)[i]
                == IdPartModel::Hidden(text::pieces(s, ':')[i]),
        id_parts(s, false) == text::pieces(s, ':').map_values(
            |segment: Seq<char>| segment_part(segment),
        ),
{
}

} // verus!
