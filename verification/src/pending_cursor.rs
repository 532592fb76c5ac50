//! The opaque paging cursor of pending Activity lists: the sort position of
//! a row, as URL-safe base64 text.

use vstd::prelude::*;
use vstd::utf8::{decode_utf8, encode_utf8, encode_utf8_decode_utf8, encode_utf8_valid_utf8, valid_utf8};

use crate::error::{is_validation_of, AppError};
use crate::pending::PendingActivityRecord;

verus! {

/// The text `base64`'s URL-safe engine without padding writes for bytes.
pub uninterp spec fn url_safe_text(bytes: Seq<u8>) -> Seq<char>;

/// The bytes `base64`'s URL-safe engine without padding reads from a text,
/// or `None` when it rejects the text.
pub uninterp spec fn url_safe_bytes(text: Seq<char>) -> Option<Seq<u8>>;

/// `URL_SAFE_NO_PAD.encode(text)` of the UTF-8 bytes of a text; reading the
/// result back gives those bytes again. The engine panics when the encoded
/// length overflows, which `requires` leaves out.
#[verifier::external_body]
fn encode_url_safe(text: &str) -> (encoded: String)
    requires
        encode_utf8(text@).len() <= usize::MAX / 2,
    ensures
        encoded@ == url_safe_text(encode_utf8(text@)),
        url_safe_bytes(encoded@) == Some(encode_utf8(text@)),
{
    ::base64::Engine::encode(&::base64::engine::general_purpose::URL_SAFE_NO_PAD, text)
}

/// `URL_SAFE_NO_PAD.decode(text)`, with a rejected text as `None`.
#[verifier::external_body]
fn decode_url_safe(text: &str) -> (bytes: Option<Vec<u8>>)
    ensures
        match bytes {
            Some(b) => url_safe_bytes(text@) == Some(b@),
            None => url_safe_bytes(text@) is None,
        },
{
    ::base64::Engine::decode(&::base64::engine::general_purpose::URL_SAFE_NO_PAD, text).ok()
}

/// `String::from_utf8(bytes)`: the decoded text of valid UTF-8, `None`
/// otherwise.
#[verifier::external_body]
fn text_from_utf8(bytes: Vec<u8>) -> (text: Option<String>)
    ensures
        match text {
            Some(t) => valid_utf8(bytes@) && t@ == decode_utf8(bytes@),
            None => !valid_utf8(bytes@),
        },
{
    String::from_utf8(bytes).ok()
}

/// The position of the first line break, or the length when there is none.
pub open spec fn first_newline(s: Seq<char>) -> int
    decreases s.len(),
{
    if s.len() == 0 {
        0
    } else if s[0] == '\n' {
        0
    } else {
        1 + first_newline(s.drop_first())
    }
}

/// The text holds no line break.
pub open spec fn single_line(s: Seq<char>) -> bool {
    forall|k: int| 0 <= k < s.len() ==> s[k] != '\n'
}

/// The three parts of a text cut at its first two line breaks; the last
/// part keeps any further breaks. `None` with fewer than two breaks.
pub open spec fn split_three(s: Seq<char>) -> Option<(Seq<char>, Seq<char>, Seq<char>)> {
    let i = first_newline(s);
    if i >= s.len() {
        None
    } else {
        let rest = s.subrange(i + 1, s.len() as int);
        let j = first_newline(rest);
        if j >= rest.len() {
            None
        } else {
            Some((s.subrange(0, i), rest.subrange(0, j), rest.subrange(j + 1, rest.len() as int)))
        }
    }
}

/// The text a cursor carries: date, creation instant and id, one per line.
pub open spec fn cursor_text(date: Seq<char>, created: Seq<char>, id: Seq<char>) -> Seq<char> {
    date + "\n"@ + created + "\n"@ + id
}

/// The three parts a cursor text decodes to, if it decodes.
pub open spec fn cursor_parts(value: Seq<char>) -> Option<(Seq<char>, Seq<char>, Seq<char>)> {
    match url_safe_bytes(value) {
        Some(bytes) => if valid_utf8(bytes) { split_three(decode_utf8(bytes)) } else { None },
        None => None,
    }
}

/// The first line break lies where the scan finds it.
proof fn lemma_first_newline_at(s: Seq<char>, p: int)
    requires
        0 <= p <= s.len(),
        forall|k: int| 0 <= k < p ==> s[k] != '\n',
        p < s.len() ==> s[p] == '\n',
    ensures
        first_newline(s) == p,
    decreases p,
{
    if p > 0 {
        assert(s[0] != '\n');
        lemma_first_newline_at(s.drop_first(), p - 1);
    }
}

/// Finds the first line break at or after `from`.
fn find_newline(text: &str, from: usize) -> (at: usize)
    requires
        from <= text@.len(),
    ensures
        from <= at <= text@.len(),
        forall|k: int| from <= k < at ==> text@[k] != '\n',
        at < text@.len() ==> text@[at as int] == '\n',
{
    let n = text.unicode_len();
    let mut at = from;
    while at < n && text.get_char(at) != '\n'
        invariant
            n == text@.len(),
            from <= at <= n,
            forall|k: int| from <= k < at ==> text@[k] != '\n',
        decreases n - at,
    {
        at = at + 1;
    }
    at
}

/// The paging cursor of a row: its scheduled date, creation instant and id.
pub fn encode_pending_cursor(row: &PendingActivityRecord) -> (cursor: String)
    requires
        encode_utf8(cursor_text(row.scheduled_local_date@, row.created_at@, row.id@)).len() <= usize::MAX / 2,
    ensures
        url_safe_bytes(cursor@) == Some(encode_utf8(cursor_text(row.scheduled_local_date@, row.created_at@, row.id@))),
{
    let text = row.scheduled_local_date.clone().concat("\n").concat(row.created_at.as_str()).concat("\n").concat(
        row.id.as_str(),
    );
    assert(text@ == cursor_text(row.scheduled_local_date@, row.created_at@, row.id@));
    encode_url_safe(text.as_str())
}

/// Reads a paging cursor back into its date, creation instant and id; a
/// validation error on `cursor` when it does not decode to three lines.
pub fn decode_pending_cursor(value: &str) -> (parts: Result<(String, String, String), AppError>)
    ensures
        match parts {
            Ok(p) => cursor_parts(value@) == Some((p.0@, p.1@, p.2@)),
            Err(e) => cursor_parts(value@) is None && is_validation_of(e, "cursor"@),
        },
{
    let bytes = match decode_url_safe(value) {
        Some(b) => b,
        None => return Err(AppError::validation("cursor", "The pending Activity cursor is invalid.")),
    };
    let ghost raw = bytes@;
    let text = match text_from_utf8(bytes) {
        Some(t) => t,
        None => return Err(AppError::validation("cursor", "The pending Activity cursor is invalid.")),
    };
    let s = text.as_str();
    let n = s.unicode_len();
    let first = find_newline(s, 0);
    proof {
        lemma_first_newline_at(s@, first as int);
    }
    if first >= n {
        return Err(AppError::validation("cursor", "The pending Activity cursor is invalid."));
    }
    let second = find_newline(s, first + 1);
    let ghost rest = s@.subrange(first + 1, n as int);
    proof {
        assert forall|k: int| 0 <= k < second - first - 1 implies rest[k] != '\n' by {
            assert(rest[k] == s@[first + 1 + k]);
        }
        if second < n {
            assert(rest[second - first - 1] == s@[second as int]);
        }
        lemma_first_newline_at(rest, second - first - 1);
    }
    if second >= n {
        return Err(AppError::validation("cursor", "The pending Activity cursor is invalid."));
    }
    let date = String::from_str(s.substring_char(0, first));
    let created = String::from_str(s.substring_char(first + 1, second));
    let id = String::from_str(s.substring_char(second + 1, n));
    assert(rest.subrange(0, second - first - 1) =~= s@.subrange(first + 1, second as int));
    assert(rest.subrange(second - first, rest.len() as int) =~= s@.subrange(second + 1, n as int));
    Ok((date, created, id))
}

/// Reading back a cursor gives the row position it was written from, when
/// the date and creation instant are single lines (the id may hold breaks):
/// `decode_pending_cursor(encode_pending_cursor(row))` is the row's
/// (date, created, id).
pub proof fn law_cursor_round_trip(cursor: Seq<char>, date: Seq<char>, created: Seq<char>, id: Seq<char>)
    requires
        url_safe_bytes(cursor) == Some(encode_utf8(cursor_text(date, created, id))),
        single_line(date),
        single_line(created),
    ensures
        cursor_parts(cursor) == Some((date, created, id)),
{
    reveal_strlit("\n");
    let text = cursor_text(date, created, id);
    encode_utf8_valid_utf8(text);
    encode_utf8_decode_utf8(text);
    assert forall|k: int| 0 <= k < date.len() implies text[k] != '\n' by {
        assert(text[k] == date[k]);
    }
    assert(text[date.len() as int] == '\n');
    lemma_first_newline_at(text, date.len() as int);
    let rest = text.subrange(date.len() as int + 1, text.len() as int);
    assert(rest =~= created + "\n"@ + id);
    assert forall|k: int| 0 <= k < created.len() implies rest[k] != '\n' by {
        assert(rest[k] == created[k]);
    }
    assert(rest[created.len() as int] == '\n');
    lemma_first_newline_at(rest, created.len() as int);
    assert(text.subrange(0, date.len() as int) =~= date);
    assert(rest.subrange(0, created.len() as int) =~= created);
    assert(rest.subrange(created.len() as int + 1, rest.len() as int) =~= id);
}

} // verus!
