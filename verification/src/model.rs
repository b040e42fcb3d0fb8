//! The mathematical model of one FWON record.
//!
//! A record is determined by its identifier, the wall-clock instant it was
//! made at, and the values drawn from the random source. `record_lines`
//! gives the record block as its list of lines, one sequence per line,
//! newlines excluded; `encode_spec`, the exact character sequence of the
//! whole block, is those lines joined with a newline after each.

use vstd::prelude::*;
use vstd::utf8::encode_utf8;

use crate::digits::{dec_chars, money_chars, ts_chars};

verus! {

/// The values one record is built from.
pub struct RecordFields {
    /// The record identifier: the `UserID` field and part of the header.
    pub user_id: u64,
    /// The wall clock when the record was made, in microseconds since the
    /// epoch; the history and session timestamps are offsets from it.
    pub now_micros: u64,
    /// Eight random lowercase letters.
    pub username: Seq<char>,
    /// Five random lowercase letters before the fixed domain.
    pub email_prefix: Seq<char>,
    pub is_active: bool,
    /// The balance in hundredths, below 1000050 (that is, below 10000.50).
    pub balance_cents: u64,
    /// How many whole seconds before `now_micros` the user joined,
    /// below 100000.
    pub joined_offset_secs: u64,
    /// Whether the theme is `dark` rather than `light`.
    pub theme_dark: bool,
    /// Last octet of the login address, in `1 ..= 255`.
    pub ip_login: u64,
    /// Last octet of the logout address, in `1 ..= 255`.
    pub ip_logout: u64,
    /// Zero, one or two session identifiers of fifteen lowercase letters.
    pub session_ids: Seq<Seq<char>>,
}

pub open spec fn lowercase_chars(s: Seq<char>) -> bool {
    forall|i: int| 0 <= i < s.len() ==> 'a' <= #[trigger] s[i] && s[i] <= 'z'
}

/// The ranges every drawn value lies in.
pub open spec fn valid_fields(f: RecordFields) -> bool {
    &&& f.username.len() == 8 && lowercase_chars(f.username)
    &&& f.email_prefix.len() == 5 && lowercase_chars(f.email_prefix)
    &&& f.balance_cents < 1000050
    &&& f.joined_offset_secs < 100000
    &&& 1 <= f.ip_login && f.ip_login <= 255
    &&& 1 <= f.ip_logout && f.ip_logout <= 255
    &&& f.session_ids.len() <= 2
    &&& forall|i: int|
        0 <= i < f.session_ids.len() ==> (#[trigger] f.session_ids[i]).len() == 15
            && lowercase_chars(f.session_ids[i])
}

/// The join timestamp: `now` less the joined offset, in microseconds,
/// floored at zero.
pub open spec fn joined_micros(f: RecordFields) -> nat {
    if f.now_micros >= f.joined_offset_secs * 1000000 {
        (f.now_micros - f.joined_offset_secs * 1000000) as nat
    } else {
        0
    }
}

/// `now` plus `k` whole seconds, in microseconds, capped at the largest
/// representable value.
pub open spec fn plus_secs(now: u64, k: int) -> nat {
    if now + k * 1000000 > u64::MAX {
        u64::MAX as nat
    } else {
        (now + k * 1000000) as nat
    }
}

pub open spec fn bool_text(b: bool) -> Seq<char> {
    if b {
        "true"@
    } else {
        "false"@
    }
}

pub open spec fn theme_text(dark: bool) -> Seq<char> {
    if dark {
        "dark"@
    } else {
        "light"@
    }
}

pub open spec fn header_line(f: RecordFields) -> Seq<char> {
    "# --- Record "@ + dec_chars(f.user_id as nat) + " ---"@
}

pub open spec fn user_id_line(f: RecordFields) -> Seq<char> {
    "UserID="@ + dec_chars(f.user_id as nat)
}

pub open spec fn username_line(f: RecordFields) -> Seq<char> {
    "Username="@ + f.username + "_"@ + dec_chars(f.user_id as nat)
}

pub open spec fn email_line(f: RecordFields) -> Seq<char> {
    "Email="@ + f.email_prefix + "@teaserverse.com"@
}

pub open spec fn is_active_line(f: RecordFields) -> Seq<char> {
    "IsActive="@ + bool_text(f.is_active)
}

pub open spec fn balance_line(f: RecordFields) -> Seq<char> {
    "Balance="@ + money_chars(f.balance_cents as nat)
}

pub open spec fn joined_line(f: RecordFields) -> Seq<char> {
    "JoinedTimestamp="@ + ts_chars(joined_micros(f))
}

pub open spec fn favorites_line() -> Seq<char> {
    "FavoriteProjects=TeaserWorkspace,TeaserPaste,EmmieryAI"@
}

pub open spec fn settings_line(f: RecordFields) -> Seq<char> {
    "Settings={{Theme="@ + theme_text(f.theme_dark)
        + ";Language=vi;Notifications=true;BetaUser=false}}"@
}

pub open spec fn login_line(f: RecordFields) -> Seq<char> {
    "History=[Action=login;IP=192.168.1."@ + dec_chars(f.ip_login as nat) + ";Timestamp="@
        + ts_chars(f.now_micros as nat) + "]"@
}

pub open spec fn logout_line(f: RecordFields) -> Seq<char> {
    "History=[Action=logout;IP=192.168.1."@ + dec_chars(f.ip_logout as nat) + ";Timestamp="@
        + ts_chars(plus_secs(f.now_micros, 1)) + "]"@
}

pub open spec fn session_line(f: RecordFields, i: int) -> Seq<char> {
    "Sessions=[SessionID="@ + f.session_ids[i] + ";Device=Chrome;Timestamp="@
        + ts_chars(plus_secs(f.now_micros, i)) + "]"@
}

/// The record's lines, newlines excluded: a blank line, the header, the
/// eight fields, two history entries, the session entries, a blank line.
pub open spec fn record_lines(f: RecordFields) -> Seq<Seq<char>> {
    seq![
        Seq::<char>::empty(),
        header_line(f),
        user_id_line(f),
        username_line(f),
        email_line(f),
        is_active_line(f),
        balance_line(f),
        joined_line(f),
        favorites_line(),
        settings_line(f),
        login_line(f),
        logout_line(f),
    ] + Seq::new(f.session_ids.len(), |i: int| session_line(f, i)) + seq![Seq::<char>::empty()]
}

/// Lines joined back into text, a newline after every line.
pub open spec fn lines_text(ls: Seq<Seq<char>>) -> Seq<char>
    decreases ls.len(),
{
    if ls.len() == 0 {
        Seq::empty()
    } else {
        ls[0] + "\n"@ + lines_text(ls.drop_first())
    }
}

/// The exact character sequence of one record block: its lines in order,
/// a newline after every line.
pub open spec fn encode_spec(f: RecordFields) -> Seq<char> {
    lines_text(record_lines(f))
}

/// Appending a line to the list appends the line and a newline to the text.
pub proof fn lemma_lines_text_snoc(ls: Seq<Seq<char>>, x: Seq<char>)
    ensures
        lines_text(ls.push(x)) == lines_text(ls) + (x + "\n"@),
    decreases ls.len(),
{
    if ls.len() == 0 {
        assert(ls.push(x)[0] == x);
        assert(ls.push(x).drop_first() =~= Seq::<Seq<char>>::empty());
        assert(lines_text(Seq::<Seq<char>>::empty()) == Seq::<char>::empty());
        assert((x + "\n"@) + Seq::<char>::empty() =~= x + "\n"@);
        assert(lines_text(ls) + (x + "\n"@) =~= x + "\n"@);
    } else {
        lemma_lines_text_snoc(ls.drop_first(), x);
        assert(ls.push(x)[0] == ls[0]);
        assert(ls.push(x).drop_first() =~= ls.drop_first().push(x));
        vstd::seq_lib::lemma_concat_associative(
            ls[0] + "\n"@,
            lines_text(ls.drop_first()),
            x + "\n"@,
        );
    }
}

/// The record's bytes: the UTF-8 encoding of its text.
pub open spec fn encoded_record(f: RecordFields) -> Seq<u8> {
    encode_utf8(encode_spec(f))
}

/// What the generator guarantees of every byte sequence it returns for
/// identifier `id`: it is the encoding of some record with valid drawn
/// values whose `UserID` is `id`.
pub open spec fn record_ok(id: u64, bytes: Seq<u8>) -> bool {
    exists|f: RecordFields|
        valid_fields(f) && f.user_id == id && bytes == encoded_record(f)
}

/// As `record_ok`, but with the wall-clock instant pinned as well.
pub open spec fn record_ok_at(id: u64, now: u64, bytes: Seq<u8>) -> bool {
    exists|f: RecordFields|
        valid_fields(f) && f.user_id == id && f.now_micros == now && bytes == encoded_record(f)
}

} // verus!
