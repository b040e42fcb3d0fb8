//! Record-level laws: what holds of every encoded record.

use vstd::prelude::*;

use crate::digits::{dec_chars, is_digit, lemma_dec_chars_digits, lemma_dec_chars_injective,
    lemma_padded_chars_digits, money_chars, padded_chars};
use crate::model::{encode_spec, encoded_record, header_line, lines_text, record_lines, record_ok,
    session_line, user_id_line, valid_fields, RecordFields};

verus! {

/// The line opens with the given key: the key's characters stand at its
/// start, character for character.
pub open spec fn line_has_key(l: Seq<char>, key: Seq<char>) -> bool {
    l.len() >= key.len() && forall|j: int| 0 <= j < key.len() ==> l[j] == key[j]
}

/// Every record block holds exactly one line for each of the eight fields,
/// exactly two `History` lines, and as many `Sessions` lines as session
/// identifiers were drawn, which is at most two: among the record's lines,
/// each field key opens precisely the lines stated here and no others.
pub proof fn lemma_record_field_lines(f: RecordFields)
    requires
        valid_fields(f),
    ensures
        record_lines(f).len() == 13 + f.session_ids.len(),
        forall|k: int|
            0 <= k < record_lines(f).len() ==> {
                let l = #[trigger] record_lines(f)[k];
                &&& (line_has_key(l, "UserID="@) <==> k == 2)
                &&& (line_has_key(l, "Username="@) <==> k == 3)
                &&& (line_has_key(l, "Email="@) <==> k == 4)
                &&& (line_has_key(l, "IsActive="@) <==> k == 5)
                &&& (line_has_key(l, "Balance="@) <==> k == 6)
                &&& (line_has_key(l, "JoinedTimestamp="@) <==> k == 7)
                &&& (line_has_key(l, "FavoriteProjects="@) <==> k == 8)
                &&& (line_has_key(l, "Settings="@) <==> k == 9)
                &&& (line_has_key(l, "History="@) <==> (k == 10 || k == 11))
                &&& (line_has_key(l, "Sessions="@) <==> (12 <= k < 12 + f.session_ids.len()))
            },
{
    reveal_strlit("UserID=");
    reveal_strlit("Username=");
    reveal_strlit("Email=");
    reveal_strlit("IsActive=");
    reveal_strlit("Balance=");
    reveal_strlit("JoinedTimestamp=");
    reveal_strlit("FavoriteProjects=");
    reveal_strlit("Settings=");
    reveal_strlit("History=");
    reveal_strlit("Sessions=");
    reveal_strlit("# --- Record ");
    reveal_strlit("FavoriteProjects=TeaserWorkspace,TeaserPaste,EmmieryAI");
    reveal_strlit("Settings={{Theme=");
    reveal_strlit("History=[Action=login;IP=192.168.1.");
    reveal_strlit("History=[Action=logout;IP=192.168.1.");
    reveal_strlit("Sessions=[SessionID=");
    let ls = record_lines(f);
    let ns = f.session_ids.len() as int;
    assert(ls.len() == 13 + ns);
    assert forall|k: int| 0 <= k < ls.len() implies {
        let l = #[trigger] ls[k];
        &&& (line_has_key(l, "UserID="@) <==> k == 2)
        &&& (line_has_key(l, "Username="@) <==> k == 3)
        &&& (line_has_key(l, "Email="@) <==> k == 4)
        &&& (line_has_key(l, "IsActive="@) <==> k == 5)
        &&& (line_has_key(l, "Balance="@) <==> k == 6)
        &&& (line_has_key(l, "JoinedTimestamp="@) <==> k == 7)
        &&& (line_has_key(l, "FavoriteProjects="@) <==> k == 8)
        &&& (line_has_key(l, "Settings="@) <==> k == 9)
        &&& (line_has_key(l, "History="@) <==> (k == 10 || k == 11))
        &&& (line_has_key(l, "Sessions="@) <==> (12 <= k < 12 + ns))
    } by {
        let l = ls[k];
        if k == 0 || k == 12 + ns {
            assert(l.len() == 0);
        } else if k == 1 {
            assert(l[0] == '#');
        } else if k == 2 {
            assert(l == user_id_line(f));
            assert(l[0] == 'U' && l[4] == 'I');
            assert(line_has_key(l, "UserID="@)) by {
                assert forall|j: int| 0 <= j < 7 implies l[j] == "UserID="@[j] by {}
            }
        } else if k == 3 {
            assert(l[0] == 'U' && l[4] == 'n');
            assert(line_has_key(l, "Username="@)) by {
                assert forall|j: int| 0 <= j < 9 implies l[j] == "Username="@[j] by {}
            }
        } else if k == 4 {
            assert(l[0] == 'E');
            assert(line_has_key(l, "Email="@)) by {
                assert forall|j: int| 0 <= j < 6 implies l[j] == "Email="@[j] by {}
            }
        } else if k == 5 {
            assert(l[0] == 'I');
            assert(line_has_key(l, "IsActive="@)) by {
                assert forall|j: int| 0 <= j < 9 implies l[j] == "IsActive="@[j] by {}
            }
        } else if k == 6 {
            assert(l[0] == 'B');
            assert(line_has_key(l, "Balance="@)) by {
                assert forall|j: int| 0 <= j < 8 implies l[j] == "Balance="@[j] by {}
            }
        } else if k == 7 {
            assert(l[0] == 'J');
            assert(line_has_key(l, "JoinedTimestamp="@)) by {
                assert forall|j: int| 0 <= j < 16 implies l[j] == "JoinedTimestamp="@[j] by {}
            }
        } else if k == 8 {
            assert(l[0] == 'F');
            assert(line_has_key(l, "FavoriteProjects="@)) by {
                assert forall|j: int| 0 <= j < 17 implies l[j] == "FavoriteProjects="@[j] by {}
            }
        } else if k == 9 {
            assert(l[0] == 'S' && l[2] == 't');
            assert(line_has_key(l, "Settings="@)) by {
                assert forall|j: int| 0 <= j < 9 implies l[j] == "Settings="@[j] by {}
            }
        } else if k == 10 || k == 11 {
            assert(l[0] == 'H');
            assert(line_has_key(l, "History="@)) by {
                assert forall|j: int| 0 <= j < 8 implies l[j] == "History="@[j] by {}
            }
        } else {
            assert(12 <= k < 12 + ns);
            assert(l == session_line(f, k - 12));
            assert(l[0] == 'S' && l[2] == 's');
            assert(line_has_key(l, "Sessions="@)) by {
                assert forall|j: int| 0 <= j < 9 implies l[j] == "Sessions="@[j] by {}
            }
        }
    }
}

/// The header's digit window: right after the fourteen characters of the
/// leading blank line and the header prefix stand the identifier's decimal
/// digits, closed by a space.
proof fn lemma_header_digit_window(f: RecordFields)
    requires
        valid_fields(f),
    ensures
        encode_spec(f).len() > 14 + dec_chars(f.user_id as nat).len(),
        forall|i: int|
            0 <= i < dec_chars(f.user_id as nat).len() ==> #[trigger] encode_spec(f)[14 + i]
                == dec_chars(f.user_id as nat)[i],
        encode_spec(f)[14 + dec_chars(f.user_id as nat).len() as int] == ' ',
{
    reveal_strlit("# --- Record ");
    reveal_strlit(" ---");
    reveal_strlit("\n");
    let ls = record_lines(f);
    let a = dec_chars(f.user_id as nat);
    lemma_dec_chars_digits(f.user_id as nat);
    let s = encode_spec(f);
    let r1 = ls.drop_first();
    assert(s == (ls[0] + "\n"@) + lines_text(r1));
    assert(ls[0] =~= Seq::<char>::empty());
    assert((ls[0] + "\n"@).len() == 1);
    assert(r1.len() == ls.len() - 1);
    assert(r1[0] == ls[1]);
    assert(lines_text(r1) == (r1[0] + "\n"@) + lines_text(r1.drop_first()));
    let hdr = header_line(f);
    assert(r1[0] == hdr);
    assert(("# --- Record "@).len() == 13);
    assert((" ---"@).len() == 4);
    assert(hdr.len() == 17 + a.len());
    assert forall|i: int| 0 <= i < a.len() implies #[trigger] s[14 + i] == a[i] by {
        assert(s[14 + i] == lines_text(r1)[13 + i]);
        assert(lines_text(r1)[13 + i] == (r1[0] + "\n"@)[13 + i]);
        assert(hdr[13 + i] == a[i]);
    }
    assert(s[14 + a.len() as int] == lines_text(r1)[13 + a.len() as int]);
    assert(lines_text(r1)[13 + a.len() as int] == (r1[0] + "\n"@)[13 + a.len() as int]);
    assert(hdr[13 + a.len() as int] == (" ---"@)[0]);
    assert((" ---"@)[0] == ' ');
}

/// The record text determines the identifier: two valid records with the
/// same text carry the same `UserID`.
pub proof fn lemma_text_determines_user_id(f1: RecordFields, f2: RecordFields)
    requires
        valid_fields(f1),
        valid_fields(f2),
        encode_spec(f1) == encode_spec(f2),
    ensures
        f1.user_id == f2.user_id,
{
    lemma_header_digit_window(f1);
    lemma_header_digit_window(f2);
    let a1 = dec_chars(f1.user_id as nat);
    let a2 = dec_chars(f2.user_id as nat);
    lemma_dec_chars_digits(f1.user_id as nat);
    lemma_dec_chars_digits(f2.user_id as nat);
    let s = encode_spec(f1);
    assert(' ' < '0');
    // the space after the digits pins the digit count in both readings
    assert(a1.len() == a2.len()) by {
        if a1.len() < a2.len() {
            assert(s[14 + a1.len() as int] == ' ');
            assert(s[14 + a1.len() as int] == a2[a1.len() as int]);
            assert(is_digit(a2[a1.len() as int]));
        }
        if a2.len() < a1.len() {
            assert(s[14 + a2.len() as int] == ' ');
            assert(s[14 + a2.len() as int] == a1[a2.len() as int]);
            assert(is_digit(a1[a2.len() as int]));
        }
    }
    assert(a1 =~= a2) by {
        assert forall|i: int| 0 <= i < a1.len() implies a1[i] == a2[i] by {
            assert(s[14 + i] == a1[i]);
            assert(s[14 + i] == a2[i]);
        }
    }
    lemma_dec_chars_injective(f1.user_id as nat, f2.user_id as nat);
}

/// Decoding a generated block gives back exactly the identifier it was
/// made for: a byte sequence that is a valid record block both for `id1`
/// and for `id2` forces the two identifiers to be equal.
pub proof fn lemma_record_identifier_unique(id1: u64, id2: u64, bytes: Seq<u8>)
    requires
        record_ok(id1, bytes),
        record_ok(id2, bytes),
    ensures
        id1 == id2,
{
    let f1 = choose|f: RecordFields|
        valid_fields(f) && f.user_id == id1 && bytes == encoded_record(f);
    let f2 = choose|f: RecordFields|
        valid_fields(f) && f.user_id == id2 && bytes == encoded_record(f);
    vstd::utf8::encode_utf8_decode_utf8(encode_spec(f1));
    vstd::utf8::encode_utf8_decode_utf8(encode_spec(f2));
    assert(encode_spec(f1) == encode_spec(f2));
    lemma_text_determines_user_id(f1, f2);
}

/// A record block is never empty: the generated output for any identifier
/// holds at least one byte, so a destination that receives one or more
/// blocks cannot stay empty.
pub proof fn lemma_record_block_nonempty(id: u64, bytes: Seq<u8>)
    requires
        record_ok(id, bytes),
    ensures
        bytes.len() > 0,
{
    let f = choose|f: RecordFields|
        valid_fields(f) && f.user_id == id && bytes == encoded_record(f);
    vstd::utf8::encode_utf8_decode_utf8(encode_spec(f));
    let ls = record_lines(f);
    assert(ls.len() == 13 + f.session_ids.len());
    assert(encode_spec(f) == (ls[0] + "\n"@) + lines_text(ls.drop_first()));
    assert(encode_spec(f).len() >= 1);
    if bytes.len() == 0 {
        assert(bytes =~= Seq::<u8>::empty());
        assert(vstd::utf8::decode_utf8(Seq::<u8>::empty()) =~= Seq::<char>::empty());
    }
}

/// The balance text always has exactly two digits after the decimal point:
/// its last three characters are a dot and two digits, and no other
/// character of the monetary text is a dot.
pub proof fn lemma_balance_two_decimals(cents: nat)
    ensures
        money_chars(cents).len() >= 4,
        money_chars(cents)[money_chars(cents).len() - 3] == '.',
        is_digit(money_chars(cents)[money_chars(cents).len() - 2]),
        is_digit(money_chars(cents)[money_chars(cents).len() - 1]),
        forall|k: int|
            0 <= k < money_chars(cents).len() && k != money_chars(cents).len() - 3
                ==> #[trigger] money_chars(cents)[k] != '.',
{
    reveal_strlit(".");
    let a = dec_chars(cents / 100);
    let p = padded_chars(cents % 100, 2);
    let s = a + "."@ + p;
    assert(s == money_chars(cents));
    lemma_dec_chars_digits(cents / 100);
    lemma_padded_chars_digits(cents % 100, 2);
    assert("."@.len() == 1 && "."@[0] == '.');
    assert('.' < '0');
    assert(p.len() == 2);
    assert(s.len() == a.len() + 3);
    assert(s[a.len() as int] == '.');
    assert(s[s.len() - 2] == p[0] && s[s.len() - 1] == p[1]);
    assert forall|k: int| 0 <= k < s.len() && k != s.len() - 3 implies s[k] != '.' by {
        if k < a.len() {
            assert(s[k] == a[k]);
            assert(is_digit(a[k]));
        } else {
            assert(s[k] == p[k - a.len() - 1]);
            assert(is_digit(p[k - a.len() - 1]));
        }
    }
}

} // verus!
