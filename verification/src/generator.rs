//! Building record blocks and fanning the work out across workers.

use rayon::iter::{IntoParallelIterator, ParallelIterator};
use vstd::prelude::*;
use vstd::string::*;

use crate::digits::{money_decimal, ts_decimal, u64_to_decimal};
use crate::model::{
    balance_line, email_line, encode_spec, encoded_record, favorites_line, header_line,
    is_active_line, joined_line, joined_micros, lemma_lines_text_snoc, lines_text, login_line,
    logout_line, lowercase_chars, plus_secs, record_lines, record_ok, record_ok_at, session_line,
    settings_line, user_id_line, username_line, valid_fields, RecordFields,
};
use crate::random::{RandomSource, ThreadRandom};

pub use crate::bench::BenchmarkResult;

verus! {

/// Groups the record construction entry points.
pub struct FwonRecordGenerator {}

/// A lowercase-alphabetic string of exactly `len` characters, each drawn
/// independently and uniformly from the 26-letter alphabet.
pub fn random_string<R: RandomSource>(rng: &mut R, len: usize) -> (r: String)
    ensures
        r@.len() == len,
        lowercase_chars(r@),
{
    let charset = "abcdefghijklmnopqrstuvwxyz";
    proof {
        reveal_strlit("abcdefghijklmnopqrstuvwxyz");
        assert(charset@.len() == 26);
        assert(vstd::utf8::is_ascii_chars(charset@)) by {
            assert(forall|i: int| 0 <= i < 26 ==> '\0' <= #[trigger] charset@[i] <= '\u{7f}');
        }
        assert(forall|j: int| 0 <= j < 26 ==> 'a' <= #[trigger] charset@[j] && charset@[j] <= 'z');
    }
    let mut r = String::new();
    let mut i: usize = 0;
    while i < len
        invariant
            i <= len,
            r@.len() == i,
            lowercase_chars(r@),
            charset@.len() == 26,
            vstd::utf8::is_ascii_chars(charset@),
            forall|j: int| 0 <= j < 26 ==> 'a' <= #[trigger] charset@[j] && charset@[j] <= 'z',
        decreases len - i,
    {
        let idx = rng.next_below(26) as usize;
        let c = charset.substring_ascii(idx, idx + 1);
        r.append(c);
        proof {
            assert(c@ == charset@.subrange(idx as int, idx as int + 1));
            assert(c@[0] == charset@[idx as int]);
            assert(lowercase_chars(r@));
        }
        i = i + 1;
    }
    r
}

/// Append one line and its newline to the record text, extending the
/// tracked list of lines accordingly.
fn push_line(out: &mut String, line: &String, lines: Ghost<Seq<Seq<char>>>) -> (res: Ghost<
    Seq<Seq<char>>,
>)
    requires
        old(out)@ == lines_text(lines@),
    ensures
        res@ == lines@.push(line@),
        final(out)@ == lines_text(res@),
{
    out.append(line.as_str());
    out.append("\n");
    proof {
        lemma_lines_text_snoc(lines@, line@);
        vstd::seq_lib::lemma_concat_associative(lines_text(lines@), line@, "\n"@);
    }
    Ghost(lines@.push(line@))
}

/// Relies on `std::time::SystemTime::now` and `duration_since`: the wall
/// clock as microseconds since the Unix epoch, zero if the clock reads
/// before the epoch. Nothing is assumed of the value returned.
#[verifier::external_body]
fn wall_clock_micros() -> u64 {
    std::time::SystemTime::now()
        .duration_since(std::time::UNIX_EPOCH)
        .unwrap_or_default()
        .as_micros() as u64
}

impl FwonRecordGenerator {
    /// One record block for `record_id`, its timestamps taken from the given
    /// wall-clock reading, every random field drawn from `rng`. The result
    /// is exactly the encoding of a record whose drawn values are in range,
    /// whose `UserID` is `record_id` and whose clock is `now_micros`; with a
    /// deterministic source and a fixed clock the bytes are reproducible.
    pub fn generate_record_bytes_at<R: RandomSource>(
        record_id: u64,
        now_micros: u64,
        rng: &mut R,
    ) -> (r: Vec<u8>)
        ensures
            record_ok_at(record_id, now_micros, r@),
    {
        let username = random_string(rng, 8);
        let email_prefix = random_string(rng, 5);
        let is_active = rng.next_bool();
        let cents = rng.next_below(1000050);
        let offset = rng.next_below(100000);
        let theme_dark = rng.next_bool();
        let ip1 = 1 + rng.next_below(255);
        let ip2 = 1 + rng.next_below(255);
        let nsess = rng.next_below(3);
        let mut session_ids: Vec<String> = Vec::new();
        let mut k: u64 = 0;
        while k < nsess
            invariant
                k <= nsess,
                nsess < 3,
                session_ids@.len() == k,
                forall|i: int|
                    0 <= i < k ==> (#[trigger] session_ids@[i])@.len() == 15 && lowercase_chars(
                        session_ids@[i]@,
                    ),
            decreases nsess - k,
        {
            let sid = random_string(rng, 15);
            session_ids.push(sid);
            k = k + 1;
        }
        let ghost f = RecordFields {
            user_id: record_id,
            now_micros: now_micros,
            username: username@,
            email_prefix: email_prefix@,
            is_active: is_active,
            balance_cents: cents,
            joined_offset_secs: offset,
            theme_dark: theme_dark,
            ip_login: ip1,
            ip_logout: ip2,
            session_ids: session_ids.deep_view(),
        };
        proof {
            assert forall|i: int| 0 <= i < f.session_ids.len() implies (
            #[trigger] f.session_ids[i]).len() == 15 && lowercase_chars(f.session_ids[i]) by {
                assert(f.session_ids[i] == session_ids@[i]@);
            }
            assert(valid_fields(f));
        }
        let uid_str = u64_to_decimal(record_id);
        let mut out = String::new();
        let mut lines: Ghost<Seq<Seq<char>>> = Ghost(Seq::empty());
        proof {
            assert(lines_text(lines@) == Seq::<char>::empty());
        }
        let blank = String::new();
        lines = push_line(&mut out, &blank, lines);

        let mut hdr = String::from_str("# --- Record ");
        hdr.append(uid_str.as_str());
        hdr.append(" ---");
        proof {
            assert(hdr@ == header_line(f));
        }
        lines = push_line(&mut out, &hdr, lines);

        let mut uid_line = String::from_str("UserID=");
        uid_line.append(uid_str.as_str());
        proof {
            assert(uid_line@ == user_id_line(f));
        }
        lines = push_line(&mut out, &uid_line, lines);

        let mut un_line = String::from_str("Username=");
        un_line.append(username.as_str());
        un_line.append("_");
        un_line.append(uid_str.as_str());
        proof {
            assert(un_line@ == username_line(f));
        }
        lines = push_line(&mut out, &un_line, lines);

        let mut em_line = String::from_str("Email=");
        em_line.append(email_prefix.as_str());
        em_line.append("@teaserverse.com");
        proof {
            assert(em_line@ == email_line(f));
        }
        lines = push_line(&mut out, &em_line, lines);

        let mut ia_line = String::from_str("IsActive=");
        ia_line.append(if is_active { "true" } else { "false" });
        proof {
            assert(ia_line@ == is_active_line(f));
        }
        lines = push_line(&mut out, &ia_line, lines);

        let mut bal_line = String::from_str("Balance=");
        let bal = money_decimal(cents);
        bal_line.append(bal.as_str());
        proof {
            assert(bal_line@ == balance_line(f));
        }
        lines = push_line(&mut out, &bal_line, lines);

        let mut jo_line = String::from_str("JoinedTimestamp=");
        let joined = now_micros.saturating_sub(offset * 1000000);
        proof {
            assert(joined as nat == joined_micros(f));
        }
        let ts_joined = ts_decimal(joined);
        jo_line.append(ts_joined.as_str());
        proof {
            assert(jo_line@ == joined_line(f));
        }
        lines = push_line(&mut out, &jo_line, lines);

        let fav_line = String::from_str("FavoriteProjects=TeaserWorkspace,TeaserPaste,EmmieryAI");
        proof {
            assert(fav_line@ == favorites_line());
        }
        lines = push_line(&mut out, &fav_line, lines);

        let mut set_line = String::from_str("Settings={{Theme=");
        set_line.append(if theme_dark { "dark" } else { "light" });
        set_line.append(";Language=vi;Notifications=true;BetaUser=false}}");
        proof {
            assert(set_line@ == settings_line(f));
        }
        lines = push_line(&mut out, &set_line, lines);

        let mut li_line = String::from_str("History=[Action=login;IP=192.168.1.");
        let ip1_str = u64_to_decimal(ip1);
        li_line.append(ip1_str.as_str());
        li_line.append(";Timestamp=");
        let ts_now = ts_decimal(now_micros);
        li_line.append(ts_now.as_str());
        li_line.append("]");
        proof {
            assert(li_line@ == login_line(f));
        }
        lines = push_line(&mut out, &li_line, lines);

        let mut lo_line = String::from_str("History=[Action=logout;IP=192.168.1.");
        let ip2_str = u64_to_decimal(ip2);
        lo_line.append(ip2_str.as_str());
        lo_line.append(";Timestamp=");
        let next_micros = now_micros.saturating_add(1000000);
        proof {
            assert(next_micros as nat == plus_secs(now_micros, 1));
        }
        let ts_next = ts_decimal(next_micros);
        lo_line.append(ts_next.as_str());
        lo_line.append("]");
        proof {
            assert(lo_line@ == logout_line(f));
        }
        lines = push_line(&mut out, &lo_line, lines);

        let ghost base_lines = lines@;
        let n = session_ids.len();
        let mut j: usize = 0;
        while j < n
            invariant
                j <= n,
                n == session_ids@.len(),
                n <= 2,
                now_micros == f.now_micros,
                f.session_ids == session_ids.deep_view(),
                forall|i: int|
                    0 <= i < n ==> (#[trigger] session_ids@[i])@.len() == 15 && lowercase_chars(
                        session_ids@[i]@,
                    ),
                out@ == lines_text(lines@),
                lines@ == base_lines + Seq::new(j as nat, |i: int| session_line(f, i)),
            decreases n - j,
        {
            let mut se_line = String::from_str("Sessions=[SessionID=");
            let sid = &session_ids[j];
            se_line.append(sid.as_str());
            se_line.append(";Device=Chrome;Timestamp=");
            let sess_micros = now_micros.saturating_add((j as u64) * 1000000);
            proof {
                assert(sess_micros as nat == plus_secs(now_micros, j as int));
                assert(f.session_ids[j as int] == session_ids@[j as int]@);
            }
            let ts_sess = ts_decimal(sess_micros);
            se_line.append(ts_sess.as_str());
            se_line.append("]");
            proof {
                assert(se_line@ == session_line(f, j as int));
            }
            lines = push_line(&mut out, &se_line, lines);
            proof {
                assert(lines@ =~= base_lines + Seq::new(
                    (j + 1) as nat,
                    |i: int| session_line(f, i),
                ));
            }
            j = j + 1;
        }
        let blank_end = String::new();
        lines = push_line(&mut out, &blank_end, lines);
        proof {
            assert(session_ids.deep_view().len() == session_ids@.len());
            assert(lines@ =~= record_lines(f));
            assert(out@ == encode_spec(f));
            assert(valid_fields(f) && f.user_id == record_id && f.now_micros == now_micros);
        }
        let bytes = out.as_bytes_vec();
        proof {
            assert(bytes@ == encoded_record(f));
            assert(record_ok_at(record_id, now_micros, bytes@));
        }
        bytes
    }

    /// One record block for `record_id`: reads the wall clock once, then
    /// draws every random field from `rng`.
    pub fn generate_record_bytes<R: RandomSource>(record_id: u64, rng: &mut R) -> (r: Vec<u8>)
        ensures
            record_ok(record_id, r@),
    {
        let now = wall_clock_micros();
        let r = Self::generate_record_bytes_at(record_id, now, rng);
        proof {
            let f = choose|f: RecordFields|
                valid_fields(f) && f.user_id == record_id && f.now_micros == now && r@
                    == encoded_record(f);
            assert(valid_fields(f) && f.user_id == record_id && r@ == encoded_record(f));
        }
        r
    }
}

/// One record for `record_id`, drawn from a fresh thread-local source; the
/// unit of work each parallel worker runs.
pub fn generate_one(record_id: u64) -> (r: Vec<u8>)
    ensures
        record_ok(record_id, r@),
{
    let mut rng = ThreadRandom::new();
    FwonRecordGenerator::generate_record_bytes(record_id, &mut rng)
}

/// Relies on rayon: a parallel map over the range `0 .. num_records`,
/// collected into a vector, keeps index order, and element `i` is an output
/// of the mapped function applied to `i`; `generate_one` guarantees
/// `record_ok` of every output.
#[verifier::external_body]
fn par_generate(num_records: u64) -> (r: Vec<Vec<u8>>)
    ensures
        r@.len() == num_records as nat,
        forall|i: int| 0 <= i < num_records ==> record_ok(i as u64, #[trigger] r@[i]@),
{
    (0..num_records).into_par_iter().map(generate_one).collect()
}

/// Record blocks for all identifiers in `0 .. num_records`, in identifier
/// order: element `i` is the encoding of a record whose `UserID` is `i`.
/// Construction is fanned out across parallel workers, each owning its own
/// random source; for zero records the result is empty.
pub fn generate_records_parallel(num_records: u64) -> (r: Vec<Vec<u8>>)
    ensures
        r@.len() == num_records as nat,
        forall|i: int| 0 <= i < num_records ==> record_ok(i as u64, #[trigger] r@[i]@),
{
    par_generate(num_records)
}

} // verus!
