//! The request surface: a closed set of request kinds, dispatched through
//! one verified entry point. The caller (whatever speaks the wire protocol)
//! only maps paths and body fields onto `Request` and serialises the
//! `Response` it gets back; every decision in between is verified.

use vstd::prelude::*;

use vstd::string::{StrSliceExecFns, StringExecFns};

use crate::clock::now_timestamp;
use crate::entropy::random_in_range;
use crate::identity::new_id;
use crate::lifecycle::new_game;
use crate::matchmaker::search_for_human_game;
use crate::model::{has_identity, has_session, wf_store};
use crate::moves::submit_move;
use crate::response::{Response, ResponseV};
use crate::status::get_status_of_game;
use crate::steps::{
    new_game_step, register_identity, search_step, status_report_step, submit_step,
};
use crate::store::{GameStore, Mode};

verus! {

/// One inbound call, with the fields its endpoint requires already present.
/// A request that arrived without a required field never reaches the engine:
/// rejecting it is the wire layer's business.
pub enum Request {
    NewId,
    NewGame { id: String, kind: String },
    GetStatusOfGame { id: String },
    SearchForHumanGame { id: String },
    MakeMove { id: String, mv: String },
    Unknown { url: String },
}

/// Whether two string slices hold the same characters.
pub fn eq_str(a: &str, b: &str) -> (r: bool)
    ensures
        r == (a@ == b@),
{
    let n = a.unicode_len();
    if n != b.unicode_len() {
        return false;
    }
    let mut i: usize = 0;
    while i < n
        invariant
            n == a@.len(),
            n == b@.len(),
            i <= n,
            forall|k: int| 0 <= k < i ==> a@[k] == b@[k],
        decreases n - i,
    {
        if a.get_char(i) != b.get_char(i) {
            return false;
        }
        i = i + 1;
    }
    proof {
        assert(a@ =~= b@);
    }
    true
}

/// A decimal digit.
pub open spec fn is_digit(c: char) -> bool {
    '0' <= c && c <= '9'
}

/// The value of a decimal digit.
pub open spec fn digit_val(c: char) -> int {
    c as u32 - 48
}

/// Every character is a decimal digit.
pub open spec fn all_digits(s: Seq<char>) -> bool {
    forall|i: int| 0 <= i < s.len() ==> is_digit(#[trigger] s[i])
}

/// The number a string of decimal digits denotes.
pub open spec fn dec_value(s: Seq<char>) -> int
    decreases s.len(),
{
    if s.len() == 0 {
        0
    } else {
        dec_value(s.drop_last()) * 10 + digit_val(s.last())
    }
}

/// A digit string denotes a number that is not negative.
proof fn lemma_dec_value_nonneg(s: Seq<char>)
    requires
        all_digits(s),
    ensures
        dec_value(s) >= 0,
    decreases s.len(),
{
    if s.len() > 0 {
        assert(forall|i: int| 0 <= i < s.drop_last().len() ==> #[trigger] s.drop_last()[i] == s[i]);
        lemma_dec_value_nonneg(s.drop_last());
        assert(is_digit(s.last()));
    }
}

/// A prefix of a digit string never denotes more than the whole string.
proof fn lemma_dec_value_grows(s: Seq<char>, m: int)
    requires
        0 <= m <= s.len(),
        all_digits(s),
    ensures
        dec_value(s.take(m)) <= dec_value(s),
    decreases s.len() - m,
{
    if m == s.len() {
        assert(s.take(m) =~= s);
    } else {
        let p = s.take(m);
        let q = s.take(m + 1);
        assert(q.drop_last() =~= p);
        assert(q.last() == s[m]);
        assert(forall|i: int| 0 <= i < p.len() ==> #[trigger] p[i] == s[i]);
        lemma_dec_value_nonneg(p);
        assert(is_digit(s[m]));
        assert(dec_value(q) == dec_value(p) * 10 + digit_val(s[m]));
        assert(dec_value(p) * 10 >= dec_value(p)) by (nonlinear_arith)
            requires
                dec_value(p) >= 0,
        ;
        lemma_dec_value_grows(s, m + 1);
    }
}

/// Parse a move field: the number a non-empty, all-digit string denotes, as
/// long as it fits the move type's width; everything else is rejected.
pub fn parse_move(s: &str) -> (r: Option<u8>)
    ensures
        match r {
            Some(v) => s@.len() >= 1 && all_digits(s@) && dec_value(s@) == v as int,
            None => s@.len() == 0 || !all_digits(s@) || dec_value(s@) > 255,
        },
{
    let n = s.unicode_len();
    if n == 0 {
        return None;
    }
    let mut acc: u32 = 0;
    let mut i: usize = 0;
    while i < n
        invariant
            n == s@.len(),
            i <= n,
            acc <= 255,
            all_digits(s@.take(i as int)),
            acc as int == dec_value(s@.take(i as int)),
        decreases n - i,
    {
        let c = s.get_char(i);
        if !('0' <= c && c <= '9') {
            proof {
                assert(!is_digit(s@[i as int]));
            }
            return None;
        }
        let d = (c as u32) - 48;
        acc = acc * 10 + d;
        proof {
            let p = s@.take(i as int);
            let q = s@.take(i + 1 as int);
            assert(q.drop_last() =~= p);
            assert(q.last() == s@[i as int]);
            assert(forall|k: int| 0 <= k < q.len() ==> #[trigger] q[k] == s@[k]);
            assert(all_digits(q));
            assert(acc as int == dec_value(q));
        }
        if acc > 255 {
            proof {
                if all_digits(s@) {
                    lemma_dec_value_grows(s@, i + 1 as int);
                }
            }
            return None;
        }
        i = i + 1;
    }
    proof {
        assert(s@.take(n as int) =~= s@);
    }
    Some(acc as u8)
}

/// The answer body for a path the service does not serve.
pub fn unresolved_message(url: &str) -> (r: String)
    ensures
        r@ == "The provided url "@ + url@ + " could not be resolved."@,
{
    let mut s = String::from_str("The provided url ");
    s.append(url);
    s.append(" could not be resolved.");
    s
}

/// The opponent kind a request field names: anything but `human` asks for
/// the scripted player.
pub open spec fn mode_of(kind: Seq<char>) -> Mode {
    if kind == "human"@ {
        Mode::HumanVsHuman
    } else {
        Mode::HumanVsBot
    }
}

/// A move request as a transition: a well-formed move field goes to the
/// turn engine, anything else is rejected with the store untouched.
pub open spec fn move_request_step(
    st: crate::model::StoreV,
    token: Seq<char>,
    mvs: Seq<char>,
    now: i64,
    bot: u8,
) -> (crate::model::StoreV, ResponseV) {
    if mvs.len() >= 1 && all_digits(mvs) && dec_value(mvs) <= 255 {
        submit_step(st, token, dec_value(mvs) as u8, now, bot)
    } else {
        (st, ResponseV::Failure)
    }
}

/// Serve one request: read the clock once, draw whatever randomness the
/// endpoint needs, and run the verified transition for the request kind.
pub fn formulate_response(store: &mut GameStore, req: &Request) -> (r: Response)
    requires
        wf_store(old(store)@),
        old(store)@.sessions.len() < u64::MAX,
    ensures
        wf_store(final(store)@),
        match req {
            Request::NewId => match r@ {
                ResponseV::NewIdentity { id } => id.len() == 32 && !has_identity(
                    old(store)@,
                    id,
                ) && final(store)@ == register_identity(old(store)@, id),
                ResponseV::Failure => final(store)@ == old(store)@ && old(
                    store,
                )@.identities.len() > 0,
                _ => false,
            },
            Request::NewGame { id, kind } => exists|now: i64, sid: u64|
                sid >= 1 && !has_session(old(store)@, sid) && (final(store)@, r@)
                    == new_game_step(old(store)@, id@, mode_of(kind@), now, sid),
            Request::GetStatusOfGame { id } => exists|now: i64|
                (final(store)@, r@) == status_report_step(old(store)@, id@, now),
            Request::SearchForHumanGame { id } => exists|now: i64|
                (final(store)@, r@) == search_step(old(store)@, id@, now),
            Request::MakeMove { id, mv } => exists|now: i64, bot: u8|
                bot <= 2 && (final(store)@, r@) == move_request_step(
                    old(store)@,
                    id@,
                    mv@,
                    now,
                    bot,
                ),
            Request::Unknown { url } => final(store)@ == old(store)@ && r@
                == (ResponseV::Message { text: "The provided url "@ + url@ + " could not be resolved."@ }),
        },
{
    match req {
        Request::NewId => new_id(store),
        Request::NewGame { id, kind } => {
            let mode = if eq_str(kind.as_str(), "human") {
                Mode::HumanVsHuman
            } else {
                Mode::HumanVsBot
            };
            let now = now_timestamp();
            let r = new_game(store, id, mode, now);
            proof {
                let sid = choose|sid: u64|
                    sid >= 1 && !has_session(old(store)@, sid) && (store@, r@) == new_game_step(
                        old(store)@,
                        id@,
                        mode,
                        now,
                        sid,
                    );
                assert((store@, r@) == new_game_step(old(store)@, id@, mode_of(kind@), now, sid));
            }
            r
        },
        Request::GetStatusOfGame { id } => {
            let now = now_timestamp();
            let r = get_status_of_game(store, id, now);
            proof {
                assert((store@, r@) == status_report_step(old(store)@, id@, now));
            }
            r
        },
        Request::SearchForHumanGame { id } => {
            let now = now_timestamp();
            let r = search_for_human_game(store, id, now);
            proof {
                assert((store@, r@) == search_step(old(store)@, id@, now));
            }
            r
        },
        Request::MakeMove { id, mv } => {
            let now = now_timestamp();
            match parse_move(mv.as_str()) {
                Some(v) => {
                    let bot = random_in_range(0, 2) as u8;
                    let r = submit_move(store, id, v, now, bot);
                    proof {
                        lemma_dec_value_nonneg(mv@);
                        assert((store@, r@) == move_request_step(old(store)@, id@, mv@, now, bot));
                    }
                    r
                },
                None => {
                    proof {
                        assert((store@, Response::Failure@) == move_request_step(
                            old(store)@,
                            id@,
                            mv@,
                            now,
                            0u8,
                        ));
                    }
                    Response::Failure
                },
            }
        },
        Request::Unknown { url } => {
            let text = unresolved_message(url.as_str());
            Response::Message { text }
        },
    }
}

} // verus!
