//! The message handler: recognize a qualifying message, route its command,
//! run the eligibility gate and the draw engine, and produce the reply.

use vstd::prelude::*;
use vstd::string::StrSliceExecFns;
use crate::commands::Command;
use crate::commands::first_token;
use crate::commands::first_token_span;
use crate::commands::fortune_reply;
use crate::commands::fortune_text;
use crate::commands::help_reply;
use crate::commands::help_text;
use crate::commands::parse_command;
use crate::commands::parse_spec;
use crate::commands::pong_reply;
use crate::commands::pong_text;
use crate::commands::throttle_reply;
use crate::commands::throttle_text;
use crate::commands::unknown_reply;
use crate::commands::unknown_text;
use crate::draw::draw_index;
use crate::draw::fresh_draw;
use crate::draw::reset_if_full;
use crate::pool::Pool;
use crate::records::check_and_touch;
use crate::records::cooldown_hours;
use crate::records::draw_allowed;
use crate::records::whole_hours;
use crate::records::Eligibility;
use crate::table::has_identity;
use crate::table::RecordModel;
use crate::table::UserTable;
use crate::table::META_IDENTITY;
use crate::text::replace_marker;
use crate::text::resolve_alias;
use crate::text::resolve_alias_spec;
use crate::text::str_equal;

verus! {

/// The responder's own display name; its own messages are ignored.
pub open spec fn own_name() -> Seq<char> {
    "Kai's Cool Bot"@
}

/// The view of an optional reply.
pub open spec fn view_opt(r: Option<String>) -> Option<Seq<char>> {
    match r {
        Option::Some(s) => Option::Some(s@),
        Option::None => Option::None,
    }
}

/// The position of the record carrying identity `id`.
pub open spec fn index_of(t: Seq<RecordModel>, id: u64) -> int {
    choose|i: int| 0 <= i < t.len() && t[i].identity == id
}

/// The store after the lazy creation step: unchanged when `id` is already
/// present, otherwise extended by a fresh record for `id`.
pub open spec fn stored_or_fresh(t: Seq<RecordModel>, id: u64) -> Seq<RecordModel> {
    if has_identity(t, id) {
        t
    } else {
        t.push(RecordModel { identity: id, history: Set::empty(), last_draw_time: None })
    }
}

/// What handling the dispense command does to the store and what it
/// replies, for requester `id` with display name `name`, against the pool
/// texts and the wall-clock time `now`.
pub open spec fn advice_case(
    before: Seq<RecordModel>,
    after: Seq<RecordModel>,
    id: u64,
    name: Seq<char>,
    pool_texts: Seq<Seq<char>>,
    now: u64,
    reply: Option<Seq<char>>,
) -> bool {
    let n = pool_texts.len() as int;
    if !has_identity(before, META_IDENTITY) {
        // the meta record is missing: surface no reply, change nothing
        &&& after == before
        &&& reply is None
    } else {
        let base = stored_or_fresh(before, id);
        let ui = index_of(base, id);
        let mi = index_of(base, META_IDENTITY);
        let u0 = base[ui];
        let m0 = base[mi];
        if !draw_allowed(u0.last_draw_time, now) {
            // throttled: report the remaining hours, touch nothing
            &&& after == before
            &&& reply == Option::Some(
                throttle_reply(
                    (cooldown_hours() - whole_hours(u0.last_draw_time->0, now)) as u64,
                ),
            )
        } else {
            let uh = reset_if_full(u0.history, n);
            let mh = reset_if_full(m0.history, n);
            if forall|j: int| 0 <= j < n ==> uh.contains(j) || mh.contains(j) {
                // no index is eligible even after the resets: skip the draw
                &&& after == before
                &&& reply is None
            } else {
                exists|pick: int, hu: Set<int>, hm: Set<int>|
                    {
                        &&& #[trigger] fresh_draw(uh, pick, hu, n)
                        &&& #[trigger] fresh_draw(mh, pick, hm, n)
                        &&& after == base.update(
                            ui,
                            RecordModel {
                                identity: id,
                                history: hu,
                                last_draw_time: Option::Some(now),
                            },
                        ).update(
                            mi,
                            RecordModel {
                                identity: META_IDENTITY,
                                history: hm,
                                last_draw_time: m0.last_draw_time,
                            },
                        )
                        &&& reply == Option::Some(
                            replace_marker(pool_texts[pick], resolve_alias_spec(name)),
                        )
                    }
            }
        }
    }
}

/// What handling one inbound message does to the store and what it
/// replies, for the requester `id` with display name `name`, against the
/// pool texts and the wall-clock time `now`.
pub open spec fn handled(
    before: Seq<RecordModel>,
    after: Seq<RecordModel>,
    id: u64,
    name: Seq<char>,
    content: Seq<char>,
    pool_texts: Seq<Seq<char>>,
    now: u64,
    reply: Option<Seq<char>>,
) -> bool {
    let own = name == own_name();
    let is_cmd = !own && content.len() > 0 && content[0] == '!';
    let tok = first_token(content.skip(1));
    &&& (own ==> reply is None && after == before)
    &&& (!is_cmd ==> reply is None && after == before)
    &&& (is_cmd && tok.len() == 0 ==> reply is None && after == before)
    &&& (is_cmd && tok.len() > 0 ==> match parse_spec(tok) {
        Option::None => reply == Option::Some(unknown_reply(content.skip(1))) && after == before,
        Option::Some(Command::Help) => reply == Option::Some(help_reply()) && after == before,
        Option::Some(Command::Ping) => reply == Option::Some(pong_reply()) && after == before,
        Option::Some(Command::Fortune) => reply == Option::Some(fortune_reply()) && after
            == before,
        Option::Some(Command::Advice) => advice_case(
            before,
            after,
            id,
            name,
            pool_texts,
            now,
            reply,
        ),
    })
}

/// Handle one inbound message.  Only messages that begin with the command
/// prefix and carry a command token get a reply: the command list, the pong
/// acknowledgment, the deprecation notice, the unknown-command reply, or —
/// for the dispense command — the outcome of the eligibility gate and the
/// draw engine.  Only the dispense command ever mutates the store.
pub fn handle_message(
    pool: &Pool,
    table: &mut UserTable,
    author_id: u64,
    author_name: &str,
    content: &str,
    now: u64,
) -> (reply: Option<String>)
    requires
        old(table).wf(),
        old(table).pool_size() == pool@.len(),
        pool@.len() > 0,
        author_id != META_IDENTITY,
    ensures
        final(table).wf(),
        final(table).pool_size() == old(table).pool_size(),
        handled(
            old(table)@,
            final(table)@,
            author_id,
            author_name@,
            content@,
            pool@,
            now,
            view_opt(reply),
        ),
{
    if str_equal(author_name, "Kai's Cool Bot") {
        return None;
    }
    let n = content.unicode_len();
    if n == 0 {
        return None;
    }
    if content.get_char(0) != '!' {
        return None;
    }
    let rest = content.substring_char(1, n);
    proof {
        assert(rest@ =~= content@.skip(1));
    }
    let span = first_token_span(rest);
    if span.0 == span.1 {
        proof {
            assert(first_token(content@.skip(1)).len() == 0);
        }
        return None;
    }
    let token = rest.substring_char(span.0, span.1);
    match parse_command(token) {
        Option::None => Some(unknown_text(rest)),
        Option::Some(Command::Help) => Some(help_text()),
        Option::Some(Command::Ping) => Some(pong_text()),
        Option::Some(Command::Fortune) => Some(fortune_text()),
        Option::Some(Command::Advice) => advice(pool, table, author_id, author_name, now),
    }
}

/// Handle the dispense command for one requester.
fn advice(pool: &Pool, table: &mut UserTable, author_id: u64, author_name: &str, now: u64) -> (reply:
    Option<String>)
    requires
        old(table).wf(),
        old(table).pool_size() == pool@.len(),
        pool@.len() > 0,
        author_id != META_IDENTITY,
    ensures
        final(table).wf(),
        final(table).pool_size() == old(table).pool_size(),
        advice_case(
            old(table)@,
            final(table)@,
            author_id,
            author_name@,
            pool@,
            now,
            view_opt(reply),
        ),
{
    let ghost n = pool@.len() as int;
    let meta_idx = match table.lookup(META_IDENTITY) {
        Option::None => {
            return None;
        },
        Option::Some(m) => m,
    };
    proof {
        assert(has_identity(old(table)@, META_IDENTITY));
    }
    let user_idx = table.find_or_create(author_id);
    let ghost base = table@;
    proof {
        assert(base == stored_or_fresh(old(table)@, author_id));
        table.lemma_wf_unique();
        assert(base[user_idx as int].identity == author_id);
        assert(base[meta_idx as int] == old(table)@[meta_idx as int]);
        assert(base[meta_idx as int].identity == META_IDENTITY);
        assert(index_of(base, author_id) == user_idx as int);
        assert(index_of(base, META_IDENTITY) == meta_idx as int);
        assert(user_idx != meta_idx);
    }
    let mut user_rec = table.record_at(user_idx);
    match check_and_touch(&mut user_rec, now) {
        Eligibility::Throttled(h) => {
            proof {
                // a freshly created record has never drawn, so a denial
                // proves the record was already stored
                assert(has_identity(old(table)@, author_id));
                assert(base == old(table)@);
            }
            Some(throttle_text(h))
        },
        Eligibility::Allowed => {
            let mut meta_rec = table.record_at(meta_idx);
            let name = resolve_alias(author_name);
            let pool_len = pool.len();
            match draw_index(pool_len, &mut user_rec.history, &mut meta_rec.history) {
                Option::None => {
                    proof {
                        let uh = reset_if_full(base[user_idx as int].history, n);
                        let mh = reset_if_full(base[meta_idx as int].history, n);
                        assert(forall|j: int| 0 <= j < n ==> uh.contains(j) || mh.contains(j));
                        if !has_identity(old(table)@, author_id) {
                            // a fresh requester always leaves an eligible
                            // index, so this branch proves the record was
                            // already stored
                            assert(base[user_idx as int].history =~= Set::<int>::empty());
                            assert(uh =~= Set::<int>::empty());
                            assert(forall|j: int| 0 <= j < n ==> mh.contains(j));
                            meta_rec.history.lemma_in_range();
                            assert(mh =~= vstd::set_lib::set_int_range(0, n));
                            if base[meta_idx as int].history == vstd::set_lib::set_int_range(
                                0,
                                n,
                            ) {
                                assert(mh == Set::<int>::empty());
                                assert(mh.contains(0));
                                assert(false);
                            } else {
                                assert(false);
                            }
                        }
                        assert(base == old(table)@);
                    }
                    None
                },
                Option::Some(pick) => {
                    let template = pool.template(pick);
                    let advice_reply = crate::text::substitute(template, name);
                    table.put(user_idx, user_rec);
                    table.put(meta_idx, meta_rec);
                    proof {
                        let uh = reset_if_full(base[user_idx as int].history, n);
                        let mh = reset_if_full(base[meta_idx as int].history, n);
                        let hu = user_rec.history@;
                        let hm = meta_rec.history@;
                        assert(fresh_draw(uh, pick as int, hu, n));
                        assert(fresh_draw(mh, pick as int, hm, n));
                        assert(table@ =~~= base.update(
                            user_idx as int,
                            RecordModel {
                                identity: author_id,
                                history: hu,
                                last_draw_time: Option::Some(now),
                            },
                        ).update(
                            meta_idx as int,
                            RecordModel {
                                identity: META_IDENTITY,
                                history: hm,
                                last_draw_time: base[meta_idx as int].last_draw_time,
                            },
                        ));
                    }
                    Some(advice_reply)
                },
            }
        },
    }
}

/// Relies on chrono::Utc::now: the current wall-clock time as unix seconds.
/// Nothing can be promised of a clock reading.
#[verifier::external_body]
fn wall_clock_seconds() -> (t: i64) {
    chrono::Utc::now().timestamp()
}

/// Handle one inbound message against the wall clock.  Behaves as
/// `handle_message` at whatever time the clock reads (times before the
/// epoch count as the epoch).
pub fn respond(
    pool: &Pool,
    table: &mut UserTable,
    author_id: u64,
    author_name: &str,
    content: &str,
) -> (reply: Option<String>)
    requires
        old(table).wf(),
        old(table).pool_size() == pool@.len(),
        pool@.len() > 0,
        author_id != META_IDENTITY,
    ensures
        final(table).wf(),
        final(table).pool_size() == old(table).pool_size(),
        exists|now: u64|
            #[trigger] handled(
                old(table)@,
                final(table)@,
                author_id,
                author_name@,
                content@,
                pool@,
                now,
                view_opt(reply),
            ),
{
    let t = wall_clock_seconds();
    let now: u64 = if t < 0 {
        0
    } else {
        t as u64
    };
    handle_message(pool, table, author_id, author_name, content, now)
}

} // verus!
