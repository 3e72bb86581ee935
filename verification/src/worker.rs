//! The persistence worker's step: one payload received from the
//! broadcaster, decoded and — if well-formed — appended to the history
//! table.
//!
//! The worker is the one process-lifetime subscriber that feeds storage.
//! Persistence is best-effort and decoupled from delivery: a malformed
//! payload is dropped here, permanently absent from history, while the
//! broadcast to live clients has already happened. The loop around this
//! step (receive, step, log) is process wiring; the decision — what is
//! stored, and that a malformed frame changes nothing and never panics —
//! is all here.

use vstd::prelude::*;

use crate::msg::ChatMessageView;
use crate::store::Store;
use crate::store::spec_query;
use crate::wire::spec_parse_message_pack;

verus! {

/// The worker loop's effect on the table, as one function: each pending
/// payload in order, decoded and appended under the next id if well-formed,
/// skipped if not — exactly one [`persist_payload`] step per payload.
pub open spec fn spec_persist_all(
    rows: Seq<ChatMessageView>,
    texts: Seq<Seq<char>>,
) -> Seq<ChatMessageView>
    decreases texts.len(),
{
    if texts.len() == 0 {
        rows
    } else {
        let stepped = match spec_parse_message_pack(texts.first()) {
            Some(v) => rows.push(
                ChatMessageView {
                    id: rows.len() as int + 1,
                    name: v.name,
                    message: v.message,
                    date: v.date,
                },
            ),
            None => rows,
        };
        spec_persist_all(stepped, texts.drop_first())
    }
}

/// Processing well-formed payloads appends their decoded rows in order,
/// one fresh id each, and touches nothing already stored.
proof fn lemma_persist_all_appends(rows0: Seq<ChatMessageView>, texts: Seq<Seq<char>>)
    requires
        forall|t: int|
            0 <= t < texts.len() ==> (#[trigger] spec_parse_message_pack(texts[t])) is Some,
    ensures
        spec_persist_all(rows0, texts).len() == rows0.len() + texts.len(),
        forall|j: int|
            0 <= j < rows0.len() ==> #[trigger] spec_persist_all(rows0, texts)[j] == rows0[j],
        forall|t: int|
            0 <= t < texts.len() ==> #[trigger] spec_persist_all(rows0, texts)[rows0.len() + t]
                == (ChatMessageView {
                id: rows0.len() + t + 1,
                name: (spec_parse_message_pack(texts[t])->0).name,
                message: (spec_parse_message_pack(texts[t])->0).message,
                date: (spec_parse_message_pack(texts[t])->0).date,
            }),
    decreases texts.len(),
{
    if texts.len() == 0 {
    } else {
        assert(spec_parse_message_pack(texts[0]) is Some);
        let v = spec_parse_message_pack(texts.first())->0;
        let row = ChatMessageView {
            id: rows0.len() as int + 1,
            name: v.name,
            message: v.message,
            date: v.date,
        };
        let rows1 = rows0.push(row);
        let rest = texts.drop_first();
        assert(forall|t: int| 0 <= t < rest.len() ==> #[trigger] rest[t] == texts[t + 1]);
        lemma_persist_all_appends(rows1, rest);
        let res = spec_persist_all(rows0, texts);
        assert(res == spec_persist_all(rows1, rest));
        assert forall|j: int| 0 <= j < rows0.len() implies #[trigger] res[j] == rows0[j] by {
            assert(res[j] == rows1[j]);
            assert(rows1[j] == rows0[j]);
        }
        assert forall|t: int|
            0 <= t < texts.len() implies #[trigger] res[rows0.len() + t] == (ChatMessageView {
            id: rows0.len() + t + 1,
            name: (spec_parse_message_pack(texts[t])->0).name,
            message: (spec_parse_message_pack(texts[t])->0).message,
            date: (spec_parse_message_pack(texts[t])->0).date,
        }) by {
            if t == 0 {
                assert(res[rows1.len() - 1] == rows1[rows1.len() - 1]);
                assert(rows1[rows0.len() as int] == row);
            } else {
                assert(res[rows1.len() + (t - 1)] == (ChatMessageView {
                    id: rows1.len() + (t - 1) + 1,
                    name: (spec_parse_message_pack(rest[t - 1])->0).name,
                    message: (spec_parse_message_pack(rest[t - 1])->0).message,
                    date: (spec_parse_message_pack(rest[t - 1])->0).date,
                }));
                assert(rest[t - 1] == texts[t]);
            }
        }
    }
}

/// With the standard id scheme a query bounded exclusively by `i64::MAX`
/// misses nothing: it returns the newest `limit` rows, newest first.
proof fn lemma_query_all_suffix(rows: Seq<ChatMessageView>, limit: int)
    requires
        forall|j: int| 0 <= j < rows.len() ==> (#[trigger] rows[j]).id == j + 1,
        rows.len() < 0x7fff_ffff_ffff_ffff,
    ensures
        spec_query(rows, 0x7fff_ffff_ffff_ffff, limit).len() == if limit < 0 {
            0
        } else if limit <= rows.len() {
            limit
        } else {
            rows.len() as int
        },
        forall|t: int|
            0 <= t < spec_query(rows, 0x7fff_ffff_ffff_ffff, limit).len() ==> #[trigger] spec_query(
                rows,
                0x7fff_ffff_ffff_ffff,
                limit,
            )[t] == rows[rows.len() - 1 - t],
    decreases rows.len(),
{
    if limit <= 0 || rows.len() == 0 {
    } else {
        let rest = rows.drop_last();
        assert(rows.last() == rows[rows.len() - 1]);
        assert(rows.last().id == rows.len());
        assert(forall|j: int| 0 <= j < rest.len() ==> (#[trigger] rest[j]).id == j + 1);
        lemma_query_all_suffix(rest, limit - 1);
        let res = spec_query(rows, 0x7fff_ffff_ffff_ffff, limit);
        let sub = spec_query(rest, 0x7fff_ffff_ffff_ffff, limit - 1);
        assert(res == seq![rows.last()] + sub);
        assert forall|t: int|
            0 <= t < res.len() implies #[trigger] res[t] == rows[rows.len() - 1 - t] by {
            if t == 0 {
                assert(res[0] == rows.last());
            } else {
                assert(res[t] == sub[t - 1]);
                assert(sub[t - 1] == rest[rest.len() - 1 - (t - 1)]);
                assert(rest[rows.len() - 1 - t] == rows[rows.len() - 1 - t]);
            }
        }
    }
}

/// Law: the pipeline loses nothing and keeps order, end to end. Payloads
/// published after the persistence worker subscribed are exactly what it
/// has pending (see `lemma_subscribed_before_sees_batch`), and within the
/// capacity window it receives all of them in publish order (see
/// `Broadcaster::drain`). If every payload of that batch is well-formed,
/// then after one worker step per payload a history query bounded by
/// `i64::MAX` for the batch's size returns precisely the batch, newest
/// first: row `t` carries the fields of payload `N - 1 - t` and the id it
/// was assigned — nothing lost, nothing reordered, nothing duplicated.
pub proof fn lemma_pipeline_delivers_batch(rows0: Seq<ChatMessageView>, texts: Seq<Seq<char>>)
    requires
        forall|j: int| 0 <= j < rows0.len() ==> (#[trigger] rows0[j]).id == j + 1,
        rows0.len() + texts.len() < 0x7fff_ffff_ffff_ffff,
        forall|t: int|
            0 <= t < texts.len() ==> (#[trigger] spec_parse_message_pack(texts[t])) is Some,
    ensures
        spec_query(
            spec_persist_all(rows0, texts),
            0x7fff_ffff_ffff_ffff,
            texts.len() as int,
        ).len() == texts.len(),
        forall|t: int|
            0 <= t < texts.len() ==> #[trigger] spec_query(
                spec_persist_all(rows0, texts),
                0x7fff_ffff_ffff_ffff,
                texts.len() as int,
            )[t] == (ChatMessageView {
                id: rows0.len() + texts.len() - t,
                name: (spec_parse_message_pack(texts[texts.len() - 1 - t])->0).name,
                message: (spec_parse_message_pack(texts[texts.len() - 1 - t])->0).message,
                date: (spec_parse_message_pack(texts[texts.len() - 1 - t])->0).date,
            }),
{
    lemma_persist_all_appends(rows0, texts);
    let rows1 = spec_persist_all(rows0, texts);
    assert forall|j: int| 0 <= j < rows1.len() implies (#[trigger] rows1[j]).id == j + 1 by {
        if j < rows0.len() {
            assert(rows1[j] == rows0[j]);
        } else {
            assert(rows1[rows0.len() + (j - rows0.len())] == (ChatMessageView {
                id: rows0.len() + (j - rows0.len()) + 1,
                name: (spec_parse_message_pack(texts[j - rows0.len()])->0).name,
                message: (spec_parse_message_pack(texts[j - rows0.len()])->0).message,
                date: (spec_parse_message_pack(texts[j - rows0.len()])->0).date,
            }));
        }
    }
    lemma_query_all_suffix(rows1, texts.len() as int);
    let res = spec_query(rows1, 0x7fff_ffff_ffff_ffff, texts.len() as int);
    assert forall|t: int|
        0 <= t < texts.len() implies #[trigger] res[t] == (ChatMessageView {
        id: rows0.len() + texts.len() - t,
        name: (spec_parse_message_pack(texts[texts.len() - 1 - t])->0).name,
        message: (spec_parse_message_pack(texts[texts.len() - 1 - t])->0).message,
        date: (spec_parse_message_pack(texts[texts.len() - 1 - t])->0).date,
    }) by {
        assert(res[t] == rows1[rows1.len() - 1 - t]);
        let u = texts.len() - 1 - t;
        assert(rows1[rows0.len() + u] == (ChatMessageView {
            id: rows0.len() + u + 1,
            name: (spec_parse_message_pack(texts[u])->0).name,
            message: (spec_parse_message_pack(texts[u])->0).message,
            date: (spec_parse_message_pack(texts[u])->0).date,
        }));
        assert(rows1.len() - 1 - t == rows0.len() + u);
    }
}

/// Handles one broadcast payload: decodes it as a message pack and inserts
/// it, returning the assigned id; a malformed payload is dropped, the
/// store left exactly as it was.
pub fn persist_payload(store: &mut Store, text: &str) -> (r: Option<i64>)
    requires
        old(store).wf(),
        spec_parse_message_pack(text@) is Some ==> old(store).rows_view().len()
            < 0x7fff_ffff_ffff_fffe,
    ensures
        final(store).wf(),
        match spec_parse_message_pack(text@) {
            Some(v) => {
                &&& r == Some((old(store).rows_view().len() + 1) as i64)
                &&& final(store).rows_view() == old(store).rows_view().push(
                    ChatMessageView {
                        id: old(store).rows_view().len() as int + 1,
                        name: v.name,
                        message: v.message,
                        date: v.date,
                    },
                )
            },
            None => r is None && *final(store) == *old(store),
        },
{
    match crate::wire::parse_message_pack(text) {
        Some(mp) => Some(store.insert_message(&mp)),
        None => None,
    }
}

} // verus!
