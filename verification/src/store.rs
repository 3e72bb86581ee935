//! The storage gateway's semantics: an append-only table of chat messages
//! with engine-assigned, strictly increasing ids, and the paginated
//! newest-first history query.
//!
//! The durable engine itself (an embedded key-ordered table store reached
//! through a connection pool) is an external collaborator: the process
//! wiring mirrors every [`Store`] operation onto it. What is verified here
//! is what the operations mean: which id an insert assigns, and exactly
//! which rows, in which order, a history query returns.

use vstd::prelude::*;

use crate::msg::ChatMessage;
use crate::msg::ChatMessageView;
use crate::msg::MessagePack;

verus! {

/// The rows of `spec_query(rows, before_id, limit)`: scanning `rows` newest
/// (last) to oldest (first), collect the first `limit` rows whose id is
/// strictly below `before_id`. On an id-ascending table this is exactly
/// "up to `limit` rows with `id < before_id`, ordered by id descending".
pub open spec fn spec_query(
    rows: Seq<ChatMessageView>,
    before_id: int,
    limit: int,
) -> Seq<ChatMessageView>
    decreases rows.len(),
{
    if limit <= 0 || rows.len() == 0 {
        Seq::empty()
    } else if rows.last().id < before_id {
        seq![rows.last()] + spec_query(rows.drop_last(), before_id, limit - 1)
    } else {
        spec_query(rows.drop_last(), before_id, limit)
    }
}

/// Law: on a table whose ids strictly increase (as they always do here),
/// a history query returns at most `limit` rows; every returned row has
/// `id < before_id`; no row outranks the newest in the table; and the
/// returned ids strictly decrease — newest first, no duplicates.
pub proof fn lemma_query_bounds(rows: Seq<ChatMessageView>, before_id: int, limit: int)
    requires
        forall|j: int, k: int|
            0 <= j < k < rows.len() ==> (#[trigger] rows[j]).id < (#[trigger] rows[k]).id,
    ensures
        limit >= 0 ==> spec_query(rows, before_id, limit).len() <= limit,
        forall|j: int|
            0 <= j < spec_query(rows, before_id, limit).len() ==> (#[trigger] spec_query(
                rows,
                before_id,
                limit,
            )[j]).id < before_id,
        rows.len() > 0 ==> forall|j: int|
            0 <= j < spec_query(rows, before_id, limit).len() ==> (#[trigger] spec_query(
                rows,
                before_id,
                limit,
            )[j]).id <= rows.last().id,
        forall|j: int, k: int|
            0 <= j < k < spec_query(rows, before_id, limit).len() ==> (#[trigger] spec_query(
                rows,
                before_id,
                limit,
            )[j]).id > (#[trigger] spec_query(rows, before_id, limit)[k]).id,
    decreases rows.len(),
{
    if limit <= 0 || rows.len() == 0 {
    } else {
        let res = spec_query(rows, before_id, limit);
        let head = rows.last();
        let rest = rows.drop_last();
        assert(forall|j: int, k: int|
            0 <= j < k < rest.len() ==> (#[trigger] rest[j]).id < (#[trigger] rest[k]).id);
        if head.id < before_id {
            lemma_query_bounds(rest, before_id, limit - 1);
            let sub = spec_query(rest, before_id, limit - 1);
            assert(res == seq![head] + sub);
            assert(res[0] == head);
            assert(forall|j: int| 1 <= j < res.len() ==> res[j] == sub[j - 1]);
            if rest.len() > 0 {
                assert(rest.last() == rows[rows.len() - 2]);
                assert(rest.last().id < head.id);
            }
        } else {
            lemma_query_bounds(rest, before_id, limit);
            let sub = spec_query(rest, before_id, limit);
            assert(res == sub);
            if rest.len() > 0 {
                assert(rest.last() == rows[rows.len() - 2]);
                assert(rest.last().id < head.id);
            }
        }
    }
}

/// Law: round trip. Append one row, then query with `before_id` one above
/// its id and `limit` one: exactly that row comes back, with its name,
/// message, date and assigned id.
pub proof fn lemma_insert_then_query_roundtrip(rows: Seq<ChatMessageView>, row: ChatMessageView)
    ensures
        spec_query(rows.push(row), row.id + 1, 1) == seq![row],
{
    let rs = rows.push(row);
    assert(rs.last() == row);
    assert(rs.drop_last() =~= rows);
    assert(spec_query(rows, row.id + 1, 0) =~= Seq::<ChatMessageView>::empty());
    assert(spec_query(rs, row.id + 1, 1) =~= seq![row]);
}

/// The in-memory model of the history table. Append-only: the engine
/// assigns ids 1, 2, 3, ... in insertion order, so the row at index `j`
/// always carries id `j + 1`.
pub struct Store {
    rows: Vec<ChatMessage>,
}

impl Store {
    /// The table as a sequence of record views, oldest first.
    pub closed spec fn rows_view(&self) -> Seq<ChatMessageView> {
        self.rows@.map(|_j: int, m: ChatMessage| m@)
    }

    /// Well-formedness: ids are the 1-based row indices (hence unique and
    /// strictly increasing), and every id stays strictly below `i64::MAX`,
    /// so a query bounded exclusively by `i64::MAX` sees every row.
    pub closed spec fn wf(&self) -> bool {
        &&& self.rows.len() < 0x7fff_ffff_ffff_ffff
        &&& forall|j: int|
            0 <= j < self.rows.len() ==> (#[trigger] self.rows_view()[j]).id == j + 1
    }

    /// On a well-formed table the ids are exactly the 1-based row indices:
    /// unique, strictly increasing, assigned in insertion order.
    pub proof fn lemma_wf_ids(&self)
        requires
            self.wf(),
        ensures
            forall|j: int|
                0 <= j < self.rows_view().len() ==> (#[trigger] self.rows_view()[j]).id == j + 1,
    {
    }

    /// An empty history table.
    pub fn new() -> (s: Store)
        ensures
            s.wf(),
            s.rows_view() == Seq::<ChatMessageView>::empty(),
    {
        let s = Store { rows: Vec::new() };
        proof {
            assert(s.rows_view() =~= Seq::<ChatMessageView>::empty());
        }
        s
    }

    /// Number of rows in the table; also the id the last insert assigned.
    pub fn len(&self) -> (n: usize)
        ensures
            n == self.rows_view().len(),
    {
        self.rows.len()
    }

    /// Appends one row with the engine-assigned next id and returns that id.
    /// Duplicate payloads produce duplicate rows: there is no dedup key.
    pub fn insert_message(&mut self, mp: &MessagePack) -> (id: i64)
        requires
            old(self).wf(),
            old(self).rows_view().len() < 0x7fff_ffff_ffff_fffe,
        ensures
            final(self).wf(),
            id == old(self).rows_view().len() + 1,
            final(self).rows_view() == old(self).rows_view().push(
                ChatMessageView { id: id as int, name: mp.name@, message: mp.message@, date: mp.date as int },
            ),
    {
        let id: i64 = (self.rows.len() as i64) + 1;
        let row = ChatMessage {
            id,
            name: mp.name.clone(),
            message: mp.message.clone(),
            date: mp.date,
        };
        self.rows.push(row);
        proof {
            let v = ChatMessageView {
                id: id as int,
                name: mp.name@,
                message: mp.message@,
                date: mp.date as int,
            };
            assert(self.rows_view() =~= old(self).rows_view().push(v));
            assert forall|jj: int|
                0 <= jj < self.rows.len() implies (#[trigger] self.rows_view()[jj]).id == jj
                + 1 by {
                if jj < old(self).rows.len() {
                    assert(self.rows_view()[jj] == old(self).rows_view()[jj]);
                    assert(old(self).rows_view()[jj].id == jj + 1);
                } else {
                    assert(self.rows_view()[jj] == v);
                }
            }
        }
        id
    }

    /// Returns up to `limit` rows with `id < before_id`, newest first; an
    /// empty result is not an error.
    pub fn query_recent_messages(&self, before_id: i64, limit: usize) -> (r: Vec<ChatMessage>)
        requires
            self.wf(),
        ensures
            r@.map(|_j: int, m: ChatMessage| m@) == spec_query(
                self.rows_view(),
                before_id as int,
                limit as int,
            ),
    {
        let mut r: Vec<ChatMessage> = Vec::new();
        let mut j: usize = self.rows.len();
        proof {
            assert(self.rows_view().take(j as int) =~= self.rows_view());
            assert(r@.map(|_k: int, m: ChatMessage| m@) =~= Seq::<ChatMessageView>::empty());
            assert(Seq::<ChatMessageView>::empty() + spec_query(
                self.rows_view(),
                before_id as int,
                limit as int,
            ) =~= spec_query(self.rows_view(), before_id as int, limit as int));
        }
        while j > 0 && r.len() < limit
            invariant
                self.wf(),
                j <= self.rows.len(),
                r.len() <= limit,
                spec_query(self.rows_view(), before_id as int, limit as int) == r@.map(
                    |_k: int, m: ChatMessage| m@,
                ) + spec_query(
                    self.rows_view().take(j as int),
                    before_id as int,
                    limit - r.len(),
                ),
            decreases j,
        {
            let row = &self.rows[j - 1];
            proof {
                let pre = self.rows_view().take(j as int);
                assert(pre.last() == self.rows_view()[j - 1]);
                assert(pre.drop_last() =~= self.rows_view().take(j - 1));
            }
            if row.id < before_id {
                let ghost old_r = r@;
                r.push(ChatMessage {
                    id: row.id,
                    name: row.name.clone(),
                    message: row.message.clone(),
                    date: row.date,
                });
                proof {
                    let pre = self.rows_view().take(j as int);
                    assert(r@.map(|_k: int, m: ChatMessage| m@) =~= old_r.map(
                        |_k: int, m: ChatMessage| m@,
                    ) + seq![self.rows_view()[j - 1]]);
                    assert(old_r.map(|_k: int, m: ChatMessage| m@) + (seq![pre.last()]
                        + spec_query(pre.drop_last(), before_id as int, limit - r.len())) =~= r@.map(
                        |_k: int, m: ChatMessage| m@,
                    ) + spec_query(pre.drop_last(), before_id as int, limit - r.len()));
                }
            }
            j = j - 1;
        }
        proof {
            if j == 0 {
                assert(self.rows_view().take(0) =~= Seq::<ChatMessageView>::empty());
            }
            assert(spec_query(self.rows_view().take(j as int), before_id as int, limit - r.len())
                =~= Seq::<ChatMessageView>::empty());
            assert(r@.map(|_k: int, m: ChatMessage| m@) + Seq::<ChatMessageView>::empty() =~= r@.map(
                |_k: int, m: ChatMessage| m@,
            ));
        }
        r
    }
}

} // verus!
