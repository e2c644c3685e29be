//! Cursor pagination over the entity table. Cursors are entity ids; a page
//! over-fetches one row to learn whether another page follows.

use vstd::prelude::*;
use crate::decimal::{
    all_digits,
    decimal_digits,
    decimal_text,
    law_decimal_round_trip,
    parse_i32,
    signed_text_value,
};
use crate::store::{Entity, EntityTable, same_monitor, monitor_eq};

verus! {

/// Page size when neither `first` nor `last` is given.
pub const DEFAULT_PAGE_SIZE: i32 = 10;

/// Which rows a page reads.
#[derive(Clone, Copy, Debug, PartialEq, Eq, Structural)]
pub enum PageRequest {
    /// Ascending ids greater than `after`, at most `first` of them.
    Forward { after: i32, first: i32 },
    /// Descending ids less than `before`, at most `last` of them.
    Backward { before: i32, last: i32 },
}

#[derive(Clone, Copy, Debug, PartialEq, Eq, Structural)]
pub enum PageError {
    NegativeFirst,
    NegativeLast,
    InvalidCursor,
}

/// A page of entities with the cursor-connection flags.
#[derive(Debug)]
pub struct Connection {
    pub edges: Vec<Entity>,
    pub has_previous_page: bool,
    pub has_next_page: bool,
}

/// Whether an optional cursor is absent or reads as an `i32`.
pub open spec fn cursor_ok(c: Option<String>) -> bool {
    match c {
        None => true,
        Some(s) => signed_text_value(s@) matches Some(v) && i32::MIN <= v <= i32::MAX,
    }
}

/// The id that an optional cursor stands for, `default` when absent.
pub open spec fn cursor_or(c: Option<String>, default: int) -> int {
    match c {
        None => default,
        Some(s) => signed_text_value(s@)->0,
    }
}

/// The page that the connection arguments ask for: `first` reads forward
/// from `after` (or from the start), otherwise `last` (10 when absent) reads
/// backward from `before` (or from the end).
pub open spec fn request_of(
    after: Option<String>,
    before: Option<String>,
    first: Option<i32>,
    last: Option<i32>,
) -> Result<PageRequest, PageError> {
    if first matches Some(f) && f < 0 {
        Err(PageError::NegativeFirst)
    } else if last matches Some(l) && l < 0 {
        Err(PageError::NegativeLast)
    } else if !cursor_ok(before) || !cursor_ok(after) {
        Err(PageError::InvalidCursor)
    } else if first is Some {
        Ok(PageRequest::Forward { after: cursor_or(after, 0) as i32, first: first->0 })
    } else {
        Ok(
            PageRequest::Backward {
                before: cursor_or(before, i32::MAX as int) as i32,
                last: match last {
                    Some(l) => l,
                    None => DEFAULT_PAGE_SIZE,
                },
            },
        )
    }
}

/// Whether an entity belongs to the page's bucket and window.
pub open spec fn in_window(e: Entity, m: Option<String>, lo: int, hi: int) -> bool {
    same_monitor(e.monitor_id, m) && lo < e.id && e.id < hi
}

/// The rows of bucket `m` with ids greater than `after`, in table order.
pub open spec fn ascending_after(rows: Seq<Entity>, m: Option<String>, after: int) -> Seq<Entity>
    decreases rows.len(),
{
    if rows.len() == 0 {
        seq![]
    } else {
        let p = ascending_after(rows.drop_last(), m, after);
        if in_window(rows.last(), m, after, i32::MAX as int + 1) {
            p.push(rows.last())
        } else {
            p
        }
    }
}

/// The rows of bucket `m` with ids less than `before`, in reverse table order.
pub open spec fn descending_before(rows: Seq<Entity>, m: Option<String>, before: int) -> Seq<
    Entity,
>
    decreases rows.len(),
{
    if rows.len() == 0 {
        seq![]
    } else {
        let p = descending_before(rows.drop_first(), m, before);
        if in_window(rows[0], m, i32::MIN as int - 1, before) {
            p.push(rows[0])
        } else {
            p
        }
    }
}

/// The first `n` items of `s`, or all of them where there are fewer.
pub open spec fn take_upto(s: Seq<Entity>, n: int) -> Seq<Entity> {
    if s.len() <= n {
        s
    } else {
        s.take(n)
    }
}

/// Ids increase strictly along the sequence.
pub open spec fn ids_increasing(rows: Seq<Entity>) -> bool {
    forall|i: int, j: int| 0 <= i < j < rows.len() ==> rows[i].id < rows[j].id
}

proof fn lemma_ascending_sorted(rows: Seq<Entity>, m: Option<String>, after: int)
    requires
        ids_increasing(rows),
    ensures
        ids_increasing(ascending_after(rows, m, after)),
        forall|k: int|
            0 <= k < ascending_after(rows, m, after).len() ==> in_window(
                #[trigger] ascending_after(rows, m, after)[k],
                m,
                after,
                i32::MAX as int + 1,
            ) && rows[rows.len() - 1].id >= ascending_after(rows, m, after)[k].id,
    decreases rows.len(),
{
    if rows.len() > 0 {
        let d = rows.drop_last();
        lemma_ascending_sorted(d, m, after);
        if d.len() > 0 {
            assert(d[d.len() - 1].id < rows[rows.len() - 1].id);
        }
    }
}

proof fn lemma_descending_sorted(rows: Seq<Entity>, m: Option<String>, before: int)
    requires
        ids_increasing(rows),
    ensures
        forall|i: int, j: int|
            0 <= i < j < descending_before(rows, m, before).len() ==> descending_before(
                rows,
                m,
                before,
            )[i].id > descending_before(rows, m, before)[j].id,
        forall|k: int|
            0 <= k < descending_before(rows, m, before).len() ==> in_window(
                #[trigger] descending_before(rows, m, before)[k],
                m,
                i32::MIN as int - 1,
                before,
            ) && rows[0].id <= descending_before(rows, m, before)[k].id,
    decreases rows.len(),
{
    if rows.len() > 0 {
        let d = rows.drop_first();
        lemma_descending_sorted(d, m, before);
        if d.len() > 0 {
            assert(rows[0].id < d[0].id);
        }
    }
}

/// Pages follow cursor order: a forward page's candidate rows have strictly
/// ascending ids, all above its cursor; a backward page's have strictly
/// descending ids, all below its cursor; and every one belongs to the
/// requested bucket. Ids themselves follow insertion order in the table.
pub proof fn law_page_order(table: &EntityTable, m: Option<String>, q: PageRequest)
    requires
        table.wf(),
    ensures
        forall|i: int, j: int|
            0 <= i < j < table@.len() ==> table@[i].id < table@[j].id,
        forall|i: int, j: int|
            0 <= i < j < q.matching(table@, m).len() ==> (q is Forward ==> q.matching(table@, m)[i].id
                < q.matching(table@, m)[j].id) && (q is Backward ==> q.matching(table@, m)[i].id
                > q.matching(table@, m)[j].id),
        forall|k: int|
            0 <= k < q.matching(table@, m).len() ==> same_monitor(
                #[trigger] q.matching(table@, m)[k].monitor_id,
                m,
            ),
        q matches PageRequest::Forward { after, .. } ==> forall|k: int|
            0 <= k < q.matching(table@, m).len() ==> #[trigger] q.matching(table@, m)[k].id > after,
        q matches PageRequest::Backward { before, .. } ==> forall|k: int|
            0 <= k < q.matching(table@, m).len() ==> #[trigger] q.matching(table@, m)[k].id
                < before,
{
    let rows = table@;
    assert forall|i: int, j: int| 0 <= i < j < rows.len() implies rows[i].id < rows[j].id by {
        assert(rows[i].id == i + 1);
        assert(rows[j].id == j + 1);
    }
    match q {
        PageRequest::Forward { after, .. } => {
            lemma_ascending_sorted(rows, m, after as int);
        },
        PageRequest::Backward { before, .. } => {
            lemma_descending_sorted(rows, m, before as int);
        },
    }
}

proof fn lemma_ascending_none_above(rows: Seq<Entity>, m: Option<String>, bound: int)
    requires
        forall|i: int| 0 <= i < rows.len() ==> #[trigger] rows[i].id <= bound,
    ensures
        ascending_after(rows, m, bound) == Seq::<Entity>::empty(),
    decreases rows.len(),
{
    if rows.len() > 0 {
        let d = rows.drop_last();
        assert forall|i: int| 0 <= i < d.len() implies #[trigger] d[i].id <= bound by {
            assert(d[i] == rows[i]);
        }
        lemma_ascending_none_above(d, m, bound);
    }
}

proof fn lemma_descending_none_below(rows: Seq<Entity>, m: Option<String>, bound: int)
    requires
        forall|i: int| 0 <= i < rows.len() ==> #[trigger] rows[i].id >= bound,
    ensures
        descending_before(rows, m, bound) == Seq::<Entity>::empty(),
    decreases rows.len(),
{
    if rows.len() > 0 {
        let d = rows.drop_first();
        assert forall|i: int| 0 <= i < d.len() implies #[trigger] d[i].id >= bound by {
            assert(d[i] == rows[i + 1]);
        }
        lemma_descending_none_below(d, m, bound);
    }
}

proof fn lemma_resume_ascending(rows: Seq<Entity>, m: Option<String>, after: int, k: int)
    requires
        ids_increasing(rows),
        1 <= k <= ascending_after(rows, m, after).len(),
    ensures
        ascending_after(rows, m, ascending_after(rows, m, after)[k - 1].id as int)
            == ascending_after(rows, m, after).skip(k),
    decreases rows.len(),
{
    let full = ascending_after(rows, m, after);
    let r = rows.drop_last();
    let x = rows.last();
    let p = ascending_after(r, m, after);
    let cut = full[k - 1].id as int;
    assert(ids_increasing(r));
    lemma_ascending_sorted(r, m, after);
    lemma_ascending_sorted(rows, m, after);
    if k - 1 < p.len() {
        assert(full[k - 1] == p[k - 1]);
        lemma_resume_ascending(r, m, after, k);
        assert(r.len() > 0);
        assert(r[r.len() - 1].id < x.id);
        assert(cut < x.id);
        assert(cut > after);
        if in_window(x, m, after, i32::MAX as int + 1) {
            assert(full.skip(k) =~= p.skip(k).push(x));
        } else {
            assert(full.skip(k) =~= p.skip(k));
        }
    } else {
        assert(full == p.push(x));
        assert(cut == x.id);
        assert forall|i: int| 0 <= i < r.len() implies #[trigger] r[i].id <= cut by {
            assert(r[i] == rows[i]);
        }
        lemma_ascending_none_above(r, m, cut);
        assert(full.skip(k) =~= Seq::<Entity>::empty());
    }
}

proof fn lemma_resume_descending(rows: Seq<Entity>, m: Option<String>, before: int, k: int)
    requires
        ids_increasing(rows),
        1 <= k <= descending_before(rows, m, before).len(),
    ensures
        descending_before(rows, m, descending_before(rows, m, before)[k - 1].id as int)
            == descending_before(rows, m, before).skip(k),
    decreases rows.len(),
{
    let full = descending_before(rows, m, before);
    let d = rows.drop_first();
    let x = rows[0];
    let p = descending_before(d, m, before);
    let cut = full[k - 1].id as int;
    assert(ids_increasing(d)) by {
        assert forall|i: int, j: int| 0 <= i < j < d.len() implies d[i].id < d[j].id by {
            assert(d[i] == rows[i + 1]);
            assert(d[j] == rows[j + 1]);
        }
    }
    lemma_descending_sorted(d, m, before);
    lemma_descending_sorted(rows, m, before);
    if k - 1 < p.len() {
        assert(full[k - 1] == p[k - 1]);
        lemma_resume_descending(d, m, before, k);
        assert(d.len() > 0);
        assert(d[0] == rows[1]);
        assert(x.id < d[0].id);
        assert(cut > x.id);
        assert(cut < before);
        if in_window(x, m, i32::MIN as int - 1, before) {
            assert(full.skip(k) =~= p.skip(k).push(x));
        } else {
            assert(full.skip(k) =~= p.skip(k));
        }
    } else {
        assert(full == p.push(x));
        assert(cut == x.id);
        assert forall|i: int| 0 <= i < d.len() implies #[trigger] d[i].id >= cut by {
            assert(d[i] == rows[i + 1]);
        }
        lemma_descending_none_below(d, m, cut);
        assert(full.skip(k) =~= Seq::<Entity>::empty());
    }
}

/// The request that reads on from the cursor `cursor` in the direction of
/// `q`, with the same size.
pub open spec fn resumed(q: PageRequest, cursor: i32) -> PageRequest {
    match q {
        PageRequest::Forward { first, .. } => PageRequest::Forward { after: cursor, first },
        PageRequest::Backward { last, .. } => PageRequest::Backward { before: cursor, last },
    }
}

/// Cursors are stable: reading on from the cursor of the k-th candidate of
/// a page, in the same direction, yields exactly the candidates after the
/// first k, so consecutive pages neither skip nor repeat a row.
pub proof fn law_resume_from_cursor(table: &EntityTable, m: Option<String>, q: PageRequest, k: int)
    requires
        table.wf(),
        1 <= k <= q.matching(table@, m).len(),
    ensures
        resumed(q, q.matching(table@, m)[k - 1].id).matching(table@, m) == q.matching(
            table@,
            m,
        ).skip(k),
{
    let rows = table@;
    assert forall|i: int, j: int| 0 <= i < j < rows.len() implies rows[i].id < rows[j].id by {
        assert(rows[i].id == i + 1);
        assert(rows[j].id == j + 1);
    }
    match q {
        PageRequest::Forward { after, .. } => {
            lemma_resume_ascending(rows, m, after as int, k);
        },
        PageRequest::Backward { before, .. } => {
            lemma_resume_descending(rows, m, before as int, k);
        },
    }
}

proof fn lemma_ascending_concat(a: Seq<Entity>, b: Seq<Entity>, m: Option<String>, after: int)
    ensures
        ascending_after(a + b, m, after) == ascending_after(a, m, after) + ascending_after(
            b,
            m,
            after,
        ),
    decreases b.len(),
{
    if b.len() == 0 {
        assert(a + b =~= a);
        assert(ascending_after(a, m, after) + ascending_after(b, m, after) =~= ascending_after(
            a,
            m,
            after,
        ));
    } else {
        lemma_ascending_concat(a, b.drop_last(), m, after);
        assert((a + b).drop_last() =~= a + b.drop_last());
        assert((a + b).last() == b.last());
        let pa = ascending_after(a, m, after);
        let pb = ascending_after(b.drop_last(), m, after);
        assert((pa + pb).push(b.last()) =~= pa + pb.push(b.last()));
    }
}

proof fn lemma_descending_concat(a: Seq<Entity>, b: Seq<Entity>, m: Option<String>, before: int)
    ensures
        descending_before(a + b, m, before) == descending_before(b, m, before) + descending_before(
            a,
            m,
            before,
        ),
    decreases a.len(),
{
    if a.len() == 0 {
        assert(a + b =~= b);
        assert(descending_before(b, m, before) + descending_before(a, m, before)
            =~= descending_before(b, m, before));
    } else {
        lemma_descending_concat(a.drop_first(), b, m, before);
        assert((a + b).drop_first() =~= a.drop_first() + b);
        assert((a + b)[0] == a[0]);
        let pb = descending_before(b, m, before);
        let pa = descending_before(a.drop_first(), m, before);
        assert((pb + pa).push(a[0]) =~= pb + pa.push(a[0]));
    }
}

proof fn lemma_descending_bounded(rows: Seq<Entity>, m: Option<String>, before: int, bound: int)
    requires
        forall|i: int| 0 <= i < rows.len() ==> #[trigger] rows[i].id <= bound,
    ensures
        forall|k: int|
            0 <= k < descending_before(rows, m, before).len() ==> #[trigger] descending_before(
                rows,
                m,
                before,
            )[k].id <= bound,
    decreases rows.len(),
{
    if rows.len() > 0 {
        let d = rows.drop_first();
        assert forall|i: int| 0 <= i < d.len() implies #[trigger] d[i].id <= bound by {
            assert(d[i] == rows[i + 1]);
        }
        lemma_descending_bounded(d, m, before, bound);
        assert(rows[0].id <= bound);
    }
}

/// Cursors stay stable while rows are inserted between two pages: reading
/// on from the k-th candidate of a page taken on `earlier` yields, on the
/// later table, exactly the candidates after the first k, followed going
/// forward by the matching rows inserted since, whose ids exceed every
/// earlier id; going backward no inserted row appears. No row is skipped or
/// repeated.
pub proof fn law_resume_across_inserts(
    earlier: &EntityTable,
    later: &EntityTable,
    m: Option<String>,
    q: PageRequest,
    k: int,
)
    requires
        earlier.wf(),
        later.wf(),
        earlier@.len() <= later@.len(),
        later@.take(earlier@.len() as int) == earlier@,
        1 <= k <= q.matching(earlier@, m).len(),
    ensures
        forall|i: int|
            earlier@.len() <= i < later@.len() ==> #[trigger] later@[i].id > earlier@.len(),
        forall|i: int| 0 <= i < earlier@.len() ==> #[trigger] earlier@[i].id <= earlier@.len(),
        q is Forward ==> resumed(q, q.matching(earlier@, m)[k - 1].id).matching(later@, m)
            == q.matching(earlier@, m).skip(k) + ascending_after(
            later@.skip(earlier@.len() as int),
            m,
            q.matching(earlier@, m)[k - 1].id as int,
        ),
        q is Backward ==> resumed(q, q.matching(earlier@, m)[k - 1].id).matching(later@, m)
            == q.matching(earlier@, m).skip(k),
{
    let a = earlier@;
    let n = a.len() as int;
    let added = later@.skip(n);
    assert(later@ =~= a + added);
    let cut = q.matching(a, m)[k - 1].id as int;
    assert forall|i: int| 0 <= i < n implies #[trigger] a[i].id <= n by {
        assert(a[i].id == i + 1);
    }
    assert forall|i: int| n <= i < later@.len() implies #[trigger] later@[i].id > n by {
        assert(later@[i].id == i + 1);
    }
    assert forall|i: int, j: int| 0 <= i < j < a.len() implies a[i].id < a[j].id by {
        assert(a[i].id == i + 1);
        assert(a[j].id == j + 1);
    }
    match q {
        PageRequest::Forward { after, .. } => {
            lemma_ascending_concat(a, added, m, cut);
            lemma_resume_ascending(a, m, after as int, k);
        },
        PageRequest::Backward { before, .. } => {
            lemma_descending_concat(a, added, m, cut);
            lemma_resume_descending(a, m, before as int, k);
            lemma_descending_bounded(a, m, before as int, n);
            assert forall|i: int| 0 <= i < added.len() implies #[trigger] added[i].id >= cut by {
                assert(added[i] == later@[n + i]);
            }
            lemma_descending_none_below(added, m, cut);
            assert(Seq::<Entity>::empty() + q.matching(a, m).skip(k) =~= q.matching(a, m).skip(k));
        },
    }
}

/// The cursor text of an entity id, as a client passes it back.
pub fn encode_cursor(id: i32) -> (r: String)
    requires
        id >= 0,
    ensures
        r@ == decimal_digits(id as nat),
{
    decimal_text(id as u64)
}

/// The cursor text of a non-negative id reads back as that id, so a page
/// requested after the end cursor of the previous one resumes exactly there.
pub proof fn law_cursor_text_round_trip(text: String, id: i32)
    requires
        id >= 0,
        text@ == decimal_digits(id as nat),
    ensures
        cursor_ok(Some(text)),
        cursor_or(Some(text), 0) == id,
{
    law_decimal_round_trip(id as nat);
    assert(all_digits(text@));
    assert(text@[0] != '-');
}

/// A page of size zero holds no edges and reports no next page, whatever
/// rows match.
pub proof fn law_zero_size_page(rows: Seq<Entity>, m: Option<String>, q: PageRequest)
    requires
        q.size() == 0,
    ensures
        take_upto(q.matching(rows, m), q.size()).len() == 0,
        !q.reports_next(q.matching(rows, m).len() as int),
{
}

impl PageRequest {
    pub open spec fn wf(self) -> bool {
        self.size() >= 0
    }

    /// The most edges the page holds.
    pub open spec fn size(self) -> int {
        match self {
            PageRequest::Forward { first, .. } => first as int,
            PageRequest::Backward { last, .. } => last as int,
        }
    }

    /// Every row that the page could show, in page order.
    pub open spec fn matching(self, rows: Seq<Entity>, m: Option<String>) -> Seq<Entity> {
        match self {
            PageRequest::Forward { after, .. } => ascending_after(rows, m, after as int),
            PageRequest::Backward { before, .. } => descending_before(rows, m, before as int),
        }
    }

    /// A next page is reported when the page holds at least one edge and
    /// more than `size` rows were found.
    pub open spec fn reports_next(self, found: int) -> bool {
        self.size() > 0 && found > self.size()
    }

    pub open spec fn has_previous(self) -> bool {
        match self {
            PageRequest::Forward { after, .. } => after > 0,
            PageRequest::Backward { before, .. } => before < i32::MAX,
        }
    }
}

pub(crate) proof fn lemma_take_upto_push(p: Seq<Entity>, e: Entity, n: int)
    requires
        n >= 0,
    ensures
        p.len() < n ==> take_upto(p.push(e), n) == take_upto(p, n).push(e),
        p.len() >= n ==> take_upto(p.push(e), n) == take_upto(p, n),
        take_upto(p, n).len() == if p.len() < n {
            p.len() as int
        } else {
            n
        },
{
    if p.len() >= n {
        assert(p.push(e).take(n) =~= p.take(n));
        if p.len() == n {
            assert(p.take(n) =~= p);
        }
    }
}

fn decode_cursor(c: &Option<String>) -> (r: Option<Option<i32>>)
    ensures
        r is Some <==> cursor_ok(*c),
        r matches Some(v) ==> (c is None <==> v is None),
        r matches Some(Some(v)) ==> cursor_or(*c, 0) == v,
{
    match c {
        None => Some(None),
        Some(s) => match parse_i32(s.as_str()) {
            Some(v) => Some(Some(v)),
            None => None,
        },
    }
}

impl PageRequest {
    /// Reads the connection arguments.
    pub fn from_args(
        after: &Option<String>,
        before: &Option<String>,
        first: Option<i32>,
        last: Option<i32>,
    ) -> (r: Result<PageRequest, PageError>)
        ensures
            r == request_of(*after, *before, first, last),
            r matches Ok(q) ==> q.wf(),
    {
        if let Some(f) = first {
            if f < 0 {
                return Err(PageError::NegativeFirst);
            }
        }
        if let Some(l) = last {
            if l < 0 {
                return Err(PageError::NegativeLast);
            }
        }
        let b = decode_cursor(before);
        let a = decode_cursor(after);
        match (a, b) {
            (Some(a), Some(b)) => {
                match first {
                    Some(f) => {
                        let after_id = match a {
                            Some(v) => v,
                            None => 0,
                        };
                        Ok(PageRequest::Forward { after: after_id, first: f })
                    },
                    None => {
                        let before_id = match b {
                            Some(v) => v,
                            None => 2147483647,
                        };
                        let size = match last {
                            Some(l) => l,
                            None => DEFAULT_PAGE_SIZE,
                        };
                        Ok(PageRequest::Backward { before: before_id, last: size })
                    },
                }
            },
            _ => Err(PageError::InvalidCursor),
        }
    }
}

impl EntityTable {
    /// The rows a page reads: its matching rows, one more than the page
    /// holds where there are that many.
    pub fn fetch(&self, m: &Option<String>, req: PageRequest) -> (r: Vec<Entity>)
        requires
            req.wf(),
        ensures
            r@ == take_upto(req.matching(self@, *m), req.size() + 1),
    {
        let n = self.len();
        let mut out: Vec<Entity> = Vec::new();
        match req {
            PageRequest::Forward { after, first } => {
                let limit: usize = first as usize + 1;
                let mut i: usize = 0;
                while i < n
                    invariant
                        i <= n,
                        n == self@.len(),
                        limit == req.size() + 1,
                        req == (PageRequest::Forward { after, first }),
                        out@ == take_upto(
                            ascending_after(self@.subrange(0, i as int), *m, after as int),
                            limit as int,
                        ),
                    decreases n - i,
                {
                    let e = self.row(i);
                    let ghost p = ascending_after(self@.subrange(0, i as int), *m, after as int);
                    proof {
                        let s = self@.subrange(0, i + 1);
                        assert(s.drop_last() =~= self@.subrange(0, i as int));
                        assert(s.last() == self@[i as int]);
                        lemma_take_upto_push(p, *e, limit as int);
                    }
                    if out.len() < limit && e.id > after && monitor_eq(&e.monitor_id, m) {
                        out.push(e.duplicate());
                    }
                    i = i + 1;
                }
                assert(self@.subrange(0, n as int) =~= self@);
            },
            PageRequest::Backward { before, last } => {
                let limit: usize = last as usize + 1;
                let mut i: usize = n;
                while i > 0
                    invariant
                        i <= n,
                        n == self@.len(),
                        limit == req.size() + 1,
                        req == (PageRequest::Backward { before, last }),
                        out@ == take_upto(
                            descending_before(self@.subrange(i as int, n as int), *m, before as int),
                            limit as int,
                        ),
                    decreases i,
                {
                    let e = self.row(i - 1);
                    let ghost p = descending_before(
                        self@.subrange(i as int, n as int),
                        *m,
                        before as int,
                    );
                    proof {
                        let s = self@.subrange(i - 1, n as int);
                        assert(s.drop_first() =~= self@.subrange(i as int, n as int));
                        assert(s[0] == self@[i - 1]);
                        lemma_take_upto_push(p, *e, limit as int);
                    }
                    if out.len() < limit && e.id < before && monitor_eq(&e.monitor_id, m) {
                        out.push(e.duplicate());
                    }
                    i = i - 1;
                }
                assert(self@.subrange(0, n as int) =~= self@);
            },
        }
        out
    }
}

/// Cuts the fetched rows to the page and sets its flags: a next page exists
/// when more rows came back than the page holds.
pub fn build_connection(req: PageRequest, fetched: Vec<Entity>) -> (r: Connection)
    requires
        req.wf(),
    ensures
        r.edges@ == take_upto(fetched@, req.size()),
        r.has_next_page == req.reports_next(fetched@.len() as int),
        r.has_previous_page == req.has_previous(),
{
    let size: usize = match req {
        PageRequest::Forward { first, .. } => first as usize,
        PageRequest::Backward { last, .. } => last as usize,
    };
    let has_previous_page = match req {
        PageRequest::Forward { after, .. } => after > 0,
        PageRequest::Backward { before, .. } => before < 2147483647,
    };
    let has_next_page = size > 0 && fetched.len() > size;
    let mut edges = fetched;
    edges.truncate(size);
    proof {
        if fetched@.len() > size {
            assert(edges@ =~= fetched@.take(size as int));
        }
    }
    Connection { edges, has_previous_page, has_next_page }
}

} // verus!
