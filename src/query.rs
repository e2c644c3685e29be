//! The query surface: monitors, single entities, and paginated entities of
//! one monitor's bucket.

use vstd::prelude::*;
use crate::confidence::Confidence;
use crate::pagination::{
    Connection,
    PageError,
    PageRequest,
    build_connection,
    lemma_take_upto_push,
    request_of,
    take_upto,
};
use crate::store::{Entity, EntityRecord, EntityTable, MonitorTable, copy_monitor, row_of};
use crate::gateway::{fresh_uuid, is_uuid_v4_text};
use crate::timestamp::Timestamp;

verus! {

/// A camera bucket; `id == None` is the bucket of unattributed detections.
#[derive(Debug)]
pub struct Monitor {
    pub id: Option<String>,
}

/// The object-store path of the object stored under `key`.
pub fn object_path(key: &String) -> (r: String)
    ensures
        r@ == "/"@ + key@,
{
    String::from_str("/").concat(key.as_str())
}

/// Lifetime in seconds of a presigned image URL.
pub const IMAGE_URL_TTL_SECS: u64 = 3600;

impl Entity {
    /// The monitor bucket this entity belongs to.
    pub fn monitor(&self) -> (r: Monitor)
        ensures
            r.id == self.monitor_id,
    {
        Monitor { id: copy_monitor(&self.monitor_id) }
    }

    /// The object-store path of the entity's picture, which a presigned URL
    /// is issued for.
    pub fn image_path(&self) -> (r: String)
        ensures
            r@ == "/"@ + self.image_id@,
    {
        object_path(&self.image_id)
    }
}

/// Cursor-connection page flags and the cursors of its first and last edge.
#[derive(Clone, Copy, Debug, PartialEq, Eq, Structural)]
pub struct PageInfo {
    pub has_next_page: bool,
    pub has_previous_page: bool,
    pub start_cursor: Option<i32>,
    pub end_cursor: Option<i32>,
}

impl Connection {
    pub fn page_info(&self) -> (r: PageInfo)
        ensures
            r.has_next_page == self.has_next_page,
            r.has_previous_page == self.has_previous_page,
            self.edges@.len() == 0 ==> r.start_cursor is None && r.end_cursor is None,
            self.edges@.len() > 0 ==> r.start_cursor == Some(self.edges@[0].id) && r.end_cursor
                == Some(self.edges@.last().id),
    {
        let n = self.edges.len();
        let (start_cursor, end_cursor) = if n == 0 {
            (None, None)
        } else {
            (Some(self.edges[0].id), Some(self.edges[n - 1].id))
        };
        PageInfo {
            has_next_page: self.has_next_page,
            has_previous_page: self.has_previous_page,
            start_cursor,
            end_cursor,
        }
    }
}

proof fn lemma_over_fetch(s: Seq<Entity>, k: int)
    requires
        k >= 0,
    ensures
        take_upto(take_upto(s, k + 1), k) == take_upto(s, k),
        (take_upto(s, k + 1).len() > k) == (s.len() > k),
{
    if s.len() > k + 1 {
        assert(s.take(k + 1).take(k) =~= s.take(k));
    }
}

impl Monitor {
    /// A page of this monitor's entities, or of the unattributed ones when
    /// `id` is absent.
    pub fn entities(
        &self,
        table: &EntityTable,
        after: Option<String>,
        before: Option<String>,
        first: Option<i32>,
        last: Option<i32>,
    ) -> (r: Result<Connection, PageError>)
        ensures
            r is Ok <==> request_of(after, before, first, last) is Ok,
            r matches Err(e) ==> request_of(after, before, first, last) == Err::<
                PageRequest,
                PageError,
            >(e),
            r matches Ok(c) ==> {
                let q = request_of(after, before, first, last)->Ok_0;
                let all = q.matching(table@, self.id);
                &&& c.edges@ == take_upto(all, q.size())
                &&& c.has_next_page == q.reports_next(all.len() as int)
                &&& c.has_previous_page == q.has_previous()
            },
    {
        match PageRequest::from_args(&after, &before, first, last) {
            Err(e) => Err(e),
            Ok(q) => {
                let fetched = table.fetch(&self.id, q);
                proof {
                    lemma_over_fetch(q.matching(table@, self.id), q.size());
                }
                Ok(build_connection(q, fetched))
            },
        }
    }
}

/// All rows with ids less than `before`, in reverse table order.
pub open spec fn all_before(rows: Seq<Entity>, before: int) -> Seq<Entity>
    decreases rows.len(),
{
    if rows.len() == 0 {
        seq![]
    } else {
        let p = all_before(rows.drop_first(), before);
        if rows[0].id < before {
            p.push(rows[0])
        } else {
            p
        }
    }
}

/// The read operations of the query surface.
pub struct QueryRoot;

impl QueryRoot {
    /// Every recorded monitor, then the unattributed bucket.
    pub fn monitors(&self, monitors: &MonitorTable) -> (r: Vec<Monitor>)
        ensures
            r@.len() == monitors@.len() + 1,
            forall|i: int| 0 <= i < monitors@.len() ==> #[trigger] r@[i].id == Some(monitors@[i]),
            r@.last().id is None,
    {
        let ids = monitors.ids();
        let mut out: Vec<Monitor> = Vec::new();
        let mut i: usize = 0;
        while i < ids.len()
            invariant
                i <= ids@.len(),
                ids@ == monitors@,
                out@.len() == i,
                forall|j: int| 0 <= j < i ==> #[trigger] out@[j].id == Some(ids@[j]),
            decreases ids@.len() - i,
        {
            out.push(Monitor { id: Some(ids[i].clone()) });
            i = i + 1;
        }
        out.push(Monitor { id: None });
        out
    }

    /// The monitor with the given id; one that has no row yet is still
    /// handed out, so that its bucket can be paged.
    pub fn monitor(&self, monitors: &MonitorTable, id: Option<String>) -> (r: Monitor)
        ensures
            r.id == id,
    {
        match &id {
            Some(s) => {
                if monitors.lookup(s) {
                    return Monitor { id: Some(s.clone()) };
                }
            },
            None => {},
        }
        Monitor { id }
    }

    /// The entity with the given id.
    pub fn entity(&self, table: &EntityTable, id: i32) -> (r: Option<Entity>)
        requires
            table.wf(),
        ensures
            (1 <= id <= table@.len()) ==> r == Some(table@[id - 1]),
            !(1 <= id <= table@.len()) ==> r is None,
    {
        table.find(id)
    }

    /// Entities of every bucket with ids below `cursor` (all when absent),
    /// newest first, `page` of them (10 when absent); `None` for a negative
    /// page size.
    pub fn entities(&self, table: &EntityTable, cursor: Option<i32>, page: Option<i64>) -> (r:
        Option<Vec<Entity>>)
        ensures
            r is None <==> (page matches Some(p) && p < 0),
            r matches Some(v) ==> v@ == take_upto(
                all_before(
                    table@,
                    match cursor {
                        Some(c) => c as int,
                        None => i32::MAX as int,
                    },
                ),
                match page {
                    Some(p) => p as int,
                    None => 10,
                },
            ),
    {
        let before: i32 = match cursor {
            Some(c) => c,
            None => 2147483647,
        };
        let size: i64 = match page {
            Some(p) => p,
            None => 10,
        };
        if size < 0 {
            return None;
        }
        let n = table.len();
        let mut out: Vec<Entity> = Vec::new();
        let mut i: usize = n;
        while i > 0
            invariant
                i <= n,
                n == table@.len(),
                size >= 0,
                out@ == take_upto(all_before(table@.subrange(i as int, n as int), before as int), size as int),
            decreases i,
        {
            let e = table.row(i - 1);
            let ghost p = all_before(table@.subrange(i as int, n as int), before as int);
            proof {
                let s = table@.subrange(i - 1, n as int);
                assert(s.drop_first() =~= table@.subrange(i as int, n as int));
                assert(s[0] == table@[i - 1]);
                lemma_take_upto_push(p, *e, size as int);
            }
            if (out.len() as i64) < size && e.id < before {
                out.push(e.duplicate());
            }
            i = i - 1;
        }
        assert(table@.subrange(0, n as int) =~= table@);
        Some(out)
    }
}

/// The write operations of the query surface.
pub struct MutationRoot;

impl MutationRoot {
    /// The key of an image uploaded through `create_entity`: a fresh
    /// version-4 UUID and `.jpg`.
    pub fn new_upload_key(&self) -> (r: String)
        ensures
            is_uuid_v4_text(r@.take(36)),
            r@ == r@.take(36) + ".jpg"@,
            r@.len() == 40,
    {
        let id = fresh_uuid();
        let r = id.concat(".jpg");
        proof {
            reveal_strlit(".jpg");
        }
        assert(r@.take(36) =~= id@);
        r
    }

    /// Stores an entity that belongs to no monitor and returns it with its
    /// assigned id; `None` once the table's ids are used up.
    pub fn create_entity(
        &self,
        table: &mut EntityTable,
        image_id: String,
        label: String,
        confidence: Confidence,
        created_at: Timestamp,
    ) -> (r: Option<Entity>)
        requires
            old(table).wf(),
            confidence.wf(),
        ensures
            final(table).wf(),
            old(table)@.len() < i32::MAX ==> {
                let row = row_of(
                    EntityRecord { image_id, label, confidence, monitor_id: None, created_at },
                    old(table)@.len() as int + 1,
                );
                r == Some(row) && final(table)@ == old(table)@.push(row)
            },
            old(table)@.len() >= i32::MAX ==> r is None && final(table)@ == old(table)@,
    {
        let rec = EntityRecord { image_id, label, confidence, monitor_id: None, created_at };
        match table.insert(rec) {
            Some(id) => table.find(id),
            None => None,
        }
    }
}

} // verus!
