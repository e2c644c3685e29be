//! The persisted forms: monitors and the entities detected for them.

use vstd::prelude::*;
use crate::confidence::Confidence;
use crate::timestamp::Timestamp;

verus! {

/// Two optional monitor ids name the same bucket: both absent, or both
/// present with the same text.
pub open spec fn same_monitor(a: Option<String>, b: Option<String>) -> bool {
    match (a, b) {
        (None, None) => true,
        (Some(x), Some(y)) => x@ == y@,
        _ => false,
    }
}

pub fn monitor_eq(a: &Option<String>, b: &Option<String>) -> (r: bool)
    ensures
        r == same_monitor(*a, *b),
{
    match (a, b) {
        (None, None) => true,
        (Some(x), Some(y)) => *x == *y,
        _ => false,
    }
}

pub fn copy_monitor(m: &Option<String>) -> (r: Option<String>)
    ensures
        r == *m,
{
    match m {
        Some(x) => Some(x.clone()),
        None => None,
    }
}

/// A persisted detection.
#[derive(Debug)]
pub struct Entity {
    /// Assigned by the table on insert; the pagination cursor.
    pub id: i32,
    /// Object-store key of the cropped image.
    pub image_id: String,
    pub label: String,
    pub confidence: Confidence,
    /// `None` for the unattributed bucket.
    pub monitor_id: Option<String>,
    pub created_at: Timestamp,
}

impl Entity {
    pub fn duplicate(&self) -> (r: Entity)
        ensures
            r == *self,
    {
        Entity {
            id: self.id,
            image_id: self.image_id.clone(),
            label: self.label.clone(),
            confidence: self.confidence,
            monitor_id: copy_monitor(&self.monitor_id),
            created_at: self.created_at,
        }
    }
}

/// The values of a detection row before the table assigns its id.
#[derive(Debug)]
pub struct EntityRecord {
    pub image_id: String,
    pub label: String,
    pub confidence: Confidence,
    pub monitor_id: Option<String>,
    pub created_at: Timestamp,
}

/// The row that a record becomes under the id `id`.
pub open spec fn row_of(rec: EntityRecord, id: int) -> Entity {
    Entity {
        id: id as i32,
        image_id: rec.image_id,
        label: rec.label,
        confidence: rec.confidence,
        monitor_id: rec.monitor_id,
        created_at: rec.created_at,
    }
}

/// The entity table: rows in insertion order, with ids assigned densely
/// from 1 and never reused.
pub struct EntityTable {
    rows: Vec<Entity>,
}

impl View for EntityTable {
    type V = Seq<Entity>;

    closed spec fn view(&self) -> Seq<Entity> {
        self.rows@
    }
}

impl EntityTable {
    /// Every row's id is its position plus one, and every confidence lies
    /// in [0, 1].
    pub open spec fn wf(&self) -> bool {
        forall|i: int|
            0 <= i < self@.len() ==> #[trigger] self@[i].id == i + 1 && self@[i].confidence.wf()
    }

    pub fn new() -> (r: EntityTable)
        ensures
            r.wf(),
            r@.len() == 0,
    {
        EntityTable { rows: Vec::new() }
    }

    pub fn len(&self) -> (r: usize)
        ensures
            r == self@.len(),
    {
        self.rows.len()
    }

    /// Appends a row under the next id and returns that id; `None`, with the
    /// table unchanged, once the ids of `i32` are used up.
    pub fn insert(&mut self, rec: EntityRecord) -> (r: Option<i32>)
        requires
            old(self).wf(),
            rec.confidence.wf(),
        ensures
            final(self).wf(),
            old(self)@.len() < i32::MAX ==> r == Some((old(self)@.len() + 1) as i32),
            old(self)@.len() < i32::MAX ==> final(self)@ == old(self)@.push(
                row_of(rec, old(self)@.len() as int + 1),
            ),
            old(self)@.len() >= i32::MAX ==> r is None && final(self)@ == old(self)@,
    {
        let n = self.rows.len();
        if n >= 2147483647 {
            return None;
        }
        let id = (n + 1) as i32;
        self.rows.push(
            Entity {
                id,
                image_id: rec.image_id,
                label: rec.label,
                confidence: rec.confidence,
                monitor_id: rec.monitor_id,
                created_at: rec.created_at,
            },
        );
        Some(id)
    }

    pub fn row(&self, i: usize) -> (r: &Entity)
        requires
            i < self@.len(),
        ensures
            *r == self@[i as int],
    {
        &self.rows[i]
    }

    /// The row with the given id.
    pub fn find(&self, id: i32) -> (r: Option<Entity>)
        requires
            self.wf(),
        ensures
            (1 <= id <= self@.len()) ==> r == Some(self@[id - 1]),
            !(1 <= id <= self@.len()) ==> r is None,
    {
        if id < 1 || id as usize > self.rows.len() {
            return None;
        }
        Some(self.rows[(id - 1) as usize].duplicate())
    }
}

/// Whether a list of monitor ids holds no id twice.
pub open spec fn distinct_ids(ids: Seq<String>) -> bool {
    forall|i: int, j: int| 0 <= i < j < ids.len() ==> ids[i]@ != ids[j]@
}

/// The monitor ids after an upsert of `id`: unchanged where a row for it
/// exists, else with it appended.
pub open spec fn upserted(ids: Seq<String>, id: String) -> Seq<String> {
    if exists|i: int| 0 <= i < ids.len() && #[trigger] ids[i]@ == id@ {
        ids
    } else {
        ids.push(id)
    }
}

/// Upserting a monitor keeps one row per id, however often the same id is
/// upserted: a second upsert of an id changes nothing.
pub proof fn law_monitor_rows_unique(ids: Seq<String>, id: String)
    requires
        distinct_ids(ids),
    ensures
        distinct_ids(upserted(ids, id)),
        upserted(upserted(ids, id), id) == upserted(ids, id),
        exists|i: int|
            0 <= i < upserted(ids, id).len() && #[trigger] upserted(ids, id)[i]@ == id@,
{
    let u = upserted(ids, id);
    if !(exists|i: int| 0 <= i < ids.len() && #[trigger] ids[i]@ == id@) {
        assert(u[ids.len() as int]@ == id@);
        assert forall|i: int, j: int| 0 <= i < j < u.len() implies u[i]@ != u[j]@ by {
            if j == ids.len() {
                assert(u[i] == ids[i]);
            } else {
                assert(u[i] == ids[i]);
                assert(u[j] == ids[j]);
            }
        }
    }
}

/// The monitor table: at most one row per id.
pub struct MonitorTable {
    ids: Vec<String>,
}

impl View for MonitorTable {
    type V = Seq<String>;

    closed spec fn view(&self) -> Seq<String> {
        self.ids@
    }
}

impl MonitorTable {
    pub open spec fn wf(&self) -> bool {
        distinct_ids(self@)
    }

    pub open spec fn contains(&self, id: Seq<char>) -> bool {
        exists|i: int| 0 <= i < self@.len() && #[trigger] self@[i]@ == id
    }

    pub fn new() -> (r: MonitorTable)
        ensures
            r.wf(),
            r@.len() == 0,
    {
        MonitorTable { ids: Vec::new() }
    }

    pub fn lookup(&self, id: &String) -> (r: bool)
        ensures
            r == self.contains(id@),
    {
        let mut i: usize = 0;
        while i < self.ids.len()
            invariant
                i <= self@.len(),
                forall|j: int| 0 <= j < i ==> #[trigger] self@[j]@ != id@,
            decreases self@.len() - i,
        {
            if self.ids[i] == *id {
                return true;
            }
            i = i + 1;
        }
        false
    }

    /// Records `id` unless a row for it exists already; returns whether it
    /// was added. Doing it twice adds nothing the second time.
    pub fn ensure(&mut self, id: &String) -> (r: bool)
        requires
            old(self).wf(),
        ensures
            final(self).wf(),
            r == !old(self).contains(id@),
            final(self)@ == upserted(old(self)@, *id),
            final(self).contains(id@),
    {
        if self.lookup(id) {
            return false;
        }
        self.ids.push(id.clone());
        assert(self@[self@.len() - 1]@ == id@);
        true
    }

    /// The ids of all monitors, in the order they were recorded.
    pub fn ids(&self) -> (r: Vec<String>)
        ensures
            r@ == self@,
    {
        self.ids.clone()
    }
}

} // verus!
