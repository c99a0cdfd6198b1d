//! The unit-of-work queue and the repository capability: `Add`/`Delete`
//! mutations queued in memory, drained front-first (FIFO) on commit, and
//! direct reads that bypass the queue.

use vstd::prelude::*;
use crate::datetime::now_timestamp;
use crate::entity::{Registration, decode_rows};
use crate::store;
use crate::store::{SqlParam, StoreError, error_text, exec_entity_row, exec_id, query_raw};

verus! {

/// One pending mutation of the unit of work: insert an entity, or delete
/// one by its store-assigned id.
pub enum Op<T> {
    Add(T),
    Delete(i32),
}

pub const INSERT_SQL: &'static str =
    "INSERT INTO registrations (date, dateint, item_id, quantity) VALUES (?1, ?2, ?3, ?4)";

pub const DELETE_SQL: &'static str = "DELETE FROM registrations WHERE id = ?1";

pub const SELECT_SQL: &'static str = "SELECT * FROM registrations WHERE ";

/// The per-entity repository capability: queue mutations in memory, drain
/// them in enqueue order on commit, and read directly from the store
/// (reads never consult the pending queue).
pub trait Repo: Sized {
    type Item;

    /// The pending unit of work, oldest first.
    spec fn pending(&self) -> Seq<Op<Self::Item>>;

    /// Whether an entity of this type is well-formed.
    spec fn item_wf(item: &Self::Item) -> bool;

    /// Queues an insert; performs no store work and cannot fail.
    fn add(&mut self, item: Self::Item)
        ensures
            final(self).pending() == old(self).pending().push(Op::Add(item)),
    ;

    /// Queues a delete by id; performs no store work and cannot fail.
    fn delete(&mut self, id: i32)
        ensures
            final(self).pending() == old(self).pending().push(Op::Delete(id)),
    ;

    /// Drains the whole queue front-first (FIFO) against the store, summing
    /// the affected-row counts (the sum saturates at the machine limit). On
    /// success the queue is left empty; with nothing queued, no store call
    /// is made and the result is zero. On the first failing operation the
    /// drain stops: that operation and the ones behind it stay queued in
    /// order, and earlier writes are not rolled back.
    fn commit(&mut self, conn: &rusqlite::Connection) -> (r: Result<usize, StoreError>)
        ensures
            r is Ok ==> final(self).pending() == Seq::<Op<Self::Item>>::empty(),
            old(self).pending().len() == 0 ==> r == Ok::<usize, StoreError>(0usize),
            r is Err ==> exists|k: int|
                0 <= k < old(self).pending().len()
                    && final(self).pending() == old(self).pending().skip(k),
            r matches Err(e) ==> e is Statement,
    ;

    /// Reads one entity by its id, bypassing the queue; `Ok(None)` when no
    /// row with that id is persisted.
    fn find(&self, conn: &rusqlite::Connection, id: i32) -> (r: Result<
        Option<Self::Item>,
        StoreError,
    >)
        ensures
            r matches Ok(Some(item)) ==> Self::item_wf(&item),
            r matches Err(e) ==> e is Statement,
    ;

    /// Reads every persisted entity, bypassing the queue.
    fn get_all(&self, conn: &rusqlite::Connection) -> (r: Result<Vec<Self::Item>, StoreError>)
        ensures
            r matches Ok(v) ==> forall|i: int| 0 <= i < v@.len() ==> Self::item_wf(&v@[i]),
            r matches Err(e) ==> e is Statement,
    ;
}

impl Registration {
    /// Inserts this entity's row directly, outside any unit of work.
    pub fn save(&self, conn: &rusqlite::Connection) -> (r: Result<usize, StoreError>)
        ensures
            r is Err ==> r->Err_0 is Statement,
    {
        match exec_entity_row(conn, INSERT_SQL, &self.date, self.dateint, self.item_id,
            self.quantity) {
            Ok(n) => Ok(n),
            Err(e) => Err(StoreError::Statement(error_text(&e))),
        }
    }

    /// Queries the entities matching a caller-supplied predicate with
    /// positional parameters; the predicate passes through unsanitized.
    /// A malformed row is skipped, never failing the whole read: every
    /// entity handed back is well-formed.
    pub fn find_registrations(
        conn: &rusqlite::Connection,
        where_stmt: &str,
        params: &Vec<SqlParam>,
    ) -> (r: Result<Vec<Registration>, StoreError>)
        ensures
            r matches Ok(v) ==> forall|i: int| 0 <= i < v@.len() ==> (#[trigger] v@[i]).wf(),
            r is Err ==> r->Err_0 is Statement,
    {
        let mut sql = String::from_str(SELECT_SQL);
        sql.append(where_stmt);
        match query_raw(conn, sql.as_str(), params) {
            Ok(rows) => Ok(decode_rows(rows)),
            Err(e) => Err(StoreError::Statement(error_text(&e))),
        }
    }
}

/// The registration repository: the unit-of-work queue for `Registration`
/// entities.
pub struct RegistrationRepo {
    queue: Vec<Op<Registration>>,
}

impl RegistrationRepo {
    /// A repository with an empty unit of work.
    pub fn new() -> (r: RegistrationRepo)
        ensures
            r.pending().len() == 0,
    {
        RegistrationRepo { queue: Vec::new() }
    }
}

/// Applies one drained operation against the store.
fn apply_op(conn: &rusqlite::Connection, op: &Op<Registration>) -> Result<
    usize,
    rusqlite::Error,
> {
    match op {
        Op::Add(reg) => exec_entity_row(conn, INSERT_SQL, &reg.date, reg.dateint, reg.item_id,
            reg.quantity),
        Op::Delete(id) => exec_id(conn, DELETE_SQL, *id),
    }
}

impl Repo for RegistrationRepo {
    type Item = Registration;

    closed spec fn pending(&self) -> Seq<Op<Registration>> {
        self.queue@
    }

    open spec fn item_wf(item: &Registration) -> bool {
        item.wf()
    }

    fn add(&mut self, item: Registration) {
        self.queue.push(Op::Add(item));
    }

    fn delete(&mut self, id: i32) {
        self.queue.push(Op::Delete(id));
    }

    fn commit(&mut self, conn: &rusqlite::Connection) -> (r: Result<usize, StoreError>) {
        let ghost q0 = self.queue@;
        let ghost mut k: int = 0;
        let mut total: usize = 0;
        proof {
            assert(old(self).pending() == q0);
            assert(self.queue@ =~= q0.skip(0int));
        }
        while self.queue.len() > 0
            invariant
                q0 == old(self).pending(),
                0 <= k <= q0.len(),
                self.queue@ == q0.skip(k),
                q0.len() == 0 ==> total == 0,
            decreases self.queue@.len(),
        {
            let n = match apply_op(conn, &self.queue[0]) {
                Ok(n) => n,
                Err(e) => {
                    proof {
                        assert(k < q0.len());
                        assert(self.pending() == q0.skip(k));
                    }
                    return Err(StoreError::Statement(error_text(&e)));
                },
            };
            if n > usize::MAX - total {
                total = usize::MAX;
            } else {
                total = total + n;
            }
            let _ = self.queue.remove(0);
            proof {
                k = k + 1;
                assert(self.queue@ =~= q0.skip(k));
            }
        }
        proof {
            assert(self.pending() =~= Seq::<Op<Registration>>::empty());
        }
        Ok(total)
    }

    fn find(&self, conn: &rusqlite::Connection, id: i32) -> (r: Result<
        Option<Registration>,
        StoreError,
    >) {
        let mut params: Vec<SqlParam> = Vec::new();
        params.push(SqlParam::Int(id as i64));
        match Registration::find_registrations(conn, "id = ?1", &params) {
            Ok(mut regs) => {
                if regs.len() == 0 {
                    Ok(None)
                } else {
                    let reg = regs.remove(0);
                    proof {
                        assert(reg.wf());
                    }
                    Ok(Some(reg))
                }
            },
            Err(e) => Err(e),
        }
    }

    fn get_all(&self, conn: &rusqlite::Connection) -> (r: Result<Vec<Registration>, StoreError>) {
        let params: Vec<SqlParam> = Vec::new();
        Registration::find_registrations(conn, "1 = 1", &params)
    }
}

/// The aggregate repository: owns the store connection and one
/// sub-repository per entity type. Its commit fans out to every
/// sub-repository's commit and sums the affected rows; the first failure
/// aborts the remaining commits and surfaces the error.
pub struct AggregateRepo {
    pub conn: rusqlite::Connection,
    pub registrations: RegistrationRepo,
}

impl AggregateRepo {
    /// An aggregate over the given connection, every queue empty.
    pub fn new(conn: rusqlite::Connection) -> (r: AggregateRepo)
        ensures
            r.registrations.pending().len() == 0,
    {
        AggregateRepo { conn, registrations: RegistrationRepo::new() }
    }

    /// Commits every sub-repository against the shared connection.
    pub fn commit(&mut self) -> (r: Result<usize, StoreError>)
        ensures
            r is Ok ==> final(self).registrations.pending().len() == 0,
            old(self).registrations.pending().len() == 0 ==> r == Ok::<usize, StoreError>(0usize),
            r is Err ==> exists|k: int|
                0 <= k < old(self).registrations.pending().len()
                    && final(self).registrations.pending() == old(
                    self).registrations.pending().skip(k),
            r matches Err(e) ==> e is Statement,
    {
        self.registrations.commit(&self.conn)
    }
}

/// Rebuilds the table from scratch and saves two sample entities dated now.
pub fn seed(conn: &rusqlite::Connection) -> (r: Result<(), StoreError>)
    ensures
        r matches Err(e) ==> e is Statement,
{
    match store::drop(conn) {
        Ok(()) => {},
        Err(e) => {
            return Err(e);
        },
    }
    match store::create(conn) {
        Ok(()) => {},
        Err(e) => {
            return Err(e);
        },
    }
    let reg1 = Registration::new(now_timestamp(), 1, 100);
    match reg1.save(conn) {
        Ok(_) => {},
        Err(e) => {
            return Err(e);
        },
    }
    let reg2 = Registration::new(now_timestamp(), 2, 440);
    match reg2.save(conn) {
        Ok(_) => {},
        Err(e) => {
            return Err(e);
        },
    }
    Ok(())
}

} // verus!
