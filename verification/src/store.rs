//! The in-memory reference store: the exact semantics of every table
//! operation of the data layer.
//!
//! A [`Store`] holds the three tables, each either absent (not yet created)
//! or present with its rows in insertion order. Every operation's contract is
//! a pure transition function on the store's view, so the schema lifecycle,
//! id assignment, existence checking, updates, deletes and range queries are
//! all pinned down exactly; the laws at the end of this module are proved
//! from those transitions alone.

use vstd::prelude::*;
use crate::records::Employee;
use crate::records::NewEmployee;
use crate::records::Work;
use crate::records::NewWork;
use crate::records::EmployeeWork;
use crate::records::NewEmployeeWork;
use crate::records::Table;
use crate::records::StoreError;

verus! {

// ---------------------------------------------------------------------------
// Lexical order on timestamps
// ---------------------------------------------------------------------------

/// Lexicographic order on character sequences: `a` is at most `b` when `a`
/// is a prefix of `b`, or the first differing position holds a smaller
/// character in `a`. On the sortable, zero-padded timestamp strings the
/// callers are expected to supply, this is exactly date order, and it agrees
/// with the byte order the storage engine uses on text.
pub open spec fn lex_le(a: Seq<char>, b: Seq<char>) -> bool
    decreases a.len(),
{
    if a.len() == 0 {
        true
    } else if b.len() == 0 {
        false
    } else if (a[0] as u32) < (b[0] as u32) {
        true
    } else if (a[0] as u32) > (b[0] as u32) {
        false
    } else {
        lex_le(a.skip(1), b.skip(1))
    }
}

/// A timestamp lies in the inclusive range `[from, to]`.
pub open spec fn in_range(ts: Seq<char>, from: Seq<char>, to: Seq<char>) -> bool {
    lex_le(from, ts) && lex_le(ts, to)
}

/// Decide `lex_le` on two string slices.
pub fn str_le(a: &str, b: &str) -> (r: bool)
    ensures
        r == lex_le(a@, b@),
{
    let alen = a.unicode_len();
    let blen = b.unicode_len();
    let mut i: usize = 0;
    proof {
        assert(a@.skip(0) =~= a@);
        assert(b@.skip(0) =~= b@);
    }
    loop
        invariant
            alen == a@.len(),
            blen == b@.len(),
            i <= alen,
            i <= blen,
            lex_le(a@, b@) == lex_le(a@.skip(i as int), b@.skip(i as int)),
        decreases alen - i,
    {
        if i >= alen {
            assert(a@.skip(i as int).len() == 0);
            return true;
        }
        if i >= blen {
            assert(b@.skip(i as int).len() == 0);
            assert(a@.skip(i as int).len() > 0);
            return false;
        }
        let ca = a.get_char(i);
        let cb = b.get_char(i);
        assert(a@.skip(i as int)[0] == a@[i as int]);
        assert(b@.skip(i as int)[0] == b@[i as int]);
        if (ca as u32) < (cb as u32) {
            return true;
        }
        if (ca as u32) > (cb as u32) {
            return false;
        }
        proof {
            assert(a@.skip(i as int).skip(1) =~= a@.skip(i as int + 1));
            assert(b@.skip(i as int).skip(1) =~= b@.skip(i as int + 1));
        }
        i = i + 1;
    }
}

// ---------------------------------------------------------------------------
// The store's view and well-formedness
// ---------------------------------------------------------------------------

/// The mathematical state of the store: each table is absent, or present
/// with its rows in insertion order.
#[verifier::ext_equal]
pub ghost struct StoreView {
    pub employees: Option<Seq<Employee>>,
    pub work: Option<Seq<Work>>,
    pub employee_work: Option<Seq<EmployeeWork>>,
}

impl StoreView {
    /// The state before any schema has been created.
    pub open spec fn fresh() -> StoreView {
        StoreView { employees: None, work: None, employee_work: None }
    }

    /// All three tables exist.
    pub open spec fn all_present(self) -> bool {
        self.employees is Some && self.work is Some && self.employee_work is Some
    }

    /// Every present table has positive, pairwise distinct ids.
    pub open spec fn wf(self) -> bool {
        &&& (self.employees is Some ==> employee_ids_ok(self.employees->0))
        &&& (self.work is Some ==> work_ids_ok(self.work->0))
        &&& (self.employee_work is Some ==> employee_work_ids_ok(self.employee_work->0))
    }
}

pub open spec fn employee_ids_ok(es: Seq<Employee>) -> bool {
    &&& (forall|i: int| 0 <= i < es.len() ==> (#[trigger] es[i]).id > 0)
    &&& (forall|i: int, j: int|
        0 <= i < j < es.len() ==> (#[trigger] es[i]).id != (#[trigger] es[j]).id)
}

pub open spec fn work_ids_ok(ws: Seq<Work>) -> bool {
    &&& (forall|i: int| 0 <= i < ws.len() ==> (#[trigger] ws[i]).id > 0)
    &&& (forall|i: int, j: int|
        0 <= i < j < ws.len() ==> (#[trigger] ws[i]).id != (#[trigger] ws[j]).id)
}

pub open spec fn employee_work_ids_ok(ds: Seq<EmployeeWork>) -> bool {
    &&& (forall|i: int| 0 <= i < ds.len() ==> (#[trigger] ds[i]).id > 0)
    &&& (forall|i: int, j: int|
        0 <= i < j < ds.len() ==> (#[trigger] ds[i]).id != (#[trigger] ds[j]).id)
}

/// Some row of `es` has the given id.
pub open spec fn has_employee_id(es: Seq<Employee>, id: i64) -> bool {
    exists|j: int| 0 <= j < es.len() && (#[trigger] es[j]).id == id
}

pub open spec fn has_work_id(ws: Seq<Work>, id: i64) -> bool {
    exists|j: int| 0 <= j < ws.len() && (#[trigger] ws[j]).id == id
}

pub open spec fn has_employee_work_id(ds: Seq<EmployeeWork>, id: i64) -> bool {
    exists|j: int| 0 <= j < ds.len() && (#[trigger] ds[j]).id == id
}

// ---------------------------------------------------------------------------
// Id assignment
// ---------------------------------------------------------------------------

/// The largest id of the rows, and zero for an empty table. A freshly
/// assigned id is one past this, which keeps ids positive and unique.
pub open spec fn max_employee_id(es: Seq<Employee>) -> int
    decreases es.len(),
{
    if es.len() == 0 {
        0
    } else {
        let m = max_employee_id(es.drop_last());
        if es.last().id > m {
            es.last().id as int
        } else {
            m
        }
    }
}

pub open spec fn max_work_id(ws: Seq<Work>) -> int
    decreases ws.len(),
{
    if ws.len() == 0 {
        0
    } else {
        let m = max_work_id(ws.drop_last());
        if ws.last().id > m {
            ws.last().id as int
        } else {
            m
        }
    }
}

pub open spec fn max_employee_work_id(ds: Seq<EmployeeWork>) -> int
    decreases ds.len(),
{
    if ds.len() == 0 {
        0
    } else {
        let m = max_employee_work_id(ds.drop_last());
        if ds.last().id > m {
            ds.last().id as int
        } else {
            m
        }
    }
}

/// Every id is at most the maximum.
pub proof fn lemma_max_employee_id_ge(es: Seq<Employee>)
    ensures
        0 <= max_employee_id(es) <= i64::MAX,
        forall|j: int| 0 <= j < es.len() ==> (#[trigger] es[j]).id <= max_employee_id(es),
    decreases es.len(),
{
    if es.len() > 0 {
        lemma_max_employee_id_ge(es.drop_last());
        assert(forall|j: int| 0 <= j < es.len() - 1 ==> es[j] == es.drop_last()[j]);
    }
}

// ---------------------------------------------------------------------------
// Record construction
// ---------------------------------------------------------------------------

/// The employee record a creation payload yields under a given id.
pub open spec fn employee_from(p: NewEmployee, id: i64) -> Employee {
    Employee {
        id,
        name: p.name,
        phone: p.phone,
        address: p.address,
        ssn: p.ssn,
        work_percentage: p.work_percentage,
        cash_percentage: p.cash_percentage,
        is_active: p.is_active,
    }
}

pub open spec fn work_from(p: NewWork, id: i64) -> Work {
    Work {
        id,
        timestamp: p.timestamp,
        total: p.total,
        tip: p.tip,
        discount: p.discount,
        charged: p.charged,
    }
}

pub open spec fn employee_work_from(p: NewEmployeeWork, id: i64) -> EmployeeWork {
    EmployeeWork {
        id,
        employee_id: p.employee_id,
        work_id: p.work_id,
        amount: p.amount,
        tip: p.tip,
    }
}

// ---------------------------------------------------------------------------
// Transition functions
// ---------------------------------------------------------------------------

/// Initialisation creates each absent table empty and leaves present tables
/// untouched. It never fails.
pub open spec fn init_v(v: StoreView) -> StoreView {
    StoreView {
        employees: if v.employees is Some {
            v.employees
        } else {
            Some(Seq::<Employee>::empty())
        },
        work: if v.work is Some {
            v.work
        } else {
            Some(Seq::<Work>::empty())
        },
        employee_work: if v.employee_work is Some {
            v.employee_work
        } else {
            Some(Seq::<EmployeeWork>::empty())
        },
    }
}

/// Formatting drops the tables in order (employees, work, employee_work) and
/// stops at the first that does not exist; tables already dropped stay
/// dropped, so a failure can leave a partial schema.
pub open spec fn format_v(v: StoreView) -> (StoreView, Result<(), StoreError>) {
    if v.employees is None {
        (v, Err(StoreError::NoSuchTable(Table::Employees)))
    } else if v.work is None {
        (
            StoreView { employees: None, work: v.work, employee_work: v.employee_work },
            Err(StoreError::NoSuchTable(Table::Work)),
        )
    } else if v.employee_work is None {
        (
            StoreView { employees: None, work: None, employee_work: v.employee_work },
            Err(StoreError::NoSuchTable(Table::EmployeeWork)),
        )
    } else {
        (StoreView::fresh(), Ok(()))
    }
}

/// Creation fails on an absent table, assigns the next id otherwise, and
/// appends the new row. `Full` can only occur once the id space is exhausted.
pub open spec fn create_employee_v(v: StoreView, p: NewEmployee) -> (StoreView, Result<
    Employee,
    StoreError,
>) {
    match v.employees {
        None => (v, Err(StoreError::NoSuchTable(Table::Employees))),
        Some(es) => {
            if max_employee_id(es) >= i64::MAX {
                (v, Err(StoreError::Full))
            } else {
                let e = employee_from(p, (max_employee_id(es) + 1) as i64);
                (
                    StoreView {
                        employees: Some(es.push(e)),
                        work: v.work,
                        employee_work: v.employee_work,
                    },
                    Ok(e),
                )
            }
        },
    }
}

pub open spec fn create_work_v(v: StoreView, p: NewWork) -> (StoreView, Result<Work, StoreError>) {
    match v.work {
        None => (v, Err(StoreError::NoSuchTable(Table::Work))),
        Some(ws) => {
            if max_work_id(ws) >= i64::MAX {
                (v, Err(StoreError::Full))
            } else {
                let w = work_from(p, (max_work_id(ws) + 1) as i64);
                (
                    StoreView {
                        employees: v.employees,
                        work: Some(ws.push(w)),
                        employee_work: v.employee_work,
                    },
                    Ok(w),
                )
            }
        },
    }
}

pub open spec fn create_employee_work_v(v: StoreView, p: NewEmployeeWork) -> (StoreView, Result<
    EmployeeWork,
    StoreError,
>) {
    match v.employee_work {
        None => (v, Err(StoreError::NoSuchTable(Table::EmployeeWork))),
        Some(ds) => {
            if max_employee_work_id(ds) >= i64::MAX {
                (v, Err(StoreError::Full))
            } else {
                let d = employee_work_from(p, (max_employee_work_id(ds) + 1) as i64);
                (
                    StoreView {
                        employees: v.employees,
                        work: v.work,
                        employee_work: Some(ds.push(d)),
                    },
                    Ok(d),
                )
            }
        },
    }
}

/// An update first checks existence: a missing table surfaces the failed
/// check, a missing id is Not-Found and writes nothing, and otherwise the
/// row with that id is overwritten and the updated representation returned.
pub open spec fn update_employee_v(v: StoreView, e: Employee) -> (StoreView, Result<
    Employee,
    StoreError,
>) {
    match v.employees {
        None => (v, Err(StoreError::NoSuchTable(Table::Employees))),
        Some(es) => {
            if !has_employee_id(es, e.id) {
                (v, Err(StoreError::NotFound))
            } else {
                (
                    StoreView {
                        employees: Some(
                            es.map_values(
                                |r: Employee|
                                    if r.id == e.id {
                                        e
                                    } else {
                                        r
                                    },
                            ),
                        ),
                        work: v.work,
                        employee_work: v.employee_work,
                    },
                    Ok(e),
                )
            }
        },
    }
}

/// A delete on an absent table reports Not-Found (the driver's lookup error);
/// otherwise it removes every row with the id and succeeds even when there is
/// none.
pub open spec fn delete_employee_v(v: StoreView, id: i64) -> (StoreView, Result<(), StoreError>) {
    match v.employees {
        None => (v, Err(StoreError::NotFound)),
        Some(es) => (
            StoreView {
                employees: Some(es.filter(|r: Employee| r.id != id)),
                work: v.work,
                employee_work: v.employee_work,
            },
            Ok(()),
        ),
    }
}

/// Listing returns all rows of a present table, inactive employees included,
/// in insertion order.
pub open spec fn list_employees_v(v: StoreView) -> Result<Seq<Employee>, StoreError> {
    match v.employees {
        None => Err(StoreError::NoSuchTable(Table::Employees)),
        Some(es) => Ok(es),
    }
}

pub open spec fn list_work_v(v: StoreView) -> Result<Seq<Work>, StoreError> {
    match v.work {
        None => Err(StoreError::NoSuchTable(Table::Work)),
        Some(ws) => Ok(ws),
    }
}

/// The work rows whose timestamp lies lexically in the inclusive range.
pub open spec fn range_filter(ws: Seq<Work>, from: Seq<char>, to: Seq<char>) -> Seq<Work> {
    ws.filter(|w: Work| in_range(w.timestamp@, from, to))
}

pub open spec fn work_time_range_v(v: StoreView, from: Seq<char>, to: Seq<char>) -> Result<
    Seq<Work>,
    StoreError,
> {
    match v.work {
        None => Err(StoreError::NoSuchTable(Table::Work)),
        Some(ws) => Ok(range_filter(ws, from, to)),
    }
}

/// The join rows whose work id is among the given ids.
pub open spec fn details_filter(ds: Seq<EmployeeWork>, ids: Seq<i64>) -> Seq<EmployeeWork> {
    ds.filter(|d: EmployeeWork| ids.contains(d.work_id))
}

pub open spec fn details_for_work_ids_v(v: StoreView, ids: Seq<i64>) -> Result<
    Seq<EmployeeWork>,
    StoreError,
> {
    match v.employee_work {
        None => Err(StoreError::NoSuchTable(Table::EmployeeWork)),
        Some(ds) => Ok(details_filter(ds, ids)),
    }
}

/// The existence check: an absent table surfaces the failure, otherwise the
/// answer is whether some row of that table has the id.
pub open spec fn row_exists_v(v: StoreView, t: Table, id: i64) -> Result<bool, StoreError> {
    match t {
        Table::Employees => match v.employees {
            None => Err(StoreError::NoSuchTable(Table::Employees)),
            Some(es) => Ok(has_employee_id(es, id)),
        },
        Table::Work => match v.work {
            None => Err(StoreError::NoSuchTable(Table::Work)),
            Some(ws) => Ok(has_work_id(ws, id)),
        },
        Table::EmployeeWork => match v.employee_work {
            None => Err(StoreError::NoSuchTable(Table::EmployeeWork)),
            Some(ds) => Ok(has_employee_work_id(ds, id)),
        },
    }
}

/// The removal semantics of a delete: every row with the id goes, every
/// other row stays, in order.
pub open spec fn delete_filter(es: Seq<Employee>, id: i64) -> Seq<Employee> {
    es.filter(|r: Employee| r.id != id)
}

// ---------------------------------------------------------------------------
// The executable store
// ---------------------------------------------------------------------------

/// The in-memory store itself. Each operation's contract is exactly the
/// transition function of the same name on the view.
pub struct Store {
    employees: Option<Vec<Employee>>,
    work: Option<Vec<Work>>,
    employee_work: Option<Vec<EmployeeWork>>,
}

impl View for Store {
    type V = StoreView;

    closed spec fn view(&self) -> StoreView {
        StoreView {
            employees: match self.employees {
                Some(v) => Some(v@),
                None => None,
            },
            work: match self.work {
                Some(v) => Some(v@),
                None => None,
            },
            employee_work: match self.employee_work {
                Some(v) => Some(v@),
                None => None,
            },
        }
    }
}

/// The largest id among the rows, zero for none.
fn vec_max_employee_id(es: &Vec<Employee>) -> (m: i64)
    ensures
        m as int == max_employee_id(es@),
{
    let mut m: i64 = 0;
    let mut i: usize = 0;
    proof {
        assert(es@.take(0) =~= Seq::<Employee>::empty());
    }
    while i < es.len()
        invariant
            i <= es@.len(),
            m as int == max_employee_id(es@.take(i as int)),
        decreases es@.len() - i,
    {
        proof {
            assert(es@.take(i as int + 1).drop_last() =~= es@.take(i as int));
            assert(es@.take(i as int + 1).last() == es@[i as int]);
        }
        if es[i].id > m {
            m = es[i].id;
        }
        i = i + 1;
    }
    proof {
        assert(es@.take(es@.len() as int) =~= es@);
    }
    m
}

fn vec_max_work_id(ws: &Vec<Work>) -> (m: i64)
    ensures
        m as int == max_work_id(ws@),
{
    let mut m: i64 = 0;
    let mut i: usize = 0;
    proof {
        assert(ws@.take(0) =~= Seq::<Work>::empty());
    }
    while i < ws.len()
        invariant
            i <= ws@.len(),
            m as int == max_work_id(ws@.take(i as int)),
        decreases ws@.len() - i,
    {
        proof {
            assert(ws@.take(i as int + 1).drop_last() =~= ws@.take(i as int));
            assert(ws@.take(i as int + 1).last() == ws@[i as int]);
        }
        if ws[i].id > m {
            m = ws[i].id;
        }
        i = i + 1;
    }
    proof {
        assert(ws@.take(ws@.len() as int) =~= ws@);
    }
    m
}

fn vec_max_employee_work_id(ds: &Vec<EmployeeWork>) -> (m: i64)
    ensures
        m as int == max_employee_work_id(ds@),
{
    let mut m: i64 = 0;
    let mut i: usize = 0;
    proof {
        assert(ds@.take(0) =~= Seq::<EmployeeWork>::empty());
    }
    while i < ds.len()
        invariant
            i <= ds@.len(),
            m as int == max_employee_work_id(ds@.take(i as int)),
        decreases ds@.len() - i,
    {
        proof {
            assert(ds@.take(i as int + 1).drop_last() =~= ds@.take(i as int));
            assert(ds@.take(i as int + 1).last() == ds@[i as int]);
        }
        if ds[i].id > m {
            m = ds[i].id;
        }
        i = i + 1;
    }
    proof {
        assert(ds@.take(ds@.len() as int) =~= ds@);
    }
    m
}

/// Whether some row has the given id.
fn vec_has_employee_id(es: &Vec<Employee>, id: i64) -> (r: bool)
    ensures
        r == has_employee_id(es@, id),
{
    let mut i: usize = 0;
    while i < es.len()
        invariant
            i <= es@.len(),
            forall|j: int| 0 <= j < i ==> (#[trigger] es@[j]).id != id,
        decreases es@.len() - i,
    {
        if es[i].id == id {
            assert(es@[i as int].id == id);
            return true;
        }
        i = i + 1;
    }
    false
}

fn vec_has_work_id(ws: &Vec<Work>, id: i64) -> (r: bool)
    ensures
        r == has_work_id(ws@, id),
{
    let mut i: usize = 0;
    while i < ws.len()
        invariant
            i <= ws@.len(),
            forall|j: int| 0 <= j < i ==> (#[trigger] ws@[j]).id != id,
        decreases ws@.len() - i,
    {
        if ws[i].id == id {
            assert(ws@[i as int].id == id);
            return true;
        }
        i = i + 1;
    }
    false
}

fn vec_has_employee_work_id(ds: &Vec<EmployeeWork>, id: i64) -> (r: bool)
    ensures
        r == has_employee_work_id(ds@, id),
{
    let mut i: usize = 0;
    while i < ds.len()
        invariant
            i <= ds@.len(),
            forall|j: int| 0 <= j < i ==> (#[trigger] ds@[j]).id != id,
        decreases ds@.len() - i,
    {
        if ds[i].id == id {
            assert(ds@[i as int].id == id);
            return true;
        }
        i = i + 1;
    }
    false
}

/// Whether `x` occurs among the ids.
fn ids_contain(ids: &Vec<i64>, x: i64) -> (r: bool)
    ensures
        r == ids@.contains(x),
{
    let mut i: usize = 0;
    while i < ids.len()
        invariant
            i <= ids@.len(),
            forall|j: int| 0 <= j < i ==> ids@[j] != x,
        decreases ids@.len() - i,
    {
        if ids[i] == x {
            assert(ids@[i as int] == x);
            return true;
        }
        i = i + 1;
    }
    false
}

fn clone_employees(es: &Vec<Employee>) -> (out: Vec<Employee>)
    ensures
        out@ == es@,
{
    let mut out: Vec<Employee> = Vec::new();
    let mut i: usize = 0;
    proof {
        assert(out@ =~= es@.take(0));
    }
    while i < es.len()
        invariant
            i <= es@.len(),
            out@ == es@.take(i as int),
        decreases es@.len() - i,
    {
        out.push(es[i].clone());
        proof {
            assert(es@.take(i as int).push(es@[i as int]) =~= es@.take(i as int + 1));
        }
        i = i + 1;
    }
    proof {
        assert(es@.take(es@.len() as int) =~= es@);
    }
    out
}

fn clone_work(ws: &Vec<Work>) -> (out: Vec<Work>)
    ensures
        out@ == ws@,
{
    let mut out: Vec<Work> = Vec::new();
    let mut i: usize = 0;
    proof {
        assert(out@ =~= ws@.take(0));
    }
    while i < ws.len()
        invariant
            i <= ws@.len(),
            out@ == ws@.take(i as int),
        decreases ws@.len() - i,
    {
        out.push(ws[i].clone());
        proof {
            assert(ws@.take(i as int).push(ws@[i as int]) =~= ws@.take(i as int + 1));
        }
        i = i + 1;
    }
    proof {
        assert(ws@.take(ws@.len() as int) =~= ws@);
    }
    out
}

/// The rows of `ws` whose timestamp lies lexically in the inclusive range.
pub fn filter_work_by_range(ws: &Vec<Work>, date_from: &str, date_to: &str) -> (out: Vec<Work>)
    ensures
        out@ == range_filter(ws@, date_from@, date_to@),
{
    let mut out: Vec<Work> = Vec::new();
    let mut i: usize = 0;
    proof {
        assert(out@ =~= range_filter(ws@.take(0), date_from@, date_to@));
    }
    while i < ws.len()
        invariant
            i <= ws@.len(),
            out@ == range_filter(ws@.take(i as int), date_from@, date_to@),
        decreases ws@.len() - i,
    {
        proof {
            assert(ws@.take(i as int + 1).drop_last() =~= ws@.take(i as int));
            assert(ws@.take(i as int + 1).last() == ws@[i as int]);
        }
        let ts_ok = str_le(date_from, ws[i].timestamp.as_str()) && str_le(
            ws[i].timestamp.as_str(),
            date_to,
        );
        if ts_ok {
            out.push(ws[i].clone());
        }
        proof {
            reveal(Seq::filter);
            assert(out@ == range_filter(ws@.take(i as int + 1), date_from@, date_to@));
        }
        i = i + 1;
    }
    proof {
        assert(ws@.take(ws@.len() as int) =~= ws@);
    }
    out
}

/// The rows of `ds` whose work id occurs among `work_ids`.
pub fn filter_details_by_ids(ds: &Vec<EmployeeWork>, work_ids: &Vec<i64>) -> (out: Vec<
    EmployeeWork,
>)
    ensures
        out@ == details_filter(ds@, work_ids@),
{
    let mut out: Vec<EmployeeWork> = Vec::new();
    let mut i: usize = 0;
    proof {
        assert(out@ =~= details_filter(ds@.take(0), work_ids@));
    }
    while i < ds.len()
        invariant
            i <= ds@.len(),
            out@ == details_filter(ds@.take(i as int), work_ids@),
        decreases ds@.len() - i,
    {
        proof {
            assert(ds@.take(i as int + 1).drop_last() =~= ds@.take(i as int));
            assert(ds@.take(i as int + 1).last() == ds@[i as int]);
        }
        if ids_contain(work_ids, ds[i].work_id) {
            out.push(ds[i].clone());
        }
        proof {
            reveal(Seq::filter);
            assert(out@ == details_filter(ds@.take(i as int + 1), work_ids@));
        }
        i = i + 1;
    }
    proof {
        assert(ds@.take(ds@.len() as int) =~= ds@);
    }
    out
}

impl Store {
    /// A store in which no table exists yet.
    pub fn new() -> (s: Store)
        ensures
            s@ == StoreView::fresh(),
    {
        Store { employees: None, work: None, employee_work: None }
    }

    /// Create each absent table; repeated calls change nothing and never fail.
    pub fn initialize(&mut self)
        ensures
            final(self)@ == init_v(old(self)@),
    {
        if self.employees.is_none() {
            self.employees = Some(Vec::new());
        }
        if self.work.is_none() {
            self.work = Some(Vec::new());
        }
        if self.employee_work.is_none() {
            self.employee_work = Some(Vec::new());
        }
        proof {
            assert(self@ =~~= init_v(old(self)@));
        }
    }

    /// Drop the tables in order, stopping at the first that is absent.
    pub fn format(&mut self) -> (r: Result<(), StoreError>)
        ensures
            final(self)@ == format_v(old(self)@).0,
            r == format_v(old(self)@).1,
    {
        if self.employees.is_none() {
            proof {
                assert(self@ =~~= format_v(old(self)@).0);
            }
            return Err(StoreError::NoSuchTable(Table::Employees));
        }
        self.employees = None;
        if self.work.is_none() {
            proof {
                assert(self@ =~~= format_v(old(self)@).0);
            }
            return Err(StoreError::NoSuchTable(Table::Work));
        }
        self.work = None;
        if self.employee_work.is_none() {
            proof {
                assert(self@ =~~= format_v(old(self)@).0);
            }
            return Err(StoreError::NoSuchTable(Table::EmployeeWork));
        }
        self.employee_work = None;
        proof {
            assert(self@ =~~= format_v(old(self)@).0);
        }
        Ok(())
    }

    /// Insert a new employee row under a freshly assigned id and return the
    /// stored representation.
    pub fn create_employee(&mut self, p: NewEmployee) -> (r: Result<Employee, StoreError>)
        ensures
            final(self)@ == create_employee_v(old(self)@, p).0,
            r == create_employee_v(old(self)@, p).1,
    {
        let tbl = self.employees.take();
        match tbl {
            None => {
                proof {
                    assert(self@ =~~= old(self)@);
                }
                Err(StoreError::NoSuchTable(Table::Employees))
            },
            Some(mut es) => {
                let m = vec_max_employee_id(&es);
                if m == i64::MAX {
                    self.employees = Some(es);
                    proof {
                        assert(self@ =~~= old(self)@);
                    }
                    Err(StoreError::Full)
                } else {
                    let e = Employee {
                        id: m + 1,
                        name: p.name,
                        phone: p.phone,
                        address: p.address,
                        ssn: p.ssn,
                        work_percentage: p.work_percentage,
                        cash_percentage: p.cash_percentage,
                        is_active: p.is_active,
                    };
                    es.push(e.clone());
                    self.employees = Some(es);
                    proof {
                        assert(self@ =~~= create_employee_v(old(self)@, p).0);
                    }
                    Ok(e)
                }
            },
        }
    }

    /// Insert a new work row under a freshly assigned id.
    pub fn create_work(&mut self, p: NewWork) -> (r: Result<Work, StoreError>)
        ensures
            final(self)@ == create_work_v(old(self)@, p).0,
            r == create_work_v(old(self)@, p).1,
    {
        let tbl = self.work.take();
        match tbl {
            None => {
                proof {
                    assert(self@ =~~= old(self)@);
                }
                Err(StoreError::NoSuchTable(Table::Work))
            },
            Some(mut ws) => {
                let m = vec_max_work_id(&ws);
                if m == i64::MAX {
                    self.work = Some(ws);
                    proof {
                        assert(self@ =~~= old(self)@);
                    }
                    Err(StoreError::Full)
                } else {
                    let w = Work {
                        id: m + 1,
                        timestamp: p.timestamp,
                        total: p.total,
                        tip: p.tip,
                        discount: p.discount,
                        charged: p.charged,
                    };
                    ws.push(w.clone());
                    self.work = Some(ws);
                    proof {
                        assert(self@ =~~= create_work_v(old(self)@, p).0);
                    }
                    Ok(w)
                }
            },
        }
    }

    /// Insert a new employee-work row under a freshly assigned id.
    pub fn create_employee_work(&mut self, p: NewEmployeeWork) -> (r: Result<
        EmployeeWork,
        StoreError,
    >)
        ensures
            final(self)@ == create_employee_work_v(old(self)@, p).0,
            r == create_employee_work_v(old(self)@, p).1,
    {
        let tbl = self.employee_work.take();
        match tbl {
            None => {
                proof {
                    assert(self@ =~~= old(self)@);
                }
                Err(StoreError::NoSuchTable(Table::EmployeeWork))
            },
            Some(mut ds) => {
                let m = vec_max_employee_work_id(&ds);
                if m == i64::MAX {
                    self.employee_work = Some(ds);
                    proof {
                        assert(self@ =~~= old(self)@);
                    }
                    Err(StoreError::Full)
                } else {
                    let d = EmployeeWork {
                        id: m + 1,
                        employee_id: p.employee_id,
                        work_id: p.work_id,
                        amount: p.amount,
                        tip: p.tip,
                    };
                    ds.push(d.clone());
                    self.employee_work = Some(ds);
                    proof {
                        assert(self@ =~~= create_employee_work_v(old(self)@, p).0);
                    }
                    Ok(d)
                }
            },
        }
    }

    /// Overwrite the row whose id matches the payload's, after checking it
    /// exists; a missing id is Not-Found and writes nothing.
    pub fn update_employee(&mut self, e: &Employee) -> (r: Result<Employee, StoreError>)
        ensures
            final(self)@ == update_employee_v(old(self)@, *e).0,
            r == update_employee_v(old(self)@, *e).1,
    {
        let tbl = self.employees.take();
        match tbl {
            None => {
                proof {
                    assert(self@ =~~= old(self)@);
                }
                Err(StoreError::NoSuchTable(Table::Employees))
            },
            Some(es) => {
                let mut out: Vec<Employee> = Vec::new();
                let mut found = false;
                let mut i: usize = 0;
                while i < es.len()
                    invariant
                        i <= es@.len(),
                        out@.len() == i as int,
                        forall|j: int|
                            0 <= j < i ==> out@[j] == (if (#[trigger] es@[j]).id == e.id {
                                *e
                            } else {
                                es@[j]
                            }),
                        found ==> has_employee_id(es@, e.id),
                        !found ==> forall|j: int| 0 <= j < i ==> (#[trigger] es@[j]).id != e.id,
                    decreases es@.len() - i,
                {
                    if es[i].id == e.id {
                        out.push(e.clone());
                        found = true;
                        proof {
                            assert(es@[i as int].id == e.id);
                        }
                    } else {
                        out.push(es[i].clone());
                    }
                    i = i + 1;
                }
                if found {
                    proof {
                        assert(out@ =~= es@.map_values(
                            |r2: Employee|
                                if r2.id == e.id {
                                    *e
                                } else {
                                    r2
                                },
                        ));
                    }
                    self.employees = Some(out);
                    proof {
                        assert(self@ =~~= update_employee_v(old(self)@, *e).0);
                    }
                    Ok(e.clone())
                } else {
                    proof {
                        assert(out@ =~= es@);
                    }
                    self.employees = Some(out);
                    proof {
                        assert(self@ =~~= old(self)@);
                    }
                    Err(StoreError::NotFound)
                }
            },
        }
    }

    /// Remove every row with the given id; succeeds even when there is none.
    pub fn delete_employee(&mut self, id: i64) -> (r: Result<(), StoreError>)
        ensures
            final(self)@ == delete_employee_v(old(self)@, id).0,
            r == delete_employee_v(old(self)@, id).1,
    {
        let tbl = self.employees.take();
        match tbl {
            None => {
                proof {
                    assert(self@ =~~= old(self)@);
                }
                Err(StoreError::NotFound)
            },
            Some(es) => {
                let mut out: Vec<Employee> = Vec::new();
                let mut i: usize = 0;
                proof {
                    assert(out@ =~= delete_filter(es@.take(0), id));
                }
                while i < es.len()
                    invariant
                        i <= es@.len(),
                        out@ == delete_filter(es@.take(i as int), id),
                    decreases es@.len() - i,
                {
                    proof {
                        assert(es@.take(i as int + 1).drop_last() =~= es@.take(i as int));
                        assert(es@.take(i as int + 1).last() == es@[i as int]);
                    }
                    if es[i].id != id {
                        out.push(es[i].clone());
                    }
                    proof {
                        reveal(Seq::filter);
                        assert(out@ == delete_filter(es@.take(i as int + 1), id));
                    }
                    i = i + 1;
                }
                proof {
                    assert(es@.take(es@.len() as int) =~= es@);
                }
                self.employees = Some(out);
                proof {
                    assert(self@ =~~= delete_employee_v(old(self)@, id).0);
                }
                Ok(())
            },
        }
    }

    /// All employee rows, inactive ones included, in insertion order.
    pub fn list_employees(&self) -> (r: Result<Vec<Employee>, StoreError>)
        ensures
            (r matches Ok(v) ==> list_employees_v(self@) == Ok::<Seq<Employee>, StoreError>(v@)),
            (r matches Err(e) ==> list_employees_v(self@) == Err::<Seq<Employee>, StoreError>(e)),
    {
        match &self.employees {
            None => Err(StoreError::NoSuchTable(Table::Employees)),
            Some(es) => Ok(clone_employees(es)),
        }
    }

    /// All work rows, in insertion order.
    pub fn list_work(&self) -> (r: Result<Vec<Work>, StoreError>)
        ensures
            (r matches Ok(v) ==> list_work_v(self@) == Ok::<Seq<Work>, StoreError>(v@)),
            (r matches Err(e) ==> list_work_v(self@) == Err::<Seq<Work>, StoreError>(e)),
    {
        match &self.work {
            None => Err(StoreError::NoSuchTable(Table::Work)),
            Some(ws) => Ok(clone_work(ws)),
        }
    }

    /// The work rows whose timestamp lies lexically between `from` and `to`,
    /// both inclusive.
    pub fn work_time_range(&self, date_from: &str, date_to: &str) -> (r: Result<
        Vec<Work>,
        StoreError,
    >)
        ensures
            (r matches Ok(v) ==> work_time_range_v(self@, date_from@, date_to@) == Ok::<
                Seq<Work>,
                StoreError,
            >(v@)),
            (r matches Err(e) ==> work_time_range_v(self@, date_from@, date_to@) == Err::<
                Seq<Work>,
                StoreError,
            >(e)),
    {
        match &self.work {
            None => Err(StoreError::NoSuchTable(Table::Work)),
            Some(ws) => Ok(filter_work_by_range(ws, date_from, date_to)),
        }
    }

    /// The employee-work rows whose work id is among the given ids.
    pub fn details_for_work_ids(&self, work_ids: &Vec<i64>) -> (r: Result<
        Vec<EmployeeWork>,
        StoreError,
    >)
        ensures
            (r matches Ok(v) ==> details_for_work_ids_v(self@, work_ids@) == Ok::<
                Seq<EmployeeWork>,
                StoreError,
            >(v@)),
            (r matches Err(e) ==> details_for_work_ids_v(self@, work_ids@) == Err::<
                Seq<EmployeeWork>,
                StoreError,
            >(e)),
    {
        match &self.employee_work {
            None => Err(StoreError::NoSuchTable(Table::EmployeeWork)),
            Some(ds) => Ok(filter_details_by_ids(ds, work_ids)),
        }
    }

    /// The existence check behind updates: whether a row with the id exists
    /// in the given table.
    pub fn row_exists(&self, table: Table, row_id: i64) -> (r: Result<bool, StoreError>)
        ensures
            r == row_exists_v(self@, table, row_id),
    {
        match table {
            Table::Employees => match &self.employees {
                None => Err(StoreError::NoSuchTable(Table::Employees)),
                Some(es) => Ok(vec_has_employee_id(es, row_id)),
            },
            Table::Work => match &self.work {
                None => Err(StoreError::NoSuchTable(Table::Work)),
                Some(ws) => Ok(vec_has_work_id(ws, row_id)),
            },
            Table::EmployeeWork => match &self.employee_work {
                None => Err(StoreError::NoSuchTable(Table::EmployeeWork)),
                Some(ds) => Ok(vec_has_employee_work_id(ds, row_id)),
            },
        }
    }
}

// ---------------------------------------------------------------------------
// Laws
// ---------------------------------------------------------------------------

/// Initialising twice in a row is the same as initialising once: the second
/// call never fails (the transition is total) and leaves schema and data
/// exactly as the first left them.
pub proof fn lemma_initialize_idempotent(v: StoreView)
    ensures
        init_v(init_v(v)) == init_v(v),
{
    assert(init_v(init_v(v)) =~~= init_v(v));
}

/// Formatting before any initialisation fails: on a fresh store the first
/// drop already finds its table absent, and nothing changes.
pub proof fn lemma_format_before_init_errors()
    ensures
        format_v(StoreView::fresh()).1 is Err,
        format_v(StoreView::fresh()).0 == StoreView::fresh(),
{
}

/// Formatting twice in a row fails the second time: a successful format
/// leaves no tables behind, so the second call's first drop fails.
pub proof fn lemma_format_twice_errors(v: StoreView)
    requires
        format_v(v).1 is Ok,
    ensures
        format_v(format_v(v).0).1 is Err,
{
}

/// A successful creation returns a record whose fields equal the payload and
/// whose id is positive and distinct from every existing id; listing
/// afterwards shows the old rows with the new record appended, and
/// well-formedness is preserved. On an existing table creation only fails
/// once the id space is exhausted.
pub proof fn lemma_create_then_list(v: StoreView, p: NewEmployee)
    requires
        v.wf(),
        v.employees is Some,
    ensures
        ({
            let (v2, r) = create_employee_v(v, p);
            &&& (r is Err ==> r->Err_0 == StoreError::Full && max_employee_id(v.employees->0)
                == i64::MAX)
            &&& (r matches Ok(e) ==> {
                &&& e.id > 0
                &&& forall|j: int|
                    0 <= j < v.employees->0.len() ==> (#[trigger] v.employees->0[j]).id != e.id
                &&& e.name == p.name
                &&& e.phone == p.phone
                &&& e.address == p.address
                &&& e.ssn == p.ssn
                &&& e.work_percentage == p.work_percentage
                &&& e.cash_percentage == p.cash_percentage
                &&& e.is_active == p.is_active
                &&& list_employees_v(v2) == Ok::<Seq<Employee>, StoreError>(
                    v.employees->0.push(e),
                )
                &&& v2.wf()
            })
        }),
{
    let es = v.employees->0;
    lemma_max_employee_id_ge(es);
    let (v2, r) = create_employee_v(v, p);
    if max_employee_id(es) < i64::MAX {
        let e = employee_from(p, (max_employee_id(es) + 1) as i64);
        let es2 = es.push(e);
        assert(forall|j: int| 0 <= j < es.len() ==> es2[j] == es[j]);
        assert(es2[es.len() as int] == e);
        assert(employee_ids_ok(es2));
    }
}

/// An update whose target id is absent returns Not-Found and writes nothing.
pub proof fn lemma_update_missing_no_write(v: StoreView, e: Employee)
    requires
        v.employees is Some,
        !has_employee_id(v.employees->0, e.id),
    ensures
        update_employee_v(v, e) == (v, Err::<Employee, StoreError>(StoreError::NotFound)),
{
}

/// Under distinct ids, removing an id that occurs drops exactly one row, and
/// removing one that does not occur changes nothing.
proof fn lemma_delete_filter_exact(es: Seq<Employee>, id: i64)
    requires
        forall|i: int, j: int|
            0 <= i < j < es.len() ==> (#[trigger] es[i]).id != (#[trigger] es[j]).id,
    ensures
        has_employee_id(es, id) ==> delete_filter(es, id).len() == es.len() - 1,
        !has_employee_id(es, id) ==> delete_filter(es, id) == es,
    decreases es.len(),
{
    reveal(Seq::filter);
    if es.len() == 0 {
        assert(delete_filter(es, id) =~= es);
    } else {
        let pre = es.drop_last();
        let last = es.last();
        assert(forall|j: int| 0 <= j < pre.len() ==> pre[j] == es[j]);
        lemma_delete_filter_exact(pre, id);
        if last.id == id {
            assert(has_employee_id(es, id)) by {
                assert(es[es.len() - 1].id == id);
            }
            assert(!has_employee_id(pre, id)) by {
                if has_employee_id(pre, id) {
                    let j = choose|j: int| 0 <= j < pre.len() && (#[trigger] pre[j]).id == id;
                    assert(es[j].id == es[es.len() - 1].id);
                }
            }
            assert(delete_filter(es, id) == delete_filter(pre, id));
        } else {
            assert(delete_filter(es, id) == delete_filter(pre, id).push(last));
            if has_employee_id(es, id) {
                assert(has_employee_id(pre, id)) by {
                    let j = choose|j: int| 0 <= j < es.len() && (#[trigger] es[j]).id == id;
                    assert(j < es.len() - 1);
                    assert(pre[j].id == id);
                }
            } else {
                assert(!has_employee_id(pre, id)) by {
                    if has_employee_id(pre, id) {
                        let j = choose|j: int|
                            0 <= j < pre.len() && (#[trigger] pre[j]).id == id;
                        assert(es[j].id == id);
                    }
                }
                assert(delete_filter(pre, id).push(last) =~= es);
            }
        }
    }
}

/// A delete removes exactly the rows with the given id and succeeds whether
/// or not the id occurs: afterwards no row has the id, every other row
/// survives, an occurring id loses exactly one row under well-formedness,
/// and a missing id leaves the table unchanged.
pub proof fn lemma_delete_exact(v: StoreView, id: i64)
    requires
        v.wf(),
        v.employees is Some,
    ensures
        ({
            let (v2, r) = delete_employee_v(v, id);
            &&& r is Ok
            &&& v2.employees is Some
            &&& !has_employee_id(v2.employees->0, id)
            &&& (forall|j: int|
                0 <= j < v.employees->0.len() && (#[trigger] v.employees->0[j]).id != id
                    ==> v2.employees->0.contains(v.employees->0[j]))
            &&& (has_employee_id(v.employees->0, id) ==> v2.employees->0.len()
                == v.employees->0.len() - 1)
            &&& (!has_employee_id(v.employees->0, id) ==> v2.employees->0 == v.employees->0)
        }),
{
    broadcast use vstd::seq_lib::group_filter_ensures;

    let es = v.employees->0;
    let fs = delete_filter(es, id);
    lemma_delete_filter_exact(es, id);
    assert(!has_employee_id(fs, id)) by {
        if has_employee_id(fs, id) {
            let j = choose|j: int| 0 <= j < fs.len() && (#[trigger] fs[j]).id == id;
        }
    }
}

/// A time-range query is exact: every returned row's timestamp lies
/// lexically in the inclusive range, and every stored row whose timestamp
/// lies in the range appears in the result.
pub proof fn lemma_time_range_exact(ws: Seq<Work>, from: Seq<char>, to: Seq<char>)
    ensures
        forall|k: int|
            0 <= k < range_filter(ws, from, to).len() ==> in_range(
                (#[trigger] range_filter(ws, from, to)[k]).timestamp@,
                from,
                to,
            ),
        forall|j: int|
            0 <= j < ws.len() && in_range((#[trigger] ws[j]).timestamp@, from, to)
                ==> range_filter(ws, from, to).contains(ws[j]),
{
    broadcast use vstd::seq_lib::group_filter_ensures;

}

/// A batched membership lookup is exact: every returned join row's work id
/// is among the given ids, and every stored join row with such a work id
/// appears in the result.
pub proof fn lemma_details_exact(ds: Seq<EmployeeWork>, ids: Seq<i64>)
    ensures
        forall|k: int|
            0 <= k < details_filter(ds, ids).len() ==> ids.contains(
                (#[trigger] details_filter(ds, ids)[k]).work_id,
            ),
        forall|j: int|
            0 <= j < ds.len() && ids.contains((#[trigger] ds[j]).work_id) ==> details_filter(
                ds,
                ids,
            ).contains(ds[j]),
{
    broadcast use vstd::seq_lib::group_filter_ensures;

}

} // verus!
