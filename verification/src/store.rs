//! The expense repository: an ordered store whose rows carry unique,
//! monotonically increasing ids that only the store assigns. `create`
//! inserts and returns the stored record with its fresh id; `list` is a
//! full scan in insertion order.
use vstd::prelude::*;
use crate::bytes::copy_bytes;
use crate::codec::expenses_v;
use crate::types::{ApiError, Expense, ExpenseV, NewExpense, NewExpenseV};

verus! {

/// The relational store for the expense table, reachable through a
/// per-request connection. Its contract is all that the rest of the
/// system relies on: insertion order is kept and ids grow by one.
pub struct Store {
    pub rows: Vec<Expense>,
}

impl View for Store {
    type V = Seq<ExpenseV>;

    open spec fn view(&self) -> Seq<ExpenseV> {
        expenses_v(self.rows@)
    }
}

/// The store's invariant: ids start at 1, stay within the id type, and
/// strictly increase in insertion order (so they are unique and the last
/// row carries the maximum).
pub open spec fn store_wf(rows: Seq<ExpenseV>) -> bool {
    &&& forall|i: int, j: int|
        0 <= i < j < rows.len() ==> #[trigger] rows[i].id < #[trigger] rows[j].id
    &&& forall|i: int| 0 <= i < rows.len() ==> 1 <= (#[trigger] rows[i].id) <= i32::MAX
}

/// The id the store will assign to the next inserted row.
pub open spec fn next_id(rows: Seq<ExpenseV>) -> int {
    if rows.len() == 0 {
        1
    } else {
        rows.last().id + 1
    }
}

/// What `create` does: on success the new row, made of the input fields
/// and the store-assigned id, is appended; when the id space is exhausted
/// the store is unchanged and the insert fails.
pub open spec fn create_model(rows: Seq<ExpenseV>, n: NewExpenseV) -> (Seq<ExpenseV>, Result<
    ExpenseV,
    ApiError,
>) {
    if next_id(rows) <= i32::MAX {
        let e = ExpenseV { id: next_id(rows), name: n.name, amount: n.amount };
        (rows.push(e), Ok(e))
    } else {
        (rows, Err(ApiError::StorageError))
    }
}

/// In a well-formed store the next id exceeds every stored id: it is one
/// greater than the previous maximum (or 1 if the table is empty).
pub proof fn lemma_next_id_exceeds_all(rows: Seq<ExpenseV>)
    requires
        store_wf(rows),
    ensures
        forall|i: int| 0 <= i < rows.len() ==> (#[trigger] rows[i].id) < next_id(rows),
{
    assert forall|i: int| 0 <= i < rows.len() implies (#[trigger] rows[i].id) < next_id(
        rows,
    ) by {
        if i < rows.len() - 1 {
            assert(rows[i].id < rows[rows.len() - 1].id);
        }
    }
}

impl Store {
    /// An empty store.
    pub fn new() -> (r: Store)
        ensures
            r@ == Seq::<ExpenseV>::empty(),
            store_wf(r@),
    {
        let s = Store { rows: Vec::new() };
        proof {
            assert(s@ =~= Seq::<ExpenseV>::empty());
        }
        s
    }

    /// Inserts a new expense and returns the stored record, whose id the
    /// store assigned; the invariant is preserved.
    pub fn create(&mut self, n: &NewExpense) -> (r: Result<Expense, ApiError>)
        ensures
            final(self)@ == create_model(old(self)@, n@).0,
            (match (r, create_model(old(self)@, n@).1) {
                (Ok(e), Ok(ev)) => e@ == ev,
                (Err(a), Err(b)) => a == b,
                _ => false,
            }),
            store_wf(old(self)@) ==> store_wf(final(self)@),
    {
        let len = self.rows.len();
        let id: i32 = if len == 0 {
            1
        } else {
            let last_id = self.rows[len - 1].id;
            if last_id == i32::MAX {
                return Err(ApiError::StorageError);
            }
            last_id + 1
        };
        let stored = Expense { id, name: copy_bytes(&n.name), amount: copy_bytes(&n.amount) };
        let returned = Expense { id, name: copy_bytes(&n.name), amount: copy_bytes(&n.amount) };
        self.rows.push(stored);
        proof {
            assert(self@ =~= create_model(old(self)@, n@).0);
            if store_wf(old(self)@) {
                lemma_next_id_exceeds_all(old(self)@);
                assert(store_wf(self@));
            }
        }
        Ok(returned)
    }

    /// A full scan in insertion order; never partial.
    pub fn list(&self) -> (r: Result<Vec<Expense>, ApiError>)
        ensures
            match r {
                Ok(v) => expenses_v(v@) == self@,
                Err(_) => false,
            },
    {
        let mut out: Vec<Expense> = Vec::new();
        let mut i: usize = 0;
        while i < self.rows.len()
            invariant
                i <= self.rows.len(),
                out.len() == i,
                forall|j: int| 0 <= j < i ==> (#[trigger] out@[j])@ == self.rows@[j]@,
            decreases self.rows.len() - i,
        {
            let e = &self.rows[i];
            let c = Expense { id: e.id, name: copy_bytes(&e.name), amount: copy_bytes(&e.amount) };
            proof {
                assert(c@ =~= self.rows@[i as int]@);
            }
            out.push(c);
            i += 1;
        }
        proof {
            assert(expenses_v(out@) =~= self@);
        }
        Ok(out)
    }
}

/// The per-process server state the dispatcher works over: the injected
/// configuration value and the store, absent when the underlying engine
/// cannot be reached.
pub struct ServerState {
    pub config_foo: Vec<u8>,
    pub db: Option<Store>,
}

/// Spec-level image of a [`ServerState`].
#[verifier::ext_equal]
pub struct StateV {
    pub config_foo: Seq<u8>,
    pub db: Option<Seq<ExpenseV>>,
}

impl View for ServerState {
    type V = StateV;

    open spec fn view(&self) -> StateV {
        StateV {
            config_foo: self.config_foo@,
            db: match self.db {
                Some(ref s) => Some(s@),
                None => None,
            },
        }
    }
}

/// A reachable store is well-formed.
pub open spec fn state_wf(s: StateV) -> bool {
    match s.db {
        Some(rows) => store_wf(rows),
        None => true,
    }
}

} // verus!
