use vstd::prelude::*;

use crate::errors::DatabaseError;
use crate::models::{NewOrder, Order, OrderView, Timestamp, UpdateOrder, UserRoleView};
use crate::user_role_repo::UserRoleRepo;

verus! {

/// The views of a sequence of orders.
pub open spec fn order_views(v: Seq<Order>) -> Seq<OrderView> {
    v.map_values(|o: Order| o@)
}

/// Position of the order with identifier `id`, searching from the newest row.
pub open spec fn order_index(rows: Seq<OrderView>, id: i32) -> Option<int>
    decreases rows.len(),
{
    if rows.len() == 0 {
        None
    } else if rows.last().order_id == id {
        Some(rows.len() - 1)
    } else {
        order_index(rows.drop_last(), id)
    }
}

/// The stored order with identifier `id`, if any.
pub open spec fn order_with_id(rows: Seq<OrderView>, id: i32) -> Option<OrderView> {
    match order_index(rows, id) {
        Some(i) => Some(rows[i]),
        None => None,
    }
}

/// Identifiers are positive, below `next` and increase with the position.
pub open spec fn order_rows_wf(rows: Seq<OrderView>, next: int) -> bool {
    &&& 1 <= next <= i32::MAX + 1
    &&& forall|i: int| 0 <= i < rows.len() ==> 0 < #[trigger] rows[i].order_id < next
    &&& forall|i: int, j: int|
        0 <= i < j < rows.len() ==> #[trigger] rows[i].order_id < #[trigger] rows[j].order_id
}

/// The order that a successful insertion stores.
pub open spec fn new_order_row(id: i32, item: NewOrder, now: Timestamp) -> OrderView {
    OrderView {
        order_id: id,
        user_id: item.user_id,
        status: item.status@,
        created_at: Some(now),
        updated_at: Some(now),
    }
}

/// An order after a partial update; an update with no field present changes
/// nothing.
pub open spec fn apply_order_update(o: OrderView, form: UpdateOrder, now: Timestamp) -> OrderView {
    if form.user_id is None && form.status is None {
        o
    } else {
        OrderView {
            user_id: match form.user_id {
                Some(u) => u,
                None => o.user_id,
            },
            status: match form.status {
                Some(s) => s@,
                None => o.status,
            },
            updated_at: Some(now),
            ..o
        }
    }
}

/// The orders after updating order `id`.
pub open spec fn order_rows_updated(
    rows: Seq<OrderView>,
    id: i32,
    form: UpdateOrder,
    now: Timestamp,
) -> Seq<OrderView> {
    match order_index(rows, id) {
        Some(i) => rows.update(i, apply_order_update(rows[i], form, now)),
        None => rows,
    }
}

/// The orders after deleting order `id`.
pub open spec fn order_rows_deleted(rows: Seq<OrderView>, id: i32) -> Seq<OrderView> {
    match order_index(rows, id) {
        Some(i) => rows.remove(i),
        None => rows,
    }
}

/// The orders that satisfy `keep`, in stored order.
pub open spec fn orders_where(rows: Seq<OrderView>, keep: spec_fn(OrderView) -> bool) -> Seq<
    OrderView,
>
    decreases rows.len(),
{
    if rows.len() == 0 {
        Seq::empty()
    } else if keep(rows.last()) {
        orders_where(rows.drop_last(), keep).push(rows.last())
    } else {
        orders_where(rows.drop_last(), keep)
    }
}

/// The users that hold a role named `name`, in stored order.
pub open spec fn users_with_role(roles: Seq<UserRoleView>, name: Seq<char>) -> Seq<i32>
    decreases roles.len(),
{
    if roles.len() == 0 {
        Seq::empty()
    } else if roles.last().name == name {
        users_with_role(roles.drop_last(), name).push(roles.last().user_id)
    } else {
        users_with_role(roles.drop_last(), name)
    }
}

/// `None` for an empty sequence, else the sequence.
pub open spec fn nonempty(s: Seq<OrderView>) -> Option<Seq<OrderView>> {
    if s.len() == 0 {
        None
    } else {
        Some(s)
    }
}

/// The views of an optional sequence of orders.
pub open spec fn opt_order_views(o: Option<Vec<Order>>) -> Option<Seq<OrderView>> {
    match o {
        Some(v) => Some(order_views(v@)),
        None => None,
    }
}

pub proof fn lemma_order_index(rows: Seq<OrderView>, id: i32)
    ensures
        match order_index(rows, id) {
            Some(i) => 0 <= i < rows.len() && rows[i].order_id == id,
            None => forall|k: int| 0 <= k < rows.len() ==> #[trigger] rows[k].order_id != id,
        },
    decreases rows.len(),
{
    if rows.len() > 0 && rows.last().order_id != id {
        let rest = rows.drop_last();
        lemma_order_index(rest, id);
        assert(order_index(rows, id) == order_index(rest, id));
        if order_index(rows, id) is None {
            assert forall|k: int| 0 <= k < rows.len() implies #[trigger] rows[k].order_id != id by {
                if k < rows.len() - 1 {
                    assert(rows[k] == rest[k]);
                    assert(rest[k].order_id != id);
                }
            }
        }
    }
}

/// The store of orders.
pub struct OrderRepo {
    rows: Vec<Order>,
    next_id: i64,
}

impl View for OrderRepo {
    type V = Seq<OrderView>;

    closed spec fn view(&self) -> Seq<OrderView> {
        order_views(self.rows@)
    }
}

impl OrderRepo {
    /// The identifier that the next insertion receives.
    pub closed spec fn next_id(&self) -> int {
        self.next_id as int
    }

    pub open spec fn wf(&self) -> bool {
        order_rows_wf(self@, self.next_id())
    }

    /// An empty store; identifiers start at 1.
    pub fn new() -> (r: OrderRepo)
        ensures
            r.wf(),
            r@ == Seq::<OrderView>::empty(),
            r.next_id() == 1,
    {
        let r = OrderRepo { rows: Vec::new(), next_id: 1 };
        assert(r@ =~= Seq::<OrderView>::empty());
        r
    }

    fn index_of_id(&self, id: i32) -> (r: Option<usize>)
        ensures
            match r {
                Some(i) => order_index(self@, id) == Some(i as int),
                None => order_index(self@, id) is None,
            },
    {
        let mut i: usize = self.rows.len();
        assert(self@.subrange(0, i as int) =~= self@);
        while i > 0
            invariant
                i <= self.rows.len(),
                self@.len() == self.rows@.len(),
                order_index(self@, id) == order_index(self@.subrange(0, i as int), id),
            decreases i,
        {
            assert(self@[i - 1] == self.rows@[i - 1]@);
            if self.rows[i - 1].order_id == id {
                return Some(i - 1);
            }
            assert(self@.subrange(0, i as int).drop_last() =~= self@.subrange(0, i - 1));
            i -= 1;
        }
        None
    }

    /// Every stored order, oldest first; `None` when there is none.
    pub fn get_all(&self) -> (r: Result<Option<Vec<Order>>, DatabaseError>)
        ensures
            match r {
                Ok(None) => self@.len() == 0,
                Ok(Some(v)) => self@.len() > 0 && order_views(v@) == self@,
                Err(_) => false,
            },
    {
        if self.rows.len() == 0 {
            return Ok(None);
        }
        let mut out: Vec<Order> = Vec::new();
        let mut i: usize = 0;
        while i < self.rows.len()
            invariant
                i <= self.rows.len(),
                self@.len() == self.rows@.len(),
                out@.len() == i,
                forall|k: int| 0 <= k < i ==> #[trigger] out@[k]@ == self@[k],
            decreases self.rows.len() - i,
        {
            assert(self@[i as int] == self.rows@[i as int]@);
            out.push(self.rows[i].duplicate());
            i += 1;
        }
        assert(order_views(out@) =~= self@);
        Ok(Some(out))
    }

    /// The order with identifier `id`; absence is no error.
    pub fn get_by_id(&self, id: i32) -> (r: Result<Option<Order>, DatabaseError>)
        ensures
            match r {
                Ok(Some(c)) => order_with_id(self@, id) == Some(c@),
                Ok(None) => order_with_id(self@, id) is None,
                Err(_) => false,
            },
    {
        match self.index_of_id(id) {
            Some(i) => {
                proof { lemma_order_index(self@, id); }
                assert(self@[i as int] == self.rows@[i as int]@);
                Ok(Some(self.rows[i].duplicate()))
            },
            None => Ok(None),
        }
    }

    /// Stores a new order with a fresh identifier and both timestamps set to
    /// `now`, and returns the identifier. Fails, changing nothing, when no
    /// identifier is left.
    pub fn insert(&mut self, item: NewOrder, now: Timestamp) -> (r: Result<i32, DatabaseError>)
        requires
            old(self).wf(),
        ensures
            final(self).wf(),
            match r {
                Ok(id) => {
                    &&& old(self).next_id() <= i32::MAX
                    &&& id == old(self).next_id()
                    &&& final(self)@ == old(self)@.push(new_order_row(id, item, now))
                    &&& final(self).next_id() == old(self).next_id() + 1
                },
                Err(_) => {
                    &&& old(self).next_id() > i32::MAX
                    &&& final(self)@ == old(self)@
                    &&& final(self).next_id() == old(self).next_id()
                },
            },
    {
        if self.next_id > i32::MAX as i64 {
            return Err(DatabaseError);
        }
        let id = self.next_id as i32;
        let ghost item_view = new_order_row(id, item, now);
        let row = Order {
            order_id: id,
            user_id: item.user_id,
            status: item.status,
            created_at: Some(now),
            updated_at: Some(now),
        };
        assert(row@ == item_view);
        let ghost before = self@;
        self.rows.push(row);
        self.next_id = self.next_id + 1;
        assert(self@ =~= before.push(item_view));
        Ok(id)
    }

    /// Stores a new order; see [`OrderRepo::insert`].
    pub fn add(&mut self, item: NewOrder, now: Timestamp) -> (r: Result<(), DatabaseError>)
        requires
            old(self).wf(),
        ensures
            final(self).wf(),
            match r {
                Ok(()) => {
                    &&& old(self).next_id() <= i32::MAX
                    &&& final(self)@ == old(self)@.push(
                        new_order_row(old(self).next_id() as i32, item, now),
                    )
                    &&& final(self).next_id() == old(self).next_id() + 1
                },
                Err(_) => {
                    &&& old(self).next_id() > i32::MAX
                    &&& final(self)@ == old(self)@
                    &&& final(self).next_id() == old(self).next_id()
                },
            },
    {
        match self.insert(item, now) {
            Ok(_) => Ok(()),
            Err(e) => Err(e),
        }
    }

    /// Applies the present fields of `item` to order `id`, setting its update
    /// time to `now`. A missing `id`, or a form with no field present, changes
    /// nothing.
    pub fn update(&mut self, id: i32, item: UpdateOrder, now: Timestamp) -> (r: Result<
        (),
        DatabaseError,
    >)
        requires
            old(self).wf(),
        ensures
            final(self).wf(),
            final(self).next_id() == old(self).next_id(),
            r is Ok,
            final(self)@ == order_rows_updated(old(self)@, id, item, now),
    {
        let i = match self.index_of_id(id) {
            Some(i) => i,
            None => return Ok(()),
        };
        proof { lemma_order_index(self@, id); }
        assert(self@[i as int] == self.rows@[i as int]@);
        if item.user_id.is_none() && item.status.is_none() {
            assert(self@.update(i as int, self@[i as int]) =~= self@);
            return Ok(());
        }
        let row = Order {
            order_id: self.rows[i].order_id,
            user_id: match item.user_id {
                Some(u) => u,
                None => self.rows[i].user_id,
            },
            status: match item.status {
                Some(s) => s.to_owned(),
                None => self.rows[i].status.clone(),
            },
            created_at: self.rows[i].created_at,
            updated_at: Some(now),
        };
        let ghost before = self@;
        assert(row@ == apply_order_update(before[i as int], item, now));
        self.rows.set(i, row);
        assert(self@ =~= before.update(i as int, row@));
        Ok(())
    }

    /// Removes the order `id`; a missing `id` is no error.
    pub fn delete(&mut self, id: i32) -> (r: Result<(), DatabaseError>)
        requires
            old(self).wf(),
        ensures
            final(self).wf(),
            final(self).next_id() == old(self).next_id(),
            r is Ok,
            final(self)@ == order_rows_deleted(old(self)@, id),
    {
        match self.index_of_id(id) {
            Some(i) => {
                proof { lemma_order_index(self@, id); }
                let ghost before = self@;
                self.rows.remove(i);
                assert(self@ =~= before.remove(i as int));
                Ok(())
            },
            None => Ok(()),
        }
    }
    /// The orders of user `user_id_query`; `None` when there is none.
    pub fn get_by_user_id(&self, user_id_query: i32) -> (r: Result<
        Option<Vec<Order>>,
        DatabaseError,
    >)
        ensures
            match r {
                Ok(o) => opt_order_views(o) == nonempty(
                    orders_where(self@, |o: OrderView| o.user_id == user_id_query),
                ),
                Err(_) => false,
            },
    {
        let ghost keep = |o: OrderView| o.user_id == user_id_query;
        let mut out: Vec<Order> = Vec::new();
        let mut i: usize = 0;
        while i < self.rows.len()
            invariant
                i <= self.rows.len(),
                keep == (|o: OrderView| o.user_id == user_id_query),
                order_views(out@) == orders_where(self@.subrange(0, i as int), keep),
            decreases self.rows.len() - i,
        {
            assert(self@.subrange(0, i + 1).drop_last() =~= self@.subrange(0, i as int));
            assert(self@.subrange(0, i + 1).last() == self.rows@[i as int]@);
            if self.rows[i].user_id == user_id_query {
                let ghost before = out@;
                out.push(self.rows[i].duplicate());
                assert(order_views(out@) =~= order_views(before).push(self.rows@[i as int]@));
            }
            i += 1;
        }
        assert(self@.subrange(0, i as int) =~= self@);
        if out.len() == 0 {
            Ok(None)
        } else {
            Ok(Some(out))
        }
    }

    /// The orders whose status is `status_query`; `None` when there is none.
    pub fn get_by_status(&self, status_query: &str) -> (r: Result<
        Option<Vec<Order>>,
        DatabaseError,
    >)
        ensures
            match r {
                Ok(o) => opt_order_views(o) == nonempty(
                    orders_where(self@, |o: OrderView| o.status == status_query@),
                ),
                Err(_) => false,
            },
    {
        let status = status_query.to_owned();
        let ghost keep = |o: OrderView| o.status == status_query@;
        let mut out: Vec<Order> = Vec::new();
        let mut i: usize = 0;
        while i < self.rows.len()
            invariant
                i <= self.rows.len(),
                status@ == status_query@,
                keep == (|o: OrderView| o.status == status_query@),
                order_views(out@) == orders_where(self@.subrange(0, i as int), keep),
            decreases self.rows.len() - i,
        {
            assert(self@.subrange(0, i + 1).drop_last() =~= self@.subrange(0, i as int));
            assert(self@.subrange(0, i + 1).last() == self.rows@[i as int]@);
            if self.rows[i].status == status {
                let ghost before = out@;
                out.push(self.rows[i].duplicate());
                assert(order_views(out@) =~= order_views(before).push(self.rows@[i as int]@));
            }
            i += 1;
        }
        assert(self@.subrange(0, i as int) =~= self@);
        if out.len() == 0 {
            Ok(None)
        } else {
            Ok(Some(out))
        }
    }

    /// The orders of every user holding a role named `role`; `None` when no
    /// user holds such a role or those users have no order.
    pub fn get_orders_by_role_name(&self, roles: &UserRoleRepo, role: &str) -> (r: Result<
        Option<Vec<Order>>,
        DatabaseError,
    >)
        ensures
            match r {
                Ok(o) => opt_order_views(o) == nonempty(
                    orders_where(
                        self@,
                        |o: OrderView| users_with_role(roles@, role@).contains(o.user_id),
                    ),
                ),
                Err(_) => false,
            },
    {
        let user_ids = roles.user_ids_with_name(role);
        let ghost keep = |o: OrderView| users_with_role(roles@, role@).contains(o.user_id);
        if user_ids.len() == 0 {
            proof { lemma_orders_where_none(self@, keep); }
            return Ok(None);
        }
        let mut out: Vec<Order> = Vec::new();
        let mut i: usize = 0;
        while i < self.rows.len()
            invariant
                i <= self.rows.len(),
                user_ids@ == users_with_role(roles@, role@),
                keep == (|o: OrderView| users_with_role(roles@, role@).contains(o.user_id)),
                order_views(out@) == orders_where(self@.subrange(0, i as int), keep),
            decreases self.rows.len() - i,
        {
            assert(self@.subrange(0, i + 1).drop_last() =~= self@.subrange(0, i as int));
            assert(self@.subrange(0, i + 1).last() == self.rows@[i as int]@);
            if contains_id(&user_ids, self.rows[i].user_id) {
                let ghost before = out@;
                out.push(self.rows[i].duplicate());
                assert(order_views(out@) =~= order_views(before).push(self.rows@[i as int]@));
            }
            i += 1;
        }
        assert(self@.subrange(0, i as int) =~= self@);
        if out.len() == 0 {
            Ok(None)
        } else {
            Ok(Some(out))
        }
    }
}

/// No order is kept by a test that holds of none.
proof fn lemma_orders_where_none(rows: Seq<OrderView>, keep: spec_fn(OrderView) -> bool)
    requires
        forall|o: OrderView| !#[trigger] keep(o),
    ensures
        orders_where(rows, keep).len() == 0,
    decreases rows.len(),
{
    if rows.len() > 0 {
        lemma_orders_where_none(rows.drop_last(), keep);
    }
}

/// Whether `id` occurs in `ids`.
fn contains_id(ids: &Vec<i32>, id: i32) -> (r: bool)
    ensures
        r == ids@.contains(id),
{
    let mut i: usize = 0;
    while i < ids.len()
        invariant
            i <= ids.len(),
            forall|k: int| 0 <= k < i ==> ids@[k] != id,
        decreases ids.len() - i,
    {
        if ids[i] == id {
            return true;
        }
        i += 1;
    }
    false
}

impl Default for OrderRepo {
    fn default() -> (r: OrderRepo)
        ensures
            r.wf(),
            r@ == Seq::<OrderView>::empty(),
            r.next_id() == 1,
    {
        OrderRepo::new()
    }
}

} // verus!
