use vstd::prelude::*;

use crate::errors::DatabaseError;
use crate::models::{
    opt_str_chars, owned_opt, Category, CategoryView, NewCategory, Timestamp, UpdateCategory,
};

verus! {

/// The views of a sequence of categories.
pub open spec fn category_views(v: Seq<Category>) -> Seq<CategoryView> {
    v.map_values(|c: Category| c@)
}

/// Position of the row with identifier `id`, searching from the newest row.
pub open spec fn category_index(rows: Seq<CategoryView>, id: i32) -> Option<int>
    decreases rows.len(),
{
    if rows.len() == 0 {
        None
    } else if rows.last().category_id == id {
        Some(rows.len() - 1)
    } else {
        category_index(rows.drop_last(), id)
    }
}

/// Position of the row named `name`, searching from the newest row.
pub open spec fn category_name_index(rows: Seq<CategoryView>, name: Seq<char>) -> Option<int>
    decreases rows.len(),
{
    if rows.len() == 0 {
        None
    } else if rows.last().name == name {
        Some(rows.len() - 1)
    } else {
        category_name_index(rows.drop_last(), name)
    }
}

/// The stored row with identifier `id`, if any.
pub open spec fn category_with_id(rows: Seq<CategoryView>, id: i32) -> Option<CategoryView> {
    match category_index(rows, id) {
        Some(i) => Some(rows[i]),
        None => None,
    }
}

/// The stored row named `name`, if any.
pub open spec fn category_named(rows: Seq<CategoryView>, name: Seq<char>) -> Option<CategoryView> {
    match category_name_index(rows, name) {
        Some(i) => Some(rows[i]),
        None => None,
    }
}

/// Identifiers are positive, below `next` and increase with the position;
/// names are unique.
pub open spec fn category_rows_wf(rows: Seq<CategoryView>, next: int) -> bool {
    &&& 1 <= next <= i32::MAX + 1
    &&& forall|i: int| 0 <= i < rows.len() ==> 0 < #[trigger] rows[i].category_id < next
    &&& forall|i: int, j: int|
        0 <= i < j < rows.len() ==> #[trigger] rows[i].category_id < #[trigger] rows[j].category_id
    &&& forall|i: int, j: int|
        0 <= i < j < rows.len() ==> #[trigger] rows[i].name != #[trigger] rows[j].name
}

/// The row that a successful insertion stores.
pub open spec fn new_category_row(
    id: i32,
    name: Seq<char>,
    description: Option<Seq<char>>,
    now: Timestamp,
) -> CategoryView {
    CategoryView {
        category_id: id,
        name,
        description,
        created_at: Some(now),
        updated_at: Some(now),
    }
}

/// An insertion succeeds when the name is free and an identifier is left.
pub open spec fn category_insert_allowed(rows: Seq<CategoryView>, next: int, name: Seq<char>) -> bool {
    category_name_index(rows, name) is None && next <= i32::MAX
}

/// A row after a partial update: present fields replace stored ones and the
/// update time is set; an update with no field present changes nothing.
pub open spec fn apply_category_update(
    c: CategoryView,
    name: Option<Seq<char>>,
    description: Option<Seq<char>>,
    now: Timestamp,
) -> CategoryView {
    if name is None && description is None {
        c
    } else {
        CategoryView {
            name: match name {
                Some(n) => n,
                None => c.name,
            },
            description: match description {
                Some(d) => Some(d),
                None => c.description,
            },
            updated_at: Some(now),
            ..c
        }
    }
}

/// An update of row `id` that would give it the name of another row.
pub open spec fn category_update_conflicts(
    rows: Seq<CategoryView>,
    id: i32,
    name: Option<Seq<char>>,
) -> bool {
    match (category_index(rows, id), name) {
        (Some(i), Some(n)) => exists|j: int| 0 <= j < rows.len() && j != i && #[trigger] rows[j].name == n,
        _ => false,
    }
}

/// The rows after an update of row `id` that broke no constraint.
pub open spec fn category_rows_updated(
    rows: Seq<CategoryView>,
    id: i32,
    name: Option<Seq<char>>,
    description: Option<Seq<char>>,
    now: Timestamp,
) -> Seq<CategoryView> {
    match category_index(rows, id) {
        Some(i) => rows.update(i, apply_category_update(rows[i], name, description, now)),
        None => rows,
    }
}

/// The rows after deleting row `id`.
pub open spec fn category_rows_deleted(rows: Seq<CategoryView>, id: i32) -> Seq<CategoryView> {
    match category_index(rows, id) {
        Some(i) => rows.remove(i),
        None => rows,
    }
}

pub proof fn lemma_category_index(rows: Seq<CategoryView>, id: i32)
    ensures
        match category_index(rows, id) {
            Some(i) => 0 <= i < rows.len() && rows[i].category_id == id,
            None => forall|k: int| 0 <= k < rows.len() ==> #[trigger] rows[k].category_id != id,
        },
    decreases rows.len(),
{
    if rows.len() > 0 && rows.last().category_id != id {
        let rest = rows.drop_last();
        lemma_category_index(rest, id);
        assert(category_index(rows, id) == category_index(rest, id));
        if category_index(rows, id) is None {
            assert forall|k: int| 0 <= k < rows.len() implies #[trigger] rows[k].category_id != id by {
                if k < rows.len() - 1 {
                    assert(rows[k] == rest[k]);
                    if category_index(rest, id) is None {
                        assert(rest[k].category_id != id);
                    }
                }
            }
        }
    }
}

pub proof fn lemma_category_name_index(rows: Seq<CategoryView>, name: Seq<char>)
    ensures
        match category_name_index(rows, name) {
            Some(i) => 0 <= i < rows.len() && rows[i].name == name,
            None => forall|k: int| 0 <= k < rows.len() ==> #[trigger] rows[k].name != name,
        },
    decreases rows.len(),
{
    if rows.len() > 0 && rows.last().name != name {
        let rest = rows.drop_last();
        lemma_category_name_index(rest, name);
        assert(category_name_index(rows, name) == category_name_index(rest, name));
        if category_name_index(rows, name) is None {
            assert forall|k: int| 0 <= k < rows.len() implies #[trigger] rows[k].name != name by {
                if k < rows.len() - 1 {
                    assert(rows[k] == rest[k]);
                    if category_name_index(rest, name) is None {
                        assert(rest[k].name != name);
                    }
                }
            }
        }
    }
}

/// A category just stored is found again by its identifier and by its name,
/// with the fields it was given, its new identifier and both timestamps.
pub proof fn lemma_insert_then_lookup(
    rows: Seq<CategoryView>,
    next: int,
    name: Seq<char>,
    description: Option<Seq<char>>,
    now: Timestamp,
)
    requires
        category_rows_wf(rows, next),
        category_insert_allowed(rows, next, name),
    ensures
        category_with_id(rows.push(new_category_row(next as i32, name, description, now)), next as i32)
            == Some(new_category_row(next as i32, name, description, now)),
        category_named(rows.push(new_category_row(next as i32, name, description, now)), name)
            == Some(new_category_row(next as i32, name, description, now)),
{
    let row = new_category_row(next as i32, name, description, now);
    assert(rows.push(row).drop_last() =~= rows);
}

/// Deleting a category a second time changes nothing more.
pub proof fn lemma_delete_idempotent(rows: Seq<CategoryView>, next: int, id: i32)
    requires
        category_rows_wf(rows, next),
    ensures
        category_rows_deleted(category_rows_deleted(rows, id), id) == category_rows_deleted(rows, id),
{
    lemma_category_index(rows, id);
    let once = category_rows_deleted(rows, id);
    if let Some(i) = category_index(rows, id) {
        assert forall|k: int| 0 <= k < once.len() implies #[trigger] once[k].category_id != id by {
            if k < i {
                assert(rows[k].category_id < rows[i].category_id);
            } else {
                assert(once[k] == rows[k + 1]);
                assert(rows[i].category_id < rows[k + 1].category_id);
            }
        }
    }
    lemma_category_index(once, id);
}

/// An update with no field present breaks no constraint and leaves every
/// category as it was.
pub proof fn lemma_empty_update_no_op(rows: Seq<CategoryView>, id: i32, now: Timestamp)
    ensures
        !category_update_conflicts(rows, id, None),
        category_rows_updated(rows, id, None, None, now) == rows,
{
    if let Some(i) = category_index(rows, id) {
        lemma_category_index(rows, id);
        assert(rows.update(i, rows[i]) =~= rows);
    }
}

/// An update that gives only a name replaces the name, keeps the description
/// and the creation time, and sets the update time.
pub proof fn lemma_partial_update(c: CategoryView, name: Seq<char>, now: Timestamp)
    ensures
        apply_category_update(c, Some(name), None, now) == (CategoryView {
            name,
            updated_at: Some(now),
            ..c
        }),
{
}

/// The store of categories.
pub struct CategoryRepo {
    rows: Vec<Category>,
    next_id: i64,
}

impl View for CategoryRepo {
    type V = Seq<CategoryView>;

    closed spec fn view(&self) -> Seq<CategoryView> {
        category_views(self.rows@)
    }
}

impl CategoryRepo {
    /// The identifier that the next insertion receives.
    pub closed spec fn next_id(&self) -> int {
        self.next_id as int
    }

    pub open spec fn wf(&self) -> bool {
        category_rows_wf(self@, self.next_id())
    }

    /// An empty store; identifiers start at 1.
    pub fn new() -> (r: CategoryRepo)
        ensures
            r.wf(),
            r@ == Seq::<CategoryView>::empty(),
            r.next_id() == 1,
    {
        let r = CategoryRepo { rows: Vec::new(), next_id: 1 };
        assert(r@ =~= Seq::<CategoryView>::empty());
        r
    }

    fn index_of_id(&self, id: i32) -> (r: Option<usize>)
        ensures
            match r {
                Some(i) => category_index(self@, id) == Some(i as int),
                None => category_index(self@, id) is None,
            },
    {
        let mut i: usize = self.rows.len();
        assert(self@.subrange(0, i as int) =~= self@);
        while i > 0
            invariant
                i <= self.rows.len(),
                self@.len() == self.rows@.len(),
                category_index(self@, id) == category_index(self@.subrange(0, i as int), id),
            decreases i,
        {
            assert(self@[i - 1] == self.rows@[i - 1]@);
            if self.rows[i - 1].category_id == id {
                return Some(i - 1);
            }
            assert(self@.subrange(0, i as int).drop_last() =~= self@.subrange(0, i - 1));
            i -= 1;
        }
        None
    }

    fn index_of_name(&self, name: &String) -> (r: Option<usize>)
        ensures
            match r {
                Some(i) => category_name_index(self@, name@) == Some(i as int),
                None => category_name_index(self@, name@) is None,
            },
    {
        let mut i: usize = self.rows.len();
        assert(self@.subrange(0, i as int) =~= self@);
        while i > 0
            invariant
                i <= self.rows.len(),
                self@.len() == self.rows@.len(),
                category_name_index(self@, name@) == category_name_index(
                    self@.subrange(0, i as int),
                    name@,
                ),
            decreases i,
        {
            assert(self@[i - 1] == self.rows@[i - 1]@);
            if self.rows[i - 1].name == *name {
                return Some(i - 1);
            }
            assert(self@.subrange(0, i as int).drop_last() =~= self@.subrange(0, i - 1));
            i -= 1;
        }
        None
    }

    /// Every stored category, oldest first; `None` when there is none.
    pub fn get_all(&self) -> (r: Result<Option<Vec<Category>>, DatabaseError>)
        ensures
            match r {
                Ok(None) => self@.len() == 0,
                Ok(Some(v)) => self@.len() > 0 && category_views(v@) == self@,
                Err(_) => false,
            },
    {
        if self.rows.len() == 0 {
            return Ok(None);
        }
        let mut out: Vec<Category> = Vec::new();
        let mut i: usize = 0;
        while i < self.rows.len()
            invariant
                i <= self.rows.len(),
                self@.len() == self.rows@.len(),
                out@.len() == i,
                forall|k: int| 0 <= k < i ==> #[trigger] out@[k]@ == self@[k],
            decreases self.rows.len() - i,
        {
            assert(self@[i as int] == self.rows@[i as int]@);
            out.push(self.rows[i].duplicate());
            i += 1;
        }
        assert(category_views(out@) =~= self@);
        Ok(Some(out))
    }

    /// The category with identifier `id`; absence is no error.
    pub fn get_by_id(&self, id: i32) -> (r: Result<Option<Category>, DatabaseError>)
        ensures
            match r {
                Ok(Some(c)) => category_with_id(self@, id) == Some(c@),
                Ok(None) => category_with_id(self@, id) is None,
                Err(_) => false,
            },
    {
        match self.index_of_id(id) {
            Some(i) => {
                proof { lemma_category_index(self@, id); }
                assert(self@[i as int] == self.rows@[i as int]@);
                Ok(Some(self.rows[i].duplicate()))
            },
            None => Ok(None),
        }
    }

    /// The category named `name_query`; absence is no error.
    pub fn get_by_name(&self, name_query: &str) -> (r: Result<Option<Category>, DatabaseError>)
        ensures
            match r {
                Ok(Some(c)) => category_named(self@, name_query@) == Some(c@),
                Ok(None) => category_named(self@, name_query@) is None,
                Err(_) => false,
            },
    {
        let name = name_query.to_owned();
        match self.index_of_name(&name) {
            Some(i) => {
                proof { lemma_category_name_index(self@, name@); }
                assert(self@[i as int] == self.rows@[i as int]@);
                Ok(Some(self.rows[i].duplicate()))
            },
            None => Ok(None),
        }
    }
    /// Stores a new category with a fresh identifier, both timestamps set to
    /// `now`, and returns the identifier. Fails, changing nothing, when the
    /// name is taken or no identifier is left.
    pub fn insert(&mut self, item: NewCategory, now: Timestamp) -> (r: Result<i32, DatabaseError>)
        requires
            old(self).wf(),
        ensures
            final(self).wf(),
            match r {
                Ok(id) => {
                    &&& category_insert_allowed(old(self)@, old(self).next_id(), item.name@)
                    &&& id == old(self).next_id()
                    &&& final(self)@ == old(self)@.push(
                        new_category_row(id, item.name@, opt_str_chars(item.description), now),
                    )
                    &&& final(self).next_id() == old(self).next_id() + 1
                },
                Err(_) => {
                    &&& !category_insert_allowed(old(self)@, old(self).next_id(), item.name@)
                    &&& final(self)@ == old(self)@
                    &&& final(self).next_id() == old(self).next_id()
                },
            },
    {
        let name = item.name.to_owned();
        if self.index_of_name(&name).is_some() || self.next_id > i32::MAX as i64 {
            return Err(DatabaseError);
        }
        proof { lemma_category_name_index(self@, name@); }
        let id = self.next_id as i32;
        let row = Category {
            category_id: id,
            name,
            description: owned_opt(item.description),
            created_at: Some(now),
            updated_at: Some(now),
        };
        let ghost before = self@;
        self.rows.push(row);
        self.next_id = self.next_id + 1;
        assert(self@ =~= before.push(row@));
        Ok(id)
    }

    /// Stores a new category; see [`CategoryRepo::insert`].
    pub fn add(&mut self, item: NewCategory, now: Timestamp) -> (r: Result<(), DatabaseError>)
        requires
            old(self).wf(),
        ensures
            final(self).wf(),
            match r {
                Ok(()) => {
                    &&& category_insert_allowed(old(self)@, old(self).next_id(), item.name@)
                    &&& final(self)@ == old(self)@.push(
                        new_category_row(
                            old(self).next_id() as i32,
                            item.name@,
                            opt_str_chars(item.description),
                            now,
                        ),
                    )
                    &&& final(self).next_id() == old(self).next_id() + 1
                },
                Err(_) => {
                    &&& !category_insert_allowed(old(self)@, old(self).next_id(), item.name@)
                    &&& final(self)@ == old(self)@
                    &&& final(self).next_id() == old(self).next_id()
                },
            },
    {
        match self.insert(item, now) {
            Ok(_) => Ok(()),
            Err(e) => Err(e),
        }
    }

    /// Applies the present fields of `item` to the category `id`, setting its
    /// update time to `now`. A missing `id`, or a form with no field present,
    /// changes nothing and is no error. Fails, changing nothing, when the new
    /// name belongs to another category.
    pub fn update(&mut self, id: i32, item: UpdateCategory, now: Timestamp) -> (r: Result<
        (),
        DatabaseError,
    >)
        requires
            old(self).wf(),
        ensures
            final(self).wf(),
            final(self).next_id() == old(self).next_id(),
            r is Err <==> category_update_conflicts(old(self)@, id, opt_str_chars(item.name)),
            r is Ok ==> final(self)@ == category_rows_updated(
                old(self)@,
                id,
                opt_str_chars(item.name),
                opt_str_chars(item.description),
                now,
            ),
            r is Err ==> final(self)@ == old(self)@,
    {
        let i = match self.index_of_id(id) {
            Some(i) => i,
            None => return Ok(()),
        };
        proof { lemma_category_index(self@, id); }
        assert(self@[i as int] == self.rows@[i as int]@);
        if item.name.is_none() && item.description.is_none() {
            assert(self@.update(i as int, self@[i as int]) =~= self@);
            return Ok(());
        }
        let new_name = match item.name {
            Some(n) => {
                let n = n.to_owned();
                proof { lemma_category_name_index(self@, n@); }
                match self.index_of_name(&n) {
                    Some(j) => {
                        if j != i {
                            assert(self@[j as int].name == n@);
                            return Err(DatabaseError);
                        }
                    },
                    None => {},
                }
                n
            },
            None => self.rows[i].name.clone(),
        };
        let description = match item.description {
            Some(d) => Some(d.to_owned()),
            None => crate::models::copy_opt(&self.rows[i].description),
        };
        let row = Category {
            category_id: self.rows[i].category_id,
            name: new_name,
            description,
            created_at: self.rows[i].created_at,
            updated_at: Some(now),
        };
        let ghost before = self@;
        assert(row@ == apply_category_update(
            before[i as int],
            opt_str_chars(item.name),
            opt_str_chars(item.description),
            now,
        ));
        self.rows.remove(i);
        self.rows.insert(i, row);
        assert(self@ =~= before.update(i as int, row@));
        assert forall|a: int, b: int| 0 <= a < b < self@.len() implies #[trigger] self@[a].name
            != #[trigger] self@[b].name by {
            if a != i && b != i {
                assert(self@[a] == before[a] && self@[b] == before[b]);
            }
        }
        Ok(())
    }

    /// Removes the category `id`; a missing `id` is no error.
    pub fn delete(&mut self, id: i32) -> (r: Result<(), DatabaseError>)
        requires
            old(self).wf(),
        ensures
            final(self).wf(),
            final(self).next_id() == old(self).next_id(),
            r is Ok,
            final(self)@ == category_rows_deleted(old(self)@, id),
    {
        match self.index_of_id(id) {
            Some(i) => {
                proof { lemma_category_index(self@, id); }
                let ghost before = self@;
                self.rows.remove(i);
                assert(self@ =~= before.remove(i as int));
                Ok(())
            },
            None => Ok(()),
        }
    }
}

impl Default for CategoryRepo {
    fn default() -> (r: CategoryRepo)
        ensures
            r.wf(),
            r@ == Seq::<CategoryView>::empty(),
            r.next_id() == 1,
    {
        CategoryRepo::new()
    }
}

} // verus!
