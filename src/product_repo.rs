use vstd::prelude::*;

use crate::errors::DatabaseError;
use crate::models::{
    opt_str_chars, owned_opt, Product, ProductView, NewProduct, Timestamp, UpdateProduct,
};

verus! {

/// The views of a sequence of products.
pub open spec fn product_views(v: Seq<Product>) -> Seq<ProductView> {
    v.map_values(|c: Product| c@)
}

/// Position of the row with identifier `id`, searching from the newest row.
pub open spec fn product_index(rows: Seq<ProductView>, id: i32) -> Option<int>
    decreases rows.len(),
{
    if rows.len() == 0 {
        None
    } else if rows.last().product_id == id {
        Some(rows.len() - 1)
    } else {
        product_index(rows.drop_last(), id)
    }
}

/// Position of the row named `name`, searching from the newest row.
pub open spec fn product_name_index(rows: Seq<ProductView>, name: Seq<char>) -> Option<int>
    decreases rows.len(),
{
    if rows.len() == 0 {
        None
    } else if rows.last().name == name {
        Some(rows.len() - 1)
    } else {
        product_name_index(rows.drop_last(), name)
    }
}

/// The stored row with identifier `id`, if any.
pub open spec fn product_with_id(rows: Seq<ProductView>, id: i32) -> Option<ProductView> {
    match product_index(rows, id) {
        Some(i) => Some(rows[i]),
        None => None,
    }
}

/// The stored row named `name`, if any.
pub open spec fn product_named(rows: Seq<ProductView>, name: Seq<char>) -> Option<ProductView> {
    match product_name_index(rows, name) {
        Some(i) => Some(rows[i]),
        None => None,
    }
}

/// Identifiers are positive, below `next` and increase with the position;
/// names are unique.
pub open spec fn product_rows_wf(rows: Seq<ProductView>, next: int) -> bool {
    &&& 1 <= next <= i32::MAX + 1
    &&& forall|i: int| 0 <= i < rows.len() ==> 0 < #[trigger] rows[i].product_id < next
    &&& forall|i: int, j: int|
        0 <= i < j < rows.len() ==> #[trigger] rows[i].product_id < #[trigger] rows[j].product_id
    &&& forall|i: int, j: int|
        0 <= i < j < rows.len() ==> #[trigger] rows[i].name != #[trigger] rows[j].name
}

/// The row that a successful insertion stores.
pub open spec fn new_product_row(id: i32, item: NewProduct, now: Timestamp) -> ProductView {
    ProductView {
        product_id: id,
        name: item.name@,
        product_image_uri: opt_str_chars(item.product_image_uri),
        description: opt_str_chars(item.description),
        price_cents: item.price_cents,
        created_at: Some(now),
        updated_at: Some(now),
    }
}

/// An insertion succeeds when the name is free and an identifier is left.
pub open spec fn product_insert_allowed(rows: Seq<ProductView>, next: int, name: Seq<char>) -> bool {
    product_name_index(rows, name) is None && next <= i32::MAX
}

/// A row after a partial update: present fields replace stored ones and the
/// update time is set; an update with no field present changes nothing.
pub open spec fn apply_product_update(c: ProductView, form: UpdateProduct, now: Timestamp) -> ProductView {
    if form.name is None && form.product_image_uri is None && form.description is None
        && form.price_cents is None {
        c
    } else {
        ProductView {
            name: match form.name {
                Some(n) => n@,
                None => c.name,
            },
            product_image_uri: match form.product_image_uri {
                Some(u) => Some(u@),
                None => c.product_image_uri,
            },
            description: match form.description {
                Some(d) => Some(d@),
                None => c.description,
            },
            price_cents: match form.price_cents {
                Some(p) => p,
                None => c.price_cents,
            },
            updated_at: Some(now),
            ..c
        }
    }
}

/// An update of row `id` that would give it the name of another row.
pub open spec fn product_update_conflicts(
    rows: Seq<ProductView>,
    id: i32,
    name: Option<Seq<char>>,
) -> bool {
    match (product_index(rows, id), name) {
        (Some(i), Some(n)) => exists|j: int| 0 <= j < rows.len() && j != i && #[trigger] rows[j].name == n,
        _ => false,
    }
}

/// The rows after an update of row `id` that broke no constraint.
pub open spec fn product_rows_updated(
    rows: Seq<ProductView>,
    id: i32,
    form: UpdateProduct,
    now: Timestamp,
) -> Seq<ProductView> {
    match product_index(rows, id) {
        Some(i) => rows.update(i, apply_product_update(rows[i], form, now)),
        None => rows,
    }
}

/// The rows after deleting row `id`.
pub open spec fn product_rows_deleted(rows: Seq<ProductView>, id: i32) -> Seq<ProductView> {
    match product_index(rows, id) {
        Some(i) => rows.remove(i),
        None => rows,
    }
}

pub proof fn lemma_product_index(rows: Seq<ProductView>, id: i32)
    ensures
        match product_index(rows, id) {
            Some(i) => 0 <= i < rows.len() && rows[i].product_id == id,
            None => forall|k: int| 0 <= k < rows.len() ==> #[trigger] rows[k].product_id != id,
        },
    decreases rows.len(),
{
    if rows.len() > 0 && rows.last().product_id != id {
        let rest = rows.drop_last();
        lemma_product_index(rest, id);
        assert(product_index(rows, id) == product_index(rest, id));
        if product_index(rows, id) is None {
            assert forall|k: int| 0 <= k < rows.len() implies #[trigger] rows[k].product_id != id by {
                if k < rows.len() - 1 {
                    assert(rows[k] == rest[k]);
                    if product_index(rest, id) is None {
                        assert(rest[k].product_id != id);
                    }
                }
            }
        }
    }
}

pub proof fn lemma_product_name_index(rows: Seq<ProductView>, name: Seq<char>)
    ensures
        match product_name_index(rows, name) {
            Some(i) => 0 <= i < rows.len() && rows[i].name == name,
            None => forall|k: int| 0 <= k < rows.len() ==> #[trigger] rows[k].name != name,
        },
    decreases rows.len(),
{
    if rows.len() > 0 && rows.last().name != name {
        let rest = rows.drop_last();
        lemma_product_name_index(rest, name);
        assert(product_name_index(rows, name) == product_name_index(rest, name));
        if product_name_index(rows, name) is None {
            assert forall|k: int| 0 <= k < rows.len() implies #[trigger] rows[k].name != name by {
                if k < rows.len() - 1 {
                    assert(rows[k] == rest[k]);
                    if product_name_index(rest, name) is None {
                        assert(rest[k].name != name);
                    }
                }
            }
        }
    }
}

/// The store of products.
pub struct ProductRepo {
    rows: Vec<Product>,
    next_id: i64,
}

impl View for ProductRepo {
    type V = Seq<ProductView>;

    closed spec fn view(&self) -> Seq<ProductView> {
        product_views(self.rows@)
    }
}

impl ProductRepo {
    /// The identifier that the next insertion receives.
    pub closed spec fn next_id(&self) -> int {
        self.next_id as int
    }

    pub open spec fn wf(&self) -> bool {
        product_rows_wf(self@, self.next_id())
    }

    /// An empty store; identifiers start at 1.
    pub fn new() -> (r: ProductRepo)
        ensures
            r.wf(),
            r@ == Seq::<ProductView>::empty(),
            r.next_id() == 1,
    {
        let r = ProductRepo { rows: Vec::new(), next_id: 1 };
        assert(r@ =~= Seq::<ProductView>::empty());
        r
    }

    fn index_of_id(&self, id: i32) -> (r: Option<usize>)
        ensures
            match r {
                Some(i) => product_index(self@, id) == Some(i as int),
                None => product_index(self@, id) is None,
            },
    {
        let mut i: usize = self.rows.len();
        assert(self@.subrange(0, i as int) =~= self@);
        while i > 0
            invariant
                i <= self.rows.len(),
                self@.len() == self.rows@.len(),
                product_index(self@, id) == product_index(self@.subrange(0, i as int), id),
            decreases i,
        {
            assert(self@[i - 1] == self.rows@[i - 1]@);
            if self.rows[i - 1].product_id == id {
                return Some(i - 1);
            }
            assert(self@.subrange(0, i as int).drop_last() =~= self@.subrange(0, i - 1));
            i -= 1;
        }
        None
    }

    fn index_of_name(&self, name: &String) -> (r: Option<usize>)
        ensures
            match r {
                Some(i) => product_name_index(self@, name@) == Some(i as int),
                None => product_name_index(self@, name@) is None,
            },
    {
        let mut i: usize = self.rows.len();
        assert(self@.subrange(0, i as int) =~= self@);
        while i > 0
            invariant
                i <= self.rows.len(),
                self@.len() == self.rows@.len(),
                product_name_index(self@, name@) == product_name_index(
                    self@.subrange(0, i as int),
                    name@,
                ),
            decreases i,
        {
            assert(self@[i - 1] == self.rows@[i - 1]@);
            if self.rows[i - 1].name == *name {
                return Some(i - 1);
            }
            assert(self@.subrange(0, i as int).drop_last() =~= self@.subrange(0, i - 1));
            i -= 1;
        }
        None
    }

    /// Every stored product, oldest first; `None` when there is none.
    pub fn get_all(&self) -> (r: Result<Option<Vec<Product>>, DatabaseError>)
        ensures
            match r {
                Ok(None) => self@.len() == 0,
                Ok(Some(v)) => self@.len() > 0 && product_views(v@) == self@,
                Err(_) => false,
            },
    {
        if self.rows.len() == 0 {
            return Ok(None);
        }
        let mut out: Vec<Product> = Vec::new();
        let mut i: usize = 0;
        while i < self.rows.len()
            invariant
                i <= self.rows.len(),
                self@.len() == self.rows@.len(),
                out@.len() == i,
                forall|k: int| 0 <= k < i ==> #[trigger] out@[k]@ == self@[k],
            decreases self.rows.len() - i,
        {
            assert(self@[i as int] == self.rows@[i as int]@);
            out.push(self.rows[i].duplicate());
            i += 1;
        }
        assert(product_views(out@) =~= self@);
        Ok(Some(out))
    }

    /// The product with identifier `id`; absence is no error.
    pub fn get_by_id(&self, id: i32) -> (r: Result<Option<Product>, DatabaseError>)
        ensures
            match r {
                Ok(Some(c)) => product_with_id(self@, id) == Some(c@),
                Ok(None) => product_with_id(self@, id) is None,
                Err(_) => false,
            },
    {
        match self.index_of_id(id) {
            Some(i) => {
                proof { lemma_product_index(self@, id); }
                assert(self@[i as int] == self.rows@[i as int]@);
                Ok(Some(self.rows[i].duplicate()))
            },
            None => Ok(None),
        }
    }

    /// The product named `name_query`; absence is no error.
    pub fn get_by_name(&self, name_query: &str) -> (r: Result<Option<Product>, DatabaseError>)
        ensures
            match r {
                Ok(Some(c)) => product_named(self@, name_query@) == Some(c@),
                Ok(None) => product_named(self@, name_query@) is None,
                Err(_) => false,
            },
    {
        let name = name_query.to_owned();
        match self.index_of_name(&name) {
            Some(i) => {
                proof { lemma_product_name_index(self@, name@); }
                assert(self@[i as int] == self.rows@[i as int]@);
                Ok(Some(self.rows[i].duplicate()))
            },
            None => Ok(None),
        }
    }
    /// Stores a new product with a fresh identifier, both timestamps set to
    /// `now`, and returns the identifier. Fails, changing nothing, when the
    /// name is taken or no identifier is left.
    pub fn insert(&mut self, item: NewProduct, now: Timestamp) -> (r: Result<i32, DatabaseError>)
        requires
            old(self).wf(),
        ensures
            final(self).wf(),
            match r {
                Ok(id) => {
                    &&& product_insert_allowed(old(self)@, old(self).next_id(), item.name@)
                    &&& id == old(self).next_id()
                    &&& final(self)@ == old(self)@.push(
                        new_product_row(id, item, now),
                    )
                    &&& final(self).next_id() == old(self).next_id() + 1
                },
                Err(_) => {
                    &&& !product_insert_allowed(old(self)@, old(self).next_id(), item.name@)
                    &&& final(self)@ == old(self)@
                    &&& final(self).next_id() == old(self).next_id()
                },
            },
    {
        let name = item.name.to_owned();
        if self.index_of_name(&name).is_some() || self.next_id > i32::MAX as i64 {
            return Err(DatabaseError);
        }
        proof { lemma_product_name_index(self@, name@); }
        let id = self.next_id as i32;
        let row = Product {
            product_id: id,
            name,
            product_image_uri: owned_opt(item.product_image_uri),
            description: owned_opt(item.description),
            price_cents: item.price_cents,
            created_at: Some(now),
            updated_at: Some(now),
        };
        let ghost before = self@;
        self.rows.push(row);
        self.next_id = self.next_id + 1;
        assert(self@ =~= before.push(row@));
        Ok(id)
    }

    /// Stores a new product; see [`ProductRepo::insert`].
    pub fn add(&mut self, item: NewProduct, now: Timestamp) -> (r: Result<(), DatabaseError>)
        requires
            old(self).wf(),
        ensures
            final(self).wf(),
            match r {
                Ok(()) => {
                    &&& product_insert_allowed(old(self)@, old(self).next_id(), item.name@)
                    &&& final(self)@ == old(self)@.push(
                        new_product_row(old(self).next_id() as i32, item, now),
                    )
                    &&& final(self).next_id() == old(self).next_id() + 1
                },
                Err(_) => {
                    &&& !product_insert_allowed(old(self)@, old(self).next_id(), item.name@)
                    &&& final(self)@ == old(self)@
                    &&& final(self).next_id() == old(self).next_id()
                },
            },
    {
        match self.insert(item, now) {
            Ok(_) => Ok(()),
            Err(e) => Err(e),
        }
    }

    /// Applies the present fields of `item` to the product `id`, setting its
    /// update time to `now`. A missing `id`, or a form with no field present,
    /// changes nothing and is no error. Fails, changing nothing, when the new
    /// name belongs to another product.
    pub fn update(&mut self, id: i32, item: UpdateProduct, now: Timestamp) -> (r: Result<
        (),
        DatabaseError,
    >)
        requires
            old(self).wf(),
        ensures
            final(self).wf(),
            final(self).next_id() == old(self).next_id(),
            r is Err <==> product_update_conflicts(old(self)@, id, opt_str_chars(item.name)),
            r is Ok ==> final(self)@ == product_rows_updated(old(self)@, id, item, now),
            r is Err ==> final(self)@ == old(self)@,
    {
        let i = match self.index_of_id(id) {
            Some(i) => i,
            None => return Ok(()),
        };
        proof { lemma_product_index(self@, id); }
        assert(self@[i as int] == self.rows@[i as int]@);
        if item.name.is_none() && item.product_image_uri.is_none() && item.description.is_none()
            && item.price_cents.is_none() {
            assert(self@.update(i as int, self@[i as int]) =~= self@);
            return Ok(());
        }
        let new_name = match item.name {
            Some(n) => {
                let n = n.to_owned();
                proof { lemma_product_name_index(self@, n@); }
                match self.index_of_name(&n) {
                    Some(j) => {
                        if j != i {
                            assert(self@[j as int].name == n@);
                            return Err(DatabaseError);
                        }
                    },
                    None => {},
                }
                n
            },
            None => self.rows[i].name.clone(),
        };
        let product_image_uri = match item.product_image_uri {
            Some(u) => Some(u.to_owned()),
            None => crate::models::copy_opt(&self.rows[i].product_image_uri),
        };
        let description = match item.description {
            Some(d) => Some(d.to_owned()),
            None => crate::models::copy_opt(&self.rows[i].description),
        };
        let price_cents = match item.price_cents {
            Some(p) => p,
            None => self.rows[i].price_cents,
        };
        let row = Product {
            product_id: self.rows[i].product_id,
            name: new_name,
            product_image_uri,
            description,
            price_cents,
            created_at: self.rows[i].created_at,
            updated_at: Some(now),
        };
        let ghost before = self@;
        assert(row@ == apply_product_update(before[i as int], item, now));
        self.rows.remove(i);
        self.rows.insert(i, row);
        assert(self@ =~= before.update(i as int, row@));
        assert forall|a: int, b: int| 0 <= a < b < self@.len() implies #[trigger] self@[a].name
            != #[trigger] self@[b].name by {
            if a != i && b != i {
                assert(self@[a] == before[a] && self@[b] == before[b]);
            }
        }
        Ok(())
    }

    /// Removes the product `id`; a missing `id` is no error.
    pub fn delete(&mut self, id: i32) -> (r: Result<(), DatabaseError>)
        requires
            old(self).wf(),
        ensures
            final(self).wf(),
            final(self).next_id() == old(self).next_id(),
            r is Ok,
            final(self)@ == product_rows_deleted(old(self)@, id),
    {
        match self.index_of_id(id) {
            Some(i) => {
                proof { lemma_product_index(self@, id); }
                let ghost before = self@;
                self.rows.remove(i);
                assert(self@ =~= before.remove(i as int));
                Ok(())
            },
            None => Ok(()),
        }
    }
}

impl Default for ProductRepo {
    fn default() -> (r: ProductRepo)
        ensures
            r.wf(),
            r@ == Seq::<ProductView>::empty(),
            r.next_id() == 1,
    {
        ProductRepo::new()
    }
}

} // verus!
