use vstd::prelude::*;

use crate::errors::DatabaseError;
use crate::models::{
    NewProductCategory, Product, ProductCategory, ProductView, Timestamp, UpdateProductCategory,
};
use crate::product_repo::{product_views, product_with_id, ProductRepo};

verus! {

/// The composite key of a link: product, then category.
pub open spec fn link_key(l: ProductCategory) -> (i32, i32) {
    (l.product_id, l.category_id)
}

/// Position of the link with key `key`, searching from the newest row.
pub open spec fn link_index(rows: Seq<ProductCategory>, key: (i32, i32)) -> Option<int>
    decreases rows.len(),
{
    if rows.len() == 0 {
        None
    } else if link_key(rows.last()) == key {
        Some(rows.len() - 1)
    } else {
        link_index(rows.drop_last(), key)
    }
}

/// The stored link with key `key`, if any.
pub open spec fn link_with_key(rows: Seq<ProductCategory>, key: (i32, i32)) -> Option<
    ProductCategory,
> {
    match link_index(rows, key) {
        Some(i) => Some(rows[i]),
        None => None,
    }
}

/// No two links share a key.
pub open spec fn link_rows_wf(rows: Seq<ProductCategory>) -> bool {
    forall|i: int, j: int|
        0 <= i < j < rows.len() ==> link_key(#[trigger] rows[i]) != link_key(#[trigger] rows[j])
}

/// The link that a successful insertion stores.
pub open spec fn new_link_row(key: (i32, i32), now: Timestamp) -> ProductCategory {
    ProductCategory {
        product_id: key.0,
        category_id: key.1,
        created_at: Some(now),
        updated_at: Some(now),
    }
}

/// A link after a partial update of its key; an update with no field present
/// changes nothing.
pub open spec fn apply_link_update(
    l: ProductCategory,
    product_id: Option<i32>,
    category_id: Option<i32>,
    now: Timestamp,
) -> ProductCategory {
    if product_id is None && category_id is None {
        l
    } else {
        ProductCategory {
            product_id: match product_id {
                Some(p) => p,
                None => l.product_id,
            },
            category_id: match category_id {
                Some(c) => c,
                None => l.category_id,
            },
            updated_at: Some(now),
            ..l
        }
    }
}

/// An update of link `key` that would give it the key of another link.
pub open spec fn link_update_conflicts(
    rows: Seq<ProductCategory>,
    key: (i32, i32),
    product_id: Option<i32>,
    category_id: Option<i32>,
    now: Timestamp,
) -> bool {
    match link_index(rows, key) {
        Some(i) => exists|j: int|
            0 <= j < rows.len() && j != i && link_key(#[trigger] rows[j]) == link_key(
                apply_link_update(rows[i], product_id, category_id, now),
            ),
        None => false,
    }
}

/// The links after an update of link `key` that broke no constraint.
pub open spec fn link_rows_updated(
    rows: Seq<ProductCategory>,
    key: (i32, i32),
    product_id: Option<i32>,
    category_id: Option<i32>,
    now: Timestamp,
) -> Seq<ProductCategory> {
    match link_index(rows, key) {
        Some(i) => rows.update(i, apply_link_update(rows[i], product_id, category_id, now)),
        None => rows,
    }
}

/// The links after deleting link `key`.
pub open spec fn link_rows_deleted(rows: Seq<ProductCategory>, key: (i32, i32)) -> Seq<
    ProductCategory,
> {
    match link_index(rows, key) {
        Some(i) => rows.remove(i),
        None => rows,
    }
}

/// The products that the links of category `id` point to, in link order;
/// a link to a missing product contributes nothing.
pub open spec fn linked_products(
    links: Seq<ProductCategory>,
    products: Seq<ProductView>,
    id: i32,
) -> Seq<ProductView>
    decreases links.len(),
{
    if links.len() == 0 {
        Seq::empty()
    } else {
        let rest = linked_products(links.drop_last(), products, id);
        let l = links.last();
        if l.category_id == id && product_with_id(products, l.product_id) is Some {
            rest.push(product_with_id(products, l.product_id)->Some_0)
        } else {
            rest
        }
    }
}

/// The value behind an optional reference.
pub open spec fn opt_deref(o: Option<&i32>) -> Option<i32> {
    match o {
        Some(v) => Some(*v),
        None => None,
    }
}

pub proof fn lemma_link_index(rows: Seq<ProductCategory>, key: (i32, i32))
    ensures
        match link_index(rows, key) {
            Some(i) => 0 <= i < rows.len() && link_key(rows[i]) == key,
            None => forall|k: int| 0 <= k < rows.len() ==> link_key(#[trigger] rows[k]) != key,
        },
    decreases rows.len(),
{
    if rows.len() > 0 && link_key(rows.last()) != key {
        let rest = rows.drop_last();
        lemma_link_index(rest, key);
        assert(link_index(rows, key) == link_index(rest, key));
        if link_index(rows, key) is None {
            assert forall|k: int| 0 <= k < rows.len() implies link_key(#[trigger] rows[k]) != key by {
                if k < rows.len() - 1 {
                    assert(rows[k] == rest[k]);
                    assert(link_key(rest[k]) != key);
                }
            }
        }
    }
}

/// A link just stored is found again by its key pair, with both timestamps.
pub proof fn lemma_link_add_then_lookup(rows: Seq<ProductCategory>, key: (i32, i32), now: Timestamp)
    requires
        link_index(rows, key) is None,
    ensures
        link_with_key(rows.push(new_link_row(key, now)), key) == Some(new_link_row(key, now)),
{
    assert(rows.push(new_link_row(key, now)).drop_last() =~= rows);
}

/// The store of product-category links.
pub struct ProductCategoryRepo {
    rows: Vec<ProductCategory>,
}

impl View for ProductCategoryRepo {
    type V = Seq<ProductCategory>;

    closed spec fn view(&self) -> Seq<ProductCategory> {
        self.rows@
    }
}

impl ProductCategoryRepo {
    pub open spec fn wf(&self) -> bool {
        link_rows_wf(self@)
    }

    /// An empty store.
    pub fn new() -> (r: ProductCategoryRepo)
        ensures
            r.wf(),
            r@ == Seq::<ProductCategory>::empty(),
    {
        ProductCategoryRepo { rows: Vec::new() }
    }

    fn index_of(&self, product_id: i32, category_id: i32) -> (r: Option<usize>)
        ensures
            match r {
                Some(i) => link_index(self@, (product_id, category_id)) == Some(i as int),
                None => link_index(self@, (product_id, category_id)) is None,
            },
    {
        let ghost key = (product_id, category_id);
        let mut i: usize = self.rows.len();
        assert(self@.subrange(0, i as int) =~= self@);
        while i > 0
            invariant
                i <= self.rows.len(),
                key == (product_id, category_id),
                link_index(self@, key) == link_index(self@.subrange(0, i as int), key),
            decreases i,
        {
            assert(self@.subrange(0, i as int).last() == self.rows@[i - 1]);
            if self.rows[i - 1].product_id == product_id && self.rows[i - 1].category_id
                == category_id {
                return Some(i - 1);
            }
            assert(self@.subrange(0, i as int).drop_last() =~= self@.subrange(0, i - 1));
            i -= 1;
        }
        None
    }

    /// Every stored link, oldest first; `None` when there is none.
    pub fn get_all(&self) -> (r: Result<Option<Vec<ProductCategory>>, DatabaseError>)
        ensures
            match r {
                Ok(None) => self@.len() == 0,
                Ok(Some(v)) => self@.len() > 0 && v@ == self@,
                Err(_) => false,
            },
    {
        if self.rows.len() == 0 {
            return Ok(None);
        }
        let mut out: Vec<ProductCategory> = Vec::new();
        let mut i: usize = 0;
        while i < self.rows.len()
            invariant
                i <= self.rows.len(),
                out@ == self@.subrange(0, i as int),
            decreases self.rows.len() - i,
        {
            out.push(self.rows[i]);
            assert(out@ =~= self@.subrange(0, i + 1));
            i += 1;
        }
        assert(self@.subrange(0, i as int) =~= self@);
        Ok(Some(out))
    }

    /// The link with key `id` (product, category); absence is no error.
    pub fn get_by_id(&self, id: (i32, i32)) -> (r: Result<Option<ProductCategory>, DatabaseError>)
        ensures
            r == Ok::<Option<ProductCategory>, DatabaseError>(link_with_key(self@, id)),
    {
        proof { lemma_link_index(self@, id); }
        match self.index_of(id.0, id.1) {
            Some(i) => Ok(Some(self.rows[i])),
            None => Ok(None),
        }
    }

    /// The products linked to category `id`; `None` when there is none.
    pub fn get_products_by_category_id(&self, products: &ProductRepo, id: i32) -> (r: Result<
        Option<Vec<Product>>,
        DatabaseError,
    >)
        ensures
            match r {
                Ok(None) => linked_products(self@, products@, id).len() == 0,
                Ok(Some(v)) => {
                    &&& linked_products(self@, products@, id).len() > 0
                    &&& product_views(v@) == linked_products(self@, products@, id)
                },
                Err(_) => false,
            },
    {
        let mut out: Vec<Product> = Vec::new();
        let mut i: usize = 0;
        while i < self.rows.len()
            invariant
                i <= self.rows.len(),
                product_views(out@) == linked_products(self@.subrange(0, i as int), products@, id),
            decreases self.rows.len() - i,
        {
            let link = self.rows[i];
            assert(self@.subrange(0, i + 1).drop_last() =~= self@.subrange(0, i as int));
            assert(self@.subrange(0, i + 1).last() == link);
            if link.category_id == id {
                match products.get_by_id(link.product_id) {
                    Ok(Some(p)) => {
                        let ghost before = out@;
                        out.push(p);
                        assert(product_views(out@) =~= product_views(before).push(p@));
                    },
                    _ => {},
                }
            }
            i += 1;
        }
        assert(self@.subrange(0, i as int) =~= self@);
        if out.len() == 0 {
            Ok(None)
        } else {
            Ok(Some(out))
        }
    }

    /// Stores a link between the two given keys, both timestamps set to
    /// `now`. Fails, changing nothing, when that link exists.
    pub fn add(&mut self, item: NewProductCategory, now: Timestamp) -> (r: Result<(), DatabaseError>)
        requires
            old(self).wf(),
        ensures
            final(self).wf(),
            r is Ok <==> link_index(old(self)@, (*item.product_id, *item.category_id)) is None,
            r is Ok ==> final(self)@ == old(self)@.push(
                new_link_row((*item.product_id, *item.category_id), now),
            ),
            r is Err ==> final(self)@ == old(self)@,
    {
        let product_id = *item.product_id;
        let category_id = *item.category_id;
        if self.index_of(product_id, category_id).is_some() {
            return Err(DatabaseError);
        }
        proof { lemma_link_index(self@, (product_id, category_id)); }
        self.rows.push(
            ProductCategory {
                product_id,
                category_id,
                created_at: Some(now),
                updated_at: Some(now),
            },
        );
        Ok(())
    }

    /// Applies the present fields of `item` to the link `id`, setting its
    /// update time to `now`. A missing link, or a form with no field present,
    /// changes nothing and is no error. Fails, changing nothing, when the new
    /// key belongs to another link.
    pub fn update(&mut self, id: (i32, i32), item: UpdateProductCategory, now: Timestamp) -> (r:
        Result<(), DatabaseError>)
        requires
            old(self).wf(),
        ensures
            final(self).wf(),
            r is Err <==> link_update_conflicts(
                old(self)@,
                id,
                opt_deref(item.product_id),
                opt_deref(item.category_id),
                now,
            ),
            r is Ok ==> final(self)@ == link_rows_updated(
                old(self)@,
                id,
                opt_deref(item.product_id),
                opt_deref(item.category_id),
                now,
            ),
            r is Err ==> final(self)@ == old(self)@,
    {
        let i = match self.index_of(id.0, id.1) {
            Some(i) => i,
            None => return Ok(()),
        };
        proof { lemma_link_index(self@, id); }
        if item.product_id.is_none() && item.category_id.is_none() {
            assert(self@.update(i as int, self@[i as int]) =~= self@);
            return Ok(());
        }
        let old_row = self.rows[i];
        let row = ProductCategory {
            product_id: match item.product_id {
                Some(p) => *p,
                None => old_row.product_id,
            },
            category_id: match item.category_id {
                Some(c) => *c,
                None => old_row.category_id,
            },
            created_at: old_row.created_at,
            updated_at: Some(now),
        };
        let ghost before = self@;
        assert(row == apply_link_update(
            before[i as int],
            opt_deref(item.product_id),
            opt_deref(item.category_id),
            now,
        ));
        proof { lemma_link_index(self@, link_key(row)); }
        match self.index_of(row.product_id, row.category_id) {
            Some(j) => {
                if j != i {
                    return Err(DatabaseError);
                }
            },
            None => {},
        }
        self.rows.set(i, row);
        assert(self@ =~= before.update(i as int, row));
        assert forall|a: int, b: int| 0 <= a < b < self@.len() implies link_key(#[trigger] self@[a])
            != link_key(#[trigger] self@[b]) by {
            if a != i && b != i {
                assert(self@[a] == before[a] && self@[b] == before[b]);
            }
        }
        Ok(())
    }

    /// Removes the link `id`; a missing link is no error.
    pub fn delete(&mut self, id: (i32, i32)) -> (r: Result<(), DatabaseError>)
        requires
            old(self).wf(),
        ensures
            final(self).wf(),
            r is Ok,
            final(self)@ == link_rows_deleted(old(self)@, id),
    {
        match self.index_of(id.0, id.1) {
            Some(i) => {
                proof { lemma_link_index(self@, id); }
                let ghost before = self@;
                self.rows.remove(i);
                assert(self@ =~= before.remove(i as int));
                Ok(())
            },
            None => Ok(()),
        }
    }
}

impl Default for ProductCategoryRepo {
    fn default() -> (r: ProductCategoryRepo)
        ensures
            r.wf(),
            r@ == Seq::<ProductCategory>::empty(),
    {
        ProductCategoryRepo::new()
    }
}

} // verus!
