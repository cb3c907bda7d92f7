//! Reconciling fetched products with the known catalogue by exact barcode.
//!
//! The matcher decides; the caller talks to the catalogue store. A product
//! without a price resolves to `INVALID`; one whose barcode the catalogue
//! holds resolves to that entry; any other is handed back to be created,
//! and once the store has given it an id the new entry joins the catalogue,
//! so that later products with its barcode find it.
use vstd::prelude::*;
use crate::api::{ApiProduct, effective_price, get_price};
use crate::image::{get_large_image, large_image};
use crate::number::{Decimal, Ratio};
use crate::size::{opt_view, parse_size_unit, size_reading};

verus! {

/// The id that marks a product as invalid and skipped.
pub const INVALID: i32 = -1;

/// An entry of the catalogue.
#[derive(Clone, Debug)]
pub struct CatalogProduct {
    pub product_id: i32,
    pub title: String,
    pub variety: Option<String>,
    pub brand: Option<String>,
    pub image_url: Option<String>,
    pub barcode: Option<String>,
    pub size: Option<Ratio>,
    pub unit: Option<String>,
    pub quantity: i32,
}

/// What the store is asked to create for an unmatched product.
#[derive(Clone, Debug)]
pub struct NewProduct {
    pub title: String,
    pub variety: Option<String>,
    pub brand: Option<String>,
    pub image_url: Option<String>,
    pub barcode: String,
    pub size: Option<Ratio>,
    pub unit: Option<String>,
    pub quantity: i32,
}

/// The matcher's decision on one product.
#[derive(Clone, Debug)]
pub enum MatchStep {
    /// The product has no price; it resolves to `INVALID`.
    Invalid,
    /// The catalogue holds the product under this id.
    Matched(i32),
    /// The product is new: the store is to create it, and hand its id to
    /// `ProductMatcher::created`.
    Create(NewProduct),
}

/// The entry carries barcode `b`.
pub open spec fn has_barcode(e: CatalogProduct, b: Seq<char>) -> bool {
    e.barcode matches Some(x) && x@ == b
}

/// Index of the first entry that carries barcode `b`.
pub open spec fn first_match(cat: Seq<CatalogProduct>, b: Seq<char>) -> Option<int>
    decreases cat.len(),
{
    if cat.len() == 0 {
        None
    } else {
        match first_match(cat.drop_last(), b) {
            Some(k) => Some(k),
            None => if has_barcode(cat.last(), b) {
                Some(cat.len() - 1)
            } else {
                None
            },
        }
    }
}

/// Entry `k` carries a barcode, and is the first entry that carries it.
pub open spec fn first_of_its_barcode(cat: Seq<CatalogProduct>, k: int) -> bool {
    cat[k].barcode matches Some(x) && first_match(cat, x@) == Some(k)
}

/// The entry that the store's id `id` makes of a new product.
pub open spec fn entry_of(np: NewProduct, id: i32) -> CatalogProduct {
    CatalogProduct {
        product_id: id,
        title: np.title,
        variety: np.variety,
        brand: np.brand,
        image_url: np.image_url,
        barcode: Some(np.barcode),
        size: np.size,
        unit: np.unit,
        quantity: np.quantity,
    }
}

/// The new entry's fields for product `p` at price `price`: its name,
/// brand, barcode and variety, its large image (none where the image
/// address does not parse), and the size, quantity and unit read from its
/// listing.
pub open spec fn describes(np: NewProduct, p: ApiProduct, price: Decimal) -> bool {
    &&& np.title == p.name
    &&& np.brand == Some(p.brand)
    &&& np.barcode == p.barcode
    &&& np.variety == p.variety
    &&& opt_view(np.image_url) == large_image(p.images.big@)
    &&& (np.size, np.quantity as int, opt_view(np.unit)) == size_reading(p, price)
}

proof fn lemma_first_match_push(cat: Seq<CatalogProduct>, e: CatalogProduct, b: Seq<char>)
    ensures
        first_match(cat.push(e), b) == (match first_match(cat, b) {
            Some(k) => Some(k),
            None => if has_barcode(e, b) {
                Some(cat.len() as int)
            } else {
                None
            },
        }),
{
    assert(cat.push(e).drop_last() =~= cat);
}

proof fn lemma_first_match_bounds(cat: Seq<CatalogProduct>, b: Seq<char>)
    ensures
        first_match(cat, b) matches Some(k) ==> 0 <= k < cat.len() && has_barcode(cat[k], b),
    decreases cat.len(),
{
    if cat.len() > 0 {
        lemma_first_match_bounds(cat.drop_last(), b);
    }
}

/// The matcher over one pass: the catalogue snapshot, the ids resolved so
/// far, and the product waiting for the store, if any.
pub struct ProductMatcher {
    catalog: Vec<CatalogProduct>,
    resolved: Vec<i32>,
    pending: Option<NewProduct>,
    /// For each product taken so far: whether it had a price, and its barcode.
    seen: Ghost<Seq<(bool, Seq<char>)>>,
    /// The catalogue when the pass began.
    initial: Ghost<Seq<CatalogProduct>>,
    /// For each entry created during the pass, in order: the index among
    /// the products taken of the one it was created for.
    origins: Ghost<Seq<int>>,
}

impl ProductMatcher {
    pub closed spec fn catalog(&self) -> Seq<CatalogProduct> {
        self.catalog@
    }

    pub closed spec fn resolved(&self) -> Seq<i32> {
        self.resolved@
    }

    pub closed spec fn pending(&self) -> Option<NewProduct> {
        self.pending
    }

    /// For each product taken so far: whether it had a price, and its barcode.
    pub closed spec fn seen(&self) -> Seq<(bool, Seq<char>)> {
        self.seen@
    }

    /// The catalogue when the pass began.
    pub closed spec fn initial(&self) -> Seq<CatalogProduct> {
        self.initial@
    }

    /// Length of the catalogue when the pass began.
    pub open spec fn base(&self) -> nat {
        self.initial().len()
    }

    pub closed spec fn wf(&self) -> bool {
        &&& self.seen@.len() == self.resolved@.len() + (if self.pending is Some { 1int } else { 0 })
        &&& self.initial@.len() <= self.catalog@.len()
        &&& self.catalog@.take(self.initial@.len() as int) == self.initial@
        &&& self.origins@.len() == self.catalog@.len() - self.initial@.len()
        &&& forall|j: int|
            0 <= j < self.origins@.len() ==> 0 <= #[trigger] self.origins@[j] < self.seen@.len()
                && self.seen@[self.origins@[j]].0
        &&& forall|k: int| 0 <= k < self.catalog@.len() ==> (#[trigger] self.catalog@[k]).product_id != INVALID
        &&& forall|i: int|
            0 <= i < self.resolved@.len() ==> {
                let (priced, b) = #[trigger] self.seen@[i];
                if priced {
                    first_match(self.catalog@, b) matches Some(k) && self.catalog@[k].product_id
                        == self.resolved@[i]
                } else {
                    self.resolved@[i] == INVALID
                }
            }
        &&& forall|k: int|
            self.initial@.len() <= k < self.catalog@.len() ==> #[trigger] first_of_its_barcode(self.catalog@, k)
        &&& self.pending matches Some(np) ==> {
            let last = self.seen@.last();
            &&& last.0
            &&& last.1 == np.barcode@
            &&& first_match(self.catalog@, np.barcode@) is None
        }
    }

    /// A matcher over a catalogue snapshot, with nothing taken yet. No entry
    /// of the snapshot may carry the id `INVALID`.
    pub fn new(catalog: Vec<CatalogProduct>) -> (r: ProductMatcher)
        requires
            forall|k: int| 0 <= k < catalog@.len() ==> (#[trigger] catalog@[k]).product_id != INVALID,
        ensures
            r.wf(),
            r.catalog() == catalog@,
            r.resolved() == Seq::<i32>::empty(),
            r.pending() is None,
            r.seen() == Seq::<(bool, Seq<char>)>::empty(),
            r.initial() == catalog@,
    {
        let ghost snapshot = catalog@;
        let r = ProductMatcher {
            catalog,
            resolved: Vec::new(),
            pending: None,
            seen: Ghost(Seq::empty()),
            initial: Ghost(snapshot),
            origins: Ghost(Seq::empty()),
        };
        assert(r.catalog@.take(snapshot.len() as int) =~= snapshot);
        r
    }

    /// Whether a product waits for the store's id.
    pub fn is_awaiting_store(&self) -> (r: bool)
        ensures
            r == self.pending() is Some,
    {
        self.pending.is_some()
    }

    /// Index of the first entry with this barcode.
    fn find(&self, barcode: &String) -> (r: Option<usize>)
        ensures
            match r {
                Some(k) => k < self.catalog@.len() && first_match(self.catalog@, barcode@) == Some(k as int),
                None => first_match(self.catalog@, barcode@) is None,
            },
    {
        let mut k: usize = 0;
        while k < self.catalog.len()
            invariant
                k <= self.catalog@.len(),
                first_match(self.catalog@.take(k as int), barcode@) is None,
            decreases self.catalog@.len() - k,
        {
            proof {
                assert(self.catalog@.take(k + 1) =~= self.catalog@.take(k as int).push(self.catalog@[k as int]));
                lemma_first_match_push(self.catalog@.take(k as int), self.catalog@[k as int], barcode@);
            }
            let hit = match &self.catalog[k].barcode {
                Some(b) => *b == *barcode,
                None => false,
            };
            if hit {
                proof {
                    lemma_first_match_prefix(self.catalog@, k + 1, barcode@);
                }
                return Some(k);
            }
            k = k + 1;
        }
        proof {
            assert(self.catalog@.take(k as int) =~= self.catalog@);
        }
        None
    }

    /// Takes the next fetched product. A product whose effective price is
    /// zero resolves to `INVALID`; one whose barcode the catalogue holds
    /// resolves to the first such entry; either way the catalogue is left as
    /// it is. Any other is returned to be created, and waits for its id.
    pub fn next(&mut self, store_product: &ApiProduct) -> (r: MatchStep)
        requires
            old(self).wf(),
            old(self).pending() is None,
            store_product.wf(),
        ensures
            final(self).wf(),
            final(self).initial() == old(self).initial(),
            final(self).seen() == old(self).seen().push(
                (!effective_price(*store_product).is_zero_spec(), store_product.barcode@),
            ),
            effective_price(*store_product).is_zero_spec() ==> {
                &&& r is Invalid
                &&& final(self).catalog() == old(self).catalog()
                &&& final(self).resolved() == old(self).resolved().push(INVALID)
                &&& final(self).pending() is None
            },
            !effective_price(*store_product).is_zero_spec() ==> match first_match(
                old(self).catalog(),
                store_product.barcode@,
            ) {
                Some(k) => {
                    &&& r == MatchStep::Matched(old(self).catalog()[k].product_id)
                    &&& final(self).catalog() == old(self).catalog()
                    &&& final(self).resolved() == old(self).resolved().push(
                        old(self).catalog()[k].product_id,
                    )
                    &&& final(self).pending() is None
                },
                None => {
                    &&& r matches MatchStep::Create(np) && describes(np, *store_product, effective_price(*store_product))
                    &&& final(self).catalog() == old(self).catalog()
                    &&& final(self).resolved() == old(self).resolved()
                    &&& final(self).pending() == Some(r->Create_0)
                },
            },
    {
        let price = get_price(store_product);
        let ghost entry = (!price.is_zero_spec(), store_product.barcode@);
        if price.is_zero() {
            self.resolved.push(INVALID);
            self.seen = Ghost(self.seen@.push(entry));
            return MatchStep::Invalid;
        }
        match self.find(&store_product.barcode) {
            Some(k) => {
                let id = self.catalog[k].product_id;
                self.resolved.push(id);
                self.seen = Ghost(self.seen@.push(entry));
                MatchStep::Matched(id)
            },
            None => {
                let (size, quantity, unit) = parse_size_unit(store_product, price);
                let np = NewProduct {
                    title: store_product.name.clone(),
                    variety: clone_text(&store_product.variety),
                    brand: Some(store_product.brand.clone()),
                    image_url: get_large_image(store_product.images.big.as_str()),
                    barcode: store_product.barcode.clone(),
                    size,
                    unit,
                    quantity,
                };
                self.pending = Some(np.clone_new());
                self.seen = Ghost(self.seen@.push(entry));
                MatchStep::Create(np)
            },
        }
    }

    /// Records the id that the store gave the waiting product, which is never
    /// `INVALID`: the new entry
    /// joins the catalogue and the product resolves to it. Returns false, and
    /// changes nothing, where no product waits.
    pub fn created(&mut self, product_id: i32) -> (ok: bool)
        requires
            old(self).wf(),
            product_id != INVALID,
        ensures
            final(self).wf(),
            ok == old(self).pending() is Some,
            final(self).initial() == old(self).initial(),
            final(self).seen() == old(self).seen(),
            ok ==> {
                &&& final(self).catalog() == old(self).catalog().push(entry_of(old(self).pending()->0, product_id))
                &&& final(self).resolved() == old(self).resolved().push(product_id)
                &&& final(self).pending() is None
            },
            !ok ==> *final(self) == *old(self),
    {
        let np = match self.pending.take() {
            Some(np) => np,
            None => return false,
        };
        let ghost old_cat = self.catalog@;
        let e = CatalogProduct {
            product_id,
            title: np.title,
            variety: np.variety,
            brand: np.brand,
            image_url: np.image_url,
            barcode: Some(np.barcode),
            size: np.size,
            unit: np.unit,
            quantity: np.quantity,
        };
        proof {
            lemma_first_match_push(old_cat, e, e.barcode->0@);
            assert forall|b: Seq<char>| first_match(old_cat, b) is Some implies first_match(old_cat.push(e), b)
                == first_match(old_cat, b) by {
                lemma_first_match_push(old_cat, e, b);
            }
        }
        let ghost base = self.initial@.len() as int;
        self.catalog.push(e);
        self.resolved.push(product_id);
        self.origins = Ghost(self.origins@.push(self.seen@.len() - 1));
        proof {
            assert(self.catalog@.take(base) =~= old_cat.take(base));
            assert forall|k: int| 0 <= k < self.catalog@.len() implies (#[trigger] self.catalog@[k]).product_id != INVALID by {
                if k < old_cat.len() {
                    assert(self.catalog@[k] == old_cat[k]);
                }
            }
            let n = self.resolved@.len() - 1;
            assert forall|i: int| 0 <= i < self.resolved@.len() implies {
                let (priced, b) = #[trigger] self.seen@[i];
                if priced {
                    first_match(self.catalog@, b) matches Some(k) && self.catalog@[k].product_id
                        == self.resolved@[i]
                } else {
                    self.resolved@[i] == INVALID
                }
            } by {
                let (priced, b) = self.seen@[i];
                if i < n {
                    if priced {
                        lemma_first_match_bounds(old_cat, b);
                        let k = first_match(old_cat, b)->0;
                        assert(old_cat[k] == self.catalog@[k]);
                    }
                } else {
                    lemma_first_match_push(old_cat, e, b);
                }
            }
            assert forall|k: int| base <= k < self.catalog@.len() implies #[trigger] first_of_its_barcode(self.catalog@, k) by {
                if k < old_cat.len() {
                    assert(first_of_its_barcode(old_cat, k));
                    assert(self.catalog@[k] == old_cat[k]);
                }
            }
        }
        true
    }

    /// The catalogue and the resolved ids, once the pass is over.
    pub fn finish(self) -> (r: (Vec<CatalogProduct>, Vec<i32>))
        ensures
            r.0@ == self.catalog(),
            r.1@ == self.resolved(),
    {
        (self.catalog, self.resolved)
    }
}

impl NewProduct {
    fn clone_new(&self) -> (r: NewProduct)
        ensures
            r == *self,
    {
        NewProduct {
            title: self.title.clone(),
            variety: clone_text(&self.variety),
            brand: clone_text(&self.brand),
            image_url: clone_text(&self.image_url),
            barcode: self.barcode.clone(),
            size: self.size,
            unit: clone_text(&self.unit),
            quantity: self.quantity,
        }
    }
}

fn clone_text(s: &Option<String>) -> (r: Option<String>)
    ensures
        r == *s,
{
    match s {
        Some(t) => Some(t.clone()),
        None => None,
    }
}

proof fn lemma_first_match_earliest(cat: Seq<CatalogProduct>, a: int, b: Seq<char>)
    requires
        0 <= a < cat.len(),
        has_barcode(cat[a], b),
    ensures
        first_match(cat, b) matches Some(k) && k <= a,
    decreases cat.len(),
{
    if a < cat.len() - 1 {
        assert(cat.drop_last()[a] == cat[a]);
        lemma_first_match_earliest(cat.drop_last(), a, b);
    } else {
        lemma_first_match_bounds(cat.drop_last(), b);
    }
}

/// Every product of the pass that came without a price resolved to
/// `INVALID`.
pub proof fn lemma_unpriced_resolve_invalid(m: &ProductMatcher, i: int)
    requires
        m.wf(),
        0 <= i < m.resolved().len(),
        !m.seen()[i].0,
    ensures
        m.resolved()[i] == INVALID,
{
    let _ = m.seen()[i];
}

/// Every product of the pass that came with a price resolved to a
/// catalogue id, never to `INVALID`.
pub proof fn lemma_priced_resolve_valid(m: &ProductMatcher, i: int)
    requires
        m.wf(),
        0 <= i < m.resolved().len(),
        m.seen()[i].0,
    ensures
        m.resolved()[i] != INVALID,
{
    let _ = m.seen()[i];
    lemma_first_match_bounds(m.catalog(), m.seen()[i].1);
    let k = first_match(m.catalog(), m.seen()[i].1)->0;
    let _ = m.catalog()[k];
}

/// A pass in which every product came without a price leaves the catalogue
/// as it began, resolves every product to `INVALID`, and has none waiting
/// for the store.
pub proof fn lemma_unpriced_pass_keeps_catalog(m: &ProductMatcher)
    requires
        m.wf(),
        forall|i: int| 0 <= i < m.seen().len() ==> !(#[trigger] m.seen()[i]).0,
    ensures
        m.catalog() == m.initial(),
        m.pending() is None,
        m.resolved().len() == m.seen().len(),
        forall|i: int| 0 <= i < m.resolved().len() ==> #[trigger] m.resolved()[i] == INVALID,
{
    if m.pending() is Some {
        let _ = m.seen()[m.seen().len() - 1];
    }
    if m.catalog().len() > m.base() {
        let j = m.origins@[0];
        let _ = m.seen()[j];
    }
    assert(m.catalog() =~= m.catalog().take(m.base() as int));
    assert forall|i: int| 0 <= i < m.resolved().len() implies #[trigger] m.resolved()[i] == INVALID by {
        let _ = m.seen()[i];
    }
}

/// Two products of one pass that came with a price and share a barcode
/// resolve to the same catalogue id, which is not `INVALID`.
pub proof fn lemma_same_barcode_same_id(m: &ProductMatcher, i: int, j: int)
    requires
        m.wf(),
        0 <= i < m.resolved().len(),
        0 <= j < m.resolved().len(),
        m.seen()[i].0,
        m.seen()[j].0,
        m.seen()[i].1 == m.seen()[j].1,
    ensures
        m.resolved()[i] == m.resolved()[j],
        m.resolved()[i] != INVALID,
{
    let _ = m.seen()[i];
    let _ = m.seen()[j];
    lemma_priced_resolve_valid(m, i);
}

/// An entry created during the pass carries a barcode that no earlier
/// entry carries: the pass never creates a second entry for a barcode, nor
/// one for a barcode that the catalogue held before it.
pub proof fn lemma_one_entry_per_barcode(m: &ProductMatcher, a: int, b: int)
    requires
        m.wf(),
        0 <= a < b < m.catalog().len(),
        m.base() <= b,
    ensures
        m.catalog()[b].barcode is Some,
        !has_barcode(m.catalog()[a], m.catalog()[b].barcode->0@),
{
    assert(first_of_its_barcode(m.catalog(), b));
    let x = m.catalog()[b].barcode->0@;
    if has_barcode(m.catalog()[a], x) {
        lemma_first_match_earliest(m.catalog(), a, x);
    }
}

proof fn lemma_first_match_prefix(cat: Seq<CatalogProduct>, n: int, b: Seq<char>)
    requires
        0 <= n <= cat.len(),
        first_match(cat.take(n), b) is Some,
    ensures
        first_match(cat, b) == first_match(cat.take(n), b),
    decreases cat.len() - n,
{
    if n < cat.len() {
        assert(cat.take(n + 1) =~= cat.take(n).push(cat[n]));
        lemma_first_match_push(cat.take(n), cat[n], b);
        lemma_first_match_prefix(cat, n + 1, b);
    } else {
        assert(cat.take(n) =~= cat);
    }
}

} // verus!
