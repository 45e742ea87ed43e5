//! A stock service: it keeps, for each store, the products on offer and how
//! many of each are there, and answers queries for what a store has.
//!
//! A stock is a map from stores to inventories, and an inventory a map from
//! products to quantities: that is the view of [`StockImpl`], and what the
//! contracts speak of. A query is answered with one item for each product of
//! the store, or for each of which something is left; whether a product is
//! available is worked out from its quantity when the answer is made and is
//! kept nowhere.
//!
//! [`grpc`] holds the handler that answers a request from any [`Stock`] and
//! the helper that builds a request; [`proto`] holds the values that requests
//! and responses are made of.

use crate::inventory::{item_of, listed, lists, pair_views, product_of, shows, tells, Inventory};
use crate::proto::{item_views, Item, ItemView, Store};
use vstd::prelude::*;

pub mod grpc;
pub mod inventory;
pub mod proto;

verus! {

/// What a product is, apart from how its texts are stored.
pub struct ProductView {
    pub name: Seq<char>,
    pub brand: Seq<char>,
    pub category: Seq<char>,
}

/// A product: a name, a brand and a category. Two products are the same when
/// all three texts agree, letter for letter.
#[derive(Debug, Hash)]
pub struct Product {
    name: String,
    brand: String,
    category: String,
}

impl View for Product {
    type V = ProductView;

    closed spec fn view(&self) -> ProductView {
        ProductView { name: self.name@, brand: self.brand@, category: self.category@ }
    }
}

impl Clone for Product {
    fn clone(&self) -> (copy: Self)
        ensures
            copy@ == self@,
    {
        Product {
            name: self.name.clone(),
            brand: self.brand.clone(),
            category: self.category.clone(),
        }
    }
}

impl PartialEq for Product {
    fn eq(&self, other: &Self) -> (same: bool) {
        self.name == other.name && self.brand == other.brand && self.category == other.category
    }
}

impl Eq for Product {}

impl vstd::std_specs::cmp::PartialEqSpecImpl for Product {
    open spec fn obeys_eq_spec() -> bool {
        true
    }

    open spec fn eq_spec(&self, other: &Self) -> bool {
        self@ == other@
    }
}

impl Product {
    /// Returns the product with the given name, brand and category.
    pub fn new(name: &str, brand: &str, category: &str) -> (product: Self)
        ensures
            product@ == (ProductView { name: name@, brand: brand@, category: category@ }),
    {
        Product { name: name.to_owned(), brand: brand.to_owned(), category: category.to_owned() }
    }

    /// The name of the product.
    pub fn name(&self) -> (name: &str)
        ensures
            name@ == self@.name,
    {
        self.name.as_str()
    }

    /// The brand of the product.
    pub fn brand(&self) -> (brand: &str)
        ensures
            brand@ == self@.brand,
    {
        self.brand.as_str()
    }

    /// The category of the product.
    pub fn category(&self) -> (category: &str)
        ensures
            category@ == self@.category,
    {
        self.category.as_str()
    }
}

/// A stock answers queries for what a store has. The service is written
/// against this trait, so that it can be run over any stock.
pub trait Stock {
    /// Returns the items of a store. `show_unavailable` decides whether items
    /// of which nothing is left are among them.
    fn get(&self, store: Store, show_unavailable: bool) -> Vec<Item>;
}

/// The inventory that `stores` has for `store`: empty where the store is not
/// known.
pub open spec fn inventory_of(
    stores: Map<Store, Map<ProductView, u32>>,
    store: Store,
) -> Map<ProductView, u32> {
    if stores.dom().contains(store) {
        stores[store]
    } else {
        Map::empty()
    }
}

/// The stores after `quantity` of `product` is registered for `store`: the
/// store is known from then on, and its inventory has that quantity of the
/// product and what it had of the others.
pub open spec fn registered(
    stores: Map<Store, Map<ProductView, u32>>,
    product: ProductView,
    store: Store,
    quantity: u32,
) -> Map<Store, Map<ProductView, u32>> {
    stores.insert(store, inventory_of(stores, store).insert(product, quantity))
}

/// A store and what it has.
struct Shelf {
    store: Store,
    inventory: Inventory,
}

/// Whether no store has two shelves.
spec fn apart(shelves: Seq<Shelf>) -> bool {
    forall|i: int, j: int|
        0 <= i < j < shelves.len() ==> (#[trigger] shelves[i]).store != (
        #[trigger] shelves[j]).store
}

/// Whether `store` has the shelf at `i`.
spec fn shelf_at(shelves: Seq<Shelf>, store: Store, i: int) -> bool {
    0 <= i < shelves.len() && shelves[i].store == store
}

/// Whether `store` has a shelf.
spec fn stocked(shelves: Seq<Shelf>, store: Store) -> bool {
    exists|i: int| shelf_at(shelves, store, i)
}

/// The inventories that the shelves give to their stores.
spec fn inventories(shelves: Seq<Shelf>) -> Map<Store, Map<ProductView, u32>> {
    Map::new(
        |store: Store| stocked(shelves, store),
        |store: Store| shelves[choose|i: int| shelf_at(shelves, store, i)].inventory@,
    )
}

/// Each shelf gives its inventory to its store.
proof fn lemma_inventory_at(shelves: Seq<Shelf>, i: int)
    requires
        apart(shelves),
        0 <= i < shelves.len(),
    ensures
        inventories(shelves).dom().contains(shelves[i].store),
        inventories(shelves)[shelves[i].store] == shelves[i].inventory@,
{
    // The store has the shelf at `i` and, as no store has two, no other.
    assert(shelf_at(shelves, shelves[i].store, i));
}

/// A shelf put in the place of another, for a store that had none elsewhere,
/// or put behind the others, gives its inventory to its store and leaves the
/// other stores as they were.
proof fn lemma_shelf_placed(shelves: Seq<Shelf>, after: Seq<Shelf>, i: int, shelf: Shelf)
    requires
        apart(shelves),
        0 <= i <= shelves.len(),
        i < shelves.len() ==> shelves[i].store == shelf.store && after == shelves.update(i, shelf),
        i == shelves.len() ==> !stocked(shelves, shelf.store) && after == shelves.push(shelf),
    ensures
        apart(after),
        inventories(after) == inventories(shelves).insert(shelf.store, shelf.inventory@),
{
    assert forall|a: int, b: int| 0 <= a < b < after.len() implies (#[trigger] after[a]).store != (
    #[trigger] after[b]).store by {
        if b == shelves.len() {
            assert(!shelf_at(shelves, shelf.store, a));
        }
    }
    let want = inventories(shelves).insert(shelf.store, shelf.inventory@);
    assert forall|store: Store| #[trigger]
        inventories(after).dom().contains(store) implies want.dom().contains(store)
        && inventories(after)[store] == want[store] by {
        let k = choose|k: int| shelf_at(after, store, k);
        lemma_inventory_at(after, k);
        if k != i {
            lemma_inventory_at(shelves, k);
        }
    }
    assert forall|store: Store| #[trigger]
        want.dom().contains(store) implies inventories(after).dom().contains(store) by {
        if store == shelf.store {
            assert(shelf_at(after, store, i));
        } else {
            let k = choose|k: int| shelf_at(shelves, store, k);
            assert(shelf_at(after, store, k));
        }
    }
}

/// Shelves that agree one by one on store and inventory give the same
/// inventories.
proof fn lemma_same_inventories(shelves: Seq<Shelf>, others: Seq<Shelf>)
    requires
        apart(shelves),
        others.len() == shelves.len(),
        forall|k: int|
            0 <= k < shelves.len() ==> (#[trigger] others[k]).store == shelves[k].store
                && others[k].inventory@ == shelves[k].inventory@,
    ensures
        apart(others),
        inventories(others) == inventories(shelves),
{
    assert forall|store: Store| #[trigger]
        inventories(others).dom().contains(store) implies inventories(shelves).dom().contains(
        store,
    ) && inventories(others)[store] == inventories(shelves)[store] by {
        let k = choose|k: int| shelf_at(others, store, k);
        lemma_inventory_at(others, k);
        lemma_inventory_at(shelves, k);
    }
    assert forall|store: Store| #[trigger]
        inventories(shelves).dom().contains(store) implies inventories(others).dom().contains(
        store,
    ) by {
        let k = choose|k: int| shelf_at(shelves, store, k);
        assert(shelf_at(others, store, k));
    }
}

/// Where the shelf of `store` is, if it has one.
fn find_shelf(shelves: &Vec<Shelf>, store: Store) -> (found: Option<usize>)
    ensures
        match found {
            Some(i) => shelf_at(shelves@, store, i as int),
            None => !stocked(shelves@, store),
        },
{
    let mut i: usize = 0;
    while i < shelves.len()
        invariant
            i <= shelves.len(),
            forall|k: int| 0 <= k < i ==> !shelf_at(shelves@, store, k),
        decreases shelves.len() - i,
    {
        if shelves[i].store == store {
            return Some(i);
        }
        i += 1;
    }
    None
}

/// The stock that the service keeps in memory: for each store that anything
/// was registered for, its products and how many of each it has.
pub struct StockImpl {
    shelves: Vec<Shelf>,
}

impl View for StockImpl {
    type V = Map<Store, Map<ProductView, u32>>;

    closed spec fn view(&self) -> Map<Store, Map<ProductView, u32>> {
        inventories(self.shelves@)
    }
}

impl StockImpl {
    #[verifier::type_invariant]
    spec fn well_formed(&self) -> bool {
        apart(self.shelves@)
    }

    /// The inventory of `store`: empty where nothing was registered for it.
    pub open spec fn inventory(&self, store: Store) -> Map<ProductView, u32> {
        inventory_of(self@, store)
    }

    /// Returns a stock that knows no store.
    pub fn new() -> (stock: Self)
        ensures
            stock@ == Map::<Store, Map<ProductView, u32>>::empty(),
    {
        let stock = StockImpl { shelves: Vec::new() };
        assert(stock@ =~= Map::<Store, Map<ProductView, u32>>::empty()) by {
            assert forall|store: Store| !stocked(stock.shelves@, store) by {
                assert forall|i: int| !shelf_at(stock.shelves@, store, i) by {}
            }
        }
        stock
    }

    /// Registers `qt` of the product for the store. The store becomes known
    /// if it was not. A quantity registered earlier for the same product and
    /// store is replaced, not added to.
    pub fn register(&mut self, pdct: Product, store: Store, qt: u32)
        ensures
            final(self)@ == registered(old(self)@, pdct@, store, qt),
    {
        proof {
            use_type_invariant(&*self);
        }
        // The shelves are changed outside the stock and put back whole, so
        // that the stock never holds a store twice.
        let mut shelves: Vec<Shelf> = Vec::new();
        std::mem::swap(&mut self.shelves, &mut shelves);
        let ghost before = shelves@;
        match find_shelf(&shelves, store) {
            Some(i) => {
                proof {
                    lemma_inventory_at(before, i as int);
                }
                shelves[i].inventory.put(pdct, qt);
                proof {
                    lemma_shelf_placed(before, shelves@, i as int, shelves@[i as int]);
                }
            },
            None => {
                let mut inventory = Inventory::new();
                inventory.put(pdct, qt);
                let shelf = Shelf { store, inventory };
                proof {
                    lemma_shelf_placed(before, before.push(shelf), before.len() as int, shelf);
                }
                shelves.push(shelf);
            },
        }
        self.shelves = shelves;
    }

    /// How many of the product the store has: nothing to say where the
    /// product was never registered for the store.
    pub fn quantity(&self, pdct: &Product, store: Store) -> (quantity: Option<u32>)
        ensures
            quantity == if self.inventory(store).dom().contains(pdct@) {
                Some(self.inventory(store)[pdct@])
            } else {
                None
            },
    {
        proof {
            use_type_invariant(self);
        }
        match find_shelf(&self.shelves, store) {
            Some(i) => {
                proof {
                    lemma_inventory_at(self.shelves@, i as int);
                }
                self.shelves[i].inventory.quantity(pdct)
            },
            None => None,
        }
    }

    /// The products of the store with their quantities, each product once:
    /// nothing to say where the store is not known.
    pub fn products(&self, store: Store) -> (found: Option<Vec<(Product, u32)>>)
        ensures
            match found {
                Some(pairs) => self@.dom().contains(store) && tells(
                    self@[store],
                    pair_views(pairs@),
                ),
                None => !self@.dom().contains(store),
            },
    {
        proof {
            use_type_invariant(self);
        }
        match find_shelf(&self.shelves, store) {
            Some(i) => {
                proof {
                    lemma_inventory_at(self.shelves@, i as int);
                }
                Some(self.shelves[i].inventory.pairs())
            },
            None => None,
        }
    }
}

impl Clone for StockImpl {
    /// The copy knows the stores that the stock knows, with the same
    /// inventories.
    fn clone(&self) -> (copy: Self)
        ensures
            copy@ == self@,
    {
        let mut shelves: Vec<Shelf> = Vec::new();
        let mut i: usize = 0;
        while i < self.shelves.len()
            invariant
                i <= self.shelves.len(),
                shelves.len() == i,
                forall|k: int|
                    0 <= k < i ==> (#[trigger] shelves[k]).store == self.shelves[k].store
                        && shelves[k].inventory@ == self.shelves[k].inventory@,
            decreases self.shelves.len() - i,
        {
            let shelf = &self.shelves[i];
            shelves.push(Shelf { store: shelf.store, inventory: shelf.inventory.clone() });
            i += 1;
        }
        proof {
            use_type_invariant(self);
            lemma_same_inventories(self.shelves@, shelves@);
        }
        StockImpl { shelves }
    }
}

impl Stock for StockImpl {
    /// Returns one item for each product of the store that is shown, with the
    /// quantity that the store has of it and the availability that goes with
    /// the quantity, and nothing else. The order of the items is free. A
    /// store that nothing was registered for has no items.
    fn get(&self, store: Store, show_unavailable: bool) -> (items: Vec<Item>)
        ensures
            shows(self.inventory(store), show_unavailable, item_views(items@)),
            !self@.dom().contains(store) ==> items@.len() == 0,
    {
        proof {
            use_type_invariant(self);
        }
        match find_shelf(&self.shelves, store) {
            Some(i) => {
                proof {
                    lemma_inventory_at(self.shelves@, i as int);
                }
                self.shelves[i].inventory.items(show_unavailable)
            },
            None => {
                let items: Vec<Item> = Vec::new();
                assert(item_views(items@).to_set() =~= listed(
                    self.inventory(store),
                    show_unavailable,
                ));
                items
            },
        }
    }
}

/// Registering a product for a store a second time overwrites: the stores
/// are left as if the second quantity alone had been registered, and the
/// store has the second quantity of the product, whatever the first was.
pub proof fn lemma_register_overwrites(
    stores: Map<Store, Map<ProductView, u32>>,
    product: ProductView,
    store: Store,
    first: u32,
    second: u32,
)
    ensures
        registered(registered(stores, product, store, first), product, store, second)
            == registered(stores, product, store, second),
        inventory_of(registered(stores, product, store, second), store).dom()
            == inventory_of(stores, store).dom().insert(product),
        inventory_of(registered(stores, product, store, second), store)[product] == second,
{
    let once = registered(stores, product, store, first);
    let direct = registered(stores, product, store, second);
    // The second quantity takes the place of the first in the inventory.
    assert(inventory_of(once, store).insert(product, second) =~= inventory_of(
        stores,
        store,
    ).insert(product, second));
    assert(inventory_of(direct, store).dom() =~= inventory_of(stores, store).dom().insert(
        product,
    ));
}

/// After a product was registered twice for a store, an answer of the store
/// holds the product at most once and with the quantity registered last:
/// there is no second item of the product and none with another quantity.
/// The product is in the answer exactly when it is shown.
pub proof fn lemma_registered_once(
    stores: Map<Store, Map<ProductView, u32>>,
    product: ProductView,
    store: Store,
    first: u32,
    second: u32,
    show_unavailable: bool,
    items: Seq<ItemView>,
)
    requires
        shows(
            inventory_of(
                registered(registered(stores, product, store, first), product, store, second),
                store,
            ),
            show_unavailable,
            items,
        ),
    ensures
        forall|i: int|
            0 <= i < items.len() && product_of(#[trigger] items[i]) == product ==> items[i]
                == item_of(product, second),
        forall|i: int, j: int|
            0 <= i < items.len() && 0 <= j < items.len() && product_of(#[trigger] items[i])
                == product && product_of(#[trigger] items[j]) == product ==> i == j,
        items.contains(item_of(product, second)) <==> show_unavailable || second > 0,
{
    lemma_register_overwrites(stores, product, store, first, second);
    let inventory = inventory_of(registered(stores, product, store, second), store);
    let item = item_of(product, second);
    assert(items.to_set().contains(item) <==> lists(inventory, show_unavailable, item));
    assert forall|i: int|
        0 <= i < items.len() && product_of(#[trigger] items[i]) == product implies items[i]
        == item by {
        assert(items.to_set().contains(items[i]));
    }
}

/// Leaving unavailable items out leaves out the items of which nothing is
/// left and no others: the answer without them holds exactly the items of the
/// answer with them whose quantity is above zero, each as it is there.
pub proof fn lemma_available_items(
    stock: StockImpl,
    store: Store,
    all: Seq<ItemView>,
    available: Seq<ItemView>,
)
    requires
        shows(stock.inventory(store), true, all),
        shows(stock.inventory(store), false, available),
    ensures
        available.to_set() == all.to_set().filter(|item: ItemView| item.quantity > 0),
        forall|item: ItemView|
            available.contains(item) <==> all.contains(item) && item.quantity > 0,
{
    let inventory = stock.inventory(store);
    assert forall|item: ItemView|
        available.contains(item) <==> all.contains(item) && item.quantity > 0 by {
        assert(available.contains(item) <==> listed(inventory, false).contains(item));
        assert(all.contains(item) <==> listed(inventory, true).contains(item));
    }
}

/// A store that nothing was registered for has no items, whether or not
/// unavailable items are asked for.
pub proof fn lemma_unknown_store(
    stock: StockImpl,
    store: Store,
    show_unavailable: bool,
    items: Seq<ItemView>,
)
    requires
        !stock@.dom().contains(store),
        shows(stock.inventory(store), show_unavailable, items),
    ensures
        items == Seq::<ItemView>::empty(),
{
    // An item of the answer would be listed by an inventory that has none.
    if items.len() > 0 {
        assert(items.to_set().contains(items[0]));
    }
}

} // verus!
