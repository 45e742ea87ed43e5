//! The products of one store and how many of each it has, and the items in
//! which a store's products are shown.
//!
//! An inventory is a map from products to quantities. It is kept as a list of
//! entries in which no product occurs twice, so that a product has one
//! quantity and registering it again can only replace that quantity.

use crate::proto::{availability_of, item_views, AvailabilityDescription, Item, ItemView};
use crate::{Product, ProductView};
use vstd::prelude::*;

verus! {

/// The item that shows a product of which a store has `quantity`.
pub open spec fn item_of(product: ProductView, quantity: u32) -> ItemView {
    ItemView {
        name: product.name,
        brand: product.brand,
        category: product.category,
        quantity,
        availability_description: availability_of(quantity),
    }
}

/// The product that an item shows.
pub open spec fn product_of(item: ItemView) -> ProductView {
    ProductView { name: item.name, brand: item.brand, category: item.category }
}

/// Whether `item` shows a product of the inventory with the quantity that the
/// inventory has of it, and may be shown: an item of which nothing is left is
/// shown only where unavailable items are asked for.
pub open spec fn lists(
    inventory: Map<ProductView, u32>,
    show_unavailable: bool,
    item: ItemView,
) -> bool {
    &&& inventory.dom().contains(product_of(item))
    &&& item == item_of(product_of(item), inventory[product_of(item)])
    &&& (show_unavailable || item.quantity > 0)
}

/// The items in which an inventory is shown.
pub open spec fn listed(inventory: Map<ProductView, u32>, show_unavailable: bool) -> Set<
    ItemView,
> {
    Set::new(|item: ItemView| lists(inventory, show_unavailable, item))
}

/// Whether `items` shows an inventory: each item that the inventory lists
/// occurs in it once, and nothing else does. The order is free.
pub open spec fn shows(
    inventory: Map<ProductView, u32>,
    show_unavailable: bool,
    items: Seq<ItemView>,
) -> bool {
    &&& items.no_duplicates()
    &&& items.to_set() == listed(inventory, show_unavailable)
}

/// The views of a run of products with their quantities, in the same order.
pub open spec fn pair_views(pairs: Seq<(Product, u32)>) -> Seq<(ProductView, u32)> {
    Seq::new(pairs.len(), |i: int| (pairs[i].0@, pairs[i].1))
}

/// Whether `pairs` tells an inventory: each product of the inventory occurs
/// in it once, with the quantity that the inventory has of it, and nothing
/// else does. The order is free.
pub open spec fn tells(inventory: Map<ProductView, u32>, pairs: Seq<(ProductView, u32)>) -> bool {
    &&& pairs.no_duplicates()
    &&& pairs.to_set() == Set::new(
        |pair: (ProductView, u32)| inventory.contains_pair(pair.0, pair.1),
    )
}

/// A product and how many of it are there.
struct Entry {
    product: Product,
    quantity: u32,
}

/// Whether no product has two entries.
spec fn distinct(entries: Seq<Entry>) -> bool {
    forall|i: int, j: int|
        0 <= i < j < entries.len() ==> (#[trigger] entries[i]).product@ != (
        #[trigger] entries[j]).product@
}

/// Whether `product` has the entry at `i`.
spec fn entry_at(entries: Seq<Entry>, product: ProductView, i: int) -> bool {
    0 <= i < entries.len() && entries[i].product@ == product
}

/// Whether `product` has an entry.
spec fn holds(entries: Seq<Entry>, product: ProductView) -> bool {
    exists|i: int| entry_at(entries, product, i)
}

/// The quantities that the entries give to their products.
spec fn quantities(entries: Seq<Entry>) -> Map<ProductView, u32> {
    Map::new(
        |product: ProductView| holds(entries, product),
        |product: ProductView| entries[choose|i: int| entry_at(entries, product, i)].quantity,
    )
}

/// Whether an entry is shown: one of which nothing is left is shown only
/// where unavailable items are asked for.
spec fn shown(entry: Entry, show_unavailable: bool) -> bool {
    show_unavailable || entry.quantity > 0
}

/// The items of the entries that are shown, in the entries' order.
spec fn listing(entries: Seq<Entry>, show_unavailable: bool) -> Seq<ItemView>
    decreases entries.len(),
{
    if entries.len() == 0 {
        Seq::empty()
    } else {
        let before = listing(entries.drop_last(), show_unavailable);
        let entry = entries.last();
        if shown(entry, show_unavailable) {
            before.push(item_of(entry.product@, entry.quantity))
        } else {
            before
        }
    }
}

/// Each entry gives its quantity to its product.
proof fn lemma_quantity_at(entries: Seq<Entry>, i: int)
    requires
        distinct(entries),
        0 <= i < entries.len(),
    ensures
        quantities(entries).dom().contains(entries[i].product@),
        quantities(entries)[entries[i].product@] == entries[i].quantity,
{
    // The product has the entry at `i` and, as no product has two, no other.
    assert(entry_at(entries, entries[i].product@, i));
}

/// An entry put in the place of the product's own, or put behind the others
/// where the product had none, gives its quantity to its product and leaves
/// the other products as they were.
proof fn lemma_entry_placed(entries: Seq<Entry>, after: Seq<Entry>, i: int, entry: Entry)
    requires
        distinct(entries),
        0 <= i <= entries.len(),
        i < entries.len() ==> entries[i].product@ == entry.product@ && after == entries.update(
            i,
            entry,
        ),
        i == entries.len() ==> !holds(entries, entry.product@) && after == entries.push(entry),
    ensures
        distinct(after),
        quantities(after) == quantities(entries).insert(entry.product@, entry.quantity),
{
    assert forall|a: int, b: int| 0 <= a < b < after.len() implies (#[trigger] after[a]).product@
        != (#[trigger] after[b]).product@ by {
        if b == entries.len() {
            assert(!entry_at(entries, entry.product@, a));
        }
    }
    let want = quantities(entries).insert(entry.product@, entry.quantity);
    assert forall|product: ProductView| #[trigger]
        quantities(after).dom().contains(product) implies want.dom().contains(product)
        && quantities(after)[product] == want[product] by {
        let k = choose|k: int| entry_at(after, product, k);
        lemma_quantity_at(after, k);
        if k != i {
            lemma_quantity_at(entries, k);
        }
    }
    assert forall|product: ProductView| #[trigger]
        want.dom().contains(product) implies quantities(after).dom().contains(product) by {
        if product == entry.product@ {
            assert(entry_at(after, product, i));
        } else {
            let k = choose|k: int| entry_at(entries, product, k);
            assert(entry_at(after, product, k));
        }
    }
}

/// Entries that agree one by one on product and quantity give the same
/// quantities.
proof fn lemma_same_quantities(entries: Seq<Entry>, others: Seq<Entry>)
    requires
        distinct(entries),
        others.len() == entries.len(),
        forall|k: int|
            0 <= k < entries.len() ==> (#[trigger] others[k]).product@ == entries[k].product@
                && others[k].quantity == entries[k].quantity,
    ensures
        distinct(others),
        quantities(others) == quantities(entries),
{
    assert forall|product: ProductView| #[trigger]
        quantities(others).dom().contains(product) implies quantities(entries).dom().contains(
        product,
    ) && quantities(others)[product] == quantities(entries)[product] by {
        let k = choose|k: int| entry_at(others, product, k);
        lemma_quantity_at(others, k);
        lemma_quantity_at(entries, k);
    }
    assert forall|product: ProductView| #[trigger]
        quantities(entries).dom().contains(product) implies quantities(others).dom().contains(
        product,
    ) by {
        let k = choose|k: int| entry_at(entries, product, k);
        assert(entry_at(others, product, k));
    }
}

/// An item is in the listing exactly when it is the item of a shown entry.
proof fn lemma_listing_items(entries: Seq<Entry>, show_unavailable: bool)
    ensures
        forall|i: int|
            0 <= i < entries.len() && shown(#[trigger] entries[i], show_unavailable)
                ==> listing(entries, show_unavailable).contains(
                item_of(entries[i].product@, entries[i].quantity),
            ),
        forall|item: ItemView| #[trigger]
            listing(entries, show_unavailable).contains(item) ==> exists|i: int|
                0 <= i < entries.len() && shown(#[trigger] entries[i], show_unavailable) && item
                    == item_of(entries[i].product@, entries[i].quantity),
    decreases entries.len(),
{
    if entries.len() > 0 {
        let front = entries.drop_last();
        let before = listing(front, show_unavailable);
        let all = listing(entries, show_unavailable);
        lemma_listing_items(front, show_unavailable);
        assert forall|i: int|
            0 <= i < entries.len() && shown(
                #[trigger] entries[i],
                show_unavailable,
            ) implies all.contains(item_of(entries[i].product@, entries[i].quantity)) by {
            let item = item_of(entries[i].product@, entries[i].quantity);
            if i < front.len() {
                assert(front[i] == entries[i]);
                let k = choose|k: int| 0 <= k < before.len() && before[k] == item;
                assert(all[k] == item);
            } else {
                assert(all[before.len() as int] == item);
            }
        }
        assert forall|item: ItemView| #[trigger] all.contains(item) implies exists|i: int|
            0 <= i < entries.len() && shown(#[trigger] entries[i], show_unavailable) && item
                == item_of(entries[i].product@, entries[i].quantity) by {
            let k = choose|k: int| 0 <= k < all.len() && all[k] == item;
            if k < before.len() {
                assert(before.contains(item));
                let i = choose|i: int|
                    0 <= i < front.len() && shown(#[trigger] front[i], show_unavailable) && item
                        == item_of(front[i].product@, front[i].quantity);
                assert(entries[i] == front[i]);
            } else {
                assert(entries[entries.len() - 1] == entries.last());
            }
        }
    }
}

/// Where no product has two entries, no item is twice in the listing.
proof fn lemma_listing_no_duplicates(entries: Seq<Entry>, show_unavailable: bool)
    requires
        distinct(entries),
    ensures
        listing(entries, show_unavailable).no_duplicates(),
    decreases entries.len(),
{
    if entries.len() > 0 {
        let front = entries.drop_last();
        let entry = entries.last();
        let before = listing(front, show_unavailable);
        assert(distinct(front)) by {
            assert forall|i: int, j: int| 0 <= i < j < front.len() implies (
            #[trigger] front[i]).product@ != (#[trigger] front[j]).product@ by {
                assert(front[i] == entries[i] && front[j] == entries[j]);
            }
        }
        lemma_listing_no_duplicates(front, show_unavailable);
        if shown(entry, show_unavailable) {
            // The last entry's item shows a product that no entry before it
            // has, so it is not in the listing of those.
            let item = item_of(entry.product@, entry.quantity);
            lemma_listing_items(front, show_unavailable);
            if before.contains(item) {
                let i = choose|i: int|
                    0 <= i < front.len() && shown(#[trigger] front[i], show_unavailable) && item
                        == item_of(front[i].product@, front[i].quantity);
                assert(front[i] == entries[i]);
                assert(entries[i].product@ == product_of(item));
                assert(entries[entries.len() - 1].product@ == product_of(item));
                assert(false);
            }
        }
    }
}

/// Where no product has two entries, the listing shows the quantities.
proof fn lemma_listing_shows(entries: Seq<Entry>, show_unavailable: bool)
    requires
        distinct(entries),
    ensures
        shows(quantities(entries), show_unavailable, listing(entries, show_unavailable)),
{
    let all = listing(entries, show_unavailable);
    let inventory = quantities(entries);
    lemma_listing_no_duplicates(entries, show_unavailable);
    lemma_listing_items(entries, show_unavailable);
    assert forall|item: ItemView| all.to_set().contains(item) <==> listed(
        inventory,
        show_unavailable,
    ).contains(item) by {
        if all.contains(item) {
            let i = choose|i: int|
                0 <= i < entries.len() && shown(#[trigger] entries[i], show_unavailable) && item
                    == item_of(entries[i].product@, entries[i].quantity);
            lemma_quantity_at(entries, i);
        }
        if lists(inventory, show_unavailable, item) {
            let i = choose|i: int| entry_at(entries, product_of(item), i);
            lemma_quantity_at(entries, i);
        }
    }
    assert(all.to_set() =~= listed(inventory, show_unavailable));
}

/// The products of one store, each with one entry.
pub(crate) struct Inventory {
    entries: Vec<Entry>,
}

impl View for Inventory {
    type V = Map<ProductView, u32>;

    closed spec fn view(&self) -> Map<ProductView, u32> {
        quantities(self.entries@)
    }
}

impl Inventory {
    #[verifier::type_invariant]
    spec fn well_formed(&self) -> bool {
        distinct(self.entries@)
    }

    /// An inventory without products.
    pub(crate) fn new() -> (inventory: Inventory)
        ensures
            inventory@ == Map::<ProductView, u32>::empty(),
    {
        let inventory = Inventory { entries: Vec::new() };
        assert(inventory@ =~= Map::<ProductView, u32>::empty()) by {
            assert forall|product: ProductView| !holds(inventory.entries@, product) by {
                assert forall|i: int| !entry_at(inventory.entries@, product, i) by {}
            }
        }
        inventory
    }

    /// Where the entry of `product` is, if it has one.
    fn find(&self, product: &Product) -> (found: Option<usize>)
        ensures
            match found {
                Some(i) => entry_at(self.entries@, product@, i as int),
                None => !holds(self.entries@, product@),
            },
    {
        let mut i: usize = 0;
        while i < self.entries.len()
            invariant
                i <= self.entries.len(),
                forall|k: int| 0 <= k < i ==> !entry_at(self.entries@, product@, k),
            decreases self.entries.len() - i,
        {
            if self.entries[i].product == *product {
                return Some(i);
            }
            i += 1;
        }
        None
    }

    /// How many of `product` are there, if the product is known.
    pub(crate) fn quantity(&self, product: &Product) -> (quantity: Option<u32>)
        ensures
            quantity == if self@.dom().contains(product@) {
                Some(self@[product@])
            } else {
                None
            },
    {
        proof {
            use_type_invariant(self);
        }
        match self.find(product) {
            Some(i) => {
                proof {
                    lemma_quantity_at(self.entries@, i as int);
                }
                Some(self.entries[i].quantity)
            },
            None => None,
        }
    }

    /// Sets how many of `product` are there, whether or not the product was
    /// known before. An earlier quantity is forgotten.
    pub(crate) fn put(&mut self, product: Product, quantity: u32)
        ensures
            final(self)@ == old(self)@.insert(product@, quantity),
    {
        proof {
            use_type_invariant(&*self);
        }
        let found = self.find(&product);
        // The entries are changed outside the inventory and put back whole,
        // so that the inventory never holds a product twice.
        let mut entries: Vec<Entry> = Vec::new();
        std::mem::swap(&mut self.entries, &mut entries);
        let ghost before = entries@;
        let entry = Entry { product, quantity };
        match found {
            Some(i) => {
                proof {
                    lemma_entry_placed(before, before.update(i as int, entry), i as int, entry);
                }
                entries.set(i, entry);
            },
            None => {
                proof {
                    lemma_entry_placed(before, before.push(entry), before.len() as int, entry);
                }
                entries.push(entry);
            },
        }
        self.entries = entries;
    }

    /// The items that show the inventory, one for each product that is shown.
    pub(crate) fn items(&self, show_unavailable: bool) -> (items: Vec<Item>)
        ensures
            shows(self@, show_unavailable, item_views(items@)),
    {
        let mut items: Vec<Item> = Vec::new();
        let mut i: usize = 0;
        assert(self.entries@.take(0) =~= Seq::<Entry>::empty());
        while i < self.entries.len()
            invariant
                i <= self.entries.len(),
                item_views(items@) == listing(self.entries@.take(i as int), show_unavailable),
            decreases self.entries.len() - i,
        {
            let entry = &self.entries[i];
            proof {
                let upto = self.entries@.take(i + 1);
                assert(upto.drop_last() =~= self.entries@.take(i as int));
                assert(upto.last() == *entry);
            }
            if show_unavailable || entry.quantity > 0 {
                let item = Item {
                    name: entry.product.name().to_owned(),
                    brand: entry.product.brand().to_owned(),
                    category: entry.product.category().to_owned(),
                    quantity: entry.quantity,
                    availability_description: AvailabilityDescription::classify(entry.quantity),
                };
                let ghost before = item_views(items@);
                items.push(item);
                assert(item_views(items@) =~= before.push(
                    item_of(entry.product@, entry.quantity),
                ));
            }
            i += 1;
        }
        proof {
            use_type_invariant(self);
            assert(self.entries@.take(i as int) =~= self.entries@);
            lemma_listing_shows(self.entries@, show_unavailable);
        }
        items
    }

    /// The products with their quantities.
    pub(crate) fn pairs(&self) -> (pairs: Vec<(Product, u32)>)
        ensures
            tells(self@, pair_views(pairs@)),
    {
        let mut pairs: Vec<(Product, u32)> = Vec::new();
        let mut i: usize = 0;
        while i < self.entries.len()
            invariant
                i <= self.entries.len(),
                pairs.len() == i,
                forall|k: int|
                    0 <= k < i ==> (#[trigger] pairs[k]).0@ == self.entries[k].product@ && pairs[k].1
                        == self.entries[k].quantity,
            decreases self.entries.len() - i,
        {
            let entry = &self.entries[i];
            pairs.push((entry.product.clone(), entry.quantity));
            i += 1;
        }
        proof {
            use_type_invariant(self);
            let entries = self.entries@;
            let told = pair_views(pairs@);
            assert(told.no_duplicates()) by {
                assert forall|a: int, b: int|
                    0 <= a < told.len() && 0 <= b < told.len() && a != b implies told[a]
                    != told[b] by {
                    assert(told[a].0 == entries[a].product@ && told[b].0 == entries[b].product@);
                }
            }
            assert forall|pair: (ProductView, u32)|
                told.contains(pair) <==> self@.contains_pair(pair.0, pair.1) by {
                if told.contains(pair) {
                    let k = choose|k: int| 0 <= k < told.len() && told[k] == pair;
                    lemma_quantity_at(entries, k);
                }
                if self@.contains_pair(pair.0, pair.1) {
                    let k = choose|k: int| entry_at(entries, pair.0, k);
                    lemma_quantity_at(entries, k);
                    assert(told[k] == pair);
                }
            }
            assert(told.to_set() =~= Set::new(
                |pair: (ProductView, u32)| self@.contains_pair(pair.0, pair.1),
            ));
        }
        pairs
    }
}

impl Clone for Inventory {
    fn clone(&self) -> (copy: Self)
        ensures
            copy@ == self@,
    {
        let mut entries: Vec<Entry> = Vec::new();
        let mut i: usize = 0;
        while i < self.entries.len()
            invariant
                i <= self.entries.len(),
                entries.len() == i,
                forall|k: int|
                    0 <= k < i ==> (#[trigger] entries[k]).product@ == self.entries[k].product@
                        && entries[k].quantity == self.entries[k].quantity,
            decreases self.entries.len() - i,
        {
            let entry = &self.entries[i];
            entries.push(Entry { product: entry.product.clone(), quantity: entry.quantity });
            i += 1;
        }
        proof {
            use_type_invariant(self);
            lemma_same_quantities(self.entries@, entries@);
        }
        Inventory { entries }
    }
}

} // verus!
