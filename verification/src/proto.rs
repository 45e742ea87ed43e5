//! The values exchanged with a client of the stock service: the store that a
//! query names, the query itself, and the items that answer it.

use vstd::prelude::*;

verus! {

/// A sales location. The set of stores is closed: a store is one of these and
/// nothing else.
#[allow(non_camel_case_types)]
#[derive(Clone, Copy, Debug, PartialEq, Eq, Hash, Structural)]
pub enum Store {
    BERLIN_DE,
    VENEZA_IT,
}

/// Why a text was not accepted as the name of a store: it names none of them.
#[derive(Clone, Copy, Debug, PartialEq, Eq, Structural)]
pub struct InvalidStore;

/// The name under which a store is written and read.
pub open spec fn store_name(store: Store) -> Seq<char> {
    match store {
        Store::BERLIN_DE => "BERLIN_DE"@,
        Store::VENEZA_IT => "VENEZA_IT"@,
    }
}

/// Whether `text` and `name` hold the same characters.
fn spells(text: &str, name: &str) -> (same: bool)
    ensures
        same == (text@ == name@),
{
    text.to_owned() == name.to_owned()
}

impl Default for Store {
    /// The store that a query names when none was chosen.
    fn default() -> (store: Store)
        ensures
            store == Store::BERLIN_DE,
    {
        Store::BERLIN_DE
    }
}

impl Store {
    /// Reads the name of a store. A text is accepted exactly when it is the
    /// name of a store, letter for letter, and then gives that store.
    pub fn from_str(s: &str) -> (parsed: Result<Store, InvalidStore>)
        ensures
            match parsed {
                Ok(store) => s@ == store_name(store),
                Err(_) => forall|store: Store| s@ != #[trigger] store_name(store),
            },
    {
        if spells(s, "BERLIN_DE") {
            Ok(Store::BERLIN_DE)
        } else if spells(s, "VENEZA_IT") {
            Ok(Store::VENEZA_IT)
        } else {
            Err(InvalidStore)
        }
    }
}

impl std::str::FromStr for Store {
    type Err = InvalidStore;

    /// Reads the name of a store, as the function of the same name on `Store`
    /// does: a text is accepted exactly when it is the name of a store, and
    /// then gives that store.
    fn from_str(s: &str) -> (parsed: Result<Store, InvalidStore>)
        ensures
            match parsed {
                Ok(store) => s@ == store_name(store),
                Err(_) => forall|store: Store| s@ != #[trigger] store_name(store),
            },
    {
        Store::from_str(s)
    }
}

impl InvalidStore {
    /// The message shown to whoever wrote the text.
    pub fn to_string(&self) -> (message: String)
        ensures
            message@ == "Invalid store"@,
    {
        "Invalid store".to_owned()
    }
}

/// Whether anything of a product is left in a store.
#[allow(non_camel_case_types)]
#[derive(Clone, Copy, Debug, PartialEq, Eq, Hash, Structural)]
pub enum AvailabilityDescription {
    AVAILABLE,
    UNAVAILABLE,
}

/// The availability that goes with a quantity: unavailable when nothing is
/// left, available otherwise.
pub open spec fn availability_of(quantity: u32) -> AvailabilityDescription {
    if quantity == 0 {
        AvailabilityDescription::UNAVAILABLE
    } else {
        AvailabilityDescription::AVAILABLE
    }
}

impl Default for AvailabilityDescription {
    fn default() -> (availability: AvailabilityDescription)
        ensures
            availability == AvailabilityDescription::AVAILABLE,
    {
        AvailabilityDescription::AVAILABLE
    }
}

impl AvailabilityDescription {
    /// Classifies a quantity. The result depends on the quantity alone, and
    /// is `UNAVAILABLE` for zero and for nothing else.
    pub fn classify(quantity: u32) -> (availability: AvailabilityDescription)
        ensures
            availability == availability_of(quantity),
            availability == AvailabilityDescription::UNAVAILABLE <==> quantity == 0,
            availability == AvailabilityDescription::AVAILABLE <==> quantity > 0,
    {
        if quantity == 0 {
            AvailabilityDescription::UNAVAILABLE
        } else {
            AvailabilityDescription::AVAILABLE
        }
    }

    /// The word shown for the availability.
    pub fn to_string(&self) -> (word: String)
        ensures
            word@ == match *self {
                AvailabilityDescription::AVAILABLE => "AVAILABLE"@,
                AvailabilityDescription::UNAVAILABLE => "UNAVAILABLE"@,
            },
    {
        match self {
            AvailabilityDescription::AVAILABLE => "AVAILABLE".to_owned(),
            AvailabilityDescription::UNAVAILABLE => "UNAVAILABLE".to_owned(),
        }
    }
}

/// What an item is, apart from how its texts are stored.
pub struct ItemView {
    pub name: Seq<char>,
    pub brand: Seq<char>,
    pub category: Seq<char>,
    pub quantity: u32,
    pub availability_description: AvailabilityDescription,
}

/// One line of an answer: a product, how many of it a store has, and whether
/// that makes it available.
#[derive(Debug, PartialEq, Eq)]
pub struct Item {
    pub name: String,
    pub brand: String,
    pub category: String,
    pub quantity: u32,
    pub availability_description: AvailabilityDescription,
}

impl View for Item {
    type V = ItemView;

    open spec fn view(&self) -> ItemView {
        ItemView {
            name: self.name@,
            brand: self.brand@,
            category: self.category@,
            quantity: self.quantity,
            availability_description: self.availability_description,
        }
    }
}

impl Clone for Item {
    fn clone(&self) -> (copy: Self)
        ensures
            copy@ == self@,
    {
        Item {
            name: self.name.clone(),
            brand: self.brand.clone(),
            category: self.category.clone(),
            quantity: self.quantity,
            availability_description: self.availability_description,
        }
    }
}

/// The views of a run of items, in the same order.
pub open spec fn item_views(items: Seq<Item>) -> Seq<ItemView> {
    Seq::new(items.len(), |i: int| items[i]@)
}

impl Item {
    /// An item with empty texts, quantity zero and the default availability.
    pub fn new() -> (item: Item)
        ensures
            item@ == (ItemView {
                name: Seq::empty(),
                brand: Seq::empty(),
                category: Seq::empty(),
                quantity: 0,
                availability_description: AvailabilityDescription::AVAILABLE,
            }),
    {
        Item {
            name: String::new(),
            brand: String::new(),
            category: String::new(),
            quantity: 0,
            availability_description: AvailabilityDescription::AVAILABLE,
        }
    }
}

/// A query for what a store has.
#[derive(Clone, Copy, Debug, PartialEq, Eq, Structural)]
pub struct StockRequest {
    pub store: Store,
    pub display_unavailable_items: bool,
}

impl StockRequest {
    /// A query for the default store that leaves unavailable items out.
    pub fn new() -> (req: StockRequest)
        ensures
            req == (StockRequest { store: Store::BERLIN_DE, display_unavailable_items: false }),
    {
        StockRequest { store: Store::BERLIN_DE, display_unavailable_items: false }
    }

    /// The store that the query names.
    pub fn get_store(&self) -> (store: Store)
        ensures
            store == self.store,
    {
        self.store
    }

    /// Names another store and leaves the flag as it is.
    pub fn set_store(&mut self, v: Store)
        ensures
            *final(self) == (StockRequest { store: v, ..*old(self) }),
    {
        self.store = v;
    }

    /// Whether the query asks for items of which nothing is left.
    pub fn get_display_unavailable_items(&self) -> (flag: bool)
        ensures
            flag == self.display_unavailable_items,
    {
        self.display_unavailable_items
    }

    /// Sets the flag and leaves the store as it is.
    pub fn set_display_unavailable_items(&mut self, v: bool)
        ensures
            *final(self) == (StockRequest { display_unavailable_items: v, ..*old(self) }),
    {
        self.display_unavailable_items = v;
    }
}

/// Makes `protobuf::RepeatedField` known as a type. What a field holds is
/// not seen from here: it is spoken of through `repeated_items`.
#[verifier::external_type_specification]
#[verifier::external_body]
#[verifier::reject_recursive_types(T)]
pub struct ExRepeatedField<T>(protobuf::RepeatedField<T>);

/// The items that a repeated field holds, first to last. Nothing is known of
/// it but what the three functions below take on trust.
pub uninterp spec fn repeated_items(field: protobuf::RepeatedField<Item>) -> Seq<ItemView>;

/// Calls `protobuf::RepeatedField::new`. Taken on trust: the field that it
/// makes holds nothing.
#[verifier::external_body]
fn repeated_new() -> (field: protobuf::RepeatedField<Item>)
    ensures
        repeated_items(field) == Seq::<ItemView>::empty(),
{
    protobuf::RepeatedField::new()
}

/// Calls `protobuf::RepeatedField::from_vec`. Taken on trust: the field that
/// it makes holds the items of the vector, all of them and in the vector's
/// order.
#[verifier::external_body]
fn repeated_from_vec(items: Vec<Item>) -> (field: protobuf::RepeatedField<Item>)
    ensures
        repeated_items(field) == item_views(items@),
{
    protobuf::RepeatedField::from_vec(items)
}

/// Calls `protobuf::RepeatedField::as_slice`. Taken on trust: the slice that
/// it lends holds the items of the field, all of them and in the field's
/// order.
#[verifier::external_body]
fn repeated_as_slice(field: &protobuf::RepeatedField<Item>) -> (items: &[Item])
    ensures
        item_views(items@) == repeated_items(*field),
{
    field.as_slice()
}

/// The answer to a query: the items found.
#[derive(Debug, PartialEq)]
pub struct StockResponse {
    pub items: protobuf::RepeatedField<Item>,
}

impl View for StockResponse {
    type V = Seq<ItemView>;

    open spec fn view(&self) -> Seq<ItemView> {
        repeated_items(self.items)
    }
}

impl StockResponse {
    /// An answer without items.
    pub fn new() -> (resp: StockResponse)
        ensures
            resp@ == Seq::<ItemView>::empty(),
    {
        StockResponse { items: repeated_new() }
    }

    /// An answer made of the given items: all of them, in their order.
    pub fn from_items(items: Vec<Item>) -> (resp: StockResponse)
        ensures
            resp@ == item_views(items@),
    {
        let mut resp = StockResponse::new();
        resp.set_items(repeated_from_vec(items));
        resp
    }

    /// The items of the answer, in their order.
    pub fn get_items(&self) -> (items: &[Item])
        ensures
            item_views(items@) == self@,
    {
        repeated_as_slice(&self.items)
    }

    /// Puts the items of `v` in the place of those that the answer had.
    pub fn set_items(&mut self, v: protobuf::RepeatedField<Item>)
        ensures
            final(self).items == v,
            final(self)@ == repeated_items(v),
    {
        self.items = v;
    }
}

} // verus!
