use stock::grpc::client::generate_list_request;
use stock::grpc::{Handler, Service};
use stock::proto::{AvailabilityDescription, Item, StockRequest, StockResponse, Store};
use stock::{Product, Stock, StockImpl};

#[derive(Clone)]
struct StockMock {
    resp: Vec<Item>,
}

impl Stock for StockMock {
    fn get(&self, _: Store, _: bool) -> Vec<Item> {
        self.resp.clone()
    }
}

#[test]
fn test_generate_list_request() {
    assert_eq!(
        generate_list_request(Store::BERLIN_DE, true).get_store(),
        Store::BERLIN_DE
    );
    assert_eq!(
        generate_list_request(Store::VENEZA_IT, true).get_store(),
        Store::VENEZA_IT
    );
    assert_eq!(
        generate_list_request(Store::BERLIN_DE, true).get_display_unavailable_items(),
        true
    );
    assert_eq!(
        generate_list_request(Store::VENEZA_IT, false).get_display_unavailable_items(),
        false
    );
}

#[test]
fn test_handler() {
    let mut item = Item::new();
    item.name = String::from("Laptop UltraPower");
    item.brand = String::from("GNUFoundation");
    item.category = String::from("computers/desktop-computers");
    item.quantity = 4;
    item.availability_description = AvailabilityDescription::AVAILABLE;

    let mut item2 = Item::new();
    item2.name = String::from("Laptop air");
    item2.brand = String::from("AbCorp");
    item2.category = String::from("computers/laptops");
    item2.quantity = 8;
    item.availability_description = AvailabilityDescription::AVAILABLE;

    let expected_items = vec![item, item2];

    let handler = Handler::new(StockMock {
        resp: expected_items.clone(),
    });

    let mut request = StockRequest::new();
    request.set_store(Store::BERLIN_DE);

    let mut response = StockResponse::new();
    response.set_items(protobuf::RepeatedField::from_vec(expected_items));

    assert_eq!(handler.handle(request), response);
}

#[test]
fn request_is_read_as_it_was_built() {
    for store in [Store::BERLIN_DE, Store::VENEZA_IT] {
        for flag in [false, true] {
            let req = generate_list_request(store, flag);
            assert_eq!(req.get_store(), store);
            assert_eq!(req.get_display_unavailable_items(), flag);
            assert_eq!(req.store, store);
            assert_eq!(req.display_unavailable_items, flag);
        }
    }
}

#[test]
fn new_request_asks_the_default_store_for_available_items() {
    let req = StockRequest::new();
    assert_eq!(req.get_store(), Store::BERLIN_DE);
    assert_eq!(req.get_store(), Store::default());
    assert_eq!(req.get_display_unavailable_items(), false);
}

#[test]
fn request_setters_change_one_field_each() {
    let mut req = StockRequest::new();
    req.set_display_unavailable_items(true);
    assert_eq!(req.get_store(), Store::BERLIN_DE);
    assert_eq!(req.get_display_unavailable_items(), true);
    req.set_store(Store::VENEZA_IT);
    assert_eq!(req.get_store(), Store::VENEZA_IT);
    assert_eq!(req.get_display_unavailable_items(), true);
}

#[test]
fn new_response_holds_no_items() {
    let resp = StockResponse::new();
    assert_eq!(resp.items.len(), 0);
    assert!(resp.get_items().is_empty());
}

#[test]
fn response_lends_the_items_it_was_given() {
    let mut first = Item::new();
    first.name = String::from("Model 3");
    first.quantity = 2;
    let mut second = Item::new();
    second.name = String::from("Laptop air");
    second.quantity = 0;
    second.availability_description = AvailabilityDescription::UNAVAILABLE;

    let mut resp = StockResponse::new();
    resp.set_items(protobuf::RepeatedField::from_vec(vec![
        first.clone(),
        second.clone(),
    ]));
    assert_eq!(resp.get_items(), &[first, second][..]);
}

#[test]
fn handler_hands_on_the_mock_answer_in_its_order() {
    let mut first = Item::new();
    first.name = String::from("b");
    let mut second = Item::new();
    second.name = String::from("a");
    let handler = Handler::new(StockMock {
        resp: vec![first.clone(), second.clone()],
    });
    let resp = handler.handle(generate_list_request(Store::VENEZA_IT, true));
    assert_eq!(resp.get_items(), &[first, second][..]);
}

#[test]
fn handler_answers_from_the_stock() {
    let mut stock = StockImpl::new();
    stock.register(
        Product::new("Laptop air", "AbCorp", "computers/laptops"),
        Store::BERLIN_DE,
        8,
    );
    stock.register(Product::new("Model 3", "Tesla", "cars"), Store::BERLIN_DE, 0);
    let handler = Handler::new(stock);

    let shown = handler.handle(generate_list_request(Store::BERLIN_DE, false));
    assert_eq!(shown.get_items().len(), 1);
    assert_eq!(shown.get_items()[0].name, "Laptop air");
    assert_eq!(shown.get_items()[0].brand, "AbCorp");
    assert_eq!(shown.get_items()[0].category, "computers/laptops");
    assert_eq!(shown.get_items()[0].quantity, 8);
    assert_eq!(
        shown.get_items()[0].availability_description,
        AvailabilityDescription::AVAILABLE
    );

    let all = handler.handle(generate_list_request(Store::BERLIN_DE, true));
    assert_eq!(all.get_items().len(), 2);

    let other = handler.handle(generate_list_request(Store::VENEZA_IT, true));
    assert_eq!(other, StockResponse::new());
}

#[test]
fn service_answers_as_its_handler_does() {
    let mut stock = StockImpl::new();
    stock.register(
        Product::new("SantosDumond watch Active2", "EvilCorp", "wearables/smartwatches"),
        Store::VENEZA_IT,
        3,
    );
    let handler = Handler::new(stock);
    let service = Service::new(handler.clone());
    for store in [Store::BERLIN_DE, Store::VENEZA_IT] {
        for flag in [false, true] {
            let req = generate_list_request(store, flag);
            assert_eq!(service.list_items(req), handler.handle(req));
        }
    }
    let resp = service.clone().list_items(generate_list_request(Store::VENEZA_IT, false));
    assert_eq!(resp.get_items().len(), 1);
    assert_eq!(resp.get_items()[0].name, "SantosDumond watch Active2");
    assert_eq!(resp.get_items()[0].quantity, 3);
}
