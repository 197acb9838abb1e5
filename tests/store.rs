use carmux::store::{default_car_id, CarStore, MemCarStore, StoreError};

#[test]
fn test_create_car() {
    let mut cars = MemCarStore::init();
    let nid = CarStore::create_car(&mut cars, "BYD".to_owned(), "Han".to_owned(), 2020)
        .expect("should return new row id in cars table");
    CarStore::get_car(&cars, nid).expect("should return the new created car");
    CarStore::get_all_cars(&cars).expect("list cars should be ok");
    CarStore::delete_car(&mut cars, nid).expect("delete the new created car");
}

#[test]
fn test_delete_car() {
    let mut cars = MemCarStore::init();
    println!(
        "{:?}{:?}",
        CarStore::create_car(&mut cars, "BYD".to_owned(), "Han".to_owned(), 2020),
        CarStore::create_car(&mut cars, "Tesla".to_owned(), "Mode X".to_owned(), 2015)
    );
    let all = CarStore::get_all_cars(&cars).expect("list car should be ok");
    assert!(all.len() >= 2);
    CarStore::delete_all_cars(&mut cars).expect("delete all cars should be ok");
}

#[test]
fn init_holds_three_cars() {
    let cars = MemCarStore::init();
    let all = cars.get_all_cars();
    assert_eq!(all.len(), 3);
    assert_eq!(all[1].brand, "Hyundai");
    assert_eq!(all[1].model, "Santa Fe");
    assert_eq!(all[2].year, 2015);
    assert_eq!(default_car_id(), 0);
}

#[test]
fn ids_count_up_and_restart() {
    let mut cars = MemCarStore::init();
    assert_eq!(cars.create_car("a".to_owned(), "b".to_owned(), 1), 4);
    assert_eq!(cars.create_car("c".to_owned(), "d".to_owned(), 2), 5);
    cars.delete_all_cars();
    assert!(cars.get_all_cars().is_empty());
    assert_eq!(cars.create_car("e".to_owned(), "f".to_owned(), 3), 1);
}

#[test]
fn missing_car_errors() {
    let mut cars = MemCarStore::init();
    match cars.get_car(9) {
        Err(StoreError::NotFound(m)) => assert_eq!(m, "car with id=9 not found"),
        _ => panic!("expected not found"),
    }
    assert!(matches!(cars.delete_car(9), Err(StoreError::NotFound(_))));
    assert!(cars.delete_car(2).is_ok());
    assert!(matches!(cars.get_car(2), Err(StoreError::NotFound(_))));
    assert_eq!(cars.get_all_cars().len(), 2);
}
