use store_inventory::inventory::{Inventory, InventoryError};
use store_inventory::price::Price;
use store_inventory::product::Product;

fn pen() -> Product {
    Product::new("Pen".to_string(), "blue ink".to_string(), Price::new(150, -2), 10)
}

fn mug() -> Product {
    Product::new("Mug".to_string(), "ceramic".to_string(), Price::new(500, -2), 4)
}

fn is_pen(p: &Product) -> bool {
    p.name() == "Pen"
        && p.description() == "blue ink"
        && p.price() == Price::new(150, -2)
        && p.quantity() == 10
}

fn is_mug(p: &Product) -> bool {
    p.name() == "Mug"
        && p.description() == "ceramic"
        && p.price() == Price::new(500, -2)
        && p.quantity() == 4
}

#[test]
fn new_ledger_is_empty() {
    let ledger = Inventory::new();
    assert_eq!(ledger.len(), 0);
    assert!(ledger.get(0).is_none());
}

#[test]
fn add_then_delete_first_leaves_second_at_zero() {
    let mut ledger = Inventory::new();
    ledger.add_product(pen());
    ledger.add_product(mug());
    let removed = ledger.delete_product(0).unwrap();
    assert!(is_pen(&removed));
    assert_eq!(ledger.len(), 1);
    assert!(is_mug(ledger.get(0).unwrap()));
    assert!(ledger.get(1).is_none());
}

#[test]
fn edit_out_of_range_is_refused_and_changes_nothing() {
    let mut ledger = Inventory::new();
    ledger.add_product(pen());
    ledger.add_product(mug());
    let before = ledger.generate_report();
    let replacement = Product::new("Cup".to_string(), "paper".to_string(), Price::new(1, 0), 1);
    assert_eq!(ledger.edit_product(5, replacement), Err(InventoryError::InvalidIndex));
    assert_eq!(ledger.len(), 2);
    assert!(is_pen(ledger.get(0).unwrap()));
    assert!(is_mug(ledger.get(1).unwrap()));
    assert_eq!(ledger.generate_report(), before);
}

#[test]
fn report_of_empty_ledger_is_the_two_header_lines() {
    let ledger = Inventory::new();
    assert_eq!(
        ledger.generate_report(),
        "Inventory Report\nName\tDescription\tPrice\tQuantity\n"
    );
}

#[test]
fn report_lists_products_in_order() {
    let mut ledger = Inventory::new();
    ledger.add_product(pen());
    ledger.add_product(mug());
    assert_eq!(
        ledger.generate_report(),
        "Inventory Report\nName\tDescription\tPrice\tQuantity\nPen\tblue ink\t1.5\t10\nMug\tceramic\t5\t4\n"
    );
}

#[test]
fn add_puts_the_product_at_the_old_length() {
    let mut ledger = Inventory::new();
    ledger.add_product(pen());
    assert_eq!(ledger.len(), 1);
    assert!(is_pen(ledger.get(0).unwrap()));
    ledger.add_product(mug());
    assert_eq!(ledger.len(), 2);
    assert!(is_pen(ledger.get(0).unwrap()));
    assert!(is_mug(ledger.get(1).unwrap()));
}

#[test]
fn edit_then_read_gives_the_new_product() {
    let mut ledger = Inventory::new();
    ledger.add_product(pen());
    ledger.add_product(pen());
    assert_eq!(ledger.edit_product(1, mug()), Ok(()));
    assert_eq!(ledger.len(), 2);
    assert!(is_pen(ledger.get(0).unwrap()));
    assert!(is_mug(ledger.get(1).unwrap()));
}

#[test]
fn edit_at_the_length_is_refused() {
    let mut ledger = Inventory::new();
    ledger.add_product(pen());
    assert_eq!(ledger.edit_product(1, mug()), Err(InventoryError::InvalidIndex));
    assert_eq!(ledger.len(), 1);
    assert!(is_pen(ledger.get(0).unwrap()));
}

#[test]
fn edit_and_delete_on_an_empty_ledger_are_refused() {
    let mut ledger = Inventory::new();
    assert_eq!(ledger.edit_product(0, pen()), Err(InventoryError::InvalidIndex));
    assert!(matches!(ledger.delete_product(0), Err(InventoryError::InvalidIndex)));
    assert_eq!(ledger.len(), 0);
}

#[test]
fn delete_out_of_range_is_refused_and_changes_nothing() {
    let mut ledger = Inventory::new();
    ledger.add_product(pen());
    ledger.add_product(mug());
    let before = ledger.generate_report();
    assert!(matches!(ledger.delete_product(2), Err(InventoryError::InvalidIndex)));
    assert!(matches!(ledger.delete_product(usize::MAX), Err(InventoryError::InvalidIndex)));
    assert_eq!(ledger.len(), 2);
    assert_eq!(ledger.generate_report(), before);
}

#[test]
fn delete_in_the_middle_moves_later_products_down() {
    let mut ledger = Inventory::new();
    for quantity in 0..5u32 {
        ledger.add_product(Product::new(
            format!("item{}", quantity),
            "x".to_string(),
            Price::new(1, 0),
            quantity,
        ));
    }
    let removed = ledger.delete_product(1).unwrap();
    assert_eq!(removed.name(), "item1");
    assert_eq!(removed.quantity(), 1);
    assert_eq!(ledger.len(), 4);
    let left: Vec<u32> = (0..4).map(|i| ledger.get(i).unwrap().quantity()).collect();
    assert_eq!(left, vec![0, 2, 3, 4]);
}

#[test]
fn delete_last_keeps_the_others() {
    let mut ledger = Inventory::new();
    ledger.add_product(pen());
    ledger.add_product(mug());
    let removed = ledger.delete_product(1).unwrap();
    assert!(is_mug(&removed));
    assert_eq!(ledger.len(), 1);
    assert!(is_pen(ledger.get(0).unwrap()));
}

#[test]
fn invalid_index_has_its_message() {
    assert_eq!(InventoryError::InvalidIndex.message(), "Invalid index");
}

#[test]
fn report_line_has_four_fields_and_a_line_feed() {
    assert_eq!(pen().report_line(), "Pen\tblue ink\t1.5\t10\n");
    let odd = Product::new(String::new(), "a\tb".to_string(), Price::new(0, 0), 0);
    assert_eq!(odd.report_line(), "\ta\tb\t0\t0\n");
    let most = Product::new("m".to_string(), "d".to_string(), Price::new(5, -3), u32::MAX);
    assert_eq!(most.report_line(), "m\td\t0.005\t4294967295\n");
}

#[test]
fn report_after_edit_and_delete_follows_the_ledger() {
    let mut ledger = Inventory::new();
    ledger.add_product(pen());
    ledger.add_product(mug());
    ledger.edit_product(0, mug()).unwrap();
    assert_eq!(
        ledger.generate_report(),
        "Inventory Report\nName\tDescription\tPrice\tQuantity\nMug\tceramic\t5\t4\nMug\tceramic\t5\t4\n"
    );
    ledger.delete_product(0).unwrap();
    ledger.delete_product(0).unwrap();
    assert_eq!(
        ledger.generate_report(),
        "Inventory Report\nName\tDescription\tPrice\tQuantity\n"
    );
}

#[test]
fn prompt_deletes_at_the_position_that_the_line_names() {
    let mut ledger = Inventory::new();
    ledger.add_product(pen());
    ledger.add_product(mug());
    let removed = ledger.delete_product_prompt(" 1\n").unwrap();
    assert!(is_mug(&removed));
    assert_eq!(ledger.len(), 1);
    let removed = ledger.delete_product_prompt("+0\r\n").unwrap();
    assert!(is_pen(&removed));
    assert_eq!(ledger.len(), 0);
}

#[test]
fn prompt_refuses_what_names_no_position() {
    let mut ledger = Inventory::new();
    ledger.add_product(pen());
    for line in ["", "\n", "one\n", "-1\n", "1 0\n", "1.0\n", "99999999999999999999999\n", "1\n"] {
        assert!(matches!(
            ledger.delete_product_prompt(line),
            Err(InventoryError::InvalidIndex)
        ));
        assert_eq!(ledger.len(), 1);
        assert!(is_pen(ledger.get(0).unwrap()));
    }
}
