use store_inventory::menu::{menu_choice, MenuChoice};
use store_inventory::text::{concatenate_strings, same_text, trim, whitespace};

#[test]
fn concatenate_strings_joins_in_order() {
    assert_eq!(concatenate_strings("Hello", " World!"), "Hello World!");
    assert_eq!(concatenate_strings("", "b"), "b");
    assert_eq!(concatenate_strings("a", ""), "a");
    assert_eq!(concatenate_strings("", ""), "");
    assert_eq!(concatenate_strings("né", "€"), "né€");
}

#[test]
fn same_text_compares_characters() {
    assert!(same_text("", ""));
    assert!(same_text("abc", "abc"));
    assert!(same_text("né€", "né€"));
    assert!(!same_text("abc", "abd"));
    assert!(!same_text("abc", "ab"));
    assert!(!same_text("", "a"));
    assert!(!same_text("é", "e"));
}

#[test]
fn whitespace_agrees_with_std() {
    for code in 0..0x11_0000u32 {
        if let Some(c) = char::from_u32(code) {
            assert_eq!(whitespace(c), c.is_whitespace());
        }
    }
}

#[test]
fn trim_takes_white_space_from_both_ends() {
    assert_eq!(trim("  a b \n"), "a b");
    assert_eq!(trim("a"), "a");
    assert_eq!(trim(""), "");
    assert_eq!(trim(" \t\r\n"), "");
    assert_eq!(trim("\u{3000}é \u{a0}"), "é");
}

#[test]
fn trim_agrees_with_std() {
    for s in ["", " ", "x", " x", "x ", " x y ", "\n\n1\n", "\u{2028}a\u{85}", "\u{200b} a", "a\u{feff}"] {
        assert_eq!(trim(s), s.trim());
    }
}

#[test]
fn menu_choice_knows_seven_answers() {
    assert_eq!(menu_choice("1"), MenuChoice::AddProduct);
    assert_eq!(menu_choice("2"), MenuChoice::EditProduct);
    assert_eq!(menu_choice("3"), MenuChoice::DeleteProduct);
    assert_eq!(menu_choice("4"), MenuChoice::GenerateReport);
    assert_eq!(menu_choice("5"), MenuChoice::ErrorHandling);
    assert_eq!(menu_choice("6"), MenuChoice::Security);
    assert_eq!(menu_choice("7"), MenuChoice::Exit);
}

#[test]
fn menu_choice_refuses_everything_else() {
    for answer in ["", "0", "8", "01", "1 ", " 1", "+1", "one", "11"] {
        assert_eq!(menu_choice(answer), MenuChoice::Invalid);
    }
}
