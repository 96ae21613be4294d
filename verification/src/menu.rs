//! The menu of the inventory program.

use crate::text::same_text;
use vstd::prelude::*;

verus! {

/// What the user asks for.
#[derive(Clone, Copy, Debug, PartialEq, Eq, Structural)]
pub enum MenuChoice {
    AddProduct,
    EditProduct,
    DeleteProduct,
    GenerateReport,
    ErrorHandling,
    Security,
    Exit,
    /// Anything that the menu does not offer.
    Invalid,
}

/// The choice that an answer to the menu stands for: one of the digits 1
/// to 7, with nothing before or behind it.
pub open spec fn choice_of(answer: Seq<char>) -> MenuChoice {
    if answer == "1"@ {
        MenuChoice::AddProduct
    } else if answer == "2"@ {
        MenuChoice::EditProduct
    } else if answer == "3"@ {
        MenuChoice::DeleteProduct
    } else if answer == "4"@ {
        MenuChoice::GenerateReport
    } else if answer == "5"@ {
        MenuChoice::ErrorHandling
    } else if answer == "6"@ {
        MenuChoice::Security
    } else if answer == "7"@ {
        MenuChoice::Exit
    } else {
        MenuChoice::Invalid
    }
}

/// Reads an answer to the menu.
pub fn menu_choice(answer: &str) -> (r: MenuChoice)
    ensures
        r == choice_of(answer@),
{
    if same_text(answer, "1") {
        MenuChoice::AddProduct
    } else if same_text(answer, "2") {
        MenuChoice::EditProduct
    } else if same_text(answer, "3") {
        MenuChoice::DeleteProduct
    } else if same_text(answer, "4") {
        MenuChoice::GenerateReport
    } else if same_text(answer, "5") {
        MenuChoice::ErrorHandling
    } else if same_text(answer, "6") {
        MenuChoice::Security
    } else if same_text(answer, "7") {
        MenuChoice::Exit
    } else {
        MenuChoice::Invalid
    }
}

} // verus!
