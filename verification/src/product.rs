//! A product record and the line that it takes in a report.

use crate::decimal::{numeral, uint_text};
use crate::price::Price;
use vstd::prelude::*;

verus! {

/// A catalogue record. It has no identity of its own: a ledger addresses it
/// by position. A record is never changed in place, only replaced.
#[derive(Debug)]
pub struct Product {
    name: String,
    description: String,
    price: Price,
    quantity: u32,
}

/// What a product is: its two texts, its price and its quantity.
pub struct ProductView {
    pub name: Seq<char>,
    pub description: Seq<char>,
    pub price: Price,
    pub quantity: u32,
}

impl View for Product {
    type V = ProductView;

    closed spec fn view(&self) -> ProductView {
        ProductView {
            name: self.name@,
            description: self.description@,
            price: self.price,
            quantity: self.quantity,
        }
    }
}

/// The line of a product in a report: name, description, price and
/// quantity, a tab between them and a line feed at the end.
pub open spec fn line_text(product: ProductView) -> Seq<char> {
    product.name + seq!['\t'] + product.description + seq!['\t'] + product.price.text()
        + seq!['\t'] + numeral(product.quantity as nat) + seq!['\n']
}

impl Product {
    /// A record of the four values given.
    pub fn new(name: String, description: String, price: Price, quantity: u32) -> (r: Product)
        ensures
            r@ == (ProductView { name: name@, description: description@, price, quantity }),
    {
        Product { name, description, price, quantity }
    }

    /// The product's name.
    pub fn name(&self) -> (r: &str)
        ensures
            r@ == self@.name,
    {
        self.name.as_str()
    }

    /// The product's description.
    pub fn description(&self) -> (r: &str)
        ensures
            r@ == self@.description,
    {
        self.description.as_str()
    }

    /// The product's price.
    pub fn price(&self) -> (r: Price)
        ensures
            r == self@.price,
    {
        self.price
    }

    /// The number of pieces in stock.
    pub fn quantity(&self) -> (r: u32)
        ensures
            r == self@.quantity,
    {
        self.quantity
    }

    /// Writes the product's line of a report.
    pub fn report_line(&self) -> (r: String)
        ensures
            r@ == line_text(self@),
    {
        proof {
            reveal_strlit("\t");
            reveal_strlit("\n");
        }
        let mut line = self.name.clone();
        line.append("\t");
        line.append(self.description.as_str());
        line.append("\t");
        line.append(self.price.to_text().as_str());
        line.append("\t");
        line.append(uint_text(self.quantity as u64).as_str());
        line.append("\n");
        assert(line@ =~= line_text(self@));
        line
    }
}

} // verus!
