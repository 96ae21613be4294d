//! The inventory ledger: an ordered run of products addressed by position.

use crate::decimal::{parse_unsigned, unsigned_value};
use crate::product::{line_text, Product, ProductView};
use crate::text::{trim, trimmed};
use vstd::prelude::*;

verus! {

/// Why the ledger refused an operation.
#[derive(Clone, Copy, Debug, PartialEq, Eq, Structural)]
pub enum InventoryError {
    /// The position given holds no product.
    InvalidIndex,
}

impl InventoryError {
    /// The text that the error is reported with.
    pub open spec fn text(self) -> Seq<char> {
        "Invalid index"@
    }

    /// Writes the error for a reader.
    pub fn message(&self) -> (r: String)
        ensures
            r@ == self.text(),
    {
        "Invalid index".to_owned()
    }
}

/// The ledger after `product` was added: it stands behind all the others.
pub open spec fn added(items: Seq<ProductView>, product: ProductView) -> Seq<ProductView> {
    items.push(product)
}

/// The ledger after the product at `index` was replaced by `product`, or
/// the refusal where `index` holds none.
pub open spec fn edited(items: Seq<ProductView>, index: int, product: ProductView) -> Result<
    Seq<ProductView>,
    InventoryError,
> {
    if 0 <= index < items.len() {
        Ok(items.update(index, product))
    } else {
        Err(InventoryError::InvalidIndex)
    }
}

/// The product at `index` and the ledger without it, the later products
/// moved down by one position; or the refusal where `index` holds none.
pub open spec fn deleted(items: Seq<ProductView>, index: int) -> Result<
    (ProductView, Seq<ProductView>),
    InventoryError,
> {
    if 0 <= index < items.len() {
        Ok((items[index], items.remove(index)))
    } else {
        Err(InventoryError::InvalidIndex)
    }
}

/// The position that a line of input names: the line without the white
/// space around it, read as an unsigned decimal numeral that fits a
/// position. A line that is none names no position.
pub open spec fn position_of(input: Seq<char>) -> Option<int> {
    match unsigned_value(trimmed(input), usize::MAX as nat) {
        Ok(v) => Some(v as int),
        Err(_) => None,
    }
}

/// What a removal at the position that `input` names gives: as `deleted`
/// where it names one, and the same refusal where it names none.
pub open spec fn deleted_by_input(items: Seq<ProductView>, input: Seq<char>) -> Result<
    (ProductView, Seq<ProductView>),
    InventoryError,
> {
    match position_of(input) {
        Some(index) => deleted(items, index),
        None => Err(InventoryError::InvalidIndex),
    }
}

/// The first line of every report.
pub open spec fn report_title() -> Seq<char> {
    "Inventory Report\n"@
}

/// The second line of every report, which names the columns.
pub open spec fn report_columns() -> Seq<char> {
    "Name\tDescription\tPrice\tQuantity\n"@
}

/// The lines of the products, one after the other in ledger order.
pub open spec fn lines_text(items: Seq<ProductView>) -> Seq<char>
    decreases items.len(),
{
    if items.len() == 0 {
        Seq::empty()
    } else {
        lines_text(items.drop_last()) + line_text(items.last())
    }
}

/// The whole report of a ledger: title, column names, then the products.
pub open spec fn report_text(items: Seq<ProductView>) -> Seq<char> {
    report_title() + report_columns() + lines_text(items)
}

/// Replacing the product at a position that holds one succeeds; a read of
/// that position then gives exactly the new product, and every other
/// position holds what it held.
pub proof fn lemma_edit_then_read(items: Seq<ProductView>, index: int, product: ProductView)
    requires
        0 <= index < items.len(),
    ensures
        edited(items, index, product) is Ok,
        edited(items, index, product)->Ok_0.len() == items.len(),
        edited(items, index, product)->Ok_0[index] == product,
        forall|j: int|
            0 <= j < items.len() && j != index ==> edited(items, index, product)->Ok_0[j]
                == items[j],
{
}

/// A position at or behind the end of the ledger is refused as an invalid
/// index, by a replacement and by a removal alike.
pub proof fn lemma_invalid_index_refused(items: Seq<ProductView>, index: int, product: ProductView)
    requires
        index >= items.len(),
    ensures
        edited(items, index, product) == Err::<Seq<ProductView>, InventoryError>(
            InventoryError::InvalidIndex,
        ),
        deleted(items, index) == Err::<(ProductView, Seq<ProductView>), InventoryError>(
            InventoryError::InvalidIndex,
        ),
{
}

/// Adding a product makes the ledger longer by exactly one, puts the product
/// at the position that was the length before, and moves no other product.
pub proof fn lemma_add_appends(items: Seq<ProductView>, product: ProductView)
    ensures
        added(items, product).len() == items.len() + 1,
        added(items, product)[items.len() as int] == product,
        forall|j: int| 0 <= j < items.len() ==> added(items, product)[j] == items[j],
{
}

/// Removing the product at a position that holds one gives that product and
/// makes the ledger shorter by one: the products before the position stay,
/// and each one behind it stands one position lower.
pub proof fn lemma_delete_shifts(items: Seq<ProductView>, index: int)
    requires
        0 <= index < items.len(),
    ensures
        deleted(items, index) is Ok,
        deleted(items, index)->Ok_0.0 == items[index],
        deleted(items, index)->Ok_0.1.len() == items.len() - 1,
        forall|j: int| 0 <= j < index ==> deleted(items, index)->Ok_0.1[j] == items[j],
        forall|j: int| index < j < items.len() ==> deleted(items, index)->Ok_0.1[j - 1] == items[j],
{
}

/// The report of an empty ledger is the title and the column names, and
/// nothing else.
pub proof fn lemma_empty_report()
    ensures
        report_text(Seq::empty()) == report_title() + report_columns(),
{
    assert(report_text(Seq::empty()) =~= report_title() + report_columns());
}

/// Each product adds its own line at the end of the report.
pub proof fn lemma_report_grows(items: Seq<ProductView>, product: ProductView)
    ensures
        report_text(added(items, product)) == report_text(items) + line_text(product),
{
    assert(added(items, product).drop_last() =~= items);
    assert(report_text(added(items, product)) =~= report_text(items) + line_text(product));
}

/// The ledger. Positions start at zero and have no gaps.
pub struct Inventory {
    products: Vec<Product>,
}

impl View for Inventory {
    type V = Seq<ProductView>;

    closed spec fn view(&self) -> Seq<ProductView> {
        self.products@.map_values(|p: Product| p@)
    }
}

impl Inventory {
    /// An empty ledger.
    pub fn new() -> (r: Inventory)
        ensures
            r@ == Seq::<ProductView>::empty(),
    {
        let r = Inventory { products: Vec::new() };
        assert(r@ =~= Seq::<ProductView>::empty());
        r
    }

    /// The number of products in the ledger.
    pub fn len(&self) -> (r: usize)
        ensures
            r == self@.len(),
    {
        self.products.len()
    }

    /// The product at `index`, if there is one.
    pub fn get(&self, index: usize) -> (r: Option<&Product>)
        ensures
            index < self@.len() ==> (r matches Some(p) && p@ == self@[index as int]),
            index >= self@.len() ==> r is None,
    {
        if index < self.products.len() {
            Some(&self.products[index])
        } else {
            None
        }
    }

    /// Adds `product` behind all the others. This always succeeds.
    pub fn add_product(&mut self, product: Product)
        ensures
            final(self)@ == added(old(self)@, product@),
    {
        self.products.push(product);
        assert(self@ =~= added(old(self)@, product@));
    }

    /// Replaces the product at `index` by `product`. Where `index` holds no
    /// product the ledger stays as it is.
    pub fn edit_product(&mut self, index: usize, product: Product) -> (r: Result<
        (),
        InventoryError,
    >)
        ensures
            match edited(old(self)@, index as int, product@) {
                Ok(items) => r is Ok && final(self)@ == items,
                Err(e) => r == Err::<(), InventoryError>(e) && *final(self) == *old(self),
            },
    {
        if index < self.products.len() {
            self.products.set(index, product);
            assert(self@ =~= old(self)@.update(index as int, product@));
            Ok(())
        } else {
            Err(InventoryError::InvalidIndex)
        }
    }

    /// Takes the product at `index` out of the ledger and returns it; the
    /// products behind it move down by one position. Where `index` holds no
    /// product the ledger stays as it is.
    pub fn delete_product(&mut self, index: usize) -> (r: Result<Product, InventoryError>)
        ensures
            match deleted(old(self)@, index as int) {
                Ok((product, items)) => r matches Ok(p) && p@ == product && final(self)@ == items,
                Err(e) => r matches Err(f) && f == e && *final(self) == *old(self),
            },
    {
        if index < self.products.len() {
            let product = self.products.remove(index);
            assert(self@ =~= old(self)@.remove(index as int));
            Ok(product)
        } else {
            Err(InventoryError::InvalidIndex)
        }
    }

    /// Takes out the product at the position that the line `input` names,
    /// as `delete_product` does. A line that names no position is refused
    /// like a position that holds no product.
    pub fn delete_product_prompt(&mut self, input: &str) -> (r: Result<Product, InventoryError>)
        ensures
            match deleted_by_input(old(self)@, input@) {
                Ok((product, items)) => r matches Ok(p) && p@ == product && final(self)@ == items,
                Err(e) => r matches Err(f) && f == e && *final(self) == *old(self),
            },
    {
        match parse_unsigned(trim(input), usize::MAX as u64) {
            Ok(index) => self.delete_product(index as usize),
            Err(_) => Err(InventoryError::InvalidIndex),
        }
    }

    /// Writes the report of the ledger as it stands.
    pub fn generate_report(&self) -> (r: String)
        ensures
            r@ == report_text(self@),
    {
        let mut report = String::new();
        report.append("Inventory Report\n");
        report.append("Name\tDescription\tPrice\tQuantity\n");
        assert(report@ =~= report_title() + report_columns());
        let mut i: usize = 0;
        assert(self@.take(0) =~= Seq::<ProductView>::empty());
        while i < self.products.len()
            invariant
                i <= self.products.len(),
                report@ == report_text(self@.take(i as int)),
            decreases self.products.len() - i,
        {
            let line = self.products[i].report_line();
            report.append(line.as_str());
            proof {
                let seen = self@.take(i + 1);
                assert(seen.drop_last() =~= self@.take(i as int));
                assert(seen.last() == self.products[i as int]@);
                assert(report@ =~= report_text(seen));
            }
            i += 1;
        }
        assert(self@.take(i as int) =~= self@);
        report
    }
}

} // verus!
