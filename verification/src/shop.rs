//! A small shop: its customers, the states an order goes through, and the
//! stock of its products.

use std::collections::HashMap;
use vstd::prelude::*;
use vstd::std_specs::hash::group_hash_axioms;
use vstd::string::StringExecFns;
use crate::text::decimal::{decimal, push_decimal};

verus! {

broadcast use group_hash_axioms;

/// A customer.
#[derive(Debug, PartialEq, Eq)]
pub struct User {
    pub id: u32,
    pub name: String,
    pub email: String,
    pub address: String,
}

/// A customer as it is shown: name and number, then e-mail and address on
/// indented lines.
pub open spec fn user_card(id: u32, name: Seq<char>, email: Seq<char>, address: Seq<char>) -> Seq<
    char,
> {
    "User: "@ + name + " (ID: "@ + decimal(id as nat) + ")\n  Email: "@ + email
        + "\n  Address: "@ + address + "\n"@
}

/// One entry of the stock list as it is shown.
pub open spec fn stock_line(product_id: u32, quantity: u32) -> Seq<char> {
    "  Product ID: "@ + decimal(product_id as nat) + " - Quantity: "@ + decimal(quantity as nat)
        + "\n"@
}

/// One entry of the stock list as it is shown.
pub fn stock_entry(product_id: u32, quantity: u32) -> (text: String)
    ensures
        text@ == stock_line(product_id, quantity),
{
    let mut text = String::from_str("  Product ID: ");
    push_decimal(&mut text, product_id as u64);
    text.append(" - Quantity: ");
    push_decimal(&mut text, quantity as u64);
    text.append("\n");
    text
}

impl User {
    /// The customer as it is shown.
    pub fn display(&self) -> (text: String)
        ensures
            text@ == user_card(self.id, self.name@, self.email@, self.address@),
    {
        let mut text = String::from_str("User: ");
        text.append(self.name.as_str());
        text.append(" (ID: ");
        push_decimal(&mut text, self.id as u64);
        text.append(")\n  Email: ");
        text.append(self.email.as_str());
        text.append("\n  Address: ");
        text.append(self.address.as_str());
        text.append("\n");
        text
    }

    /// A customer with the given number, name, e-mail and postal address.
    pub fn new(id: u32, name: &str, email: &str, address: &str) -> (user: User)
        ensures
            user.id == id,
            user.name@ == name@,
            user.email@ == email@,
            user.address@ == address@,
    {
        User {
            id,
            name: name.to_owned(),
            email: email.to_owned(),
            address: address.to_owned(),
        }
    }
}

impl Clone for User {
    fn clone(&self) -> (copy: User)
        ensures
            copy == *self,
    {
        User {
            id: self.id,
            name: self.name.clone(),
            email: self.email.clone(),
            address: self.address.clone(),
        }
    }
}

/// How far an order has come.
#[derive(Debug, Clone, Copy, PartialEq, Eq, Structural)]
pub enum OrderStatus {
    Pending,
    Shipped,
    Delivered,
    Cancelled,
}

/// Why stock could not be taken out.
#[derive(Debug, Clone, Copy, PartialEq, Eq, Structural)]
pub enum StockError {
    /// Fewer items are in stock than were asked for.
    NotEnough,
}

/// The words in which a stock error is told to the user.
pub open spec fn stock_error_message(error: StockError) -> Seq<char> {
    match error {
        StockError::NotEnough => "Not enough items in stock"@,
    }
}

impl StockError {
    /// The words in which this error is told to the user.
    pub fn message(&self) -> (text: &'static str)
        ensures
            text@ == stock_error_message(*self),
    {
        match self {
            StockError::NotEnough => "Not enough items in stock",
        }
    }
}

/// How many items of each product are in stock, by product number.
pub struct Inventory {
    stock: HashMap<u32, u32>,
}

/// The quantity that a stock list records for a product: its entry, or 0
/// where it has none.
pub open spec fn level(stock: Map<u32, u32>, product_id: u32) -> u32 {
    if stock.contains_key(product_id) {
        stock[product_id]
    } else {
        0
    }
}

/// The stock list after `quantity` items of a product were taken out: the
/// entry is lowered, and it is dropped when it reaches 0. A product without
/// an entry gets none.
pub open spec fn after_removal(stock: Map<u32, u32>, product_id: u32, quantity: u32) -> Map<
    u32,
    u32,
> {
    if !stock.contains_key(product_id) {
        stock
    } else if stock[product_id] == quantity {
        stock.remove(product_id)
    } else {
        stock.insert(product_id, (stock[product_id] - quantity) as u32)
    }
}

impl View for Inventory {
    type V = Map<u32, u32>;

    closed spec fn view(&self) -> Map<u32, u32> {
        self.stock@
    }
}

impl Inventory {
    /// An inventory without any stock.
    pub fn new() -> (inventory: Inventory)
        ensures
            inventory@ == Map::<u32, u32>::empty(),
    {
        Inventory { stock: HashMap::new() }
    }

    /// The entries of the stock list.
    pub fn stock(&self) -> (stock: &HashMap<u32, u32>)
        ensures
            stock@ == self@,
    {
        &self.stock
    }

    /// Puts `quantity` more items of a product in stock.
    pub fn add_product(&mut self, product_id: u32, quantity: u32)
        requires
            level(old(self)@, product_id) + quantity <= u32::MAX,
        ensures
            final(self)@ == old(self)@.insert(
                product_id,
                (level(old(self)@, product_id) + quantity) as u32,
            ),
    {
        let current = self.check_stock(product_id);
        self.stock.insert(product_id, current + quantity);
    }

    /// Takes `quantity` items of a product out of stock, if that many are
    /// there. Otherwise nothing changes.
    pub fn remove_product(&mut self, product_id: u32, quantity: u32) -> (done: Result<
        (),
        StockError,
    >)
        ensures
            done is Ok <==> quantity <= level(old(self)@, product_id),
            done matches Err(error) ==> error == StockError::NotEnough && final(self)@ == old(
                self,
            )@,
            done is Ok ==> final(self)@ == after_removal(old(self)@, product_id, quantity),
            done is Ok ==> level(final(self)@, product_id) == level(old(self)@, product_id)
                - quantity,
    {
        let current = self.check_stock(product_id);
        if current < quantity {
            return Err(StockError::NotEnough);
        }
        if self.stock.contains_key(&product_id) {
            if current == quantity {
                self.stock.remove(&product_id);
            } else {
                self.stock.insert(product_id, current - quantity);
            }
        }
        Ok(())
    }

    /// How many items of a product are in stock.
    pub fn check_stock(&self, product_id: u32) -> (quantity: u32)
        ensures
            quantity == level(self@, product_id),
    {
        match self.stock.get(&product_id) {
            Some(quantity) => *quantity,
            None => 0,
        }
    }
}

} // verus!
