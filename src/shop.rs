use vstd::prelude::*;

use crate::text::{decimal, decimal_of, lower_of, lowercase, same_text};
use crate::value::{Dyn, DynamicValue};

verus! {

/// Sells cheesy comestibles.
pub struct CheeseShop {
    stock: u32,
}

/// A read of an attribute that the shop neither declares nor offers.
#[derive(Clone, Copy, PartialEq, Eq, Structural, Debug)]
pub struct AttributeNotFound;

/// What an attribute assignment reports: the full line when the value is a
/// string, else the start of the line, to be followed by the value's
/// representation.
pub enum AttributeWrite {
    Text(String),
    Raw(String),
}

impl View for CheeseShop {
    /// The number of cheeses in stock.
    type V = nat;

    closed spec fn view(&self) -> nat {
        self.stock as nat
    }
}

/// The number of cheeses the shop is unable to provide.
pub const UNAVAILABLE_CHEESES: u32 = 45;

/// The shop's reply to a request for a cheese, given the request in lower case.
pub open spec fn cheese_reply(folded: Seq<char>) -> Seq<char> {
    if folded == "red leicester"@ {
        "I'm afraid we're fresh out of Red Leicester sir."@
    } else if folded == "tilsit"@ {
        "Never at the end of the week, sir. Always get it fresh first thing on Monday."@
    } else if folded == "bel paese"@ || folded == "stilton"@ {
        "Sorry."@
    } else if folded == "red windsor"@ {
        "Normally, sir, yes, but today the van broke down."@
    } else if folded == "camembert"@ {
        "Oh! The cat's eaten it."@
    } else {
        "No"@
    }
}

/// The attribute `name` of a shop with `stock` cheeses: the declared field
/// first, then the one virtual attribute.
pub open spec fn attribute_of(stock: nat, name: Seq<char>) -> Result<Dyn, AttributeNotFound> {
    if name == "stock"@ {
        Ok(Dyn::Int(stock as int))
    } else if name == "cannibalism"@ {
        Ok(Dyn::Str("Relatively under control"@))
    } else {
        Err(AttributeNotFound)
    }
}

/// The shop's reply to a request, given the request already in lower case.
pub fn reply_for_folded(folded: &str) -> (r: &'static str)
    ensures
        r@ == cheese_reply(folded@),
{
    if same_text(folded, "red leicester") {
        "I'm afraid we're fresh out of Red Leicester sir."
    } else if same_text(folded, "tilsit") {
        "Never at the end of the week, sir. Always get it fresh first thing on Monday."
    } else if same_text(folded, "bel paese") || same_text(folded, "stilton") {
        "Sorry."
    } else if same_text(folded, "red windsor") {
        "Normally, sir, yes, but today the van broke down."
    } else if same_text(folded, "camembert") {
        "Oh! The cat's eaten it."
    } else {
        "No"
    }
}

impl AttributeNotFound {
    pub fn message(&self) -> (r: &'static str)
        ensures
            r@ == "Attribute not found. Move along."@,
    {
        "Attribute not found. Move along."
    }
}

impl CheeseShop {
    /// Opens a shop with nothing in stock.
    pub fn new(is_hungry: Option<bool>) -> (r: Self)
        ensures
            r@ == 0,
    {
        CheeseShop { stock: 0 }
    }

    /// The greeting a new shop gives: only a hungry customer is greeted.
    pub fn greeting(is_hungry: Option<bool>) -> (r: Option<&'static str>)
        ensures
            r is Some <==> is_hungry == Some(true),
            r is Some ==> r->0@ == "Hello hungry customer!"@,
    {
        if is_hungry == Some(true) {
            Some("Hello hungry customer!")
        } else {
            None
        }
    }

    pub fn stock(&self) -> (r: u32)
        ensures
            r as nat == self@,
    {
        self.stock
    }

    /// Sets the stock and reports it.
    pub fn set_stock(&mut self, stock: u32) -> (r: String)
        ensures
            final(self)@ == stock as nat,
            r@ == "Setting stock to "@ + decimal_of(stock as nat),
    {
        self.stock = stock;
        let mut line = String::from_str("Setting stock to ");
        let digits = decimal(stock);
        line.append(digits.as_str());
        line
    }

    /// Whether the shop has the named cheese, with the line it answers: it
    /// never has any.
    pub fn has_cheese(&self, name: Option<&str>) -> (r: (bool, String))
        ensures
            !r.0,
            match name {
                Some(s) => r.1@ == "We have no "@ + s@,
                None => r.1@ == "No cheese whatsoever."@,
            },
    {
        match name {
            Some(s) => {
                let mut line = String::from_str("We have no ");
                line.append(s);
                (false, line)
            },
            None => (false, String::from_str("No cheese whatsoever.")),
        }
    }

    /// Answers a client's request for a cheese, whatever the letter case.
    pub fn respond_to_client(&self, cheese_type: &str) -> (r: &'static str)
        ensures
            r@ == cheese_reply(lower_of(cheese_type@)),
    {
        let folded = lowercase(cheese_type);
        reply_for_folded(folded.as_str())
    }

    pub fn unavailable_cheese_count() -> (r: u32)
        ensures
            r == 45,
    {
        UNAVAILABLE_CHEESES
    }

    pub fn repr(&self) -> (r: String)
        ensures
            r@ == "CheeseShop(stock="@ + decimal_of(self@) + ")"@,
    {
        let mut s = String::from_str("CheeseShop(stock=");
        let digits = decimal(self.stock);
        s.append(digits.as_str());
        s.append(")");
        s
    }

    /// Reads an attribute: the declared `stock` field, else the virtual
    /// `cannibalism` attribute, else a not-found error.
    pub fn get_attribute(&self, name: &str) -> (r: Result<DynamicValue, AttributeNotFound>)
        ensures
            match attribute_of(self@, name@) {
                Ok(d) => r matches Ok(v) && v.model() == d,
                Err(e) => r == Err::<DynamicValue, AttributeNotFound>(e),
            },
    {
        if same_text(name, "stock") {
            Ok(DynamicValue::Int(self.stock as i64))
        } else if same_text(name, "cannibalism") {
            Ok(DynamicValue::Str(String::from_str("Relatively under control")))
        } else {
            Err(AttributeNotFound)
        }
    }

    /// Accepts an assignment to any attribute and reports it; the shop
    /// itself is left as it was.
    pub fn set_attribute(&mut self, name: &str, value: &DynamicValue) -> (r: AttributeWrite)
        ensures
            final(self)@ == old(self)@,
            match value.model() {
                Dyn::Str(s) => r matches AttributeWrite::Text(line) && line@ == "Setting self."@
                    + name@ + " : str = \""@ + s + "\""@,
                _ => r matches AttributeWrite::Raw(start) && start@ == "Setting self."@ + name@
                    + " = "@,
            },
    {
        let mut line = String::from_str("Setting self.");
        line.append(name);
        match value.as_text() {
            Some(s) => {
                line.append(" : str = \"");
                line.append(s.as_str());
                line.append("\"");
                AttributeWrite::Text(line)
            },
            None => {
                line.append(" = ");
                AttributeWrite::Raw(line)
            },
        }
    }
}

/// Reading the virtual attribute gives the same value every time, whatever
/// the shop's state; reading an attribute that is not there always fails
/// with the same error.
pub proof fn attribute_reads_are_stable(a: nat, b: nat)
    ensures
        attribute_of(a, "cannibalism"@) == attribute_of(b, "cannibalism"@),
        attribute_of(a, "cannibalism"@) == Ok::<Dyn, AttributeNotFound>(
            Dyn::Str("Relatively under control"@),
        ),
        attribute_of(a, "nonexistent"@) == attribute_of(b, "nonexistent"@),
        attribute_of(a, "nonexistent"@) == Err::<Dyn, AttributeNotFound>(AttributeNotFound),
{
    reveal_strlit("cannibalism");
    reveal_strlit("stock");
    reveal_strlit("nonexistent");
    assert("cannibalism"@.len() != "stock"@.len());
    assert("nonexistent"@.len() != "stock"@.len());
    assert("nonexistent"@[0] != "cannibalism"@[0]);
}

} // verus!
