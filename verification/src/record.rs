//! A discovered prime with its powers, and the text of its row in the
//! output table.

use crate::wide::{decimal_text, Wide};
use vstd::prelude::*;
use vstd::string::*;

verus! {

/// A prime and its second, third and fourth power, the powers as base-10 text.
#[derive(Debug, Clone, PartialEq, Eq)]
pub struct PrimeRecord {
    pub prime: u128,
    pub squared: String,
    pub cubed: String,
    pub to_fourth_power: String,
}

/// What a record holds, as mathematical values.
pub struct RecordText {
    pub prime: nat,
    pub squared: Seq<char>,
    pub cubed: Seq<char>,
    pub to_fourth_power: Seq<char>,
}

impl View for PrimeRecord {
    type V = RecordText;

    open spec fn view(&self) -> RecordText {
        RecordText {
            prime: self.prime as nat,
            squared: self.squared@,
            cubed: self.cubed@,
            to_fourth_power: self.to_fourth_power@,
        }
    }
}

/// The record that belongs to the number `p`.
pub open spec fn record_of(p: nat) -> RecordText {
    RecordText {
        prime: p,
        squared: decimal_text(p * p),
        cubed: decimal_text(p * p * p),
        to_fourth_power: decimal_text(p * p * p * p),
    }
}

/// The row of a record: its four fields in order, separated by commas and
/// ended by a line feed.
pub open spec fn row_text(r: RecordText) -> Seq<char> {
    decimal_text(r.prime) + seq![','] + r.squared + seq![','] + r.cubed + seq![',']
        + r.to_fourth_power + seq!['\n']
}

/// The header row of the output table.
pub open spec fn header_text() -> Seq<char> {
    "prime,squared,cubed,to_fourth_power\n"@
}

impl PrimeRecord {
    /// The record of `prime` with the given powers, each rendered in base 10.
    pub fn new(prime: u128, squared: &Wide, cubed: &Wide, to_fourth_power: &Wide) -> (record:
        PrimeRecord)
        ensures
            record@ == (RecordText {
                prime: prime as nat,
                squared: decimal_text(squared@),
                cubed: decimal_text(cubed@),
                to_fourth_power: decimal_text(to_fourth_power@),
            }),
    {
        PrimeRecord {
            prime,
            squared: squared.to_decimal(),
            cubed: cubed.to_decimal(),
            to_fourth_power: to_fourth_power.to_decimal(),
        }
    }

    /// The row of this record in the output table.
    pub fn to_row(&self) -> (row: String)
        ensures
            row@ == row_text(self@),
    {
        proof {
            reveal_strlit(",");
            reveal_strlit("\n");
        }
        let mut row = Wide::from_u128(self.prime).to_decimal();
        row.append(",");
        row.append(self.squared.as_str());
        row.append(",");
        row.append(self.cubed.as_str());
        row.append(",");
        row.append(self.to_fourth_power.as_str());
        row.append("\n");
        assert(","@ =~= seq![',']);
        assert("\n"@ =~= seq!['\n']);
        row
    }
}

/// The header row of the output table.
pub fn header_row() -> (row: String)
    ensures
        row@ == header_text(),
{
    String::from_str("prime,squared,cubed,to_fourth_power\n")
}

} // verus!
