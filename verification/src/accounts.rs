//! Accounts as the overview and the portfolio read them: their primary
//! category, flags, owners and current valuation.

use vstd::prelude::*;

use crate::amount::DecimalValue;
use crate::error::AppError;
use crate::text::text_eq;

verus! {

/// The primary category of an Account.
#[derive(Debug, Clone, Copy, PartialEq, Eq, Structural)]
pub enum PrimaryCategory {
    CashEquivalent,
    Investment,
    Property,
    Receivable,
    Liability,
}

/// The stored name of each category.
pub open spec fn category_text(category: PrimaryCategory) -> Seq<char> {
    match category {
        PrimaryCategory::CashEquivalent => "cash_equivalent"@,
        PrimaryCategory::Investment => "investment"@,
        PrimaryCategory::Property => "property"@,
        PrimaryCategory::Receivable => "receivable"@,
        PrimaryCategory::Liability => "liability"@,
    }
}

/// The category a stored name denotes, if any.
pub open spec fn category_named(text: Seq<char>) -> Option<PrimaryCategory> {
    if text == "cash_equivalent"@ {
        Some(PrimaryCategory::CashEquivalent)
    } else if text == "investment"@ {
        Some(PrimaryCategory::Investment)
    } else if text == "property"@ {
        Some(PrimaryCategory::Property)
    } else if text == "receivable"@ {
        Some(PrimaryCategory::Receivable)
    } else if text == "liability"@ {
        Some(PrimaryCategory::Liability)
    } else {
        None
    }
}

impl PrimaryCategory {
    /// Reads a stored category name; any other text is an invalid category.
    pub fn parse(text: &str) -> (parsed: Result<PrimaryCategory, AppError>)
        ensures
            match parsed {
                Ok(c) => category_named(text@) == Some(c),
                Err(e) => category_named(text@) is None && e is InvalidCategory,
            },
    {
        if text_eq(text, "cash_equivalent") {
            Ok(PrimaryCategory::CashEquivalent)
        } else if text_eq(text, "investment") {
            Ok(PrimaryCategory::Investment)
        } else if text_eq(text, "property") {
            Ok(PrimaryCategory::Property)
        } else if text_eq(text, "receivable") {
            Ok(PrimaryCategory::Receivable)
        } else if text_eq(text, "liability") {
            Ok(PrimaryCategory::Liability)
        } else {
            Err(AppError::InvalidCategory { message: String::from_str("The primary category is not supported.") })
        }
    }

    /// The stored name.
    pub fn as_str(&self) -> (text: &'static str)
        ensures
            text@ == category_text(*self),
    {
        match self {
            PrimaryCategory::CashEquivalent => "cash_equivalent",
            PrimaryCategory::Investment => "investment",
            PrimaryCategory::Property => "property",
            PrimaryCategory::Receivable => "receivable",
            PrimaryCategory::Liability => "liability",
        }
    }
}

/// One Member's part of an Account, in basis points.
#[derive(Debug, Clone)]
pub struct OwnershipShare {
    pub member_id: String,
    pub share_bps: i32,
}

/// Something that could not be valued: its kind, id, name and why.
#[derive(Debug, Clone)]
pub struct UnvaluedItemDto {
    pub kind: String,
    pub id: String,
    pub name: String,
    pub reason: String,
}

/// An Account's value in the base currency as the valuation found it.
#[derive(Debug, Clone)]
pub struct AccountValuation {
    /// The value in the base currency, when one could be computed.
    pub base: Option<DecimalValue>,
    /// Whether every part of the Account was valued.
    pub complete: bool,
    pub freshness: String,
    pub unvalued_items: Vec<UnvaluedItemDto>,
}

/// An Account with what the overview and the portfolio read of it.
#[derive(Debug, Clone)]
pub struct AccountRecordDto {
    pub id: String,
    pub name: String,
    pub primary_category: String,
    pub institution_id: Option<String>,
    pub group_id: Option<String>,
    pub include_in_net_worth: bool,
    pub include_in_investment: bool,
    pub archived: bool,
    pub owners: Vec<OwnershipShare>,
    pub valuation: AccountValuation,
}

} // verus!
