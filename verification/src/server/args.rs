//! The arguments of the tools.

use vstd::prelude::*;

use crate::date::Date;
use crate::domain::VendorType;
use crate::write::budget::BudgetPeriod;
use crate::write::input::TransactionInput;

verus! {

/// Arguments of `echo`.
#[derive(Debug)]
pub struct EchoArgs {
    /// The message to give back.
    pub message: String,
}

/// Arguments of `get_account_balance`.
#[derive(Debug)]
pub struct AccountBalanceArgs {
    /// The account, e.g. `assets:checking`.
    pub account: String,
}

/// Arguments of `list_transactions`.
#[derive(Debug)]
pub struct ListTransactionsArgs {
    /// The terms of the query; all transactions without it.
    pub query: Option<Vec<String>>,
}

/// Arguments of `declare_account`.
#[derive(Debug)]
pub struct DeclareAccountArgs {
    /// The account.
    pub account: String,
}

/// Arguments of `declare_commodity`.
#[derive(Debug)]
pub struct DeclareCommodityArgs {
    /// The symbol, e.g. `$` or `EUR`.
    pub commodity: String,
    /// The number of decimal places; two without it.
    pub decimal_places: Option<u8>,
}

/// Arguments of `void_transaction`.
#[derive(Debug)]
pub struct VoidTransactionArgs {
    /// The identifier of the transaction.
    pub id: String,
}

/// Arguments of `update_transaction`.
#[derive(Debug)]
pub struct UpdateTransactionArgs {
    /// The identifier of the transaction to replace.
    pub id: String,
    /// What replaces it.
    pub transaction: TransactionInput,
}

/// Arguments of `close_account`.
#[derive(Debug)]
pub struct CloseAccountArgs {
    /// The account.
    pub account: String,
}

/// An amount of money, and the key by which a repeated request is recognised.
#[derive(Debug)]
pub struct MoneyArgs {
    /// The quantity, e.g. `50000.00`.
    pub amount: String,
    /// The commodity, e.g. `$`.
    pub commodity: String,
    /// The idempotency key.
    pub idem: Option<String>,
}

/// Arguments of `fund_project`.
#[derive(Debug)]
pub struct FundProjectArgs {
    pub date: Date,
    pub money: MoneyArgs,
}

/// Arguments of `receive_invoice`.
#[derive(Debug)]
pub struct ReceiveInvoiceArgs {
    pub date: Date,
    /// The vendor's name.
    pub vendor: String,
    /// The account that the expense goes to.
    pub expense_account: String,
    /// The number of the vendor's invoice.
    pub invoice_ref: String,
    pub money: MoneyArgs,
}

/// Arguments of `pay_invoice`.
#[derive(Debug)]
pub struct PayInvoiceArgs {
    pub date: Date,
    /// The vendor's name.
    pub vendor: String,
    pub money: MoneyArgs,
}

/// Arguments of `post_interest`.
#[derive(Debug)]
pub struct PostInterestArgs {
    pub date: Date,
    pub money: MoneyArgs,
}

/// Arguments of `vendor_add`.
#[derive(Debug)]
pub struct VendorAddArgs {
    /// The vendor's name.
    pub vendor: String,
    pub vendor_type: VendorType,
    /// The name of the trade, for a vendor of a trade.
    pub trade: Option<String>,
}

/// Arguments of `get_ap_aging`.
#[derive(Debug)]
pub struct GetApAgingArgs {
    /// The day on which the age is counted; today without it.
    pub as_of: Option<Date>,
}

/// Arguments of `budget_set`.
#[derive(Debug)]
pub struct BudgetSetArgs {
    /// The account.
    pub account: String,
    pub period: BudgetPeriod,
    /// The goal, e.g. `500.00`.
    pub amount: String,
    /// The commodity of the goal.
    pub commodity: String,
}

/// Arguments of `get_budget_vs_actual`.
#[derive(Debug)]
pub struct BudgetVsActualArgs {
    /// The account to report on; all without it.
    pub account: Option<String>,
}

/// Arguments of `eco_create`.
#[derive(Debug)]
pub struct EcoCreateArgs {
    /// The name of the change order. White space around it does not count.
    pub eco: String,
    pub trade: String,
    /// The vendor's name.
    pub vendor: String,
    pub description: String,
    pub date: Date,
    pub money: MoneyArgs,
}

/// Arguments of `eco_approve` and `eco_void`.
#[derive(Debug)]
pub struct EcoRefArgs {
    /// The name of the change order. White space around it does not count.
    pub eco: String,
    pub date: Date,
}

} // verus!
