//! The guides that the server offers as resources, and its instructions.

use vstd::prelude::*;

verus! {

/// What to read first.
pub const SESSION_CONTEXT: &'static str = "# Session context\n\
\n\
Read this before the first tool call.\n\
\n\
## Tool groups\n\
\n\
- Reading: status, get_account_balance, list_transactions, get_ap_aging, get_project_summary.\n\
- Recording: post_transaction, receive_invoice, pay_invoice, fund_project, post_interest.\n\
- Correcting: update_transaction, void_transaction. Nothing is edited in place; a correction is a reversing entry.\n\
- Setting up: declare_account, declare_commodity, close_account, vendor_add, vendor_list, budget_set, budget_list, get_budget_vs_actual.\n\
- Change orders: eco_create, eco_approve, eco_void.\n\
- Checking the connection: echo.\n\
\n\
## Conventions\n\
\n\
- Accounts and commodities are declared before they are used.\n\
- Amounts are exact decimals, written as text.\n\
- A call that may be repeated carries an idempotency key.\n\
- A decision (eco_approve) is refused as STALE where the ledger has changed since the last read. Read again, then retry.\n\
- Overdrafts, overdue payables and overrun budgets are flagged, never refused.\n\
\n\
## Resources\n\
\n\
- ledger://session-context: this page\n\
- ledger://account-guide: accounts, their names, declaring and closing them\n\
- ledger://vendor-guide: vendors and their accounts\n\
- ledger://expected-chart: the accounts of a construction project\n\
- ledger://budget-guide: budget goals and how they are measured\n\
- ledger://eco-guide: change orders\n\
- ledger://vendors: the declared vendors with what is owed to them, read from the ledger\n";

/// Accounts and commodities.
pub const ACCOUNT_GUIDE: &'static str = "# Account guide\n\
\n\
An account is a path of names separated by colons, from one of five roots: assets, liabilities, equity, income and expenses.\n\
\n\
- Declare an account with declare_account before anything is posted to it. A posting to an account that is not declared is refused.\n\
- A name holds no line break and no semicolon, and neither begins nor ends with a colon. Names may hold single spaces.\n\
- Declare a commodity with declare_commodity before amounts use it. A symbol that begins with a letter is written to the right of the number, any other to the left.\n\
- close_account marks an account as tombstoned. It stays declared, and what was posted to it stays where it is. Nothing is ever deleted.\n";

/// Vendors.
pub const VENDOR_GUIDE: &'static str = "# Vendor guide\n\
\n\
vendor_add declares two accounts in one commit: the payables account liabilities:ap:vendor:{vendor}, and an expense account.\n\
\n\
- A trade vendor (vendor_type \"trade\") shares the expense account of its trade, expenses:construction:{trade}. The name of the trade is required.\n\
- A professional vendor (vendor_type \"professional\") has an expense account of its own, expenses:professional - {vendor}.\n\
- Permits are paid to the authority that issues them, as a professional vendor.\n\
- An invoice that the general contractor passes through is received from the vendor that wrote it.\n\
\n\
receive_invoice records what is owed, pay_invoice pays it. A vendor to whom nothing is owed cannot be paid. See ledger://vendors for what is owed now.\n";

/// The accounts of a construction project.
pub const EXPECTED_CHART: &'static str = "# Expected chart of accounts\n\
\n\
\x20\x20\x20\x20assets:checking\n\
\x20\x20\x20\x20equity:owner capital\n\
\x20\x20\x20\x20income:interest\n\
\x20\x20\x20\x20liabilities:ap:vendor:{vendor}\n\
\x20\x20\x20\x20expenses:construction:{trade}\n\
\x20\x20\x20\x20expenses:professional - {vendor}\n\
\x20\x20\x20\x20expenses:change orders:{trade}\n\
\x20\x20\x20\x20expenses:change orders:pending:{trade}\n\
\x20\x20\x20\x20equity:budget\n\
\n\
Money comes in from equity:owner capital and income:interest, and goes out of assets:checking. What is owed to vendors is below liabilities:ap. The account equity:budget balances the budget rules and holds no money.\n";

/// Budgets.
pub const BUDGET_GUIDE: &'static str = "# Budget guide\n\
\n\
budget_set sets the goal of one account for one period: daily, weekly, monthly, quarterly or yearly. Setting it again for the same account and period replaces it; goals never add up.\n\
\n\
- The account and the commodity have to be declared.\n\
- The goals stand in the file budget.journal beside the journal. The file is replaced as a whole, and its history is in the repository.\n\
- budget_list shows the goals, get_budget_vs_actual what was spent against them. An account that exceeds its goal is flagged as over-budget; nothing is refused for it.\n";

/// Change orders.
pub const ECO_GUIDE: &'static str = "# Change-order guide\n\
\n\
A change order goes through up to three steps, each an entry in the journal with the tag eco.\n\
\n\
1. eco_create records it as pending: the amount goes to expenses:change orders:pending:{trade} and is owed to the vendor. The trade name \"pending\" is reserved.\n\
2. eco_approve moves the amount to expenses:change orders:{trade}, which the budget tracks. It is a decision: it is refused as STALE where the ledger has changed since the last read. Read the budget again, then retry. An order is approved once.\n\
3. eco_void reverses the entries of the order that are not reversed yet. Nothing is removed.\n";

/// What a client is told when it connects.
pub const INSTRUCTIONS: &'static str = "This server keeps the ledger of a construction project with hledger. Read the resource ledger://session-context before the first tool call: it lists the tool groups, the conventions of the ledger and the guides.\n";

} // verus!
