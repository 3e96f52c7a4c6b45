//! The accounts, transactions and reports of a construction project.

use vstd::prelude::*;

use crate::date::{
    Civil, Date, civil_text, day_number, earlier, exists_in_calendar,
    law_day_numbers_follow_the_calendar,
};
use crate::decimal::{lemma_pow10_positive, pow10};
use crate::hledger::{
    AccountBalance, AccountBalanceView, BalanceReport, BalanceReportView, BudgetReport,
    BudgetReportView, BudgetRow, CompositeReport, CompositeReportView, Posting, PostingView,
    Subreport, SubreportView, Transaction, TransactionView, balances_view, postings_view,
    subreports_view, tags_view, transactions_view,
};
use crate::hledger::amount::{
    Amount, AmountView, Quantity, amounts_text, amounts_view, common_places, copy_amounts,
    render_amounts, scale, scaled,
};
use crate::text::{
    cat, cat3, chars_of, join, join_texts, lines, listed, same, starts_with, texts, without_prefix,
};
use crate::write::input::{
    PostingAmount, PostingInput, PostingInputView, TransactionInput, TransactionInputView,
    option_view, posting_inputs_view,
};

verus! {

// ---------------------------------------------------------------------------
// Accounts
// ---------------------------------------------------------------------------

pub const CHECKING_ACCOUNT: &'static str = "assets:checking";

pub const OWNER_CAPITAL_ACCOUNT: &'static str = "equity:owner capital";

pub const INTEREST_INCOME_ACCOUNT: &'static str = "income:interest";

/// The root of the payables.
pub const AP_ROOT: &'static str = "liabilities:ap";

/// What every vendor's payables account begins with.
pub const VENDOR_AP_PREFIX: &'static str = "liabilities:ap:vendor:";

/// The root of the change orders.
pub const CO_ROOT: &'static str = "expenses:change orders";

/// What the account of every change order that is not approved yet begins with.
pub const CO_PENDING_PREFIX: &'static str = "expenses:change orders:pending:";

/// The mark of the transaction that records a change order.
pub const ECO_EVENT_CREATED: &'static str = "created";

/// The mark of the transaction that approves a change order.
pub const ECO_EVENT_APPROVED: &'static str = "approved";

/// The payables account of a vendor: `liabilities:ap:vendor:{vendor}`.
pub fn vendor_ap_account(vendor: &str) -> (r: String)
    ensures
        r@ == "liabilities:ap:vendor:"@ + vendor@,
{
    cat("liabilities:ap:vendor:", vendor)
}

/// Is it a payables account?
pub open spec fn is_payable(account: Seq<char>) -> bool {
    starts_with(account, "liabilities:ap"@) && starts_with(account.skip("liabilities:ap"@.len() as int), seq![':'])
}

/// Is it a payables account, one below `liabilities:ap`?
pub fn is_ap_account(account: &str) -> (r: bool)
    ensures
        r == is_payable(account@),
{
    match without_prefix(account, "liabilities:ap") {
        Some(rest) => {
            let cs: Vec<char> = chars_of(&rest);
            proof {
                if rest@.len() > 0 {
                    assert(rest@.take(1)[0] == rest@[0]);
                    assert(rest@[0] == ':' ==> rest@.take(1) =~= seq![':']);
                }
            }
            cs.len() > 0 && cs[0] == ':'
        },
        None => false,
    }
}

/// Does the report show anything owed: a negative amount?
pub open spec fn shows_debt(balance: BalanceReportView) -> bool {
    exists|i: int, j: int|
        0 <= i < balance.rows.len() && 0 <= j < balance.rows[i].amounts.len() && (
        #[trigger] balance.rows[i].amounts[j]).quantity.mantissa < 0
}

/// Does the report show anything owed? What is owed is a negative amount of a liability.
pub fn has_outstanding_ap(balance: &BalanceReport) -> (r: bool)
    ensures
        r == shows_debt(balance@),
{
    let mut i: usize = 0;
    while i < balance.rows.len()
        invariant
            i <= balance.rows.len(),
            forall|a: int, b: int|
                0 <= a < i && 0 <= b < balance@.rows[a].amounts.len() ==> (
                #[trigger] balance@.rows[a].amounts[b]).quantity.mantissa >= 0,
        decreases balance.rows.len() - i,
    {
        let amounts: &Vec<Amount> = &balance.rows[i].amounts;
        let mut j: usize = 0;
        while j < amounts.len()
            invariant
                i < balance.rows.len(),
                j <= amounts.len(),
                *amounts == balance.rows@[i as int].amounts,
                forall|b: int| 0 <= b < j ==> (#[trigger] balance@.rows[i as int].amounts[b]).quantity.mantissa >= 0,
            decreases amounts.len() - j,
        {
            if amounts[j].quantity.mantissa < 0 {
                assert(balance@.rows[i as int].amounts[j as int].quantity.mantissa < 0);
                return true;
            }
            j += 1;
        }
        i += 1;
    }
    false
}

/// The expense account that the vendors of a trade share: `expenses:construction:{trade}`.
pub fn trade_expense_account(trade: &str) -> (r: String)
    ensures
        r@ == "expenses:construction:"@ + trade@,
{
    cat("expenses:construction:", trade)
}

/// The expense account of one professional vendor: `expenses:professional - {vendor}`.
pub fn professional_expense_account(vendor: &str) -> (r: String)
    ensures
        r@ == "expenses:professional - "@ + vendor@,
{
    cat("expenses:professional - ", vendor)
}

/// The kinds of vendor.
#[derive(Debug, Clone, Copy, PartialEq, Eq, Structural)]
pub enum VendorType {
    /// One that shares the expense account of its trade.
    Trade,
    /// One with an expense account of its own.
    Professional,
}

/// The expense account of a vendor. A vendor of a trade needs the name of the trade.
pub fn vendor_expense_account(vendor_type: VendorType, vendor: &str, trade: Option<&str>) -> (r: Result<String, String>)
    ensures
        match vendor_type {
            VendorType::Trade => match trade {
                Some(trade) => r matches Ok(account) && account@ == "expenses:construction:"@ + trade@,
                None => r matches Err(m) && m@ == "`trade` is required when vendor_type is \"trade\""@,
            },
            VendorType::Professional => r matches Ok(account) && account@ == "expenses:professional - "@ + vendor@,
        },
{
    match vendor_type {
        VendorType::Trade => match trade {
            Some(trade) => Ok(trade_expense_account(trade)),
            None => Err("`trade` is required when vendor_type is \"trade\"".to_owned()),
        },
        VendorType::Professional => Ok(professional_expense_account(vendor)),
    }
}

/// The payables account of every vendor is a payables account, and different vendors have
/// different ones.
pub proof fn law_vendor_accounts(a: Seq<char>, b: Seq<char>)
    ensures
        is_payable("liabilities:ap:vendor:"@ + a),
        "liabilities:ap:vendor:"@ + a == "liabilities:ap:vendor:"@ + b ==> a == b,
{
    let prefix = "liabilities:ap:vendor:"@;
    reveal_strlit("liabilities:ap:vendor:");
    reveal_strlit("liabilities:ap");
    let s = prefix + a;
    assert(s.take(14) =~= "liabilities:ap"@);
    assert(s.skip(14).take(1) =~= seq![':']);
    if prefix + a == prefix + b {
        assert(a =~= (prefix + a).skip(22));
        assert(b =~= (prefix + b).skip(22));
    }
}

// ---------------------------------------------------------------------------
// Transactions
// ---------------------------------------------------------------------------

/// A posting with an amount.
pub open spec fn amount_posting(account: Seq<char>, quantity: Seq<char>, commodity: Seq<char>) -> PostingInputView {
    PostingInputView { account, amount: Some((quantity, commodity)) }
}

/// The posting that balances the others.
pub open spec fn balancing_posting(account: Seq<char>) -> PostingInputView {
    PostingInputView { account, amount: None }
}

fn two_postings(debit: String, quantity: String, commodity: String, credit: String) -> (r: Vec<PostingInput>)
    ensures
        posting_inputs_view(r@) == seq![amount_posting(debit@, quantity@, commodity@), balancing_posting(credit@)],
{
    let mut postings: Vec<PostingInput> = Vec::new();
    postings.push(PostingInput { account: debit, amount: Some(PostingAmount { quantity, commodity }) });
    postings.push(PostingInput { account: credit, amount: None });
    assert(posting_inputs_view(postings@) =~= seq![
        amount_posting(debit@, quantity@, commodity@),
        balancing_posting(credit@),
    ]);
    postings
}

/// The transaction of an amount that is charged to one account and balanced by another.
pub open spec fn transfer(
    date: Civil,
    description: Seq<char>,
    debit: Seq<char>,
    amount: (Seq<char>, Seq<char>),
    credit: Seq<char>,
    tags: Seq<(Seq<char>, Seq<char>)>,
    idem: Option<Seq<char>>,
) -> TransactionInputView {
    TransactionInputView {
        date,
        description,
        postings: seq![amount_posting(debit, amount.0, amount.1), balancing_posting(credit)],
        tags,
        idem,
    }
}

/// The transaction that funds the project.
pub open spec fn funding(date: Civil, amount: (Seq<char>, Seq<char>), idem: Option<Seq<char>>) -> TransactionInputView {
    transfer(date, "Fund project"@, "assets:checking"@, amount, "equity:owner capital"@, Seq::empty(), idem)
}

/// The transaction of a vendor's invoice.
pub open spec fn invoice(
    date: Civil,
    vendor: Seq<char>,
    expense_account: Seq<char>,
    amount: (Seq<char>, Seq<char>),
    invoice_ref: Seq<char>,
    idem: Option<Seq<char>>,
) -> TransactionInputView {
    transfer(
        date,
        vendor + " invoice"@,
        expense_account,
        amount,
        "liabilities:ap:vendor:"@ + vendor,
        seq![("invoice"@, invoice_ref), ("vendor"@, vendor)],
        idem,
    )
}

/// The transaction of a payment to a vendor.
pub open spec fn vendor_payment(
    date: Civil,
    vendor: Seq<char>,
    amount: (Seq<char>, Seq<char>),
    idem: Option<Seq<char>>,
) -> TransactionInputView {
    transfer(
        date,
        "pay "@ + vendor,
        "liabilities:ap:vendor:"@ + vendor,
        amount,
        "assets:checking"@,
        seq![("vendor"@, vendor)],
        idem,
    )
}

/// The transaction of interest that was earned.
pub open spec fn interest(date: Civil, amount: (Seq<char>, Seq<char>), idem: Option<Seq<char>>) -> TransactionInputView {
    transfer(date, "Interest earned"@, "assets:checking"@, amount, "income:interest"@, Seq::empty(), idem)
}

/// A transfer charges its whole amount to one account and leaves the other to balance it; date,
/// description, tags and key are as given.
pub proof fn law_transfers_have_two_sides(
    date: Civil,
    description: Seq<char>,
    debit: Seq<char>,
    amount: (Seq<char>, Seq<char>),
    credit: Seq<char>,
    tags: Seq<(Seq<char>, Seq<char>)>,
    idem: Option<Seq<char>>,
)
    ensures
        ({
            let t = transfer(date, description, debit, amount, credit, tags, idem);
            &&& t.date == date && t.description == description && t.tags == tags && t.idem == idem
            &&& t.postings.len() == 2
            &&& t.postings[0].account == debit && t.postings[0].amount == Some(amount)
            &&& t.postings[1].account == credit && t.postings[1].amount is None
        }),
{
}

/// Money goes where the operation says. Funding brings it from the owner's capital into checking;
/// an invoice makes an expense that is owed to the vendor, under the vendor and the number of the
/// invoice; a payment takes it out of checking to what is owed to that same account; interest
/// comes from the income into checking. So paying an invoice clears what receiving it put there.
pub proof fn law_money_goes_where_the_operation_says(
    date: Civil,
    vendor: Seq<char>,
    expense: Seq<char>,
    amount: (Seq<char>, Seq<char>),
    number: Seq<char>,
    idem: Option<Seq<char>>,
)
    ensures
        ({
            let t = funding(date, amount, idem);
            &&& t.date == date && t.idem == idem && t.tags.len() == 0 && t.description == "Fund project"@
            &&& t.postings.len() == 2 && t.postings[0].amount == Some(amount) && t.postings[1].amount is None
            &&& t.postings[0].account == "assets:checking"@ && t.postings[1].account == "equity:owner capital"@
        }),
        ({
            let t = invoice(date, vendor, expense, amount, number, idem);
            &&& t.date == date && t.idem == idem && t.description == vendor + " invoice"@
            &&& t.tags == seq![("invoice"@, number), ("vendor"@, vendor)]
            &&& t.postings.len() == 2 && t.postings[0].amount == Some(amount) && t.postings[1].amount is None
            &&& t.postings[0].account == expense && t.postings[1].account == "liabilities:ap:vendor:"@ + vendor
            &&& t.postings[1].account == vendor_payment(date, vendor, amount, idem).postings[0].account
        }),
        ({
            let t = vendor_payment(date, vendor, amount, idem);
            &&& t.date == date && t.idem == idem && t.description == "pay "@ + vendor
            &&& t.tags == seq![("vendor"@, vendor)]
            &&& t.postings.len() == 2 && t.postings[0].amount == Some(amount) && t.postings[1].amount is None
            &&& t.postings[0].account == "liabilities:ap:vendor:"@ + vendor && t.postings[1].account
                == "assets:checking"@
        }),
        ({
            let t = interest(date, amount, idem);
            &&& t.date == date && t.idem == idem && t.tags.len() == 0 && t.description == "Interest earned"@
            &&& t.postings.len() == 2 && t.postings[0].amount == Some(amount) && t.postings[1].amount is None
            &&& t.postings[0].account == "assets:checking"@ && t.postings[1].account == "income:interest"@
        }),
{
}

/// Owner capital is paid into the checking account.
pub fn fund_project_input(date: Date, amount: String, commodity: String, idem: Option<String>) -> (r: TransactionInput)
    ensures
        r@ == funding(date@, (amount@, commodity@), option_view(idem)),
        r@ == (TransactionInputView {
            date: date@,
            description: "Fund project"@,
            postings: seq![
                amount_posting("assets:checking"@, amount@, commodity@),
                balancing_posting("equity:owner capital"@),
            ],
            tags: Seq::empty(),
            idem: option_view(idem),
        }),
{
    let tags: Vec<(String, String)> = Vec::new();
    assert(tags_view(tags@) =~= Seq::empty());
    TransactionInput {
        date,
        description: "Fund project".to_owned(),
        postings: two_postings(
            "assets:checking".to_owned(),
            amount,
            commodity,
            "equity:owner capital".to_owned(),
        ),
        tags,
        idem,
    }
}

/// A vendor's invoice: an expense that is owed to the vendor.
pub fn receive_invoice_input(
    date: Date,
    vendor: &str,
    expense_account: String,
    amount: String,
    commodity: String,
    invoice_ref: String,
    idem: Option<String>,
) -> (r: TransactionInput)
    ensures
        r@ == invoice(date@, vendor@, expense_account@, (amount@, commodity@), invoice_ref@, option_view(idem)),
        r@ == (TransactionInputView {
            date: date@,
            description: vendor@ + " invoice"@,
            postings: seq![
                amount_posting(expense_account@, amount@, commodity@),
                balancing_posting("liabilities:ap:vendor:"@ + vendor@),
            ],
            tags: seq![("invoice"@, invoice_ref@), ("vendor"@, vendor@)],
            idem: option_view(idem),
        }),
{
    let mut tags: Vec<(String, String)> = Vec::new();
    tags.push(("invoice".to_owned(), invoice_ref));
    tags.push(("vendor".to_owned(), vendor.to_owned()));
    assert(tags_view(tags@) =~= seq![("invoice"@, invoice_ref@), ("vendor"@, vendor@)]);
    TransactionInput {
        date,
        description: cat(vendor, " invoice"),
        postings: two_postings(expense_account, amount, commodity, vendor_ap_account(vendor)),
        tags,
        idem,
    }
}

/// A payment to a vendor: what is owed is paid from the checking account.
pub fn pay_invoice_input(date: Date, vendor: &str, amount: String, commodity: String, idem: Option<String>) -> (r:
    TransactionInput)
    ensures
        r@ == vendor_payment(date@, vendor@, (amount@, commodity@), option_view(idem)),
        r@ == (TransactionInputView {
            date: date@,
            description: "pay "@ + vendor@,
            postings: seq![
                amount_posting("liabilities:ap:vendor:"@ + vendor@, amount@, commodity@),
                balancing_posting("assets:checking"@),
            ],
            tags: seq![("vendor"@, vendor@)],
            idem: option_view(idem),
        }),
{
    let mut tags: Vec<(String, String)> = Vec::new();
    tags.push(("vendor".to_owned(), vendor.to_owned()));
    assert(tags_view(tags@) =~= seq![("vendor"@, vendor@)]);
    TransactionInput {
        date,
        description: cat("pay ", vendor),
        postings: two_postings(vendor_ap_account(vendor), amount, commodity, "assets:checking".to_owned()),
        tags,
        idem,
    }
}

/// Interest is earned on the checking account.
pub fn post_interest_input(date: Date, amount: String, commodity: String, idem: Option<String>) -> (r: TransactionInput)
    ensures
        r@ == interest(date@, (amount@, commodity@), option_view(idem)),
        r@ == (TransactionInputView {
            date: date@,
            description: "Interest earned"@,
            postings: seq![
                amount_posting("assets:checking"@, amount@, commodity@),
                balancing_posting("income:interest"@),
            ],
            tags: Seq::empty(),
            idem: option_view(idem),
        }),
{
    let tags: Vec<(String, String)> = Vec::new();
    assert(tags_view(tags@) =~= Seq::empty());
    TransactionInput {
        date,
        description: "Interest earned".to_owned(),
        postings: two_postings("assets:checking".to_owned(), amount, commodity, "income:interest".to_owned()),
        tags,
        idem,
    }
}

/// Today's date, in local time.
pub fn today() -> (r: Date)
    ensures
        exists_in_calendar(r@),
{
    Date::today()
}

// ---------------------------------------------------------------------------
// Change orders
// ---------------------------------------------------------------------------

/// The account of the approved change orders of a trade: `expenses:change orders:{trade}`.
pub fn eco_account(trade: &str) -> (r: String)
    ensures
        r@ == "expenses:change orders:"@ + trade@,
{
    cat("expenses:change orders:", trade)
}

/// The account of the change orders of a trade that are not approved yet:
/// `expenses:change orders:pending:{trade}`.
pub fn eco_pending_account(trade: &str) -> (r: String)
    ensures
        r@ == "expenses:change orders:pending:"@ + trade@,
{
    cat("expenses:change orders:pending:", trade)
}

/// The transaction that records a change order: its amount goes to the pending account of
/// the trade and is owed to the vendor.
pub open spec fn eco_created(
    date: Civil,
    eco: Seq<char>,
    trade: Seq<char>,
    vendor: Seq<char>,
    description: Seq<char>,
    amount: Seq<char>,
    commodity: Seq<char>,
    idem: Option<Seq<char>>,
) -> TransactionInputView {
    TransactionInputView {
        date,
        description: "ECO "@ + eco + ": "@ + description,
        postings: seq![
            amount_posting("expenses:change orders:pending:"@ + trade, amount, commodity),
            balancing_posting("liabilities:ap:vendor:"@ + vendor),
        ],
        tags: seq![("eco"@, eco), ("eco_event"@, "created"@), ("vendor"@, vendor)],
        idem,
    }
}

/// The transaction that records a change order.
pub fn eco_create_input(
    date: Date,
    eco: &str,
    trade: &str,
    vendor: &str,
    description: &str,
    amount: String,
    commodity: String,
    idem: Option<String>,
) -> (r: TransactionInput)
    ensures
        r@ == eco_created(
            date@,
            eco@,
            trade@,
            vendor@,
            description@,
            amount@,
            commodity@,
            option_view(idem),
        ),
{
    let mut tags: Vec<(String, String)> = Vec::new();
    tags.push(("eco".to_owned(), eco.to_owned()));
    tags.push(("eco_event".to_owned(), "created".to_owned()));
    tags.push(("vendor".to_owned(), vendor.to_owned()));
    assert(tags_view(tags@) =~= seq![("eco"@, eco@), ("eco_event"@, "created"@), ("vendor"@, vendor@)]);
    let mut text: String = cat3("ECO ", eco, ": ");
    text.append(description);
    TransactionInput {
        date,
        description: text,
        postings: two_postings(eco_pending_account(trade), amount, commodity, vendor_ap_account(vendor)),
        tags,
        idem,
    }
}

/// The transaction that approves a change order: its amount goes from the pending account of
/// the trade to the one that the budget tracks.
pub open spec fn eco_approved(
    date: Civil,
    eco: Seq<char>,
    trade: Seq<char>,
    amount: Seq<char>,
    commodity: Seq<char>,
) -> TransactionInputView {
    TransactionInputView {
        date,
        description: "ECO "@ + eco + ": approved"@,
        postings: seq![
            amount_posting("expenses:change orders:"@ + trade, amount, commodity),
            balancing_posting("expenses:change orders:pending:"@ + trade),
        ],
        tags: seq![("eco"@, eco), ("eco_event"@, "approved"@)],
        idem: None,
    }
}

/// The transaction that approves a change order.
pub fn eco_approve_input(date: Date, eco: &str, trade: &str, amount: String, commodity: String) -> (r: TransactionInput)
    ensures
        r@ == eco_approved(date@, eco@, trade@, amount@, commodity@),
{
    let mut tags: Vec<(String, String)> = Vec::new();
    tags.push(("eco".to_owned(), eco.to_owned()));
    tags.push(("eco_event".to_owned(), "approved".to_owned()));
    assert(tags_view(tags@) =~= seq![("eco"@, eco@), ("eco_event"@, "approved"@)]);
    TransactionInput {
        date,
        description: cat3("ECO ", eco, ": approved"),
        postings: two_postings(eco_account(trade), amount, commodity, eco_pending_account(trade)),
        tags,
        idem: None,
    }
}

/// The trade and the amount of a change order, in its first posting with an amount on a
/// pending account.
pub open spec fn pending_order(postings: Seq<PostingView>) -> Option<(Seq<char>, AmountView)>
    decreases postings.len(),
{
    if postings.len() == 0 {
        None
    } else if starts_with(postings[0].account, "expenses:change orders:pending:"@) && postings[0].amounts.len() > 0 {
        Some(
            (
                postings[0].account.skip("expenses:change orders:pending:"@.len() as int),
                postings[0].amounts[0],
            ),
        )
    } else {
        pending_order(postings.skip(1))
    }
}

/// The trade and the amount of a change order, from the transaction that recorded it.
pub fn eco_details(txn: &Transaction) -> (r: Option<(String, &Amount)>)
    ensures
        match r {
            Some((trade, amount)) => pending_order(txn@.postings) == Some((trade@, amount@)),
            None => pending_order(txn@.postings) is None,
        },
{
    let ghost all = txn@.postings;
    let mut i: usize = 0;
    assert(all.skip(0) =~= all);
    while i < txn.postings.len()
        invariant
            i <= txn.postings.len(),
            all == postings_view(txn.postings@),
            pending_order(all) == pending_order(all.skip(i as int)),
        decreases txn.postings.len() - i,
    {
        let p: &Posting = &txn.postings[i];
        assert(all.skip(i as int)[0] == p@);
        if let Some(trade) = without_prefix(&p.account, "expenses:change orders:pending:") {
            if p.amounts.len() > 0 {
                assert(p@.amounts[0] == p.amounts@[0]@);
                return Some((trade, &p.amounts[0]));
            }
        }
        proof {
            assert(all.skip(i as int).skip(1) =~= all.skip(i + 1));
        }
        i += 1;
    }
    None
}

/// The trade and the amount of a change order can be read back from the postings that
/// record it.
pub proof fn law_recorded_order_reads_back(trade: Seq<char>, postings: Seq<PostingView>)
    requires
        postings.len() > 0,
        postings[0].account == "expenses:change orders:pending:"@ + trade,
        postings[0].amounts.len() > 0,
    ensures
        pending_order(postings) == Some((trade, postings[0].amounts[0])),
{
    let prefix = "expenses:change orders:pending:"@;
    let account = prefix + trade;
    assert(account.take(prefix.len() as int) =~= prefix);
    assert(account.skip(prefix.len() as int) =~= trade);
}

/// Approving moves the amount of a change order out of the account that recording it put it
/// in: the account that the one is charged to is the account that balances the other.
pub proof fn law_approval_takes_from_pending(
    date: Civil,
    eco: Seq<char>,
    trade: Seq<char>,
    vendor: Seq<char>,
    description: Seq<char>,
    amount: Seq<char>,
    commodity: Seq<char>,
    idem: Option<Seq<char>>,
)
    ensures
        ({
            let created = eco_created(date, eco, trade, vendor, description, amount, commodity, idem);
            let approved = eco_approved(date, eco, trade, amount, commodity);
            &&& approved.postings[1].account == created.postings[0].account
            &&& approved.postings[0].amount == created.postings[0].amount
            &&& approved.tags[0] == created.tags[0]
        }),
{
}

// ---------------------------------------------------------------------------
// Budget against actual
// ---------------------------------------------------------------------------

/// Is the first quantity larger than the second?
pub open spec fn is_more(a: Quantity, b: Quantity) -> bool {
    scaled(a, common_places(a, b) as nat) > scaled(b, common_places(a, b) as nat)
}

proof fn lemma_scaled_sign(q: Quantity, places: nat)
    requires
        q.places <= places,
    ensures
        q.mantissa > 0 ==> scaled(q, places) > 0,
        q.mantissa < 0 ==> scaled(q, places) < 0,
        q.mantissa == 0 ==> scaled(q, places) == 0,
        q.places == places ==> scaled(q, places) == q.mantissa,
{
    let k = pow10((places - q.places) as nat);
    lemma_pow10_positive((places - q.places) as nat);
    assert(pow10(0) == 1);
    assert(q.mantissa > 0 ==> q.mantissa * k > 0) by (nonlinear_arith)
        requires
            k >= 1,
    ;
    assert(q.mantissa < 0 ==> q.mantissa * k < 0) by (nonlinear_arith)
        requires
            k >= 1,
    ;
    assert(q.mantissa == 0 ==> q.mantissa * k == 0) by (nonlinear_arith);
    assert(q.mantissa * 1 == q.mantissa);
}

/// Does `actual` exceed `goal`? The two are compared at the same number of places: `300.00`
/// and `500` are compared as 30000 and 50000.
pub fn exceeds(actual: &Quantity, goal: &Quantity) -> (r: bool)
    ensures
        r == is_more(*actual, *goal),
{
    let places: u32 = if actual.places >= goal.places {
        actual.places
    } else {
        goal.places
    };
    proof {
        lemma_scaled_sign(*actual, places as nat);
        lemma_scaled_sign(*goal, places as nat);
    }
    match (scale(*actual, places), scale(*goal, places)) {
        (Some(a), Some(b)) => a > b,
        // Only the one with fewer places can be too large, and then its sign decides.
        (None, _) => actual.mantissa > 0,
        (_, None) => goal.mantissa < 0,
    }
}

/// No quantity exceeds itself, and of two quantities at most one exceeds the other.
pub proof fn law_exceeds_is_strict(a: Quantity, b: Quantity)
    ensures
        !is_more(a, a),
        is_more(a, b) ==> !is_more(b, a),
{
}

/// Writing a quantity with more decimal places does not change whether it exceeds another.
pub proof fn law_exceeds_ignores_trailing_zeros(a: Quantity, b: Quantity)
    requires
        a.mantissa * 10 <= i128::MAX,
        a.mantissa * 10 >= i128::MIN,
        a.places < u32::MAX,
    ensures
        is_more(Quantity { mantissa: (a.mantissa * 10) as i128, places: (a.places + 1) as u32 }, b) == is_more(a, b),
        is_more(b, Quantity { mantissa: (a.mantissa * 10) as i128, places: (a.places + 1) as u32 }) == is_more(b, a),
{
    let a2 = Quantity { mantissa: (a.mantissa * 10) as i128, places: (a.places + 1) as u32 };
    let p = common_places(a, b) as nat;
    let p2 = common_places(a2, b) as nat;
    let m = a.mantissa as int;
    let n = b.mantissa as int;
    if b.places > a.places {
        assert(p2 == p);
        let k = pow10((p - a.places - 1) as nat);
        assert(pow10((p - a.places) as nat) == 10 * k);
        assert((m * 10) * k == m * (10 * k)) by (nonlinear_arith);
    } else {
        assert(p2 == p + 1);
        let k = pow10((p - b.places) as nat);
        assert(pow10((p2 - b.places) as nat) == 10 * k);
        assert(pow10(0) == 1);
        lemma_scaled_sign(a2, p2);
        lemma_scaled_sign(a, p);
        assert(n * (10 * k) == 10 * (n * k)) by (nonlinear_arith);
    }
}

/// A goal in a report; `(none)` where none is set.
pub open spec fn goal_cell(goal: Seq<AmountView>) -> Seq<char> {
    if goal.len() == 0 {
        "(none)"@
    } else {
        amounts_text(goal)
    }
}

/// The line of one account.
pub open spec fn budget_line(label: Seq<char>, actual: Seq<AmountView>, goal: Seq<AmountView>) -> Seq<char> {
    label + "  actual "@ + amounts_text(actual) + " | budget "@ + goal_cell(goal)
}

/// The lines of a budget report.
pub open spec fn budget_report_lines(report: BudgetReportView) -> Seq<Seq<char>> {
    let rows = Seq::new(
        report.rows.len(),
        |i: int| budget_line(report.rows[i].account, report.rows[i].actual, report.rows[i].goal),
    );
    let body = if report.rows.len() == 0 {
        seq!["(no budgeted accounts and no activity)"@]
    } else {
        rows
    };
    body.push(budget_line("total"@, report.total_actual, report.total_goal))
}

fn budget_row(label: &str, actual: &Vec<Amount>, goal: &Vec<Amount>) -> (r: String)
    ensures
        r@ == budget_line(label@, amounts_view(actual@), amounts_view(goal@)),
{
    let mut out: String = cat3(label, "  actual ", &render_amounts(actual));
    out.append(" | budget ");
    if goal.len() == 0 {
        out.append("(none)");
    } else {
        out.append(&render_amounts(goal));
    }
    out
}

/// A budget report as text: a line for each account, then the totals.
pub fn render_budget(report: &BudgetReport) -> (r: String)
    ensures
        r@ == join(budget_report_lines(report@), "\n"@),
{
    let ghost all = budget_report_lines(report@);
    let mut out: Vec<String> = Vec::new();
    let mut i: usize = 0;
    while i < report.rows.len()
        invariant
            i <= report.rows.len(),
            out.len() == i,
            forall|j: int|
                0 <= j < i ==> (#[trigger] out@[j])@ == budget_line(
                    report@.rows[j].account,
                    report@.rows[j].actual,
                    report@.rows[j].goal,
                ),
        decreases report.rows.len() - i,
    {
        let row: &BudgetRow = &report.rows[i];
        out.push(budget_row(&row.account, &row.actual, &row.goal));
        i += 1;
    }
    if report.rows.len() == 0 {
        out.push("(no budgeted accounts and no activity)".to_owned());
    }
    out.push(budget_row("total", &report.total_actual, &report.total_goal));
    assert(texts(out@) =~= all);
    join_texts(&out, "\n")
}

// ---------------------------------------------------------------------------
// Age of payables
// ---------------------------------------------------------------------------

/// How old an outstanding payable is.
#[derive(Debug, Clone, Copy, PartialEq, Eq, Structural)]
pub enum AgeCategory {
    /// Up to 30 days.
    Current,
    Days31to60,
    Days61to90,
    /// More than 90 days.
    Over90Days,
}

/// The words for an age.
pub open spec fn age_label(a: AgeCategory) -> Seq<char> {
    match a {
        AgeCategory::Current => "current (0-30 days)"@,
        AgeCategory::Days31to60 => "31-60 days"@,
        AgeCategory::Days61to90 => "61-90 days"@,
        AgeCategory::Over90Days => "90+ days (overdue)"@,
    }
}

impl AgeCategory {
    /// The words for the age.
    pub fn label(&self) -> (r: &'static str)
        ensures
            r@ == age_label(*self),
    {
        match self {
            AgeCategory::Current => "current (0-30 days)",
            AgeCategory::Days31to60 => "31-60 days",
            AgeCategory::Days61to90 => "61-90 days",
            AgeCategory::Over90Days => "90+ days (overdue)",
        }
    }

    /// Is it overdue?
    pub fn is_overdue(&self) -> (r: bool)
        ensures
            r == (*self == AgeCategory::Over90Days),
    {
        match self {
            AgeCategory::Over90Days => true,
            _ => false,
        }
    }
}

/// The category of an age in days.
pub open spec fn category_of(days: int) -> AgeCategory {
    if days <= 30 {
        AgeCategory::Current
    } else if days <= 60 {
        AgeCategory::Days31to60
    } else if days <= 90 {
        AgeCategory::Days61to90
    } else {
        AgeCategory::Over90Days
    }
}

/// The category of an age in days.
pub fn age_category(days: u64) -> (r: AgeCategory)
    ensures
        r == category_of(days as int),
{
    if days <= 30 {
        AgeCategory::Current
    } else if days <= 60 {
        AgeCategory::Days31to60
    } else if days <= 90 {
        AgeCategory::Days61to90
    } else {
        AgeCategory::Over90Days
    }
}

/// The rank of a category.
pub open spec fn age_rank(a: AgeCategory) -> int {
    match a {
        AgeCategory::Current => 0,
        AgeCategory::Days31to60 => 1,
        AgeCategory::Days61to90 => 2,
        AgeCategory::Over90Days => 3,
    }
}

/// Payables only grow older: more days never lead to a younger category, and a payable is
/// overdue exactly after more than 90 days.
pub proof fn law_age_is_monotone(days: int, more: int)
    requires
        days <= more,
    ensures
        age_rank(category_of(days)) <= age_rank(category_of(more)),
        category_of(days) == AgeCategory::Over90Days <==> days > 90,
{
}

/// One line of the report on the age of payables.
#[derive(Debug, Clone)]
pub struct ApAgingEntry {
    /// The vendor's payables account.
    pub vendor_account: String,
    /// What is outstanding.
    pub outstanding: Vec<Amount>,
    /// The date of the oldest transaction on the account that is tagged as an invoice.
    pub oldest_invoice_date: Option<Date>,
    /// How old that is.
    pub age: Option<AgeCategory>,
}

/// What an [`ApAgingEntry`] holds.
#[verifier::ext_equal]
pub struct ApAgingView {
    pub vendor_account: Seq<char>,
    pub outstanding: Seq<AmountView>,
    pub oldest_invoice_date: Option<Civil>,
    pub age: Option<AgeCategory>,
}

/// What an optional date holds.
pub open spec fn date_view(d: Option<Date>) -> Option<Civil> {
    match d {
        Some(d) => Some(d@),
        None => None,
    }
}

impl View for ApAgingEntry {
    type V = ApAgingView;

    open spec fn view(&self) -> ApAgingView {
        ApAgingView {
            vendor_account: self.vendor_account@,
            outstanding: amounts_view(self.outstanding@),
            oldest_invoice_date: date_view(self.oldest_invoice_date),
            age: self.age,
        }
    }
}

/// What a list of entries holds.
pub open spec fn aging_view(v: Seq<ApAgingEntry>) -> Seq<ApAgingView> {
    Seq::new(v.len(), |i: int| v[i]@)
}

/// Is there a tag with this name?
pub open spec fn has_tag_named(tags: Seq<(Seq<char>, Seq<char>)>, key: Seq<char>) -> bool {
    exists|i: int| 0 <= i < tags.len() && (#[trigger] tags[i]).0 == key
}

/// Is it an invoice on the account: has it a posting to the account, and is it or such a
/// posting tagged as an invoice?
pub open spec fn is_invoice_on(txn: TransactionView, account: Seq<char>) -> bool {
    exists|i: int|
        0 <= i < txn.postings.len() && (#[trigger] txn.postings[i]).account == account && (has_tag_named(
            txn.tags,
            "invoice"@,
        ) || has_tag_named(txn.postings[i].tags, "invoice"@))
}

/// The date of the oldest invoice on the account.
pub open spec fn oldest_invoice(txns: Seq<TransactionView>, account: Seq<char>) -> Option<Civil>
    decreases txns.len(),
{
    if txns.len() == 0 {
        None
    } else {
        let best = oldest_invoice(txns.drop_last(), account);
        let last = txns.last();
        if !is_invoice_on(last, account) {
            best
        } else if best is Some && !earlier(last.date, best->0) {
            best
        } else {
            Some(last.date)
        }
    }
}

fn tag_named(tags: &Vec<(String, String)>, key: &str) -> (r: bool)
    ensures
        r == has_tag_named(tags_view(tags@), key@),
{
    let mut i: usize = 0;
    while i < tags.len()
        invariant
            i <= tags.len(),
            forall|j: int| 0 <= j < i ==> (#[trigger] tags_view(tags@)[j]).0 != key@,
        decreases tags.len() - i,
    {
        if same(&tags[i].0, key) {
            assert(tags_view(tags@)[i as int].0 == key@);
            return true;
        }
        i += 1;
    }
    false
}

fn invoice_on(txn: &Transaction, account: &str) -> (r: bool)
    ensures
        r == is_invoice_on(txn@, account@),
{
    let tagged: bool = tag_named(&txn.tags, "invoice");
    let mut i: usize = 0;
    while i < txn.postings.len()
        invariant
            i <= txn.postings.len(),
            tagged == has_tag_named(txn@.tags, "invoice"@),
            forall|j: int|
                0 <= j < i ==> !((#[trigger] txn@.postings[j]).account == account@ && (tagged || has_tag_named(
                    txn@.postings[j].tags,
                    "invoice"@,
                ))),
        decreases txn.postings.len() - i,
    {
        assert(txn@.postings[i as int] == txn.postings@[i as int]@);
        if same(&txn.postings[i].account, account) && (tagged || tag_named(&txn.postings[i].tags, "invoice")) {
            return true;
        }
        i += 1;
    }
    false
}

/// The date of the oldest invoice on the account.
pub fn oldest_invoice_date_for(account: &str, transactions: &[Transaction]) -> (r: Option<Date>)
    ensures
        date_view(r) == oldest_invoice(transactions_view(transactions@), account@),
{
    let ghost all = transactions_view(transactions@);
    let mut best: Option<Date> = None;
    let mut i: usize = 0;
    while i < transactions.len()
        invariant
            i <= transactions.len(),
            all == transactions_view(transactions@),
            date_view(best) == oldest_invoice(all.take(i as int), account@),
        decreases transactions.len() - i,
    {
        proof {
            assert(all.take(i + 1).drop_last() =~= all.take(i as int));
            assert(all.take(i + 1).last() == transactions@[i as int]@);
        }
        if invoice_on(&transactions[i], account) {
            let date: Date = transactions[i].date;
            best = match best {
                Some(d) => if date.is_before(&d) {
                    Some(date)
                } else {
                    Some(d)
                },
                None => Some(date),
            };
        }
        i += 1;
    }
    assert(all.take(i as int) =~= all);
    best
}

/// The oldest invoice is the date of an invoice on the account, no invoice on the account is
/// older, and there is one wherever there is an invoice.
pub proof fn law_oldest_invoice_is_oldest(txns: Seq<TransactionView>, account: Seq<char>)
    ensures
        oldest_invoice(txns, account) matches Some(d) ==> exists|i: int|
            0 <= i < txns.len() && is_invoice_on(#[trigger] txns[i], account) && txns[i].date == d,
        forall|i: int|
            0 <= i < txns.len() && is_invoice_on(#[trigger] txns[i], account) ==> (oldest_invoice(
                txns,
                account,
            ) matches Some(d) && !earlier(txns[i].date, d)),
    decreases txns.len(),
{
    if txns.len() > 0 {
        let init = txns.drop_last();
        let last = txns.len() - 1;
        law_oldest_invoice_is_oldest(init, account);
        let d = oldest_invoice(txns, account);
        if d is Some {
            if is_invoice_on(txns[last], account) && d == Some(txns[last].date) {
            } else {
                let w = choose|w: int|
                    0 <= w < init.len() && is_invoice_on(#[trigger] init[w], account) && init[w].date == d->0;
                assert(txns[w] == init[w]);
            }
        }
        assert forall|i: int| 0 <= i < txns.len() && is_invoice_on(#[trigger] txns[i], account) implies (
        d matches Some(x) && !earlier(txns[i].date, x)) by {
            if i < init.len() {
                assert(init[i] == txns[i]);
                assert(is_invoice_on(init[i], account));
            }
        }
    }
}

/// How old a payable with this oldest invoice is; unknown where there is no invoice or it
/// lies in the future.
pub open spec fn age_of(oldest: Option<Civil>, as_of: Civil) -> Option<AgeCategory> {
    match oldest {
        None => None,
        Some(d) => {
            let days = day_number(as_of) - day_number(d);
            if days < 0 {
                None
            } else {
                Some(category_of(days))
            }
        },
    }
}

/// A payable only grows older: on a later day it is in the same category or an older one.
pub proof fn law_payables_grow_older(oldest: Civil, day: Civil, later: Civil)
    requires
        exists_in_calendar(day),
        exists_in_calendar(later),
        earlier(day, later),
    ensures
        age_of(Some(oldest), day) matches Some(a) ==> (age_of(Some(oldest), later) matches Some(b) && age_rank(a)
            <= age_rank(b)),
{
    law_day_numbers_follow_the_calendar(day, later);
}

/// Is it a payables account with something outstanding?
pub open spec fn is_outstanding(row: AccountBalanceView) -> bool {
    is_payable(row.account) && exists|i: int| 0 <= i < row.amounts.len() && (#[trigger] row.amounts[i]).quantity.mantissa
        != 0
}

/// The line for one account.
pub open spec fn aging_entry(row: AccountBalanceView, txns: Seq<TransactionView>, as_of: Civil) -> ApAgingView {
    let oldest = oldest_invoice(txns, row.account);
    ApAgingView {
        vendor_account: row.account,
        outstanding: row.amounts,
        oldest_invoice_date: oldest,
        age: age_of(oldest, as_of),
    }
}

/// The lines for the outstanding accounts, in order.
pub open spec fn aging_entries(rows: Seq<AccountBalanceView>, txns: Seq<TransactionView>, as_of: Civil) -> Seq<
    ApAgingView,
>
    decreases rows.len(),
{
    if rows.len() == 0 {
        Seq::empty()
    } else {
        let init = aging_entries(rows.drop_last(), txns, as_of);
        if is_outstanding(rows.last()) {
            init.push(aging_entry(rows.last(), txns, as_of))
        } else {
            init
        }
    }
}

fn outstanding_row(row: &AccountBalance) -> (r: bool)
    ensures
        r == is_outstanding(row@),
{
    if !is_ap_account(&row.account) {
        return false;
    }
    let mut i: usize = 0;
    while i < row.amounts.len()
        invariant
            i <= row.amounts.len(),
            is_payable(row@.account),
            forall|j: int| 0 <= j < i ==> (#[trigger] row@.amounts[j]).quantity.mantissa == 0,
        decreases row.amounts.len() - i,
    {
        if row.amounts[i].quantity.mantissa != 0 {
            assert(row@.amounts[i as int].quantity.mantissa != 0);
            return true;
        }
        i += 1;
    }
    false
}

/// The age of the payables: for each payables account with something outstanding, the date
/// of its oldest invoice and how old that is on the day `as_of`.
pub fn compute_ap_aging(balance: &BalanceReport, transactions: &[Transaction], as_of: Date) -> (r: Vec<ApAgingEntry>)
    ensures
        aging_view(r@) == aging_entries(balance@.rows, transactions_view(transactions@), as_of@),
{
    let ghost rows = balance@.rows;
    let ghost txns = transactions_view(transactions@);
    let mut out: Vec<ApAgingEntry> = Vec::new();
    let mut i: usize = 0;
    assert(aging_view(out@) =~= aging_entries(rows.take(0), txns, as_of@));
    while i < balance.rows.len()
        invariant
            i <= balance.rows.len(),
            rows == balances_view(balance.rows@),
            txns == transactions_view(transactions@),
            aging_view(out@) == aging_entries(rows.take(i as int), txns, as_of@),
        decreases balance.rows.len() - i,
    {
        let row: &AccountBalance = &balance.rows[i];
        let ghost before = aging_view(out@);
        proof {
            assert(rows.take(i + 1).drop_last() =~= rows.take(i as int));
            assert(rows.take(i + 1).last() == row@);
        }
        if outstanding_row(row) {
            let oldest: Option<Date> = oldest_invoice_date_for(&row.account, transactions);
            let age: Option<AgeCategory> = match oldest {
                Some(d) => {
                    let days: i64 = as_of.days_since(d);
                    if days < 0 {
                        None
                    } else {
                        Some(age_category(days as u64))
                    }
                },
                None => None,
            };
            let entry: ApAgingEntry = ApAgingEntry {
                vendor_account: row.account.clone(),
                outstanding: copy_amounts(&row.amounts),
                oldest_invoice_date: oldest,
                age,
            };
            let ghost added = entry@;
            out.push(entry);
            proof {
                assert(added == aging_entry(row@, txns, as_of@));
                assert(aging_view(out@) =~= before.push(added));
            }
        }
        i += 1;
    }
    assert(rows.take(i as int) =~= rows);
    out
}

// ---------------------------------------------------------------------------
// Reports as text
// ---------------------------------------------------------------------------

/// The lines of one section of a statement.
pub open spec fn section_lines(s: SubreportView) -> Seq<Seq<char>> {
    let rows = Seq::new(s.rows.len(), |i: int| "  "@ + s.rows[i].account + "  "@ + amounts_text(s.rows[i].total));
    let body = if s.rows.len() == 0 {
        seq!["  (none)"@]
    } else {
        rows
    };
    seq![s.name + ":"@] + body + seq!["  Subtotal: "@ + amounts_text(s.totals)]
}

/// The lines of the sections.
pub open spec fn sections_lines(sections: Seq<SubreportView>) -> Seq<Seq<char>>
    decreases sections.len(),
{
    if sections.len() == 0 {
        Seq::empty()
    } else {
        sections_lines(sections.drop_last()) + section_lines(sections.last())
    }
}

/// The lines of a statement: the title, the sections, the net total.
pub open spec fn statement_lines(report: CompositeReportView) -> Seq<Seq<char>> {
    seq![report.title] + sections_lines(report.subreports) + seq!["Net: "@ + amounts_text(report.totals)]
}

fn push_section(out: &mut Vec<String>, sub: &Subreport)
    ensures
        texts(final(out)@) == texts(old(out)@) + section_lines(sub@),
{
    let ghost all = section_lines(sub@);
    let ghost before = texts(out@);
    out.push(cat(&sub.name, ":"));
    assert(texts(out@) =~= before + all.take(1));
    let mut i: usize = 0;
    while i < sub.rows.len()
        invariant
            i <= sub.rows.len(),
            all == section_lines(sub@),
            texts(out@) == before + all.take(i + 1),
        decreases sub.rows.len() - i,
    {
        let ghost so_far = texts(out@);
        let mut line: String = cat3("  ", &sub.rows[i].account, "  ");
        line.append(&render_amounts(&sub.rows[i].total));
        out.push(line);
        proof {
            assert(all[i + 1] == line@);
            assert(texts(out@) =~= so_far.push(line@));
            assert(texts(out@) =~= before + all.take(i + 2));
        }
        i += 1;
    }
    let ghost so_far = texts(out@);
    if sub.rows.len() == 0 {
        out.push("  (none)".to_owned());
        assert(texts(out@) =~= so_far.push("  (none)"@));
        assert(texts(out@) =~= before + all.take(2));
    }
    let ghost listed = texts(out@);
    let total: String = cat("  Subtotal: ", &render_amounts(&sub.totals));
    out.push(total);
    proof {
        assert(texts(out@) =~= listed.push(total@));
        assert(all.last() == total@);
        assert(all.drop_last() =~= all.take(all.len() - 1));
        assert(texts(out@) =~= before + all);
    }
}

/// A statement as text.
pub fn render_composite(report: &CompositeReport) -> (r: String)
    ensures
        r@ == join(statement_lines(report@), "\n"@),
{
    let ghost all = report@.subreports;
    let mut out: Vec<String> = Vec::new();
    out.push(report.title.clone());
    let mut i: usize = 0;
    assert(texts(out@) =~= seq![report.title@] + sections_lines(all.take(0)));
    while i < report.subreports.len()
        invariant
            i <= report.subreports.len(),
            all == subreports_view(report.subreports@),
            texts(out@) == seq![report.title@] + sections_lines(all.take(i as int)),
        decreases report.subreports.len() - i,
    {
        let ghost before = texts(out@);
        push_section(&mut out, &report.subreports[i]);
        proof {
            assert(all.take(i + 1).drop_last() =~= all.take(i as int));
            assert(all.take(i + 1).last() == report.subreports@[i as int]@);
            assert(texts(out@) =~= seq![report.title@] + sections_lines(all.take(i + 1)));
        }
        i += 1;
    }
    assert(all.take(i as int) =~= all);
    out.push(cat("Net: ", &render_amounts(&report.totals)));
    assert(texts(out@) =~= statement_lines(report@));
    join_texts(&out, "\n")
}

/// A date in a report, or `(unknown)`.
pub open spec fn date_cell(d: Option<Civil>) -> Seq<char> {
    match d {
        Some(d) => civil_text(d),
        None => "(unknown)"@,
    }
}

/// A date in a report, or `(unknown)`.
pub fn date_text(d: Option<Date>) -> (r: String)
    ensures
        r@ == date_cell(date_view(d)),
{
    match d {
        Some(d) => d.to_string(),
        None => "(unknown)".to_owned(),
    }
}

/// The line of one payables account.
pub open spec fn aging_line(e: ApAgingView) -> Seq<char> {
    "  "@ + e.vendor_account + "  "@ + amounts_text(e.outstanding) + "  oldest invoice: "@ + date_cell(
        e.oldest_invoice_date,
    ) + "  ["@ + match e.age {
        Some(a) => age_label(a),
        None => "(no invoice date)"@,
    } + "]"@
}

/// The report on the age of payables.
pub open spec fn aging_text(entries: Seq<ApAgingView>, as_of: Civil) -> Seq<char> {
    if entries.len() == 0 {
        "AP aging as of "@ + civil_text(as_of) + ": (no outstanding payables)"@
    } else {
        join(
            seq!["AP aging as of "@ + civil_text(as_of) + ":"@] + Seq::new(
                entries.len(),
                |i: int| aging_line(entries[i]),
            ),
            "\n"@,
        )
    }
}

/// The report on the age of payables as text.
pub fn render_ap_aging(entries: &[ApAgingEntry], as_of: Date) -> (r: String)
    ensures
        r@ == aging_text(aging_view(entries@), as_of@),
{
    if entries.len() == 0 {
        return cat3("AP aging as of ", &as_of.to_string(), ": (no outstanding payables)");
    }
    let mut out: Vec<String> = Vec::new();
    out.push(cat3("AP aging as of ", &as_of.to_string(), ":"));
    let mut i: usize = 0;
    while i < entries.len()
        invariant
            i <= entries.len(),
            out.len() == i + 1,
            out@[0]@ == "AP aging as of "@ + civil_text(as_of@) + ":"@,
            forall|j: int| 0 <= j < i ==> (#[trigger] out@[j + 1])@ == aging_line(entries@[j]@),
        decreases entries.len() - i,
    {
        let e: &ApAgingEntry = &entries[i];
        let mut line: String = cat3("  ", &e.vendor_account, "  ");
        line.append(&render_amounts(&e.outstanding));
        line.append("  oldest invoice: ");
        line.append(&date_text(e.oldest_invoice_date));
        line.append("  [");
        match e.age {
            Some(a) => {
                line.append(a.label());
            },
            None => {
                line.append("(no invoice date)");
            },
        }
        line.append("]");
        assert(line@ == aging_line(e@));
        out.push(line);
        i += 1;
    }
    proof {
        let views = aging_view(entries@);
        let all = seq!["AP aging as of "@ + civil_text(as_of@) + ":"@] + Seq::new(
            views.len(),
            |i: int| aging_line(views[i]),
        );
        assert forall|k: int| 0 <= k < all.len() implies texts(out@)[k] == all[k] by {
            if k > 0 {
                assert(out@[(k - 1) + 1]@ == aging_line(entries@[k - 1]@));
            }
        }
        assert(texts(out@) =~= all);
    }
    join_texts(&out, "\n")
}

// ---------------------------------------------------------------------------
// What the reports say
// ---------------------------------------------------------------------------

/// Is it billed on the account: does it post to the account, and is the transaction, or that
/// posting, tagged `invoice`?
pub open spec fn is_billed_on(txn: TransactionView, account: Seq<char>) -> bool {
    ||| exists|i: int, k: int|
        0 <= i < txn.postings.len() && (#[trigger] txn.postings[i]).account == account && 0 <= k < txn.tags.len() && (
        #[trigger] txn.tags[k]).0 == "invoice"@
    ||| exists|i: int, k: int|
        0 <= i < txn.postings.len() && txn.postings[i].account == account && 0 <= k < txn.postings[i].tags.len() && (
        #[trigger] txn.postings[i].tags[k]).0 == "invoice"@
}

proof fn lemma_billed(txn: TransactionView, account: Seq<char>)
    ensures
        is_billed_on(txn, account) == is_invoice_on(txn, account),
{
    if is_invoice_on(txn, account) {
        let i = choose|i: int|
            0 <= i < txn.postings.len() && (#[trigger] txn.postings[i]).account == account && (has_tag_named(
                txn.tags,
                "invoice"@,
            ) || has_tag_named(txn.postings[i].tags, "invoice"@));
        if has_tag_named(txn.tags, "invoice"@) {
            let k = choose|k: int| 0 <= k < txn.tags.len() && (#[trigger] txn.tags[k]).0 == "invoice"@;
            assert(txn.postings[i].account == account && txn.tags[k].0 == "invoice"@);
        } else {
            let k = choose|k: int|
                0 <= k < txn.postings[i].tags.len() && (#[trigger] txn.postings[i].tags[k]).0 == "invoice"@;
            assert(txn.postings[i].tags[k].0 == "invoice"@);
        }
    }
    if is_billed_on(txn, account) {
        if exists|i: int, k: int|
            0 <= i < txn.postings.len() && (#[trigger] txn.postings[i]).account == account && 0 <= k < txn.tags.len() && (
            #[trigger] txn.tags[k]).0 == "invoice"@ {
            let (i, k) = choose|i: int, k: int|
                0 <= i < txn.postings.len() && (#[trigger] txn.postings[i]).account == account && 0 <= k < txn.tags.len()
                    && (#[trigger] txn.tags[k]).0 == "invoice"@;
            assert(has_tag_named(txn.tags, "invoice"@));
            assert(txn.postings[i].account == account);
        } else {
            let (i, k) = choose|i: int, k: int|
                0 <= i < txn.postings.len() && txn.postings[i].account == account && 0 <= k < txn.postings[i].tags.len()
                    && (#[trigger] txn.postings[i].tags[k]).0 == "invoice"@;
            assert(has_tag_named(txn.postings[i].tags, "invoice"@));
        }
    }
}

/// The category of an entry of the report on payables is its age in days. With `days` from the
/// oldest invoice to the day of the report, it is current exactly up to 30 days, then up to 60,
/// then up to 90, and overdue beyond; there is none before the invoice, and none without one.
pub proof fn law_entry_is_as_old_as_its_invoice(
    rows: Seq<AccountBalanceView>,
    txns: Seq<TransactionView>,
    as_of: Civil,
    k: int,
)
    requires
        0 <= k < aging_entries(rows, txns, as_of).len(),
    ensures
        ({
            let e = aging_entries(rows, txns, as_of)[k];
            match e.oldest_invoice_date {
                None => e.age is None,
                Some(d) => {
                    let days = day_number(as_of) - day_number(d);
                    &&& e.age is None <==> days < 0
                    &&& e.age == Some(AgeCategory::Current) <==> 0 <= days <= 30
                    &&& e.age == Some(AgeCategory::Days31to60) <==> 31 <= days <= 60
                    &&& e.age == Some(AgeCategory::Days61to90) <==> 61 <= days <= 90
                    &&& e.age == Some(AgeCategory::Over90Days) <==> days > 90
                },
            }
        }),
    decreases rows.len(),
{
    if rows.len() > 0 {
        let init = aging_entries(rows.drop_last(), txns, as_of);
        if k < init.len() {
            law_entry_is_as_old_as_its_invoice(rows.drop_last(), txns, as_of, k);
            assert(aging_entries(rows, txns, as_of)[k] == init[k]);
        }
    }
}

/// The report on payables has an entry for each payables account with an amount that is not
/// zero, in the order of the balances, and no other: the entries of two lists of balances are
/// those of the one and then those of the other. The entry shows the account and what is
/// outstanding on it, and the date of an invoice on it that no other is older than, wherever
/// there is one.
pub proof fn law_aging_lists_what_is_outstanding(
    a: Seq<AccountBalanceView>,
    b: Seq<AccountBalanceView>,
    row: AccountBalanceView,
    txns: Seq<TransactionView>,
    as_of: Civil,
)
    ensures
        aging_entries(a + b, txns, as_of) == aging_entries(a, txns, as_of) + aging_entries(b, txns, as_of),
        aging_entries(Seq::empty(), txns, as_of).len() == 0,
        ({
            let found = aging_entries(seq![row], txns, as_of);
            &&& found.len() == if row.account.len() >= 15 && row.account.take(15) == "liabilities:ap:"@ && exists|i: int|
                0 <= i < row.amounts.len() && (#[trigger] row.amounts[i]).quantity.mantissa != 0 {
                1int
            } else {
                0
            }
            &&& found.len() == 1 ==> {
                &&& found[0].vendor_account == row.account
                &&& found[0].outstanding == row.amounts
                &&& found[0].oldest_invoice_date matches Some(d) ==> exists|i: int|
                    0 <= i < txns.len() && is_billed_on(#[trigger] txns[i], row.account) && txns[i].date == d
                &&& forall|i: int|
                    0 <= i < txns.len() && is_billed_on(#[trigger] txns[i], row.account) ==> (
                    found[0].oldest_invoice_date matches Some(d) && !earlier(txns[i].date, d))
            }
        }),
    decreases b.len(),
{
    if b.len() == 0 {
        assert(a + b =~= a);
        assert(aging_entries(a, txns, as_of) + aging_entries(b, txns, as_of) =~= aging_entries(a, txns, as_of));
    } else {
        law_aging_lists_what_is_outstanding(a, b.drop_last(), row, txns, as_of);
        assert((a + b).drop_last() =~= a + b.drop_last());
        assert(aging_entries(a + b, txns, as_of) =~= aging_entries(a, txns, as_of) + aging_entries(b, txns, as_of));
    }
    let one = seq![row];
    assert(one.drop_last() =~= Seq::empty());
    assert(aging_entries(one.drop_last(), txns, as_of).len() == 0);
    reveal_strlit("liabilities:ap");
    reveal_strlit("liabilities:ap:");
    let account = row.account;
    assert("liabilities:ap:"@ =~= "liabilities:ap"@ + seq![':']);
    if account.len() >= 15 {
        assert(account.take(15) =~= account.take(14) + account.skip(14).take(1));
        if account.take(15) == "liabilities:ap:"@ {
            assert(account.take(14) =~= account.take(15).take(14));
            assert(account.take(14) =~= "liabilities:ap"@);
            assert(account.skip(14)[0] == account.take(15)[14]);
            assert(account.skip(14).take(1) =~= seq![':']);
        }
    }
    assert(is_payable(account) == (account.len() >= 15 && account.take(15) == "liabilities:ap:"@));
    law_oldest_invoice_is_oldest(txns, account);
    assert forall|i: int| 0 <= i < txns.len() implies is_billed_on(#[trigger] txns[i], account) == is_invoice_on(
        txns[i],
        account,
    ) by {
        lemma_billed(txns[i], account);
    }
    if let Some(d) = oldest_invoice(txns, account) {
        let w = choose|w: int| 0 <= w < txns.len() && is_invoice_on(#[trigger] txns[w], account) && txns[w].date == d;
        assert(is_billed_on(txns[w], account));
    }
}

/// The first line of a statement is its title and the last one its net total, whatever the
/// sections are: the text begins with the title and ends with the total of the report itself.
pub proof fn law_statement_ends_with_its_net_total(report: CompositeReportView)
    ensures
        ({
            let lines = statement_lines(report);
            let text = join(lines, "\n"@);
            let net = "Net: "@ + amounts_text(report.totals);
            &&& lines.len() >= 2
            &&& lines[0] == report.title
            &&& lines.last() == net
            &&& lines.subrange(1, lines.len() - 1) == sections_lines(report.subreports)
            &&& text.len() >= report.title.len() + 1 + net.len()
            &&& text.take(report.title.len() as int) == report.title
            &&& text.skip(text.len() - net.len()) == net
            &&& text[text.len() - net.len() - 1] == '\n'
        }),
{
    let lines = statement_lines(report);
    let net = "Net: "@ + amounts_text(report.totals);
    assert(lines.subrange(1, lines.len() - 1) =~= sections_lines(report.subreports));
    let front = lines.drop_last();
    reveal_strlit("\n");
    let text = join(lines, "\n"@);
    lemma_join_begins(front, "\n"@);
    assert(text == join(front, "\n"@) + "\n"@ + net);
    assert(text.skip(text.len() - net.len()) =~= net);
    assert(front[0] == report.title);
    assert(text.take(report.title.len() as int) =~= join(front, "\n"@).take(report.title.len() as int));
}

proof fn lemma_join_begins(parts: Seq<Seq<char>>, sep: Seq<char>)
    requires
        parts.len() > 0,
    ensures
        join(parts, sep).len() >= parts[0].len(),
        join(parts, sep).take(parts[0].len() as int) == parts[0],
    decreases parts.len(),
{
    if parts.len() > 1 {
        lemma_join_begins(parts.drop_last(), sep);
        assert(join(parts, sep).take(parts[0].len() as int) =~= join(parts.drop_last(), sep).take(parts[0].len() as int));
    } else {
        assert(parts[0].take(parts[0].len() as int) =~= parts[0]);
    }
}

/// A statement shows every section, in their order: the lines of two lists of sections are those
/// of the one and then those of the other. A section is its name, a line for each of its rows
/// with the account and its total, or `(none)` where it has none, and its own subtotal.
pub proof fn law_statement_shows_every_section(a: Seq<SubreportView>, b: Seq<SubreportView>, s: SubreportView, i: int)
    ensures
        sections_lines(a + b) == sections_lines(a) + sections_lines(b),
        sections_lines(Seq::empty()).len() == 0,
        ({
            let lines = sections_lines(seq![s]);
            &&& lines.len() == if s.rows.len() == 0 {
                3int
            } else {
                s.rows.len() as int + 2
            }
            &&& lines[0] == s.name + ":"@
            &&& lines.last() == "  Subtotal: "@ + amounts_text(s.totals)
            &&& s.rows.len() == 0 ==> lines[1] == "  (none)"@
            &&& 0 <= i < s.rows.len() ==> lines[i + 1] == "  "@ + s.rows[i].account + "  "@ + amounts_text(
                s.rows[i].total,
            )
        }),
    decreases b.len(),
{
    if b.len() == 0 {
        assert(a + b =~= a);
        assert(sections_lines(a) + sections_lines(b) =~= sections_lines(a));
    } else {
        law_statement_shows_every_section(a, b.drop_last(), s, i);
        assert((a + b).drop_last() =~= a + b.drop_last());
        assert(sections_lines(a + b) =~= sections_lines(a) + sections_lines(b));
    }
    let one = seq![s];
    assert(one.drop_last() =~= Seq::<SubreportView>::empty());
    assert(sections_lines(one.drop_last()) =~= Seq::<Seq<char>>::empty());
    assert(one.last() == s);
    assert(sections_lines(one) =~= section_lines(s));
}

/// A budget report has a line for each row, in their order, with the account, what was spent and
/// the goal, or `(none)` where there is no goal; and a last one with the totals of the report.
pub proof fn law_budget_report_shows_every_row(report: BudgetReportView, i: int)
    ensures
        ({
            let lines = budget_report_lines(report);
            &&& lines.len() == if report.rows.len() == 0 {
                2int
            } else {
                report.rows.len() as int + 1
            }
            &&& report.rows.len() == 0 ==> lines[0] == "(no budgeted accounts and no activity)"@
            &&& 0 <= i < report.rows.len() ==> lines[i] == report.rows[i].account + "  actual "@ + amounts_text(
                report.rows[i].actual,
            ) + " | budget "@ + if report.rows[i].goal.len() == 0 {
                "(none)"@
            } else {
                amounts_text(report.rows[i].goal)
            }
            &&& lines.last() == "total"@ + "  actual "@ + amounts_text(report.total_actual) + " | budget "@
                + if report.total_goal.len() == 0 {
                "(none)"@
            } else {
                amounts_text(report.total_goal)
            }
        }),
{
}

/// The report on payables has a heading with its day and a line for each entry, in their order,
/// with the account, what is outstanding, the date of the oldest invoice, and the age; or it
/// says that nothing is outstanding.
pub proof fn law_aging_text_shows_every_entry(a: Seq<ApAgingView>, e: ApAgingView, as_of: Civil)
    ensures
        ({
            let line = "  "@ + e.vendor_account + "  "@ + amounts_text(e.outstanding) + "  oldest invoice: "@
                + match e.oldest_invoice_date {
                Some(d) => civil_text(d),
                None => "(unknown)"@,
            } + "  ["@ + match e.age {
                Some(AgeCategory::Current) => "current (0-30 days)"@,
                Some(AgeCategory::Days31to60) => "31-60 days"@,
                Some(AgeCategory::Days61to90) => "61-90 days"@,
                Some(AgeCategory::Over90Days) => "90+ days (overdue)"@,
                None => "(no invoice date)"@,
            } + "]"@;
            let before = if a.len() == 0 {
                "AP aging as of "@ + civil_text(as_of) + ":"@
            } else {
                aging_text(a, as_of)
            };
            &&& aging_text(a.push(e), as_of) == before + "\n"@ + line
            &&& aging_text(Seq::empty(), as_of) == "AP aging as of "@ + civil_text(as_of)
                + ": (no outstanding payables)"@
        }),
{
    let all = a.push(e);
    let heading = "AP aging as of "@ + civil_text(as_of) + ":"@;
    let lines = seq![heading] + Seq::new(all.len(), |i: int| aging_line(all[i]));
    let before = seq![heading] + Seq::new(a.len(), |i: int| aging_line(a[i]));
    assert(lines.drop_last() =~= before);
    assert(lines.last() == aging_line(e));
    if a.len() == 0 {
        assert(before =~= seq![heading]);
        assert(join(before, "\n"@) == heading);
    }
}

/// Something is owed exactly where an amount is below zero, on whatever row and in whatever
/// commodity it stands.
pub proof fn law_debt_is_any_negative_amount(report: BalanceReportView, i: int, j: int)
    requires
        0 <= i < report.rows.len(),
        0 <= j < report.rows[i].amounts.len(),
    ensures
        report.rows[i].amounts[j].quantity.mantissa < 0 ==> shows_debt(report),
        !shows_debt(report) ==> report.rows[i].amounts[j].quantity.mantissa >= 0,
        shows_debt(report) ==> exists|a: int, b: int|
            0 <= a < report.rows.len() && 0 <= b < report.rows[a].amounts.len() && (
            #[trigger] report.rows[a].amounts[b]).quantity.mantissa < 0,
{
}

/// The trade and the amount of a change order are those of the first posting, with an amount, on
/// an account below the pending ones: what is left of the account's name, and its first amount.
pub proof fn law_pending_order_is_the_first_one(postings: Seq<PostingView>)
    ensures
        ({
            let prefix = "expenses:change orders:pending:"@;
            match pending_order(postings) {
                Some((trade, amount)) => exists|k: int|
                    0 <= k < postings.len() && (#[trigger] postings[k]).account == prefix + trade
                        && postings[k].amounts.len() > 0 && postings[k].amounts[0] == amount && forall|m: int|
                        0 <= m < k ==> (#[trigger] postings[m]).amounts.len() == 0 || !starts_with(
                            postings[m].account,
                            prefix,
                        ),
                None => forall|m: int|
                    0 <= m < postings.len() ==> (#[trigger] postings[m]).amounts.len() == 0 || !starts_with(
                        postings[m].account,
                        prefix,
                    ),
            }
        }),
    decreases postings.len(),
{
    let prefix = "expenses:change orders:pending:"@;
    if postings.len() > 0 {
        if starts_with(postings[0].account, prefix) && postings[0].amounts.len() > 0 {
            let trade = postings[0].account.skip(prefix.len() as int);
            assert(postings[0].account =~= prefix + trade);
        } else {
            let rest = postings.skip(1);
            law_pending_order_is_the_first_one(rest);
            match pending_order(rest) {
                Some((trade, amount)) => {
                    let k = choose|k: int|
                        0 <= k < rest.len() && (#[trigger] rest[k]).account == prefix + trade && rest[k].amounts.len() > 0
                            && rest[k].amounts[0] == amount && forall|m: int|
                            0 <= m < k ==> (#[trigger] rest[m]).amounts.len() == 0 || !starts_with(
                                rest[m].account,
                                prefix,
                            );
                    assert(postings[k + 1] == rest[k]);
                    assert forall|m: int| 0 <= m < k + 1 implies (#[trigger] postings[m]).amounts.len() == 0
                        || !starts_with(postings[m].account, prefix) by {
                        if m > 0 {
                            assert(rest[m - 1] == postings[m]);
                        }
                    }
                },
                None => {
                    assert forall|m: int| 0 <= m < postings.len() implies (#[trigger] postings[m]).amounts.len() == 0
                        || !starts_with(postings[m].account, prefix) by {
                        if m > 0 {
                            assert(rest[m - 1] == postings[m]);
                        }
                    }
                },
            }
        }
    }
}

/// A change order is recorded as an expense that is pending and owed to the vendor, under its
/// name; approving it moves the amount from the pending account of the trade to the account of
/// the trade, under its name. Neither touches another account.
pub proof fn law_change_orders_go_from_pending_to_the_trade(
    date: Civil,
    eco: Seq<char>,
    trade: Seq<char>,
    vendor: Seq<char>,
    description: Seq<char>,
    amount: Seq<char>,
    commodity: Seq<char>,
    idem: Option<Seq<char>>,
)
    ensures
        ({
            let created = eco_created(date, eco, trade, vendor, description, amount, commodity, idem);
            &&& created.date == date && created.idem == idem
            &&& created.description == "ECO "@ + eco + ": "@ + description
            &&& created.postings.len() == 2
            &&& created.postings[0].account == "expenses:change orders:pending:"@ + trade
            &&& created.postings[0].amount == Some((amount, commodity))
            &&& created.postings[1].account == "liabilities:ap:vendor:"@ + vendor
            &&& created.postings[1].amount is None
            &&& created.tags == seq![("eco"@, eco), ("eco_event"@, "created"@), ("vendor"@, vendor)]
        }),
        ({
            let approved = eco_approved(date, eco, trade, amount, commodity);
            &&& approved.date == date && approved.idem is None
            &&& approved.description == "ECO "@ + eco + ": approved"@
            &&& approved.postings.len() == 2
            &&& approved.postings[0].account == "expenses:change orders:"@ + trade
            &&& approved.postings[0].amount == Some((amount, commodity))
            &&& approved.postings[1].account == "expenses:change orders:pending:"@ + trade
            &&& approved.postings[1].amount is None
            &&& approved.tags == seq![("eco"@, eco), ("eco_event"@, "approved"@)]
        }),
{
}

} // verus!
