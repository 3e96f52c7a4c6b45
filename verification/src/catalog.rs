//! What is advertised of the tools: the tier of each, a one-line summary for those of the
//! second tier, and which of them a profile lists.
//!
//! Only the listing is filtered. Every tool can be called under every profile.

use vstd::prelude::*;

use crate::text::{cat3, has_prefix, same, starts_with};

verus! {

/// How prominently a tool is advertised.
#[derive(Debug, Clone, Copy, PartialEq, Eq, Structural)]
pub enum Tier {
    /// Daily work: with its full description.
    Operational,
    /// Setup and administration: with one line; a guide has the rest.
    Administrative,
}

/// What is advertised of a tool.
#[derive(Debug, Clone, Copy, PartialEq, Eq)]
pub struct ToolMeta {
    pub name: &'static str,
    pub tier: Tier,
    /// Does it only read?
    pub read_only: bool,
    /// The line that describes a tool of the second tier.
    pub summary: &'static str,
}

/// What a [`ToolMeta`] holds.
#[verifier::ext_equal]
pub struct ToolView {
    pub name: Seq<char>,
    pub tier: Tier,
    pub read_only: bool,
    pub summary: Seq<char>,
}

impl View for ToolMeta {
    type V = ToolView;

    open spec fn view(&self) -> ToolView {
        ToolView { name: self.name@, tier: self.tier, read_only: self.read_only, summary: self.summary@ }
    }
}

/// What a list of tools holds.
pub open spec fn tools_view(v: Seq<ToolMeta>) -> Seq<ToolView> {
    Seq::new(v.len(), |i: int| v[i]@)
}

/// One entry of the catalog.
pub open spec fn listing(name: Seq<char>, tier: Tier, read_only: bool, summary: Seq<char>) -> ToolView {
    ToolView { name, tier, read_only, summary }
}

/// The catalog.
pub open spec fn catalog() -> Seq<ToolView> {
    seq![
        listing("status"@, Tier::Operational, true, ""@),
        listing("get_account_balance"@, Tier::Operational, true, ""@),
        listing("list_transactions"@, Tier::Operational, true, ""@),
        listing("get_ap_aging"@, Tier::Operational, true, ""@),
        listing("get_project_summary"@, Tier::Operational, true, ""@),
        listing("post_transaction"@, Tier::Operational, false, ""@),
        listing("receive_invoice"@, Tier::Operational, false, ""@),
        listing("pay_invoice"@, Tier::Operational, false, ""@),
        listing("fund_project"@, Tier::Operational, false, ""@),
        listing("post_interest"@, Tier::Operational, false, ""@),
        listing("update_transaction"@, Tier::Operational, false, ""@),
        listing("void_transaction"@, Tier::Operational, false, ""@),
        listing("declare_account"@, Tier::Administrative, false, "Declare an account before posting to it (see ledger://account-guide)."@),
        listing("declare_commodity"@, Tier::Administrative, false, "Declare a commodity before amounts can use it (see ledger://account-guide)."@),
        listing("close_account"@, Tier::Administrative, false, "Close (tombstone) an account — soft delete (see ledger://account-guide)."@),
        listing("vendor_add"@, Tier::Administrative, false, "Declare a vendor's AP + expense accounts (see ledger://vendor-guide)."@),
        listing("vendor_list"@, Tier::Administrative, true, "List declared vendor AP accounts (see ledger://vendor-guide)."@),
        listing("budget_set"@, Tier::Administrative, false, "Set/replace one account's per-period budget goal (see ledger://budget-guide)."@),
        listing("budget_list"@, Tier::Administrative, true, "List the current budget rules (see ledger://budget-guide)."@),
        listing("get_budget_vs_actual"@, Tier::Administrative, true, "Budget vs actual per account, flagging over-budget (see ledger://budget-guide)."@),
        listing("eco_create"@, Tier::Administrative, false, "Record a pending change order (see ledger://eco-guide)."@),
        listing("eco_approve"@, Tier::Administrative, false, "Approve a pending change order — epoch-checked (see ledger://eco-guide)."@),
        listing("eco_void"@, Tier::Administrative, false, "Void a change order with reversing entries (see ledger://eco-guide)."@),
        listing("echo"@, Tier::Administrative, true, "Echo a message back — connectivity check."@),
    ]
}

/// The catalog: every tool of the server.
pub fn tools() -> (r: Vec<ToolMeta>)
    ensures
        tools_view(r@) == catalog(),
{
    let all: Vec<ToolMeta> = vec![
        ToolMeta { name: "status", tier: Tier::Operational, read_only: true, summary: "" },
        ToolMeta { name: "get_account_balance", tier: Tier::Operational, read_only: true, summary: "" },
        ToolMeta { name: "list_transactions", tier: Tier::Operational, read_only: true, summary: "" },
        ToolMeta { name: "get_ap_aging", tier: Tier::Operational, read_only: true, summary: "" },
        ToolMeta { name: "get_project_summary", tier: Tier::Operational, read_only: true, summary: "" },
        ToolMeta { name: "post_transaction", tier: Tier::Operational, read_only: false, summary: "" },
        ToolMeta { name: "receive_invoice", tier: Tier::Operational, read_only: false, summary: "" },
        ToolMeta { name: "pay_invoice", tier: Tier::Operational, read_only: false, summary: "" },
        ToolMeta { name: "fund_project", tier: Tier::Operational, read_only: false, summary: "" },
        ToolMeta { name: "post_interest", tier: Tier::Operational, read_only: false, summary: "" },
        ToolMeta { name: "update_transaction", tier: Tier::Operational, read_only: false, summary: "" },
        ToolMeta { name: "void_transaction", tier: Tier::Operational, read_only: false, summary: "" },
        ToolMeta { name: "declare_account", tier: Tier::Administrative, read_only: false, summary: "Declare an account before posting to it (see ledger://account-guide)." },
        ToolMeta { name: "declare_commodity", tier: Tier::Administrative, read_only: false, summary: "Declare a commodity before amounts can use it (see ledger://account-guide)." },
        ToolMeta { name: "close_account", tier: Tier::Administrative, read_only: false, summary: "Close (tombstone) an account — soft delete (see ledger://account-guide)." },
        ToolMeta { name: "vendor_add", tier: Tier::Administrative, read_only: false, summary: "Declare a vendor's AP + expense accounts (see ledger://vendor-guide)." },
        ToolMeta { name: "vendor_list", tier: Tier::Administrative, read_only: true, summary: "List declared vendor AP accounts (see ledger://vendor-guide)." },
        ToolMeta { name: "budget_set", tier: Tier::Administrative, read_only: false, summary: "Set/replace one account's per-period budget goal (see ledger://budget-guide)." },
        ToolMeta { name: "budget_list", tier: Tier::Administrative, read_only: true, summary: "List the current budget rules (see ledger://budget-guide)." },
        ToolMeta { name: "get_budget_vs_actual", tier: Tier::Administrative, read_only: true, summary: "Budget vs actual per account, flagging over-budget (see ledger://budget-guide)." },
        ToolMeta { name: "eco_create", tier: Tier::Administrative, read_only: false, summary: "Record a pending change order (see ledger://eco-guide)." },
        ToolMeta { name: "eco_approve", tier: Tier::Administrative, read_only: false, summary: "Approve a pending change order — epoch-checked (see ledger://eco-guide)." },
        ToolMeta { name: "eco_void", tier: Tier::Administrative, read_only: false, summary: "Void a change order with reversing entries (see ledger://eco-guide)." },
        ToolMeta { name: "echo", tier: Tier::Administrative, read_only: true, summary: "Echo a message back — connectivity check." },
    ];
    assert(tools_view(all@) =~= catalog());
    all
}

/// The first tool of that name.
pub open spec fn find_tool(all: Seq<ToolView>, name: Seq<char>) -> Option<ToolView>
    decreases all.len(),
{
    if all.len() == 0 {
        None
    } else if all[0].name == name {
        Some(all[0])
    } else {
        find_tool(all.skip(1), name)
    }
}

/// The tool of that name.
pub fn meta(name: &str) -> (r: Option<ToolMeta>)
    ensures
        match r {
            Some(t) => find_tool(catalog(), name@) == Some(t@),
            None => find_tool(catalog(), name@) is None,
        },
{
    let all: Vec<ToolMeta> = tools();
    let ghost views = catalog();
    let mut i: usize = 0;
    assert(views.skip(0) =~= views);
    while i < all.len()
        invariant
            i <= all.len(),
            views == tools_view(all@),
            views == catalog(),
            find_tool(views, name@) == find_tool(views.skip(i as int), name@),
        decreases all.len() - i,
    {
        assert(views.skip(i as int)[0] == all@[i as int]@);
        if same(all[i].name, name) {
            return Some(all[i]);
        }
        proof {
            assert(views.skip(i as int).skip(1) =~= views.skip(i + 1));
        }
        i += 1;
    }
    None
}

/// Which tools are listed. Chosen once, at the start.
#[derive(Debug, Clone, Copy, PartialEq, Eq, Structural)]
pub enum Profile {
    /// All of them.
    Full,
    /// The first tier.
    Operational,
    /// Those that only read.
    Readonly,
    /// The second tier.
    Setup,
    /// The first tier and change orders.
    Construction,
    /// Those that only read, for a review at the end of the month.
    Reconcile,
}

/// The name of a profile.
pub open spec fn profile_name(p: Profile) -> Seq<char> {
    match p {
        Profile::Full => "full"@,
        Profile::Operational => "operational"@,
        Profile::Readonly => "readonly"@,
        Profile::Setup => "setup"@,
        Profile::Construction => "construction"@,
        Profile::Reconcile => "reconcile"@,
    }
}

/// The profile of that name.
pub open spec fn profile_of(s: Seq<char>) -> Option<Profile> {
    if s == "full"@ {
        Some(Profile::Full)
    } else if s == "operational"@ {
        Some(Profile::Operational)
    } else if s == "readonly"@ {
        Some(Profile::Readonly)
    } else if s == "setup"@ {
        Some(Profile::Setup)
    } else if s == "construction"@ {
        Some(Profile::Construction)
    } else if s == "reconcile"@ {
        Some(Profile::Reconcile)
    } else {
        None
    }
}

/// The message for a name that no profile has.
pub open spec fn unknown_profile(s: Seq<char>) -> Seq<char> {
    "unknown profile '"@ + s
        + "' (expected one of: full, operational, readonly, setup, construction, reconcile)"@
}

impl Profile {
    /// The names of the profiles.
    pub fn names() -> (r: Vec<&'static str>)
        ensures
            r@.len() == 6,
            forall|i: int| 0 <= i < 6 ==> #[trigger] r@[i]@ == profile_name(profile_at(i)),
    {
        vec!["full", "operational", "readonly", "setup", "construction", "reconcile"]
    }

    /// The name.
    pub fn name(self) -> (r: &'static str)
        ensures
            r@ == profile_name(self),
    {
        match self {
            Profile::Full => "full",
            Profile::Operational => "operational",
            Profile::Readonly => "readonly",
            Profile::Setup => "setup",
            Profile::Construction => "construction",
            Profile::Reconcile => "reconcile",
        }
    }

    /// The name, as an owned string.
    pub fn to_string(self) -> (r: String)
        ensures
            r@ == profile_name(self),
    {
        self.name().to_owned()
    }

    /// The profile of that name.
    pub fn from_name(s: &str) -> (r: Result<Profile, String>)
        ensures
            match profile_of(s@) {
                Some(p) => r == Ok::<Profile, String>(p),
                None => r matches Err(m) && m@ == unknown_profile(s@),
            },
    {
        if same(s, "full") {
            Ok(Profile::Full)
        } else if same(s, "operational") {
            Ok(Profile::Operational)
        } else if same(s, "readonly") {
            Ok(Profile::Readonly)
        } else if same(s, "setup") {
            Ok(Profile::Setup)
        } else if same(s, "construction") {
            Ok(Profile::Construction)
        } else if same(s, "reconcile") {
            Ok(Profile::Reconcile)
        } else {
            Err(
                cat3(
                    "unknown profile '",
                    s,
                    "' (expected one of: full, operational, readonly, setup, construction, reconcile)",
                ),
            )
        }
    }
}

impl std::str::FromStr for Profile {
    type Err = String;

    fn from_str(s: &str) -> (r: Result<Profile, String>)
        ensures
            match profile_of(s@) {
                Some(p) => r == Ok::<Profile, String>(p),
                None => r matches Err(m) && m@ == unknown_profile(s@),
            },
    {
        Profile::from_name(s)
    }
}

impl Default for Profile {
    fn default() -> (r: Profile)
        ensures
            r == Profile::Full,
    {
        Profile::Full
    }
}

/// The profiles, in order.
pub open spec fn profile_at(i: int) -> Profile {
    if i == 0 {
        Profile::Full
    } else if i == 1 {
        Profile::Operational
    } else if i == 2 {
        Profile::Readonly
    } else if i == 3 {
        Profile::Setup
    } else if i == 4 {
        Profile::Construction
    } else {
        Profile::Reconcile
    }
}

/// Does the profile list the tool of that name? A name that the catalog lacks is listed by
/// the full profile only.
pub open spec fn lists(profile: Profile, name: Seq<char>) -> bool {
    match find_tool(catalog(), name) {
        None => profile == Profile::Full,
        Some(t) => match profile {
            Profile::Full => true,
            Profile::Operational => t.tier == Tier::Operational,
            Profile::Readonly => t.read_only,
            Profile::Reconcile => t.read_only,
            Profile::Setup => t.tier == Tier::Administrative || t.name == "status"@,
            Profile::Construction => t.tier == Tier::Operational || starts_with(t.name, "eco_"@),
        },
    }
}

/// Does the profile list the tool of that name?
pub fn advertised(profile: Profile, name: &str) -> (r: bool)
    ensures
        r == lists(profile, name@),
{
    let tool: ToolMeta = match meta(name) {
        None => {
            return profile == Profile::Full;
        },
        Some(tool) => tool,
    };
    match profile {
        Profile::Full => true,
        Profile::Operational => tool.tier == Tier::Operational,
        Profile::Readonly => tool.read_only,
        Profile::Reconcile => tool.read_only,
        Profile::Setup => tool.tier == Tier::Administrative || same(tool.name, "status"),
        Profile::Construction => tool.tier == Tier::Operational || has_prefix(tool.name, "eco_"),
    }
}

// ---------------------------------------------------------------------------
// Laws
// ---------------------------------------------------------------------------

/// A number for each name of the catalog, by its length and two of its letters.
spec fn mark_of(s: Seq<char>) -> int {
    if s.len() == 6 && s[0] == 's' && s[4] == 'u' {
        0
    } else if s.len() == 19 && s[0] == 'g' && s[4] == 'a' {
        1
    } else if s.len() == 17 && s[0] == 'l' && s[4] == '_' {
        2
    } else if s.len() == 12 && s[0] == 'g' && s[4] == 'a' {
        3
    } else if s.len() == 19 && s[0] == 'g' && s[4] == 'p' {
        4
    } else if s.len() == 16 && s[0] == 'p' && s[4] == '_' {
        5
    } else if s.len() == 15 && s[0] == 'r' && s[4] == 'i' {
        6
    } else if s.len() == 11 && s[0] == 'p' && s[4] == 'i' {
        7
    } else if s.len() == 12 && s[0] == 'f' && s[4] == '_' {
        8
    } else if s.len() == 13 && s[0] == 'p' && s[4] == '_' {
        9
    } else if s.len() == 18 && s[0] == 'u' && s[4] == 't' {
        10
    } else if s.len() == 16 && s[0] == 'v' && s[4] == '_' {
        11
    } else if s.len() == 15 && s[0] == 'd' && s[4] == 'a' {
        12
    } else if s.len() == 17 && s[0] == 'd' && s[4] == 'a' {
        13
    } else if s.len() == 13 && s[0] == 'c' && s[4] == 'e' {
        14
    } else if s.len() == 10 && s[0] == 'v' && s[4] == 'o' {
        15
    } else if s.len() == 11 && s[0] == 'v' && s[4] == 'o' {
        16
    } else if s.len() == 10 && s[0] == 'b' && s[4] == 'e' {
        17
    } else if s.len() == 11 && s[0] == 'b' && s[4] == 'e' {
        18
    } else if s.len() == 20 && s[0] == 'g' && s[4] == 'b' {
        19
    } else if s.len() == 10 && s[0] == 'e' && s[4] == 'c' {
        20
    } else if s.len() == 11 && s[0] == 'e' && s[4] == 'a' {
        21
    } else if s.len() == 8 && s[0] == 'e' && s[4] == 'v' {
        22
    } else if s.len() == 4 && s[0] == 'e' {
        23
    } else {
        -1
    }
}

proof fn lemma_marks()
    ensures
        forall|i: int| 0 <= i < catalog().len() ==> mark_of(#[trigger] catalog()[i].name) == i,
{
    reveal_strlit("status");
    reveal_strlit("get_account_balance");
    reveal_strlit("list_transactions");
    reveal_strlit("get_ap_aging");
    reveal_strlit("get_project_summary");
    reveal_strlit("post_transaction");
    reveal_strlit("receive_invoice");
    reveal_strlit("pay_invoice");
    reveal_strlit("fund_project");
    reveal_strlit("post_interest");
    reveal_strlit("update_transaction");
    reveal_strlit("void_transaction");
    reveal_strlit("declare_account");
    reveal_strlit("declare_commodity");
    reveal_strlit("close_account");
    reveal_strlit("vendor_add");
    reveal_strlit("vendor_list");
    reveal_strlit("budget_set");
    reveal_strlit("budget_list");
    reveal_strlit("get_budget_vs_actual");
    reveal_strlit("eco_create");
    reveal_strlit("eco_approve");
    reveal_strlit("eco_void");
    reveal_strlit("echo");
    assert(mark_of("status"@) == 0);
    assert(mark_of("get_account_balance"@) == 1);
    assert(mark_of("list_transactions"@) == 2);
    assert(mark_of("get_ap_aging"@) == 3);
    assert(mark_of("get_project_summary"@) == 4);
    assert(mark_of("post_transaction"@) == 5);
    assert(mark_of("receive_invoice"@) == 6);
    assert(mark_of("pay_invoice"@) == 7);
    assert(mark_of("fund_project"@) == 8);
    assert(mark_of("post_interest"@) == 9);
    assert(mark_of("update_transaction"@) == 10);
    assert(mark_of("void_transaction"@) == 11);
    assert(mark_of("declare_account"@) == 12);
    assert(mark_of("declare_commodity"@) == 13);
    assert(mark_of("close_account"@) == 14);
    assert(mark_of("vendor_add"@) == 15);
    assert(mark_of("vendor_list"@) == 16);
    assert(mark_of("budget_set"@) == 17);
    assert(mark_of("budget_list"@) == 18);
    assert(mark_of("get_budget_vs_actual"@) == 19);
    assert(mark_of("eco_create"@) == 20);
    assert(mark_of("eco_approve"@) == 21);
    assert(mark_of("eco_void"@) == 22);
    assert(mark_of("echo"@) == 23);
}

/// No two tools have the same name, so every tool is found by its name.
pub proof fn law_tool_names_are_unique(i: int)
    requires
        0 <= i < catalog().len(),
    ensures
        forall|j: int| 0 <= j < catalog().len() && #[trigger] catalog()[j].name == catalog()[i].name ==> j == i,
        find_tool(catalog(), catalog()[i].name) == Some(catalog()[i]),
{
    lemma_marks();
    lemma_found(catalog(), i);
}

proof fn lemma_found(all: Seq<ToolView>, i: int)
    requires
        0 <= i < all.len(),
        forall|j: int| 0 <= j < i ==> #[trigger] all[j].name != all[i].name,
    ensures
        find_tool(all, all[i].name) == Some(all[i]),
    decreases all.len(),
{
    if i > 0 {
        let rest = all.skip(1);
        assert(rest[i - 1] == all[i]);
        assert forall|j: int| 0 <= j < i - 1 implies #[trigger] rest[j].name != rest[i - 1].name by {
            assert(all[j + 1].name != all[i].name);
        }
        lemma_found(rest, i - 1);
    }
}

/// The full profile lists everything, also what the catalog lacks; every other profile
/// leaves out what the catalog lacks.
pub proof fn law_unknown_tools(profile: Profile, name: Seq<char>)
    ensures
        lists(Profile::Full, name),
        find_tool(catalog(), name) is None && profile != Profile::Full ==> !lists(profile, name),
{
}

/// The operational profile lists exactly the first tier; the profiles for reading list
/// exactly the tools that only read.
pub proof fn law_profiles_are_exact(i: int)
    requires
        0 <= i < catalog().len(),
    ensures
        lists(Profile::Operational, catalog()[i].name) == (catalog()[i].tier == Tier::Operational),
        lists(Profile::Readonly, catalog()[i].name) == catalog()[i].read_only,
        lists(Profile::Reconcile, catalog()[i].name) == catalog()[i].read_only,
        catalog()[i].tier == Tier::Administrative ==> lists(Profile::Setup, catalog()[i].name),
        catalog()[i].tier == Tier::Operational ==> lists(Profile::Construction, catalog()[i].name),
{
    law_tool_names_are_unique(i);
}

/// A tool of the second tier has a summary, a tool of the first tier has none.
pub proof fn law_summaries_follow_tiers(i: int)
    requires
        0 <= i < catalog().len(),
    ensures
        catalog()[i].tier == Tier::Administrative <==> catalog()[i].summary.len() > 0,
{
    reveal_strlit("");
    reveal_strlit("Declare an account before posting to it (see ledger://account-guide).");
    reveal_strlit("Declare a commodity before amounts can use it (see ledger://account-guide).");
    reveal_strlit("Close (tombstone) an account — soft delete (see ledger://account-guide).");
    reveal_strlit("Declare a vendor's AP + expense accounts (see ledger://vendor-guide).");
    reveal_strlit("List declared vendor AP accounts (see ledger://vendor-guide).");
    reveal_strlit("Set/replace one account's per-period budget goal (see ledger://budget-guide).");
    reveal_strlit("List the current budget rules (see ledger://budget-guide).");
    reveal_strlit("Budget vs actual per account, flagging over-budget (see ledger://budget-guide).");
    reveal_strlit("Record a pending change order (see ledger://eco-guide).");
    reveal_strlit("Approve a pending change order — epoch-checked (see ledger://eco-guide).");
    reveal_strlit("Void a change order with reversing entries (see ledger://eco-guide).");
    reveal_strlit("Echo a message back — connectivity check.");
}

/// The name of a profile stands for it.
pub proof fn law_profile_round_trip(p: Profile)
    ensures
        profile_of(profile_name(p)) == Some(p),
{
    reveal_strlit("full");
    reveal_strlit("operational");
    reveal_strlit("readonly");
    reveal_strlit("setup");
    reveal_strlit("construction");
    reveal_strlit("reconcile");
    assert("full"@[0] == 'f' && "operational"@[0] == 'o' && "setup"@[0] == 's' && "construction"@[0] == 'c');
    assert("readonly"@.len() == 8 && "reconcile"@.len() == 9);
}

/// The profile for setting up lists exactly the second tier and the status; the one for
/// construction exactly the first tier and the tools for change orders; and the full one all.
pub proof fn law_setup_and_construction_are_exact(i: int)
    requires
        0 <= i < catalog().len(),
    ensures
        lists(Profile::Full, catalog()[i].name),
        lists(Profile::Setup, catalog()[i].name) <==> catalog()[i].tier == Tier::Administrative || catalog()[i].name
            == "status"@,
        lists(Profile::Construction, catalog()[i].name) <==> catalog()[i].tier == Tier::Operational || (
        catalog()[i].name.len() >= 4 && catalog()[i].name.take(4) == "eco_"@),
{
    law_tool_names_are_unique(i);
    reveal_strlit("eco_");
}

/// Only the name of a profile stands for it: what is read as a profile is its name, and nothing
/// else is read as any.
pub proof fn law_only_names_are_read_as_profiles(s: Seq<char>)
    ensures
        profile_of(s) matches Some(p) ==> s == profile_name(p),
        profile_of(s) is None ==> forall|p: Profile| s != #[trigger] profile_name(p),
        profile_name(Profile::Full) == "full"@ && profile_name(Profile::Operational) == "operational"@,
        profile_name(Profile::Readonly) == "readonly"@ && profile_name(Profile::Setup) == "setup"@,
        profile_name(Profile::Construction) == "construction"@ && profile_name(Profile::Reconcile) == "reconcile"@,
{
    assert forall|p: Profile| profile_of(s) is None implies s != #[trigger] profile_name(p) by {
        law_profile_round_trip(p);
    }
}

} // verus!
