//! The resources that the server offers: guides, which are part of the server, and the list
//! of vendors, which is read from the ledger when it is asked for.

use vstd::prelude::*;

use crate::guides::{
    ACCOUNT_GUIDE, BUDGET_GUIDE, ECO_GUIDE, EXPECTED_CHART, SESSION_CONTEXT, VENDOR_GUIDE,
};
use crate::text::{cat3, same};

verus! {

/// A resource that is part of the server.
#[derive(Debug, Clone, Copy, PartialEq, Eq)]
pub struct StaticResource {
    pub uri: &'static str,
    pub name: &'static str,
    pub title: &'static str,
    pub description: &'static str,
    pub content: &'static str,
}

/// What a [`StaticResource`] holds.
#[verifier::ext_equal]
pub struct ResourceView {
    pub uri: Seq<char>,
    pub name: Seq<char>,
    pub title: Seq<char>,
    pub description: Seq<char>,
    pub content: Seq<char>,
}

impl View for StaticResource {
    type V = ResourceView;

    open spec fn view(&self) -> ResourceView {
        ResourceView {
            uri: self.uri@,
            name: self.name@,
            title: self.title@,
            description: self.description@,
            content: self.content@,
        }
    }
}

/// What a list of resources holds.
pub open spec fn resources_view(v: Seq<StaticResource>) -> Seq<ResourceView> {
    Seq::new(v.len(), |i: int| v[i]@)
}

/// The resource to read before the first call.
pub const SESSION_CONTEXT_URI: &'static str = "ledger://session-context";

/// The list of vendors.
pub const VENDORS_URI: &'static str = "ledger://vendors";

/// The resources that are part of the server, in the order in which they are listed.
pub open spec fn statics() -> Seq<ResourceView> {
    seq![
        ResourceView {
            uri: "ledger://session-context"@,
            name: "session-context"@,
            title: "Session context — read this first"@,
            description: "Tool groups, ledger conventions, and the resource index. Read before the first tool call."@,
            content: SESSION_CONTEXT@,
        },
        ResourceView {
            uri: "ledger://account-guide"@,
            name: "account-guide"@,
            title: "Account guide"@,
            description: "Account types, naming conventions, declaration and soft-delete rules."@,
            content: ACCOUNT_GUIDE@,
        },
        ResourceView {
            uri: "ledger://vendor-guide"@,
            name: "vendor-guide"@,
            title: "Vendor guide"@,
            description: "Trade vs professional vendors, permits, and GC pass-through invoices."@,
            content: VENDOR_GUIDE@,
        },
        ResourceView {
            uri: "ledger://expected-chart"@,
            name: "expected-chart"@,
            title: "Expected chart of accounts"@,
            description: "The full expected account tree for a construction project."@,
            content: EXPECTED_CHART@,
        },
        ResourceView {
            uri: "ledger://budget-guide"@,
            name: "budget-guide"@,
            title: "Budget guide"@,
            description: "Budget workflow: periodic rules, budget_set semantics, budget vs actual."@,
            content: BUDGET_GUIDE@,
        },
        ResourceView {
            uri: "ledger://eco-guide"@,
            name: "eco-guide"@,
            title: "Change-order (ECO) guide"@,
            description: "ECO lifecycle: create (pending) -> approve (epoch-checked) -> void."@,
            content: ECO_GUIDE@,
        },
    ]
}

/// The resources that are part of the server, in the order in which they are listed.
pub fn static_resources() -> (r: Vec<StaticResource>)
    ensures
        resources_view(r@) == statics(),
{
    let all: Vec<StaticResource> = vec![
        StaticResource {
            uri: "ledger://session-context",
            name: "session-context",
            title: "Session context — read this first",
            description: "Tool groups, ledger conventions, and the resource index. Read before the first tool call.",
            content: SESSION_CONTEXT,
        },
        StaticResource {
            uri: "ledger://account-guide",
            name: "account-guide",
            title: "Account guide",
            description: "Account types, naming conventions, declaration and soft-delete rules.",
            content: ACCOUNT_GUIDE,
        },
        StaticResource {
            uri: "ledger://vendor-guide",
            name: "vendor-guide",
            title: "Vendor guide",
            description: "Trade vs professional vendors, permits, and GC pass-through invoices.",
            content: VENDOR_GUIDE,
        },
        StaticResource {
            uri: "ledger://expected-chart",
            name: "expected-chart",
            title: "Expected chart of accounts",
            description: "The full expected account tree for a construction project.",
            content: EXPECTED_CHART,
        },
        StaticResource {
            uri: "ledger://budget-guide",
            name: "budget-guide",
            title: "Budget guide",
            description: "Budget workflow: periodic rules, budget_set semantics, budget vs actual.",
            content: BUDGET_GUIDE,
        },
        StaticResource {
            uri: "ledger://eco-guide",
            name: "eco-guide",
            title: "Change-order (ECO) guide",
            description: "ECO lifecycle: create (pending) -> approve (epoch-checked) -> void.",
            content: ECO_GUIDE,
        },
    ];
    assert(resources_view(all@) =~= statics());
    all
}

/// The first resource with that URI.
pub open spec fn find_resource(all: Seq<ResourceView>, uri: Seq<char>) -> Option<ResourceView>
    decreases all.len(),
{
    if all.len() == 0 {
        None
    } else if all[0].uri == uri {
        Some(all[0])
    } else {
        find_resource(all.skip(1), uri)
    }
}

/// The resource with that URI, where it is part of the server.
pub fn find_static(uri: &str) -> (r: Option<StaticResource>)
    ensures
        match r {
            Some(found) => find_resource(statics(), uri@) == Some(found@),
            None => find_resource(statics(), uri@) is None,
        },
{
    let all: Vec<StaticResource> = static_resources();
    let ghost views = statics();
    let mut i: usize = 0;
    assert(views.skip(0) =~= views);
    while i < all.len()
        invariant
            i <= all.len(),
            views == resources_view(all@),
            views == statics(),
            find_resource(views, uri@) == find_resource(views.skip(i as int), uri@),
        decreases all.len() - i,
    {
        assert(views.skip(i as int)[0] == all@[i as int]@);
        if same(all[i].uri, uri) {
            return Some(all[i]);
        }
        proof {
            assert(views.skip(i as int).skip(1) =~= views.skip(i + 1));
        }
        i += 1;
    }
    None
}

/// What is asked for by a URI.
#[derive(Debug, PartialEq, Eq)]
pub enum Requested {
    /// A guide.
    Guide(StaticResource),
    /// The list of vendors, which has to be read from the ledger.
    Vendors,
    /// Nothing that there is; the message.
    Unknown(String),
}

/// What is asked for by a URI. Only the list of vendors touches the ledger.
pub fn resolve(uri: &str) -> (r: Requested)
    ensures
        match find_resource(statics(), uri@) {
            Some(view) => r matches Requested::Guide(found) && found@ == view,
            None => if uri@ == "ledger://vendors"@ {
                r is Vendors
            } else {
                r matches Requested::Unknown(m) && m@ == "unknown resource '"@ + uri@
                    + "' — see ledger://session-context for the index"@
            },
        },
{
    match find_static(uri) {
        Some(found) => Requested::Guide(found),
        None => if same(uri, "ledger://vendors") {
            Requested::Vendors
        } else {
            Requested::Unknown(
                cat3("unknown resource '", uri, "' — see ledger://session-context for the index"),
            )
        },
    }
}

proof fn lemma_uris()
    ensures
        forall|i: int, j: int| 0 <= i < j < statics().len() ==> #[trigger] statics()[i].uri != #[trigger] statics()[j].uri,
        forall|i: int| 0 <= i < statics().len() ==> #[trigger] statics()[i].uri != "ledger://vendors"@,
{
    reveal_strlit("ledger://session-context");
    reveal_strlit("ledger://account-guide");
    reveal_strlit("ledger://vendor-guide");
    reveal_strlit("ledger://expected-chart");
    reveal_strlit("ledger://budget-guide");
    reveal_strlit("ledger://eco-guide");
    reveal_strlit("ledger://vendors");
    assert("ledger://session-context"@[9] == 's');
    assert("ledger://account-guide"@[9] == 'a');
    assert("ledger://vendor-guide"@[9] == 'v');
    assert("ledger://expected-chart"@[10] == 'x');
    assert("ledger://budget-guide"@[9] == 'b');
    assert("ledger://eco-guide"@[10] == 'c');
    assert("ledger://expected-chart"@[9] == 'e');
    assert("ledger://eco-guide"@[9] == 'e');
    assert("ledger://vendors"@[9] == 'v');
    assert("ledger://vendors"@.len() != "ledger://vendor-guide"@.len());
}

/// Every guide is found by its URI, no two have the same, and none has that of the list of
/// vendors.
pub proof fn law_resources_are_found(i: int)
    requires
        0 <= i < statics().len(),
    ensures
        find_resource(statics(), statics()[i].uri) == Some(statics()[i]),
        find_resource(statics(), "ledger://vendors"@) is None,
{
    lemma_uris();
    lemma_found(statics(), i);
    lemma_absent(statics(), "ledger://vendors"@);
}

proof fn lemma_found(all: Seq<ResourceView>, i: int)
    requires
        0 <= i < all.len(),
        forall|j: int| 0 <= j < i ==> #[trigger] all[j].uri != all[i].uri,
    ensures
        find_resource(all, all[i].uri) == Some(all[i]),
    decreases all.len(),
{
    if i > 0 {
        let rest = all.skip(1);
        assert(rest[i - 1] == all[i]);
        assert forall|j: int| 0 <= j < i - 1 implies #[trigger] rest[j].uri != rest[i - 1].uri by {
            assert(all[j + 1].uri != all[i].uri);
        }
        lemma_found(rest, i - 1);
    }
}

proof fn lemma_absent(all: Seq<ResourceView>, uri: Seq<char>)
    requires
        forall|j: int| 0 <= j < all.len() ==> #[trigger] all[j].uri != uri,
    ensures
        find_resource(all, uri) is None,
    decreases all.len(),
{
    if all.len() > 0 {
        let rest = all.skip(1);
        assert forall|j: int| 0 <= j < rest.len() implies #[trigger] rest[j].uri != uri by {
            assert(all[j + 1].uri != uri);
        }
        lemma_absent(rest, uri);
    }
}

} // verus!
