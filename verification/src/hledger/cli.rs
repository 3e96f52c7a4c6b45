//! The argument vectors of the hledger commands.

use vstd::prelude::*;

use crate::text::texts;

verus! {

/// A list of words as strings.
fn words<const N: usize>(list: [&str; N]) -> (r: Vec<String>)
    ensures
        texts(r@) == list@.map_values(|s: &str| s@),
{
    let mut out: Vec<String> = Vec::new();
    let mut i: usize = 0;
    while i < N
        invariant
            i <= N,
            out.len() == i,
            forall|j: int| 0 <= j < i ==> (#[trigger] out@[j])@ == list@[j]@,
        decreases N - i,
    {
        out.push(list[i].to_owned());
        i += 1;
    }
    assert(texts(out@) =~= list@.map_values(|s: &str| s@));
    out
}

/// `hledger --version`; it needs no journal.
pub fn version_argv() -> (r: Vec<String>)
    ensures
        texts(r@) == seq!["--version"@],
{
    let r: Vec<String> = words(["--version"]);
    assert(texts(r@) =~= seq!["--version"@]);
    r
}

/// `hledger check --strict`, which decides whether a journal is valid.
pub fn check_strict_argv(journal: &str) -> (r: Vec<String>)
    ensures
        texts(r@) == seq!["check"@, "--strict"@, "-f"@, journal@],
{
    let r: Vec<String> = words(["check", "--strict", "-f", journal]);
    assert(texts(r@) =~= seq!["check"@, "--strict"@, "-f"@, journal@]);
    r
}

/// `hledger accounts --declared`, the declared accounts, one on each line.
pub fn accounts_declared_argv(journal: &str) -> (r: Vec<String>)
    ensures
        texts(r@) == seq!["accounts"@, "--declared"@, "-f"@, journal@],
{
    let r: Vec<String> = words(["accounts", "--declared", "-f", journal]);
    assert(texts(r@) =~= seq!["accounts"@, "--declared"@, "-f"@, journal@]);
    r
}

/// `hledger accounts --declared` with the anchored query for the tag `tombstoned`.
pub fn accounts_tombstoned_argv(journal: &str) -> (r: Vec<String>)
    ensures
        texts(r@) == seq!["accounts"@, "--declared"@, "tag:^tombstoned$"@, "-f"@, journal@],
{
    let r: Vec<String> = words(["accounts", "--declared", "tag:^tombstoned$", "-f", journal]);
    assert(texts(r@) =~= seq!["accounts"@, "--declared"@, "tag:^tombstoned$"@, "-f"@, journal@]);
    r
}

/// `hledger commodities`, the declared commodities, one on each line.
pub fn commodities_argv(journal: &str) -> (r: Vec<String>)
    ensures
        texts(r@) == seq!["commodities"@, "-f"@, journal@],
{
    let r: Vec<String> = words(["commodities", "-f", journal]);
    assert(texts(r@) =~= seq!["commodities"@, "-f"@, journal@]);
    r
}

/// `hledger balance [account] -O json`.
pub fn balance_argv(journal: &str, account: Option<&str>) -> (r: Vec<String>)
    ensures
        texts(r@) == match account {
            Some(account) => seq!["balance"@, account@, "-O"@, "json"@, "-f"@, journal@],
            None => seq!["balance"@, "-O"@, "json"@, "-f"@, journal@],
        },
{
    match account {
        Some(account) => {
            let r: Vec<String> = words(["balance", account, "-O", "json", "-f", journal]);
            assert(texts(r@) =~= seq!["balance"@, account@, "-O"@, "json"@, "-f"@, journal@]);
            r
        },
        None => {
            let r: Vec<String> = words(["balance", "-O", "json", "-f", journal]);
            assert(texts(r@) =~= seq!["balance"@, "-O"@, "json"@, "-f"@, journal@]);
            r
        },
    }
}

/// `hledger balance --flat <account> -O json`: one row for each account, without parents.
pub fn balance_flat_argv(journal: &str, account: &str) -> (r: Vec<String>)
    ensures
        texts(r@) == seq!["balance"@, "--flat"@, account@, "-O"@, "json"@, "-f"@, journal@],
{
    let r: Vec<String> = words(["balance", "--flat", account, "-O", "json", "-f", journal]);
    assert(texts(r@) =~= seq!["balance"@, "--flat"@, account@, "-O"@, "json"@, "-f"@, journal@]);
    r
}

/// `hledger balancesheet -O json`.
pub fn balancesheet_argv(journal: &str) -> (r: Vec<String>)
    ensures
        texts(r@) == seq!["balancesheet"@, "-O"@, "json"@, "-f"@, journal@],
{
    let r: Vec<String> = words(["balancesheet", "-O", "json", "-f", journal]);
    assert(texts(r@) =~= seq!["balancesheet"@, "-O"@, "json"@, "-f"@, journal@]);
    r
}

/// `hledger incomestatement -O json`.
pub fn incomestatement_argv(journal: &str) -> (r: Vec<String>)
    ensures
        texts(r@) == seq!["incomestatement"@, "-O"@, "json"@, "-f"@, journal@],
{
    let r: Vec<String> = words(["incomestatement", "-O", "json", "-f", journal]);
    assert(texts(r@) =~= seq!["incomestatement"@, "-O"@, "json"@, "-f"@, journal@]);
    r
}

/// `hledger balance [account] --budget -M -O json`: what was spent each month, against the
/// budget.
pub fn budget_argv(journal: &str, account: Option<&str>) -> (r: Vec<String>)
    ensures
        texts(r@) == match account {
            Some(account) => seq!["balance"@, account@, "--budget"@, "-M"@, "-O"@, "json"@, "-f"@, journal@],
            None => seq!["balance"@, "--budget"@, "-M"@, "-O"@, "json"@, "-f"@, journal@],
        },
{
    match account {
        Some(account) => {
            let r: Vec<String> = words(["balance", account, "--budget", "-M", "-O", "json", "-f", journal]);
            assert(texts(r@) =~= seq![
                "balance"@,
                account@,
                "--budget"@,
                "-M"@,
                "-O"@,
                "json"@,
                "-f"@,
                journal@,
            ]);
            r
        },
        None => {
            let r: Vec<String> = words(["balance", "--budget", "-M", "-O", "json", "-f", journal]);
            assert(texts(r@) =~= seq!["balance"@, "--budget"@, "-M"@, "-O"@, "json"@, "-f"@, journal@]);
            r
        },
    }
}

/// `hledger print [query…] -O json`; the query terms are passed on as they are.
pub fn print_argv(journal: &str, query: &[String]) -> (r: Vec<String>)
    ensures
        texts(r@) == seq!["print"@] + texts(query@) + seq!["-O"@, "json"@, "-f"@, journal@],
{
    let mut r: Vec<String> = words(["print"]);
    let mut i: usize = 0;
    assert(texts(r@) =~= seq!["print"@] + texts(query@).take(0));
    while i < query.len()
        invariant
            i <= query.len(),
            texts(r@) == seq!["print"@] + texts(query@).take(i as int),
        decreases query.len() - i,
    {
        let ghost before = r@;
        r.push(query[i].clone());
        proof {
            assert(texts(r@) =~= texts(before).push(query@[i as int]@));
            assert(texts(query@).take(i + 1) =~= texts(query@).take(i as int).push(query@[i as int]@));
            assert(texts(r@) =~= seq!["print"@] + texts(query@).take(i + 1));
        }
        i += 1;
    }
    let mut tail: Vec<String> = words(["-O", "json", "-f", journal]);
    let ghost head = r@;
    let ghost end = tail@;
    r.append(&mut tail);
    proof {
        assert(texts(query@).take(i as int) =~= texts(query@));
        assert(texts(end) =~= seq!["-O"@, "json"@, "-f"@, journal@]);
        assert(texts(r@) =~= texts(head) + texts(end));
    }
    r
}

} // verus!
