//! Completing a Plaid Link session. A new connection is refused before
//! anything else happens once the Item cap is reached. Once the token
//! exchange has succeeded, the Item counter goes up exactly once (it
//! counts Items, not accounts) and every account the user picked becomes
//! a Plaid source.

use vstd::prelude::*;

use crate::item_usage::{ItemUsageCounter, PLAID_ITEM_LIMIT};
use crate::plaid::PlaidError;
use crate::provider::{config_str, ProviderConfig, SourceConfig};
use crate::snapshot::Category;
use crate::sources::{add_source, find_id, is_fresh_salt, lemma_find_id_from, SourcesError};
use crate::str_map::StrMap;
use crate::text::str_eq;

verus! {

/// Why completing a Link session failed.
#[derive(Debug)]
pub enum CompleteLinkError {
    /// The Item cap is reached.
    ItemLimitReached,
    Plaid(PlaidError),
    /// The keychain refused; its message.
    Keychain(String),
    Sources(SourcesError),
}

/// One account the user chose to track.
pub struct SelectedAccount {
    pub source_id: String,
    pub plaid_account_id: String,
    pub category: Category,
    pub account_type: String,
    pub institution: String,
}

/// Whether a new Plaid connection may start: refused at the Item cap.
pub fn check_link_allowed(item_counter: &ItemUsageCounter) -> (r: Result<(), CompleteLinkError>)
    ensures
        item_counter.value() >= PLAID_ITEM_LIMIT <==> r is Err,
        r matches Err(e) ==> e is ItemLimitReached,
{
    if item_counter.is_blocked() {
        Err(CompleteLinkError::ItemLimitReached)
    } else {
        Ok(())
    }
}

/// The Plaid source for one chosen account (its salt is made when it is
/// added).
pub fn plaid_source(account: SelectedAccount) -> (r: SourceConfig)
    ensures
        r.id == account.source_id,
        r.provider@ == "plaid"@,
        r.category == account.category,
        r.account_type == account.account_type,
        r.institution == account.institution,
        r.provider_config@.dom() == set!["plaid_account_id"@],
        config_str(r.provider_config@, "plaid_account_id"@) == Some(account.plaid_account_id@),
{
    let mut config: ProviderConfig = StrMap::new();
    let ghost id = account.plaid_account_id@;
    config.insert("plaid_account_id".to_string(), Some(account.plaid_account_id));
    assert(config@.dom() =~= set!["plaid_account_id"@]);
    SourceConfig {
        id: account.source_id,
        provider: "plaid".to_string(),
        category: account.category,
        account_type: account.account_type,
        institution: account.institution,
        account_salt: String::new(),
        provider_config: config,
    }
}

/// `s` is the Plaid source for the chosen account `a` (with a fresh
/// salt).
pub open spec fn is_plaid_source_for(s: SourceConfig, a: SelectedAccount) -> bool {
    &&& s.id@ == a.source_id@
    &&& s.provider@ == "plaid"@
    &&& s.category == a.category
    &&& s.account_type@ == a.account_type@
    &&& s.institution@ == a.institution@
    &&& s.provider_config@.dom() == set!["plaid_account_id"@]
    &&& config_str(s.provider_config@, "plaid_account_id"@) == Some(a.plaid_account_id@)
    &&& is_fresh_salt(s.account_salt@)
}

/// The `j`-th chosen account's id is already taken: by a source in
/// `start` or by an earlier chosen account.
pub open spec fn id_clash(start: Seq<SourceConfig>, chosen: Seq<SelectedAccount>, j: int) -> bool {
    find_id(start, chosen[j].source_id@) is Some || exists|i: int|
        0 <= i < j && chosen[i].source_id@ == chosen[j].source_id@
}

/// Records a newly connected Item, after its token exchange succeeded
/// and its token was stored: the counter goes up by exactly one, however
/// many accounts were picked, and each picked account is added as a
/// source, in order, until one is refused because its id is taken (by
/// an existing source or an earlier pick). The sources added before the
/// refusal stay.
pub fn record_linked_item(
    item_counter: &mut ItemUsageCounter,
    sources: &mut Vec<SourceConfig>,
    selected_accounts: Vec<SelectedAccount>,
) -> (r: Result<(), CompleteLinkError>)
    requires
        old(item_counter).value() < u32::MAX,
    ensures
        final(item_counter).value() == old(item_counter).value() + 1,
        r is Ok <==> forall|j: int| 0 <= j < selected_accounts@.len() ==> !id_clash(old(sources)@, selected_accounts@, j),
        final(sources)@.take(old(sources)@.len() as int) == old(sources)@,
        r is Ok ==> final(sources)@.len() == old(sources)@.len() + selected_accounts@.len(),
        forall|j: int|
            old(sources)@.len() <= j < final(sources)@.len() ==> is_plaid_source_for(
                #[trigger] final(sources)@[j],
                selected_accounts@[j - old(sources)@.len()],
            ),
        r matches Err(e) ==> exists|j: int|
            0 <= j < selected_accounts@.len() && id_clash(old(sources)@, selected_accounts@, j)
                && (forall|i: int| 0 <= i < j ==> !id_clash(old(sources)@, selected_accounts@, i))
                && final(sources)@.len() == old(sources)@.len() + j && (e matches CompleteLinkError::Sources(
                SourcesError::AlreadyExists(id),
            ) && id@ == selected_accounts@[j].source_id@),
{
    item_counter.increment();
    let ghost n0 = sources@.len();
    let ghost start = sources@;
    let ghost chosen = selected_accounts@;
    let count = selected_accounts.len();
    let mut rest = selected_accounts;
    let mut added: usize = 0;
    while rest.len() > 0
        invariant
            item_counter.value() == old(item_counter).value() + 1,
            n0 == old(sources)@.len(),
            start == old(sources)@,
            chosen == selected_accounts@,
            chosen.len() == count,
            added <= chosen.len(),
            rest@ == chosen.skip(added as int),
            sources@.len() == n0 + added,
            sources@.take(n0 as int) == start,
            forall|j: int| n0 <= j < sources@.len() ==> is_plaid_source_for(#[trigger] sources@[j], chosen[j - n0]),
            forall|j: int| 0 <= j < added ==> !id_clash(start, chosen, j),
        decreases rest.len(),
    {
        let account = rest.remove(0);
        assert(account == chosen[added as int]);
        let ghost before = sources@;
        let ghost id = chosen[added as int].source_id@;
        let s = plaid_source(account);
        proof {
            lemma_find_id_from(before, id, 0);
            lemma_find_id_from(start, id, 0);
            if find_id(before, id) is Some {
                let k = choose|k: int| 0 <= k < before.len() && before[k].id@ == id;
                if k < n0 {
                    assert(before.take(n0 as int)[k] == before[k]);
                    assert(find_id(start, id) is Some);
                } else {
                    assert(is_plaid_source_for(before[k], chosen[k - n0]));
                }
                assert(id_clash(start, chosen, added as int));
            }
            if id_clash(start, chosen, added as int) {
                if find_id(start, id) is Some {
                    let k = choose|k: int| 0 <= k < start.len() && start[k].id@ == id;
                    assert(before.take(n0 as int)[k] == before[k]);
                } else {
                    let i = choose|i: int| 0 <= i < added && chosen[i].source_id@ == id;
                    assert(is_plaid_source_for(before[n0 + i], chosen[i]));
                    assert(before[n0 + i].id@ == id);
                }
                assert(find_id(before, id) is Some);
            }
        }
        match add_source(sources, s) {
            Ok(()) => {
                assert(sources@.take(n0 as int) =~= before.take(n0 as int));
                assert(sources@[n0 + added] == sources@.last());
                assert forall|j: int| n0 <= j < sources@.len() implies is_plaid_source_for(
                    #[trigger] sources@[j],
                    chosen[j - n0],
                ) by {
                    if j < n0 + added {
                        assert(sources@.take(before.len() as int)[j] == sources@[j]);
                    }
                }
            },
            Err(e) => {
                assert(sources@ == before);
                assert(id_clash(start, chosen, added as int));
                assert forall|j: int| n0 <= j < sources@.len() implies is_plaid_source_for(
                    #[trigger] sources@[j],
                    chosen[j - n0],
                ) by {}
                return Err(CompleteLinkError::Sources(e));
            },
        }
        added = added + 1;
        assert(rest@ =~= chosen.skip(added as int));
    }
    Ok(())
}

/// Where the category choice starts for an account that Plaid reports
/// with type `plaid_type`: on the second option (liability) for a
/// `credit` or `loan` account, on the first (asset) otherwise.
pub fn default_category_index(plaid_type: &str) -> (r: usize)
    ensures
        r == (if plaid_type@ == "credit"@ || plaid_type@ == "loan"@ {
            1usize
        } else {
            0usize
        }),
{
    if str_eq(plaid_type, "credit") || str_eq(plaid_type, "loan") {
        1
    } else {
        0
    }
}

/// The account type offered for an account that Plaid reports: its
/// subtype when it has one, else its type.
pub fn default_account_type(subtype: Option<String>, plaid_type: String) -> (r: String)
    ensures
        r@ == match subtype {
            Some(s) => s@,
            None => plaid_type@,
        },
{
    match subtype {
        Some(s) => s,
        None => plaid_type,
    }
}

} // verus!
