//! The add/edit source form: checking what the user typed, and turning a
//! valid form into a source. Only the providers set up through this form
//! are accepted here (`manual_entry`, `webdriver`, `statement_import`);
//! Plaid sources are connected through their own flow.

use vstd::prelude::*;

use crate::provider::{config_str, ProviderConfig, SourceConfig};
use crate::snapshot::Category;
use crate::str_map::StrMap;
use crate::text::{chars_of, join3, matches_at, matches_at_exec, str_eq, trim, trim_exec};

verus! {

/// What the user typed into the source form.
pub struct SourceFormInput {
    pub id: String,
    pub provider: String,
    pub category: String,
    pub account_type: String,
    pub institution: String,
    /// Used by `webdriver` sources only.
    pub webdriver_login_url: Option<String>,
    /// Used by `statement_import` sources only: the directory scanned for
    /// PDF statements. Required for that provider.
    pub watch_dir: Option<String>,
    /// Used by `statement_import` sources only: picks the account out of
    /// a statement that covers several. Optional.
    pub account_hint: Option<String>,
}

impl Default for SourceFormInput {
    /// An empty form.
    fn default() -> (r: Self)
        ensures
            r.id@ == Seq::<char>::empty(),
            r.provider@ == Seq::<char>::empty(),
            r.category@ == Seq::<char>::empty(),
            r.account_type@ == Seq::<char>::empty(),
            r.institution@ == Seq::<char>::empty(),
            r.webdriver_login_url is None,
            r.watch_dir is None,
            r.account_hint is None,
    {
        SourceFormInput {
            id: String::new(),
            provider: String::new(),
            category: String::new(),
            account_type: String::new(),
            institution: String::new(),
            webdriver_login_url: None,
            watch_dir: None,
            account_hint: None,
        }
    }
}

pub open spec fn opt_view(o: Option<String>) -> Option<Seq<char>> {
    match o {
        Some(s) => Some(s@),
        None => None,
    }
}

/// `s` is blank: empty or only whitespace.
pub open spec fn blank(s: Seq<char>) -> bool {
    trim(s).len() == 0
}

pub open spec fn known_provider(p: Seq<char>) -> bool {
    p == "manual_entry"@ || p == "webdriver"@ || p == "statement_import"@
}

pub open spec fn known_category(c: Seq<char>) -> bool {
    c == "asset"@ || c == "liability"@
}

/// A login URL that starts with `http://` or `https://`.
pub open spec fn valid_login_url(u: Option<Seq<char>>) -> bool {
    match u {
        Some(url) => matches_at(url, 0, "http://"@) || matches_at(url, 0, "https://"@),
        None => false,
    }
}

/// The problem with the id, if any: blank, or already taken by another
/// source (an edited source's own id is not a clash).
pub open spec fn id_errors(id: Seq<char>, existing: Seq<Seq<char>>, editing: Option<Seq<char>>) -> Seq<Seq<char>> {
    if blank(id) {
        seq!["id must not be empty"@]
    } else if editing != Some(id) && existing.contains(id) {
        seq!["a source with id '"@ + id + "' already exists"@]
    } else {
        seq![]
    }
}

/// `msg` when `bad` holds, nothing otherwise.
pub open spec fn error_if(bad: bool, msg: Seq<char>) -> Seq<Seq<char>> {
    if bad {
        seq![msg]
    } else {
        seq![]
    }
}

/// Every problem with a form, in the order the form's fields come.
pub open spec fn form_errors(input: SourceFormInput, existing: Seq<Seq<char>>, editing: Option<Seq<char>>) -> Seq<Seq<char>> {
    id_errors(input.id@, existing, editing) + error_if(
        !known_provider(input.provider@),
        "unknown provider '"@ + input.provider@
            + "' \u{2014} must be 'manual_entry', 'webdriver', or 'statement_import' (Plaid connects through a separate flow)"@,
    ) + error_if(!known_category(input.category@), "category must be 'asset' or 'liability'"@)
        + error_if(blank(input.account_type@), "type must not be empty"@) + error_if(
        blank(input.institution@),
        "institution must not be empty"@,
    ) + error_if(
        input.provider@ == "webdriver"@ && !valid_login_url(opt_view(input.webdriver_login_url)),
        "webdriver sources need a login_url starting with http:// or https://"@,
    ) + error_if(
        input.provider@ == "statement_import"@ && !(opt_view(input.watch_dir) matches Some(d)
            && !blank(d)),
        "statement_import sources need a watch_dir (the directory to scan for PDF statements)"@,
    )
}

pub open spec fn ids_view(v: Seq<String>) -> Seq<Seq<char>> {
    v.map_values(|s: String| s@)
}

/// Whether `s` is blank: empty or only whitespace.
pub fn is_blank(s: &str) -> (r: bool)
    ensures
        r == blank(s@),
{
    let t = trim_exec(&chars_of(s));
    t.len() == 0
}

fn push_if(errors: &mut Vec<String>, bad: bool, msg: String)
    ensures
        final(errors)@.map_values(|e: String| e@) == old(errors)@.map_values(|e: String| e@)
            + error_if(bad, msg@),
{
    let ghost before = errors@;
    if bad {
        errors.push(msg);
        assert(errors@.map_values(|e: String| e@) =~= before.map_values(|e: String| e@).push(
            msg@,
        ));
    } else {
        assert(errors@.map_values(|e: String| e@) =~= before.map_values(|e: String| e@) + seq![]);
    }
}

/// Whether `url` is a usable login URL: it starts with `http://` or
/// `https://`.
pub fn is_valid_login_url(url: &str) -> (r: bool)
    ensures
        r == valid_login_url(Some(url@)),
{
    let u = chars_of(url);
    matches_at_exec(&u, 0, &chars_of("http://")) || matches_at_exec(&u, 0, &chars_of("https://"))
}

/// The problem with a source id, if any: blank, or already the id of
/// another source (`editing_id` names the source being edited, whose own
/// id is no clash).
pub fn id_problem(id: &str, existing_ids: &[String], editing_id: Option<&str>) -> (r: Option<String>)
    ensures
        id_errors(
            id@,
            ids_view(existing_ids@),
            match editing_id {
                Some(e) => Some(e@),
                None => None,
            },
        ) == match r {
            Some(m) => seq![m@],
            None => Seq::<Seq<char>>::empty(),
        },
{
    let ghost editing = match editing_id {
        Some(e) => Some(e@),
        None => None,
    };
    let ghost ids = ids_view(existing_ids@);
    if is_blank(id) {
        return Some("id must not be empty".to_string());
    }
    let self_edit = match editing_id {
        Some(e) => str_eq(e, id),
        None => false,
    };
    let mut taken = false;
    let mut i: usize = 0;
    while i < existing_ids.len()
        invariant
            i <= existing_ids.len(),
            ids == ids_view(existing_ids@),
            taken == exists|j: int| 0 <= j < i && ids[j] == id@,
        decreases existing_ids.len() - i,
    {
        assert(ids[i as int] == existing_ids@[i as int]@);
        if str_eq(existing_ids[i].as_str(), id) {
            taken = true;
        }
        i = i + 1;
    }
    proof {
        if ids.contains(id@) {
            let j = choose|j: int| 0 <= j < ids.len() && ids[j] == id@;
            assert(exists|j: int| 0 <= j < i && ids[j] == id@);
        }
        if taken {
            let j = choose|j: int| 0 <= j < i && ids[j] == id@;
            assert(ids.contains(id@));
        }
    }
    if !self_edit && taken {
        Some(join3("a source with id '", id, "' already exists"))
    } else {
        None
    }
}

/// Every problem with the form, so that all of them can be shown at
/// once. `editing_id` names the source being edited (its own id is then
/// no clash); it is `None` when a source is being added.
pub fn validate(input: &SourceFormInput, existing_ids: &[String], editing_id: Option<&str>) -> (r: Vec<String>)
    ensures
        r@.map_values(|e: String| e@) == form_errors(
            *input,
            ids_view(existing_ids@),
            match editing_id {
                Some(e) => Some(e@),
                None => None,
            },
        ),
{
    let mut errors: Vec<String> = Vec::new();
    let ghost editing = match editing_id {
        Some(e) => Some(e@),
        None => None,
    };
    let ghost ids = ids_view(existing_ids@);
    match id_problem(input.id.as_str(), existing_ids, editing_id) {
        Some(m) => {
            errors.push(m);
        },
        None => {},
    }
    assert(errors@.map_values(|e: String| e@) =~= id_errors(input.id@, ids, editing));
    let p = input.provider.as_str();
    let known = str_eq(p, "manual_entry") || str_eq(p, "webdriver") || str_eq(p, "statement_import");
    push_if(
        &mut errors,
        !known,
        join3(
            "unknown provider '",
            p,
            "' \u{2014} must be 'manual_entry', 'webdriver', or 'statement_import' (Plaid connects through a separate flow)",
        ),
    );
    let c = input.category.as_str();
    push_if(
        &mut errors,
        !(str_eq(c, "asset") || str_eq(c, "liability")),
        "category must be 'asset' or 'liability'".to_string(),
    );
    push_if(&mut errors, is_blank(input.account_type.as_str()), "type must not be empty".to_string());
    push_if(
        &mut errors,
        is_blank(input.institution.as_str()),
        "institution must not be empty".to_string(),
    );
    let url_ok = match &input.webdriver_login_url {
        Some(url) => is_valid_login_url(url.as_str()),
        None => false,
    };
    push_if(
        &mut errors,
        str_eq(p, "webdriver") && !url_ok,
        "webdriver sources need a login_url starting with http:// or https://".to_string(),
    );
    let dir_ok = match &input.watch_dir {
        Some(d) => !is_blank(d.as_str()),
        None => false,
    };
    push_if(
        &mut errors,
        str_eq(p, "statement_import") && !dir_ok,
        "statement_import sources need a watch_dir (the directory to scan for PDF statements)".to_string(),
    );
    errors
}

/// The fields of the source form, in the order they are asked.
#[derive(Debug, Clone, Copy, PartialEq, Eq)]
pub enum FormField {
    Id,
    Provider,
    Category,
    AccountType,
    Institution,
    /// Asked of `webdriver` sources only.
    LoginUrl,
    /// Asked of `statement_import` sources only.
    WatchDir,
    /// Asked of `statement_import` sources only, after the watch directory.
    AccountHint,
}

/// The field asked after `current` when the chosen provider is
/// `provider`; `None` when the form is complete. Every form asks the id,
/// provider, category, account type and institution; a `webdriver`
/// source then its login URL, a `statement_import` source its watch
/// directory and then an optional account hint.
pub open spec fn next_field_spec(provider: Seq<char>, current: FormField) -> Option<FormField> {
    match current {
        FormField::Id => Some(FormField::Provider),
        FormField::Provider => Some(FormField::Category),
        FormField::Category => Some(FormField::AccountType),
        FormField::AccountType => Some(FormField::Institution),
        FormField::Institution => if provider == "webdriver"@ {
            Some(FormField::LoginUrl)
        } else if provider == "statement_import"@ {
            Some(FormField::WatchDir)
        } else {
            None
        },
        FormField::LoginUrl => None,
        FormField::WatchDir => Some(FormField::AccountHint),
        FormField::AccountHint => None,
    }
}

/// The field the form asks after `current`, for a source of provider
/// `provider`; `None` once every field that provider needs was asked.
pub fn next_field(provider: &str, current: FormField) -> (r: Option<FormField>)
    ensures
        r == next_field_spec(provider@, current),
{
    match current {
        FormField::Id => Some(FormField::Provider),
        FormField::Provider => Some(FormField::Category),
        FormField::Category => Some(FormField::AccountType),
        FormField::AccountType => Some(FormField::Institution),
        FormField::Institution => {
            if str_eq(provider, "webdriver") {
                Some(FormField::LoginUrl)
            } else if str_eq(provider, "statement_import") {
                Some(FormField::WatchDir)
            } else {
                None
            }
        },
        FormField::LoginUrl => None,
        FormField::WatchDir => Some(FormField::AccountHint),
        FormField::AccountHint => None,
    }
}

/// The form the answers make: the login URL is kept for a `webdriver`
/// source only, the watch directory for a `statement_import` source
/// only, and the account hint for a `statement_import` source only and
/// only when it is not blank (a blank answer means no hint).
pub fn finish_form(
    id: String,
    provider: String,
    category: String,
    account_type: String,
    institution: String,
    login_url: Option<String>,
    watch_dir: Option<String>,
    hint_answer: Option<String>,
) -> (r: SourceFormInput)
    ensures
        r.id@ == id@,
        r.provider@ == provider@,
        r.category@ == category@,
        r.account_type@ == account_type@,
        r.institution@ == institution@,
        opt_view(r.webdriver_login_url) == if provider@ == "webdriver"@ {
            opt_view(login_url)
        } else {
            None
        },
        opt_view(r.watch_dir) == if provider@ == "statement_import"@ {
            opt_view(watch_dir)
        } else {
            None
        },
        opt_view(r.account_hint) == match opt_view(hint_answer) {
            Some(h) => if provider@ == "statement_import"@ && !blank(h) {
                Some(h)
            } else {
                None
            },
            None => None,
        },
{
    let webdriver = str_eq(provider.as_str(), "webdriver");
    let statements = str_eq(provider.as_str(), "statement_import");
    let webdriver_login_url = if webdriver {
        login_url
    } else {
        None
    };
    let kept_dir = if statements {
        watch_dir
    } else {
        None
    };
    let account_hint = match hint_answer {
        Some(h) => {
            if statements && !is_blank(h.as_str()) {
                Some(h)
            } else {
                None
            }
        },
        None => None,
    };
    SourceFormInput {
        id,
        provider,
        category,
        account_type,
        institution,
        webdriver_login_url,
        watch_dir: kept_dir,
        account_hint,
    }
}

/// The category a valid form names.
pub open spec fn form_category(c: Seq<char>) -> Category {
    if c == "liability"@ {
        Category::Liability
    } else {
        Category::Asset
    }
}

/// The source a form describes. Meant for a form that `validate` passed;
/// its salt is left empty, for adding or editing to fill in. A webdriver
/// source keeps its login URL, a statement-import source its watch
/// directory and (when not blank) its account hint.
pub fn to_source_config(input: &SourceFormInput) -> (r: SourceConfig)
    ensures
        r.id@ == input.id@,
        r.provider@ == input.provider@,
        r.category == form_category(input.category@),
        r.account_type@ == input.account_type@,
        r.institution@ == input.institution@,
        r.account_salt@ == Seq::<char>::empty(),
        input.provider@ == "webdriver"@ ==> r.provider_config@.dom() == set!["login_url"@]
            && config_str(r.provider_config@, "login_url"@) == opt_view(input.webdriver_login_url),
        input.provider@ == "statement_import"@ ==> config_str(r.provider_config@, "watch_dir"@)
            == opt_view(input.watch_dir) && r.provider_config@.contains_key("watch_dir"@)
            && r.provider_config@.dom().subset_of(set!["watch_dir"@, "account_hint"@]) && (
        match opt_view(input.account_hint) {
            Some(h) => if blank(h) {
                !r.provider_config@.contains_key("account_hint"@)
            } else {
                config_str(r.provider_config@, "account_hint"@) == Some(h)
            },
            None => !r.provider_config@.contains_key("account_hint"@),
        }),
        input.provider@ != "webdriver"@ && input.provider@ != "statement_import"@
            ==> r.provider_config@.dom().is_empty(),
{
    let category = if str_eq(input.category.as_str(), "liability") {
        Category::Liability
    } else {
        Category::Asset
    };
    let mut config: ProviderConfig = StrMap::new();
    proof {
        reveal_strlit("webdriver");
        reveal_strlit("statement_import");
        assert("webdriver"@.len() != "statement_import"@.len());
    }
    if str_eq(input.provider.as_str(), "webdriver") {
        config.insert("login_url".to_string(), input.webdriver_login_url.clone());
        assert(config@.dom() =~= set!["login_url"@]);
    } else if str_eq(input.provider.as_str(), "statement_import") {
        config.insert("watch_dir".to_string(), input.watch_dir.clone());
        match &input.account_hint {
            Some(h) => {
                if !is_blank(h.as_str()) {
                    config.insert("account_hint".to_string(), Some(h.clone()));
                }
            },
            None => {},
        }
        proof {
            reveal_strlit("watch_dir");
            reveal_strlit("account_hint");
            assert("watch_dir"@.len() != "account_hint"@.len());
        }
    }
    SourceConfig {
        id: input.id.clone(),
        provider: input.provider.clone(),
        category,
        account_type: input.account_type.clone(),
        institution: input.institution.clone(),
        account_salt: String::new(),
        provider_config: config,
    }
}

} // verus!
