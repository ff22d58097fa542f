//! Adding, editing and removing sources. Each source gets a fresh random
//! salt when it is added, and keeps it for good: its account keys are
//! hashed with it, so a changed salt would break the tracking of every
//! earlier snapshot.

use vstd::prelude::*;

use crate::provider::SourceConfig;
use crate::amount::{dec_value, lemma_digits_round_trip, nat_digits, push_digits_u128};
use crate::text::{chars_equal, chars_of, concat, join3, lowercase, lowercase_chars, str_eq, string_of};

verus! {

/// Why a change to the source list was refused.
#[derive(Debug)]
pub enum SourcesError {
    /// No source has this id.
    NotFound(String),
    /// A source with this id exists already.
    AlreadyExists(String),
}

impl SourcesError {
    /// The error's text, as shown to the user.
    pub fn message(&self) -> (r: String)
        ensures
            r@ == match self {
                SourcesError::NotFound(id) => "no source with id '"@ + id@ + "' found"@,
                SourcesError::AlreadyExists(id) => "a source with id '"@ + id@ + "' already exists"@,
            },
    {
        match self {
            SourcesError::NotFound(id) => crate::text::join3("no source with id '", id.as_str(), "' found"),
            SourcesError::AlreadyExists(id) => crate::text::join3(
                "a source with id '",
                id.as_str(),
                "' already exists",
            ),
        }
    }
}

/// The position of the first source in `s`, from `from` on, whose id is
/// `id`.
pub open spec fn find_id_from(s: Seq<SourceConfig>, id: Seq<char>, from: int) -> Option<int>
    decreases s.len() - from,
{
    if from < 0 || from >= s.len() {
        None
    } else if s[from].id@ == id {
        Some(from)
    } else {
        find_id_from(s, id, from + 1)
    }
}

/// The position of the first source in `s` whose id is `id`.
pub open spec fn find_id(s: Seq<SourceConfig>, id: Seq<char>) -> Option<int> {
    find_id_from(s, id, 0)
}

/// No two sources share an id.
pub open spec fn unique_ids(s: Seq<SourceConfig>) -> bool {
    forall|i: int, j: int| 0 <= i < j < s.len() ==> s[i].id@ != s[j].id@
}

pub proof fn lemma_find_id_from(s: Seq<SourceConfig>, id: Seq<char>, from: int)
    requires
        0 <= from,
    ensures
        find_id_from(s, id, from) matches Some(i) ==> from <= i < s.len() && s[i].id@ == id
            && forall|j: int| from <= j < i ==> s[j].id@ != id,
        find_id_from(s, id, from) is None ==> forall|j: int| from <= j < s.len() ==> s[j].id@ != id,
    decreases s.len() - from,
{
    if from < s.len() && s[from].id@ != id {
        lemma_find_id_from(s, id, from + 1);
    }
}

/// The first position of a source with id `id`.
fn position(sources: &Vec<SourceConfig>, id: &str) -> (r: Option<usize>)
    ensures
        r matches Some(i) ==> find_id(sources@, id@) == Some(i as int) && i < sources.len(),
        r is None ==> find_id(sources@, id@) is None,
{
    proof {
        lemma_find_id_from(sources@, id@, 0);
    }
    let mut i: usize = 0;
    while i < sources.len()
        invariant
            i <= sources.len(),
            find_id(sources@, id@) == find_id_from(sources@, id@, i as int),
        decreases sources.len() - i,
    {
        if str_eq(sources[i].id.as_str(), id) {
            return Some(i);
        }
        i = i + 1;
    }
    None
}

/// What base64's standard engine (with padding) encodes `bytes` as.
pub uninterp spec fn base64_standard(bytes: Seq<u8>) -> Seq<char>;

/// `base64::engine::general_purpose::STANDARD.encode`: the standard,
/// padded base64 text of `bytes`.
#[verifier::external_body]
fn base64_encode(bytes: &[u8]) -> (r: String)
    ensures
        r@ == base64_standard(bytes@),
{
    base64::Engine::encode(&base64::engine::general_purpose::STANDARD, bytes)
}

/// Sixteen bytes from `rand`'s thread-local generator
/// (`ThreadRng::fill_bytes`). What the bytes are is left open: only
/// their number is stated.
#[verifier::external_body]
pub(crate) fn random_bytes_16() -> (r: Vec<u8>)
    ensures
        r@.len() == 16,
{
    let mut bytes = [0u8; 16];
    rand::RngCore::fill_bytes(&mut rand::rng(), &mut bytes);
    bytes.to_vec()
}

/// A salt made from sixteen random bytes.
pub open spec fn is_fresh_salt(s: Seq<char>) -> bool {
    exists|b: Seq<u8>| b.len() == 16 && s == "b64:"@ + base64_standard(b)
}

/// A new random salt for a source: `"b64:"` and the base64 text of
/// sixteen random bytes.
pub fn generate_account_salt() -> (r: String)
    ensures
        is_fresh_salt(r@),
{
    let bytes = random_bytes_16();
    let encoded = base64_encode(&bytes);
    let r = string_of(&concat(&chars_of("b64:"), &chars_of(encoded.as_str())));
    assert(r@ == "b64:"@ + base64_standard(bytes@));
    r
}

/// The same source as `b` apart from its salt.
pub open spec fn same_but_salt(a: SourceConfig, b: SourceConfig) -> bool {
    &&& a.id == b.id
    &&& a.provider == b.provider
    &&& a.category == b.category
    &&& a.account_type == b.account_type
    &&& a.institution == b.institution
    &&& a.provider_config == b.provider_config
}

/// Adds `new_source` at the end of `sources`, with a freshly made salt
/// (whatever salt it came with is dropped). Refused, with the list left
/// as it was, when a source with the same id exists.
pub fn add_source(sources: &mut Vec<SourceConfig>, new_source: SourceConfig) -> (r: Result<(), SourcesError>)
    ensures
        find_id(old(sources)@, new_source.id@) is Some <==> r is Err,
        r matches Err(e) ==> e matches SourcesError::AlreadyExists(id) && id@ == new_source.id@
            && final(sources)@ == old(sources)@,
        r is Ok ==> final(sources)@.len() == old(sources)@.len() + 1 && final(sources)@.take(
            old(sources)@.len() as int,
        ) == old(sources)@ && same_but_salt(final(sources)@.last(), new_source) && is_fresh_salt(
            final(sources)@.last().account_salt@,
        ),
        unique_ids(old(sources)@) ==> unique_ids(final(sources)@),
{
    proof {
        lemma_find_id_from(sources@, new_source.id@, 0);
    }
    match position(sources, new_source.id.as_str()) {
        Some(_) => Err(SourcesError::AlreadyExists(new_source.id)),
        None => {
            let mut s = new_source;
            s.account_salt = generate_account_salt();
            sources.push(s);
            assert(sources@.take(old(sources)@.len() as int) =~= old(sources)@);
            Ok(())
        },
    }
}

/// Replaces the first source with id `id` by `updated`, which keeps the
/// replaced source's salt (whatever salt `updated` came with is
/// dropped). Refused, with the list left as it was, when no source has
/// that id.
pub fn edit_source(sources: &mut Vec<SourceConfig>, id: &str, updated: SourceConfig) -> (r: Result<(), SourcesError>)
    ensures
        find_id(old(sources)@, id@) is None <==> r is Err,
        r matches Err(e) ==> e matches SourcesError::NotFound(m) && m@ == id@ && final(sources)@
            == old(sources)@,
        find_id(old(sources)@, id@) matches Some(i) ==> final(sources)@.len()
            == old(sources)@.len() && (forall|j: int|
            0 <= j < old(sources)@.len() && j != i ==> final(sources)@[j] == old(sources)@[j])
            && same_but_salt(final(sources)@[i], updated) && final(sources)@[i].account_salt
            == old(sources)@[i].account_salt,
{
    match position(sources, id) {
        None => Err(SourcesError::NotFound(id.to_string())),
        Some(i) => {
            let replaced = sources.remove(i);
            let mut u = updated;
            u.account_salt = replaced.account_salt;
            sources.insert(i, u);
            assert(sources@ =~= old(sources)@.update(i as int, sources@[i as int]));
            Ok(())
        },
    }
}

/// Removes the first source with id `id`. Refused, with the list left as
/// it was, when no source has that id.
pub fn remove_source(sources: &mut Vec<SourceConfig>, id: &str) -> (r: Result<(), SourcesError>)
    ensures
        find_id(old(sources)@, id@) is None <==> r is Err,
        r matches Err(e) ==> e matches SourcesError::NotFound(m) && m@ == id@ && final(sources)@
            == old(sources)@,
        find_id(old(sources)@, id@) matches Some(i) ==> final(sources)@ == old(
            sources,
        )@.remove(i),
{
    match position(sources, id) {
        None => Err(SourcesError::NotFound(id.to_string())),
        Some(i) => {
            sources.remove(i);
            Ok(())
        },
    }
}

/// Whether `c` is alphabetic or numeric in Unicode's sense.
pub uninterp spec fn is_alphanumeric(c: char) -> bool;

/// `char::is_alphanumeric`: whether `c` is alphabetic or numeric in
/// Unicode's sense. Of the result only its name is stated.
#[verifier::external_body]
fn char_is_alphanumeric(c: char) -> (r: bool)
    ensures
        r == is_alphanumeric(c),
{
    c.is_alphanumeric()
}

/// `t` with every character that is not alphanumeric turned into `_`.
pub open spec fn slug_chars(t: Seq<char>) -> Seq<char> {
    t.map_values(|c: char| if is_alphanumeric(c) { c } else { '_' })
}

/// The starting id for a source of account `account` at `institution`:
/// both joined by `_`, in lower case, with every character that is not
/// alphanumeric turned into `_`.
pub open spec fn source_slug(institution: Seq<char>, account: Seq<char>) -> Seq<char> {
    slug_chars(lowercase(institution + "_"@ + account))
}

/// The `k`-th id tried for `slug`: the slug itself first, then the slug
/// with `_2`, `_3` and so on.
pub open spec fn candidate_id(slug: Seq<char>, k: nat) -> Seq<char> {
    if k <= 1 {
        slug
    } else {
        slug + "_"@ + nat_digits(k)
    }
}

/// Some id in `ids` is `c`.
pub open spec fn id_taken(ids: Seq<String>, c: Seq<char>) -> bool {
    exists|i: int| 0 <= i < ids.len() && ids[i]@ == c
}

/// The first `k` ids tried for `slug`.
pub open spec fn tried_ids(slug: Seq<char>, k: nat) -> Set<Seq<char>>
    decreases k,
{
    if k == 0 {
        Set::empty()
    } else {
        tried_ids(slug, (k - 1) as nat).insert(candidate_id(slug, k))
    }
}

/// The ids tried for one slug are all different.
proof fn lemma_candidates_differ(slug: Seq<char>, j: nat, k: nat)
    requires
        1 <= j < k,
    ensures
        candidate_id(slug, j) != candidate_id(slug, k),
{
    reveal_strlit("_");
    let ck = candidate_id(slug, k);
    if j == 1 {
        assert(ck.len() > slug.len());
    } else {
        let cj = candidate_id(slug, j);
        if cj == ck {
            let n = slug.len() + 1;
            assert(nat_digits(j) =~= cj.subrange(n as int, cj.len() as int));
            assert(nat_digits(k) =~= ck.subrange(n as int, ck.len() as int));
            lemma_digits_round_trip(j);
            lemma_digits_round_trip(k);
        }
    }
}

proof fn lemma_tried_ids(slug: Seq<char>, k: nat)
    ensures
        tried_ids(slug, k).finite(),
        tried_ids(slug, k).len() == k,
        forall|c: Seq<char>| #[trigger] tried_ids(slug, k).contains(c) ==> exists|j: nat|
            1 <= j <= k && c == candidate_id(slug, j),
    decreases k,
{
    if k > 0 {
        let prev = (k - 1) as nat;
        lemma_tried_ids(slug, prev);
        assert(!tried_ids(slug, prev).contains(candidate_id(slug, k))) by {
            if tried_ids(slug, prev).contains(candidate_id(slug, k)) {
                let j = choose|j: nat| 1 <= j <= prev && candidate_id(slug, k) == candidate_id(slug, j);
                lemma_candidates_differ(slug, j, k);
            }
        }
        assert forall|c: Seq<char>| #[trigger] tried_ids(slug, k).contains(c) implies exists|j: nat|
            1 <= j <= k && c == candidate_id(slug, j) by {
            if c != candidate_id(slug, k) {
                assert(tried_ids(slug, prev).contains(c));
            }
        }
    }
}

/// When the first `k` ids tried are all taken, there are at least `k`
/// ids.
proof fn lemma_taken_ids_bound(ids: Seq<String>, slug: Seq<char>, k: nat)
    requires
        forall|j: nat| 1 <= j <= k ==> id_taken(ids, #[trigger] candidate_id(slug, j)),
    ensures
        k <= ids.len(),
{
    let views = ids.map_values(|s: String| s@);
    lemma_tried_ids(slug, k);
    assert forall|c: Seq<char>| #[trigger] tried_ids(slug, k).contains(c) implies views.to_set().contains(c) by {
        let j = choose|j: nat| 1 <= j <= k && c == candidate_id(slug, j);
        assert(id_taken(ids, candidate_id(slug, j)));
        let i = choose|i: int| 0 <= i < ids.len() && ids[i]@ == candidate_id(slug, j);
        assert(views[i] == c);
    }
    vstd::seq_lib::seq_to_set_is_finite(views);
    vstd::set_lib::lemma_len_subset(tried_ids(slug, k), views.to_set());
    views.lemma_cardinality_of_set();
}

/// Whether some id in `ids` is `c`.
fn is_taken(ids: &[String], c: &[char]) -> (r: bool)
    ensures
        r == id_taken(ids@, c@),
{
    let mut i: usize = 0;
    while i < ids.len()
        invariant
            i <= ids.len(),
            forall|j: int| 0 <= j < i ==> ids@[j]@ != c@,
        decreases ids.len() - i,
    {
        if chars_equal(&chars_of(ids[i].as_str()), c) {
            return true;
        }
        i = i + 1;
    }
    false
}

/// The id suggested for a new source of account `account_name` at
/// `institution_name`: the first of the slug, the slug with `_2`, with
/// `_3`, and so on, that no id in `existing_ids` already is.
pub fn suggest_source_id(institution_name: &str, account_name: &str, existing_ids: &[String]) -> (r:
    String)
    ensures
        exists|k: nat|
            1 <= k && r@ == candidate_id(source_slug(institution_name@, account_name@), k)
                && !id_taken(existing_ids@, r@) && forall|j: nat|
                1 <= j < k ==> id_taken(
                    existing_ids@,
                    #[trigger] candidate_id(source_slug(institution_name@, account_name@), j),
                ),
{
    let joined = join3(institution_name, "_", account_name);
    let lower = lowercase_chars(joined.as_str());
    let mut slug: Vec<char> = Vec::new();
    let mut i: usize = 0;
    while i < lower.len()
        invariant
            i <= lower.len(),
            slug@ == slug_chars(lower@.take(i as int)),
        decreases lower.len() - i,
    {
        let c = lower[i];
        slug.push(if char_is_alphanumeric(c) { c } else { '_' });
        assert(slug@ =~= slug_chars(lower@.take(i + 1)));
        i = i + 1;
    }
    assert(lower@.take(lower.len() as int) =~= lower@);
    let ghost base = slug@;
    assert(base == source_slug(institution_name@, account_name@));
    let mut candidate = slug.clone();
    assert(candidate@ =~= base);
    let mut k: u128 = 1;
    let count = existing_ids.len();
    assert(existing_ids@.len() == count);
    while is_taken(existing_ids, &candidate)
        invariant
            1 <= k <= existing_ids@.len() + 1,
            existing_ids@.len() <= usize::MAX,
            base == slug@,
            candidate@ == candidate_id(base, k as nat),
            forall|j: nat| 1 <= j < k ==> id_taken(existing_ids@, #[trigger] candidate_id(base, j)),
        decreases existing_ids@.len() + 1 - k,
    {
        proof {
            assert forall|j: nat| 1 <= j <= k implies id_taken(
                existing_ids@,
                #[trigger] candidate_id(base, j),
            ) by {}
            lemma_taken_ids_bound(existing_ids@, base, k as nat);
        }
        k = k + 1;
        let mut next = concat(&slug, &chars_of("_"));
        push_digits_u128(k, &mut next);
        candidate = next;
        proof {
            reveal_strlit("_");
        }
        assert(candidate@ =~= candidate_id(base, k as nat));
    }
    string_of(&candidate)
}

} // verus!
