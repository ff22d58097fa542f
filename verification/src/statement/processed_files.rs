//! Which statement files each source has already read, and each
//! source's last known balance. A file counts as read by its name and
//! the hash of its content together, so a corrected re-download under
//! the same name is read again. The last known balance (with the date
//! and raw identifier it came with) is reported again when a run finds
//! no new statement, so the account keeps its key and the dashboard its
//! figure.

use vstd::prelude::*;

use crate::str_map::StrMap;
use crate::text::{str_eq};

verus! {

/// One source's history.
pub struct SourceLedgerEntry {
    /// File name to content hash, of every file read.
    pub processed_filenames: StrMap<String>,
    /// Cents.
    pub last_balance: i64,
    pub last_as_of_date: String,
    /// The raw identifier the last statement gave (hashed into the
    /// account key, so that it stays the same between statements).
    pub last_account_identifier: String,
}

/// One source's history as plain values.
pub struct EntryView {
    pub files: Map<Seq<char>, Seq<char>>,
    pub balance: i64,
    pub as_of: Seq<char>,
    pub id: Seq<char>,
}

impl SourceLedgerEntry {
    pub open spec fn view(&self) -> EntryView {
        EntryView {
            files: self.processed_filenames@.map_values(|h: String| h@),
            balance: self.last_balance,
            as_of: self.last_as_of_date@,
            id: self.last_account_identifier@,
        }
    }
}

/// Every source's history, by source id.
pub struct ProcessedFilesLedger {
    pub per_source: StrMap<SourceLedgerEntry>,
}

/// The entry a read of `file` with hash `hash` leaves behind, over the
/// entry the source had (if any).
pub open spec fn marked_entry(
    prev: Option<EntryView>,
    file: Seq<char>,
    hash: Seq<char>,
    balance: i64,
    as_of: Seq<char>,
    id: Seq<char>,
) -> EntryView {
    EntryView {
        files: match prev {
            Some(e) => e.files,
            None => Map::empty(),
        }.insert(file, hash),
        balance,
        as_of,
        id,
    }
}

impl ProcessedFilesLedger {
    pub open spec fn view(&self) -> Map<Seq<char>, EntryView> {
        self.per_source@.map_values(|e: SourceLedgerEntry| e.view())
    }

    /// A ledger with no history.
    pub fn new() -> (r: Self)
        ensures
            r@ == Map::<Seq<char>, EntryView>::empty(),
    {
        let r = ProcessedFilesLedger { per_source: StrMap::new() };
        assert(r@ =~= Map::<Seq<char>, EntryView>::empty());
        r
    }

    /// Whether this source already read this exact file (same name, same
    /// content hash).
    pub fn is_processed(&self, source_id: &str, filename: &str, content_hash: &str) -> (r: bool)
        ensures
            r == (self@.contains_key(source_id@) && self@[source_id@].files.contains_key(
                filename@,
            ) && self@[source_id@].files[filename@] == content_hash@),
    {
        match self.per_source.get(source_id) {
            None => false,
            Some(entry) => match entry.processed_filenames.get(filename) {
                None => false,
                Some(h) => str_eq(h.as_str(), content_hash),
            },
        }
    }

    /// Records a file as read for a source, with what it gave. Only to be
    /// called after the file was parsed successfully, so that a file that
    /// failed is tried again next time.
    pub fn mark_processed(
        &mut self,
        source_id: &str,
        filename: &str,
        content_hash: &str,
        balance: i64,
        as_of_date: &str,
        account_identifier: &str,
    )
        ensures
            final(self)@ == old(self)@.insert(
                source_id@,
                marked_entry(
                    if old(self)@.contains_key(source_id@) {
                        Some(old(self)@[source_id@])
                    } else {
                        None
                    },
                    filename@,
                    content_hash@,
                    balance,
                    as_of_date@,
                    account_identifier@,
                ),
            ),
    {
        let ghost old_view = self@;
        let ghost prev = if old_view.contains_key(source_id@) {
            Some(old_view[source_id@])
        } else {
            None
        };
        let mut entry = match self.per_source.remove(source_id) {
            Some(e) => e,
            None => {
                let e = SourceLedgerEntry {
                    processed_filenames: StrMap::new(),
                    last_balance: 0,
                    last_as_of_date: String::new(),
                    last_account_identifier: String::new(),
                };
                assert(e.processed_filenames@.map_values(|h: String| h@) =~= Map::<
                    Seq<char>,
                    Seq<char>,
                >::empty());
                e
            },
        };
        let ghost before_files = entry.processed_filenames@;
        entry.processed_filenames.insert(filename.to_string(), content_hash.to_string());
        entry.last_balance = balance;
        entry.last_as_of_date = as_of_date.to_string();
        entry.last_account_identifier = account_identifier.to_string();
        assert(entry.processed_filenames@.map_values(|h: String| h@) =~= before_files.map_values(
            |h: String| h@,
        ).insert(filename@, content_hash@));
        let ghost ev = entry.view();
        assert(ev == marked_entry(
            prev,
            filename@,
            content_hash@,
            balance,
            as_of_date@,
            account_identifier@,
        ));
        let ghost mid = self.per_source@;
        self.per_source.insert(source_id.to_string(), entry);
        assert(self@ =~= old_view.insert(source_id@, ev));
    }

    /// The balance, date and identifier of the last statement this source
    /// read, if it ever read one.
    pub fn last_known(&self, source_id: &str) -> (r: Option<(i64, &str, &str)>)
        ensures
            r matches Some((b, d, i)) ==> self@.contains_key(source_id@) && b
                == self@[source_id@].balance && d@ == self@[source_id@].as_of && i@
                == self@[source_id@].id,
            r is None ==> !self@.contains_key(source_id@),
    {
        match self.per_source.get(source_id) {
            None => None,
            Some(e) => Some((e.last_balance, e.last_as_of_date.as_str(), e.last_account_identifier.as_str())),
        }
    }
}

/// After a source reads a file, the ledger reports that exact file as
/// read (and the same name with other content as not read), gives back
/// the balance, date and identifier just recorded, and holds every
/// other source's history as before.
pub proof fn lemma_mark_then_read(
    l: Map<Seq<char>, EntryView>,
    src: Seq<char>,
    file: Seq<char>,
    hash: Seq<char>,
    other_hash: Seq<char>,
    balance: i64,
    as_of: Seq<char>,
    id: Seq<char>,
    other_src: Seq<char>,
)
    ensures
        ({
            let prev = if l.contains_key(src) {
                Some(l[src])
            } else {
                None
            };
            let l2 = l.insert(src, marked_entry(prev, file, hash, balance, as_of, id));
            &&& l2.contains_key(src) && l2[src].files.contains_key(file) && l2[src].files[file]
                == hash
            &&& other_hash != hash ==> l2[src].files[file] != other_hash
            &&& l2[src].balance == balance && l2[src].as_of == as_of && l2[src].id == id
            &&& other_src != src ==> l2.contains_key(other_src) == l.contains_key(other_src) && (
            l.contains_key(other_src) ==> l2[other_src] == l[other_src])
        }),
{
}

} // verus!
