//! What a download directory holds, and what a ledger has that the directory
//! or an earlier ledger lacks.

use vstd::prelude::*;
use vstd::hash_set::StringHashSet;
use crate::csv_utils::{CsvRow, texts};
use crate::text::{
    chars_lt, chars_of, lemma_str_lt_irreflexive, lemma_str_lt_total, lemma_str_lt_transitive,
    str_eq, str_lt, trim, trimmed,
};

verus! {

/// The error of the `regex` crate.
#[verifier::external_type_specification]
#[verifier::external_body]
pub struct ExRegexError(regex::Error);

/// The pattern of an identifier: `BV` and ten ASCII letters or digits.
pub open spec fn bv_pattern() -> Seq<char> {
    "(BV[0-9A-Za-z]{10})"@
}

/// The successive matches, none overlapping another, that the `regex` crate
/// finds for a pattern in a text. `None` where it refuses the pattern.
pub uninterp spec fn regex_matches(pattern: Seq<char>, haystack: Seq<char>) -> Option<
    Seq<Seq<char>>,
>;

/// `Regex::new` and `Regex::find_iter` of the `regex` crate: the text of
/// every match of `pattern` in `haystack`, in the order of the matches.
#[verifier::external_body]
fn find_all(pattern: &str, haystack: &str) -> (r: Result<Vec<String>, regex::Error>)
    ensures
        match r {
            Ok(found) => regex_matches(pattern@, haystack@) == Some(texts(found@)),
            Err(_) => regex_matches(pattern@, haystack@) is None,
        },
{
    let regex = regex::Regex::new(pattern)?;
    Ok(regex.find_iter(haystack).map(|m| m.as_str().to_string()).collect())
}

/// `s` without the items that occurred before in it.
pub open spec fn first_occurrences(s: Seq<Seq<char>>) -> Seq<Seq<char>>
    decreases s.len(),
{
    if s.len() == 0 {
        Seq::empty()
    } else {
        let before = first_occurrences(s.drop_last());
        if before.contains(s.last()) {
            before
        } else {
            before.push(s.last())
        }
    }
}

/// `first_occurrences` holds what its argument holds, each item once.
pub proof fn lemma_first_occurrences(s: Seq<Seq<char>>)
    ensures
        first_occurrences(s).no_duplicates(),
        forall|x: Seq<char>| first_occurrences(s).contains(x) <==> s.contains(x),
    decreases s.len(),
{
    if s.len() > 0 {
        let rest = s.drop_last();
        let before = first_occurrences(rest);
        lemma_first_occurrences(rest);
        let all = first_occurrences(s);
        assert forall|x: Seq<char>| all.contains(x) <==> s.contains(x) by {
            if s.contains(x) {
                let k = choose|k: int| 0 <= k < s.len() && s[k] == x;
                if k < rest.len() {
                    assert(rest[k] == x);
                    assert(rest.contains(x));
                    assert(before.contains(x));
                    let p = choose|p: int| 0 <= p < before.len() && before[p] == x;
                    assert(all[p] == x);
                } else if before.contains(x) {
                    let p = choose|p: int| 0 <= p < before.len() && before[p] == x;
                    assert(all[p] == x);
                } else {
                    assert(all[before.len() as int] == x);
                }
                assert(all.contains(x));
            }
            if all.contains(x) {
                let p = choose|p: int| 0 <= p < all.len() && all[p] == x;
                if p < before.len() {
                    assert(before[p] == x);
                    assert(before.contains(x));
                    assert(rest.contains(x));
                    let k = choose|k: int| 0 <= k < rest.len() && rest[k] == x;
                    assert(s[k] == x);
                } else {
                    assert(s[s.len() - 1] == x);
                }
                assert(s.contains(x));
            }
        }
    }
}

/// Whether `list` holds `item`.
fn holds(list: &Vec<String>, item: &str) -> (b: bool)
    ensures
        b == texts(list@).contains(item@),
{
    let mut i: usize = 0;
    while i < list.len()
        invariant
            i <= list.len(),
            forall|k: int| 0 <= k < i ==> texts(list@)[k] != item@,
        decreases list.len() - i,
    {
        if str_eq(list[i].as_str(), item) {
            assert(texts(list@)[i as int] == item@);
            return true;
        }
        i += 1;
    }
    false
}

/// The matches without repetition, each where it first occurred.
pub fn unique_matches(matches: Vec<String>) -> (r: Vec<String>)
    ensures
        texts(r@) == first_occurrences(texts(matches@)),
{
    let mut r: Vec<String> = Vec::new();
    let mut i: usize = 0;
    proof {
        assert(texts(matches@).take(0) =~= Seq::<Seq<char>>::empty());
        assert(texts(r@) =~= Seq::<Seq<char>>::empty());
    }
    while i < matches.len()
        invariant
            i <= matches.len(),
            texts(r@) == first_occurrences(texts(matches@).take(i as int)),
        decreases matches.len() - i,
    {
        let ghost before = texts(r@);
        proof {
            let next = texts(matches@).take(i + 1);
            assert(next.drop_last() =~= texts(matches@).take(i as int));
            assert(next.last() == matches@[i as int]@);
        }
        if !holds(&r, matches[i].as_str()) {
            r.push(matches[i].clone());
            proof {
                assert(texts(r@) =~= before.push(matches@[i as int]@));
            }
        }
        i += 1;
    }
    proof {
        assert(texts(matches@).take(matches.len() as int) =~= texts(matches@));
    }
    r
}

/// The identifiers that a text holds, each once, in the order in which they
/// first occur.
pub open spec fn bvids_in(text: Seq<char>) -> Seq<Seq<char>> {
    match regex_matches(bv_pattern(), text) {
        Some(found) => first_occurrences(found),
        None => Seq::empty(),
    }
}

/// The identifiers that `text` holds, each once.
pub fn extract_bvids(text: &str) -> (r: Vec<String>)
    ensures
        texts(r@) == bvids_in(text@),
{
    match find_all("(BV[0-9A-Za-z]{10})", text) {
        Ok(found) => unique_matches(found),
        Err(_) => {
            let none: Vec<String> = Vec::new();
            proof {
                assert(texts(none@) =~= Seq::<Seq<char>>::empty());
            }
            none
        },
    }
}

/// The identifier in column `column` of a row, if that is not blank.
pub open spec fn id_in_column(row: Map<Seq<char>, Seq<char>>, column: Seq<char>) -> Option<
    Seq<char>,
> {
    if row.contains_key(column) && trimmed(row[column]).len() > 0 {
        Some(trimmed(row[column]))
    } else {
        None
    }
}

/// The identifier of a row: what the first of the columns `bv_id`, `BV号`
/// and `视频BV号` that is there and not blank holds, trimmed.
pub open spec fn row_bvid(row: Map<Seq<char>, Seq<char>>) -> Option<Seq<char>> {
    if id_in_column(row, "bv_id"@) is Some {
        id_in_column(row, "bv_id"@)
    } else if id_in_column(row, "BV号"@) is Some {
        id_in_column(row, "BV号"@)
    } else {
        id_in_column(row, "视频BV号"@)
    }
}

/// The identifier in column `column` of a row, if that is not blank.
fn column_id(row: &CsvRow, column: &str) -> (r: Option<String>)
    ensures
        match r {
            Some(id) => id_in_column(row@, column@) == Some(id@),
            None => id_in_column(row@, column@) is None,
        },
{
    match row.get(column) {
        Some(value) => {
            let id = trim(value.as_str());
            if id.as_str().unicode_len() > 0 {
                Some(id)
            } else {
                None
            }
        },
        None => None,
    }
}

/// The identifier of a row, if it has one.
pub fn extract_bvid_from_row(row: &CsvRow) -> (r: Option<String>)
    ensures
        match r {
            Some(id) => row_bvid(row@) == Some(id@),
            None => row_bvid(row@) is None,
        },
{
    match column_id(row, "bv_id") {
        Some(id) => Some(id),
        None => match column_id(row, "BV号") {
            Some(id) => Some(id),
            None => column_id(row, "视频BV号"),
        },
    }
}

/// The rows as mappings.
pub open spec fn row_views(rows: Seq<CsvRow>) -> Seq<Map<Seq<char>, Seq<char>>> {
    rows.map_values(|row: CsvRow| row@)
}

/// The identifiers of the rows that have one.
pub open spec fn row_ids(rows: Seq<CsvRow>) -> Set<Seq<char>> {
    Set::new(|id: Seq<char>| exists|k: int| 0 <= k < rows.len() && row_bvid(#[trigger] rows[k]@) == Some(id))
}

/// Whether a row has an identifier that is not among `known`.
pub open spec fn is_outside(row: Map<Seq<char>, Seq<char>>, known: Set<Seq<char>>) -> bool {
    row_bvid(row) matches Some(id) && !known.contains(id)
}

/// The rows that have an identifier which is not among `known`, in their
/// order.
pub open spec fn rows_outside(rows: Seq<CsvRow>, known: Set<Seq<char>>) -> Seq<
    Map<Seq<char>, Seq<char>>,
>
    decreases rows.len(),
{
    if rows.len() == 0 {
        Seq::empty()
    } else {
        let before = rows_outside(rows.drop_last(), known);
        if is_outside(rows.last()@, known) {
            before.push(rows.last()@)
        } else {
            before
        }
    }
}

/// The rows of `rows` whose identifier `known` does not hold.
fn select_outside(rows: &Vec<CsvRow>, known: &StringHashSet) -> (r: Vec<CsvRow>)
    ensures
        row_views(r@) == rows_outside(rows@, known@),
{
    let mut r: Vec<CsvRow> = Vec::new();
    let mut i: usize = 0;
    proof {
        assert(rows@.take(0) =~= Seq::<CsvRow>::empty());
        assert(row_views(r@) =~= Seq::<Map<Seq<char>, Seq<char>>>::empty());
    }
    while i < rows.len()
        invariant
            i <= rows.len(),
            row_views(r@) == rows_outside(rows@.take(i as int), known@),
        decreases rows.len() - i,
    {
        let ghost before = row_views(r@);
        proof {
            let next = rows@.take(i + 1);
            assert(next.drop_last() =~= rows@.take(i as int));
            assert(next.last() == rows@[i as int]);
        }
        let outside = match extract_bvid_from_row(&rows[i]) {
            Some(id) => !known.contains(id.as_str()),
            None => false,
        };
        if outside {
            let row = rows[i].clone();
            r.push(row);
            proof {
                assert(row_views(r@) =~= before.push(rows@[i as int]@));
            }
        }
        i += 1;
    }
    proof {
        assert(rows@.take(rows.len() as int) =~= rows@);
    }
    r
}

/// The rows of `new_rows` whose identifier no row of `old_rows` has, in
/// their order. A row without an identifier is never among them.
pub fn diff_new_entries(old_rows: &Vec<CsvRow>, new_rows: &Vec<CsvRow>) -> (r: Vec<CsvRow>)
    ensures
        row_views(r@) == rows_outside(new_rows@, row_ids(old_rows@)),
{
    let mut known = StringHashSet::new();
    let mut i: usize = 0;
    proof {
        assert(row_ids(old_rows@.take(0)) =~= Set::<Seq<char>>::empty());
    }
    while i < old_rows.len()
        invariant
            i <= old_rows.len(),
            known@ == row_ids(old_rows@.take(i as int)),
        decreases old_rows.len() - i,
    {
        let ghost before = old_rows@.take(i as int);
        let ghost after = old_rows@.take(i + 1);
        proof {
            assert forall|k: int| 0 <= k < i implies before[k] == #[trigger] after[k] by {}
            assert(after[i as int] == old_rows@[i as int]);
        }
        match extract_bvid_from_row(&old_rows[i]) {
            Some(id) => {
                proof {
                    assert forall|x: Seq<char>| #[trigger]
                        row_ids(after).contains(x) implies row_ids(before).insert(id@).contains(
                        x,
                    ) by {
                        let k = choose|k: int|
                            0 <= k < after.len() && row_bvid(#[trigger] after[k]@) == Some(x);
                        if k < i {
                            assert(before[k] == after[k]);
                        }
                    }
                    assert forall|x: Seq<char>| #[trigger]
                        row_ids(before).insert(id@).contains(x) implies row_ids(after).contains(
                        x,
                    ) by {
                        if x == id@ {
                            assert(row_bvid(after[i as int]@) == Some(x));
                        } else {
                            let k = choose|k: int|
                                0 <= k < before.len() && row_bvid(#[trigger] before[k]@) == Some(
                                    x,
                                );
                            assert(after[k] == before[k]);
                        }
                    }
                    assert(row_ids(after) =~= row_ids(before).insert(id@));
                }
                known.insert(id);
            },
            None => {
                proof {
                    assert forall|x: Seq<char>| #[trigger]
                        row_ids(after).contains(x) implies row_ids(before).contains(x) by {
                        let k = choose|k: int|
                            0 <= k < after.len() && row_bvid(#[trigger] after[k]@) == Some(x);
                        assert(k < i);
                        assert(before[k] == after[k]);
                    }
                    assert forall|x: Seq<char>| #[trigger]
                        row_ids(before).contains(x) implies row_ids(after).contains(x) by {
                        let k = choose|k: int|
                            0 <= k < before.len() && row_bvid(#[trigger] before[k]@) == Some(x);
                        assert(after[k] == before[k]);
                    }
                    assert(row_ids(after) =~= row_ids(before));
                }
            },
        }
        i += 1;
    }
    proof {
        assert(old_rows@.take(old_rows.len() as int) =~= old_rows@);
    }
    select_outside(new_rows, &known)
}

/// The rows of the ledger whose identifier is not among `existing_bvids`,
/// in their order. A row without an identifier is never among them.
pub fn find_missing_videos(csv_rows: &Vec<CsvRow>, existing_bvids: &Vec<String>) -> (r: Vec<
    CsvRow,
>)
    ensures
        row_views(r@) == rows_outside(csv_rows@, texts(existing_bvids@).to_set()),
{
    let mut known = StringHashSet::new();
    let mut i: usize = 0;
    let ghost all = texts(existing_bvids@);
    proof {
        assert(all.take(0).to_set() =~= Set::<Seq<char>>::empty());
    }
    while i < existing_bvids.len()
        invariant
            i <= existing_bvids.len(),
            all == texts(existing_bvids@),
            known@ == all.take(i as int).to_set(),
        decreases existing_bvids.len() - i,
    {
        proof {
            let before = all.take(i as int);
            let after = all.take(i + 1);
            assert(after =~= before.push(all[i as int]));
            before.lemma_push_to_set_commute(all[i as int]);
        }
        known.insert(existing_bvids[i].clone());
        i += 1;
    }
    proof {
        assert(all.take(existing_bvids.len() as int) =~= all);
    }
    select_outside(csv_rows, &known)
}

/// A row with an identifier among `known` is not outside `known`, and so no
/// row of a ledger is new against the ledger itself.
pub proof fn lemma_diff_of_same_rows_is_empty(rows: Seq<CsvRow>)
    ensures
        rows_outside(rows, row_ids(rows)).len() == 0,
{
    lemma_rows_outside_of_known(rows, rows.len() as int, row_ids(rows));
    assert(rows.take(rows.len() as int) =~= rows);
}

/// Where `known` holds the identifier of each of the first `n` rows that
/// has one, none of these rows is outside `known`.
proof fn lemma_rows_outside_of_known(rows: Seq<CsvRow>, n: int, known: Set<Seq<char>>)
    requires
        0 <= n <= rows.len(),
        forall|k: int| 0 <= k < n && row_bvid(#[trigger] rows[k]@) is Some ==> known.contains(row_bvid(rows[k]@)->0),
    ensures
        rows_outside(rows.take(n), known).len() == 0,
    decreases n,
{
    if n > 0 {
        lemma_rows_outside_of_known(rows, n - 1, known);
        assert(rows.take(n).drop_last() =~= rows.take(n - 1));
        assert(rows.take(n).last() == rows[n - 1]);
    }
}

/// The rows of a difference are rows of the newer ledger, each with an
/// identifier that the older one lacks, and every such row is among them.
pub proof fn lemma_rows_outside_members(rows: Seq<CsvRow>, known: Set<Seq<char>>)
    ensures
        forall|row: Map<Seq<char>, Seq<char>>|
            #![trigger rows_outside(rows, known).contains(row)]
            #![trigger row_views(rows).contains(row)]
            rows_outside(rows, known).contains(row) <==> (row_views(rows).contains(row)
                && is_outside(row, known)),
    decreases rows.len(),
{
    if rows.len() > 0 {
        let rest = rows.drop_last();
        let before = rows_outside(rest, known);
        lemma_rows_outside_members(rest, known);
        let all = rows_outside(rows, known);
        let views = row_views(rows);
        let rest_views = row_views(rest);
        assert forall|row: Map<Seq<char>, Seq<char>>|
            #![trigger all.contains(row)]
            #![trigger views.contains(row)]
            all.contains(row) <==> (views.contains(row) && is_outside(row, known)) by {
            if all.contains(row) {
                let p = choose|p: int| 0 <= p < all.len() && all[p] == row;
                if p < before.len() {
                    assert(before[p] == row);
                    assert(before.contains(row));
                    assert(rest_views.contains(row));
                    let k = choose|k: int| 0 <= k < rest_views.len() && rest_views[k] == row;
                    assert(views[k] == row);
                } else {
                    assert(views[rows.len() - 1] == row);
                }
                assert(views.contains(row));
            }
            if views.contains(row) && is_outside(row, known) {
                let k = choose|k: int| 0 <= k < views.len() && views[k] == row;
                if k < rest.len() {
                    assert(rest_views[k] == row);
                    assert(rest_views.contains(row));
                    assert(before.contains(row));
                    let p = choose|p: int| 0 <= p < before.len() && before[p] == row;
                    assert(all[p] == row);
                } else {
                    assert(all[all.len() - 1] == row);
                }
                assert(all.contains(row));
            }
        }
    }
}


/// A regular file of a download directory: where it is, and its name.
/// Where the name is not Unicode, `name` holds it with the replacement
/// character in place of what is not.
#[derive(Debug)]
pub struct FileEntry {
    pub path: String,
    pub name: String,
}

impl Clone for FileEntry {
    fn clone(&self) -> (file: FileEntry)
        ensures
            file == *self,
    {
        FileEntry { path: self.path.clone(), name: self.name.clone() }
    }
}

/// The files that carry one identifier in their names.
#[derive(Debug)]
pub struct InventoryEntry {
    pub bvid: String,
    pub files: Vec<FileEntry>,
}

/// The inventory of a download directory: for each identifier that a file
/// name holds, the files whose names hold it.
#[derive(Debug)]
pub struct InventoryMap {
    entries: Vec<InventoryEntry>,
}

/// The mapping that a list of entries describes.
pub open spec fn entries_map(entries: Seq<InventoryEntry>) -> Map<Seq<char>, Seq<FileEntry>>
    decreases entries.len(),
{
    if entries.len() == 0 {
        Map::empty()
    } else {
        entries_map(entries.drop_last()).insert(entries.last().bvid@, entries.last().files@)
    }
}

/// Whether no two entries have the same identifier.
pub open spec fn distinct_entries(entries: Seq<InventoryEntry>) -> bool {
    forall|i: int, j: int|
        0 <= i < j < entries.len() ==> (#[trigger] entries[i]).bvid@ != (#[trigger] entries[j]).bvid@
}

/// With distinct identifiers the mapping holds each entry's files under the
/// entry's identifier, and nothing else.
proof fn lemma_entries_map(entries: Seq<InventoryEntry>)
    requires
        distinct_entries(entries),
    ensures
        forall|k: int|
            0 <= k < entries.len() ==> entries_map(entries).contains_key(
                (#[trigger] entries[k]).bvid@,
            ) && entries_map(entries)[entries[k].bvid@] == entries[k].files@,
        forall|id: Seq<char>| #[trigger]
            entries_map(entries).contains_key(id) ==> exists|k: int|
                0 <= k < entries.len() && (#[trigger] entries[k]).bvid@ == id,
    decreases entries.len(),
{
    if entries.len() > 0 {
        let rest = entries.drop_last();
        assert forall|i: int, j: int| 0 <= i < j < rest.len() implies (#[trigger] rest[i]).bvid@
            != (#[trigger] rest[j]).bvid@ by {
            assert(rest[i] == entries[i]);
            assert(rest[j] == entries[j]);
        }
        lemma_entries_map(rest);
        assert forall|k: int| 0 <= k < entries.len() implies entries_map(entries).contains_key(
            (#[trigger] entries[k]).bvid@,
        ) && entries_map(entries)[entries[k].bvid@] == entries[k].files@ by {
            if k < rest.len() {
                assert(rest[k] == entries[k]);
                assert(entries[k].bvid@ != entries[entries.len() - 1].bvid@);
            }
        }
        assert forall|id: Seq<char>| #[trigger]
            entries_map(entries).contains_key(id) implies exists|k: int|
            0 <= k < entries.len() && (#[trigger] entries[k]).bvid@ == id by {
            if id == entries.last().bvid@ {
                assert(entries[entries.len() - 1].bvid@ == id);
            } else {
                assert(entries_map(rest).contains_key(id));
                let k = choose|k: int| 0 <= k < rest.len() && (#[trigger] rest[k]).bvid@ == id;
                assert(entries[k].bvid@ == id);
            }
        }
    }
}

impl View for InventoryMap {
    type V = Map<Seq<char>, Seq<FileEntry>>;

    closed spec fn view(&self) -> Map<Seq<char>, Seq<FileEntry>> {
        entries_map(self.entries@)
    }
}

impl InventoryMap {
    /// No two entries have the same identifier.
    #[verifier::type_invariant]
    spec fn well_formed(self) -> bool {
        distinct_entries(self.entries@)
    }

    /// An inventory without files.
    pub fn new() -> (map: InventoryMap)
        ensures
            map@ == Map::<Seq<char>, Seq<FileEntry>>::empty(),
    {
        InventoryMap { entries: Vec::new() }
    }

    /// Whether no file carries an identifier.
    pub fn is_empty(&self) -> (b: bool)
        ensures
            b == (self@ =~= Map::<Seq<char>, Seq<FileEntry>>::empty()),
    {
        proof {
            use_type_invariant(self);
            lemma_entries_map(self.entries@);
            if self.entries@.len() > 0 {
                assert(self@.contains_key(self.entries@[0].bvid@));
            }
        }
        self.entries.len() == 0
    }

    /// The place of the entry for `id`, if there is one.
    fn position(&self, id: &str) -> (r: Option<usize>)
        ensures
            match r {
                Some(k) => k < self.entries@.len() && self.entries@[k as int].bvid@ == id@,
                None => forall|k: int|
                    0 <= k < self.entries@.len() ==> (#[trigger] self.entries@[k]).bvid@ != id@,
            },
    {
        let mut k: usize = 0;
        while k < self.entries.len()
            invariant
                k <= self.entries.len(),
                forall|j: int| 0 <= j < k ==> (#[trigger] self.entries@[j]).bvid@ != id@,
            decreases self.entries.len() - k,
        {
            if str_eq(self.entries[k].bvid.as_str(), id) {
                return Some(k);
            }
            k += 1;
        }
        None
    }

    /// The files that carry `id`, if any does.
    pub fn get(&self, id: &str) -> (r: Option<&Vec<FileEntry>>)
        ensures
            match r {
                Some(files) => self@.contains_key(id@) && self@[id@] == files@,
                None => !self@.contains_key(id@),
            },
    {
        proof {
            use_type_invariant(self);
            lemma_entries_map(self.entries@);
        }
        match self.position(id) {
            Some(k) => Some(&self.entries[k].files),
            None => None,
        }
    }

    /// The identifiers that files carry, each once.
    pub fn keys(&self) -> (keys: Vec<String>)
        ensures
            texts(keys@).no_duplicates(),
            texts(keys@).to_set() == self@.dom(),
    {
        proof {
            use_type_invariant(self);
            lemma_entries_map(self.entries@);
        }
        let mut keys: Vec<String> = Vec::new();
        let mut k: usize = 0;
        while k < self.entries.len()
            invariant
                k <= self.entries.len(),
                keys@.len() == k,
                forall|j: int| 0 <= j < k ==> (#[trigger] keys@[j])@ == self.entries@[j].bvid@,
            decreases self.entries.len() - k,
        {
            keys.push(self.entries[k].bvid.clone());
            k += 1;
        }
        proof {
            let names = texts(keys@);
            assert forall|i: int, j: int| 0 <= i < names.len() && 0 <= j < names.len() && i
                != j implies names[i] != names[j] by {
                assert(names[i] == self.entries@[i].bvid@);
                assert(names[j] == self.entries@[j].bvid@);
            }
            assert forall|id: Seq<char>| names.to_set().contains(id) <==> self@.dom().contains(
                id,
            ) by {
                if names.to_set().contains(id) {
                    let j = choose|j: int| 0 <= j < names.len() && names[j] == id;
                    assert(self.entries@[j].bvid@ == id);
                }
                if self@.dom().contains(id) {
                    assert(self@.contains_key(id));
                    let j = choose|j: int|
                        0 <= j < self.entries@.len() && (#[trigger] self.entries@[j]).bvid@ == id;
                    assert(names[j] == id);
                }
            }
            assert(names.to_set() =~= self@.dom());
        }
        keys
    }

    /// Puts `file` after the files that carry `id`.
    pub fn add_file(&mut self, id: String, file: FileEntry)
        ensures
            final(self)@ == old(self)@.insert(
                id@,
                (if old(self)@.contains_key(id@) {
                    old(self)@[id@]
                } else {
                    Seq::empty()
                }).push(file),
            ),
    {
        proof {
            use_type_invariant(&*self);
            lemma_entries_map(self.entries@);
        }
        let ghost before = self.entries@;
        let found = self.position(id.as_str());
        let mut taken = InventoryMap::new();
        std::mem::swap(self, &mut taken);
        let mut entries = taken.entries;
        match found {
            Some(k) => {
                let mut entry = entries.remove(k);
                entry.files.push(file);
                entries.insert(k, entry);
                proof {
                    let after = entries@;
                    assert(after.len() == before.len());
                    assert forall|j: int| 0 <= j < after.len() implies (#[trigger] after[j]).bvid@
                        == before[j].bvid@ && (j != k ==> after[j] == before[j]) by {}
                    assert(distinct_entries(after)) by {
                        assert forall|i: int, j: int| 0 <= i < j < after.len() implies (
                        #[trigger] after[i]).bvid@ != (#[trigger] after[j]).bvid@ by {
                            assert(before[i].bvid@ != before[j].bvid@);
                        }
                    }
                    lemma_entries_map(after);
                    let expected = entries_map(before).insert(
                        id@,
                        entries_map(before)[id@].push(file),
                    );
                    assert forall|x: Seq<char>| entries_map(after).contains_key(x)
                        <==> expected.contains_key(x) by {
                        if entries_map(after).contains_key(x) {
                            let j = choose|j: int|
                                0 <= j < after.len() && (#[trigger] after[j]).bvid@ == x;
                            assert(before[j].bvid@ == x);
                        }
                        if expected.contains_key(x) && x != id@ {
                            let j = choose|j: int|
                                0 <= j < before.len() && (#[trigger] before[j]).bvid@ == x;
                            assert(after[j].bvid@ == x);
                        }
                        if x == id@ {
                            assert(after[k as int].bvid@ == x);
                        }
                    }
                    assert forall|x: Seq<char>| entries_map(after).contains_key(x) implies (
                    #[trigger] entries_map(after)[x]) == expected[x] by {
                        let j = choose|j: int|
                            0 <= j < after.len() && (#[trigger] after[j]).bvid@ == x;
                        if j != k {
                            assert(after[j] == before[j]);
                            assert(before[j].bvid@ != before[k as int].bvid@);
                        } else {
                            assert(after[k as int].files@ == before[k as int].files@.push(file));
                        }
                    }
                    assert(entries_map(after) =~= expected);
                }
                *self = InventoryMap { entries };
            },
            None => {
                let mut files: Vec<FileEntry> = Vec::new();
                files.push(file);
                entries.push(InventoryEntry { bvid: id, files });
                proof {
                    let after = entries@;
                    assert(after.drop_last() =~= before);
                    assert(distinct_entries(after)) by {
                        assert forall|i: int, j: int| 0 <= i < j < after.len() implies (
                        #[trigger] after[i]).bvid@ != (#[trigger] after[j]).bvid@ by {
                            assert(after[i] == before[i]);
                            if j < before.len() {
                                assert(after[j] == before[j]);
                            }
                        }
                    }
                    lemma_entries_map(before);
                    assert(!entries_map(before).contains_key(id@)) by {
                        if entries_map(before).contains_key(id@) {
                            let j = choose|j: int|
                                0 <= j < before.len() && (#[trigger] before[j]).bvid@ == id@;
                            assert(false);
                        }
                    }
                    assert(Seq::<FileEntry>::empty().push(file) =~= after.last().files@);
                }
                *self = InventoryMap { entries };
            },
        }
    }
}


/// Whether the name of `file` holds the identifier `id`.
pub open spec fn carries(file: FileEntry, id: Seq<char>) -> bool {
    bvids_in(file.name@).contains(id)
}

/// The files whose names hold `id`, in their order.
pub open spec fn files_with(files: Seq<FileEntry>, id: Seq<char>) -> Seq<FileEntry>
    decreases files.len(),
{
    if files.len() == 0 {
        Seq::empty()
    } else {
        let before = files_with(files.drop_last(), id);
        if carries(files.last(), id) {
            before.push(files.last())
        } else {
            before
        }
    }
}

/// The inventory of a list of files: under each identifier that a name
/// holds, the files whose names hold it, in their order.
pub open spec fn inventory_of(files: Seq<FileEntry>) -> Map<Seq<char>, Seq<FileEntry>> {
    Map::new(
        |id: Seq<char>| exists|k: int| 0 <= k < files.len() && carries(#[trigger] files[k], id),
        |id: Seq<char>| files_with(files, id),
    )
}

/// The inventory of `files`, and `file` under each of `ids` as well.
spec fn inventory_with(files: Seq<FileEntry>, file: FileEntry, ids: Seq<Seq<char>>) -> Map<
    Seq<char>,
    Seq<FileEntry>,
> {
    Map::new(
        |id: Seq<char>| inventory_of(files).contains_key(id) || ids.contains(id),
        |id: Seq<char>|
            if ids.contains(id) {
                files_with(files, id).push(file)
            } else {
                files_with(files, id)
            },
    )
}

/// No file is listed under an identifier that no name holds.
proof fn lemma_files_with_none(files: Seq<FileEntry>, id: Seq<char>)
    requires
        forall|k: int| 0 <= k < files.len() ==> !carries(#[trigger] files[k], id),
    ensures
        files_with(files, id).len() == 0,
    decreases files.len(),
{
    if files.len() > 0 {
        let rest = files.drop_last();
        assert forall|k: int| 0 <= k < rest.len() implies !carries(#[trigger] rest[k], id) by {
            assert(rest[k] == files[k]);
        }
        lemma_files_with_none(rest, id);
        assert(!carries(files[files.len() - 1], id));
    }
}

/// The inventory of a download directory, from its regular files in the
/// order in which the directory was walked.
pub fn scan_directory_bvids(files: &Vec<FileEntry>) -> (map: InventoryMap)
    ensures
        map@ == inventory_of(files@),
{
    let mut map = InventoryMap::new();
    let mut i: usize = 0;
    proof {
        assert(map@ =~= inventory_of(files@.take(0)));
    }
    while i < files.len()
        invariant
            i <= files.len(),
            map@ == inventory_of(files@.take(i as int)),
        decreases files.len() - i,
    {
        let file = &files[i];
        let ids = extract_bvids(file.name.as_str());
        let ghost seen = files@.take(i as int);
        let ghost names = texts(ids@);
        proof {
            lemma_first_occurrences(regex_matches(bv_pattern(), file.name@).unwrap());
            assert(names.no_duplicates());
            assert(map@ =~= inventory_with(seen, *file, names.take(0)));
        }
        let mut j: usize = 0;
        while j < ids.len()
            invariant
                j <= ids.len(),
                i < files.len(),
                *file == files@[i as int],
                seen == files@.take(i as int),
                names == texts(ids@),
                names.no_duplicates(),
                map@ == inventory_with(seen, *file, names.take(j as int)),
            decreases ids.len() - j,
        {
            let ghost id = names[j as int];
            let ghost before = map@;
            proof {
                assert(!names.take(j as int).contains(id)) by {
                    if names.take(j as int).contains(id) {
                        let p = choose|p: int|
                            0 <= p < names.take(j as int).len() && names.take(j as int)[p] == id;
                        assert(names[p] == names[j as int]);
                    }
                }
                if !inventory_of(seen).contains_key(id) {
                    lemma_files_with_none(seen, id);
                    assert(files_with(seen, id) =~= Seq::<FileEntry>::empty());
                }
            }
            map.add_file(ids[j].clone(), file.clone());
            proof {
                let next = names.take(j + 1);
                assert(next =~= names.take(j as int).push(id));
                assert forall|x: Seq<char>| next.contains(x) <==> (names.take(j as int).contains(
                    x,
                ) || x == id) by {
                    if next.contains(x) {
                        let p = choose|p: int| 0 <= p < next.len() && next[p] == x;
                        if p < j {
                            assert(names.take(j as int)[p] == x);
                        }
                    }
                    if names.take(j as int).contains(x) {
                        let p = choose|p: int|
                            0 <= p < names.take(j as int).len() && names.take(j as int)[p] == x;
                        assert(next[p] == x);
                    }
                    if x == id {
                        assert(next[j as int] == x);
                    }
                }
                assert(map@ =~= inventory_with(seen, *file, next));
            }
            j += 1;
        }
        proof {
            let more = files@.take(i + 1);
            assert(names.take(ids.len() as int) =~= names);
            assert(more.drop_last() =~= seen);
            assert(more.last() == *file);
            assert forall|x: Seq<char>| #[trigger]
                inventory_of(more).contains_key(x) <==> inventory_with(
                seen,
                *file,
                names,
            ).contains_key(x) by {
                if inventory_of(more).contains_key(x) {
                    let k = choose|k: int| 0 <= k < more.len() && carries(#[trigger] more[k], x);
                    if k < i {
                        assert(seen[k] == more[k]);
                    }
                }
                if inventory_of(seen).contains_key(x) {
                    let k = choose|k: int| 0 <= k < seen.len() && carries(#[trigger] seen[k], x);
                    assert(more[k] == seen[k]);
                }
                if names.contains(x) {
                    assert(carries(more[i as int], x));
                }
            }
            assert(inventory_of(more) =~= inventory_with(seen, *file, names));
        }
        i += 1;
    }
    proof {
        assert(files@.take(files.len() as int) =~= files@);
    }
    map
}


/// The lines of one identifier: for each of its files the identifier, a
/// tab, the file's name and a line feed.
pub open spec fn file_lines(id: Seq<char>, files: Seq<FileEntry>) -> Seq<char>
    decreases files.len(),
{
    if files.len() == 0 {
        Seq::empty()
    } else {
        file_lines(id, files.drop_last()) + id + "\t"@ + files.last().name@ + "\n"@
    }
}

/// The lines of the identifiers `keys`, in their order.
pub open spec fn listing_lines(keys: Seq<Seq<char>>, map: Map<Seq<char>, Seq<FileEntry>>) -> Seq<
    char,
>
    decreases keys.len(),
{
    if keys.len() == 0 {
        Seq::empty()
    } else {
        listing_lines(keys.drop_last(), map) + file_lines(keys.last(), map[keys.last()])
    }
}

/// Whether each of `keys` comes before those after it, in the order of
/// strings.
pub open spec fn ascending(keys: Seq<Seq<char>>) -> bool {
    forall|i: int, j: int| 0 <= i < j < keys.len() ==> str_lt(#[trigger] keys[i], #[trigger] keys[j])
}

/// Whether `text` is the listing of an inventory: one line for each pair of
/// an identifier and a file that carries it, the identifiers ascending, the
/// files of one identifier in their order, and nothing else. The listing of
/// an inventory without files is empty.
pub open spec fn is_listing(text: Seq<char>, map: Map<Seq<char>, Seq<FileEntry>>) -> bool {
    exists|keys: Seq<Seq<char>>|
        #![trigger listing_lines(keys, map)]
        ascending(keys) && keys.to_set() =~= map.dom() && text == listing_lines(keys, map)
}

/// The name of the file that holds the listing, inside the directory that
/// was scanned.
pub fn inventory_file_name() -> (name: String)
    ensures
        name@ == "existing_videos.txt"@,
{
    "existing_videos.txt".to_owned()
}

impl InventoryMap {
    /// The places of the entries, the entries' identifiers ascending.
    fn sorted_order(&self) -> (order: Vec<usize>)
        ensures
            order@.len() == self.entries@.len(),
            forall|p: int| 0 <= p < order@.len() ==> (#[trigger] order@[p]) < self.entries@.len(),
            forall|k: usize| k < self.entries@.len() ==> #[trigger] order@.contains(k),
            forall|p: int, q: int|
                0 <= p < q < order@.len() ==> str_lt(
                    self.entries@[(#[trigger] order@[p]) as int].bvid@,
                    self.entries@[(#[trigger] order@[q]) as int].bvid@,
                ),
    {
        proof {
            use_type_invariant(self);
        }
        let n = self.entries.len();
        let mut keys: Vec<Vec<char>> = Vec::new();
        let mut k: usize = 0;
        while k < n
            invariant
                k <= n == self.entries@.len(),
                keys@.len() == k,
                forall|j: int| 0 <= j < k ==> (#[trigger] keys@[j])@ == self.entries@[j].bvid@,
            decreases n - k,
        {
            keys.push(chars_of(self.entries[k].bvid.as_str()));
            k += 1;
        }
        let mut order: Vec<usize> = Vec::new();
        let mut i: usize = 0;
        while i < n
            invariant
                i <= n == self.entries@.len(),
                keys@.len() == n,
                distinct_entries(self.entries@),
                forall|j: int| 0 <= j < n ==> (#[trigger] keys@[j])@ == self.entries@[j].bvid@,
                order@.len() == i,
                forall|p: int| 0 <= p < order@.len() ==> (#[trigger] order@[p]) < i,
                forall|x: usize| x < i ==> #[trigger] order@.contains(x),
                forall|p: int, q: int|
                    0 <= p < q < order@.len() ==> str_lt(
                        self.entries@[(#[trigger] order@[p]) as int].bvid@,
                        self.entries@[(#[trigger] order@[q]) as int].bvid@,
                    ),
            decreases n - i,
        {
            let mut at: usize = 0;
            while at < order.len() && !chars_lt(&keys[i], &keys[order[at]])
                invariant
                    at <= order@.len(),
                    i < n == keys@.len(),
                    n == self.entries@.len(),
                    forall|j: int| 0 <= j < n ==> (#[trigger] keys@[j])@ == self.entries@[j].bvid@,
                    forall|p: int| 0 <= p < order@.len() ==> (#[trigger] order@[p]) < i,
                    forall|q: int|
                        0 <= q < at ==> !str_lt(
                            self.entries@[i as int].bvid@,
                            self.entries@[(#[trigger] order@[q]) as int].bvid@,
                        ),
                decreases order@.len() - at,
            {
                at += 1;
            }
            let ghost old_order = order@;
            order.insert(at, i);
            proof {
                let new_order = order@;
                let key = |x: usize| self.entries@[x as int].bvid@;
                assert forall|p: int| 0 <= p < new_order.len() implies (#[trigger] new_order[p])
                    < i + 1 by {
                    if p < at {
                        assert(new_order[p] == old_order[p]);
                    } else if p > at {
                        assert(new_order[p] == old_order[p - 1]);
                    }
                }
                assert forall|x: usize| x < i + 1 implies #[trigger] new_order.contains(x) by {
                    if x == i {
                        assert(new_order[at as int] == x);
                    } else {
                        assert(old_order.contains(x));
                        let q = choose|q: int| 0 <= q < old_order.len() && old_order[q] == x;
                        if q < at {
                            assert(new_order[q] == x);
                        } else {
                            assert(new_order[q + 1] == x);
                        }
                    }
                }
                assert forall|p: int, q: int| 0 <= p < q < new_order.len() implies str_lt(
                    self.entries@[(#[trigger] new_order[p]) as int].bvid@,
                    self.entries@[(#[trigger] new_order[q]) as int].bvid@,
                ) by {
                    let a = key(new_order[p]);
                    let b = key(new_order[q]);
                    if q < at {
                        assert(new_order[p] == old_order[p] && new_order[q] == old_order[q]);
                    } else if q == at {
                        assert(new_order[p] == old_order[p]);
                        assert(old_order[p] < i);
                        assert(self.entries@[old_order[p] as int].bvid@ != self.entries@[i as int].bvid@);
                        lemma_str_lt_total(a, b);
                    } else if p < at {
                        assert(new_order[p] == old_order[p] && new_order[q] == old_order[q - 1]);
                    } else if p == at {
                        assert(new_order[q] == old_order[q - 1]);
                        let first = key(old_order[at as int]);
                        assert(str_lt(a, first));
                        if q - 1 > at {
                            lemma_str_lt_transitive(a, first, b);
                        }
                    } else {
                        assert(new_order[p] == old_order[p - 1] && new_order[q] == old_order[q
                            - 1]);
                    }
                }
            }
            i += 1;
        }
        order
    }

    /// The listing of the inventory, for a reader.
    pub fn listing(&self) -> (text: String)
        ensures
            is_listing(text@, self@),
    {
        proof {
            use_type_invariant(self);
            lemma_entries_map(self.entries@);
        }
        let mut text = String::new();
        let order = self.sorted_order();
        let ghost keys = Seq::new(order@.len(), |p: int| self.entries@[order@[p] as int].bvid@);
        let mut p: usize = 0;
        proof {
            assert(keys.take(0) =~= Seq::<Seq<char>>::empty());
            assert(text@ =~= listing_lines(keys.take(0), self@));
        }
        while p < order.len()
            invariant
                p <= order@.len() == keys.len(),
                forall|q: int|
                    0 <= q < order@.len() ==> (#[trigger] order@[q]) < self.entries@.len(),
                forall|q: int|
                    0 <= q < keys.len() ==> #[trigger] keys[q] == self.entries@[order@[q] as int].bvid@,
                forall|k: int|
                    0 <= k < self.entries@.len() ==> self@.contains_key(
                        (#[trigger] self.entries@[k]).bvid@,
                    ) && self@[self.entries@[k].bvid@] == self.entries@[k].files@,
                text@ == listing_lines(keys.take(p as int), self@),
            decreases order@.len() - p,
        {
            let entry = &self.entries[order[p]];
            let ghost done = text@;
            let mut f: usize = 0;
            proof {
                assert(entry.files@.take(0) =~= Seq::<FileEntry>::empty());
                assert(done + file_lines(entry.bvid@, entry.files@.take(0)) =~= done);
            }
            while f < entry.files.len()
                invariant
                    f <= entry.files@.len(),
                    text@ == done + file_lines(entry.bvid@, entry.files@.take(f as int)),
                decreases entry.files@.len() - f,
            {
                let file = &entry.files[f];
                proof {
                    let more = entry.files@.take(f + 1);
                    assert(more.drop_last() =~= entry.files@.take(f as int));
                    assert(more.last() == *file);
                }
                text.append(entry.bvid.as_str());
                text.append("\t");
                text.append(file.name.as_str());
                text.append("\n");
                proof {
                    let lines = file_lines(entry.bvid@, entry.files@.take(f as int));
                    assert(text@ =~= done + (lines + entry.bvid@ + "\t"@ + file.name@ + "\n"@));
                }
                f += 1;
            }
            proof {
                assert(entry.files@.take(entry.files@.len() as int) =~= entry.files@);
                let next = keys.take(p + 1);
                assert(next.drop_last() =~= keys.take(p as int));
                assert(next.last() == entry.bvid@);
                assert(self@[entry.bvid@] == entry.files@);
                assert(text@ =~= listing_lines(keys.take(p as int), self@) + file_lines(
                    entry.bvid@,
                    entry.files@,
                ));
            }
            p += 1;
        }
        proof {
            assert(keys.take(order@.len() as int) =~= keys);
            assert(ascending(keys));
            assert forall|id: Seq<char>| keys.to_set().contains(id) <==> self@.dom().contains(
                id,
            ) by {
                if keys.to_set().contains(id) {
                    let q = choose|q: int| 0 <= q < keys.len() && keys[q] == id;
                    assert(self.entries@[order@[q] as int].bvid@ == id);
                }
                if self@.dom().contains(id) {
                    assert(self@.contains_key(id));
                    let k = choose|k: int|
                        0 <= k < self.entries@.len() && (#[trigger] self.entries@[k]).bvid@ == id;
                    assert(order@.contains(k as usize));
                    let q = choose|q: int| 0 <= q < order@.len() && order@[q] == k as usize;
                    assert(keys[q] == id);
                }
            }
            assert(keys.to_set() =~= self@.dom());
        }
        text
    }
}

/// The listing of an inventory, which the caller writes to the file named
/// by `inventory_file_name` inside the directory that was scanned.
pub fn write_inventory_file(mapping: &InventoryMap) -> (text: String)
    ensures
        is_listing(text@, mapping@),
{
    mapping.listing()
}


/// The last of an ascending list comes after all that the list holds.
proof fn lemma_last_is_greatest(keys: Seq<Seq<char>>, x: Seq<char>)
    requires
        ascending(keys),
        keys.len() > 0,
        keys.contains(x),
    ensures
        x == keys.last() || str_lt(x, keys.last()),
{
    let i = choose|i: int| 0 <= i < keys.len() && keys[i] == x;
    if i < keys.len() - 1 {
        assert(str_lt(keys[i], keys[keys.len() - 1]));
    }
}

/// Two ascending lists of the same strings are the same list.
pub proof fn lemma_ascending_unique(a: Seq<Seq<char>>, b: Seq<Seq<char>>)
    requires
        ascending(a),
        ascending(b),
        a.to_set() == b.to_set(),
    ensures
        a == b,
    decreases a.len(),
{
    if a.len() == 0 {
        if b.len() > 0 {
            assert(b.contains(b[0]));
            assert(b.to_set().contains(b[0]));
            assert(a.to_set().contains(b[0]));
            assert(a.contains(b[0]));
        }
        assert(a =~= b);
    } else {
        let la = a.last();
        assert(a.contains(la)) by {
            assert(a[a.len() - 1] == la);
        }
        assert(a.to_set().contains(la));
        assert(b.to_set().contains(la));
        assert(b.contains(la));
        let lb = b.last();
        assert(b.contains(lb)) by {
            assert(b[b.len() - 1] == lb);
        }
        assert(b.to_set().contains(lb));
        assert(a.to_set().contains(lb));
        assert(a.contains(lb));
        lemma_last_is_greatest(b, la);
        lemma_last_is_greatest(a, lb);
        if la != lb {
            lemma_str_lt_transitive(la, lb, la);
            lemma_str_lt_irreflexive(la);
        }
        let a1 = a.drop_last();
        let b1 = b.drop_last();
        assert forall|i: int, j: int| 0 <= i < j < a1.len() implies str_lt(
            #[trigger] a1[i],
            #[trigger] a1[j],
        ) by {
            assert(str_lt(a[i], a[j]));
        }
        assert forall|i: int, j: int| 0 <= i < j < b1.len() implies str_lt(
            #[trigger] b1[i],
            #[trigger] b1[j],
        ) by {
            assert(str_lt(b[i], b[j]));
        }
        assert forall|x: Seq<char>| a1.to_set().contains(x) <==> b1.to_set().contains(x) by {
            if a1.contains(x) {
                let i = choose|i: int| 0 <= i < a1.len() && a1[i] == x;
                assert(a[i] == x);
                assert(str_lt(a[i], a[a.len() - 1]));
                lemma_str_lt_irreflexive(x);
                assert(x != la);
                assert(a.contains(x));
                assert(a.to_set().contains(x));
                assert(b.to_set().contains(x));
                assert(b.contains(x));
                let j = choose|j: int| 0 <= j < b.len() && b[j] == x;
                assert(j < b.len() - 1);
                assert(b1[j] == x);
                assert(b1.contains(x));
            }
            if b1.contains(x) {
                let j = choose|j: int| 0 <= j < b1.len() && b1[j] == x;
                assert(b[j] == x);
                assert(str_lt(b[j], b[b.len() - 1]));
                lemma_str_lt_irreflexive(x);
                assert(x != lb);
                assert(b.contains(x));
                assert(b.to_set().contains(x));
                assert(a.to_set().contains(x));
                assert(a.contains(x));
                let i = choose|i: int| 0 <= i < a.len() && a[i] == x;
                assert(i < a.len() - 1);
                assert(a1[i] == x);
                assert(a1.contains(x));
            }
        }
        assert(a1.to_set() =~= b1.to_set());
        lemma_ascending_unique(a1, b1);
        assert(a =~= a1.push(la));
        assert(b =~= b1.push(lb));
    }
}

/// An inventory has but one listing.
pub proof fn lemma_listing_unique(
    first: Seq<char>,
    second: Seq<char>,
    map: Map<Seq<char>, Seq<FileEntry>>,
)
    requires
        is_listing(first, map),
        is_listing(second, map),
    ensures
        first == second,
{
    let a = choose|keys: Seq<Seq<char>>|
        #![trigger listing_lines(keys, map)]
        ascending(keys) && keys.to_set() =~= map.dom() && first == listing_lines(keys, map);
    let b = choose|keys: Seq<Seq<char>>|
        #![trigger listing_lines(keys, map)]
        ascending(keys) && keys.to_set() =~= map.dom() && second == listing_lines(keys, map);
    lemma_ascending_unique(a, b);
}

/// The listing of an inventory without files is empty.
pub proof fn lemma_listing_of_nothing(text: Seq<char>)
    requires
        is_listing(text, Map::<Seq<char>, Seq<FileEntry>>::empty()),
    ensures
        text.len() == 0,
{
    let map = Map::<Seq<char>, Seq<FileEntry>>::empty();
    let keys = choose|keys: Seq<Seq<char>>|
        #![trigger listing_lines(keys, map)]
        ascending(keys) && keys.to_set() =~= map.dom() && text == listing_lines(keys, map);
    if keys.len() > 0 {
        assert(keys.contains(keys[0]));
        assert(keys.to_set().contains(keys[0]));
    }
}

} // verus!
