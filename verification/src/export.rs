//! The export of a favorites folder into its ledger: which of the videos
//! that the service lists are new, and what the ledger gains by them.

use vstd::prelude::*;
use vstd::hash_set::StringHashSet;
use crate::client::{
    header_value_error, headers_error, info_path, list_path, pair_views, reply_data, ApiReply,
    ApiRequest, BiliFavClient, ClientOptions, PageCursor,
};
use crate::csv_utils::{
    LedgerRead, LineFault, ledger_ids, ledger_records, load_existing_bv_ids, records_bytes,
    unknown_encoding, write_entries, encoding_of_label,
};
use crate::errors::{ExportError, ExportErrorView, FavlistError, FavlistErrorView};
use crate::models::{
    FolderInfo, FolderInfoPayload, ResourceListPayload, VideoEntry, VideoEntryView, VideoItem,
};
use crate::text::{decimal_digits, decimal_text, trim, trimmed};
use crate::timestamp::{media_id_of, parse_media_id};

verus! {

/// How far an export has come: the videos gone through, and how many the
/// folder holds, where the service said so.
#[derive(Debug, Clone)]
pub struct ExportProgress {
    pub current: u64,
    pub total: Option<u64>,
}

/// What to export, where to, and how to reach the service.
#[derive(Debug, Clone)]
pub struct ExportOptions {
    pub fav_url: String,
    pub csv_path: String,
    pub encoding: String,
    pub page_size: u32,
    pub cookie: Option<String>,
    pub timeout_secs: u64,
    /// The moment to put on the new entries; the moment of the export
    /// where there is none.
    pub timestamp: Option<String>,
    pub extra_headers: Vec<(String, String)>,
    pub base_url: Option<String>,
}

impl Default for ExportOptions {
    fn default() -> (options: ExportOptions)
        ensures
            options.fav_url@.len() == 0,
            options.csv_path@.len() == 0,
            options.encoding@ == "utf-8"@,
            options.page_size == 40,
            options.cookie is None,
            options.timeout_secs == 10,
            options.timestamp is None,
            options.extra_headers@.len() == 0,
            options.base_url is None,
    {
        ExportOptions {
            fav_url: String::new(),
            csv_path: String::new(),
            encoding: "utf-8".to_owned(),
            page_size: 40,
            cookie: None,
            timeout_secs: 10,
            timestamp: None,
            extra_headers: Vec::new(),
            base_url: None,
        }
    }
}

impl ExportOptions {
    /// How to reach the service for this export.
    pub fn client_options(&self) -> (options: ClientOptions)
        ensures
            options.timeout_secs == self.timeout_secs,
            options.cookie == self.cookie,
            options.extra_headers@ == self.extra_headers@,
            options.base_url == self.base_url,
    {
        let mut extra_headers: Vec<(String, String)> = Vec::new();
        let mut i: usize = 0;
        while i < self.extra_headers.len()
            invariant
                i <= self.extra_headers@.len(),
                extra_headers@ == self.extra_headers@.take(i as int),
            decreases self.extra_headers@.len() - i,
        {
            let name = self.extra_headers[i].0.clone();
            let value = self.extra_headers[i].1.clone();
            extra_headers.push((name, value));
            proof {
                assert(extra_headers@ =~= self.extra_headers@.take(i + 1));
            }
            i += 1;
        }
        proof {
            assert(self.extra_headers@.take(self.extra_headers@.len() as int)
                =~= self.extra_headers@);
        }
        ClientOptions {
            timeout_secs: self.timeout_secs,
            cookie: self.cookie.clone(),
            extra_headers,
            base_url: self.base_url.clone(),
        }
    }
}

/// What an export found.
#[derive(Debug, Clone)]
pub struct ExportResult {
    pub csv_path: String,
    pub folder_info: FolderInfo,
    pub new_entries: Vec<VideoEntry>,
    pub timestamp: String,
    pub processed_count: u64,
    pub total_count: Option<u64>,
}

/// What an export found, and what the caller is to do to the ledger file:
/// create it where `ledger_is_new`, and append `ledger_append` to it.
#[derive(Debug)]
pub struct ExportOutcome {
    pub result: ExportResult,
    pub ledger_is_new: bool,
    pub ledger_append: Vec<u8>,
}

/// The videos of all pages, in the order of the pages.
pub open spec fn all_items(pages: Seq<ResourceListPayload>) -> Seq<VideoItem>
    decreases pages.len(),
{
    if pages.len() == 0 {
        Seq::empty()
    } else {
        all_items(pages.drop_last()) + pages.last().medias@
    }
}

/// The entry that a video with the identifier `id` makes in the ledger.
pub open spec fn entry_of(
    item: VideoItem,
    id: Seq<char>,
    fav_title: Seq<char>,
    timestamp: Seq<char>,
) -> VideoEntryView {
    VideoEntryView {
        bv_id: id,
        title: trimmed(item.title@),
        fav_title,
        timestamp,
        aid: item.id,
    }
}

/// Whether video `i` is new: it has an identifier that the ledger lacks and
/// that no video before it has.
pub open spec fn is_first_new(items: Seq<VideoItem>, existing: Set<Seq<char>>, i: int) -> bool {
    &&& 0 <= i < items.len()
    &&& items[i].resolved_bvid() is Some
    &&& !existing.contains(items[i].resolved_bvid()->0)
    &&& forall|j: int| 0 <= j < i ==> (#[trigger] items[j]).resolved_bvid() != items[i].resolved_bvid()
}

/// The entries of the new videos among the first `n`, in their order.
pub open spec fn new_entries(
    items: Seq<VideoItem>,
    n: int,
    existing: Set<Seq<char>>,
    fav_title: Seq<char>,
    timestamp: Seq<char>,
) -> Seq<VideoEntryView>
    decreases n,
{
    if n <= 0 {
        Seq::empty()
    } else {
        let before = new_entries(items, n - 1, existing, fav_title, timestamp);
        if is_first_new(items, existing, n - 1) {
            before.push(
                entry_of(items[n - 1], items[n - 1].resolved_bvid()->0, fav_title, timestamp),
            )
        } else {
            before
        }
    }
}

/// The identifiers of the first `n` videos that have one.
pub open spec fn item_ids(items: Seq<VideoItem>, n: int) -> Set<Seq<char>> {
    Set::new(
        |id: Seq<char>| exists|k: int| 0 <= k < n && k < items.len() && (#[trigger] items[k]).resolved_bvid() == Some(id),
    )
}

/// The entries as the ledger sees them.
pub open spec fn entry_views(entries: Seq<VideoEntry>) -> Seq<VideoEntryView> {
    entries.map_values(|e: VideoEntry| e@)
}

/// The entry of a video for the ledger, if the video has an identifier.
pub fn build_video_entry(item: &VideoItem, fav_title: &str, timestamp: &str) -> (r: Option<
    VideoEntry,
>)
    ensures
        match r {
            Some(entry) => item.resolved_bvid() matches Some(id) && entry@ == entry_of(
                *item,
                id,
                fav_title@,
                timestamp@,
            ),
            None => item.resolved_bvid() is None,
        },
{
    match item.resolve_bvid() {
        Some(bvid) => Some(
            VideoEntry {
                bv_id: bvid,
                title: trim(item.title.as_str()),
                fav_title: fav_title.to_owned(),
                timestamp: timestamp.to_owned(),
                aid: item.id,
            },
        ),
        None => None,
    }
}

/// The number of videos that the folder holds, where the service gave one
/// above zero.
pub open spec fn known_total(media_count: i64) -> Option<u64> {
    if media_count > 0 {
        Some(media_count as u64)
    } else {
        None
    }
}

/// `n`, or the largest count where `n` is beyond it.
pub open spec fn saturated(n: nat) -> u64 {
    if n <= u64::MAX {
        n as u64
    } else {
        u64::MAX
    }
}

/// Goes through the videos of all pages in order and keeps the new ones:
/// those with an identifier that `seen` lacks, which `seen` then gains.
/// `on_progress` is told of the start and of each video gone through.
pub fn collect_new_entries<F: Fn(ExportProgress)>(
    pages: &Vec<ResourceListPayload>,
    fav_title: &str,
    timestamp: &str,
    total_count: Option<u64>,
    seen: &mut StringHashSet,
    on_progress: &F,
) -> (r: (Vec<VideoEntry>, u64))
    requires
        forall|p: ExportProgress| call_requires(on_progress, (p,)),
    ensures
        entry_views(r.0@) == new_entries(
            all_items(pages@),
            all_items(pages@).len() as int,
            old(seen)@,
            fav_title@,
            timestamp@,
        ),
        r.1 == saturated(all_items(pages@).len()),
        final(seen)@ == old(seen)@.union(item_ids(all_items(pages@), all_items(pages@).len() as int)),
{
    let mut entries: Vec<VideoEntry> = Vec::new();
    let mut processed: u64 = 0;
    on_progress(ExportProgress { current: processed, total: total_count });
    let ghost existing = seen@;
    let ghost items = all_items(pages@);
    let mut p: usize = 0;
    proof {
        assert(pages@.take(0) =~= Seq::<ResourceListPayload>::empty());
        assert(entry_views(entries@) =~= Seq::<VideoEntryView>::empty());
        assert(seen@ =~= existing.union(item_ids(items, 0)));
        lemma_all_items_prefix(pages@, 0);
    }
    while p < pages.len()
        invariant
            p <= pages@.len(),
            items == all_items(pages@),
            forall|x: ExportProgress| call_requires(on_progress, (x,)),
            all_items(pages@.take(p as int)).len() <= items.len(),
            entry_views(entries@) == new_entries(
                items,
                all_items(pages@.take(p as int)).len() as int,
                existing,
                fav_title@,
                timestamp@,
            ),
            processed == saturated(all_items(pages@.take(p as int)).len()),
            seen@ == existing.union(item_ids(items, all_items(pages@.take(p as int)).len() as int)),
        decreases pages@.len() - p,
    {
        let page = &pages[p];
        let ghost base = all_items(pages@.take(p as int)).len() as int;
        proof {
            lemma_all_items_prefix(pages@, p as int + 1);
            assert(pages@.take(p + 1).drop_last() =~= pages@.take(p as int));
            assert(pages@.take(p + 1).last() == *page);
        }
        let mut i: usize = 0;
        while i < page.medias.len()
            invariant
                i <= page.medias@.len(),
                p < pages@.len(),
                *page == pages@[p as int],
                items == all_items(pages@),
                forall|x: ExportProgress| call_requires(on_progress, (x,)),
                base == all_items(pages@.take(p as int)).len(),
                base + page.medias@.len() <= items.len(),
                forall|k: int| 0 <= k < page.medias@.len() ==> items[base + k] == #[trigger] page.medias@[k],
                entry_views(entries@) == new_entries(
                    items,
                    base + i,
                    existing,
                    fav_title@,
                    timestamp@,
                ),
                processed == saturated((base + i) as nat),
                seen@ == existing.union(item_ids(items, base + i)),
            decreases page.medias@.len() - i,
        {
            let item = &page.medias[i];
            if processed < u64::MAX {
                processed = processed + 1;
            }
            on_progress(ExportProgress { current: processed, total: total_count });
            let ghost at = base + i;
            let ghost before = entry_views(entries@);
            let ghost seen_before = seen@;
            proof {
                assert(items[at] == *item);
            }
            match build_video_entry(item, fav_title, timestamp) {
                Some(entry) => {
                    let ghost id = entry.bv_id@;
                    let fresh = seen.insert(entry.bv_id.clone());
                    proof {
                        lemma_item_ids_step(items, at, existing);
                        if fresh {
                            assert(!existing.contains(id));
                            assert forall|j: int| 0 <= j < at implies (#[trigger] items[j]).resolved_bvid()
                                != items[at].resolved_bvid() by {
                                if items[j].resolved_bvid() == items[at].resolved_bvid() {
                                    assert(item_ids(items, at).contains(id));
                                }
                            }
                            assert(is_first_new(items, existing, at));
                        } else {
                            if !existing.contains(id) {
                                assert(item_ids(items, at).contains(id));
                                let j = choose|j: int|
                                    0 <= j < at && j < items.len() && (#[trigger] items[j]).resolved_bvid()
                                        == Some(id);
                                assert(!is_first_new(items, existing, at));
                            }
                        }
                    }
                    if fresh {
                        entries.push(entry);
                        proof {
                            assert(entry_views(entries@) =~= before.push(entry@));
                        }
                    }
                },
                None => {
                    proof {
                        lemma_item_ids_step(items, at, existing);
                    }
                },
            }
            i += 1;
        }
        p += 1;
    }
    proof {
        assert(pages@.take(pages@.len() as int) =~= pages@);
    }
    (entries, processed)
}

/// The videos of the first `n` pages are the first of all the videos.
proof fn lemma_all_items_prefix(pages: Seq<ResourceListPayload>, n: int)
    requires
        0 <= n <= pages.len(),
    ensures
        all_items(pages.take(n)).len() <= all_items(pages).len(),
        forall|k: int|
            0 <= k < all_items(pages.take(n)).len() ==> #[trigger] all_items(pages)[k] == all_items(
                pages.take(n),
            )[k],
        n > 0 ==> all_items(pages.take(n)) == all_items(pages.take(n - 1)) + pages[n - 1].medias@,
    decreases pages.len() - n,
{
    if n == pages.len() {
        assert(pages.take(n) =~= pages);
    } else {
        lemma_all_items_prefix(pages, n + 1);
        assert(pages.take(n + 1).drop_last() =~= pages.take(n));
    }
    if n > 0 {
        assert(pages.take(n).drop_last() =~= pages.take(n - 1));
        assert(pages.take(n).last() == pages[n - 1]);
    }
}

/// The identifiers of the first `at + 1` videos are those of the first `at`
/// and that of video `at`.
proof fn lemma_item_ids_step(items: Seq<VideoItem>, at: int, existing: Set<Seq<char>>)
    requires
        0 <= at < items.len(),
    ensures
        match items[at].resolved_bvid() {
            Some(id) => existing.union(item_ids(items, at + 1)) == existing.union(
                item_ids(items, at),
            ).insert(id),
            None => existing.union(item_ids(items, at + 1)) == existing.union(item_ids(items, at)),
        },
{
    let more = item_ids(items, at + 1);
    let fewer = item_ids(items, at);
    assert forall|x: Seq<char>| more.contains(x) <==> (fewer.contains(x) || items[at].resolved_bvid()
        == Some(x)) by {
        if more.contains(x) {
            let k = choose|k: int|
                0 <= k < at + 1 && k < items.len() && (#[trigger] items[k]).resolved_bvid() == Some(x);
            if k < at {
                assert(fewer.contains(x));
            }
        }
        if fewer.contains(x) {
            let k = choose|k: int|
                0 <= k < at && k < items.len() && (#[trigger] items[k]).resolved_bvid() == Some(x);
            assert(more.contains(x));
        }
        if items[at].resolved_bvid() == Some(x) {
            assert(more.contains(x));
        }
    }
    match items[at].resolved_bvid() {
        Some(id) => {
            assert(existing.union(more) =~= existing.union(fewer).insert(id));
        },
        None => {
            assert(existing.union(more) =~= existing.union(fewer));
        },
    }
}


/// What a ledger file holds, `None` where there is no such file.
pub open spec fn ledger_bytes(ledger: Option<&[u8]>) -> Option<Seq<u8>> {
    match ledger {
        Some(data) => Some(data@),
        None => None,
    }
}

/// The identifiers that a ledger file holds; none where there is no file.
pub open spec fn existing_ids(ledger: Option<Seq<u8>>, encoding: Seq<char>) -> LedgerRead<
    Set<Seq<char>>,
> {
    match ledger {
        None => LedgerRead::Rows(Set::empty()),
        Some(data) => ledger_ids(encoding, data),
    }
}

/// The moment that an export puts on its entries: the one that the options
/// fix, else the moment of the export.
pub open spec fn export_moment(options: ExportOptions, now: Seq<char>) -> Seq<char> {
    match options.timestamp {
        Some(fixed) => fixed@,
        None => now,
    }
}

/// What an export comes to, for every outcome of the outside crates.
pub enum ExportPlan {
    /// The link names no folder; what is said of it is held.
    BadLink(Seq<char>),
    /// The encoding is not known.
    UnknownEncoding,
    /// The ledger cannot be read as CSV.
    BadLedger,
    /// The `csv` crate refuses a line.
    BadRecord,
    /// A line cannot be put in the encoding.
    Unencodable,
    /// The new entries, and the bytes that the ledger gains by them.
    Write(Seq<VideoEntryView>, Seq<u8>),
}

/// What the export of a folder comes to, from its options, its title and
/// pages, what its ledger file holds and this moment. A link that names no
/// folder fails it before anything else. Of the videos of all pages, in
/// order, those are new that have an identifier which neither the ledger
/// nor an earlier video has; the ledger gains its header line where it is
/// new, and a line for each new entry.
pub open spec fn export_plan(
    options: ExportOptions,
    fav_title: Seq<char>,
    pages: Seq<ResourceListPayload>,
    ledger: Option<Seq<u8>>,
    now: Seq<char>,
) -> ExportPlan {
    match media_id_of(options.fav_url@) {
        Err(m) => ExportPlan::BadLink(m),
        Ok(_) => match existing_ids(ledger, options.encoding@) {
            LedgerRead::UnknownEncoding => ExportPlan::UnknownEncoding,
            LedgerRead::BadCsv => ExportPlan::BadLedger,
            LedgerRead::Rows(existing) => {
                let entries = new_entries(
                    all_items(pages),
                    all_items(pages).len() as int,
                    existing,
                    fav_title,
                    export_moment(options, now),
                );
                match encoding_of_label(options.encoding@) {
                    None => ExportPlan::UnknownEncoding,
                    Some(_) => match records_bytes(
                        options.encoding@,
                        ledger_records(ledger is None, entries),
                    ) {
                        Err(LineFault::Csv) => ExportPlan::BadRecord,
                        Err(LineFault::Encoding) => ExportPlan::Unencodable,
                        Ok(bytes) => ExportPlan::Write(entries, bytes),
                    },
                }
            },
        },
    }
}

/// Whether `e` is the failure that a plan stands for.
pub open spec fn is_failure_of(e: ExportErrorView, plan: ExportPlan, encoding: Seq<char>) -> bool {
    match plan {
        ExportPlan::BadLink(m) => e == ExportErrorView::Core(FavlistErrorView::InvalidUrl(m)),
        ExportPlan::UnknownEncoding => e == ExportErrorView::Core(unknown_encoding(encoding)),
        ExportPlan::BadLedger => e matches ExportErrorView::Core(c) && c is Csv,
        ExportPlan::BadRecord => e matches ExportErrorView::Core(c) && c is Csv,
        ExportPlan::Unencodable => e matches ExportErrorView::Core(c) && c is Encoding,
        ExportPlan::Write(_, _) => false,
    }
}

/// Whether `result` is what an export with the new entries `entries` found.
pub open spec fn is_result_of(
    result: ExportResult,
    entries: Seq<VideoEntryView>,
    options: ExportOptions,
    folder_info: FolderInfo,
    pages: Seq<ResourceListPayload>,
    now: Seq<char>,
) -> bool {
    &&& entry_views(result.new_entries@) == entries
    &&& result.timestamp@ == export_moment(options, now)
    &&& result.processed_count == saturated(all_items(pages).len())
    &&& result.total_count == known_total(folder_info.media_count)
    &&& result.folder_info == folder_info
    &&& result.csv_path == options.csv_path
}

/// The bytes that make sure that there is a ledger: its header line where
/// the file is new, nothing where it is there.
pub fn ensure_csv_exists(encoding: &str, is_new_file: bool) -> (r: Result<Vec<u8>, ExportError>)
    ensures
        match encoding_of_label(encoding@) {
            None => r matches Err(e) && e@ == ExportErrorView::Core(unknown_encoding(encoding@)),
            Some(_) => match records_bytes(
                encoding@,
                ledger_records(is_new_file, Seq::empty()),
            ) {
                Ok(bytes) => r matches Ok(out) && out@ == bytes,
                Err(LineFault::Csv) => r matches Err(e) && e@ matches ExportErrorView::Core(c)
                    && c is Csv,
                Err(LineFault::Encoding) => r matches Err(e) && e@ matches ExportErrorView::Core(
                    c,
                ) && c is Encoding,
            },
        },
{
    let none: Vec<VideoEntry> = Vec::new();
    proof {
        assert(none@.map_values(|e: VideoEntry| e@) =~= Seq::<VideoEntryView>::empty());
    }
    match write_entries(encoding, is_new_file, &none) {
        Ok(written) => Ok(written.bytes),
        Err(e) => Err(ExportError::Core(e)),
    }
}

/// The export of a folder, once its description and its pages have been
/// fetched and its ledger file read (`ledger`, `None` where there is no
/// such file; `now` is this moment): what `export_plan` says. The outcome
/// holds the new entries and the bytes that the ledger gains. It fails
/// where the link names no folder, where the ledger cannot be read, and
/// where the lines cannot be written in the encoding; then nothing is to
/// be written.
pub fn export_favlist<F: Fn(ExportProgress)>(
    options: ExportOptions,
    folder_info: FolderInfo,
    pages: Vec<ResourceListPayload>,
    ledger: Option<&[u8]>,
    now: String,
    on_progress: &F,
) -> (r: Result<ExportOutcome, ExportError>)
    requires
        forall|p: ExportProgress| call_requires(on_progress, (p,)),
    ensures
        match export_plan(options, folder_info.title@, pages@, ledger_bytes(ledger), now@) {
            ExportPlan::Write(entries, bytes) => {
                &&& r matches Ok(out)
                &&& out.ledger_append@ == bytes
                &&& out.ledger_is_new == (ledger is None)
                &&& is_result_of(out.result, entries, options, folder_info, pages@, now@)
            },
            plan => r matches Err(e) && is_failure_of(e@, plan, options.encoding@),
        },
{
    if let Err(e) = parse_media_id(options.fav_url.as_str()) {
        return Err(ExportError::Core(e));
    }
    let timestamp = match options.timestamp {
        Some(fixed) => fixed,
        None => now,
    };
    let total_count = if folder_info.media_count > 0 {
        Some(folder_info.media_count as u64)
    } else {
        None
    };
    let mut seen = match load_existing_bv_ids(ledger, options.encoding.as_str()) {
        Ok(ids) => ids,
        Err(e) => {
            return Err(ExportError::Core(e));
        },
    };
    let (new_entries, processed_count) = collect_new_entries(
        &pages,
        folder_info.title.as_str(),
        timestamp.as_str(),
        total_count,
        &mut seen,
        on_progress,
    );
    let ledger_is_new = ledger.is_none();
    let written = if new_entries.len() == 0 {
        proof {
            assert(entry_views(new_entries@) =~= Seq::<VideoEntryView>::empty());
        }
        ensure_csv_exists(options.encoding.as_str(), ledger_is_new)
    } else {
        match write_entries(options.encoding.as_str(), ledger_is_new, &new_entries) {
            Ok(written) => Ok(written.bytes),
            Err(e) => Err(ExportError::Core(e)),
        }
    };
    match written {
        Ok(ledger_append) => Ok(
            ExportOutcome {
                result: ExportResult {
                    csv_path: options.csv_path,
                    folder_info,
                    new_entries,
                    timestamp,
                    processed_count,
                    total_count,
                },
                ledger_is_new,
                ledger_append,
            },
        ),
        Err(e) => Err(e),
    }
}

/// The identifiers of a list of entries.
pub open spec fn entry_ids(entries: Seq<VideoEntryView>) -> Set<Seq<char>> {
    Set::new(|id: Seq<char>| exists|k: int| 0 <= k < entries.len() && (#[trigger] entries[k]).bv_id == id)
}

/// Every identifier among the first `n` videos is in the ledger or among
/// the new entries.
proof fn lemma_new_entries_cover(
    items: Seq<VideoItem>,
    n: int,
    existing: Set<Seq<char>>,
    fav_title: Seq<char>,
    timestamp: Seq<char>,
)
    requires
        0 <= n <= items.len(),
    ensures
        forall|k: int|
            0 <= k < n && (#[trigger] items[k]).resolved_bvid() is Some ==> existing.union(
                entry_ids(new_entries(items, n, existing, fav_title, timestamp)),
            ).contains(items[k].resolved_bvid()->0),
    decreases n,
{
    if n > 0 {
        lemma_new_entries_cover(items, n - 1, existing, fav_title, timestamp);
        let before = new_entries(items, n - 1, existing, fav_title, timestamp);
        let all = new_entries(items, n, existing, fav_title, timestamp);
        assert forall|x: Seq<char>| entry_ids(before).contains(x) implies entry_ids(all).contains(
            x,
        ) by {
            let k = choose|k: int| 0 <= k < before.len() && (#[trigger] before[k]).bv_id == x;
            assert(all[k].bv_id == x);
        }
        assert forall|k: int| 0 <= k < n && (#[trigger] items[k]).resolved_bvid() is Some implies existing.union(
            entry_ids(all),
        ).contains(items[k].resolved_bvid()->0) by {
            let id = items[k].resolved_bvid()->0;
            if k < n - 1 {
                assert(existing.union(entry_ids(before)).contains(id));
            } else if is_first_new(items, existing, n - 1) {
                assert(all[all.len() - 1].bv_id == id);
                assert(entry_ids(all).contains(id));
            } else if !existing.contains(id) {
                let j = choose|j: int|
                    0 <= j < n - 1 && (#[trigger] items[j]).resolved_bvid() == items[n
                        - 1].resolved_bvid();
                assert(existing.union(entry_ids(before)).contains(items[j].resolved_bvid()->0));
            }
        }
    }
}

/// Where `known` holds the identifier of each of the first `n` videos that
/// has one, none of them is new.
proof fn lemma_nothing_new(
    items: Seq<VideoItem>,
    n: int,
    known: Set<Seq<char>>,
    fav_title: Seq<char>,
    timestamp: Seq<char>,
)
    requires
        0 <= n <= items.len(),
        forall|k: int|
            0 <= k < n && (#[trigger] items[k]).resolved_bvid() is Some ==> known.contains(
                items[k].resolved_bvid()->0,
            ),
    ensures
        new_entries(items, n, known, fav_title, timestamp).len() == 0,
    decreases n,
{
    if n > 0 {
        lemma_nothing_new(items, n - 1, known, fav_title, timestamp);
        assert(!is_first_new(items, known, n - 1)) by {
            if items[n - 1].resolved_bvid() is Some {
                assert(known.contains(items[n - 1].resolved_bvid()->0));
            }
        }
    }
}

/// An export of the same videos against a ledger that has gained the new
/// entries of an earlier export finds nothing new.
pub proof fn lemma_second_export_finds_nothing(
    items: Seq<VideoItem>,
    existing: Set<Seq<char>>,
    fav_title: Seq<char>,
    timestamp: Seq<char>,
    later_title: Seq<char>,
    later_timestamp: Seq<char>,
)
    ensures
        new_entries(
            items,
            items.len() as int,
            existing.union(
                entry_ids(new_entries(items, items.len() as int, existing, fav_title, timestamp)),
            ),
            later_title,
            later_timestamp,
        ).len() == 0,
{
    let first = new_entries(items, items.len() as int, existing, fav_title, timestamp);
    lemma_new_entries_cover(items, items.len() as int, existing, fav_title, timestamp);
    lemma_nothing_new(
        items,
        items.len() as int,
        existing.union(entry_ids(first)),
        later_title,
        later_timestamp,
    );
}


/// Each new entry stems from a video that is new, and carries that video's
/// identifier.
proof fn lemma_new_entries_sources(
    items: Seq<VideoItem>,
    n: int,
    existing: Set<Seq<char>>,
    fav_title: Seq<char>,
    timestamp: Seq<char>,
)
    requires
        0 <= n <= items.len(),
    ensures
        forall|p: int|
            0 <= p < new_entries(items, n, existing, fav_title, timestamp).len() ==> exists|k: int|
                0 <= k < n && is_first_new(items, existing, k) && (#[trigger] items[k]).resolved_bvid()
                    == Some(
                    (#[trigger] new_entries(items, n, existing, fav_title, timestamp)[p]).bv_id,
                ),
        forall|p: int, q: int|
            0 <= p < q < new_entries(items, n, existing, fav_title, timestamp).len() ==> (
            #[trigger] new_entries(items, n, existing, fav_title, timestamp)[p]).bv_id != (
            #[trigger] new_entries(items, n, existing, fav_title, timestamp)[q]).bv_id,
    decreases n,
{
    if n > 0 {
        lemma_new_entries_sources(items, n - 1, existing, fav_title, timestamp);
        let before = new_entries(items, n - 1, existing, fav_title, timestamp);
        let all = new_entries(items, n, existing, fav_title, timestamp);
        assert forall|p: int| 0 <= p < all.len() implies exists|k: int|
            0 <= k < n && is_first_new(items, existing, k) && (#[trigger] items[k]).resolved_bvid()
                == Some((#[trigger] all[p]).bv_id) by {
            if p < before.len() {
                assert(all[p] == before[p]);
                let k = choose|k: int|
                    0 <= k < n - 1 && is_first_new(items, existing, k) && (
                    #[trigger] items[k]).resolved_bvid() == Some(before[p].bv_id);
                assert(items[k].resolved_bvid() == Some(all[p].bv_id));
            } else {
                assert(items[n - 1].resolved_bvid() == Some(all[p].bv_id));
            }
        }
        assert forall|p: int, q: int| 0 <= p < q < all.len() implies (#[trigger] all[p]).bv_id != (
        #[trigger] all[q]).bv_id by {
            if q < before.len() {
                assert(all[p] == before[p] && all[q] == before[q]);
            } else {
                assert(all[p] == before[p]);
                let k = choose|k: int|
                    0 <= k < n - 1 && is_first_new(items, existing, k) && (
                    #[trigger] items[k]).resolved_bvid() == Some(before[p].bv_id);
                assert(items[k].resolved_bvid() != items[n - 1].resolved_bvid());
            }
        }
    }
}

/// A ledger without two rows of one identifier stays so: the new entries
/// of an export have identifiers that the ledger lacks, each a different
/// one.
pub proof fn lemma_new_entries_are_distinct(
    items: Seq<VideoItem>,
    existing: Set<Seq<char>>,
    fav_title: Seq<char>,
    timestamp: Seq<char>,
)
    ensures
        forall|p: int|
            0 <= p < new_entries(items, items.len() as int, existing, fav_title, timestamp).len()
                ==> !existing.contains(
                (#[trigger] new_entries(
                    items,
                    items.len() as int,
                    existing,
                    fav_title,
                    timestamp,
                )[p]).bv_id,
            ),
        forall|p: int, q: int|
            0 <= p < q < new_entries(
                items,
                items.len() as int,
                existing,
                fav_title,
                timestamp,
            ).len() ==> (#[trigger] new_entries(
                items,
                items.len() as int,
                existing,
                fav_title,
                timestamp,
            )[p]).bv_id != (#[trigger] new_entries(
                items,
                items.len() as int,
                existing,
                fav_title,
                timestamp,
            )[q]).bv_id,
{
    let all = new_entries(items, items.len() as int, existing, fav_title, timestamp);
    lemma_new_entries_sources(items, items.len() as int, existing, fav_title, timestamp);
    assert forall|p: int| 0 <= p < all.len() implies !existing.contains((#[trigger] all[p]).bv_id) by {
        let k = choose|k: int|
            0 <= k < items.len() && is_first_new(items, existing, k) && (
            #[trigger] items[k]).resolved_bvid() == Some(all[p].bv_id);
        assert(!existing.contains(items[k].resolved_bvid()->0));
    }
}


/// An export under way: what it waits for, and what it holds so far.
#[derive(Debug)]
pub enum ExportSession {
    /// The description of the folder has been asked for.
    AwaitFolderInfo { options: ExportOptions, now: String, client: BiliFavClient, media_id: i64 },
    /// A page of the folder has been asked for.
    AwaitPage {
        options: ExportOptions,
        now: String,
        client: BiliFavClient,
        folder_info: FolderInfo,
        cursor: PageCursor,
    },
    /// All pages are read; the ledger file is being read.
    AwaitLedger {
        options: ExportOptions,
        now: String,
        folder_info: FolderInfo,
        pages: Vec<ResourceListPayload>,
    },
    /// The ledger file is being written.
    AwaitAppend { result: ExportResult },
    /// The export is over.
    Finished,
}

/// What the caller of an export is to do next.
#[derive(Debug)]
pub enum ExportStep {
    /// To send this request for the description of the folder.
    FetchFolderInfo(ApiRequest),
    /// To send this request for a page of the folder.
    FetchPage(ApiRequest),
    /// To read the ledger file.
    ReadLedger,
    /// To append these bytes to the ledger file, which is to be made where
    /// `create`.
    AppendLedger { create: bool, bytes: Vec<u8> },
    /// Nothing more: the export is over, with this outcome.
    Done(Result<ExportResult, ExportError>),
}

/// What the caller of an export has done.
#[derive(Debug)]
pub enum ExportEvent {
    /// The answer to the request for the description of the folder.
    FolderInfo(ApiReply<FolderInfoPayload>),
    /// The answer to the request for a page.
    Page(ApiReply<ResourceListPayload>),
    /// What the ledger file holds, `None` where there is no such file; or
    /// why it could not be read.
    Ledger(Result<Option<Vec<u8>>, FavlistError>),
    /// Whether the bytes were appended to the ledger file.
    Appended(Result<(), FavlistError>),
}

/// The first objection of the `http` crate to the cookie and headers of an
/// export: to the cookie before the headers.
pub open spec fn export_headers_error(options: ExportOptions) -> Option<Seq<char>> {
    match options.cookie {
        Some(cookie) => match header_value_error(cookie@) {
            Some(m) => Some("Cookie格式无效: "@ + m),
            None => headers_error(options.extra_headers@, 0),
        },
        None => headers_error(options.extra_headers@, 0),
    }
}

/// Whether `client` is the client of an export with these options.
pub open spec fn is_client_of(client: BiliFavClient, options: ExportOptions) -> bool {
    &&& client.spec_options().timeout_secs == options.timeout_secs
    &&& client.spec_options().cookie == options.cookie
    &&& client.spec_options().extra_headers@ == options.extra_headers@
    &&& client.spec_options().base_url == options.base_url
}

/// Whether `request` asks `client` for the description of folder `media_id`.
pub open spec fn asks_for_folder(request: ApiRequest, client: BiliFavClient, media_id: i64) -> bool {
    &&& request.url@ == client.base_url() + info_path()
    &&& pair_views(request.params@) == seq![("media_id"@, decimal_text(media_id as int))]
}

/// Whether `request` asks `client` for page `page` of folder `media_id`.
pub open spec fn asks_for_page(
    request: ApiRequest,
    client: BiliFavClient,
    media_id: i64,
    page: u32,
    page_size: u32,
) -> bool {
    &&& request.url@ == client.base_url() + list_path()
    &&& pair_views(request.params@) == seq![
        ("media_id"@, decimal_text(media_id as int)),
        ("pn"@, decimal_digits(page as nat)),
        ("ps"@, decimal_digits(page_size as nat)),
        ("platform"@, "web"@),
    ]
}

/// Whether the export is over with the failure `e`.
pub open spec fn ends_with(r: (ExportSession, ExportStep), e: ExportErrorView) -> bool {
    r.0 is Finished && (r.1 matches ExportStep::Done(Err(x)) && x@ == e)
}

/// What is said of an event that is not the one that an export waits for.
pub open spec fn out_of_turn() -> Seq<char> {
    "导出步骤与当前状态不符"@
}

/// Whether `event` is what `session` waits for.
pub open spec fn is_awaited(session: ExportSession, event: ExportEvent) -> bool {
    match session {
        ExportSession::AwaitFolderInfo { .. } => event is FolderInfo,
        ExportSession::AwaitPage { .. } => event is Page,
        ExportSession::AwaitLedger { .. } => event is Ledger,
        ExportSession::AwaitAppend { .. } => event is Appended,
        ExportSession::Finished => false,
    }
}

impl ExportSession {
    /// The start of an export at the moment `now`. A link that names no
    /// folder, and a cookie or header that cannot be sent, end it at once,
    /// before any request; else the description of the folder is to be
    /// asked for.
    pub fn start(options: ExportOptions, now: String) -> (r: (ExportSession, ExportStep))
        ensures
            match media_id_of(options.fav_url@) {
                Err(m) => ends_with(r, ExportErrorView::Core(FavlistErrorView::InvalidUrl(m))),
                Ok(id) => match export_headers_error(options) {
                    Some(m) => ends_with(
                        r,
                        ExportErrorView::Core(FavlistErrorView::InvalidUrl(m)),
                    ),
                    None => {
                        &&& r.0 matches ExportSession::AwaitFolderInfo {
                            options: o,
                            now: n,
                            client,
                            media_id,
                        }
                        &&& o == options
                        &&& n == now
                        &&& media_id == id
                        &&& is_client_of(client, options)
                        &&& r.1 matches ExportStep::FetchFolderInfo(request)
                        &&& asks_for_folder(request, client, id)
                    },
                },
            },
    {
        let media_id = match parse_media_id(options.fav_url.as_str()) {
            Ok(id) => id,
            Err(e) => {
                return (ExportSession::Finished, ExportStep::Done(Err(ExportError::Core(e))));
            },
        };
        let client = match BiliFavClient::new(options.client_options()) {
            Ok(client) => client,
            Err(e) => {
                return (ExportSession::Finished, ExportStep::Done(Err(ExportError::Core(e))));
            },
        };
        let request = client.folder_info_request(media_id);
        (
            ExportSession::AwaitFolderInfo { options, now, client, media_id },
            ExportStep::FetchFolderInfo(request),
        )
    }

    /// The client whose requests the export sends, while it sends any.
    pub fn client(&self) -> (r: Option<&BiliFavClient>)
        ensures
            match *self {
                ExportSession::AwaitFolderInfo { client, .. } => r == Some(&client),
                ExportSession::AwaitPage { client, .. } => r == Some(&client),
                _ => r is None,
            },
    {
        match self {
            ExportSession::AwaitFolderInfo { client, .. } => Some(client),
            ExportSession::AwaitPage { client, .. } => Some(client),
            _ => None,
        }
    }

    /// Takes in what the caller has done, and says what to do next.
    ///
    /// A request that failed, an answer that is a failure, a ledger file
    /// that cannot be read and a write that failed end the export with
    /// that failure, and nothing is to be written. The description of the
    /// folder is followed by its first page; a page that says that more
    /// follow by the next one; the last page by the reading of the ledger
    /// file; that by the bytes to append, as `export_plan` has them; and
    /// their writing by the result. An event that the export does not wait
    /// for ends it.
    pub fn step<F: Fn(ExportProgress)>(self, event: ExportEvent, on_progress: &F) -> (r: (
        ExportSession,
        ExportStep,
    ))
        requires
            forall|p: ExportProgress| call_requires(on_progress, (p,)),
        ensures
            !is_awaited(self, event) ==> ends_with(r, ExportErrorView::Context(out_of_turn())),
            self matches ExportSession::AwaitFolderInfo { options, now, client, media_id } ==> (
            event matches ExportEvent::FolderInfo(reply) ==> match reply_data(reply) {
                Err(e) => ends_with(r, ExportErrorView::Core(e)),
                Ok(payload) => {
                    &&& r.0 matches ExportSession::AwaitPage {
                        options: o,
                        now: n,
                        client: c,
                        folder_info,
                        cursor,
                    }
                    &&& o == options
                    &&& n == now
                    &&& c == client
                    &&& folder_info@ == payload.folder_info(media_id)
                    &&& cursor.media_id == media_id
                    &&& cursor.page_size == options.page_size
                    &&& cursor.page == 1
                    &&& cursor.pages@.len() == 0
                    &&& !cursor.finished
                    &&& r.1 matches ExportStep::FetchPage(request)
                    &&& asks_for_page(request, client, media_id, 1, options.page_size)
                },
            }),
            self matches ExportSession::AwaitPage { options, now, client, folder_info, cursor } ==> (
            event matches ExportEvent::Page(reply) ==> if cursor.finished {
                &&& r.0 matches ExportSession::AwaitLedger {
                    options: o,
                    now: n,
                    folder_info: f,
                    pages,
                }
                &&& o == options
                &&& n == now
                &&& f == folder_info
                &&& pages == cursor.pages
                &&& r.1 is ReadLedger
            } else {
                match reply_data(reply) {
                    Err(e) => ends_with(r, ExportErrorView::Core(e)),
                    Ok(payload) => if !payload.has_more {
                        &&& r.0 matches ExportSession::AwaitLedger {
                            options: o,
                            now: n,
                            folder_info: f,
                            pages,
                        }
                        &&& o == options
                        &&& n == now
                        &&& f == folder_info
                        &&& pages@ == cursor.pages@.push(payload)
                        &&& r.1 is ReadLedger
                    } else if cursor.page == u32::MAX {
                        ends_with(
                            r,
                            ExportErrorView::Core(FavlistErrorView::Other("分页页码超出范围"@)),
                        )
                    } else {
                        &&& r.0 matches ExportSession::AwaitPage {
                            options: o,
                            now: n,
                            client: c,
                            folder_info: f,
                            cursor: next,
                        }
                        &&& o == options
                        &&& n == now
                        &&& c == client
                        &&& f == folder_info
                        &&& next.media_id == cursor.media_id
                        &&& next.page_size == cursor.page_size
                        &&& next.page == cursor.page + 1
                        &&& next.pages@ == cursor.pages@.push(payload)
                        &&& !next.finished
                        &&& r.1 matches ExportStep::FetchPage(request)
                        &&& asks_for_page(
                            request,
                            client,
                            cursor.media_id,
                            next.page,
                            cursor.page_size,
                        )
                    },
                }
            }),
            self matches ExportSession::AwaitLedger { options, now, folder_info, pages } ==> (
            event matches ExportEvent::Ledger(read) ==> match read {
                Err(e) => ends_with(r, ExportErrorView::Core(e@)),
                Ok(file) => {
                    let held = match file {
                        Some(data) => Some(data@),
                        None => None,
                    };
                    match export_plan(options, folder_info.title@, pages@, held, now@) {
                        ExportPlan::Write(entries, bytes) => {
                            &&& r.0 matches ExportSession::AwaitAppend { result }
                            &&& is_result_of(result, entries, options, folder_info, pages@, now@)
                            &&& r.1 matches ExportStep::AppendLedger { create, bytes: b }
                            &&& create == (file is None)
                            &&& b@ == bytes
                        },
                        plan => r.0 is Finished && (r.1 matches ExportStep::Done(Err(x))
                            && is_failure_of(x@, plan, options.encoding@)),
                    }
                },
            }),
            self matches ExportSession::AwaitAppend { result } ==> (
            event matches ExportEvent::Appended(written) ==> match written {
                Ok(_) => r.0 is Finished && r.1 == ExportStep::Done(Ok(result)),
                Err(e) => ends_with(r, ExportErrorView::Core(e@)),
            }),
    {
        match (self, event) {
            (
                ExportSession::AwaitFolderInfo { options, now, client, media_id },
                ExportEvent::FolderInfo(reply),
            ) => {
                match client.get_folder_info(media_id, reply) {
                    Err(e) => (ExportSession::Finished, ExportStep::Done(Err(ExportError::Core(e)))),
                    Ok(folder_info) => {
                        let cursor = client.list_videos(media_id, options.page_size);
                        let request = client.list_request(media_id, 1, options.page_size);
                        (
                            ExportSession::AwaitPage { options, now, client, folder_info, cursor },
                            ExportStep::FetchPage(request),
                        )
                    },
                }
            },
            (
                ExportSession::AwaitPage { options, now, client, folder_info, cursor },
                ExportEvent::Page(reply),
            ) => {
                let mut cursor = cursor;
                match cursor.accept(reply) {
                    Err(e) => (ExportSession::Finished, ExportStep::Done(Err(ExportError::Core(e)))),
                    Ok(true) => {
                        let request = client.list_request(
                            cursor.media_id,
                            cursor.page,
                            cursor.page_size,
                        );
                        (
                            ExportSession::AwaitPage { options, now, client, folder_info, cursor },
                            ExportStep::FetchPage(request),
                        )
                    },
                    Ok(false) => (
                        ExportSession::AwaitLedger { options, now, folder_info, pages: cursor.pages },
                        ExportStep::ReadLedger,
                    ),
                }
            },
            (
                ExportSession::AwaitLedger { options, now, folder_info, pages },
                ExportEvent::Ledger(read),
            ) => {
                let file = match read {
                    Ok(file) => file,
                    Err(e) => {
                        return (
                            ExportSession::Finished,
                            ExportStep::Done(Err(ExportError::Core(e))),
                        );
                    },
                };
                let ledger: Option<&[u8]> = match &file {
                    Some(data) => Some(data.as_slice()),
                    None => None,
                };
                match export_favlist(options, folder_info, pages, ledger, now, on_progress) {
                    Err(e) => (ExportSession::Finished, ExportStep::Done(Err(e))),
                    Ok(outcome) => (
                        ExportSession::AwaitAppend { result: outcome.result },
                        ExportStep::AppendLedger {
                            create: outcome.ledger_is_new,
                            bytes: outcome.ledger_append,
                        },
                    ),
                }
            },
            (ExportSession::AwaitAppend { result }, ExportEvent::Appended(written)) => {
                match written {
                    Ok(_) => (ExportSession::Finished, ExportStep::Done(Ok(result))),
                    Err(e) => (ExportSession::Finished, ExportStep::Done(Err(ExportError::Core(e)))),
                }
            },
            _ => (
                ExportSession::Finished,
                ExportStep::Done(Err(ExportError::Context("导出步骤与当前状态不符".to_owned()))),
            ),
        }
    }
}

} // verus!
