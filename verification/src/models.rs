//! The records that travel between the remote listing, the ledger and the
//! inventory of a download directory.

use vstd::prelude::*;
use crate::text::{decimal_text, push_signed_decimal, trim, trimmed};

verus! {

/// What the server says of a favorites folder.
#[derive(Debug, Clone, PartialEq, Eq)]
pub struct FolderInfo {
    pub media_id: i64,
    pub fid: i64,
    pub mid: i64,
    pub title: String,
    pub media_count: i64,
}

/// A `FolderInfo` with its title as a sequence of characters.
pub struct FolderInfoView {
    pub media_id: i64,
    pub fid: i64,
    pub mid: i64,
    pub title: Seq<char>,
    pub media_count: i64,
}

impl View for FolderInfo {
    type V = FolderInfoView;

    open spec fn view(&self) -> FolderInfoView {
        FolderInfoView {
            media_id: self.media_id,
            fid: self.fid,
            mid: self.mid,
            title: self.title@,
            media_count: self.media_count,
        }
    }
}

/// One line of the ledger: a video of a folder, as it was first seen.
#[derive(Debug, Clone, PartialEq)]
pub struct VideoEntry {
    pub bv_id: String,
    pub title: String,
    pub fav_title: String,
    pub timestamp: String,
    pub aid: Option<i64>,
}

/// A `VideoEntry` with its texts as sequences of characters.
pub struct VideoEntryView {
    pub bv_id: Seq<char>,
    pub title: Seq<char>,
    pub fav_title: Seq<char>,
    pub timestamp: Seq<char>,
    pub aid: Option<i64>,
}

impl View for VideoEntry {
    type V = VideoEntryView;

    open spec fn view(&self) -> VideoEntryView {
        VideoEntryView {
            bv_id: self.bv_id@,
            title: self.title@,
            fav_title: self.fav_title@,
            timestamp: self.timestamp@,
            aid: self.aid,
        }
    }
}

/// The envelope of every answer of the listing service.
#[derive(Debug, Clone)]
pub struct ApiResponse<T> {
    pub code: i32,
    pub message: Option<String>,
    pub data: Option<T>,
}

/// The folder as the service sends it, each part of it optional.
#[derive(Debug, Clone)]
pub struct FolderInfoPayload {
    pub id: Option<i64>,
    pub fid: Option<i64>,
    pub mid: Option<i64>,
    pub title: Option<String>,
    pub media_count: i64,
}

/// One page of a folder's videos.
#[derive(Debug, Clone)]
pub struct ResourceListPayload {
    pub medias: Vec<VideoItem>,
    pub has_more: bool,
}

/// A video as the service lists it.
#[derive(Debug, Clone)]
pub struct VideoItem {
    pub bv_id: String,
    pub bvid: String,
    pub id: Option<i64>,
    pub title: String,
}

impl FolderInfoPayload {
    /// The folder that the payload describes; an absent id is `fallback_media_id`,
    /// another absent number 0, an absent title empty.
    pub open spec fn folder_info(self, fallback_media_id: i64) -> FolderInfoView {
        FolderInfoView {
            media_id: match self.id {
                Some(id) => id,
                None => fallback_media_id,
            },
            fid: match self.fid {
                Some(fid) => fid,
                None => 0,
            },
            mid: match self.mid {
                Some(mid) => mid,
                None => 0,
            },
            title: match self.title {
                Some(title) => title@,
                None => Seq::empty(),
            },
            media_count: self.media_count,
        }
    }

    /// The folder that the payload describes.
    pub fn into_folder_info(self, fallback_media_id: i64) -> (info: FolderInfo)
        ensures
            info@ == self.folder_info(fallback_media_id),
    {
        FolderInfo {
            media_id: match self.id {
                Some(id) => id,
                None => fallback_media_id,
            },
            fid: match self.fid {
                Some(fid) => fid,
                None => 0,
            },
            mid: match self.mid {
                Some(mid) => mid,
                None => 0,
            },
            title: match self.title {
                Some(title) => title,
                None => String::new(),
            },
            media_count: self.media_count,
        }
    }
}

impl VideoItem {
    /// The identifier under which the video is kept: the first of its two
    /// codes that is not blank, trimmed; failing both, `av` and its number.
    pub open spec fn resolved_bvid(self) -> Option<Seq<char>> {
        if trimmed(self.bv_id@).len() > 0 {
            Some(trimmed(self.bv_id@))
        } else if trimmed(self.bvid@).len() > 0 {
            Some(trimmed(self.bvid@))
        } else {
            match self.id {
                Some(aid) => Some("av"@ + decimal_text(aid as int)),
                None => None,
            }
        }
    }

    /// The identifier under which the video is kept, if it has one.
    pub fn resolve_bvid(&self) -> (r: Option<String>)
        ensures
            match r {
                Some(id) => self.resolved_bvid() == Some(id@),
                None => self.resolved_bvid() is None,
            },
    {
        let first = trim(self.bv_id.as_str());
        if first.as_str().unicode_len() > 0 {
            return Some(first);
        }
        let second = trim(self.bvid.as_str());
        if second.as_str().unicode_len() > 0 {
            return Some(second);
        }
        match self.id {
            Some(aid) => {
                let mut id = "av".to_owned();
                push_signed_decimal(&mut id, aid);
                Some(id)
            },
            None => None,
        }
    }
}

/// The files of a download directory that carry one identifier.
#[derive(Debug, Clone)]
pub struct InventoryItem {
    pub bvid: String,
    pub files: Vec<String>,
}

/// The inventory of a download directory at one moment. The moment is kept
/// as seconds and nanoseconds since the epoch, with the offset from UTC, in
/// seconds, of the clock that read it.
#[derive(Debug, Clone)]
pub struct InventorySnapshot {
    pub generated_at_secs: i64,
    pub generated_at_nanos: u32,
    pub utc_offset_secs: i32,
    pub items: Vec<InventoryItem>,
}

} // verus!
