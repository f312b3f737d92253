//! The track metadata record: one audio file plus the metadata known
//! about it. `None` means absent or unreadable; a present string is
//! expected to be non-empty.
//!
//! The open-ended frame maps (user text, URLs, other text frames) are
//! association lists in first-seen order.

use vstd::prelude::*;

verus! {

/// Stable identifier for a track within one scan result.
pub type TrackId = i64;

/// One audio file and the metadata known about it.
pub struct TrackRow {
    /// Stable identity, assigned after a scan when absent.
    pub id: Option<TrackId>,
    /// Canonical file location for this track.
    pub path: String,
    pub title: Option<String>,
    pub artist: Option<String>,
    pub album: Option<String>,
    pub album_artist: Option<String>,
    pub composer: Option<String>,
    pub track_no: Option<u32>,
    pub track_total: Option<u32>,
    pub disc_no: Option<u32>,
    pub disc_total: Option<u32>,
    pub year: Option<i32>,
    pub date: Option<String>,
    pub genre: Option<String>,
    pub grouping: Option<String>,
    pub comment: Option<String>,
    pub lyrics: Option<String>,
    pub lyricist: Option<String>,
    pub conductor: Option<String>,
    pub remixer: Option<String>,
    pub publisher: Option<String>,
    pub subtitle: Option<String>,
    pub bpm: Option<u32>,
    pub key: Option<String>,
    pub mood: Option<String>,
    pub language: Option<String>,
    pub isrc: Option<String>,
    pub encoder_settings: Option<String>,
    pub encoded_by: Option<String>,
    pub copyright: Option<String>,
    /// How many pieces of artwork are embedded in the file.
    pub artwork_count: u32,
    pub title_sort: Option<String>,
    pub artist_sort: Option<String>,
    pub album_sort: Option<String>,
    pub album_artist_sort: Option<String>,
    pub duration_ms: Option<u32>,
    pub rating: Option<u8>,
    pub play_count: Option<u64>,
    pub compilation: Option<bool>,
    /// User-defined text frames: description and value.
    pub user_text: Vec<(String, String)>,
    /// URL frames: frame id or description, and the URL.
    pub urls: Vec<(String, String)>,
    /// Other text frames not modelled above: frame id and value.
    pub extra_text: Vec<(String, String)>,
}

/// Whether a row carries no metadata at all: every field beyond the
/// path is absent, zero, or empty.
pub open spec fn is_empty_row(r: TrackRow) -> bool {
    &&& r.id is None
    &&& r.title is None
    &&& r.artist is None
    &&& r.album is None
    &&& r.album_artist is None
    &&& r.composer is None
    &&& r.track_no is None
    &&& r.track_total is None
    &&& r.disc_no is None
    &&& r.disc_total is None
    &&& r.year is None
    &&& r.date is None
    &&& r.genre is None
    &&& r.grouping is None
    &&& r.comment is None
    &&& r.lyrics is None
    &&& r.lyricist is None
    &&& r.conductor is None
    &&& r.remixer is None
    &&& r.publisher is None
    &&& r.subtitle is None
    &&& r.bpm is None
    &&& r.key is None
    &&& r.mood is None
    &&& r.language is None
    &&& r.isrc is None
    &&& r.encoder_settings is None
    &&& r.encoded_by is None
    &&& r.copyright is None
    &&& r.artwork_count == 0
    &&& r.title_sort is None
    &&& r.artist_sort is None
    &&& r.album_sort is None
    &&& r.album_artist_sort is None
    &&& r.duration_ms is None
    &&& r.rating is None
    &&& r.play_count is None
    &&& r.compilation is None
    &&& r.user_text@ =~= Seq::<(String, String)>::empty()
    &&& r.urls@ =~= Seq::<(String, String)>::empty()
    &&& r.extra_text@ =~= Seq::<(String, String)>::empty()
}

/// A row for `path` with no metadata, used when a tag read fails.
pub fn empty_row(path: String) -> (r: TrackRow)
    ensures
        r.path == path,
        is_empty_row(r),
{
    TrackRow {
        id: Option::None,
        path,
        title: Option::None,
        artist: Option::None,
        album: Option::None,
        album_artist: Option::None,
        composer: Option::None,
        track_no: Option::None,
        track_total: Option::None,
        disc_no: Option::None,
        disc_total: Option::None,
        year: Option::None,
        date: Option::None,
        genre: Option::None,
        grouping: Option::None,
        comment: Option::None,
        lyrics: Option::None,
        lyricist: Option::None,
        conductor: Option::None,
        remixer: Option::None,
        publisher: Option::None,
        subtitle: Option::None,
        bpm: Option::None,
        key: Option::None,
        mood: Option::None,
        language: Option::None,
        isrc: Option::None,
        encoder_settings: Option::None,
        encoded_by: Option::None,
        copyright: Option::None,
        artwork_count: 0,
        title_sort: Option::None,
        artist_sort: Option::None,
        album_sort: Option::None,
        album_artist_sort: Option::None,
        duration_ms: Option::None,
        rating: Option::None,
        play_count: Option::None,
        compilation: Option::None,
        user_text: Vec::new(),
        urls: Vec::new(),
        extra_text: Vec::new(),
    }
}

/// How many of the first `n` rows have no id yet.
pub open spec fn missing_id_count(rows: Seq<TrackRow>, n: int) -> int
    recommends
        0 <= n <= rows.len(),
    decreases n,
{
    if n <= 0 {
        0
    } else {
        missing_id_count(rows, n - 1) + if rows[n - 1].id is None {
            1int
        } else {
            0int
        }
    }
}

proof fn lemma_missing_id_count_bound(rows: Seq<TrackRow>, n: int)
    requires
        0 <= n <= rows.len(),
    ensures
        0 <= missing_id_count(rows, n) <= n,
    decreases n,
{
    if n > 0 {
        lemma_missing_id_count_bound(rows, n - 1);
    }
}

/// Give every row without an id a fresh one, counting up from 1 in row
/// order; rows that already have an id are untouched. Deterministic and
/// stable within one scan result.
pub fn assign_temp_ids_if_missing(rows: &mut Vec<TrackRow>)
    requires
        old(rows)@.len() < 0x7fff_ffff_ffff_ffff,
    ensures
        final(rows)@.len() == old(rows)@.len(),
        forall|i: int|
            0 <= i < old(rows)@.len() ==> #[trigger] final(rows)@[i] == if old(rows)@[i].id
                is None {
                TrackRow { id: Option::Some((1 + missing_id_count(old(rows)@, i)) as TrackId), ..old(
                    rows,
                )@[i] }
            } else {
                old(rows)@[i]
            },
{
    let ghost orig = rows@;
    let mut next: i64 = 1;
    let mut i: usize = 0;
    while i < rows.len()
        invariant
            orig.len() < 0x7fff_ffff_ffff_ffff,
            0 <= i <= orig.len(),
            rows@.len() == orig.len(),
            next == 1 + missing_id_count(orig, i as int),
            forall|j: int|
                0 <= j < i ==> #[trigger] rows@[j] == if orig[j].id is None {
                    TrackRow { id: Option::Some((1 + missing_id_count(orig, j)) as TrackId), ..orig[j] }
                } else {
                    orig[j]
                },
            forall|j: int| i <= j < orig.len() ==> #[trigger] rows@[j] == orig[j],
        decreases orig.len() - i,
    {
        proof {
            lemma_missing_id_count_bound(orig, i as int);
        }
        if rows[i].id.is_none() {
            rows[i].id = Option::Some(next);
            next = next + 1;
        }
        i = i + 1;
    }
}

} // verus!
