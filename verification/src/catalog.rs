use vstd::prelude::*;
use crate::errors::CoreError;

verus! {

/// One format entry as the extractor reports it: every field is optional in
/// the metadata, and absent or mistyped fields arrive here as `None`.
pub struct RawFormat {
    pub height: Option<u64>,
    pub vcodec: Option<String>,
    pub format_id: Option<String>,
    pub ext: Option<String>,
    pub filesize: Option<u64>,
}

/// One selectable quality variant offered to the user. `filesize` is 0 when
/// unknown.
pub struct VideoFormat {
    pub format_id: String,
    pub resolution: String,
    pub filesize: u64,
    pub ext: String,
}

/// The parsed video: a title, a thumbnail URL, and a non-empty format list
/// sorted strictly descending by resolution with one entry per resolution.
pub struct VideoInfo {
    pub title: String,
    pub thumbnail: String,
    pub formats: Vec<VideoFormat>,
}

/// The resolution allow-list, as pixel heights in descending order. Formats
/// at any other height are dropped.
pub open spec fn allowed_heights() -> Seq<u64> {
    seq![2160u64, 1440u64, 1080u64, 720u64, 480u64, 360u64, 240u64, 144u64]
}

/// Whether a reported format is kept at all: its height must be present and
/// allow-listed, and its video codec present and not the audio-only sentinel
/// `"none"`.
pub open spec fn kept(f: RawFormat) -> bool {
    &&& f.height is Some
    &&& allowed_heights().contains(f.height->Some_0)
    &&& f.vcodec is Some
    &&& f.vcodec->Some_0@ != "none"@
}

/// Whether a reported format is kept and has exactly the given height.
pub open spec fn matches_height(f: RawFormat, h: u64) -> bool {
    kept(f) && f.height->Some_0 == h
}

/// The first format in source order that is kept at the given height: the
/// representative chosen when several formats tie on resolution.
pub open spec fn first_kept_at(fs: Seq<RawFormat>, h: u64) -> Option<RawFormat>
    decreases fs.len(),
{
    if fs.len() == 0 {
        None::<RawFormat>
    } else if matches_height(fs[0], h) {
        Some(fs[0])
    } else {
        first_kept_at(fs.drop_first(), h)
    }
}

/// The heights, from the `k`-th allow-list position on, at which some format
/// is kept; in allow-list (descending) order.
pub open spec fn selected_from(fs: Seq<RawFormat>, k: int) -> Seq<u64>
    decreases allowed_heights().len() - k,
{
    if k < 0 || k >= allowed_heights().len() {
        Seq::empty()
    } else {
        let rest = selected_from(fs, k + 1);
        if first_kept_at(fs, allowed_heights()[k]) is Some {
            seq![allowed_heights()[k]] + rest
        } else {
            rest
        }
    }
}

/// The heights of the resulting catalog, in output (descending) order.
pub open spec fn selected_heights(fs: Seq<RawFormat>) -> Seq<u64> {
    selected_from(fs, 0)
}

/// The resolution label written for an allow-listed height.
pub open spec fn height_label(h: u64) -> Seq<char> {
    if h == 2160 {
        "2160p"@
    } else if h == 1440 {
        "1440p"@
    } else if h == 1080 {
        "1080p"@
    } else if h == 720 {
        "720p"@
    } else if h == 480 {
        "480p"@
    } else if h == 360 {
        "360p"@
    } else if h == 240 {
        "240p"@
    } else if h == 144 {
        "144p"@
    } else {
        ""@
    }
}

/// The numeric reading of a resolution label; a label that is none of the
/// allow-listed ones reads as 0.
pub open spec fn label_height(s: Seq<char>) -> u64 {
    if s == "2160p"@ {
        2160u64
    } else if s == "1440p"@ {
        1440u64
    } else if s == "1080p"@ {
        1080u64
    } else if s == "720p"@ {
        720u64
    } else if s == "480p"@ {
        480u64
    } else if s == "360p"@ {
        360u64
    } else if s == "240p"@ {
        240u64
    } else if s == "144p"@ {
        144u64
    } else {
        0u64
    }
}

/// The title shown when the metadata carries none.
pub open spec fn default_title(title: Option<String>) -> Seq<char> {
    match title {
        Some(t) => t@,
        None => "unknown title"@,
    }
}

/// The thumbnail used when the metadata carries none.
pub open spec fn default_thumbnail(thumbnail: Option<String>) -> Seq<char> {
    match thumbnail {
        Some(t) => t@,
        None => ""@,
    }
}

/// The format list the catalog is built from: a missing `formats` array is
/// read as an empty list (and so fails as `NoSupportedFormats` downstream).
pub open spec fn raw_formats_view(formats: Option<Vec<RawFormat>>) -> Seq<RawFormat> {
    match formats {
        Some(v) => v@,
        None => Seq::empty(),
    }
}

/// The same reading for a format list held as a sequence.
pub open spec fn raw_formats_seq(formats: Option<Seq<RawFormat>>) -> Seq<RawFormat> {
    match formats {
        Some(v) => v,
        None => Seq::empty(),
    }
}

/// How one catalog entry is derived from the representative raw format kept
/// at height `h`: label from the height, the other fields from the raw entry
/// with their documented defaults.
pub open spec fn entry_matches(e: VideoFormat, fs: Seq<RawFormat>, h: u64) -> bool {
    &&& first_kept_at(fs, h) is Some
    &&& e.resolution@ == height_label(h)
    &&& e.format_id@ == match first_kept_at(fs, h)->Some_0.format_id {
        Some(s) => s@,
        None => ""@,
    }
    &&& e.filesize == match first_kept_at(fs, h)->Some_0.filesize {
        Some(n) => n,
        None => 0u64,
    }
    &&& e.ext@ == match first_kept_at(fs, h)->Some_0.ext {
        Some(x) => x@,
        None => "mp4"@,
    }
}

/// The full catalog relation: one entry per selected height, in descending
/// height order, each derived from its first kept raw format.
pub open spec fn catalog_matches(out: Seq<VideoFormat>, fs: Seq<RawFormat>) -> bool {
    &&& out.len() == selected_heights(fs).len()
    &&& forall|i: int|
        0 <= i < out.len() ==> entry_matches(out[i], fs, selected_heights(fs)[i])
}

/// An allow-listed height is one of the eight fixed values.
proof fn lemma_allowed_cases(h: u64)
    requires
        allowed_heights().contains(h),
    ensures
        h == 2160 || h == 1440 || h == 1080 || h == 720 || h == 480 || h == 360 || h == 240
            || h == 144,
{
    let i = choose|i: int| 0 <= i < allowed_heights().len() && allowed_heights()[i] == h;
    assert(i == 0 || i == 1 || i == 2 || i == 3 || i == 4 || i == 5 || i == 6 || i == 7);
}

/// Reading an allow-listed height's label back gives the height.
proof fn lemma_label_round_trip(h: u64)
    requires
        allowed_heights().contains(h),
    ensures
        label_height(height_label(h)) == h,
{
    lemma_allowed_cases(h);
    reveal_strlit("2160p");
    reveal_strlit("1440p");
    reveal_strlit("1080p");
    reveal_strlit("720p");
    reveal_strlit("480p");
    reveal_strlit("360p");
    reveal_strlit("240p");
    reveal_strlit("144p");
    assert("2160p"@.len() == 5 && "2160p"@[0] == '2' && "2160p"@[1] == '1');
    assert("1440p"@.len() == 5 && "1440p"@[0] == '1' && "1440p"@[1] == '4');
    assert("1080p"@.len() == 5 && "1080p"@[0] == '1' && "1080p"@[1] == '0');
    assert("720p"@.len() == 4 && "720p"@[0] == '7');
    assert("480p"@.len() == 4 && "480p"@[0] == '4');
    assert("360p"@.len() == 4 && "360p"@[0] == '3');
    assert("240p"@.len() == 4 && "240p"@[0] == '2');
    assert("144p"@.len() == 4 && "144p"@[0] == '1');
}

/// Every selected height is allow-listed and no larger than the allow-list
/// entry at its starting position.
proof fn lemma_selected_from_elems(fs: Seq<RawFormat>, k: int)
    requires
        0 <= k < allowed_heights().len(),
    ensures
        forall|i: int|
            0 <= i < selected_from(fs, k).len() ==> allowed_heights().contains(
                #[trigger] selected_from(fs, k)[i],
            ) && selected_from(fs, k)[i] <= allowed_heights()[k],
    decreases allowed_heights().len() - k,
{
    if k + 1 < allowed_heights().len() {
        lemma_selected_from_elems(fs, k + 1);
    }
    let s = selected_from(fs, k);
    let rest = selected_from(fs, k + 1);
    assert forall|i: int| 0 <= i < s.len() implies allowed_heights().contains(#[trigger] s[i])
        && s[i] <= allowed_heights()[k] by {
        if first_kept_at(fs, allowed_heights()[k]) is Some {
            if i == 0 {
                assert(s[i] == allowed_heights()[k]);
            } else {
                assert(s[i] == rest[i - 1]);
            }
        } else {
            assert(s[i] == rest[i]);
        }
    }
}

/// The selected heights are strictly descending.
proof fn lemma_selected_from_sorted(fs: Seq<RawFormat>, k: int)
    requires
        0 <= k,
    ensures
        forall|i: int, j: int|
            0 <= i < j < selected_from(fs, k).len() ==> #[trigger] selected_from(fs, k)[i]
                > #[trigger] selected_from(fs, k)[j],
    decreases allowed_heights().len() - k,
{
    if k < allowed_heights().len() {
        lemma_selected_from_sorted(fs, k + 1);
        if k + 1 < allowed_heights().len() {
            lemma_selected_from_elems(fs, k + 1);
        }
        let s = selected_from(fs, k);
        let rest = selected_from(fs, k + 1);
        assert forall|i: int, j: int| 0 <= i < j < s.len() implies #[trigger] s[i]
            > #[trigger] s[j] by {
            if first_kept_at(fs, allowed_heights()[k]) is Some {
                if i == 0 {
                    assert(s[j] == rest[j - 1]);
                } else {
                    assert(s[i] == rest[i - 1]);
                    assert(s[j] == rest[j - 1]);
                }
            } else {
                assert(s[i] == rest[i]);
                assert(s[j] == rest[j]);
            }
        }
    }
}

/// The catalog is sorted strictly descending by numeric resolution, so in
/// particular it holds at most one entry per resolution label.
pub proof fn lemma_catalog_sorted_and_unique(out: Seq<VideoFormat>, fs: Seq<RawFormat>)
    requires
        catalog_matches(out, fs),
    ensures
        forall|i: int, j: int|
            0 <= i < j < out.len() ==> label_height(#[trigger] out[i].resolution@) > label_height(
                #[trigger] out[j].resolution@,
            ),
        forall|i: int, j: int|
            0 <= i < j < out.len() ==> #[trigger] out[i].resolution@ != #[trigger] out[j].resolution@,
{
    lemma_selected_from_sorted(fs, 0);
    lemma_selected_from_elems(fs, 0);
    assert forall|i: int, j: int| 0 <= i < j < out.len() implies label_height(
        #[trigger] out[i].resolution@,
    ) > label_height(#[trigger] out[j].resolution@) by {
        lemma_label_round_trip(selected_heights(fs)[i]);
        lemma_label_round_trip(selected_heights(fs)[j]);
    }
}

/// Whether this raw format is kept at the given allow-listed height.
fn format_matches(f: &RawFormat, h: u64) -> (r: bool)
    requires
        allowed_heights().contains(h),
    ensures
        r == matches_height(*f, h),
{
    match &f.height {
        Some(x) => {
            if *x == h {
                match &f.vcodec {
                    Some(v) => {
                        let none_sentinel = "none".to_owned();
                        !(*v == none_sentinel)
                    },
                    None => false,
                }
            } else {
                false
            }
        },
        None => false,
    }
}

/// Finds the first raw format in source order kept at the given height.
fn find_kept(fs: &Vec<RawFormat>, h: u64) -> (r: Option<usize>)
    requires
        allowed_heights().contains(h),
    ensures
        r matches Some(j) ==> j < fs@.len() && matches_height(fs@[j as int], h) && first_kept_at(
            fs@,
            h,
        ) == Some(fs@[j as int]),
        r is None ==> first_kept_at(fs@, h) is None,
{
    let mut j: usize = 0;
    proof {
        assert(fs@.skip(0) =~= fs@);
    }
    while j < fs.len()
        invariant
            j <= fs@.len(),
            allowed_heights().contains(h),
            first_kept_at(fs@, h) == first_kept_at(fs@.skip(j as int), h),
        decreases fs@.len() - j,
    {
        if format_matches(&fs[j], h) {
            proof {
                assert(fs@.skip(j as int)[0] == fs@[j as int]);
            }
            return Some(j);
        }
        proof {
            assert(fs@.skip(j as int).drop_first() =~= fs@.skip(j + 1int));
        }
        j += 1;
    }
    proof {
        assert(fs@.skip(j as int).len() == 0);
    }
    None
}

/// Builds the one catalog entry for a raw format kept at height `h`.
fn entry_for(f: &RawFormat, h: u64) -> (e: VideoFormat)
    requires
        matches_height(*f, h),
    ensures
        e.resolution@ == height_label(h),
        e.format_id@ == match f.format_id {
            Some(s) => s@,
            None => ""@,
        },
        e.filesize == match f.filesize {
            Some(n) => n,
            None => 0u64,
        },
        e.ext@ == match f.ext {
            Some(x) => x@,
            None => "mp4"@,
        },
{
    proof {
        lemma_allowed_cases(h);
    }
    let resolution = if h == 2160 {
        "2160p".to_owned()
    } else if h == 1440 {
        "1440p".to_owned()
    } else if h == 1080 {
        "1080p".to_owned()
    } else if h == 720 {
        "720p".to_owned()
    } else if h == 480 {
        "480p".to_owned()
    } else if h == 360 {
        "360p".to_owned()
    } else if h == 240 {
        "240p".to_owned()
    } else {
        "144p".to_owned()
    };
    let format_id = match &f.format_id {
        Some(s) => s.clone(),
        None => "".to_owned(),
    };
    let filesize = match f.filesize {
        Some(n) => n,
        None => 0u64,
    };
    let ext = match &f.ext {
        Some(x) => x.clone(),
        None => "mp4".to_owned(),
    };
    VideoFormat { format_id, resolution, filesize, ext }
}

/// The allow-listed heights as a vector, descending.
fn allowed_heights_vec() -> (r: Vec<u64>)
    ensures
        r@ == allowed_heights(),
{
    let mut v: Vec<u64> = Vec::new();
    v.push(2160);
    v.push(1440);
    v.push(1080);
    v.push(720);
    v.push(480);
    v.push(360);
    v.push(240);
    v.push(144);
    proof {
        assert(v@ =~= allowed_heights());
    }
    v
}

/// Normalises the decoded metadata into the catalog shown to the user.
///
/// For each allow-listed height, in descending order, the first format in
/// source order that is kept at that height becomes the catalog entry for
/// that resolution; later formats at the same resolution are dropped. This
/// pins down the representative among ties deterministically: it equals a
/// stable descending sort by height followed by keeping the first entry of
/// each resolution. A missing format list is read as empty, and an empty
/// result is the hard error `NoSupportedFormats`, never an empty catalog.
/// A missing title reads as "unknown title", a missing thumbnail as "".
pub fn build_catalog(
    title: Option<String>,
    thumbnail: Option<String>,
    formats: Option<Vec<RawFormat>>,
) -> (r: Result<VideoInfo, CoreError>)
    ensures
        r is Ok <==> selected_heights(raw_formats_view(formats)).len() > 0,
        r matches Ok(info) ==> info.formats@.len() > 0,
        r matches Err(e) ==> e is NoSupportedFormats,
        r matches Ok(info) ==> {
            &&& info.title@ == default_title(title)
            &&& info.thumbnail@ == default_thumbnail(thumbnail)
            &&& catalog_matches(info.formats@, raw_formats_view(formats))
        },
{
    let fs_empty: Vec<RawFormat> = Vec::new();
    let fs: &Vec<RawFormat> = match &formats {
        Some(v) => v,
        None => &fs_empty,
    };
    proof {
        assert(fs@ =~= raw_formats_view(formats));
    }
    let heights = allowed_heights_vec();
    let ghost s: Seq<u64> = selected_heights(fs@);
    let mut out: Vec<VideoFormat> = Vec::new();
    let mut hi: usize = 0;
    while hi < heights.len()
        invariant
            heights@ == allowed_heights(),
            hi <= heights@.len(),
            fs@ == raw_formats_view(formats),
            s == selected_heights(fs@),
            out@.len() <= s.len(),
            selected_from(fs@, hi as int) == s.skip(out@.len() as int),
            forall|i: int| 0 <= i < out@.len() ==> entry_matches(out@[i], fs@, s[i]),
        decreases heights@.len() - hi,
    {
        let h = heights[hi];
        match find_kept(fs, h) {
            Some(j) => {
                proof {
                    assert(selected_from(fs@, hi as int) == seq![h] + selected_from(
                        fs@,
                        hi + 1int,
                    ));
                    assert(s.skip(out@.len() as int).len() > 0);
                    assert(s[out@.len() as int] == s.skip(out@.len() as int)[0]);
                    assert((seq![h] + selected_from(fs@, hi + 1int)).drop_first() =~= selected_from(
                        fs@,
                        hi + 1int,
                    ));
                    assert(s.skip(out@.len() as int).drop_first() =~= s.skip(
                        out@.len() + 1int,
                    ));
                }
                let e = entry_for(&fs[j], h);
                out.push(e);
            },
            None => {
                proof {
                    assert(selected_from(fs@, hi as int) == selected_from(fs@, hi + 1int));
                }
            },
        }
        hi += 1;
    }
    proof {
        assert(s.skip(out@.len() as int).len() == 0);
        assert(out@.len() == s.len());
    }
    if out.len() == 0 {
        return Err(CoreError::NoSupportedFormats);
    }
    let title_out = match title {
        Some(t) => t,
        None => "unknown title".to_owned(),
    };
    let thumbnail_out = match thumbnail {
        Some(t) => t,
        None => "".to_owned(),
    };
    Ok(VideoInfo { title: title_out, thumbnail: thumbnail_out, formats: out })
}

} // verus!
