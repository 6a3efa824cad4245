use vstd::prelude::*;
use crate::catalog::{
    build_catalog, catalog_matches, default_thumbnail, default_title, label_height,
    lemma_catalog_sorted_and_unique, raw_formats_seq, raw_formats_view, selected_heights,
    RawFormat, VideoInfo,
};
use crate::errors::CoreError;
use crate::text::opt_string_view;
use serde_json::Value;

verus! {

/// Whether a text is one well-formed JSON value; exactly the texts that
/// serde_json's document parser accepts.
pub uninterp spec fn is_json_text(s: Seq<char>) -> bool;

/// The three fields the extractor's metadata object carries, as the decoder
/// reads them out of the text: the `title` and `thumbnail` strings and the
/// `formats` array, each `None` when absent or of another type. On a text
/// that is not well-formed JSON every component is `None`.
pub uninterp spec fn metadata_fields_of(s: Seq<char>) -> (
    Option<Seq<char>>,
    Option<Seq<char>>,
    Option<Seq<RawFormat>>,
);

/// Relies on serde_json::from_str for `serde_json::Value` and on Value's
/// get, as_str, as_u64 and as_array accessors: parses the metadata text and
/// reads its three fields out, a function of the text alone. It succeeds
/// exactly on well-formed JSON text and otherwise surfaces the parse error's
/// description as the `Err` payload.
#[verifier::external_body]
fn decode_metadata(s: &str) -> (r: Result<
    (Option<String>, Option<String>, Option<Vec<RawFormat>>),
    String,
>)
    ensures
        r is Ok <==> is_json_text(s@),
        r matches Ok(f) ==> {
            &&& opt_string_view(f.0) == metadata_fields_of(s@).0
            &&& opt_string_view(f.1) == metadata_fields_of(s@).1
            &&& (f.2 is Some <==> metadata_fields_of(s@).2 is Some)
            &&& (f.2 matches Some(v) ==> Some(v@) == metadata_fields_of(s@).2)
        },
{
    let v: Value = serde_json::from_str(s).map_err(|e| e.to_string())?;
    let txt = |x: &Value| x.as_str().map(str::to_owned);
    let formats = v.get("formats").and_then(Value::as_array).map(|a| {
        a.iter().map(|f| RawFormat {
            height: f.get("height").and_then(Value::as_u64),
            vcodec: f.get("vcodec").and_then(txt),
            format_id: f.get("format_id").and_then(txt),
            ext: f.get("ext").and_then(txt),
            filesize: f.get("filesize").and_then(Value::as_u64),
        }).collect()
    });
    Ok((v.get("title").and_then(txt), v.get("thumbnail").and_then(txt), formats))
}

/// The title shown for a decoded metadata text: its `title` field, or the
/// fixed fallback when the field is absent.
pub open spec fn decoded_title(s: Seq<char>) -> Seq<char> {
    match metadata_fields_of(s).0 {
        Some(t) => t,
        None => "unknown title"@,
    }
}

/// The thumbnail shown for a decoded metadata text: its `thumbnail` field,
/// or empty when the field is absent.
pub open spec fn decoded_thumbnail(s: Seq<char>) -> Seq<char> {
    match metadata_fields_of(s).1 {
        Some(t) => t,
        None => ""@,
    }
}

/// The format list a decoded metadata text yields; a missing `formats` array
/// reads as an empty list.
pub open spec fn decoded_formats(s: Seq<char>) -> Seq<RawFormat> {
    raw_formats_seq(metadata_fields_of(s).2)
}

/// Parses the extractor's metadata dump into the catalog shown to the user.
///
/// The decode of the JSON text is delegated to serde_json behind the trusted
/// `decode_metadata`, whose result is the named `metadata_fields_of`; the
/// normalisation of those fields is `build_catalog`, whose contract pins it
/// down exactly. Text that is not well-formed JSON fails as
/// `JsonParseFailed`; well-formed text succeeds exactly when some decoded
/// format is kept, and fails as `NoSupportedFormats` otherwise.
pub fn parse_metadata(json_text: &str) -> (r: Result<VideoInfo, CoreError>)
    ensures
        !is_json_text(json_text@) <==> r matches Err(CoreError::JsonParseFailed(_)),
        is_json_text(json_text@) ==> (r is Ok <==> selected_heights(
            decoded_formats(json_text@),
        ).len() > 0),
        r matches Err(e) ==> e matches CoreError::JsonParseFailed(_) || e
            is NoSupportedFormats,
        r matches Ok(info) ==> {
            &&& info.title@ == decoded_title(json_text@)
            &&& info.thumbnail@ == decoded_thumbnail(json_text@)
            &&& catalog_matches(info.formats@, decoded_formats(json_text@))
            &&& info.formats@.len() > 0
        },
        r matches Ok(info) ==> forall|i: int, j: int|
            0 <= i < j < info.formats@.len() ==> label_height(
                #[trigger] info.formats@[i].resolution@,
            ) > label_height(#[trigger] info.formats@[j].resolution@),
{
    let (title, thumbnail, formats) = match decode_metadata(json_text) {
        Ok(f) => f,
        Err(msg) => {
            return Err(CoreError::JsonParseFailed(msg));
        },
    };
    proof {
        assert(default_title(title) == decoded_title(json_text@));
        assert(default_thumbnail(thumbnail) == decoded_thumbnail(json_text@));
        assert(raw_formats_view(formats) == decoded_formats(json_text@));
    }
    match build_catalog(title, thumbnail, formats) {
        Ok(info) => {
            proof {
                lemma_catalog_sorted_and_unique(info.formats@, decoded_formats(json_text@));
            }
            Ok(info)
        },
        Err(e) => Err(e),
    }
}

/// Interprets one run of the extractor's info query: a failed exit surfaces
/// the captured stderr as `ExtractionFailed`; a clean exit hands stdout to
/// the metadata parser, whose contract carries through unchanged.
pub fn parse_info_output(exit_ok: bool, stdout: &str, stderr: String) -> (r: Result<
    VideoInfo,
    CoreError,
>)
    ensures
        !exit_ok ==> r == Err::<VideoInfo, CoreError>(CoreError::ExtractionFailed(stderr)),
        exit_ok ==> (!is_json_text(stdout@) <==> r matches Err(
            CoreError::JsonParseFailed(_),
        )),
        exit_ok && is_json_text(stdout@) ==> (r is Ok <==> selected_heights(
            decoded_formats(stdout@),
        ).len() > 0),
        exit_ok ==> (r matches Err(e) ==> e matches CoreError::JsonParseFailed(_) || e
            is NoSupportedFormats),
        exit_ok ==> (r matches Ok(info) ==> {
            &&& info.title@ == decoded_title(stdout@)
            &&& info.thumbnail@ == decoded_thumbnail(stdout@)
            &&& catalog_matches(info.formats@, decoded_formats(stdout@))
            &&& info.formats@.len() > 0
        }),
{
    if !exit_ok {
        return Err(CoreError::ExtractionFailed(stderr));
    }
    parse_metadata(stdout)
}

} // verus!
