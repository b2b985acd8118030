//! Screenshot capture.
use vstd::prelude::*;
use vstd::string::StringSliceAdditionalSpecFns;
use vstd::utf8::encode_utf8;

use super::{member, all_data, data_as_array, make_call, number, unsigned_number, Call, CallView, command_result_view};
use crate::cli::CaptureAction;
use crate::connection::data_result_view;
use crate::error::{CommandError, CommandErrorView, ProtocolError, ProtocolErrorView};
use crate::json::{items_view, Json, JsonView, Member, MemberView};
use crate::strings::{push_char, trim_char_end, trim_char_end_in_place};

verus! {

/// What standard base64 decoding (RFC 4648 alphabet, with padding) makes of
/// `input`: the bytes it encodes, or the message of the decoding error where
/// `input` is not valid standard base64.
pub uninterp spec fn base64_standard_decode(input: Seq<u8>) -> Result<Seq<u8>, Seq<char>>;

/// The value of a decoding result: the bytes, or the error's message.
pub open spec fn decode_result_view(r: Result<Vec<u8>, String>) -> Result<Seq<u8>, Seq<char>> {
    match r {
        Ok(bytes) => Ok(bytes@),
        Err(m) => Err(m@),
    }
}

/// Calls `base64::engine::general_purpose::STANDARD.decode` and, on failure, the
/// `Display` of its `base64::DecodeError`. Claimed: the bytes, or the error's
/// message, are `base64_standard_decode` of the input; they depend on the input alone.
#[verifier::external_body]
fn standard_decode(input: &[u8]) -> (r: Result<Vec<u8>, String>)
    ensures
        decode_result_view(r) == base64_standard_decode(input@),
{
    match base64::Engine::decode(&base64::engine::general_purpose::STANDARD, input) {
        Ok(bytes) => Ok(bytes),
        Err(e) => Err(e.to_string()),
    }
}

/// The bytes of the image that the base64 text `b64` encodes, or `InvalidImageData`
/// with the message of the decoding error.
pub fn decode_image(b64: &str) -> (r: Result<Vec<u8>, CommandError>)
    ensures
        match base64_standard_decode(b64.spec_bytes()) {
            Ok(bytes) => r matches Ok(b) && b@ == bytes,
            Err(m) => r matches Err(e) && e@ == CommandErrorView::InvalidImageData(m),
        },
{
    match standard_decode(b64.as_bytes()) {
        Ok(bytes) => Ok(bytes),
        Err(m) => Err(CommandError::InvalidImageData(m)),
    }
}

/// The call for `action`: `get_screens`, or `get_jpg` with the screen index, the
/// JPEG quality and the size divisor.
pub open spec fn capture_call(action: CaptureAction) -> CallView {
    match action {
        CaptureAction::GetScreens => CallView { module: "capture"@, function: "get_screens"@, params: Seq::empty() },
        CaptureAction::GetJpg { screen, quality, divide, .. } => CallView {
            module: "capture"@,
            function: "get_jpg"@,
            params: seq![number(screen as int), number(quality as int), number(divide as int)],
        },
    }
}

/// Listing the screens calls `capture get_screens` without parameters; capturing
/// calls `capture get_jpg` with, in this order, the screen index, the JPEG quality
/// and the size divisor that the action gives.
pub proof fn lemma_capture_calls(action: CaptureAction)
    ensures
        capture_call(action).module == "capture"@,
        match action {
            CaptureAction::GetScreens => capture_call(action).function == "get_screens"@
                && capture_call(action).params.len() == 0,
            CaptureAction::GetJpg { screen, quality, divide, .. } => capture_call(action).function == "get_jpg"@
                && capture_call(action).params.len() == 3
                && capture_call(action).params[0] == number(screen as int)
                && capture_call(action).params[1] == number(quality as int)
                && capture_call(action).params[2] == number(divide as int),
        },
{
}

/// The call for `action`.
pub fn call(action: &CaptureAction) -> (c: Call)
    ensures
        c@ == capture_call(*action),
{
    match action {
        CaptureAction::GetScreens => {
            let c = make_call("capture", "get_screens", Vec::new());
            assert(c@.params =~= Seq::<JsonView>::empty());
            c
        },
        CaptureAction::GetJpg { screen, quality, divide, .. } => {
            let params = vec![
                unsigned_number(*screen as u64),
                unsigned_number(*quality as u64),
                unsigned_number(*divide as u64),
            ];
            let c = make_call("capture", "get_jpg", params);
            assert(c@.params =~= seq![number(*screen as int), number(*quality as int), number(*divide as int)]);
            c
        },
    }
}

/// The result of listing the screens: the screen indices of the reply as an array.
pub fn finish_screens(outcome: Result<Vec<Json>, ProtocolError>) -> (r: Result<Json, CommandError>)
    ensures
        command_result_view(r) == all_data(data_result_view(outcome)),
{
    data_as_array(outcome)
}

/// What to do with a captured image.
pub enum JpgOutcome {
    /// Print the base64 text of the image.
    Print(Json),
    /// Create the directory `folder` (with its parents) where given, write `jpeg` to
    /// `path`, announce `path`, and print `report`.
    Save { folder: Option<String>, path: String, jpeg: Vec<u8>, report: Json },
}

/// The folder that images go to when no folder is given.
pub open spec fn default_folder() -> Seq<char> {
    "capture"@
}

/// The path of an image: the given path, or the auto-generated name inside the
/// folder (trailing slashes of the folder removed).
pub open spec fn image_path(output_path: Option<Seq<char>>, folder: Seq<char>, auto_name: Seq<char>) -> Seq<char> {
    match output_path {
        Some(p) => p,
        None => trim_char_end(folder, '/') + seq!['/'] + auto_name,
    }
}

/// A given path is used as it is. Otherwise the image goes into the folder under
/// the generated name, joined by exactly one `/`: trailing slashes of the folder
/// make no difference.
pub proof fn lemma_image_path(given: Seq<char>, folder: Seq<char>, auto_name: Seq<char>, extra: nat)
    requires
        folder.len() == 0 || folder.last() != '/',
    ensures
        image_path(Some(given), folder, auto_name) == given,
        image_path(None, folder, auto_name) == folder + "/"@ + auto_name,
        image_path(None, folder + Seq::new(extra, |k: int| '/'), auto_name) == folder + "/"@ + auto_name,
    decreases extra,
{
    reveal_strlit("/");
    assert("/"@ =~= seq!['/']);
    if extra > 0 {
        let longer = folder + Seq::new(extra, |k: int| '/');
        let shorter = folder + Seq::new((extra - 1) as nat, |k: int| '/');
        assert(longer.drop_last() =~= shorter);
        assert(longer.last() == '/');
        lemma_image_path(given, folder, auto_name, (extra - 1) as nat);
    } else {
        assert(folder + Seq::new(0, |k: int| '/') =~= folder);
    }
}

/// The datum at `k` of the reply, or `null` where the reply is shorter.
pub open spec fn datum_or_null(data: Seq<JsonView>, k: int) -> JsonView {
    if 0 <= k < data.len() { data[k] } else { JsonView::Null }
}

/// The report of a saved image: the file it went to and the image's size as the
/// reply gave it (`[timestamp, width, height, base64]`); members in key order.
pub open spec fn image_report(path: Seq<char>, data: Seq<JsonView>) -> JsonView {
    JsonView::Object(
        seq![
            MemberView { key: "file"@, value: JsonView::Str(path) },
            MemberView { key: "height"@, value: datum_or_null(data, 2) },
            MemberView { key: "width"@, value: datum_or_null(data, 1) },
        ],
    )
}

/// The report of a saved image has three members: `file` with the path, `height`
/// with the reply's third datum and `width` with its second (`null` where the reply
/// is too short).
pub proof fn lemma_image_report(path: Seq<char>, data: Seq<JsonView>)
    ensures
        image_report(path, data) is Object,
        image_report(path, data)->Object_0.len() == 3,
        image_report(path, data)->Object_0[0] == (MemberView { key: "file"@, value: JsonView::Str(path) }),
        image_report(path, data)->Object_0[1].key == "height"@,
        image_report(path, data)->Object_0[2].key == "width"@,
        data.len() > 2 ==> image_report(path, data)->Object_0[1].value == data[2],
        data.len() > 1 ==> image_report(path, data)->Object_0[2].value == data[1],
        data.len() <= 2 ==> image_report(path, data)->Object_0[1].value == JsonView::Null,
        data.len() <= 1 ==> image_report(path, data)->Object_0[2].value == JsonView::Null,
{
}

/// The value of an optional string.
pub open spec fn optional_string_view(s: Option<String>) -> Option<Seq<char>> {
    match s {
        Some(t) => Some(t@),
        None => None,
    }
}

/// Whether the reply carries base64 image data (a string at index 3).
pub open spec fn has_image_data(data: Seq<JsonView>) -> bool {
    data.len() > 3 && data[3] is Str
}

/// The image data of the reply.
pub open spec fn image_data(data: Seq<JsonView>) -> Seq<char> {
    data[3]->Str_0
}

fn datum_at_or_null(data: &Vec<Json>, k: usize) -> (j: Json)
    ensures
        j@ == datum_or_null(items_view(data@), k as int),
{
    if k < data.len() {
        data[k].copy()
    } else {
        Json::Null
    }
}

/// Whether `o` saves the image `jpeg`: the folder to create (the given one, or
/// `capture`, only where no path is given), the path of the file, the bytes, and
/// the report on the reply `data`.
pub open spec fn is_save_plan(
    o: JpgOutcome,
    data: Seq<JsonView>,
    output_path: Option<Seq<char>>,
    output_folder: Option<Seq<char>>,
    auto_name: Seq<char>,
    jpeg: Seq<u8>,
) -> bool {
    let given_folder = match output_folder {
        Some(f) => f,
        None => default_folder(),
    };
    let p = image_path(output_path, given_folder, auto_name);
    &&& o matches JpgOutcome::Save { folder, path, jpeg: bytes, report }
    &&& optional_string_view(o->folder) == (if output_path is Some { None } else { Some(given_folder) })
    &&& o->path@ == p
    &&& o->Save_jpeg@ == jpeg
    &&& o->report@ == image_report(p, data)
}

fn save_plan(
    data: &Vec<Json>,
    output_path: Option<String>,
    output_folder: Option<String>,
    auto_name: String,
    jpeg: Vec<u8>,
) -> (o: JpgOutcome)
    ensures
        is_save_plan(
            o,
            items_view(data@),
            optional_string_view(output_path),
            optional_string_view(output_folder),
            auto_name@,
            jpeg@,
        ),
{
    let ghost dv = items_view(data@);
    let folder_name = match output_folder {
        Some(f) => f,
        None => String::from_str("capture"),
    };
    proof {
        reveal_strlit("capture");
    }
    let (folder, path) = match output_path {
        Some(p) => (None, p),
        None => {
            let mut path = folder_name.clone();
            trim_char_end_in_place(&mut path, '/');
            push_char(&mut path, '/');
            path.append(auto_name.as_str());
            (Some(folder_name), path)
        },
    };
    let ghost pv = path@;
    let members = vec![
        member("file", Json::Str(path.clone())),
        member("height", datum_at_or_null(data, 2)),
        member("width", datum_at_or_null(data, 1)),
    ];
    let report = Json::Object(members);
    proof {
        reveal_strlit("file");
        reveal_strlit("height");
        reveal_strlit("width");
    }
    assert(report@ == image_report(pv, dv)) by {
        assert(report@->Object_0 =~= image_report(pv, dv)->Object_0);
    }
    let ghost given = match optional_string_view(output_folder) {
        Some(f) => f,
        None => default_folder(),
    };
    assert(folder_name@ == given);
    assert(pv == image_path(optional_string_view(output_path), given, auto_name@));
    assert(optional_string_view(folder) == (if output_path is Some { None } else { Some(given) }));
    JpgOutcome::Save { folder, path, jpeg, report }
}

/// What to do with the reply to a `get_jpg` call. The reply is
/// `[timestamp, width, height, base64]`; `auto_name` is the file name to use when
/// no path is given.
///
/// Fails where the call failed, where the reply holds no base64 text, and (unless
/// the text is to be printed as it is) where the text is not valid base64.
pub fn finish_jpg(
    outcome: Result<Vec<Json>, ProtocolError>,
    output_path: Option<String>,
    output_folder: Option<String>,
    base64_mode: bool,
    auto_name: String,
) -> (r: Result<JpgOutcome, CommandError>)
    ensures
        match data_result_view(outcome) {
            Err(e) => r matches Err(err) && err@ == CommandErrorView::Protocol(e),
            Ok(data) => if !has_image_data(data) {
                r matches Err(err) && err@ == CommandErrorView::MissingImageData
            } else if base64_mode {
                r matches Ok(JpgOutcome::Print(j)) && j@ == JsonView::Str(image_data(data))
            } else {
                match base64_standard_decode(encode_utf8(image_data(data))) {
                    Err(m) => r matches Err(err) && err@ == CommandErrorView::InvalidImageData(m),
                    Ok(jpeg) => r matches Ok(o) && is_save_plan(
                        o,
                        data,
                        optional_string_view(output_path),
                        optional_string_view(output_folder),
                        auto_name@,
                        jpeg,
                    ),
                }
            },
        },
{
    let data = match outcome {
        Ok(d) => d,
        Err(e) => {
            return Err(CommandError::Protocol(e));
        },
    };
    let ghost dv = items_view(data@);
    if data.len() <= 3 {
        return Err(CommandError::MissingImageData);
    }
    let b64: &str = match &data[3] {
        Json::Str(s) => s.as_str(),
        _ => {
            return Err(CommandError::MissingImageData);
        },
    };
    assert(b64@ == image_data(dv));
    if base64_mode {
        return Ok(JpgOutcome::Print(Json::Str(String::from_str(b64))));
    }
    assert(b64.spec_bytes() == encode_utf8(image_data(dv)));
    match decode_image(b64) {
        Ok(jpeg) => Ok(save_plan(&data, output_path, output_folder, auto_name, jpeg)),
        Err(e) => Err(e),
    }
}

} // verus!
