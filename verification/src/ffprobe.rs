//! Media file inspection: what ffprobe says of a file.

use crate::json::{
    decode_u32, decoded_u32, items_view, json_view, parse_json_bytes, parsed_bytes, Json,
    JsonView,
};
use crate::registry::text_view;
use crate::text::{plus, same_text};
use vstd::prelude::*;
use vstd::string::*;

verus! {

/// Metadata extracted from a media file via ffprobe.
#[derive(Debug)]
pub struct MediaInfo {
    /// The duration in seconds as ffprobe writes it, where it does.
    pub duration: Option<String>,
    pub format_name: String,
    pub streams: Vec<StreamInfo>,
}

/// What a [`MediaInfo`] says.
pub struct MediaView {
    pub duration: Option<Seq<char>>,
    pub format_name: Seq<char>,
    pub streams: Seq<StreamView>,
}

impl View for MediaInfo {
    type V = MediaView;

    open spec fn view(&self) -> MediaView {
        MediaView {
            duration: text_view(self.duration),
            format_name: self.format_name@,
            streams: stream_views(self.streams@),
        }
    }
}

/// Per-stream metadata from ffprobe.
#[derive(Debug)]
pub struct StreamInfo {
    pub index: u32,
    pub codec_type: String,
    pub codec_name: String,
    pub width: Option<u32>,
    pub height: Option<u32>,
    pub sample_rate: Option<String>,
    pub channels: Option<u32>,
}

/// What a [`StreamInfo`] says.
pub struct StreamView {
    pub index: u32,
    pub codec_type: Seq<char>,
    pub codec_name: Seq<char>,
    pub width: Option<u32>,
    pub height: Option<u32>,
    pub sample_rate: Option<Seq<char>>,
    pub channels: Option<u32>,
}

impl View for StreamInfo {
    type V = StreamView;

    open spec fn view(&self) -> StreamView {
        StreamView {
            index: self.index,
            codec_type: self.codec_type@,
            codec_name: self.codec_name@,
            width: self.width,
            height: self.height,
            sample_rate: text_view(self.sample_rate),
            channels: self.channels,
        }
    }
}

pub open spec fn stream_views(streams: Seq<StreamInfo>) -> Seq<StreamView> {
    streams.map_values(|s: StreamInfo| s@)
}

/// The arguments with which ffprobe describes a file.
pub fn probe_args() -> (r: Vec<&'static str>)
    ensures
        r@.len() == 6,
        r@[0]@ == "-v"@,
        r@[1]@ == "quiet"@,
        r@[2]@ == "-print_format"@,
        r@[3]@ == "json"@,
        r@[4]@ == "-show_format"@,
        r@[5]@ == "-show_streams"@,
{
    vec!["-v", "quiet", "-print_format", "json", "-show_format", "-show_streams"]
}

/// An optional number of 32 bits: absent and `Null` are none, and anything else
/// but such a number is an error.
pub open spec fn optional_u32(v: JsonView) -> Option<Option<u32>> {
    match v {
        JsonView::Null => Some(None),
        _ => match decoded_u32(v) {
            Some(n) => Some(Some(n)),
            None => None,
        },
    }
}

/// An optional text: absent and `Null` are none, and anything else but a text
/// is an error.
pub open spec fn optional_text(v: JsonView) -> Option<Option<Seq<char>>> {
    match v {
        JsonView::Null => Some(None),
        JsonView::Text(s) => Some(Some(s)),
        _ => None,
    }
}

fn read_u32(v: &Json) -> (r: Option<Option<u32>>)
    ensures
        r == optional_u32(v@),
{
    match v {
        Json::Null => Some(None),
        _ => match decode_u32(v) {
            Some(n) => Some(Some(n)),
            None => None,
        },
    }
}

fn read_text(v: &Json) -> (r: Option<Option<String>>)
    ensures
        match r {
            Some(s) => optional_text(v@) == Some(text_view(s)),
            None => optional_text(v@) is None,
        },
{
    match v {
        Json::Null => Some(None),
        Json::Text(s) => Some(Some(s.clone())),
        _ => None,
    }
}

/// The item at that place, `Null` behind the end.
pub open spec fn item_at(items: Seq<JsonView>, i: int) -> JsonView {
    if 0 <= i < items.len() {
        items[i]
    } else {
        JsonView::Null
    }
}

pub open spec fn stream_of(
    index: JsonView,
    codec_type: JsonView,
    codec_name: JsonView,
    width: JsonView,
    height: JsonView,
    sample_rate: JsonView,
    channels: JsonView,
) -> Option<StreamView> {
    match (
        decoded_u32(index),
        codec_type,
        codec_name,
        optional_u32(width),
        optional_u32(height),
        optional_text(sample_rate),
        optional_u32(channels),
    ) {
        (
            Some(index),
            JsonView::Text(codec_type),
            JsonView::Text(codec_name),
            Some(width),
            Some(height),
            Some(sample_rate),
            Some(channels),
        ) => Some(
            StreamView { index, codec_type, codec_name, width, height, sample_rate, channels },
        ),
        _ => None,
    }
}

/// A stream read from JSON: an object, or an array of the values in order. The
/// first three are needed; there are no more than seven.
pub open spec fn decoded_stream(v: JsonView) -> Option<StreamView> {
    match v {
        JsonView::Object(_) => stream_of(
            v.at("index"@),
            v.at("codec_type"@),
            v.at("codec_name"@),
            v.at("width"@),
            v.at("height"@),
            v.at("sample_rate"@),
            v.at("channels"@),
        ),
        JsonView::Array(items) => if items.len() <= 7 {
            stream_of(
                item_at(items, 0),
                item_at(items, 1),
                item_at(items, 2),
                item_at(items, 3),
                item_at(items, 4),
                item_at(items, 5),
                item_at(items, 6),
            )
        } else {
            None
        },
        _ => None,
    }
}

fn make_stream(
    index: &Json,
    codec_type: &Json,
    codec_name: &Json,
    width: &Json,
    height: &Json,
    sample_rate: &Json,
    channels: &Json,
) -> (r: Option<StreamInfo>)
    ensures
        ({
            let goal = stream_of(
                index@,
                codec_type@,
                codec_name@,
                width@,
                height@,
                sample_rate@,
                channels@,
            );
            match r {
                Some(s) => goal == Some(s@),
                None => goal is None,
            }
        }),
{
    match (
        decode_u32(index),
        codec_type,
        codec_name,
        read_u32(width),
        read_u32(height),
        read_text(sample_rate),
        read_u32(channels),
    ) {
        (
            Some(index),
            Json::Text(codec_type),
            Json::Text(codec_name),
            Some(width),
            Some(height),
            Some(sample_rate),
            Some(channels),
        ) => Some(
            StreamInfo {
                index,
                codec_type: codec_type.clone(),
                codec_name: codec_name.clone(),
                width,
                height,
                sample_rate,
                channels,
            },
        ),
        _ => None,
    }
}

fn member_at<'a>(v: &'a Json, name: &str, nothing: &'a Json) -> (r: &'a Json)
    requires
        nothing@ == JsonView::Null,
    ensures
        r@ == v@.at(name@),
{
    match v.get(name) {
        Some(m) => m,
        None => nothing,
    }
}

fn item<'a>(items: &'a Vec<Json>, i: usize, nothing: &'a Json) -> (r: &'a Json)
    requires
        nothing@ == JsonView::Null,
    ensures
        r@ == item_at(items_view(items@), i as int),
{
    assert(items_view(items@).len() == items@.len());
    if i < items.len() {
        &items[i]
    } else {
        nothing
    }
}

fn decode_stream(v: &Json) -> (r: Option<StreamInfo>)
    ensures
        match r {
            Some(s) => decoded_stream(v@) == Some(s@),
            None => decoded_stream(v@) is None,
        },
{
    let nothing = Json::Null;
    match v {
        Json::Object(_) => make_stream(
            member_at(v, "index", &nothing),
            member_at(v, "codec_type", &nothing),
            member_at(v, "codec_name", &nothing),
            member_at(v, "width", &nothing),
            member_at(v, "height", &nothing),
            member_at(v, "sample_rate", &nothing),
            member_at(v, "channels", &nothing),
        ),
        Json::Array(items) => {
            assert(items_view(items@).len() == items@.len());
            if items.len() <= 7 {
                make_stream(
                    item(items, 0, &nothing),
                    item(items, 1, &nothing),
                    item(items, 2, &nothing),
                    item(items, 3, &nothing),
                    item(items, 4, &nothing),
                    item(items, 5, &nothing),
                    item(items, 6, &nothing),
                )
            } else {
                None
            }
        },
        _ => None,
    }
}

/// Whether every item can be read as a stream.
pub open spec fn all_streams(items: Seq<JsonView>) -> bool {
    forall|i: int| 0 <= i < items.len() ==> decoded_stream(#[trigger] items[i]) is Some
}

/// The streams read from JSON; none, where one of them cannot be read.
pub open spec fn decoded_streams(v: JsonView) -> Seq<StreamView> {
    match v {
        JsonView::Array(items) => if all_streams(items) {
            Seq::new(items.len(), |i: int| decoded_stream(items[i])->0)
        } else {
            Seq::empty()
        },
        _ => Seq::empty(),
    }
}

fn decode_streams(v: &Json) -> (r: Vec<StreamInfo>)
    ensures
        stream_views(r@) == decoded_streams(v@),
{
    let mut r: Vec<StreamInfo> = Vec::new();
    match v {
        Json::Array(items) => {
            let ghost all = items_view(items@);
            let mut i: usize = 0;
            while i < items.len()
                invariant
                    i <= items@.len(),
                    v@ == JsonView::Array(all),
                    all == items_view(items@),
                    r@.len() == i,
                    forall|j: int|
                        0 <= j < i ==> decoded_stream(#[trigger] all[j]) == Some(r@[j]@),
                decreases items.len() - i,
            {
                assert(all[i as int] == items@[i as int]@);
                match decode_stream(&items[i]) {
                    Some(s) => {
                        r.push(s);
                    },
                    None => {
                        assert(!all_streams(all));
                        let none: Vec<StreamInfo> = Vec::new();
                        assert(stream_views(none@) =~= Seq::empty());
                        return none;
                    },
                }
                i += 1;
            }
            assert(stream_views(r@) =~= Seq::new(all.len(), |j: int| decoded_stream(all[j])->0));
        },
        _ => {
            assert(stream_views(r@) =~= Seq::empty());
        },
    }
    r
}

/// What the JSON that ffprobe prints says of a file.
pub open spec fn described_media(json: JsonView) -> MediaView {
    MediaView {
        duration: json.at("format"@).at("duration"@).as_text(),
        format_name: json.at("format"@).at("format_name"@).text_or("unknown"@),
        streams: decoded_streams(json.at("streams"@)),
    }
}

/// Read what the JSON that ffprobe prints says of a file.
pub fn media_from_json(json: &Json) -> (r: MediaInfo)
    ensures
        r@ == described_media(json@),
{
    let nothing = Json::Null;
    let format = member_at(json, "format", &nothing);
    let duration = match format.get("duration") {
        Some(d) => match d.as_text() {
            Some(s) => Some(s.to_string()),
            None => None,
        },
        None => None,
    };
    MediaInfo {
        duration,
        format_name: format.text_at("format_name", "unknown").to_string(),
        streams: decode_streams(member_at(json, "streams", &nothing)),
    }
}

/// What came of running ffprobe.
#[derive(Debug)]
pub enum Probing {
    /// There is no such file.
    Missing,
    /// ffprobe could not be run.
    NotRun,
    /// ffprobe has failed, with these words.
    Failed(String),
    /// ffprobe has printed this.
    Printed(Vec<u8>),
}

/// Why a probe of a file failed, if it did; the value is what was read of what
/// ffprobe has printed.
pub open spec fn probe_fault(
    path: Seq<char>,
    probing: Probing,
    read: Option<JsonView>,
) -> Option<Seq<char>> {
    match probing {
        Probing::Missing => Some("file not found: "@ + path),
        Probing::NotRun => Some("failed to run ffprobe on "@ + path),
        Probing::Failed(words) => Some("ffprobe failed: "@ + words@),
        Probing::Printed(_) => if read is Some {
            None
        } else {
            Some("failed to parse ffprobe JSON output"@)
        },
    }
}

/// What was read of what ffprobe has printed.
pub open spec fn read_of(probing: Probing) -> Option<JsonView> {
    match probing {
        Probing::Printed(bytes) => parsed_bytes(bytes@),
        _ => None,
    }
}

/// Make the metadata from what came of a probe, given what was read of what
/// ffprobe has printed.
pub fn media_from_probe(path: &str, probing: &Probing, read: &Option<Json>) -> (r: Result<
    MediaInfo,
    String,
>)
    ensures
        match r {
            Ok(info) => probe_fault(path@, *probing, json_view(*read)) is None && info@
                == described_media(json_view(*read)->0),
            Err(e) => probe_fault(path@, *probing, json_view(*read)) == Some(e@),
        },
{
    match probing {
        Probing::Missing => Err(plus("file not found: ".to_string(), path)),
        Probing::NotRun => Err(plus("failed to run ffprobe on ".to_string(), path)),
        Probing::Failed(words) => Err(plus("ffprobe failed: ".to_string(), words.as_str())),
        Probing::Printed(_) => match read {
            Some(json) => Ok(media_from_json(json)),
            None => Err("failed to parse ffprobe JSON output".to_string()),
        },
    }
}

/// Probe a media file: structured metadata from what came of running ffprobe.
pub fn probe(path: &str, probing: &Probing) -> (r: Result<MediaInfo, String>)
    ensures
        match r {
            Ok(info) => probe_fault(path@, *probing, read_of(*probing)) is None && info@
                == described_media(read_of(*probing)->0),
            Err(e) => probe_fault(path@, *probing, read_of(*probing)) == Some(e@),
        },
{
    let read = match probing {
        Probing::Printed(bytes) => parse_json_bytes(bytes.as_slice()),
        _ => None,
    };
    media_from_probe(path, probing, &read)
}

/// Whether one of the streams is of that type.
pub open spec fn has_stream(streams: Seq<StreamView>, codec_type: Seq<char>) -> bool {
    exists|i: int| 0 <= i < streams.len() && (#[trigger] streams[i]).codec_type == codec_type
}

fn any_stream(info: &MediaInfo, codec_type: &str) -> (r: bool)
    ensures
        r == has_stream(info@.streams, codec_type@),
{
    let mut i: usize = 0;
    while i < info.streams.len()
        invariant
            i <= info.streams@.len(),
            forall|j: int| 0 <= j < i ==> (#[trigger] info@.streams[j]).codec_type != codec_type@,
        decreases info.streams.len() - i,
    {
        assert(info@.streams[i as int] == info.streams@[i as int]@);
        if same_text(info.streams[i].codec_type.as_str(), codec_type) {
            return true;
        }
        i += 1;
    }
    false
}

/// Check if a file has an audio stream.
pub fn has_audio(info: &MediaInfo) -> (r: bool)
    ensures
        r == has_stream(info@.streams, "audio"@),
{
    any_stream(info, "audio")
}

/// Check if a file has a video stream.
pub fn has_video(info: &MediaInfo) -> (r: bool)
    ensures
        r == has_stream(info@.streams, "video"@),
{
    any_stream(info, "video")
}

/// A stream as JSON.
pub open spec fn stream_json(s: StreamView) -> JsonView {
    JsonView::Object(
        map![
            "index"@ => JsonView::Unsigned(s.index as u64),
            "codec_type"@ => JsonView::Text(s.codec_type),
            "codec_name"@ => JsonView::Text(s.codec_name),
            "width"@ => u32_json(s.width),
            "height"@ => u32_json(s.height),
            "sample_rate"@ => match s.sample_rate {
                Some(rate) => JsonView::Text(rate),
                None => JsonView::Null,
            },
            "channels"@ => u32_json(s.channels),
        ],
    )
}

pub open spec fn u32_json(n: Option<u32>) -> JsonView {
    match n {
        Some(n) => JsonView::Unsigned(n as u64),
        None => JsonView::Null,
    }
}

fn write_u32(n: Option<u32>) -> (r: Json)
    ensures
        r@ == u32_json(n),
{
    match n {
        Some(n) => Json::number(n),
        None => Json::Null,
    }
}

impl StreamInfo {
    /// The stream as JSON.
    pub fn body(&self) -> (r: Json)
        ensures
            r@ == stream_json(self@),
    {
        let rate = match &self.sample_rate {
            Some(rate) => Json::text(rate.as_str()),
            None => Json::Null,
        };
        Json::object().with("index", Json::number(self.index)).with(
            "codec_type",
            Json::text(self.codec_type.as_str()),
        ).with("codec_name", Json::text(self.codec_name.as_str())).with(
            "width",
            write_u32(self.width),
        ).with("height", write_u32(self.height)).with("sample_rate", rate).with(
            "channels",
            write_u32(self.channels),
        )
    }
}

/// The metadata of a file as JSON, with the duration as a number.
pub open spec fn media_json(info: MediaView, duration: JsonView) -> JsonView {
    JsonView::Object(
        map![
            "duration_seconds"@ => duration,
            "format_name"@ => JsonView::Text(info.format_name),
            "streams"@ => JsonView::Array(info.streams.map_values(|s: StreamView| stream_json(s))),
        ],
    )
}

impl MediaInfo {
    /// The metadata as JSON, with the duration as a number.
    pub fn body(&self, duration: Json) -> (r: Json)
        ensures
            r@ == media_json(self@, duration@),
    {
        let mut items: Vec<Json> = Vec::new();
        let mut i: usize = 0;
        while i < self.streams.len()
            invariant
                i <= self.streams@.len(),
                items@.len() == i,
                forall|j: int|
                    0 <= j < i ==> (#[trigger] items@[j])@ == stream_json(self.streams@[j]@),
            decreases self.streams.len() - i,
        {
            items.push(self.streams[i].body());
            i += 1;
        }
        assert(items_view(items@) =~= self@.streams.map_values(|s: StreamView| stream_json(s)));
        Json::object().with("duration_seconds", duration).with(
            "format_name",
            Json::text(self.format_name.as_str()),
        ).with("streams", Json::array(items))
    }
}

/// What is written of a stream is read back.
pub proof fn law_streams_are_read_back(s: StreamView)
    ensures
        decoded_stream(stream_json(s)) == Some(s),
{
    reveal_strlit("index");
    reveal_strlit("codec_type");
    reveal_strlit("codec_name");
    reveal_strlit("width");
    reveal_strlit("height");
    reveal_strlit("sample_rate");
    reveal_strlit("channels");
    assert("index"@.len() == 5 && "index"@[0] == 'i');
    assert("width"@.len() == 5 && "width"@[0] == 'w');
    assert("height"@.len() == 6);
    assert("channels"@.len() == 8);
    assert("sample_rate"@.len() == 11);
    assert("codec_type"@.len() == 10 && "codec_type"@[6] == 't');
    assert("codec_name"@.len() == 10 && "codec_name"@[6] == 'n');
}

/// What counts of a [`MediaInfo`] is what it holds, field by field.
pub proof fn law_media_are_what_they_hold(media: MediaInfo, i: int)
    ensures
        media.duration matches Some(v) ==> media@.duration == Some(v@),
        media.duration is None ==> media@.duration is None,
        media@.format_name == media.format_name@,
        media@.streams.len() == media.streams@.len(),
        0 <= i < media.streams@.len() ==> media@.streams[i] == media.streams@[i]@,
{
}

/// What counts of a [`StreamInfo`] is what it holds, field by field.
pub proof fn law_streams_are_what_they_hold(stream: StreamInfo)
    ensures
        stream@.index == stream.index,
        stream@.codec_type == stream.codec_type@,
        stream@.codec_name == stream.codec_name@,
        stream@.width == stream.width,
        stream@.height == stream.height,
        stream.sample_rate matches Some(v) ==> stream@.sample_rate == Some(v@),
        stream.sample_rate is None ==> stream@.sample_rate is None,
        stream@.channels == stream.channels,
{
}

/// A file has a stream of a type exactly where one of its streams is of it.
pub proof fn law_streams_are_found_by_type(streams: Seq<StreamView>, codec_type: Seq<char>)
    ensures
        !has_stream(streams, codec_type) <==> forall|i: int|
            0 <= i < streams.len() ==> (#[trigger] streams[i]).codec_type != codec_type,
{
}

/// A list of streams that was written is read back whole and in order, and one
/// that holds something else is not read at all.
pub proof fn law_lists_of_streams_are_read_back(
    streams: Seq<StreamView>,
    items: Seq<JsonView>,
    i: int,
)
    ensures
        decoded_streams(JsonView::Array(streams.map_values(|s: StreamView| stream_json(s))))
            == streams,
        0 <= i < items.len() && decoded_stream(items[i]) is None ==> decoded_streams(
            JsonView::Array(items),
        ).len() == 0,
{
    let written = streams.map_values(|s: StreamView| stream_json(s));
    assert forall|k: int| 0 <= k < written.len() implies decoded_stream(#[trigger] written[k])
        == Some(streams[k]) by {
        law_streams_are_read_back(streams[k]);
    }
    assert(all_streams(written));
    assert(decoded_streams(JsonView::Array(written)) =~= streams);
}

/// A stream that is described by an object has what stands under each name, and
/// one that is described by an array has the same in its order.
pub proof fn law_streams_have_what_is_described(
    m: Map<Seq<char>, JsonView>,
    index: u32,
    codec_type: Seq<char>,
    codec_name: Seq<char>,
    width: u32,
    height: u32,
    sample_rate: Seq<char>,
    channels: u32,
)
    ensures
        ({
            let s = StreamView {
                index,
                codec_type,
                codec_name,
                width: Some(width),
                height: Some(height),
                sample_rate: Some(sample_rate),
                channels: Some(channels),
            };
            let few = StreamView {
                width: None,
                height: None,
                sample_rate: None,
                channels: None,
                ..s
            };
            let needed = m.contains_key("index"@) && m["index"@] == JsonView::Unsigned(index as u64)
                && m.contains_key("codec_type"@) && m["codec_type"@] == JsonView::Text(codec_type)
                && m.contains_key("codec_name"@) && m["codec_name"@] == JsonView::Text(codec_name);
            &&& needed && m.contains_key("width"@) && m["width"@] == JsonView::Unsigned(
                width as u64,
            ) && m.contains_key("height"@) && m["height"@] == JsonView::Unsigned(height as u64)
                && m.contains_key("sample_rate"@) && m["sample_rate"@] == JsonView::Text(
                sample_rate,
            ) && m.contains_key("channels"@) && m["channels"@] == JsonView::Unsigned(
                channels as u64,
            ) ==> decoded_stream(JsonView::Object(m)) == Some(s)
            &&& needed && !m.contains_key("width"@) && !m.contains_key("height"@)
                && !m.contains_key("sample_rate"@) && !m.contains_key("channels"@)
                ==> decoded_stream(JsonView::Object(m)) == Some(few)
            &&& !m.contains_key("index"@) || !m.contains_key("codec_type"@) || !m.contains_key(
                "codec_name"@,
            ) ==> decoded_stream(JsonView::Object(m)) is None
            &&& decoded_stream(
                JsonView::Array(
                    seq![
                        JsonView::Unsigned(index as u64),
                        JsonView::Text(codec_type),
                        JsonView::Text(codec_name),
                        JsonView::Unsigned(width as u64),
                        JsonView::Unsigned(height as u64),
                        JsonView::Text(sample_rate),
                        JsonView::Unsigned(channels as u64),
                    ],
                ),
            ) == Some(s)
        }),
{
}

/// What ffprobe prints of a file is what is known of it: its duration and its
/// format where they stand under `format`, and its streams.
pub proof fn law_media_are_as_described(
    json: Map<Seq<char>, JsonView>,
    format: Map<Seq<char>, JsonView>,
    duration: Seq<char>,
    format_name: Seq<char>,
)
    ensures
        ({
            let media = described_media(JsonView::Object(json));
            let known = json.contains_key("format"@) && json["format"@] == JsonView::Object(format);
            &&& known && format.contains_key("duration"@) && format["duration"@] == JsonView::Text(
                duration,
            ) ==> media.duration == Some(duration)
            &&& known && format.contains_key("format_name"@) && format["format_name"@]
                == JsonView::Text(format_name) ==> media.format_name == format_name
            &&& known && !format.contains_key("duration"@) ==> media.duration is None
            &&& known && !format.contains_key("format_name"@) ==> media.format_name == "unknown"@
            &&& !json.contains_key("format"@) ==> media.duration is None && media.format_name
                == "unknown"@
            &&& json.contains_key("streams"@) ==> media.streams == decoded_streams(json["streams"@])
            &&& !json.contains_key("streams"@) ==> media.streams.len() == 0
        }),
{
}

/// A probe fails where the file is missing, ffprobe cannot be run or fails, or
/// prints what is no JSON, and says which; it succeeds in no other case.
pub proof fn law_faults_of_probes(
    path: Seq<char>,
    words: String,
    bytes: Vec<u8>,
    read: Option<JsonView>,
)
    ensures
        probe_fault(path, Probing::Missing, read) == Some("file not found: "@ + path),
        probe_fault(path, Probing::NotRun, read) == Some("failed to run ffprobe on "@ + path),
        probe_fault(path, Probing::Failed(words), read) == Some("ffprobe failed: "@ + words@),
        read is None ==> probe_fault(path, Probing::Printed(bytes), read) == Some(
            "failed to parse ffprobe JSON output"@,
        ),
        read is Some ==> probe_fault(path, Probing::Printed(bytes), read) is None,
        read_of(Probing::Printed(bytes)) == parsed_bytes(bytes@),
{
}

/// The metadata of a file as JSON has its duration, its format and all of its
/// streams, in order.
pub proof fn law_media_are_written_whole(info: MediaView, duration: JsonView, i: int)
    ensures
        ({
            let m = media_json(info, duration)->Object_0;
            let streams = m["streams"@]->Array_0;
            &&& media_json(info, duration) is Object
            &&& m["duration_seconds"@] == duration
            &&& m["format_name"@] == JsonView::Text(info.format_name)
            &&& m["streams"@] is Array
            &&& streams.len() == info.streams.len()
            &&& 0 <= i < streams.len() ==> streams[i] == stream_json(info.streams[i])
        }),
{
    reveal_strlit("duration_seconds");
    reveal_strlit("format_name");
    reveal_strlit("streams");
    assert("duration_seconds"@.len() == 16 && "format_name"@.len() == 11 && "streams"@.len() == 7);
}

/// A number or a text that may be missing is read where it is there, is none
/// where it is absent or null, and spoils the whole where it is something else.
pub proof fn law_optional_members(v: JsonView, n: u32, s: Seq<char>)
    ensures
        optional_u32(JsonView::Null) == Some(None::<u32>),
        optional_u32(JsonView::Unsigned(n as u64)) == Some(Some(n)),
        !(v is Null) && !(v is Unsigned && v->Unsigned_0 <= 0xffff_ffff) ==> optional_u32(v)
            is None,
        optional_text(JsonView::Null) == Some(None::<Seq<char>>),
        optional_text(JsonView::Text(s)) == Some(Some(s)),
        !(v is Null) && !(v is Text) ==> optional_text(v) is None,
{
}

} // verus!
