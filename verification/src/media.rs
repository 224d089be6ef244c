//! Media profiles, the requests that ask for their stream addresses, and
//! the records that come of the answers.

use crate::text::{append_numeral, numeral};
use vstd::prelude::*;
use vstd::string::StringExecFns;

verus! {

/// How a profile's video is encoded, as far as it is reported.
#[derive(Clone, Copy, Debug, PartialEq, Eq, Structural)]
pub struct VideoEncoder {
    pub width: i32,
    pub height: i32,
    /// The limit on frames per second, where the device controls the rate.
    pub frame_rate_limit: Option<i32>,
}

/// A media profile as the device lists it.
#[derive(Debug, PartialEq, Eq)]
pub struct MediaProfile {
    /// The token by which the device knows the profile.
    pub token: String,
    /// The name under which the profile is shown.
    pub name: String,
    /// The video encoder configuration, where the profile has one.
    pub video: Option<VideoEncoder>,
}

/// What a `MediaProfile` holds, as text.
pub struct MediaProfileView {
    pub token: Seq<char>,
    pub name: Seq<char>,
    pub video: Option<VideoEncoder>,
}

impl View for MediaProfile {
    type V = MediaProfileView;

    open spec fn view(&self) -> MediaProfileView {
        MediaProfileView { token: self.token@, name: self.name@, video: self.video }
    }
}

impl DeepView for MediaProfile {
    type V = MediaProfileView;

    open spec fn deep_view(&self) -> MediaProfileView {
        self@
    }
}

impl MediaProfile {
    /// The profile `name` with the token `token`.
    pub fn new(token: &str, name: &str, video: Option<VideoEncoder>) -> (r: Self)
        ensures
            r@ == (MediaProfileView { token: token@, name: name@, video }),
    {
        MediaProfile { token: token.to_owned(), name: name.to_owned(), video }
    }
}

/// How a stream is delivered.
#[derive(Clone, Copy, Debug, PartialEq, Eq, Structural)]
pub enum StreamType {
    RtpUnicast,
    RtpMulticast,
}

/// What carries a stream.
#[derive(Clone, Copy, Debug, PartialEq, Eq, Structural)]
pub enum TransportProtocol {
    Udp,
    Tcp,
    Rtsp,
    Http,
}

/// A request for the address at which one profile streams. No request asks
/// for a tunnel.
#[derive(Debug, PartialEq, Eq)]
pub struct StreamUriRequest {
    pub profile_token: String,
    pub stream: StreamType,
    pub protocol: TransportProtocol,
}

/// What a `StreamUriRequest` holds, as text.
pub struct StreamUriRequestView {
    pub profile_token: Seq<char>,
    pub stream: StreamType,
    pub protocol: TransportProtocol,
}

impl View for StreamUriRequest {
    type V = StreamUriRequestView;

    open spec fn view(&self) -> StreamUriRequestView {
        StreamUriRequestView {
            profile_token: self.profile_token@,
            stream: self.stream,
            protocol: self.protocol,
        }
    }
}

impl DeepView for StreamUriRequest {
    type V = StreamUriRequestView;

    open spec fn deep_view(&self) -> StreamUriRequestView {
        self@
    }
}

/// The request for the stream of `profile`: unicast, over RTSP.
pub open spec fn request_for(profile: MediaProfileView) -> StreamUriRequestView {
    StreamUriRequestView {
        profile_token: profile.token,
        stream: StreamType::RtpUnicast,
        protocol: TransportProtocol::Rtsp,
    }
}

/// One request for each profile, in the order of the profiles.
pub fn stream_requests(profiles: &Vec<MediaProfile>) -> (r: Vec<StreamUriRequest>)
    ensures
        r.deep_view() == profiles.deep_view().map_values(|p: MediaProfileView| request_for(p)),
{
    let mut r: Vec<StreamUriRequest> = Vec::new();
    let mut i: usize = 0;
    while i < profiles.len()
        invariant
            i <= profiles.len(),
            r.len() == i,
            forall|k: int| 0 <= k < i ==> r[k]@ == request_for(profiles[k]@),
        decreases profiles.len() - i,
    {
        r.push(
            StreamUriRequest {
                profile_token: profiles[i].token.clone(),
                stream: StreamType::RtpUnicast,
                protocol: TransportProtocol::Rtsp,
            },
        );
        i += 1;
    }
    r
}

/// The record of one profile's stream.
#[derive(Debug, PartialEq, Eq)]
pub struct StreamResult {
    /// The profile's name.
    pub name: String,
    /// The address at which the profile streams.
    pub uri: String,
    /// Width and height, where the profile reports its video encoding.
    pub resolution: Option<(i32, i32)>,
    /// The limit on frames per second, where the profile reports one.
    pub frame_rate: Option<i32>,
}

/// What a `StreamResult` holds, as text.
pub struct StreamResultView {
    pub name: Seq<char>,
    pub uri: Seq<char>,
    pub resolution: Option<(i32, i32)>,
    pub frame_rate: Option<i32>,
}

impl View for StreamResult {
    type V = StreamResultView;

    open spec fn view(&self) -> StreamResultView {
        StreamResultView {
            name: self.name@,
            uri: self.uri@,
            resolution: self.resolution,
            frame_rate: self.frame_rate,
        }
    }
}

impl DeepView for StreamResult {
    type V = StreamResultView;

    open spec fn deep_view(&self) -> StreamResultView {
        self@
    }
}

/// The record of `profile`, which streams at `uri`.
pub open spec fn result_of(profile: MediaProfileView, uri: Seq<char>) -> StreamResultView {
    StreamResultView {
        name: profile.name,
        uri,
        resolution: match profile.video {
            Some(video) => Some((video.width, video.height)),
            None => None,
        },
        frame_rate: match profile.video {
            Some(video) => video.frame_rate_limit,
            None => None,
        },
    }
}

/// The records of `profiles`, each with the address at the same place of
/// `uris`, in the order of the profiles. Where one list is longer, what
/// has no partner is left out.
pub open spec fn paired_results(profiles: Seq<MediaProfileView>, uris: Seq<Seq<char>>) -> Seq<
    StreamResultView,
> {
    Seq::new(
        if profiles.len() <= uris.len() {
            profiles.len()
        } else {
            uris.len()
        },
        |i: int| result_of(profiles[i], uris[i]),
    )
}

/// Pairs each profile with the address at the same place of `uris`.
pub fn pair_results(profiles: &Vec<MediaProfile>, uris: &Vec<String>) -> (r: Vec<StreamResult>)
    ensures
        r.deep_view() == paired_results(profiles.deep_view(), uris.deep_view()),
{
    let n = if profiles.len() <= uris.len() {
        profiles.len()
    } else {
        uris.len()
    };
    let mut r: Vec<StreamResult> = Vec::new();
    let mut i: usize = 0;
    while i < n
        invariant
            i <= n,
            n <= profiles.len(),
            n <= uris.len(),
            r.len() == i,
            forall|k: int| 0 <= k < i ==> r[k]@ == result_of(profiles[k]@, uris[k]@),
        decreases n - i,
    {
        let profile = &profiles[i];
        let resolution = match profile.video {
            Some(video) => Some((video.width, video.height)),
            None => None,
        };
        let frame_rate = match profile.video {
            Some(video) => video.frame_rate_limit,
            None => None,
        };
        r.push(
            StreamResult {
                name: profile.name.clone(),
                uri: uris[i].clone(),
                resolution,
                frame_rate,
            },
        );
        i += 1;
    }
    r
}

/// The line that reports a record: the profile's name, the stream's
/// address, then the resolution and the frame rate where there are any,
/// with a tab between each two.
pub open spec fn line_of(result: StreamResultView) -> Seq<char> {
    "stream name="@ + result.name + "\t"@ + result.uri + (match result.resolution {
        Some((width, height)) => "\t"@ + numeral(width as int) + "x"@ + numeral(height as int),
        None => Seq::empty(),
    }) + (match result.frame_rate {
        Some(rate) => "\t"@ + numeral(rate as int),
        None => Seq::empty(),
    })
}

impl StreamResult {
    /// The line that reports this record, without a line end.
    pub fn line(&self) -> (r: String)
        ensures
            r@ == line_of(self@),
    {
        let mut r = String::from_str("stream name=").concat(self.name.as_str()).concat(
            "\t",
        ).concat(self.uri.as_str());
        if let Some((width, height)) = self.resolution {
            r.append("\t");
            append_numeral(&mut r, width);
            r.append("x");
            append_numeral(&mut r, height);
        }
        if let Some(rate) = self.frame_rate {
            r.append("\t");
            append_numeral(&mut r, rate);
        }
        r
    }
}

/// Why an exchange with a device failed.
#[derive(Debug, PartialEq, Eq)]
pub enum TransportError {
    /// The device refused the credentials.
    Authentication(String),
    /// The device was not reached, or did not answer in time.
    Connectivity(String),
    /// The device answered what could not be understood.
    MalformedResponse(String),
}

/// What a `TransportError` holds, as text.
pub enum TransportErrorView {
    Authentication(Seq<char>),
    Connectivity(Seq<char>),
    MalformedResponse(Seq<char>),
}

impl View for TransportError {
    type V = TransportErrorView;

    open spec fn view(&self) -> TransportErrorView {
        match self {
            TransportError::Authentication(detail) => TransportErrorView::Authentication(detail@),
            TransportError::Connectivity(detail) => TransportErrorView::Connectivity(detail@),
            TransportError::MalformedResponse(detail) => TransportErrorView::MalformedResponse(
                detail@,
            ),
        }
    }
}

/// Why the streams of a device could not be listed.
#[derive(Debug, PartialEq, Eq)]
pub enum StreamError {
    /// The session has no media service: the device offers none.
    MediaUnavailable,
    /// An exchange with the media service failed.
    Transport(TransportError),
}

/// What a `StreamError` holds, as text.
pub enum StreamErrorView {
    MediaUnavailable,
    Transport(TransportErrorView),
}

impl View for StreamError {
    type V = StreamErrorView;

    open spec fn view(&self) -> StreamErrorView {
        match self {
            StreamError::MediaUnavailable => StreamErrorView::MediaUnavailable,
            StreamError::Transport(error) => StreamErrorView::Transport(error@),
        }
    }
}

/// What a transport error says of itself.
pub open spec fn detail_of(error: TransportErrorView) -> Seq<char> {
    match error {
        TransportErrorView::Authentication(detail) => detail,
        TransportErrorView::Connectivity(detail) => detail,
        TransportErrorView::MalformedResponse(detail) => detail,
    }
}

/// The words in which a stream error is reported.
pub open spec fn stream_message_of(error: StreamErrorView) -> Seq<char> {
    match error {
        StreamErrorView::MediaUnavailable => "Client media is not available"@,
        StreamErrorView::Transport(error) => detail_of(error),
    }
}

impl TransportError {
    /// What this error says of itself.
    pub fn detail(&self) -> (r: &String)
        ensures
            r@ == detail_of(self@),
    {
        match self {
            TransportError::Authentication(detail) => detail,
            TransportError::Connectivity(detail) => detail,
            TransportError::MalformedResponse(detail) => detail,
        }
    }
}

impl StreamError {
    /// The words in which this error is reported.
    pub fn message(&self) -> (r: String)
        ensures
            r@ == stream_message_of(self@),
    {
        match self {
            StreamError::MediaUnavailable => String::from_str("Client media is not available"),
            StreamError::Transport(error) => error.detail().clone(),
        }
    }
}

} // verus!
