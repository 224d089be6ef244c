//! Sessions: the services of one device that one credential attempt is
//! bound to, and what is asked of them.

use crate::address::{device_service_address, device_service_path, read_url, url_reading};
use crate::credentials::{credentials_of, pair_credentials, paired, Credentials, CredentialsView};
use crate::directory::{
    directory, lemma_directory_refused, lemma_first_refused, resolve, verdict, ServiceDescriptor,
    ServiceView, SessionError, SessionErrorView,
};
use crate::media::{
    pair_results, paired_results, result_of, MediaProfile, MediaProfileView, StreamError,
    StreamErrorView, StreamResult, StreamResultView, TransportError, TransportErrorView,
};
use vstd::prelude::*;

verus! {

/// Where a service is reached, and as whom.
#[derive(Debug, PartialEq, Eq)]
pub struct Endpoint {
    /// The address of the service.
    pub address: String,
    /// The credentials to present, or none for no authentication.
    pub credentials: Option<Credentials>,
}

/// What an `Endpoint` holds, as text.
pub struct EndpointView {
    pub address: Seq<char>,
    pub credentials: Option<CredentialsView>,
}

impl View for Endpoint {
    type V = EndpointView;

    open spec fn view(&self) -> EndpointView {
        EndpointView { address: self.address@, credentials: self.credentials.deep_view() }
    }
}

impl DeepView for Endpoint {
    type V = EndpointView;

    open spec fn deep_view(&self) -> EndpointView {
        self@
    }
}

/// The services of one device that a session is bound to: the management
/// service, and the media service where the device offers one.
#[derive(Debug, PartialEq, Eq)]
pub struct Clients {
    devicemgmt: Endpoint,
    media: Option<Endpoint>,
}

/// What a `Clients` value holds, as text.
pub struct ClientsView {
    pub devicemgmt: EndpointView,
    pub media: Option<EndpointView>,
}

impl View for Clients {
    type V = ClientsView;

    closed spec fn view(&self) -> ClientsView {
        ClientsView { devicemgmt: self.devicemgmt@, media: self.media.deep_view() }
    }
}

/// The text of either side of `r`.
pub open spec fn endpoint_result_view(r: Result<Endpoint, SessionError>) -> Result<
    EndpointView,
    SessionErrorView,
> {
    match r {
        Ok(endpoint) => Ok(endpoint@),
        Err(error) => Err(error@),
    }
}

/// The text of either side of `r`.
pub open spec fn clients_result_view(r: Result<Clients, SessionError>) -> Result<
    ClientsView,
    SessionErrorView,
> {
    match r {
        Ok(clients) => Ok(clients@),
        Err(error) => Err(error@),
    }
}

/// Where the management service of the device at `base` is asked, and as
/// whom: at the URL that the device service path below `base` reads as.
pub open spec fn management_of(base: Seq<char>, credentials: Option<CredentialsView>) -> Result<
    EndpointView,
    SessionErrorView,
> {
    match url_reading(base + device_service_path()) {
        Ok(address) => Ok(EndpointView { address, credentials }),
        Err(reason) => Err(SessionErrorView::MalformedAddress(reason)),
    }
}

/// The session that comes of one credential attempt against the device at
/// `base`, which lists `services`: bound to the management service, and to
/// what the listing binds for media, all with the same credentials; or the
/// reason why there is none.
pub open spec fn session(
    base: Seq<char>,
    credentials: Option<CredentialsView>,
    services: Seq<ServiceView>,
) -> Result<ClientsView, SessionErrorView> {
    match management_of(base, credentials) {
        Err(error) => Err(error),
        Ok(devicemgmt) => match directory(base, devicemgmt.address, services) {
            Err(error) => Err(error),
            Ok(found) => Ok(
                ClientsView {
                    devicemgmt,
                    media: match found.media {
                        Some(address) => Some(EndpointView { address, credentials }),
                        None => None,
                    },
                },
            ),
        },
    }
}

/// The management endpoint that follows from how its address read as a
/// URL.
pub fn management_from(reading: Result<String, String>, credentials: Option<Credentials>) -> (r:
    Result<Endpoint, SessionError>)
    ensures
        endpoint_result_view(r) == match reading {
            Ok(address) => Ok::<EndpointView, SessionErrorView>(
                EndpointView { address: address@, credentials: credentials.deep_view() },
            ),
            Err(reason) => Err(SessionErrorView::MalformedAddress(reason@)),
        },
{
    match reading {
        Ok(address) => Ok(Endpoint { address, credentials }),
        Err(reason) => Err(SessionError::MalformedAddress(reason)),
    }
}

impl Clients {
    /// Where to ask the device at `uri` for the list of its services, and
    /// as whom. A username without a password, or a password without a
    /// username, is a mistake of the caller.
    pub fn management_endpoint(uri: &str, username: Option<&str>, password: Option<&str>) -> (r:
        Result<Endpoint, SessionError>)
        requires
            paired(username, password),
        ensures
            endpoint_result_view(r) == management_of(uri@, credentials_of(username, password)),
    {
        let credentials = pair_credentials(username, password);
        let address = device_service_address(uri);
        management_from(read_url(address.as_str()), credentials)
    }

    /// Binds a session to the device at `uri` from `services`, the list of
    /// its services that the device gave when asked at its management
    /// endpoint. A username without a password, or a password without a
    /// username, is a mistake of the caller.
    pub fn new(
        uri: &str,
        username: Option<&str>,
        password: Option<&str>,
        services: &Vec<ServiceDescriptor>,
    ) -> (r: Result<Clients, SessionError>)
        requires
            paired(username, password),
        ensures
            clients_result_view(r) == session(
                uri@,
                credentials_of(username, password),
                services.deep_view(),
            ),
    {
        let devicemgmt = match Clients::management_endpoint(uri, username, password) {
            Ok(endpoint) => endpoint,
            Err(error) => {
                return Err(error);
            },
        };
        let found = match resolve(uri, devicemgmt.address.as_str(), services) {
            Ok(found) => found,
            Err(error) => {
                return Err(error);
            },
        };
        let media = match found.media {
            Some(address) => Some(
                Endpoint { address, credentials: pair_credentials(username, password) },
            ),
            None => None,
        };
        Ok(Clients { devicemgmt, media })
    }

    /// The management service of the session.
    pub fn devicemgmt(&self) -> (r: &Endpoint)
        ensures
            r@ == self@.devicemgmt,
    {
        &self.devicemgmt
    }

    /// The media service of the session, where the device offers one.
    pub fn media(&self) -> (r: Option<&Endpoint>)
        ensures
            r.deep_view() == self@.media,
    {
        match &self.media {
            Some(endpoint) => Some(endpoint),
            None => None,
        }
    }
}

/// A device that lists a service whose address does not read as a URL that
/// begins with the device's base address gets no session, whatever else it
/// lists and whatever credentials are tried. Where the address does read
/// as a URL, and the rule refuses no earlier service of the listing, that
/// address is the reason given.
pub proof fn lemma_outside_base_refused(
    base: Seq<char>,
    credentials: Option<CredentialsView>,
    services: Seq<ServiceView>,
    i: int,
)
    requires
        0 <= i < services.len(),
        !(url_reading(services[i].x_addr) matches Ok(address) && base.is_prefix_of(address)),
    ensures
        session(base, credentials, services) is Err,
        management_of(base, credentials) matches Ok(devicemgmt) && url_reading(
            services[i].x_addr,
        ) is Ok && (forall|j: int|
            0 <= j < i ==> verdict(base, devicemgmt.address, #[trigger] services[j]) is Ok)
            ==> session(base, credentials, services) == Err::<ClientsView, SessionErrorView>(
            SessionErrorView::OutsideBase { x_addr: services[i].x_addr, base },
        ),
{
    if let Ok(devicemgmt) = management_of(base, credentials) {
        let k = lemma_first_refused(base, devicemgmt.address, services, i);
        lemma_directory_refused(base, devicemgmt.address, services, k);
    }
}

/// The text of either side of `r`.
pub open spec fn batch_view(r: Result<Vec<String>, TransportError>) -> Result<
    Seq<Seq<char>>,
    TransportErrorView,
> {
    match r {
        Ok(uris) => Ok(uris.deep_view()),
        Err(error) => Err(error@),
    }
}

/// The text of either side of `r`.
pub open spec fn streams_view(r: Result<Vec<StreamResult>, StreamError>) -> Result<
    Seq<StreamResultView>,
    StreamErrorView,
> {
    match r {
        Ok(results) => Ok(results.deep_view()),
        Err(error) => Err(error@),
    }
}

/// What listing the streams of a session comes to. A session without a
/// media service has none to list. `batch` is what came of asking, for all
/// of `profiles` at once, where each streams: the addresses in the order of
/// the profiles, or the failure of the whole. A failure leaves no record;
/// else there is one record for each profile, in the order of the profiles.
pub open spec fn enumeration(
    clients: ClientsView,
    profiles: Seq<MediaProfileView>,
    batch: Result<Seq<Seq<char>>, TransportErrorView>,
) -> Result<Seq<StreamResultView>, StreamErrorView> {
    if clients.media is None {
        Err(StreamErrorView::MediaUnavailable)
    } else {
        match batch {
            Err(error) => Err(StreamErrorView::Transport(error)),
            Ok(uris) => Ok(paired_results(profiles, uris)),
        }
    }
}

/// The media service of `clients`, which is the one to ask for profiles
/// and streams, or the reason why nothing can be asked.
pub fn media_endpoint(clients: &Clients) -> (r: Result<&Endpoint, StreamError>)
    ensures
        match r {
            Ok(endpoint) => clients@.media == Some(endpoint@),
            Err(error) => clients@.media is None && error@ == StreamErrorView::MediaUnavailable,
        },
{
    match clients.media() {
        Some(endpoint) => Ok(endpoint),
        None => Err(StreamError::MediaUnavailable),
    }
}

/// Lists the streams of a session, one record for each of `profiles` and
/// in their order, from `batch`, the outcome of asking for all their
/// addresses at once.
pub fn get_stream_uris(
    clients: &Clients,
    profiles: &Vec<MediaProfile>,
    batch: Result<Vec<String>, TransportError>,
) -> (r: Result<Vec<StreamResult>, StreamError>)
    ensures
        streams_view(r) == enumeration(clients@, profiles.deep_view(), batch_view(batch)),
{
    if clients.media().is_none() {
        return Err(StreamError::MediaUnavailable);
    }
    match batch {
        Err(error) => Err(StreamError::Transport(error)),
        Ok(uris) => Ok(pair_results(profiles, &uris)),
    }
}

/// The records of a session's streams stand in the order of the profiles:
/// where every profile got its address, there is one record for each, and
/// the record at a place is that of the profile at the same place, with the
/// address at the same place.
pub proof fn lemma_results_keep_profile_order(
    clients: ClientsView,
    profiles: Seq<MediaProfileView>,
    uris: Seq<Seq<char>>,
)
    requires
        clients.media is Some,
        uris.len() == profiles.len(),
    ensures
        enumeration(clients, profiles, Ok(uris)) is Ok,
        enumeration(clients, profiles, Ok(uris))->Ok_0.len() == profiles.len(),
        forall|i: int|
            0 <= i < profiles.len() ==> {
                let record = #[trigger] enumeration(clients, profiles, Ok(uris))->Ok_0[i];
                &&& record == result_of(profiles[i], uris[i])
                &&& record.name == profiles[i].name
                &&& record.uri == uris[i]
            },
{
}

/// Where the asking for addresses failed, for whichever profile, the
/// session's streams are not listed at all: there is a failure and no
/// record.
pub proof fn lemma_failed_batch_leaves_no_record(
    clients: ClientsView,
    profiles: Seq<MediaProfileView>,
    error: TransportErrorView,
)
    ensures
        enumeration(clients, profiles, Err(error)) is Err,
        clients.media is Some ==> enumeration(clients, profiles, Err(error)) == Err::<
            Seq<StreamResultView>,
            StreamErrorView,
        >(StreamErrorView::Transport(error)),
{
}

} // verus!
