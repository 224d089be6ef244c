//! The service directory: what a device says of its own sub-services, and
//! which of their addresses a session may be bound to.

use crate::address::{read_url, reading_view, url_reading};
use crate::text::{same_text, starts_with};
use vstd::prelude::*;
use vstd::string::StringExecFns;

verus! {

/// One service as the device lists it.
#[derive(Debug, PartialEq, Eq)]
pub struct ServiceDescriptor {
    /// The namespace that says which service this is.
    pub namespace: String,
    /// The address at which the device says the service is reached.
    pub x_addr: String,
}

/// What a `ServiceDescriptor` holds, as text.
pub struct ServiceView {
    pub namespace: Seq<char>,
    pub x_addr: Seq<char>,
}

impl View for ServiceDescriptor {
    type V = ServiceView;

    open spec fn view(&self) -> ServiceView {
        ServiceView { namespace: self.namespace@, x_addr: self.x_addr@ }
    }
}

impl DeepView for ServiceDescriptor {
    type V = ServiceView;

    open spec fn deep_view(&self) -> ServiceView {
        self@
    }
}

impl ServiceDescriptor {
    /// The service of `namespace` at `x_addr`.
    pub fn new(namespace: &str, x_addr: &str) -> (r: Self)
        ensures
            r@ == (ServiceView { namespace: namespace@, x_addr: x_addr@ }),
    {
        ServiceDescriptor { namespace: namespace.to_owned(), x_addr: x_addr.to_owned() }
    }
}

/// The namespace of the management service.
pub open spec fn management_namespace() -> Seq<char> {
    "http://www.onvif.org/ver10/device/wsdl"@
}

/// The namespace of the media service.
pub open spec fn media_namespace() -> Seq<char> {
    "http://www.onvif.org/ver10/media/wsdl"@
}

/// Which service a namespace stands for.
#[derive(Clone, Copy, Debug, PartialEq, Eq, Structural)]
pub enum ServiceKind {
    /// The management service, through which the listing itself was asked.
    Management,
    /// The media service.
    Media,
    /// A service that a session has no use for.
    Other,
}

/// Which service `namespace` stands for.
pub open spec fn kind_of(namespace: Seq<char>) -> ServiceKind {
    if namespace == management_namespace() {
        ServiceKind::Management
    } else if namespace == media_namespace() {
        ServiceKind::Media
    } else {
        ServiceKind::Other
    }
}

/// Which service `namespace` stands for.
pub fn service_kind(namespace: &str) -> (r: ServiceKind)
    ensures
        r == kind_of(namespace@),
{
    if same_text(namespace, "http://www.onvif.org/ver10/device/wsdl") {
        ServiceKind::Management
    } else if same_text(namespace, "http://www.onvif.org/ver10/media/wsdl") {
        ServiceKind::Media
    } else {
        ServiceKind::Other
    }
}

/// Why no session could be bound to a device.
#[derive(Debug, PartialEq, Eq)]
pub enum SessionError {
    /// An address does not read as a URL; the text says why.
    MalformedAddress(String),
    /// The device lists a service at an address that does not lie below
    /// its own base address.
    OutsideBase { x_addr: String, base: String },
    /// The device lists its management service at another address than the
    /// one at which it was asked.
    ManagementMismatch { x_addr: String, expected: String },
}

/// What a `SessionError` holds, as text.
pub enum SessionErrorView {
    MalformedAddress(Seq<char>),
    OutsideBase { x_addr: Seq<char>, base: Seq<char> },
    ManagementMismatch { x_addr: Seq<char>, expected: Seq<char> },
}

impl View for SessionError {
    type V = SessionErrorView;

    open spec fn view(&self) -> SessionErrorView {
        match self {
            SessionError::MalformedAddress(reason) => SessionErrorView::MalformedAddress(reason@),
            SessionError::OutsideBase { x_addr, base } => SessionErrorView::OutsideBase {
                x_addr: x_addr@,
                base: base@,
            },
            SessionError::ManagementMismatch {
                x_addr,
                expected,
            } => SessionErrorView::ManagementMismatch { x_addr: x_addr@, expected: expected@ },
        }
    }
}

/// The words in which a session error is reported.
pub open spec fn message_of(error: SessionErrorView) -> Seq<char> {
    match error {
        SessionErrorView::MalformedAddress(reason) => reason,
        SessionErrorView::OutsideBase { x_addr, base } => "Service URI "@ + x_addr
            + " is not within base URI "@ + base,
        SessionErrorView::ManagementMismatch { x_addr, expected } => "advertised device mgmt uri "@
            + x_addr + " not expected "@ + expected,
    }
}

impl SessionError {
    /// The words in which this error is reported.
    pub fn message(&self) -> (r: String)
        ensures
            r@ == message_of(self@),
    {
        match self {
            SessionError::MalformedAddress(reason) => reason.clone(),
            SessionError::OutsideBase { x_addr, base } => String::from_str("Service URI ").concat(
                x_addr.as_str(),
            ).concat(" is not within base URI ").concat(base.as_str()),
            SessionError::ManagementMismatch { x_addr, expected } => String::from_str(
                "advertised device mgmt uri ",
            ).concat(x_addr.as_str()).concat(" not expected ").concat(expected.as_str()),
        }
    }
}

/// What a listed service means to the session that is being bound.
#[derive(Debug, PartialEq, Eq)]
pub enum Binding {
    /// The management service, where it was expected.
    Management,
    /// The media service, at this address.
    Media(String),
    /// A service that the session has no use for.
    Ignored,
}

/// What a `Binding` holds, as text.
pub enum BindingView {
    Management,
    Media(Seq<char>),
    Ignored,
}

impl View for Binding {
    type V = BindingView;

    open spec fn view(&self) -> BindingView {
        match self {
            Binding::Management => BindingView::Management,
            Binding::Media(address) => BindingView::Media(address@),
            Binding::Ignored => BindingView::Ignored,
        }
    }
}

/// The text of either side of `r`.
pub open spec fn binding_view(r: Result<Binding, SessionError>) -> Result<
    BindingView,
    SessionErrorView,
> {
    match r {
        Ok(binding) => Ok(binding@),
        Err(error) => Err(error@),
    }
}

/// The rule for one listed service, given how its address reads as a URL.
/// An address that does not read is refused. One that reads must lie below
/// `base`: the URL's serialization must begin with it. The management
/// service must be listed, letter for letter, at `management`, the address
/// at which the listing was asked. The media service is bound to its URL.
pub open spec fn judge(
    base: Seq<char>,
    management: Seq<char>,
    service: ServiceView,
    reading: Result<Seq<char>, Seq<char>>,
) -> Result<BindingView, SessionErrorView> {
    match reading {
        Err(reason) => Err(SessionErrorView::MalformedAddress(reason)),
        Ok(address) => if !base.is_prefix_of(address) {
            Err(SessionErrorView::OutsideBase { x_addr: service.x_addr, base })
        } else {
            match kind_of(service.namespace) {
                ServiceKind::Management => if service.x_addr == management {
                    Ok(BindingView::Management)
                } else {
                    Err(
                        SessionErrorView::ManagementMismatch {
                            x_addr: service.x_addr,
                            expected: management,
                        },
                    )
                },
                ServiceKind::Media => Ok(BindingView::Media(address)),
                ServiceKind::Other => Ok(BindingView::Ignored),
            }
        },
    }
}

/// Applies the rule for one listed service: `reading` is how the service's
/// address read as a URL.
pub fn bind_service(
    base: &str,
    management: &str,
    service: &ServiceDescriptor,
    reading: Result<String, String>,
) -> (r: Result<Binding, SessionError>)
    ensures
        binding_view(r) == judge(base@, management@, service@, reading_view(reading)),
{
    match reading {
        Err(reason) => Err(SessionError::MalformedAddress(reason)),
        Ok(address) => {
            if !starts_with(address.as_str(), base) {
                return Err(
                    SessionError::OutsideBase {
                        x_addr: service.x_addr.clone(),
                        base: base.to_owned(),
                    },
                );
            }
            match service_kind(service.namespace.as_str()) {
                ServiceKind::Management => {
                    if same_text(service.x_addr.as_str(), management) {
                        Ok(Binding::Management)
                    } else {
                        Err(
                            SessionError::ManagementMismatch {
                                x_addr: service.x_addr.clone(),
                                expected: management.to_owned(),
                            },
                        )
                    }
                },
                ServiceKind::Media => Ok(Binding::Media(address)),
                ServiceKind::Other => Ok(Binding::Ignored),
            }
        },
    }
}

/// What the rule says of `service`, with its address read as a URL.
pub open spec fn verdict(base: Seq<char>, management: Seq<char>, service: ServiceView) -> Result<
    BindingView,
    SessionErrorView,
> {
    judge(base, management, service, url_reading(service.x_addr))
}

/// The services of a device that a session may use, as they came out of
/// the device's own listing.
#[derive(Debug, PartialEq, Eq)]
pub struct ServiceDirectory {
    /// The address of the management service, at which the listing was
    /// asked.
    pub management: String,
    /// The address of the media service, where the device lists one.
    pub media: Option<String>,
}

/// What a `ServiceDirectory` holds, as text.
pub struct ServiceDirectoryView {
    pub management: Seq<char>,
    pub media: Option<Seq<char>>,
}

impl View for ServiceDirectory {
    type V = ServiceDirectoryView;

    open spec fn view(&self) -> ServiceDirectoryView {
        ServiceDirectoryView { management: self.management@, media: self.media.deep_view() }
    }
}

/// The directory that comes of a listing. The services are taken in the
/// order of the listing, and the first that the rule refuses refuses the
/// whole. If none is refused, the media service is at the last address
/// listed for it, or is absent.
pub open spec fn directory(
    base: Seq<char>,
    management: Seq<char>,
    services: Seq<ServiceView>,
) -> Result<ServiceDirectoryView, SessionErrorView>
    decreases services.len(),
{
    if services.len() == 0 {
        Ok(ServiceDirectoryView { management, media: None })
    } else {
        match directory(base, management, services.drop_last()) {
            Err(error) => Err(error),
            Ok(found) => match verdict(base, management, services.last()) {
                Err(error) => Err(error),
                Ok(BindingView::Media(address)) => Ok(
                    ServiceDirectoryView { management, media: Some(address) },
                ),
                Ok(_) => Ok(found),
            },
        }
    }
}

/// The text of either side of `r`.
pub open spec fn directory_view(r: Result<ServiceDirectory, SessionError>) -> Result<
    ServiceDirectoryView,
    SessionErrorView,
> {
    match r {
        Ok(found) => Ok(found@),
        Err(error) => Err(error@),
    }
}

/// Goes through what a device lists as its services, and makes the
/// directory of those that a session may use, if the listing holds
/// together. `management` is the address at which the listing was asked.
pub fn resolve(base: &str, management: &str, services: &Vec<ServiceDescriptor>) -> (r: Result<
    ServiceDirectory,
    SessionError,
>)
    ensures
        directory_view(r) == directory(base@, management@, services.deep_view()),
{
    let ghost listed = services.deep_view();
    let mut media: Option<String> = None;
    let mut i: usize = 0;
    while i < services.len()
        invariant
            listed == services.deep_view(),
            i <= services.len(),
            directory(base@, management@, listed.take(i as int)) == Ok::<
                ServiceDirectoryView,
                SessionErrorView,
            >(ServiceDirectoryView { management: management@, media: media.deep_view() }),
        decreases services.len() - i,
    {
        let service = &services[i];
        assert(listed.take(i + 1).drop_last() =~= listed.take(i as int));
        match bind_service(base, management, service, read_url(service.x_addr.as_str())) {
            Err(error) => {
                proof {
                    lemma_directory_stays_refused(base@, management@, listed, i + 1);
                }
                return Err(error);
            },
            Ok(Binding::Media(address)) => {
                media = Some(address);
            },
            Ok(_) => {},
        }
        i += 1;
    }
    assert(listed.take(i as int) =~= listed);
    Ok(ServiceDirectory { management: management.to_owned(), media })
}

/// A listing whose beginning is refused is refused, for the same reason.
pub proof fn lemma_directory_stays_refused(
    base: Seq<char>,
    management: Seq<char>,
    services: Seq<ServiceView>,
    n: int,
)
    requires
        0 <= n <= services.len(),
        directory(base, management, services.take(n)) is Err,
    ensures
        directory(base, management, services) == directory(base, management, services.take(n)),
    decreases services.len(),
{
    if n < services.len() {
        assert(services.drop_last().take(n) =~= services.take(n));
        lemma_directory_stays_refused(base, management, services.drop_last(), n);
    } else {
        assert(services.take(n) =~= services);
    }
}

/// The rule refuses the service at place `i` of the listing, and none
/// before it.
pub open spec fn first_refused(
    base: Seq<char>,
    management: Seq<char>,
    services: Seq<ServiceView>,
    i: int,
) -> bool {
    &&& 0 <= i < services.len()
    &&& verdict(base, management, services[i]) is Err
    &&& forall|j: int| 0 <= j < i ==> verdict(base, management, #[trigger] services[j]) is Ok
}

/// The listing gives the media service at place `i`, and at no later place.
pub open spec fn last_media(
    base: Seq<char>,
    management: Seq<char>,
    services: Seq<ServiceView>,
    i: int,
) -> bool {
    &&& 0 <= i < services.len()
    &&& verdict(base, management, services[i]) matches Ok(BindingView::Media(_))
    &&& forall|j: int|
        i < j < services.len() ==> !(verdict(base, management, #[trigger] services[j]) matches Ok(
            BindingView::Media(_),
        ))
}

/// A listing of which the rule refuses no service is not refused. The
/// media service of its directory is the last that it gives, and is absent
/// if it gives none.
pub proof fn lemma_directory_accepted(
    base: Seq<char>,
    management: Seq<char>,
    services: Seq<ServiceView>,
)
    requires
        forall|i: int|
            0 <= i < services.len() ==> verdict(base, management, #[trigger] services[i]) is Ok,
    ensures
        directory(base, management, services) is Ok,
        directory(base, management, services)->Ok_0.management == management,
        match directory(base, management, services)->Ok_0.media {
            Some(address) => exists|i: int|
                #[trigger] last_media(base, management, services, i) && verdict(
                    base,
                    management,
                    services[i],
                ) == Ok::<BindingView, SessionErrorView>(BindingView::Media(address)),
            None => forall|i: int|
                0 <= i < services.len() ==> !(verdict(base, management, #[trigger] services[i])
                    matches Ok(BindingView::Media(_))),
        },
    decreases services.len(),
{
    if services.len() > 0 {
        let rest = services.drop_last();
        let n = services.len() - 1;
        assert forall|i: int| 0 <= i < rest.len() implies verdict(
            base,
            management,
            #[trigger] rest[i],
        ) is Ok by {
            assert(rest[i] == services[i]);
        }
        lemma_directory_accepted(base, management, rest);
        match verdict(base, management, services[n]) {
            Ok(BindingView::Media(address)) => {
                assert(last_media(base, management, services, n));
            },
            _ => {
                match directory(base, management, rest)->Ok_0.media {
                    Some(address) => {
                        let i = choose|i: int|
                            #[trigger] last_media(base, management, rest, i) && verdict(
                                base,
                                management,
                                rest[i],
                            ) == Ok::<BindingView, SessionErrorView>(BindingView::Media(address));
                        assert forall|j: int| i < j < services.len() implies !(verdict(
                            base,
                            management,
                            #[trigger] services[j],
                        ) matches Ok(BindingView::Media(_))) by {
                            if j < n {
                                assert(rest[j] == services[j]);
                            }
                        }
                        assert(last_media(base, management, services, i));
                    },
                    None => {
                        assert forall|i: int| 0 <= i < services.len() implies !(verdict(
                            base,
                            management,
                            #[trigger] services[i],
                        ) matches Ok(BindingView::Media(_))) by {
                            if i < n {
                                assert(rest[i] == services[i]);
                            }
                        }
                    },
                }
            },
        }
    }
}

/// A listing is refused for what the rule says of the first service that
/// it refuses, whatever stands behind that service.
pub proof fn lemma_directory_refused(
    base: Seq<char>,
    management: Seq<char>,
    services: Seq<ServiceView>,
    i: int,
)
    requires
        first_refused(base, management, services, i),
    ensures
        directory(base, management, services) is Err,
        directory(base, management, services)->Err_0 == verdict(
            base,
            management,
            services[i],
        )->Err_0,
{
    let upto = services.take(i + 1);
    let before = upto.drop_last();
    assert forall|j: int| 0 <= j < before.len() implies verdict(
        base,
        management,
        #[trigger] before[j],
    ) is Ok by {
        assert(before[j] == services[j]);
    }
    lemma_directory_accepted(base, management, before);
    lemma_directory_stays_refused(base, management, services, i + 1);
}

/// A listing is refused if and only if the rule refuses one of its
/// services.
pub proof fn lemma_directory_refused_iff(
    base: Seq<char>,
    management: Seq<char>,
    services: Seq<ServiceView>,
)
    ensures
        directory(base, management, services) is Err <==> exists|i: int|
            0 <= i < services.len() && verdict(base, management, #[trigger] services[i]) is Err,
{
    if exists|i: int|
        0 <= i < services.len() && verdict(base, management, #[trigger] services[i]) is Err {
        let i = choose|i: int|
            0 <= i < services.len() && verdict(base, management, #[trigger] services[i]) is Err;
        let k = lemma_first_refused(base, management, services, i);
        lemma_directory_refused(base, management, services, k);
    } else {
        lemma_directory_accepted(base, management, services);
    }
}

/// Where the rule refuses a service, there is a first place at which it
/// does.
pub proof fn lemma_first_refused(
    base: Seq<char>,
    management: Seq<char>,
    services: Seq<ServiceView>,
    i: int,
) -> (k: int)
    requires
        0 <= i < services.len(),
        verdict(base, management, services[i]) is Err,
    ensures
        k <= i,
        first_refused(base, management, services, k),
    decreases i,
{
    if exists|j: int| 0 <= j < i && verdict(base, management, #[trigger] services[j]) is Err {
        let j = choose|j: int|
            0 <= j < i && verdict(base, management, #[trigger] services[j]) is Err;
        lemma_first_refused(base, management, services, j)
    } else {
        i
    }
}

/// What a directory holds is consistent with where the device was found.
/// Every service of the listing that it came of reads as a URL that begins
/// with the base address; the management service is listed nowhere but
/// where the listing was asked; and the media service of the directory is
/// at an address that begins with the base address.
pub proof fn lemma_directory_consistent(
    base: Seq<char>,
    management: Seq<char>,
    services: Seq<ServiceView>,
)
    requires
        directory(base, management, services) is Ok,
    ensures
        forall|i: int|
            0 <= i < services.len() ==> (url_reading(#[trigger] services[i].x_addr) matches Ok(
                address,
            ) && base.is_prefix_of(address)),
        forall|i: int|
            0 <= i < services.len() && kind_of(#[trigger] services[i].namespace)
                == ServiceKind::Management ==> services[i].x_addr == management,
        directory(base, management, services)->Ok_0.management == management,
        directory(base, management, services)->Ok_0.media matches Some(address)
            ==> base.is_prefix_of(address),
{
    lemma_directory_refused_iff(base, management, services);
    assert forall|i: int| 0 <= i < services.len() implies verdict(
        base,
        management,
        #[trigger] services[i],
    ) is Ok by {}
    lemma_directory_accepted(base, management, services);
}

} // verus!
