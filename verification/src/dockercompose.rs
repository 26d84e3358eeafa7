//! The services that the compose tool reports, and what a run of the tool
//! amounts to.

use crate::error::{Error, ErrorView};
use crate::text::{decimal, decimal_text, signed_decimal, signed_decimal_text};
use vstd::prelude::*;
use vstd::string::*;

verus! {

/// The compose tool, by the path of its binary.
pub struct Command<'a> {
    pub path: &'a str,
}

/// A port of a service: the number inside the container, and the number it
/// is published under on the host.
pub struct ServicePort {
    pub port: u16,
    pub exposed_port: u16,
}

/// A container: its own name, the label of the service it belongs to, its
/// state, and its published ports in the order in which they were reported.
pub struct Service {
    pub name: String,
    pub service: String,
    pub state: String,
    pub ports: Vec<ServicePort>,
}

/// A port publication as the compose tool reports it.
pub struct Publisher {
    pub target_port: u16,
    pub published_port: u16,
}

/// A container as the compose tool reports it. The list of publications may
/// be missing.
pub struct Record {
    pub name: String,
    pub service: String,
    pub state: String,
    pub publishers: Option<Vec<Publisher>>,
}

/// What came of running the compose tool.
pub enum Enumeration {
    /// The tool could not be started; the reason is given.
    NotStarted(String),
    /// The tool ran and ended with `status` (none where a signal ended it).
    /// Its output decoded to `listing`, or could not be decoded for the
    /// reason given.
    Exited { status: Option<i32>, listing: Result<Vec<Record>, String> },
}

/// A [`Service`] as plain values.
pub struct ServiceView {
    pub name: Seq<char>,
    pub service: Seq<char>,
    pub state: Seq<char>,
    pub ports: Seq<ServicePort>,
}

/// A [`Record`] as plain values.
pub struct RecordView {
    pub name: Seq<char>,
    pub service: Seq<char>,
    pub state: Seq<char>,
    pub publishers: Option<Seq<Publisher>>,
}

/// An [`Enumeration`] as plain values.
pub enum EnumerationView {
    NotStarted(Seq<char>),
    Exited { status: Option<i32>, listing: Result<Seq<RecordView>, Seq<char>> },
}

impl View for Service {
    type V = ServiceView;

    open spec fn view(&self) -> ServiceView {
        ServiceView {
            name: self.name@,
            service: self.service@,
            state: self.state@,
            ports: self.ports@,
        }
    }
}

impl View for Record {
    type V = RecordView;

    open spec fn view(&self) -> RecordView {
        RecordView {
            name: self.name@,
            service: self.service@,
            state: self.state@,
            publishers: match self.publishers {
                Some(publishers) => Some(publishers@),
                None => None,
            },
        }
    }
}

impl View for Enumeration {
    type V = EnumerationView;

    open spec fn view(&self) -> EnumerationView {
        match *self {
            Enumeration::NotStarted(reason) => EnumerationView::NotStarted(reason@),
            Enumeration::Exited { status, listing } => EnumerationView::Exited {
                status,
                listing: match listing {
                    Ok(records) => Ok(records@.map_values(|record: Record| record@)),
                    Err(reason) => Err(reason@),
                },
            },
        }
    }
}

/// The services of a list, each as plain values.
pub open spec fn services_view(services: Seq<Service>) -> Seq<ServiceView> {
    services.map_values(|service: Service| service@)
}

/// The result of a listing as plain values.
pub open spec fn listing_view(result: Result<Vec<Service>, Error>) -> Result<
    Seq<ServiceView>,
    ErrorView,
> {
    match result {
        Ok(services) => Ok(services_view(services@)),
        Err(error) => Err(error@),
    }
}

/// The URL under which a published port is reached on the local host.
pub open spec fn url_of(exposed_port: u16) -> Seq<char> {
    "http://localhost:"@ + decimal(exposed_port as nat)
}

/// The port that a publication stands for.
pub open spec fn port_of(publisher: Publisher) -> ServicePort {
    ServicePort { port: publisher.target_port, exposed_port: publisher.published_port }
}

/// The service that a record stands for: a missing list of publications
/// counts as an empty one.
pub open spec fn service_of(record: RecordView) -> ServiceView {
    ServiceView {
        name: record.name,
        service: record.service,
        state: record.state,
        ports: match record.publishers {
            Some(publishers) => publishers.map_values(|publisher: Publisher| port_of(publisher)),
            None => Seq::empty(),
        },
    }
}

/// The arguments with which the compose tool lists the containers in JSON.
pub open spec fn listing_arguments() -> Seq<Seq<char>> {
    seq!["ps"@, "--format"@, "json"@]
}

/// Why a run of the compose tool that ended with `status` counts as failed.
pub open spec fn exit_failure(status: Option<i32>) -> Seq<char> {
    match status {
        Some(code) => "docker-compose exited with code "@ + signed_decimal(code as int),
        None => "docker-compose was terminated by a signal"@,
    }
}

/// What a run of the compose tool amounts to: the services it reported, in
/// their order, if it could be started, ended with status 0 and its output
/// could be decoded; else the failure, of which the first in this order is
/// told.
pub open spec fn listed(run: EnumerationView) -> Result<Seq<ServiceView>, ErrorView> {
    match run {
        EnumerationView::NotStarted(reason) => Err(ErrorView::DockerCompose(reason)),
        EnumerationView::Exited { status, listing } => if status != Some(0i32) {
            Err(ErrorView::DockerCompose(exit_failure(status)))
        } else {
            match listing {
                Ok(records) => Ok(records.map_values(|record: RecordView| service_of(record))),
                Err(reason) => Err(ErrorView::DockerCompose(reason)),
            }
        },
    }
}

impl<'a> Command<'a> {
    pub fn new(path: &'a str) -> (command: Self)
        ensures
            command.path == path,
    {
        Self { path }
    }

    /// The arguments with which the tool lists the containers in JSON.
    pub fn arguments(&self) -> (arguments: Vec<String>)
        ensures
            arguments.deep_view() == listing_arguments(),
    {
        let mut arguments: Vec<String> = Vec::new();
        arguments.push(String::from_str("ps"));
        arguments.push(String::from_str("--format"));
        arguments.push(String::from_str("json"));
        assert(arguments.deep_view() =~= listing_arguments());
        arguments
    }

    /// The services that a run of the tool reported, or why the run counts
    /// as failed.
    pub fn list_services(&self, run: &Enumeration) -> (result: Result<Vec<Service>, Error>)
        ensures
            listing_view(result) == listed(run@),
    {
        match run {
            Enumeration::NotStarted(reason) => Err(Error::DockerCompose(reason.clone())),
            Enumeration::Exited { status, listing } => {
                match status {
                    Some(0) => {},
                    Some(code) => {
                        let failure = String::from_str("docker-compose exited with code ").concat(
                            signed_decimal_text(*code as i64).as_str(),
                        );
                        return Err(Error::DockerCompose(failure));
                    },
                    None => {
                        return Err(
                            Error::DockerCompose(
                                String::from_str("docker-compose was terminated by a signal"),
                            ),
                        );
                    },
                }
                match listing {
                    Ok(records) => Ok(services_of(records)),
                    Err(reason) => Err(Error::DockerCompose(reason.clone())),
                }
            },
        }
    }
}

impl ServicePort {
    pub fn new(port: u16, exposed_port: u16) -> (service_port: Self)
        ensures
            service_port.port == port,
            service_port.exposed_port == exposed_port,
    {
        Self { port, exposed_port }
    }

    /// The URL under which the port is reached on the local host.
    pub fn url(&self) -> (url: String)
        ensures
            url@ == url_of(self.exposed_port),
    {
        String::from_str("http://localhost:").concat(
            decimal_text(self.exposed_port as u64).as_str(),
        )
    }
}

impl Service {
    pub fn new(name: String, service: String, state: String, ports: Vec<ServicePort>) -> (made:
        Self)
        ensures
            made.name == name,
            made.service == service,
            made.state == state,
            made.ports == ports,
    {
        Self { name, service, state, ports }
    }

    /// The service that a record stands for: a missing list of publications
    /// counts as an empty one.
    pub fn from_record(record: &Record) -> (service: Self)
        ensures
            service@ == service_of(record@),
    {
        let mut ports: Vec<ServicePort> = Vec::new();
        if let Some(publishers) = &record.publishers {
            let mut i: usize = 0;
            while i < publishers.len()
                invariant
                    i <= publishers.len(),
                    ports.len() == i,
                    forall|k: int| 0 <= k < i ==> ports[k] == port_of(#[trigger] publishers[k]),
                decreases publishers.len() - i,
            {
                ports.push(
                    ServicePort::new(publishers[i].target_port, publishers[i].published_port),
                );
                i = i + 1;
            }
            assert(ports@ =~= publishers@.map_values(|publisher: Publisher| port_of(publisher)));
        }
        let service = Service::new(
            record.name.clone(),
            record.service.clone(),
            record.state.clone(),
            ports,
        );
        assert(service@.ports =~= service_of(record@).ports);
        service
    }
}

/// The services that the records stand for, in their order.
pub fn services_of(records: &Vec<Record>) -> (services: Vec<Service>)
    ensures
        services_view(services@) == records@.map_values(|record: Record| record@).map_values(
            |record: RecordView| service_of(record),
        ),
{
    let mut services: Vec<Service> = Vec::new();
    let mut i: usize = 0;
    while i < records.len()
        invariant
            i <= records.len(),
            services.len() == i,
            forall|k: int| 0 <= k < i ==> (#[trigger] services[k])@ == service_of(records[k]@),
        decreases records.len() - i,
    {
        services.push(Service::from_record(&records[i]));
        i = i + 1;
    }
    assert(services_view(services@) =~= records@.map_values(|record: Record| record@).map_values(
        |record: RecordView| service_of(record),
    ));
    services
}

} // verus!
