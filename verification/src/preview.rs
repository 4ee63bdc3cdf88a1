//! The preview server of a watch session: where it listens, the address of
//! its viewer page, and what one viewer's connection does with what is
//! published.

use vstd::prelude::*;
use vstd::string::*;
use crate::text::{decimal_digits, push_decimal};

verus! {

/// The port that a watch session asks for.
pub const DEFAULT_PORT: u16 = 4343;

/// The path of the viewer page.
pub const VIEW_ROUTE: &'static str = "/view";

/// The path under which the current artifact is served.
pub const ARTIFACT_ROUTE: &'static str = "/pdf";

/// The path of the push channel.
pub const PUSH_ROUTE: &'static str = "/ws";

/// The ports to try in turn on the loopback address: the preferred one,
/// then 0, which leaves the choice to the operating system.
pub open spec fn bind_attempts_of(preferred: u16) -> Seq<u16> {
    if preferred == 0 {
        seq![0u16]
    } else {
        seq![preferred, 0u16]
    }
}

/// The ports to try in turn on the loopback address.
pub fn bind_attempts(preferred: u16) -> (ports: Vec<u16>)
    ensures
        ports@ == bind_attempts_of(preferred),
{
    let mut ports: Vec<u16> = Vec::new();
    if preferred != 0 {
        ports.push(preferred);
    }
    ports.push(0);
    assert(ports@ =~= bind_attempts_of(preferred));
    ports
}

/// The address of the viewer page of a server bound to `port`.
pub open spec fn view_url_of(port: u16) -> Seq<char> {
    "http://localhost:"@ + decimal_digits(port as nat) + "/view"@
}

/// The address of the viewer page of a server bound to `port`: the port
/// that the server was given, which need not be the one it asked for.
pub fn view_url(port: u16) -> (url: String)
    ensures
        url@ == view_url_of(port),
{
    let mut url = "http://localhost:".to_owned();
    push_decimal(&mut url, port as u64);
    url.append("/view");
    url
}

/// What a viewer's connection is handed next: a publication, the news that
/// publications were missed because the connection fell behind, or the news
/// that no more will come.
#[derive(Debug, Clone, PartialEq, Eq)]
pub enum Delivery {
    Published(String),
    Missed,
    Closed,
}

/// What a `Delivery` stands for in contracts.
pub ghost enum DeliveryModel {
    Published(Seq<char>),
    Missed,
    Closed,
}

impl View for Delivery {
    type V = DeliveryModel;

    open spec fn view(&self) -> DeliveryModel {
        match self {
            Delivery::Published(path) => DeliveryModel::Published(path@),
            Delivery::Missed => DeliveryModel::Missed,
            Delivery::Closed => DeliveryModel::Closed,
        }
    }
}

/// The connection of one viewer to the push channel. It is live from its
/// start until a delivery or a send fails.
#[derive(Debug)]
pub struct Subscriber {
    live: bool,
}

impl View for Subscriber {
    type V = bool;

    closed spec fn view(&self) -> bool {
        self.live
    }
}

/// The connection after a delivery and the frame to send: a live connection
/// sends each publication as it is, one frame for one publication, goes on
/// after it missed some, and ends when no more will come.
pub open spec fn relay_of(live: bool, delivery: DeliveryModel) -> (bool, Option<Seq<char>>) {
    match delivery {
        DeliveryModel::Published(path) => if live {
            (true, Some(path))
        } else {
            (false, None)
        },
        DeliveryModel::Missed => (live, None),
        DeliveryModel::Closed => (false, None),
    }
}

/// A live connection hands on a publication as one frame that holds exactly
/// the published path, and stays live; a connection that has ended hands on
/// nothing.
pub proof fn lemma_publication_is_forwarded_as_it_is(path: Seq<char>)
    ensures
        relay_of(true, DeliveryModel::Published(path)) == (true, Some(path)),
        relay_of(false, DeliveryModel::Published(path)) == (false, None::<Seq<char>>),
{
}

impl Subscriber {
    /// A live connection.
    pub fn new() -> (subscriber: Subscriber)
        ensures
            subscriber@,
    {
        Subscriber { live: true }
    }

    /// Whether the connection is live.
    pub fn is_live(&self) -> (live: bool)
        ensures
            live == self@,
    {
        self.live
    }

    /// Takes a delivery and gives the text frame to send, if any.
    pub fn relay(&mut self, delivery: Delivery) -> (frame: Option<String>)
        ensures
            (final(self)@, frame.deep_view()) == relay_of(old(self)@, delivery@),
    {
        match delivery {
            Delivery::Published(path) => {
                if self.live {
                    Some(path)
                } else {
                    None
                }
            },
            Delivery::Missed => None,
            Delivery::Closed => {
                self.live = false;
                None
            },
        }
    }

    /// Takes the result of a send: a failed send ends the connection.
    pub fn sent(&mut self, delivered: bool)
        ensures
            final(self)@ == (old(self)@ && delivered),
    {
        if !delivered {
            self.live = false;
        }
    }
}

} // verus!
