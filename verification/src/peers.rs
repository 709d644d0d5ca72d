//! Peer addresses: what is kept of the URL that a peer is registered with.

use crate::error::LedgerError;
use crate::text::{decimal_text, push_decimal_text};
use vstd::prelude::*;

verus! {

#[verifier::external_type_specification]
#[verifier::external_body]
pub struct ExUrlParseError(url::ParseError);

/// What the registry reads of a parsed URL.
#[derive(Debug)]
pub struct UrlParts {
    /// The host, where the URL has one.
    pub host: Option<String>,
    /// The port, where the URL names one that is not the default of its
    /// scheme.
    pub port: Option<u16>,
}

/// Whether `url::Url::parse` accepts `uri`.
pub uninterp spec fn url_is_valid(uri: Seq<char>) -> bool;

/// What `url::Url::host_str` returns for the URL parsed from `uri`.
pub uninterp spec fn url_host(uri: Seq<char>) -> Option<Seq<char>>;

/// What `url::Url::port` returns for the URL parsed from `uri`.
pub uninterp spec fn url_port(uri: Seq<char>) -> Option<u16>;

impl UrlParts {
    /// The host as a sequence of characters.
    pub open spec fn host_view(self) -> Option<Seq<char>> {
        match self.host {
            Some(host) => Some(host@),
            None => None,
        }
    }
}

/// Parses `uri` with `url::Url::parse` and reads the host and the port of the
/// result with `Url::host_str` and `Url::port`. All three depend on the text
/// of `uri` alone; the error is the parser's own.
#[verifier::external_body]
pub(crate) fn parse_url(uri: &str) -> (r: Result<UrlParts, url::ParseError>)
    ensures
        r is Ok <==> url_is_valid(uri@),
        r matches Ok(parts) ==> parts.host_view() == url_host(uri@) && parts.port == url_port(
            uri@,
        ),
{
    let url = url::Url::parse(uri)?;
    Ok(UrlParts { host: url.host_str().map(str::to_owned), port: url.port() })
}

/// The address under which a peer is kept: the host alone, or the host, a
/// colon and the port in decimal notation.
pub open spec fn peer_address(host: Seq<char>, port: Option<u16>) -> Seq<char> {
    match port {
        Some(port) => host + seq![':'] + decimal_text(port as nat),
        None => host,
    }
}

/// The address of the peer that a URL names, where the URL has a host.
pub open spec fn address_of(host: Option<Seq<char>>, port: Option<u16>) -> Option<Seq<char>> {
    match host {
        Some(host) => Some(peer_address(host, port)),
        None => None,
    }
}

/// The address under which the peer at `uri` is registered, or why it
/// cannot be: the text is no URL, or the URL names no host.
pub open spec fn registered_address(uri: Seq<char>) -> Result<Seq<char>, LedgerError> {
    if !url_is_valid(uri) {
        Err(LedgerError::MalformedPeerUri)
    } else {
        match address_of(url_host(uri), url_port(uri)) {
            Some(address) => Ok(address),
            None => Err(LedgerError::InvalidPeerAddress),
        }
    }
}

/// The registry after `address` was registered: it is added at the end
/// unless it is already there.
pub open spec fn with_peer(peers: Seq<Seq<char>>, address: Seq<char>) -> Seq<Seq<char>> {
    if peers.contains(address) {
        peers
    } else {
        peers.push(address)
    }
}

/// Registration keeps the registry free of duplicates, and the address is
/// in it afterwards.
pub proof fn lemma_with_peer(peers: Seq<Seq<char>>, address: Seq<char>)
    requires
        peers.no_duplicates(),
    ensures
        with_peer(peers, address).no_duplicates(),
        with_peer(peers, address).contains(address),
{
    if !peers.contains(address) {
        let after = peers.push(address);
        assert(after[peers.len() as int] == address);
        assert forall|i: int, j: int|
            0 <= i < after.len() && 0 <= j < after.len() && i != j implies after[i] != after[j] by {
            if i < peers.len() && j < peers.len() {
                assert(peers[i] != peers[j]);
            } else if i < peers.len() {
                assert(peers[i] != address);
            } else {
                assert(peers[j] != address);
            }
        }
    }
}

/// The registry that holds `addresses` in their order, each once: of equal
/// addresses the first stays.
pub open spec fn distinct(addresses: Seq<Seq<char>>) -> Seq<Seq<char>>
    decreases addresses.len(),
{
    if addresses.len() == 0 {
        Seq::empty()
    } else {
        with_peer(distinct(addresses.drop_last()), addresses.last())
    }
}

/// What registering the peer at `uri` returns on the registry `peers`:
/// whether the address is new, or why there is none.
pub open spec fn registration_outcome(peers: Seq<Seq<char>>, uri: Seq<char>) -> Result<
    bool,
    LedgerError,
> {
    match registered_address(uri) {
        Ok(address) => Ok(!peers.contains(address)),
        Err(failure) => Err(failure),
    }
}

/// The registry after the peer at `uri` was registered; a text that yields
/// no address leaves it as it was.
pub open spec fn after_registration(peers: Seq<Seq<char>>, uri: Seq<char>) -> Seq<Seq<char>> {
    match registered_address(uri) {
        Ok(address) => with_peer(peers, address),
        Err(_) => peers,
    }
}

/// The registry after the peers at `uris` were registered one after the
/// other.
pub open spec fn after_registrations(peers: Seq<Seq<char>>, uris: Seq<Seq<char>>) -> Seq<
    Seq<char>,
>
    decreases uris.len(),
{
    if uris.len() == 0 {
        peers
    } else {
        after_registration(after_registrations(peers, uris.drop_last()), uris.last())
    }
}

/// Registering a peer a second time, under the same URL or under another
/// that gives the same address, finds the address already there and leaves
/// the registry, and so its size, as the first registration left it.
pub proof fn lemma_register_twice(peers: Seq<Seq<char>>, first: Seq<char>, second: Seq<char>)
    requires
        registered_address(first) is Ok,
        registered_address(second) == registered_address(first),
    ensures
        registration_outcome(after_registration(peers, first), second) == Ok::<bool, LedgerError>(
            false,
        ),
        after_registration(after_registration(peers, first), second) == after_registration(
            peers,
            first,
        ),
        after_registration(after_registration(peers, first), second).len() == after_registration(
            peers,
            first,
        ).len(),
{
    let address = registered_address(first)->Ok_0;
    if !peers.contains(address) {
        assert(peers.push(address)[peers.len() as int] == address);
    }
}

impl UrlParts {
    /// Writes the address of the peer that these parts name, `None` where
    /// they hold no host.
    pub fn address(&self) -> (address: Option<String>)
        ensures
            (match address {
                Some(text) => Some(text@),
                None => None,
            }) == address_of(self.host_view(), self.port),
    {
        match &self.host {
            Some(host) => {
                let mut text = host.clone();
                match self.port {
                    Some(port) => {
                        text.push(':');
                        push_decimal_text(&mut text, port as usize);
                        assert(text@ =~= peer_address(host@, self.port));
                    },
                    None => {},
                }
                Some(text)
            },
            None => None,
        }
    }
}

/// The first position of `address` among `peers`, where it is one of them.
pub fn find_peer(peers: &Vec<String>, address: &String) -> (found: Option<usize>)
    ensures
        match found {
            Some(i) => i < peers@.len() && peers@[i as int]@ == address@ && forall|j: int|
                0 <= j < i ==> peers@[j]@ != address@,
            None => forall|i: int| 0 <= i < peers@.len() ==> peers@[i]@ != address@,
        },
{
    let mut i: usize = 0;
    while i < peers.len()
        invariant
            i <= peers.len(),
            forall|j: int| 0 <= j < i ==> peers@[j]@ != address@,
        decreases peers.len() - i,
    {
        if peers[i] == *address {
            return Some(i);
        }
        i += 1;
    }
    None
}

} // verus!
