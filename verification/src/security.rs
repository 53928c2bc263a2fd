//! Who may connect, and on whose behalf a connection is made.

use crate::address;
use crate::address::{IpAddr, IpNet};
use crate::text;
use vstd::prelude::*;
use vstd::string::StringExecFns;

verus! {

/// The original client that an `X-Forwarded-For` header names: the text in front
/// of the first comma without the white space around it, if any is left.
pub open spec fn original_client_ip(xff_header: Seq<char>) -> Option<Seq<char>> {
    let client = text::trim(text::up_to(xff_header, ','));
    if client.len() == 0 {
        None
    } else {
        Some(client)
    }
}

/// Reads the original client out of an `X-Forwarded-For` header of the form
/// `client, proxy1, proxy2, ...`.
#[must_use]
pub fn parse_original_client_ip(xff_header: &str) -> (client: Option<String>)
    ensures
        client.deep_view() == original_client_ip(xff_header@),
{
    let client = text::trim_up_to(xff_header, ',');
    if client.as_str().is_empty() {
        None
    } else {
        Some(client)
    }
}

/// An entry of the allow list, as far as it can be read.
#[derive(Clone, Copy, Debug, PartialEq, Eq, Structural)]
pub enum AllowEntry {
    Address(IpAddr),
    Network(IpNet),
    Invalid,
}

/// The error of an allow list with an entry that is neither an address nor a
/// CIDR range.
#[derive(Debug)]
pub struct InvalidAllowEntry {
    pub entry: String,
}

impl AllowEntry {
    /// The network, if the entry is one, is well formed.
    pub open spec fn well_formed(self) -> bool {
        self matches AllowEntry::Network(net) ==> net.well_formed()
    }

    /// The entry lets `ip` in.
    pub open spec fn admits(self, ip: IpAddr) -> bool {
        match self {
            AllowEntry::Address(address) => ip == address,
            AllowEntry::Network(net) => net.holds(ip),
            AllowEntry::Invalid => false,
        }
    }

    /// The entry that two readings of one text make: as an address, and failing
    /// that as a network.
    pub open spec fn of_readings(address: Option<IpAddr>, network: Option<IpNet>) -> AllowEntry {
        match (address, network) {
            (Some(address), _) => AllowEntry::Address(address),
            (None, Some(net)) => AllowEntry::Network(net),
            (None, None) => AllowEntry::Invalid,
        }
    }

    /// The entry that `text` spells.
    pub open spec fn of_text(text: Seq<char>) -> AllowEntry {
        AllowEntry::of_readings(address::address_of(text), address::network_of(text))
    }

    /// The entry that `text` spells is the one that its notation says: the address or
    /// the network. An address has no other characters than those of addresses, and a
    /// network ends in a slash and its prefix length; any other text is invalid.
    pub open spec fn is_read_as_written(text: Seq<char>) -> bool {
        &&& forall|ip: IpAddr| #[trigger]
            address::spells_address(text, ip) ==> AllowEntry::of_text(text) == AllowEntry::Address(
                ip,
            )
        &&& forall|net: IpNet| #[trigger]
            address::spells_network(text, net) ==> AllowEntry::of_text(text)
                == AllowEntry::Network(net)
        &&& match AllowEntry::of_text(text) {
            AllowEntry::Address(_) => address::has_address_chars(text),
            AllowEntry::Network(net) => address::has_network_form(text, net),
            AllowEntry::Invalid => true,
        }
    }

    /// Makes an entry of two readings of its text.
    pub fn from_readings(address: Option<IpAddr>, network: Option<IpNet>) -> (entry: AllowEntry)
        ensures
            entry == AllowEntry::of_readings(address, network),
    {
        match address {
            Some(address) => AllowEntry::Address(address),
            None => match network {
                Some(net) => AllowEntry::Network(net),
                None => AllowEntry::Invalid,
            },
        }
    }

    /// Reads an entry.
    pub fn read(text: &str) -> (entry: AllowEntry)
        ensures
            entry == AllowEntry::of_text(text@),
            entry.well_formed(),
            AllowEntry::is_read_as_written(text@),
    {
        let address = address::parse_address(text);
        let network = if address.is_none() {
            address::parse_network(text)
        } else {
            None
        };
        proof {
            assert forall|net: IpNet| #[trigger] address::spells_network(text@, net) implies address
                is None by {
                lemma_network_has_a_slash(text@, net);
            }
        }
        AllowEntry::from_readings(address, network)
    }

    /// Checks whether the entry lets `ip` in; nothing can be said of an invalid
    /// entry.
    pub fn check(&self, ip: IpAddr) -> (admitted: Option<bool>)
        requires
            self.well_formed(),
        ensures
            admitted == (if *self is Invalid {
                None
            } else {
                Some(self.admits(ip))
            }),
    {
        match self {
            AllowEntry::Address(address) => Some(ip == *address),
            AllowEntry::Network(net) => Some(address::network_contains(*net, ip)),
            AllowEntry::Invalid => None,
        }
    }
}

proof fn lemma_network_has_a_slash(text: Seq<char>, net: IpNet)
    requires
        address::spells_network(text, net),
    ensures
        !address::has_address_chars(text),
{
    let prefix = text::decimal(net.prefix_len as nat);
    let address = choose|address: Seq<char>| #[trigger]
        address::spells_address(address, net.addr) && text == address + seq!['/'] + prefix;
    assert(text[address.len() as int] == '/');
}

/// An entry lets `ip` in.
pub open spec fn any_admits(entries: Seq<AllowEntry>, ip: IpAddr) -> bool {
    exists|i: int| 0 <= i < entries.len() && (#[trigger] entries[i]).admits(ip)
}

/// The entry at `n` is the first one that is invalid.
pub open spec fn first_invalid_at(entries: Seq<AllowEntry>, n: int) -> bool {
    &&& 0 <= n < entries.len()
    &&& entries[n] is Invalid
    &&& forall|i: int| 0 <= i < n ==> #[trigger] entries[i] !is Invalid
}

/// What an allow list says of `ip`: it is let in where an entry lets it in. Where
/// none does, the first invalid entry, by its position, is an error, and without
/// one `ip` stays out.
pub open spec fn list_verdict(entries: Seq<AllowEntry>, ip: IpAddr) -> Result<bool, int> {
    if any_admits(entries, ip) {
        Ok(true)
    } else if exists|n: int| first_invalid_at(entries, n) {
        Err(choose|n: int| first_invalid_at(entries, n))
    } else {
        Ok(false)
    }
}

/// What a configured allow list says of `ip`. An error is the text of the
/// invalid entry.
pub open spec fn proxy_verdict(allowed_ips: Option<Seq<Seq<char>>>, ip: IpAddr) -> Result<
    bool,
    Seq<char>,
> {
    match allowed_ips {
        None => Ok(true),
        Some(texts) => match list_verdict(entries_of(texts), ip) {
            Ok(allowed) => Ok(allowed),
            Err(n) => Err(texts[n]),
        },
    }
}

/// The entries that the texts of an allow list spell.
pub open spec fn entries_of(texts: Seq<Seq<char>>) -> Seq<AllowEntry> {
    texts.map_values(|text: Seq<char>| AllowEntry::of_text(text))
}

/// The texts of a list of strings.
pub open spec fn texts_of(list: Seq<String>) -> Seq<Seq<char>> {
    list.map_values(|text: String| text@)
}

/// The outcome of [`is_proxy_ip_allowed`], with the text of the invalid entry.
pub open spec fn verdict_view(verdict: Result<bool, InvalidAllowEntry>) -> Result<bool, Seq<char>> {
    match verdict {
        Ok(allowed) => Ok(allowed),
        Err(error) => Err(error.entry@),
    }
}

proof fn lemma_first_invalid_at(entries: Seq<AllowEntry>, n: int)
    requires
        first_invalid_at(entries, n),
    ensures
        forall|m: int| first_invalid_at(entries, m) ==> m == n,
{
    assert forall|m: int| first_invalid_at(entries, m) implies m == n by {
        if m < n {
            assert(entries[m] !is Invalid);
        } else if n < m {
            assert(entries[n] !is Invalid);
        }
    }
}

/// Checks `proxy_ip` against the entries of an allow list. The error is the
/// position of the first invalid entry.
pub fn check_allow_list(proxy_ip: IpAddr, entries: &Vec<AllowEntry>) -> (verdict: Result<
    bool,
    usize,
>)
    requires
        forall|i: int| 0 <= i < entries@.len() ==> (#[trigger] entries@[i]).well_formed(),
    ensures
        match verdict {
            Ok(allowed) => list_verdict(entries@, proxy_ip) == Ok::<bool, int>(allowed),
            Err(n) => list_verdict(entries@, proxy_ip) == Err::<bool, int>(n as int),
        },
        verdict matches Err(n) ==> n < entries@.len(),
{
    let mut first_invalid: Option<usize> = None;
    let mut i: usize = 0;
    while i < entries.len()
        invariant
            i <= entries@.len(),
            forall|k: int| 0 <= k < i ==> !(#[trigger] entries@[k]).admits(proxy_ip),
            match first_invalid {
                Some(n) => n < i && first_invalid_at(entries@, n as int),
                None => forall|k: int| 0 <= k < i ==> #[trigger] entries@[k] !is Invalid,
            },
            forall|k: int| 0 <= k < entries@.len() ==> (#[trigger] entries@[k]).well_formed(),
        decreases entries@.len() - i,
    {
        match entries[i].check(proxy_ip) {
            Some(admitted) => {
                if admitted {
                    return Ok(true);
                }
            },
            None => {
                if first_invalid.is_none() {
                    first_invalid = Some(i);
                }
            },
        }
        i = i + 1;
    }
    match first_invalid {
        Some(n) => {
            proof {
                lemma_first_invalid_at(entries@, n as int);
            }
            Err(n)
        },
        None => Ok(false),
    }
}

/// Checks whether a proxy may connect. Without an allow list every proxy may;
/// with one, those may that an entry names or whose network one names. For any
/// other proxy, the first entry that cannot be read is an error.
pub fn is_proxy_ip_allowed(proxy_ip: IpAddr, allowed_ips: Option<&Vec<String>>) -> (verdict: Result<
    bool,
    InvalidAllowEntry,
>)
    ensures
        verdict_view(verdict) == proxy_verdict(
            match allowed_ips {
                Some(list) => Some(texts_of(list@)),
                None => None,
            },
            proxy_ip,
        ),
        allowed_ips matches Some(list) ==> forall|i: int|
            0 <= i < list@.len() ==> AllowEntry::is_read_as_written((#[trigger] list@[i])@),
{
    let list = match allowed_ips {
        Some(list) => list,
        None => {
            return Ok(true);
        },
    };
    let mut entries: Vec<AllowEntry> = Vec::new();
    let mut i: usize = 0;
    while i < list.len()
        invariant
            i <= list@.len(),
            entries@.len() == i,
            forall|k: int| 0 <= k < i ==> #[trigger] entries@[k] == AllowEntry::of_text(list@[k]@),
            forall|k: int| 0 <= k < i ==> (#[trigger] entries@[k]).well_formed(),
            forall|k: int| 0 <= k < i ==> AllowEntry::is_read_as_written((#[trigger] list@[k])@),
        decreases list@.len() - i,
    {
        entries.push(AllowEntry::read(list[i].as_str()));
        i = i + 1;
    }
    assert(entries@ =~= entries_of(texts_of(list@)));
    match check_allow_list(proxy_ip, &entries) {
        Ok(allowed) => Ok(allowed),
        Err(n) => Err(InvalidAllowEntry { entry: list[n].clone() }),
    }
}

impl InvalidAllowEntry {
    /// Describes the error.
    pub fn message(&self) -> (message: String)
        ensures
            message@ == "Invalid IP address or CIDR in allowed_proxy_ips: "@ + self.entry@,
    {
        "Invalid IP address or CIDR in allowed_proxy_ips: ".to_owned().concat(self.entry.as_str())
    }
}

/// Without an allow list every proxy may connect.
pub proof fn law_no_list_allows_every_proxy(ip: IpAddr)
    ensures
        proxy_verdict(None, ip) == Ok::<bool, Seq<char>>(true),
{
}

proof fn lemma_entries_of(texts: Seq<Seq<char>>)
    ensures
        entries_of(texts).len() == texts.len(),
        forall|i: int|
            0 <= i < texts.len() ==> #[trigger] entries_of(texts)[i] == AllowEntry::of_text(
                texts[i],
            ),
{
}

/// A list lets in exactly the addresses that one of its entries lets in, wherever
/// that entry stands and whatever the others are.
pub proof fn law_any_entry_admits(texts: Seq<Seq<char>>, ip: IpAddr)
    ensures
        proxy_verdict(Some(texts), ip) == Ok::<bool, Seq<char>>(true) <==> exists|i: int|
            0 <= i < texts.len() && AllowEntry::of_text(#[trigger] texts[i]).admits(ip),
{
    let entries = entries_of(texts);
    lemma_entries_of(texts);
    if exists|i: int| 0 <= i < texts.len() && AllowEntry::of_text(#[trigger] texts[i]).admits(ip) {
        let i = choose|i: int|
            0 <= i < texts.len() && AllowEntry::of_text(#[trigger] texts[i]).admits(ip);
        assert(entries[i].admits(ip));
    }
    if any_admits(entries, ip) {
        let i = choose|i: int| 0 <= i < entries.len() && (#[trigger] entries[i]).admits(ip);
        assert(AllowEntry::of_text(texts[i]).admits(ip));
    }
}

/// A list is an error exactly where it has an invalid entry and none that lets the
/// address in, and the error names the first invalid one.
pub proof fn law_error_names_the_first_invalid_entry(texts: Seq<Seq<char>>, ip: IpAddr, n: int)
    requires
        0 <= n < texts.len(),
        AllowEntry::of_text(texts[n]) is Invalid,
        forall|i: int| 0 <= i < n ==> AllowEntry::of_text(#[trigger] texts[i]) !is Invalid,
    ensures
        proxy_verdict(Some(texts), ip) == (if exists|i: int|
            0 <= i < texts.len() && AllowEntry::of_text(#[trigger] texts[i]).admits(ip) {
            Ok::<bool, Seq<char>>(true)
        } else {
            Err(texts[n])
        }),
{
    let entries = entries_of(texts);
    lemma_entries_of(texts);
    law_any_entry_admits(texts, ip);
    assert forall|i: int| 0 <= i < n implies #[trigger] entries[i] !is Invalid by {
        assert(AllowEntry::of_text(texts[i]) !is Invalid);
    }
    assert(first_invalid_at(entries, n));
    lemma_first_invalid_at(entries, n);
}

/// A list without invalid entries is never an error.
pub proof fn law_valid_list_is_no_error(texts: Seq<Seq<char>>, ip: IpAddr)
    requires
        forall|i: int| 0 <= i < texts.len() ==> AllowEntry::of_text(#[trigger] texts[i]) !is Invalid,
    ensures
        proxy_verdict(Some(texts), ip) is Ok,
{
    lemma_entries_of(texts);
    assert forall|n: int| !first_invalid_at(entries_of(texts), n) by {
        if 0 <= n < texts.len() {
            assert(AllowEntry::of_text(texts[n]) !is Invalid);
        }
    }
}

/// An entry for one address lets in that address alone, an entry for a network
/// the addresses of the network, and any other entry is an error that names it.
pub proof fn law_single_entry(text: Seq<char>, ip: IpAddr)
    ensures
        proxy_verdict(Some(seq![text]), ip) == (match AllowEntry::of_text(text) {
            AllowEntry::Address(address) => Ok::<bool, Seq<char>>(ip == address),
            AllowEntry::Network(net) => Ok(net.holds(ip)),
            AllowEntry::Invalid => Err(text),
        }),
{
    let texts = seq![text];
    law_any_entry_admits(texts, ip);
    if AllowEntry::of_text(text) is Invalid {
        law_error_names_the_first_invalid_entry(texts, ip, 0);
    } else {
        law_valid_list_is_no_error(texts, ip);
        if AllowEntry::of_text(text).admits(ip) {
            assert(AllowEntry::of_text(texts[0]).admits(ip));
        }
    }
}

/// An empty list lets nobody in.
pub proof fn law_empty_list_allows_nobody(ip: IpAddr)
    ensures
        proxy_verdict(Some(Seq::empty()), ip) == Ok::<bool, Seq<char>>(false),
{
    law_any_entry_admits(Seq::empty(), ip);
    law_valid_list_is_no_error(Seq::empty(), ip);
}

/// A proxy that a list lets in stays let in when entries are added.
pub proof fn law_more_entries_let_in_more(
    texts: Seq<Seq<char>>,
    more: Seq<Seq<char>>,
    ip: IpAddr,
)
    requires
        proxy_verdict(Some(texts), ip) == Ok::<bool, Seq<char>>(true),
    ensures
        proxy_verdict(Some(texts + more), ip) == Ok::<bool, Seq<char>>(true),
        proxy_verdict(Some(more + texts), ip) == Ok::<bool, Seq<char>>(true),
{
    law_any_entry_admits(texts, ip);
    law_any_entry_admits(texts + more, ip);
    law_any_entry_admits(more + texts, ip);
    let i = choose|i: int|
        0 <= i < texts.len() && AllowEntry::of_text(#[trigger] texts[i]).admits(ip);
    assert((texts + more)[i] == texts[i]);
    assert((more + texts)[more.len() + i] == texts[i]);
}

/// The error of a list stays the same when entries are appended, unless one of
/// those lets the proxy in.
pub proof fn law_error_stays_unless_admitted(
    texts: Seq<Seq<char>>,
    more: Seq<Seq<char>>,
    ip: IpAddr,
)
    requires
        proxy_verdict(Some(texts), ip) is Err,
    ensures
        proxy_verdict(Some(texts + more), ip) == (if exists|i: int|
            0 <= i < more.len() && AllowEntry::of_text(#[trigger] more[i]).admits(ip) {
            Ok::<bool, Seq<char>>(true)
        } else {
            proxy_verdict(Some(texts), ip)
        }),
{
    let all = texts + more;
    lemma_entries_of(texts);
    law_any_entry_admits(texts, ip);
    law_any_entry_admits(all, ip);
    let n = choose|n: int| first_invalid_at(entries_of(texts), n);
    assert(first_invalid_at(entries_of(texts), n));
    assert forall|i: int| 0 <= i < n implies AllowEntry::of_text(#[trigger] all[i]) !is Invalid by {
        assert(entries_of(texts)[i] !is Invalid);
    }
    law_error_names_the_first_invalid_entry(all, ip, n);
    if exists|i: int| 0 <= i < more.len() && AllowEntry::of_text(#[trigger] more[i]).admits(ip) {
        let i = choose|i: int|
            0 <= i < more.len() && AllowEntry::of_text(#[trigger] more[i]).admits(ip);
        assert(all[texts.len() + i] == more[i]);
    } else if exists|i: int| 0 <= i < all.len() && AllowEntry::of_text(#[trigger] all[i]).admits(ip) {
        let i = choose|i: int|
            0 <= i < all.len() && AllowEntry::of_text(#[trigger] all[i]).admits(ip);
        if i < texts.len() {
            assert(AllowEntry::of_text(texts[i]).admits(ip));
        } else {
            assert(AllowEntry::of_text(more[i - texts.len()]).admits(ip));
        }
    }
}

/// The proxies that a request passed later do not change its original client.
pub proof fn law_later_proxies_do_not_matter(header: Seq<char>, proxies: Seq<char>)
    ensures
        original_client_ip(header + seq![','] + proxies) == original_client_ip(header),
{
    let long = header + seq![','] + proxies;
    let n = text::lemma_up_to_end(header, ',');
    assert forall|i: int| 0 <= i < n implies long[i] != ',' by {
        assert(long[i] == header[i]);
    }
    if n < header.len() {
        assert(long[n] == header[n]);
    } else {
        assert(long[n] == ',');
    }
    text::lemma_up_to(long, ',', n);
    assert(long.take(n) =~= header.take(n));
}

/// An original client is not empty, has no comma and no white space at its ends,
/// and stands in the header in front of every comma.
pub proof fn law_original_client_is_clean(header: Seq<char>)
    ensures
        original_client_ip(header) matches Some(client) ==> {
            &&& client.len() > 0
            &&& !client.contains(',')
            &&& !text::is_white_space(client[0])
            &&& !text::is_white_space(client.last())
            &&& exists|from: int|
                0 <= from <= header.len() - client.len() && client == header.subrange(
                    from,
                    from + client.len(),
                ) && !header.take(from).contains(',')
        },
{
    if let Some(client) = original_client_ip(header) {
        let n = text::lemma_up_to_end(header, ',');
        let front = text::up_to(header, ',');
        let (from, to) = text::lemma_trim_ends(front);
        assert(client.len() == to - from);
        assert(client[0] == front[from]);
        assert(client.last() == front[to - 1]);
        assert forall|i: int| 0 <= i < client.len() implies client[i] != ',' by {
            assert(client[i] == header[from + i]);
        }
        assert(client =~= header.subrange(from, from + client.len()));
        assert(!header.take(from).contains(','));
    }
}

/// A header has no original client exactly where all in front of its first comma
/// is white space.
pub proof fn law_no_client_iff_blank(header: Seq<char>)
    ensures
        original_client_ip(header) is None <==> (forall|i: int|
            0 <= i < text::up_to(header, ',').len() ==> text::is_white_space(
                #[trigger] text::up_to(header, ',')[i],
            )),
{
    let front = text::up_to(header, ',');
    let (from, to) = text::lemma_trim_ends(front);
    assert(text::trim(front).len() == to - from);
    if from < to {
        assert(!text::is_white_space(front[from]));
    }
}

/// Reading the original client out of an original client gives it back.
pub proof fn law_reading_twice_changes_nothing(header: Seq<char>)
    ensures
        original_client_ip(header) matches Some(client) ==> original_client_ip(client) == Some(
            client,
        ),
{
    law_original_client_is_clean(header);
    if let Some(client) = original_client_ip(header) {
        assert forall|i: int| 0 <= i < client.len() implies client[i] != ',' by {
            if client[i] == ',' {
                assert(client.contains(','));
            }
        }
        text::lemma_up_to(client, ',', client.len() as int);
        assert(client.take(client.len() as int) =~= client);
        text::lemma_trim(client, 0, client.len() as int);
        assert(client.subrange(0, client.len() as int) =~= client);
    }
}

/// `text` is the address `ip`, or a network that holds it.
pub open spec fn text_admits(text: Seq<char>, ip: IpAddr) -> bool {
    match address::address_of(text) {
        Some(address) => address == ip,
        None => address::network_of(text) matches Some(net) && net.holds(ip),
    }
}

/// `text` is an address or a network.
pub open spec fn text_is_readable(text: Seq<char>) -> bool {
    address::address_of(text) is Some || address::network_of(text) is Some
}

/// A text is read as an address where it is one, else as a network where it is one,
/// and is invalid only where it is neither.
pub proof fn law_entries_are_addresses_before_networks(
    text: &str,
    entry: AllowEntry,
    ip: IpAddr,
    net: IpNet,
)
    requires
        call_ensures(AllowEntry::read, (text,), entry),
    ensures
        entry == AllowEntry::Address(ip) <==> address::address_of(text@) == Some(ip),
        entry == AllowEntry::Network(net) <==> address::address_of(text@) is None
            && address::network_of(text@) == Some(net),
        entry is Invalid <==> !text_is_readable(text@),
        address::spells_address(text@, ip) ==> entry == AllowEntry::Address(ip),
        address::spells_network(text@, net) ==> entry == AllowEntry::Network(net),
{
}

/// An entry made of two readings is the address where there is one, else the network
/// where there is one, and invalid only where there is neither.
pub proof fn law_readings_make_an_entry(
    address: Option<IpAddr>,
    network: Option<IpNet>,
    entry: AllowEntry,
)
    requires
        call_ensures(AllowEntry::from_readings, (address, network), entry),
    ensures
        entry is Address <==> address is Some,
        entry is Invalid <==> address is None && network is None,
        entry matches AllowEntry::Address(ip) ==> address == Some(ip),
        entry matches AllowEntry::Network(net) ==> network == Some(net),
{
}

/// An entry says of a proxy that it may connect exactly where the proxy has its
/// address or lies in its network, and says nothing only where it is invalid.
pub proof fn law_entries_check_addresses(entry: AllowEntry, ip: IpAddr, admitted: Option<bool>)
    requires
        entry.well_formed(),
        call_ensures(AllowEntry::check, (&entry, ip), admitted),
    ensures
        admitted == Some(true) <==> entry == AllowEntry::Address(ip) || (
        entry matches AllowEntry::Network(net) && net.holds(ip)),
        admitted is None <==> entry is Invalid,
{
}

/// A list of entries lets a proxy in exactly where one of them, at any position, is
/// its address or a network that holds it. Otherwise the outcome is the position of
/// the first invalid entry, where there is one.
pub proof fn law_lists_are_checked_to_their_end(
    proxy_ip: IpAddr,
    entries: Vec<AllowEntry>,
    verdict: Result<bool, usize>,
)
    requires
        forall|i: int| 0 <= i < entries@.len() ==> (#[trigger] entries@[i]).well_formed(),
        call_ensures(check_allow_list, (proxy_ip, &entries), verdict),
    ensures
        verdict == Ok::<bool, usize>(true) <==> exists|i: int|
            0 <= i < entries@.len() && (#[trigger] entries@[i] == AllowEntry::Address(proxy_ip) || (
            entries@[i] matches AllowEntry::Network(net) && net.holds(proxy_ip))),
        verdict matches Err(n) ==> n < entries@.len() && entries@[n as int] is Invalid && (forall|
            i: int,
        |
            0 <= i < n ==> #[trigger] entries@[i] !is Invalid),
        verdict == Ok::<bool, usize>(false) ==> forall|i: int|
            0 <= i < entries@.len() ==> #[trigger] entries@[i] !is Invalid,
{
    let all = entries@;
    if exists|i: int|
        0 <= i < all.len() && (#[trigger] all[i] == AllowEntry::Address(proxy_ip) || (
        all[i] matches AllowEntry::Network(net) && net.holds(proxy_ip))) {
        let i = choose|i: int|
            0 <= i < all.len() && (#[trigger] all[i] == AllowEntry::Address(proxy_ip) || (
            all[i] matches AllowEntry::Network(net) && net.holds(proxy_ip)));
        assert(all[i].admits(proxy_ip));
    }
    if verdict == Ok::<bool, usize>(false) {
        assert forall|i: int| 0 <= i < all.len() implies #[trigger] all[i] !is Invalid by {
            lemma_some_entry_is_the_first_invalid(all, i);
        }
    }
    if let Err(n) = verdict {
        assert(first_invalid_at(all, n as int));
    }
}

proof fn lemma_some_entry_is_the_first_invalid(entries: Seq<AllowEntry>, i: int)
    requires
        0 <= i < entries.len(),
    ensures
        entries[i] is Invalid ==> exists|n: int| first_invalid_at(entries, n),
    decreases i,
{
    if entries[i] is Invalid {
        if exists|k: int| 0 <= k < i && #[trigger] entries[k] is Invalid {
            let k = choose|k: int| 0 <= k < i && #[trigger] entries[k] is Invalid;
            lemma_some_entry_is_the_first_invalid(entries, k);
        } else {
            assert(first_invalid_at(entries, i));
        }
    }
}

/// Without a list every proxy may connect. With one, a proxy may exactly where one of
/// the texts, at any position and whatever the others are, is its address or a network
/// that holds it.
pub proof fn law_listed_proxies_may_connect(
    proxy_ip: IpAddr,
    list: &Vec<String>,
    without_list: Result<bool, InvalidAllowEntry>,
    verdict: Result<bool, InvalidAllowEntry>,
)
    requires
        call_ensures(is_proxy_ip_allowed, (proxy_ip, None), without_list),
        call_ensures(is_proxy_ip_allowed, (proxy_ip, Some(list)), verdict),
    ensures
        without_list == Ok::<bool, InvalidAllowEntry>(true),
        verdict == Ok::<bool, InvalidAllowEntry>(true) <==> exists|i: int|
            0 <= i < list@.len() && text_admits((#[trigger] list@[i])@, proxy_ip),
{
    lemma_listed_strings(list@, proxy_ip);
}

/// A list of strings lets in the addresses that one of its texts lets in.
pub proof fn lemma_listed_strings(list: Seq<String>, ip: IpAddr)
    ensures
        proxy_verdict(Some(texts_of(list)), ip) == Ok::<bool, Seq<char>>(true) <==> exists|i: int|
            0 <= i < list.len() && text_admits((#[trigger] list[i])@, ip),
{
    let texts = texts_of(list);
    law_any_entry_admits(texts, ip);
    if exists|i: int| 0 <= i < list.len() && text_admits((#[trigger] list[i])@, ip) {
        let i = choose|i: int| 0 <= i < list.len() && text_admits((#[trigger] list[i])@, ip);
        assert(AllowEntry::of_text(texts[i]).admits(ip));
    }
    if exists|i: int| 0 <= i < texts.len() && AllowEntry::of_text(#[trigger] texts[i]).admits(ip) {
        let i = choose|i: int|
            0 <= i < texts.len() && AllowEntry::of_text(#[trigger] texts[i]).admits(ip);
        assert(text_admits(list[i]@, ip));
    }
}

/// What a list of strings says of an address that none of its texts lets in, where the
/// first text that cannot be read stands at `n`, or `n` is the end of the list.
pub proof fn lemma_unlisted_strings(list: Seq<String>, n: int, ip: IpAddr)
    requires
        0 <= n <= list.len(),
        forall|i: int| 0 <= i < n ==> text_is_readable((#[trigger] list[i])@),
        n < list.len() ==> !text_is_readable(list[n]@),
        forall|i: int| 0 <= i < list.len() ==> !text_admits((#[trigger] list[i])@, ip),
    ensures
        proxy_verdict(Some(texts_of(list)), ip) == (if n < list.len() {
            Err::<bool, Seq<char>>(list[n]@)
        } else {
            Ok(false)
        }),
{
    let texts = texts_of(list);
    lemma_listed_strings(list, ip);
    law_any_entry_admits(texts, ip);
    assert forall|i: int| 0 <= i < n implies AllowEntry::of_text(#[trigger] texts[i])
        !is Invalid by {
        assert(text_is_readable(list[i]@));
    }
    if n < list.len() {
        law_error_names_the_first_invalid_entry(texts, ip, n);
    } else {
        law_valid_list_is_no_error(texts, ip);
    }
}

/// A list is an error for a proxy exactly where it has a text that is neither an
/// address nor a network, and none that lets the proxy in. The error holds the first
/// such text.
pub proof fn law_error_holds_the_first_unreadable_text(
    proxy_ip: IpAddr,
    list: &Vec<String>,
    n: int,
    verdict: Result<bool, InvalidAllowEntry>,
)
    requires
        call_ensures(is_proxy_ip_allowed, (proxy_ip, Some(list)), verdict),
        0 <= n <= list@.len(),
        forall|i: int| 0 <= i < n ==> text_is_readable((#[trigger] list@[i])@),
        n < list@.len() ==> !text_is_readable(list@[n]@),
        forall|i: int| 0 <= i < list@.len() ==> !text_admits((#[trigger] list@[i])@, proxy_ip),
    ensures
        match verdict {
            Ok(allowed) => !allowed && n == list@.len(),
            Err(error) => n < list@.len() && error.entry@ == list@[n]@,
        },
{
    lemma_unlisted_strings(list@, n, proxy_ip);
}

/// A proxy whose address stands in the list in its usual notation may connect, and so
/// may one that lies in a network whose usual notation stands there, at any position
/// and whatever the other texts are.
pub proof fn law_spelled_proxies_may_connect(
    proxy_ip: IpAddr,
    list: &Vec<String>,
    i: int,
    net: IpNet,
    verdict: Result<bool, InvalidAllowEntry>,
)
    requires
        call_ensures(is_proxy_ip_allowed, (proxy_ip, Some(list)), verdict),
        0 <= i < list@.len(),
        address::spells_address(list@[i]@, proxy_ip) || (address::spells_network(list@[i]@, net)
            && net.holds(proxy_ip)),
    ensures
        verdict == Ok::<bool, InvalidAllowEntry>(true),
{
    assert(AllowEntry::is_read_as_written(list@[i]@));
    assert(text_admits(list@[i]@, proxy_ip));
    lemma_listed_strings(list@, proxy_ip);
}

/// An original client is all that stands in front of the header's first comma, without
/// the white space around it. There is none exactly where only white space stands
/// there.
pub proof fn law_original_client_is_the_first_of_the_header(
    header: &str,
    client: Option<String>,
)
    requires
        call_ensures(parse_original_client_ip, (header,), client),
    ensures
        exists|from: int, to: int, end: int| #[trigger]
            text::is_trimmed_range(header@, ',', from, to, end) && match client {
                Some(client) => from < to && client@ == header@.subrange(from, to),
                None => from == to,
            },
{
    lemma_original_client_range(header@);
}

/// Where the original client stands in a header.
pub proof fn lemma_original_client_range(header: Seq<char>)
    ensures
        exists|from: int, to: int, end: int| #[trigger]
            text::is_trimmed_range(header, ',', from, to, end) && match original_client_ip(header) {
                Some(client) => from < to && client == header.subrange(from, to),
                None => from == to,
            },
{
    let end = text::lemma_up_to_end(header, ',');
    let front = header.take(end);
    let (from, to) = text::lemma_trim_ends(front);
    assert forall|i: int| 0 <= i < from || to <= i < end implies text::is_white_space(
        #[trigger] header[i],
    ) by {
        assert(front[i] == header[i]);
    }
    if from < to {
        assert(front[from] == header[from]);
        assert(front[to - 1] == header[to - 1]);
    }
    assert(front.subrange(from, to) =~= header.subrange(from, to));
    assert(text::is_trimmed_range(header, ',', from, to, end));
    assert(text::trim(front).len() == to - from);
}

/// The error of a list names the text that cannot be read.
pub proof fn law_list_errors_name_the_text(error: InvalidAllowEntry, message: String)
    requires
        call_ensures(InvalidAllowEntry::message, (&error,), message),
    ensures
        message@ == "Invalid IP address or CIDR in allowed_proxy_ips: "@ + error.entry@,
{
}

} // verus!
