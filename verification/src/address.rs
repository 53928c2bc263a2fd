//! IP addresses and networks.

use crate::text;
use vstd::prelude::*;

verus! {

/// An IP address, as the number that its octets spell in network order.
#[derive(Clone, Copy, Debug, PartialEq, Eq, Structural)]
pub enum IpAddr {
    V4(u32),
    V6(u128),
}

/// An IP network in CIDR notation: an address and the number of leading bits
/// that the addresses of the network share with it.
#[derive(Clone, Copy, Debug, PartialEq, Eq, Structural)]
pub struct IpNet {
    pub addr: IpAddr,
    pub prefix_len: u8,
}

/// The error of a text that is no IP address.
#[derive(Clone, Copy, Debug, PartialEq, Eq, Structural)]
pub struct InvalidAddress;

impl IpAddr {
    /// The number of bits in an address of this family.
    pub open spec fn width(self) -> nat {
        match self {
            IpAddr::V4(_) => 32,
            IpAddr::V6(_) => 128,
        }
    }

    /// The address as a number.
    pub open spec fn number(self) -> nat {
        match self {
            IpAddr::V4(bits) => bits as nat,
            IpAddr::V6(bits) => bits as nat,
        }
    }
}

impl IpNet {
    /// The prefix is no longer than an address of the family.
    pub open spec fn well_formed(self) -> bool {
        self.prefix_len <= self.addr.width()
    }

    /// The number of addresses in the network.
    pub open spec fn size(self) -> nat {
        vstd::arithmetic::power2::pow2((self.addr.width() - self.prefix_len) as nat)
    }

    /// `ip` is of the network's family and agrees with its address in the bits
    /// of the prefix.
    pub open spec fn holds(self, ip: IpAddr) -> bool {
        &&& ip.width() == self.addr.width()
        &&& ip.number() / self.size() == self.addr.number() / self.size()
    }
}

/// The decimal notation of an IPv4 address: its four octets, divided by dots.
pub open spec fn dotted(bits: u32) -> Seq<char> {
    text::joined(
        seq![
            text::decimal((bits / 0x100_0000) as nat),
            text::decimal((bits / 0x1_0000 % 0x100) as nat),
            text::decimal((bits / 0x100 % 0x100) as nat),
            text::decimal((bits % 0x100) as nat),
        ],
        seq!['.'],
    )
}

/// The eight groups of an IPv6 address, each in hexadecimal notation.
pub open spec fn groups(bits: u128) -> Seq<Seq<char>> {
    Seq::new(8, |i: int| text::hexadecimal(group(bits, i)))
}

/// The number of the group at position `i` of an IPv6 address.
pub open spec fn group(bits: u128, i: int) -> nat {
    bits as nat / vstd::arithmetic::power2::pow2((16 * (7 - i)) as nat) % 0x1_0000
}

/// `text` is the notation of an IPv6 address: its groups, divided by colons, or
/// with two colons in place of the groups from position `from` to `to`, which are
/// all zero.
pub open spec fn is_colon_notation(text: Seq<char>, bits: u128, from: int, to: int) -> bool {
    &&& 0 <= from <= to <= 8
    &&& if from == to {
        text == text::joined(groups(bits), seq![':'])
    } else {
        &&& forall|i: int| from <= i < to ==> #[trigger] group(bits, i) == 0
        &&& text == text::joined(groups(bits).take(from), seq![':']) + seq![':', ':']
            + text::joined(groups(bits).skip(to), seq![':'])
    }
}

/// `text` is a notation of an IPv6 address.
pub open spec fn spells_groups(text: Seq<char>, bits: u128) -> bool {
    exists|from: int, to: int| #[trigger] is_colon_notation(text, bits, from, to)
}

/// `text` is the notation of the address `ip`.
pub open spec fn spells_address(text: Seq<char>, ip: IpAddr) -> bool {
    match ip {
        IpAddr::V4(bits) => text == dotted(bits),
        IpAddr::V6(bits) => spells_groups(text, bits),
    }
}

/// `text` is the CIDR notation of the network `net`: its address, a slash and the
/// length of its prefix.
pub open spec fn spells_network(text: Seq<char>, net: IpNet) -> bool {
    &&& net.well_formed()
    &&& exists|address: Seq<char>| #[trigger]
        spells_address(address, net.addr) && text == address + seq!['/'] + text::decimal(
            net.prefix_len as nat,
        )
}

/// A character that occurs in the notation of an address: a hexadecimal digit, a
/// dot or a colon.
pub open spec fn is_address_char(c: char) -> bool {
    '0' <= c <= '9' || 'a' <= c <= 'f' || 'A' <= c <= 'F' || c == '.' || c == ':'
}

/// All characters of `text` occur in the notation of an address.
pub open spec fn has_address_chars(text: Seq<char>) -> bool {
    forall|i: int| 0 <= i < text.len() ==> is_address_char(#[trigger] text[i])
}

/// `text` has a slash at `cut`. In front of it stand characters of addresses, with a
/// colon among them exactly where the network is one of IPv6, and behind it one to
/// three decimal digits that spell the length of the prefix.
pub open spec fn is_network_cut(text: Seq<char>, net: IpNet, cut: int) -> bool {
    let address = text.take(cut);
    let digits = text.skip(cut + 1);
    &&& 0 <= cut < text.len()
    &&& text[cut] == '/'
    &&& has_address_chars(address)
    &&& address.contains(':') <==> net.addr is V6
    &&& 1 <= digits.len() <= 3
    &&& text::is_decimal(digits)
    &&& text::decimal_value(digits) == net.prefix_len
}

/// `text` has the form of a notation of `net`: an address, one slash and the length
/// of the prefix, which is no longer than an address of the family.
pub open spec fn has_network_form(text: Seq<char>, net: IpNet) -> bool {
    &&& net.well_formed()
    &&& exists|cut: int| #[trigger] is_network_cut(text, net, cut)
}

/// The address that `text` spells, as `<std's IpAddr as FromStr>::from_str`
/// reads it.
pub uninterp spec fn address_of(text: Seq<char>) -> Option<IpAddr>;

/// The network that `text` spells, as `<ipnet::IpNet as FromStr>::from_str` reads
/// it.
pub uninterp spec fn network_of(text: Seq<char>) -> Option<IpNet>;

/// Calls `str::parse` for the IP address type of std: the result is the address
/// that the text spells, or nothing where std finds no address. std reads the
/// decimal notation of IPv4 addresses and the hexadecimal one of IPv6 addresses,
/// and nothing with a character that belongs to neither. The address is handed over
/// inside an `ipnet::IpNet` of prefix length 0, which `ipnet::IpNet::new` makes of
/// any address.
#[verifier::external_body]
pub(crate) fn parse_address(text: &str) -> (address: Option<IpAddr>)
    ensures
        address == address_of(text@),
        forall|ip: IpAddr| #[trigger] spells_address(text@, ip) ==> address == Some(ip),
        address is Some ==> has_address_chars(text@),
{
    match ipnet::IpNet::new(text.parse().ok()?, 0).ok()? {
        ipnet::IpNet::V4(net) => Some(IpAddr::V4(u32::from(net.addr()))),
        ipnet::IpNet::V6(net) => Some(IpAddr::V6(u128::from(net.addr()))),
    }
}

/// Calls `<ipnet::IpNet as FromStr>::from_str`: the result is the network that
/// the text spells, or nothing where ipnet finds none. ipnet reads the CIDR notation
/// of networks: an address, one slash and a decimal prefix length, of at most 32 for
/// IPv4 and at most 128 for IPv6. An IPv6 address always has a colon and an IPv4
/// address none. Of the other notations of the address nothing is claimed.
#[verifier::external_body]
pub(crate) fn parse_network(text: &str) -> (network: Option<IpNet>)
    ensures
        network == network_of(text@),
        forall|net: IpNet| #[trigger] spells_network(text@, net) ==> network == Some(net),
        network matches Some(net) ==> has_network_form(text@, net),
{
    match text.parse::<ipnet::IpNet>().ok()? {
        ipnet::IpNet::V4(net) => Some(
            IpNet { addr: IpAddr::V4(u32::from(net.addr())), prefix_len: net.prefix_len() },
        ),
        ipnet::IpNet::V6(net) => Some(
            IpNet { addr: IpAddr::V6(u128::from(net.addr())), prefix_len: net.prefix_len() },
        ),
    }
}

/// Calls `ipnet::IpNet::contains`: an address of the other family is never
/// contained, and one of the same family is if it lies between the first and the
/// last address of the network, that is if it has the network's prefix.
/// `ipnet::IpNet::new_assert`, which builds ipnet's value, panics where the
/// network is not well formed.
#[verifier::external_body]
pub(crate) fn network_contains(network: IpNet, ip: IpAddr) -> (result: bool)
    requires
        network.well_formed(),
    ensures
        result == network.holds(ip),
{
    let outer = match network.addr {
        IpAddr::V4(bits) => ipnet::IpNet::new_assert(bits.to_be_bytes().into(), network.prefix_len),
        IpAddr::V6(bits) => ipnet::IpNet::new_assert(bits.to_be_bytes().into(), network.prefix_len),
    };
    let inner = match ip {
        IpAddr::V4(bits) => ipnet::IpNet::new_assert(bits.to_be_bytes().into(), 0),
        IpAddr::V6(bits) => ipnet::IpNet::new_assert(bits.to_be_bytes().into(), 0),
    };
    outer.contains(&inner.addr())
}

impl std::str::FromStr for IpAddr {
    type Err = InvalidAddress;

    fn from_str(text: &str) -> (address: Result<IpAddr, InvalidAddress>)
        ensures
            address == (match address_of(text@) {
                Some(ip) => Ok::<IpAddr, InvalidAddress>(ip),
                None => Err(InvalidAddress),
            }),
            forall|ip: IpAddr| #[trigger]
                spells_address(text@, ip) ==> address == Ok::<IpAddr, InvalidAddress>(ip),
            address is Ok ==> has_address_chars(text@),
    {
        match parse_address(text) {
            Some(address) => Ok(address),
            None => Err(InvalidAddress),
        }
    }
}

/// A network holds the addresses from its first to its last one and no others:
/// those of its family from its own address with the bits behind the prefix
/// cleared, as many as its size says.
pub proof fn law_network_is_a_range(net: IpNet, ip: IpAddr)
    requires
        net.well_formed(),
    ensures
        net.holds(ip) <==> {
            let first = net.addr.number() - net.addr.number() % net.size();
            &&& ip.width() == net.addr.width()
            &&& first <= ip.number() < first + net.size()
        },
{
    let size = net.size() as int;
    let a = net.addr.number() as int;
    let x = ip.number() as int;
    vstd::arithmetic::power2::lemma_pow2_pos((net.addr.width() - net.prefix_len) as nat);
    vstd::arithmetic::div_mod::lemma_fundamental_div_mod(a, size);
    vstd::arithmetic::div_mod::lemma_fundamental_div_mod(x, size);
    vstd::arithmetic::div_mod::lemma_mod_bound(x, size);
    let first = a - a % size;
    assert(first == size * (a / size));
    if first <= x < first + size {
        vstd::arithmetic::div_mod::lemma_fundamental_div_mod_converse(
            x,
            size,
            a / size,
            x - first,
        );
    }
}

/// A network holds its own address.
pub proof fn law_network_holds_its_address(net: IpNet)
    requires
        net.well_formed(),
    ensures
        net.holds(net.addr),
{
}

/// A network with the longest prefix holds its own address alone, as an entry
/// for that one address would.
pub proof fn law_longest_prefix_is_one_address(net: IpNet, ip: IpAddr)
    requires
        net.prefix_len == net.addr.width(),
    ensures
        net.holds(ip) <==> ip == net.addr,
{
    vstd::arithmetic::power2::lemma2_to64();
    assert(net.size() == 1);
}

/// A network with prefix length 0 holds every address of its family.
pub proof fn law_empty_prefix_is_all_of_the_family(net: IpNet, ip: IpAddr)
    requires
        net.prefix_len == 0,
    ensures
        net.holds(ip) <==> ip.width() == net.addr.width(),
{
    vstd::arithmetic::power2::lemma2_to64();
    let size = net.size() as int;
    match net.addr {
        IpAddr::V4(_) => {
            assert(size == 0x1_0000_0000);
        },
        IpAddr::V6(_) => {
            vstd::arithmetic::power2::lemma_pow2_adds(64, 64);
            assert(size == 0x1_0000_0000_0000_0000 * 0x1_0000_0000_0000_0000);
        },
    }
    if ip.width() == net.addr.width() {
        vstd::arithmetic::div_mod::lemma_basic_div(ip.number() as int, size);
        vstd::arithmetic::div_mod::lemma_basic_div(net.addr.number() as int, size);
    }
}

/// No network holds an address of the other family.
pub proof fn law_families_do_not_mix(v4: u32, v6: u128, prefix_len: u8)
    ensures
        !(IpNet { addr: IpAddr::V4(v4), prefix_len }).holds(IpAddr::V6(v6)),
        !(IpNet { addr: IpAddr::V6(v6), prefix_len }).holds(IpAddr::V4(v4)),
{
}

/// Shortening the prefix of a network keeps every address that it holds.
pub proof fn law_shorter_prefix_holds_more(net: IpNet, prefix_len: u8, ip: IpAddr)
    requires
        net.well_formed(),
        prefix_len <= net.prefix_len,
        net.holds(ip),
    ensures
        (IpNet { addr: net.addr, prefix_len }).holds(ip),
{
    let wide = IpNet { addr: net.addr, prefix_len };
    let small = (net.addr.width() - net.prefix_len) as nat;
    let more = (net.prefix_len - prefix_len) as nat;
    vstd::arithmetic::power2::lemma_pow2_pos(small);
    vstd::arithmetic::power2::lemma_pow2_pos(more);
    vstd::arithmetic::power2::lemma_pow2_adds(small, more);
    assert(wide.size() == net.size() * vstd::arithmetic::power2::pow2(more));
    vstd::arithmetic::div_mod::lemma_div_denominator(
        ip.number() as int,
        net.size() as int,
        vstd::arithmetic::power2::pow2(more) as int,
    );
    vstd::arithmetic::div_mod::lemma_div_denominator(
        net.addr.number() as int,
        net.size() as int,
        vstd::arithmetic::power2::pow2(more) as int,
    );
}

} // verus!
