//! Which network interface the mDNS responder uses.

use vstd::prelude::*;

use crate::text::{same_text, starts_with};

verus! {

/// An IP address, as a number in network byte order.
#[derive(Debug, Clone, Copy, PartialEq, Eq, Structural)]
pub enum Address {
    V4(u32),
    V6(u128),
}

/// One address of a network interface. An interface with several addresses is
/// listed once for each.
#[derive(Debug, Clone)]
pub struct Interface {
    pub name: String,
    pub index: Option<u32>,
    pub address: Address,
}

/// The interface to use: its name, its addresses and its index.
#[derive(Debug, Clone)]
pub struct Selection {
    pub name: String,
    pub ipv4: u32,
    /// `::` where the interface has no usable IPv6 address.
    pub ipv6: u128,
    pub index: u32,
}

/// The address belongs to the host itself: `127.0.0.0/8` or `::1`.
pub open spec fn is_loopback(address: Address) -> bool {
    match address {
        Address::V4(ip) => 0x7f00_0000 <= ip <= 0x7fff_ffff,
        Address::V6(ip) => ip == 1,
    }
}

/// The IPv6 address is a link-local one: `fe80::/10`.
pub open spec fn is_link_local(ip: u128) -> bool {
    0xfe80_0000_0000_0000_0000_0000_0000_0000u128 <= ip
        <= 0xfebf_ffff_ffff_ffff_ffff_ffff_ffff_ffffu128
}

/// The entry has an IPv6 address to use.
pub open spec fn usable_ipv6(i: Interface, link_local: bool) -> bool {
    &&& !is_loopback(i.address)
    &&& i.address is V6
    &&& link_local ==> is_link_local(i.address->V6_0)
}

/// The entry has an IPv4 address to use.
pub open spec fn usable_ipv4(i: Interface) -> bool {
    !is_loopback(i.address) && i.address is V4
}

/// Entry `j` has an IPv4 address to use of the interface of entry `i`.
pub open spec fn is_partner(all: Seq<Interface>, i: int, j: int) -> bool {
    0 <= j < all.len() && usable_ipv4(all[j]) && all[j].name@ == all[i].name@
}

/// Entry `i` has an IPv6 address to use of an interface that also has an IPv4
/// address to use.
pub open spec fn is_candidate(all: Seq<Interface>, link_local: bool, i: int) -> bool {
    &&& 0 <= i < all.len()
    &&& usable_ipv6(all[i], link_local)
    &&& exists|j: int| is_partner(all, i, j)
}

pub open spec fn has_candidate(all: Seq<Interface>, link_local: bool) -> bool {
    exists|i: int| is_candidate(all, link_local, i)
}

/// Entry `i` is the first candidate, and entry `j` its first partner.
pub open spec fn is_first_pair(all: Seq<Interface>, link_local: bool, i: int, j: int) -> bool {
    &&& is_candidate(all, link_local, i)
    &&& is_partner(all, i, j)
    &&& forall|k: int| k < i ==> !is_candidate(all, link_local, k)
    &&& forall|k: int| k < j ==> !is_partner(all, i, k)
}

/// Entry `i` has an IPv4 address to use of a wired interface, which will do on
/// a host without IPv6.
pub open spec fn is_fallback(all: Seq<Interface>, i: int) -> bool {
    &&& 0 <= i < all.len()
    &&& usable_ipv4(all[i])
    &&& crate::text::starts(all[i].name@, "eth"@) || crate::text::starts(all[i].name@, "eno"@)
}

pub open spec fn has_fallback(all: Seq<Interface>) -> bool {
    exists|i: int| is_fallback(all, i)
}

pub open spec fn index_of(i: Interface) -> u32 {
    match i.index {
        Some(index) => index,
        None => 0,
    }
}

/// `s` is the interface of the entries `i` and `j`.
pub open spec fn is_pair_selection(s: Selection, i: Interface, j: Interface) -> bool {
    &&& s.name@ == i.name@
    &&& s.ipv4 == j.address->V4_0
    &&& s.ipv6 == i.address->V6_0
    &&& s.index == index_of(i)
}

/// `s` is the interface of the entry `i`, used without IPv6.
pub open spec fn is_fallback_selection(s: Selection, i: Interface) -> bool {
    &&& s.name@ == i.name@
    &&& s.ipv4 == i.address->V4_0
    &&& s.ipv6 == 0
    &&& s.index == index_of(i)
}

/// The interface to use is the first with a link-local IPv6 address and an
/// IPv4 address; failing that, the first with any IPv6 address and an IPv4
/// address; failing that, the first wired one with an IPv4 address.
pub open spec fn is_selection(all: Seq<Interface>, s: Selection) -> bool {
    if has_candidate(all, true) {
        exists|i: int, j: int| #[trigger]
            is_first_pair(all, true, i, j) && is_pair_selection(s, all[i], all[j])
    } else if has_candidate(all, false) {
        exists|i: int, j: int| #[trigger]
            is_first_pair(all, false, i, j) && is_pair_selection(s, all[i], all[j])
    } else {
        exists|i: int| #[trigger]
            is_fallback(all, i) && (forall|k: int| k < i ==> !is_fallback(all, k))
                && is_fallback_selection(s, all[i])
    }
}

impl Address {
    pub fn is_loopback(&self) -> (r: bool)
        ensures
            r == is_loopback(*self),
    {
        match self {
            Address::V4(ip) => *ip >= 0x7f00_0000 && *ip <= 0x7fff_ffff,
            Address::V6(ip) => *ip == 1,
        }
    }
}

/// The IPv6 address of an entry, if it is one to use.
fn ipv6_of(i: &Interface, link_local: bool) -> (r: Option<u128>)
    ensures
        r == (if usable_ipv6(*i, link_local) {
            Some(i.address->V6_0)
        } else {
            None
        }),
{
    if i.address.is_loopback() {
        return None;
    }
    match i.address {
        Address::V6(ip) => if !link_local || (ip
            >= 0xfe80_0000_0000_0000_0000_0000_0000_0000u128 && ip
            <= 0xfebf_ffff_ffff_ffff_ffff_ffff_ffff_ffffu128) {
            Some(ip)
        } else {
            None
        },
        Address::V4(_) => None,
    }
}

/// The IPv4 address of an entry, if it is one to use.
fn ipv4_of(i: &Interface) -> (r: Option<u32>)
    ensures
        r == (if usable_ipv4(*i) {
            Some(i.address->V4_0)
        } else {
            None
        }),
{
    if i.address.is_loopback() {
        return None;
    }
    match i.address {
        Address::V4(ip) => Some(ip),
        Address::V6(_) => None,
    }
}

fn index_or_zero(i: &Interface) -> (r: u32)
    ensures
        r == index_of(*i),
{
    match i.index {
        Some(index) => index,
        None => 0,
    }
}

/// The first partner of entry `i`.
fn find_partner(all: &Vec<Interface>, i: usize) -> (r: Option<usize>)
    requires
        i < all@.len(),
    ensures
        match r {
            Some(j) => is_partner(all@, i as int, j as int) && forall|k: int|
                k < j ==> !is_partner(all@, i as int, k),
            None => forall|k: int| !is_partner(all@, i as int, k),
        },
{
    let mut j: usize = 0;
    while j < all.len()
        invariant
            i < all@.len(),
            j <= all@.len(),
            forall|k: int| k < j ==> !is_partner(all@, i as int, k),
        decreases all@.len() - j,
    {
        if ipv4_of(&all[j]).is_some() && same_text(all[j].name.as_str(), all[i].name.as_str()) {
            return Some(j);
        }
        j = j + 1;
    }
    None
}

/// The first candidate and its first partner.
fn find_pair(all: &Vec<Interface>, link_local: bool) -> (r: Option<Selection>)
    ensures
        match r {
            Some(s) => has_candidate(all@, link_local) && exists|i: int, j: int| #[trigger]
                is_first_pair(all@, link_local, i, j) && is_pair_selection(s, all@[i], all@[j]),
            None => !has_candidate(all@, link_local),
        },
{
    let mut i: usize = 0;
    while i < all.len()
        invariant
            i <= all@.len(),
            forall|k: int| k < i ==> !is_candidate(all@, link_local, k),
        decreases all@.len() - i,
    {
        if let Some(ipv6) = ipv6_of(&all[i], link_local) {
            if let Some(j) = find_partner(all, i) {
                if let Some(ipv4) = ipv4_of(&all[j]) {
                    let s = Selection {
                        name: all[i].name.clone(),
                        ipv4,
                        ipv6,
                        index: index_or_zero(&all[i]),
                    };
                    assert(is_candidate(all@, link_local, i as int));
                    assert(is_first_pair(all@, link_local, i as int, j as int));
                    return Some(s);
                }
            }
        }
        assert(!is_candidate(all@, link_local, i as int));
        i = i + 1;
    }
    None
}

/// The first wired interface with an IPv4 address.
fn find_fallback(all: &Vec<Interface>) -> (r: Option<Selection>)
    ensures
        match r {
            Some(s) => exists|i: int| #[trigger]
                is_fallback(all@, i) && (forall|k: int| k < i ==> !is_fallback(all@, k))
                    && is_fallback_selection(s, all@[i]),
            None => !has_fallback(all@),
        },
{
    let mut i: usize = 0;
    while i < all.len()
        invariant
            i <= all@.len(),
            forall|k: int| k < i ==> !is_fallback(all@, k),
        decreases all@.len() - i,
    {
        let name = all[i].name.as_str();
        if starts_with(name, "eth") || starts_with(name, "eno") {
            if let Some(ipv4) = ipv4_of(&all[i]) {
                assert(is_fallback(all@, i as int));
                return Some(
                    Selection {
                        name: all[i].name.clone(),
                        ipv4,
                        ipv6: 0,
                        index: index_or_zero(&all[i]),
                    },
                );
            }
        }
        i = i + 1;
    }
    None
}

/// Pick a LAN interface that has both an IPv6 and a non-loopback IPv4 address,
/// or one to fall back to on an IPv4-only host. Without either there is none.
pub fn initialize_network(all: &Vec<Interface>) -> (r: Option<Selection>)
    ensures
        match r {
            Some(s) => is_selection(all@, s),
            None => !has_candidate(all@, false) && !has_fallback(all@),
        },
{
    proof {
        assert forall|i: int| is_candidate(all@, true, i) implies is_candidate(all@, false, i) by {}
    }
    if let Some(s) = find_pair(all, true) {
        return Some(s);
    }
    if let Some(s) = find_pair(all, false) {
        return Some(s);
    }
    find_fallback(all)
}

/// At most one interface is the one to use: the choice is fixed by the list.
pub proof fn law_selection_is_unique(all: Seq<Interface>, s: Selection, t: Selection)
    requires
        is_selection(all, s),
        is_selection(all, t),
    ensures
        s.name@ == t.name@,
        s.ipv4 == t.ipv4,
        s.ipv6 == t.ipv6,
        s.index == t.index,
{
    if has_candidate(all, true) || has_candidate(all, false) {
        let link_local = has_candidate(all, true);
        let (i, j) = choose|i: int, j: int| #[trigger]
            is_first_pair(all, link_local, i, j) && is_pair_selection(s, all[i], all[j]);
        let (k, l) = choose|k: int, l: int| #[trigger]
            is_first_pair(all, link_local, k, l) && is_pair_selection(t, all[k], all[l]);
        assert(i == k) by {
            if i < k {
                assert(!is_candidate(all, link_local, i));
            }
            if k < i {
                assert(!is_candidate(all, link_local, k));
            }
        }
        assert(j == l) by {
            if j < l {
                assert(!is_partner(all, i, j));
            }
            if l < j {
                assert(!is_partner(all, i, l));
            }
        }
    } else {
        let i = choose|i: int| #[trigger]
            is_fallback(all, i) && (forall|k: int| k < i ==> !is_fallback(all, k))
                && is_fallback_selection(s, all[i]);
        let j = choose|j: int| #[trigger]
            is_fallback(all, j) && (forall|k: int| k < j ==> !is_fallback(all, k))
                && is_fallback_selection(t, all[j]);
        assert(i == j) by {
            if i < j {
                assert(!is_fallback(all, i));
            }
            if j < i {
                assert(!is_fallback(all, j));
            }
        }
    }
}

/// An entry of the list for this interface with this address.
pub open spec fn is_listed(all: Seq<Interface>, name: Seq<char>, address: Address) -> bool {
    exists|i: int|
        0 <= i < all.len() && (#[trigger] all[i]).name@ == name && all[i].address == address
}

/// The interface to use is on the list with the addresses that were picked,
/// none of them a loopback address. Its IPv6 address is a link-local one
/// whenever the list offers that, and is missing only where no interface has
/// both an IPv6 and an IPv4 address.
pub proof fn law_selection_is_usable(all: Seq<Interface>, s: Selection)
    requires
        is_selection(all, s),
    ensures
        is_listed(all, s.name@, Address::V4(s.ipv4)),
        !is_loopback(Address::V4(s.ipv4)),
        has_candidate(all, false) ==> {
            &&& is_listed(all, s.name@, Address::V6(s.ipv6))
            &&& !is_loopback(Address::V6(s.ipv6))
        },
        !has_candidate(all, false) ==> {
            &&& s.ipv6 == 0
            &&& crate::text::starts(s.name@, "eth"@) || crate::text::starts(s.name@, "eno"@)
        },
        has_candidate(all, true) <==> is_link_local(s.ipv6),
{
    assert forall|i: int| is_candidate(all, true, i) implies is_candidate(all, false, i) by {}
    if has_candidate(all, true) || has_candidate(all, false) {
        let link_local = has_candidate(all, true);
        let (i, j) = choose|i: int, j: int| #[trigger]
            is_first_pair(all, link_local, i, j) && is_pair_selection(s, all[i], all[j]);
        assert(all[i].name@ == s.name@ && all[i].address == Address::V6(s.ipv6));
        assert(all[j].name@ == s.name@ && all[j].address == Address::V4(s.ipv4));
        if !link_local && is_link_local(s.ipv6) {
            assert(is_candidate(all, true, i));
        }
    } else {
        let i = choose|i: int| #[trigger]
            is_fallback(all, i) && (forall|k: int| k < i ==> !is_fallback(all, k))
                && is_fallback_selection(s, all[i]);
        assert(all[i].name@ == s.name@ && all[i].address == Address::V4(s.ipv4));
    }
}

/// An IPv4 address is a loopback address exactly if its first byte is 127, an
/// IPv6 address exactly if it is `::1`; and an IPv6 address is link-local
/// exactly if its first ten bits are those of `fe80::`.
pub proof fn law_address_ranges(v4: u32, v6: u128)
    ensures
        is_loopback(Address::V4(v4)) <==> v4 / 0x100_0000 == 127,
        is_loopback(Address::V6(v6)) <==> v6 == 1,
        is_link_local(v6) <==> v6 / 0x40_0000_0000_0000_0000_0000_0000_0000 == 0x3fa,
{
}

/// An interface is found whenever one has an IPv6 address other than `::1` and
/// an IPv4 address outside `127.0.0.0/8`: nothing else is asked of the two.
pub proof fn law_interfaces_are_found(all: Seq<Interface>, i: int, j: int, v6: u128, v4: u32)
    requires
        0 <= i < all.len(),
        0 <= j < all.len(),
        all[i].name@ == all[j].name@,
        all[i].address == Address::V6(v6),
        all[j].address == Address::V4(v4),
        v6 != 1,
        v4 / 0x100_0000 != 127,
    ensures
        has_candidate(all, false),
        v6 / 0x40_0000_0000_0000_0000_0000_0000_0000 == 0x3fa ==> has_candidate(all, true),
{
    assert(is_partner(all, i, j));
    assert(is_candidate(all, false, i));
    if v6 / 0x40_0000_0000_0000_0000_0000_0000_0000 == 0x3fa {
        assert(is_candidate(all, true, i));
    }
}

/// A wired interface, named `eth` or `eno` and anything after it, with an IPv4
/// address outside `127.0.0.0/8` will do where none has both addresses.
pub proof fn law_wired_interfaces_are_found(all: Seq<Interface>, i: int, v4: u32)
    requires
        0 <= i < all.len(),
        all[i].address == Address::V4(v4),
        v4 / 0x100_0000 != 127,
        all[i].name@.len() >= 3,
        all[i].name@[0] == 'e',
        (all[i].name@[1] == 't' && all[i].name@[2] == 'h') || (all[i].name@[1] == 'n'
            && all[i].name@[2] == 'o'),
    ensures
        has_fallback(all),
{
    reveal_strlit("eth");
    reveal_strlit("eno");
    let name = all[i].name@;
    crate::text::law_starts_and_ends(name, "eth"@);
    crate::text::law_starts_and_ends(name, "eno"@);
    assert(is_fallback(all, i));
}

/// What is picked, entry by entry. Of the entries with a link-local IPv6
/// address whose interface also has an IPv4 address, the first one is; if there
/// is none, the first of those with any IPv6 address. With it goes the first
/// IPv4 address of its interface. Loopback addresses do not count.
pub proof fn law_first_interface_is_picked(
    all: Seq<Interface>,
    s: Selection,
    i: int,
    j: int,
    v6: u128,
    v4: u32,
)
    requires
        is_selection(all, s),
        0 <= i < all.len(),
        0 <= j < all.len(),
        all[i].name@ == all[j].name@,
        all[i].address == Address::V6(v6),
        all[j].address == Address::V4(v4),
        v6 != 1,
        v4 / 0x100_0000 != 127,
        // `j` is the first entry with an IPv4 address of this interface.
        forall|k: int|
            0 <= k < j && (#[trigger] all[k]).name@ == all[i].name@ ==> (all[k].address
                matches Address::V4(ip) ==> ip / 0x100_0000 == 127),
        // No entry before `i` is as good, and none after it is better.
        forall|k: int, l: int|
            0 <= k < all.len() && 0 <= l < all.len() && (#[trigger] all[k]).name@ == (
            #[trigger] all[l]).name@ && all[k].address is V6 && all[k].address->V6_0 != 1
                && all[l].address is V4 && all[l].address->V4_0 / 0x100_0000 != 127 ==> {
                let local = all[k].address->V6_0 / 0x40_0000_0000_0000_0000_0000_0000_0000 == 0x3fa;
                if v6 / 0x40_0000_0000_0000_0000_0000_0000_0000 == 0x3fa {
                    local ==> k >= i
                } else {
                    !local && k >= i
                }
            },
    ensures
        s.name@ == all[i].name@,
        s.ipv6 == v6,
        s.ipv4 == v4,
        s.index == (match all[i].index {
            Some(index) => index,
            None => 0,
        }),
{
    let local = v6 / 0x40_0000_0000_0000_0000_0000_0000_0000 == 0x3fa;
    assert(is_partner(all, i, j));
    assert(is_candidate(all, local, i));
    assert forall|k: int| is_candidate(all, true, k) implies local by {
        let l = choose|l: int| is_partner(all, k, l);
        assert(all[k].name@ == all[l].name@);
    }
    assert forall|k: int| k < i implies !is_candidate(all, local, k) by {
        if is_candidate(all, local, k) {
            let l = choose|l: int| is_partner(all, k, l);
            assert(all[k].name@ == all[l].name@);
        }
    }
    assert forall|k: int| k < j implies !is_partner(all, i, k) by {
        if is_partner(all, i, k) {
            assert(all[k].name@ == all[i].name@);
        }
    }
    assert(is_first_pair(all, local, i, j));
    assert(has_candidate(all, local));
    let (m, n) = choose|m: int, n: int| #[trigger]
        is_first_pair(all, local, m, n) && is_pair_selection(s, all[m], all[n]);
    assert(m == i) by {
        if m < i {
            assert(!is_candidate(all, local, m));
        }
        if i < m {
            assert(!is_candidate(all, local, i));
        }
    }
    assert(n == j) by {
        if n < j {
            assert(!is_partner(all, i, n));
        }
        if j < n {
            assert(!is_partner(all, i, j));
        }
    }
}

/// Where no interface has both addresses, the first wired one with an IPv4
/// address is picked, without an IPv6 address.
pub proof fn law_first_wired_interface_is_picked(
    all: Seq<Interface>,
    s: Selection,
    i: int,
    v4: u32,
)
    requires
        is_selection(all, s),
        0 <= i < all.len(),
        all[i].address == Address::V4(v4),
        v4 / 0x100_0000 != 127,
        crate::text::starts(all[i].name@, "eth"@) || crate::text::starts(all[i].name@, "eno"@),
        forall|k: int|
            0 <= k < i ==> !((#[trigger] all[k]).address is V4 && all[k].address->V4_0 / 0x100_0000
                != 127 && (crate::text::starts(all[k].name@, "eth"@) || crate::text::starts(
                all[k].name@,
                "eno"@,
            ))),
        forall|k: int, l: int|
            0 <= k < all.len() && 0 <= l < all.len() && (#[trigger] all[k]).name@ == (
            #[trigger] all[l]).name@ && all[k].address is V6 && all[l].address is V4
                ==> all[k].address->V6_0 == 1 || all[l].address->V4_0 / 0x100_0000 == 127,
    ensures
        s.name@ == all[i].name@,
        s.ipv4 == v4,
        s.ipv6 == 0,
        s.index == (match all[i].index {
            Some(index) => index,
            None => 0,
        }),
{
    assert forall|link_local: bool, k: int| !is_candidate(all, link_local, k) by {
        if is_candidate(all, link_local, k) {
            let l = choose|l: int| is_partner(all, k, l);
            assert(all[k].name@ == all[l].name@);
        }
    }
    assert(is_fallback(all, i));
    let m = choose|m: int| #[trigger]
        is_fallback(all, m) && (forall|k: int| k < m ==> !is_fallback(all, k))
            && is_fallback_selection(s, all[m]);
    if m < i {
        assert(all[m].address is V4);
    }
    if i < m {
        assert(!is_fallback(all, i));
    }
}

/// What was said of interfaces that are found holds the other way round: a
/// candidate has both addresses, and a fallback is wired and has an IPv4
/// address.
pub proof fn law_only_usable_interfaces_are_found(all: Seq<Interface>)
    ensures
        has_candidate(all, false) ==> exists|i: int, j: int|
            0 <= i < all.len() && 0 <= j < all.len() && (#[trigger] all[i]).name@ == (
            #[trigger] all[j]).name@ && all[i].address is V6 && all[i].address->V6_0 != 1
                && all[j].address is V4 && all[j].address->V4_0 / 0x100_0000 != 127,
        has_fallback(all) ==> exists|i: int|
            0 <= i < all.len() && (#[trigger] all[i]).address is V4 && all[i].address->V4_0
                / 0x100_0000 != 127 && (crate::text::starts(all[i].name@, "eth"@)
                || crate::text::starts(all[i].name@, "eno"@)),
{
    if has_candidate(all, false) {
        let i = choose|i: int| is_candidate(all, false, i);
        let j = choose|j: int| is_partner(all, i, j);
        assert(all[i].name@ == all[j].name@);
    }
    if has_fallback(all) {
        let i = choose|i: int| is_fallback(all, i);
        assert(all[i].address is V4);
    }
}

} // verus!
