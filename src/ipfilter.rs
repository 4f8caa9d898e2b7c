use vstd::prelude::*;
use vstd::string::*;
use crate::error::GatewayError;

verus! {

/// A client or network address: IPv4 as its 32-bit value, IPv6 as its 128-bit value.
#[derive(PartialEq, Eq, Structural, Clone, Copy, Debug)]
pub enum IpAddress {
    V4(u32),
    V6(u128),
}

/// What the filter does with an address that no list decides.
#[derive(PartialEq, Eq, Structural, Clone, Copy, Debug)]
pub enum IpFilterAction {
    Allow,
    Deny,
}

pub fn default_action() -> (r: IpFilterAction)
    ensures
        r == IpFilterAction::Allow,
{
    IpFilterAction::Allow
}

/// Address lists of a route, as written in its configuration.
#[derive(Clone, Debug)]
pub struct IpFilterConfig {
    pub whitelist: Vec<String>,
    pub blacklist: Vec<String>,
    pub default_action: IpFilterAction,
}

/// One list entry: a single address, or a network given by its address and prefix length.
#[derive(PartialEq, Eq, Structural, Clone, Copy, Debug)]
pub enum IpRange {
    Single(IpAddress),
    Cidr { network: IpAddress, prefix_len: u8 },
}

/// Mask that keeps the leading `p` bits of an IPv4 address.
pub open spec fn v4_mask(p: u8) -> u32 {
    if p == 0 { 0 } else { (!0u32) << ((32 - p) as u32) }
}

/// Mask that keeps the leading `p` bits of an IPv6 address.
pub open spec fn v6_mask(p: u8) -> u128 {
    if p == 0 { 0 } else { (!0u128) << ((128 - p) as u128) }
}

/// Whether a range holds an address; ranges never hold an address of the other family.
pub open spec fn range_contains(r: IpRange, ip: IpAddress) -> bool {
    match r {
        IpRange::Single(a) => a == ip,
        IpRange::Cidr { network, prefix_len } => match (network, ip) {
            (IpAddress::V4(n), IpAddress::V4(a)) => n & v4_mask(prefix_len) == a & v4_mask(prefix_len),
            (IpAddress::V6(n), IpAddress::V6(a)) => n & v6_mask(prefix_len) == a & v6_mask(prefix_len),
            _ => false,
        },
    }
}

/// A range is well formed when its prefix length fits its address family.
pub open spec fn range_wf(r: IpRange) -> bool {
    match r {
        IpRange::Single(_) => true,
        IpRange::Cidr { network, prefix_len } => match network {
            IpAddress::V4(_) => prefix_len <= 32,
            IpAddress::V6(_) => prefix_len <= 128,
        },
    }
}

pub open spec fn any_contains(rs: Seq<IpRange>, ip: IpAddress) -> bool {
    exists|i: int| 0 <= i < rs.len() && range_contains(rs[i], ip)
}

/// The filter's decision: never an address that a blacklist entry holds; otherwise
/// one that a whitelist entry holds when there is a whitelist, else the default action.
pub open spec fn allowed_spec(white: Seq<IpRange>, black: Seq<IpRange>, default_action: IpFilterAction, ip: IpAddress) -> bool {
    !any_contains(black, ip) && if white.len() > 0 {
        any_contains(white, ip)
    } else {
        default_action == IpFilterAction::Allow
    }
}

impl IpRange {
    /// A network range; fails when the prefix length is longer than the address.
    pub fn cidr(network: IpAddress, prefix_len: u8) -> (r: Result<IpRange, GatewayError>)
        ensures
            match r {
                Ok(range) => range == (IpRange::Cidr { network, prefix_len }) && range_wf(range),
                Err(e) => !range_wf(IpRange::Cidr { network, prefix_len }) && e is Config,
            },
    {
        match network {
            IpAddress::V4(_) => if prefix_len > 32 {
                return Err(GatewayError::Config(String::from_str("Invalid IPv4 prefix length: must be 0-32")));
            },
            IpAddress::V6(_) => if prefix_len > 128 {
                return Err(GatewayError::Config(String::from_str("Invalid IPv6 prefix length: must be 0-128")));
            },
        }
        Ok(IpRange::Cidr { network, prefix_len })
    }

    pub fn contains(&self, ip: &IpAddress) -> (r: bool)
        requires
            range_wf(*self),
        ensures
            r == range_contains(*self, *ip),
    {
        match self {
            IpRange::Single(a) => *a == *ip,
            IpRange::Cidr { network, prefix_len } => match (network, ip) {
                (IpAddress::V4(n), IpAddress::V4(a)) => {
                    let p = *prefix_len;
                    let mask: u32 = if p == 0 { 0 } else { (!0u32) << ((32 - p) as u32) };
                    (*n & mask) == (*a & mask)
                },
                (IpAddress::V6(n), IpAddress::V6(a)) => {
                    let p = *prefix_len;
                    let mask: u128 = if p == 0 { 0 } else { (!0u128) << ((128 - p) as u128) };
                    (*n & mask) == (*a & mask)
                },
                _ => false,
            },
        }
    }
}

/// Whitelist/blacklist filter over client addresses.
pub struct IpFilterService {
    default_action: IpFilterAction,
    whitelist_ranges: Vec<IpRange>,
    blacklist_ranges: Vec<IpRange>,
}

impl IpFilterService {
    pub closed spec fn white(&self) -> Seq<IpRange> {
        self.whitelist_ranges@
    }

    pub closed spec fn black(&self) -> Seq<IpRange> {
        self.blacklist_ranges@
    }

    pub closed spec fn action(&self) -> IpFilterAction {
        self.default_action
    }

    pub open spec fn wf(&self) -> bool {
        &&& forall|i: int| 0 <= i < self.white().len() ==> range_wf(self.white()[i])
        &&& forall|i: int| 0 <= i < self.black().len() ==> range_wf(self.black()[i])
    }

    /// A filter over already parsed ranges.
    pub fn from_ranges(whitelist: Vec<IpRange>, blacklist: Vec<IpRange>, default_action: IpFilterAction) -> (r: IpFilterService)
        requires
            forall|i: int| 0 <= i < whitelist@.len() ==> range_wf(whitelist@[i]),
            forall|i: int| 0 <= i < blacklist@.len() ==> range_wf(blacklist@[i]),
        ensures
            r.wf(),
            r.white() == whitelist@,
            r.black() == blacklist@,
            r.action() == default_action,
    {
        IpFilterService { default_action, whitelist_ranges: whitelist, blacklist_ranges: blacklist }
    }

    /// Whether a client address may pass.
    pub fn is_allowed(&self, ip: &IpAddress) -> (r: bool)
        requires
            self.wf(),
        ensures
            r == allowed_spec(self.white(), self.black(), self.action(), *ip),
    {
        let mut i: usize = 0;
        while i < self.blacklist_ranges.len()
            invariant
                self.wf(),
                i <= self.black().len(),
                forall|j: int| 0 <= j < i ==> !range_contains(self.black()[j], *ip),
            decreases self.black().len() - i,
        {
            if self.blacklist_ranges[i].contains(ip) {
                assert(range_contains(self.black()[i as int], *ip));
                return false;
            }
            i = i + 1;
        }
        if self.whitelist_ranges.len() > 0 {
            let mut k: usize = 0;
            while k < self.whitelist_ranges.len()
                invariant
                    self.wf(),
                    k <= self.white().len(),
                    forall|j: int| 0 <= j < self.black().len() ==> !range_contains(self.black()[j], *ip),
                    forall|j: int| 0 <= j < k ==> !range_contains(self.white()[j], *ip),
                decreases self.white().len() - k,
            {
                if self.whitelist_ranges[k].contains(ip) {
                    assert(range_contains(self.white()[k as int], *ip));
                    return true;
                }
                k = k + 1;
            }
            return false;
        }
        match self.default_action {
            IpFilterAction::Allow => true,
            IpFilterAction::Deny => false,
        }
    }

    /// Whether any list is configured.
    pub fn is_enabled(&self) -> (r: bool)
        ensures
            r == (self.white().len() > 0 || self.black().len() > 0),
    {
        self.whitelist_ranges.len() > 0 || self.blacklist_ranges.len() > 0
    }
}

} // verus!
