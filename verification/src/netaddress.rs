//! Network (CIDR) addresses: an IP address together with a subnet mask.

use vstd::prelude::*;

use crate::text::{dec_digit, dec_text, push_char, push_dec, push_str, str_chars};

verus! {

/// An IP address: IPv4 as its 32-bit value, IPv6 as its 128-bit value.
#[derive(Clone, Copy, Debug, PartialEq, Eq, Structural)]
pub enum IpAddress {
    V4(u32),
    V6(u128),
}

/// The IPv4 limited broadcast address, 255.255.255.255.
pub const BROADCAST4: u32 = 0xFFFF_FFFF;

/// `0xFFFFFFFF` with its `k` lowest bits cleared.
pub open spec fn cleared32(k: nat) -> u32 {
    if k >= 32 {
        0
    } else {
        0xFFFF_FFFFu32 << (k as u32)
    }
}

/// `u128::MAX` with its `k` lowest bits cleared.
pub open spec fn cleared128(k: nat) -> u128 {
    if k >= 128 {
        0
    } else {
        0xFFFF_FFFF_FFFF_FFFF_FFFF_FFFF_FFFF_FFFFu128 << (k as u128)
    }
}

/// The IPv4 subnet mask with `prefix` leading one bits.
pub open spec fn mask_v4(prefix: nat) -> u32 {
    cleared32((32 - prefix) as nat)
}

/// The IPv6 subnet mask with `prefix` leading one bits.
pub open spec fn mask_v6(prefix: nat) -> u128 {
    cleared128((128 - prefix) as nat)
}

/// The value of the four octets `o`, first octet most significant.
pub open spec fn octets_value(o: Seq<u8>) -> u32 {
    (o[0] as int * 0x100_0000 + o[1] as int * 0x1_0000 + o[2] as int * 0x100 + o[3] as int) as u32
}

/// Dotted decimal text of an IPv4 address, e.g. `10.10.10.1`.
pub open spec fn ipv4_text(a: u32) -> Seq<char> {
    dec_text((a as nat / 0x100_0000) % 256) + "."@ + dec_text((a as nat / 0x1_0000) % 256) + "."@
        + dec_text((a as nat / 0x100) % 256) + "."@ + dec_text(a as nat % 256)
}

proof fn lemma_clear32_step(k: u32)
    requires
        k < 32,
    ensures
        (0xFFFF_FFFFu32 << k) ^ (1u32 << k) == cleared32((k + 1) as nat),
{
    if k < 31 {
        assert((0xFFFF_FFFFu32 << k) ^ (1u32 << k) == 0xFFFF_FFFFu32 << ((k + 1) as u32))
            by (bit_vector)
            requires
                k < 31,
        ;
    } else {
        assert((0xFFFF_FFFFu32 << k) ^ (1u32 << k) == 0) by (bit_vector)
            requires
                k == 31,
        ;
    }
}

proof fn lemma_clear128_step(k: u128)
    requires
        k < 128,
    ensures
        (0xFFFF_FFFF_FFFF_FFFF_FFFF_FFFF_FFFF_FFFFu128 << k) ^ (1u128 << k) == cleared128(
            (k + 1) as nat,
        ),
{
    if k < 127 {
        assert((0xFFFF_FFFF_FFFF_FFFF_FFFF_FFFF_FFFF_FFFFu128 << k) ^ (1u128 << k)
            == 0xFFFF_FFFF_FFFF_FFFF_FFFF_FFFF_FFFF_FFFFu128 << ((k + 1) as u128)) by (bit_vector)
            requires
                k < 127,
        ;
    } else {
        assert((0xFFFF_FFFF_FFFF_FFFF_FFFF_FFFF_FFFF_FFFFu128 << k) ^ (1u128 << k) == 0)
            by (bit_vector)
            requires
                k == 127,
        ;
    }
}

/// Computes the IPv4 subnet mask with `prefix` leading one bits, clearing
/// the low bits one at a time.
fn subnet_v4(prefix: u8) -> (m: u32)
    requires
        prefix <= 32,
    ensures
        m == mask_v4(prefix as nat),
{
    let mut subnet: u32 = u32::MAX;
    let n: u8 = 32 - prefix;
    let mut idx: u8 = 0;
    assert(0xFFFF_FFFFu32 << 0u32 == 0xFFFF_FFFFu32) by (bit_vector);
    while idx < n
        invariant
            n == 32 - prefix,
            idx <= n,
            subnet == cleared32(idx as nat),
        decreases n - idx,
    {
        proof {
            lemma_clear32_step(idx as u32);
        }
        subnet = subnet ^ (1u32 << idx);
        idx = idx + 1;
    }
    subnet
}

/// Computes the IPv6 subnet mask with `prefix` leading one bits.
fn subnet_v6(prefix: u8) -> (m: u128)
    requires
        prefix <= 128,
    ensures
        m == mask_v6(prefix as nat),
{
    let mut subnet: u128 = u128::MAX;
    let n: u8 = 128 - prefix;
    let mut idx: u8 = 0;
    assert(0xFFFF_FFFF_FFFF_FFFF_FFFF_FFFF_FFFF_FFFFu128 << 0u128
        == 0xFFFF_FFFF_FFFF_FFFF_FFFF_FFFF_FFFF_FFFFu128) by (bit_vector);
    while idx < n
        invariant
            n == 128 - prefix,
            idx <= n,
            subnet == cleared128(idx as nat),
        decreases n - idx,
    {
        proof {
            lemma_clear128_step(idx as u128);
        }
        subnet = subnet ^ (1u128 << idx);
        idx = idx + 1;
    }
    subnet
}

/// A Classless Inter-Domain Routing (CIDR) network address.
#[derive(Debug)]
pub struct NetworkAddress {
    ip: IpAddress,
    mask: IpAddress,
    prefix: u8,
}

impl NetworkAddress {
    #[verifier::type_invariant]
    spec fn well_formed(self) -> bool {
        match (self.ip, self.mask) {
            (IpAddress::V4(_), IpAddress::V4(m)) => self.prefix <= 32 && m == mask_v4(
                self.prefix as nat,
            ),
            (IpAddress::V6(_), IpAddress::V6(m)) => self.prefix <= 128 && m == mask_v6(
                self.prefix as nat,
            ),
            _ => false,
        }
    }

    /// The IP address the network was created with.
    pub closed spec fn spec_ip(&self) -> IpAddress {
        self.ip
    }

    /// Number of leading one bits of the subnet mask.
    pub closed spec fn spec_prefix(&self) -> nat {
        self.prefix as nat
    }

    /// The subnet mask, as an address of the same version as the IP.
    pub open spec fn spec_mask(&self) -> IpAddress {
        match self.spec_ip() {
            IpAddress::V4(_) => IpAddress::V4(mask_v4(self.spec_prefix())),
            IpAddress::V6(_) => IpAddress::V6(mask_v6(self.spec_prefix())),
        }
    }

    /// The network address: the IP with its host bits cleared.
    pub open spec fn spec_network(&self) -> IpAddress {
        match self.spec_ip() {
            IpAddress::V4(a) => IpAddress::V4(a & mask_v4(self.spec_prefix())),
            IpAddress::V6(a) => IpAddress::V6(a & mask_v6(self.spec_prefix())),
        }
    }

    /// The broadcast address: the IP with its host bits set.
    pub open spec fn spec_broadcast(&self) -> IpAddress {
        match self.spec_ip() {
            IpAddress::V4(a) => IpAddress::V4(a | !mask_v4(self.spec_prefix())),
            IpAddress::V6(a) => IpAddress::V6(a | !mask_v6(self.spec_prefix())),
        }
    }

    /// `x` is in this network (same version, same network bits).
    pub open spec fn in_subnet(&self, x: IpAddress) -> bool {
        match (x, self.spec_ip()) {
            (IpAddress::V4(x), IpAddress::V4(a)) => x & mask_v4(self.spec_prefix()) == a & mask_v4(
                self.spec_prefix(),
            ),
            (IpAddress::V6(x), IpAddress::V6(a)) => x & mask_v6(self.spec_prefix()) == a & mask_v6(
                self.spec_prefix(),
            ),
            _ => false,
        }
    }

    /// The text `ip/prefix` of an IPv4 network, e.g. `10.10.10.1/24`.
    pub open spec fn spec_text(&self) -> Seq<char> {
        match self.spec_ip() {
            IpAddress::V4(a) => ipv4_text(a) + "/"@ + dec_text(self.spec_prefix()),
            IpAddress::V6(_) => Seq::empty(),
        }
    }

    /// Creates a network from an IP address and the number of leading one
    /// bits of its subnet mask.
    pub fn new(ip: IpAddress, mask: u8) -> (n: NetworkAddress)
        requires
            ip is V4 ==> mask <= 32,
            ip is V6 ==> mask <= 128,
        ensures
            n.spec_ip() == ip,
            n.spec_prefix() == mask,
    {
        match ip {
            IpAddress::V4(a) => NetworkAddress::new_v4_value(a, mask),
            IpAddress::V6(a) => NetworkAddress::new_v6(a, mask),
        }
    }

    /// Creates an IPv4 network from the four octets of its IP address.
    pub fn new_v4(ip: [u8; 4], mask: u8) -> (n: NetworkAddress)
        requires
            mask <= 32,
        ensures
            n.spec_ip() == IpAddress::V4(octets_value(ip@)),
            n.spec_prefix() == mask,
    {
        let a: u32 = (ip[0] as u32) * 0x100_0000 + (ip[1] as u32) * 0x1_0000 + (ip[2] as u32) * 0x100
            + ip[3] as u32;
        NetworkAddress::new_v4_value(a, mask)
    }

    /// Creates an IPv4 network from the 32-bit value of its IP address.
    pub fn new_v4_value(ip: u32, mask: u8) -> (n: NetworkAddress)
        requires
            mask <= 32,
        ensures
            n.spec_ip() == IpAddress::V4(ip),
            n.spec_prefix() == mask,
    {
        let subnet = subnet_v4(mask);
        NetworkAddress { ip: IpAddress::V4(ip), mask: IpAddress::V4(subnet), prefix: mask }
    }

    /// Creates an IPv6 network from the 128-bit value of its IP address.
    pub fn new_v6(ip: u128, mask: u8) -> (n: NetworkAddress)
        requires
            mask <= 128,
        ensures
            n.spec_ip() == IpAddress::V6(ip),
            n.spec_prefix() == mask,
    {
        let subnet = subnet_v6(mask);
        NetworkAddress { ip: IpAddress::V6(ip), mask: IpAddress::V6(subnet), prefix: mask }
    }

    /// Returns the IP address used to create this network.
    pub fn ip(&self) -> (r: IpAddress)
        ensures
            r == self.spec_ip(),
    {
        self.ip
    }

    /// Returns the subnet mask formatted as an IP address (i.e., 255.255.255.0).
    pub fn subnet_mask(&self) -> (r: IpAddress)
        ensures
            r == self.spec_mask(),
    {
        proof {
            use_type_invariant(self);
        }
        self.mask
    }

    /// Returns the number of leading one bits of the subnet mask.
    pub fn subnet_mask_bits(&self) -> (r: u8)
        ensures
            r == self.spec_prefix(),
            self.spec_ip() is V4 ==> r <= 32,
            self.spec_ip() is V6 ==> r <= 128,
    {
        proof {
            use_type_invariant(self);
        }
        self.prefix
    }

    /// Returns the network address (aka all zeros in the host component).
    pub fn network(&self) -> (r: IpAddress)
        ensures
            r == self.spec_network(),
    {
        proof {
            use_type_invariant(self);
        }
        match (self.ip, self.mask) {
            (IpAddress::V4(ip), IpAddress::V4(mask)) => IpAddress::V4(ip & mask),
            (IpAddress::V6(ip), IpAddress::V6(mask)) => IpAddress::V6(ip & mask),
            (IpAddress::V4(ip), _) => IpAddress::V4(ip),
            (IpAddress::V6(ip), _) => IpAddress::V6(ip),
        }
    }

    /// Returns the broadcast address (aka all ones in the host component).
    pub fn broadcast(&self) -> (r: IpAddress)
        ensures
            r == self.spec_broadcast(),
    {
        proof {
            use_type_invariant(self);
        }
        match (self.ip, self.mask) {
            (IpAddress::V4(ip), IpAddress::V4(mask)) => IpAddress::V4(ip | !mask),
            (IpAddress::V6(ip), IpAddress::V6(mask)) => IpAddress::V6(ip | !mask),
            (IpAddress::V4(ip), _) => IpAddress::V4(ip),
            (IpAddress::V6(ip), _) => IpAddress::V6(ip),
        }
    }

    /// Returns true if `ip` is contained in this network or is the universal
    /// broadcast address (255.255.255.255). An address of the other IP
    /// version is never contained.
    pub fn contains(&self, ip: IpAddress) -> (r: bool)
        ensures
            r == (ip == IpAddress::V4(BROADCAST4) || self.in_subnet(ip)),
    {
        match ip {
            IpAddress::V4(BROADCAST4) => true,
            _ => self.contains_in_subnet(ip),
        }
    }

    /// Returns true if `ip` has the version and the network bits of this network.
    pub fn contains_in_subnet(&self, ip: IpAddress) -> (r: bool)
        ensures
            r == self.in_subnet(ip),
    {
        proof {
            use_type_invariant(self);
        }
        match (ip, self.mask) {
            (IpAddress::V4(x), IpAddress::V4(mask)) => IpAddress::V4(x & mask) == self.network(),
            (IpAddress::V6(x), IpAddress::V6(mask)) => IpAddress::V6(x & mask) == self.network(),
            (_, _) => false,
        }
    }

    /// True when this network was created with the IP address `other`.
    pub fn eq_ip(&self, other: IpAddress) -> (r: bool)
        ensures
            r == (self.spec_ip() == other),
    {
        self.ip == other
    }

    /// Renders an IPv4 network as `ip/prefix`, e.g. `10.10.10.1/24`.
    pub fn to_string(&self) -> (s: String)
        requires
            self.spec_ip() is V4,
        ensures
            s@ == self.spec_text(),
    {
        let mut s = match self.ip {
            IpAddress::V4(a) => ipv4_to_string(a),
            IpAddress::V6(_) => String::new(),
        };
        push_char(&mut s, '/');
        push_dec(&mut s, self.prefix as u64);
        proof {
            reveal_strlit("/");
        }
        s
    }

    /// The next network of the same prefix: the IP address plus one. `None`
    /// when the address is the last one of its version.
    pub fn next(&self) -> (r: Option<NetworkAddress>)
        ensures
            self.spec_ip() matches IpAddress::V4(a) ==> (if a < u32::MAX {
                r matches Some(n) && n.spec_ip() == IpAddress::V4((a + 1) as u32) && n.spec_prefix()
                    == self.spec_prefix()
            } else {
                r is None
            }),
            self.spec_ip() matches IpAddress::V6(a) ==> (if a < u128::MAX {
                r matches Some(n) && n.spec_ip() == IpAddress::V6((a + 1) as u128)
                    && n.spec_prefix() == self.spec_prefix()
            } else {
                r is None
            }),
    {
        proof {
            use_type_invariant(self);
        }
        match self.ip {
            IpAddress::V4(a) => if a < u32::MAX {
                Some(NetworkAddress::new_v4_value(a + 1, self.prefix))
            } else {
                None
            },
            IpAddress::V6(a) => if a < u128::MAX {
                Some(NetworkAddress::new_v6(a + 1, self.prefix))
            } else {
                None
            },
        }
    }
}

/// Renders an IPv4 address in dotted decimal.
pub fn ipv4_to_string(a: u32) -> (s: String)
    ensures
        s@ == ipv4_text(a),
{
    let b0 = (a >> 24) & 0xFF;
    let b1 = (a >> 16) & 0xFF;
    let b2 = (a >> 8) & 0xFF;
    let b3 = a & 0xFF;
    assert(b0 == (a / 0x100_0000) % 256) by (bit_vector)
        requires
            b0 == (a >> 24) & 0xFF,
    ;
    assert(b1 == (a / 0x1_0000) % 256) by (bit_vector)
        requires
            b1 == (a >> 16) & 0xFF,
    ;
    assert(b2 == (a / 0x100) % 256) by (bit_vector)
        requires
            b2 == (a >> 8) & 0xFF,
    ;
    assert(b3 == a % 256) by (bit_vector)
        requires
            b3 == a & 0xFF,
    ;
    let mut s = String::new();
    push_dec(&mut s, b0 as u64);
    push_char(&mut s, '.');
    push_dec(&mut s, b1 as u64);
    push_char(&mut s, '.');
    push_dec(&mut s, b2 as u64);
    push_char(&mut s, '.');
    push_dec(&mut s, b3 as u64);
    proof {
        reveal_strlit(".");
    }
    assert(s@ =~= ipv4_text(a));
    s
}

/// The network address and the broadcast address of a network are in it,
/// and so is the address the network was created with.
pub proof fn lemma_network_bounds_in_subnet(n: NetworkAddress)
    ensures
        n.in_subnet(n.spec_network()),
        n.in_subnet(n.spec_broadcast()),
        n.in_subnet(n.spec_ip()),
{
    match n.spec_ip() {
        IpAddress::V4(a) => {
            let m = mask_v4(n.spec_prefix());
            assert((a & m) & m == a & m) by (bit_vector);
            assert((a | !m) & m == a & m) by (bit_vector);
        },
        IpAddress::V6(a) => {
            let m = mask_v6(n.spec_prefix());
            assert((a & m) & m == a & m) by (bit_vector);
            assert((a | !m) & m == a & m) by (bit_vector);
        },
    }
}

/// Every address of an IPv4 network lies between its network address and
/// its broadcast address.
pub proof fn lemma_subnet_range_v4(n: NetworkAddress, x: u32)
    requires
        n.in_subnet(IpAddress::V4(x)),
    ensures
        n.spec_network() matches IpAddress::V4(lo) && lo <= x,
        n.spec_broadcast() matches IpAddress::V4(hi) && x <= hi,
{
    if let IpAddress::V4(a) = n.spec_ip() {
        let m = mask_v4(n.spec_prefix());
        assert(x & m == a & m ==> a & m <= x) by (bit_vector);
        assert(x & m == a & m ==> x <= (a | !m)) by (bit_vector);
    }
}


/// `c` is an ASCII decimal digit.
pub open spec fn is_digit(c: char) -> bool {
    '0' <= c && c <= '9'
}

/// The value of a decimal digit.
pub open spec fn digit_value(c: char) -> nat {
    (c as int - '0' as int) as nat
}

/// The value of a string of decimal digits, most significant first.
pub open spec fn digits_value(d: Seq<char>) -> nat
    decreases d.len(),
{
    if d.len() == 0 {
        0
    } else {
        digits_value(d.drop_last()) * 10 + digit_value(d.last())
    }
}

proof fn lemma_dec_digit(d: int)
    requires
        0 <= d < 10,
    ensures
        is_digit(dec_digit(d)),
        digit_value(dec_digit(d)) == d,
{
}

proof fn lemma_digit_char(c: char)
    requires
        is_digit(c),
    ensures
        dec_digit(digit_value(c) as int) == c,
        digit_value(c) < 10,
{
}

/// The decimal text of an octet is one to three digits, without a leading
/// zero, whose value is the octet.
proof fn lemma_octet_text(n: nat)
    requires
        n < 256,
    ensures
        1 <= dec_text(n).len() <= 3,
        forall|i: int| 0 <= i < dec_text(n).len() ==> is_digit(#[trigger] dec_text(n)[i]),
        dec_text(n).len() > 1 ==> dec_text(n)[0] != '0',
        digits_value(dec_text(n)) == n,
{
    reveal_with_fuel(digits_value, 4);
    let t = dec_text(n);
    if n < 10 {
        lemma_dec_digit(n as int);
        assert(t.drop_last() =~= Seq::<char>::empty());
    } else if n < 100 {
        lemma_dec_digit((n / 10) as int);
        lemma_dec_digit((n % 10) as int);
        assert(dec_text(n / 10) == seq![dec_digit((n / 10) as int)]);
        assert(t.drop_last() == dec_text(n / 10));
        assert(dec_text(n / 10).drop_last() =~= Seq::<char>::empty());
    } else {
        lemma_dec_digit((n / 100) as int);
        lemma_dec_digit(((n / 10) % 10) as int);
        lemma_dec_digit((n % 10) as int);
        assert(n / 10 / 10 == n / 100);
        assert(dec_text(n / 100) == seq![dec_digit((n / 100) as int)]);
        assert(dec_text(n / 10) == dec_text(n / 100).push(dec_digit(((n / 10) % 10) as int)));
        assert(t.drop_last() == dec_text(n / 10));
        assert(dec_text(n / 10).drop_last() == dec_text(n / 100));
        assert(dec_text(n / 100).drop_last() =~= Seq::<char>::empty());
    }
}

/// One to three digits without a leading zero, of value at most 255, are
/// the decimal text of their value.
proof fn lemma_canonical_octet(d: Seq<char>)
    requires
        1 <= d.len() <= 3,
        forall|i: int| 0 <= i < d.len() ==> is_digit(#[trigger] d[i]),
        d.len() > 1 ==> d[0] != '0',
        digits_value(d) <= 255,
    ensures
        dec_text(digits_value(d)) == d,
{
    reveal_with_fuel(digits_value, 4);
    let v = digits_value(d);
    if d.len() == 1 {
        lemma_digit_char(d[0]);
        assert(d.drop_last() =~= Seq::<char>::empty());
        assert(dec_text(v) =~= d);
    } else if d.len() == 2 {
        lemma_digit_char(d[0]);
        lemma_digit_char(d[1]);
        let d1 = d.drop_last();
        assert(d1.drop_last() =~= Seq::<char>::empty());
        assert(digits_value(d1) == digit_value(d[0]));
        assert(v == digit_value(d[0]) * 10 + digit_value(d[1]));
        assert(v / 10 == digit_value(d[0]) && v % 10 == digit_value(d[1]));
        assert(dec_text(v / 10) == seq![d[0]]);
        assert(dec_text(v) =~= d);
    } else {
        lemma_digit_char(d[0]);
        lemma_digit_char(d[1]);
        lemma_digit_char(d[2]);
        let d1 = d.drop_last();
        let d2 = d1.drop_last();
        assert(d2.drop_last() =~= Seq::<char>::empty());
        assert(d2 =~= seq![d[0]]);
        assert(digits_value(d2) == digit_value(d[0]));
        assert(digits_value(d1) == digit_value(d[0]) * 10 + digit_value(d[1]));
        assert(v == (digit_value(d[0]) * 10 + digit_value(d[1])) * 10 + digit_value(d[2]));
        assert(v / 10 == digit_value(d[0]) * 10 + digit_value(d[1]));
        assert(v % 10 == digit_value(d[2]));
        assert(v / 10 / 10 == digit_value(d[0]) && (v / 10) % 10 == digit_value(d[1]));
        assert(dec_text(v / 10 / 10) == seq![d[0]]);
        assert(dec_text(v / 10) =~= seq![d[0], d[1]]);
        assert(dec_text(v) =~= d);
    }
}

/// The octet `n` is written in `s` from `start` to `end`, and no digit
/// follows it.
pub open spec fn octet_at(s: Seq<char>, start: int, end: int, n: nat) -> bool {
    &&& 0 <= start < end <= s.len()
    &&& s.subrange(start, end) == dec_text(n)
    &&& (end == s.len() || !is_digit(s[end]))
}

/// Reads the decimal octet written in `s` from `start`: one to three
/// digits, no leading zero, a value of at most 255, no further digit.
fn parse_octet(s: &[char], start: usize) -> (r: Option<(u8, usize)>)
    requires
        start <= s@.len(),
    ensures
        r matches Some((v, end)) ==> octet_at(s@, start as int, end as int, v as nat),
        forall|n: nat, end: int|
            n < 256 && #[trigger] octet_at(s@, start as int, end, n) ==> r == Some(
                (n as u8, end as usize),
            ),
{
    let mut i = start;
    let mut val: u32 = 0;
    while i < s.len() && i - start < 3 && s[i] >= '0' && s[i] <= '9'
        invariant
            start <= i <= start + 3,
            i <= s@.len(),
            forall|k: int| start <= k < i ==> is_digit(#[trigger] s@[k]),
            val == digits_value(s@.subrange(start as int, i as int)),
            val < 1000,
            i - start == 1 ==> val < 10,
            i - start == 2 ==> val < 100,
            forall|n: nat, end: int|
                n < 256 && #[trigger] octet_at(s@, start as int, end, n) ==> i <= end,
        decreases start + 3 - i,
    {
        proof {
            let sub = s@.subrange(start as int, i + 1);
            assert(sub.drop_last() =~= s@.subrange(start as int, i as int));
            assert forall|n: nat, end: int|
                n < 256 && #[trigger] octet_at(s@, start as int, end, n) implies i + 1 <= end by {
                if end == i as int {
                    assert(!is_digit(s@[end]));
                }
            }
        }
        val = val * 10 + (s[i] as u32 - '0' as u32);
        i = i + 1;
    }
    let ghost d = s@.subrange(start as int, i as int);
    proof {
        assert forall|n: nat, end: int|
            n < 256 && #[trigger] octet_at(s@, start as int, end, n) implies i == end by {
            lemma_octet_text(n);
            if i < end {
                assert(s@[i as int] == dec_text(n)[i - start]);
            }
        }
    }
    if i == start {
        proof {
            assert forall|n: nat, end: int|
                n < 256 && #[trigger] octet_at(s@, start as int, end, n) implies false by {
                lemma_octet_text(n);
            }
        }
        return None;
    }
    if i < s.len() && s[i] >= '0' && s[i] <= '9' {
        return None;
    }
    if i - start > 1 && s[start] == '0' {
        proof {
            assert forall|n: nat, end: int|
                n < 256 && #[trigger] octet_at(s@, start as int, end, n) implies false by {
                lemma_octet_text(n);
                assert(s@[start as int] == dec_text(n)[0]);
            }
        }
        return None;
    }
    if val > 255 {
        proof {
            assert forall|n: nat, end: int|
                n < 256 && #[trigger] octet_at(s@, start as int, end, n) implies false by {
                lemma_octet_text(n);
            }
        }
        return None;
    }
    proof {
        assert(d[0] == s@[start as int]);
        lemma_canonical_octet(d);
        assert forall|n: nat, end: int|
            n < 256 && #[trigger] octet_at(s@, start as int, end, n) implies n == val as nat by {
            lemma_octet_text(n);
        }
    }
    Some((val as u8, i))
}


proof fn lemma_address_octets(a: u32)
    ensures
        a == ((a / 0x100_0000) % 256) * 0x100_0000 + ((a / 0x1_0000) % 256) * 0x1_0000 + ((a
            / 0x100) % 256) * 0x100 + a % 256,
{
    assert(a == ((a / 0x100_0000) % 256) * 0x100_0000 + ((a / 0x1_0000) % 256) * 0x1_0000 + ((a
        / 0x100) % 256) * 0x100 + a % 256) by (bit_vector);
}

proof fn lemma_octets_address(o0: u8, o1: u8, o2: u8, o3: u8, a: u32)
    requires
        a == o0 as int * 0x100_0000 + o1 as int * 0x1_0000 + o2 as int * 0x100 + o3 as int,
    ensures
        (a / 0x100_0000) % 256 == o0,
        (a / 0x1_0000) % 256 == o1,
        (a / 0x100) % 256 == o2,
        a % 256 == o3,
{
    let x0 = o0 as u32;
    let x1 = o1 as u32;
    let x2 = o2 as u32;
    let x3 = o3 as u32;
    assert(x0 < 256 && x1 < 256 && x2 < 256 && x3 < 256);
    assert(x0 < 256 && x1 < 256 && x2 < 256 && x3 < 256 && a == x0 * 0x100_0000 + x1 * 0x1_0000
        + x2 * 0x100 + x3 ==> (a / 0x100_0000) % 256 == x0 && (a / 0x1_0000) % 256 == x1 && (a
        / 0x100) % 256 == x2 && a % 256 == x3) by (bit_vector);
}

/// Where the four octets of the dotted decimal text of `a` stand.
proof fn lemma_text_structure(a: u32)
    ensures
        ({
            let t = ipv4_text(a);
            let b0 = (a as nat / 0x100_0000) % 256;
            let b1 = (a as nat / 0x1_0000) % 256;
            let b2 = (a as nat / 0x100) % 256;
            let b3 = a as nat % 256;
            let e0 = dec_text(b0).len() as int;
            let e1 = e0 + 1 + dec_text(b1).len();
            let e2 = e1 + 1 + dec_text(b2).len();
            let e3 = e2 + 1 + dec_text(b3).len();
            &&& octet_at(t, 0, e0, b0)
            &&& t[e0] == '.'
            &&& octet_at(t, e0 + 1, e1, b1)
            &&& t[e1] == '.'
            &&& octet_at(t, e1 + 1, e2, b2)
            &&& t[e2] == '.'
            &&& octet_at(t, e2 + 1, e3, b3)
            &&& e3 == t.len()
        }),
{
    let t = ipv4_text(a);
    let b0 = (a as nat / 0x100_0000) % 256;
    let b1 = (a as nat / 0x1_0000) % 256;
    let b2 = (a as nat / 0x100) % 256;
    let b3 = a as nat % 256;
    let d0 = dec_text(b0);
    let d1 = dec_text(b1);
    let d2 = dec_text(b2);
    let d3 = dec_text(b3);
    reveal_strlit(".");
    let e0 = d0.len() as int;
    let e1 = e0 + 1 + d1.len();
    let e2 = e1 + 1 + d2.len();
    let e3 = e2 + 1 + d3.len();
    assert(t == d0 + "."@ + d1 + "."@ + d2 + "."@ + d3);
    assert(t.subrange(0, e0) =~= d0);
    assert(t.subrange(e0 + 1, e1) =~= d1);
    assert(t.subrange(e1 + 1, e2) =~= d2);
    assert(t.subrange(e2 + 1, e3) =~= d3);
    assert(t[e0] == '.');
    assert(t[e1] == '.');
    assert(t[e2] == '.');
    lemma_octet_text(b0);
    lemma_octet_text(b1);
    lemma_octet_text(b2);
    lemma_octet_text(b3);
}

/// Parses an IPv4 address written in dotted decimal (four octets of one to
/// three digits, no leading zeros, as `Ipv4Addr` reads them).
#[verifier::spinoff_prover]
#[verifier::rlimit(50)]
pub fn parse_ipv4(s: &[char]) -> (r: Option<u32>)
    ensures
        r matches Some(a) ==> ipv4_text(a) == s@,
        forall|a: u32| #[trigger] ipv4_text(a) == s@ ==> r == Some(a),
{
    let ghost t = s@;
    let (o0, e0) = match parse_octet(s, 0) {
        Some(x) => x,
        None => {
            proof {
                assert forall|a: u32| #[trigger] ipv4_text(a) == t implies false by {
                    lemma_text_structure(a);
                }
            }
            return None;
        },
    };
    if e0 >= s.len() || s[e0] != '.' {
        proof {
                assert forall|a: u32| #[trigger] ipv4_text(a) == t implies false by {
                    lemma_text_structure(a);
                }
            }
        return None;
    }
    let (o1, e1) = match parse_octet(s, e0 + 1) {
        Some(x) => x,
        None => {
            proof {
                assert forall|a: u32| #[trigger] ipv4_text(a) == t implies false by {
                    lemma_text_structure(a);
                }
            }
            return None;
        },
    };
    if e1 >= s.len() || s[e1] != '.' {
        proof {
                assert forall|a: u32| #[trigger] ipv4_text(a) == t implies false by {
                    lemma_text_structure(a);
                }
            }
        return None;
    }
    let (o2, e2) = match parse_octet(s, e1 + 1) {
        Some(x) => x,
        None => {
            proof {
                assert forall|a: u32| #[trigger] ipv4_text(a) == t implies false by {
                    lemma_text_structure(a);
                }
            }
            return None;
        },
    };
    if e2 >= s.len() || s[e2] != '.' {
        proof {
                assert forall|a: u32| #[trigger] ipv4_text(a) == t implies false by {
                    lemma_text_structure(a);
                }
            }
        return None;
    }
    let (o3, e3) = match parse_octet(s, e2 + 1) {
        Some(x) => x,
        None => {
            proof {
                assert forall|a: u32| #[trigger] ipv4_text(a) == t implies false by {
                    lemma_text_structure(a);
                }
            }
            return None;
        },
    };
    if e3 != s.len() {
        proof {
                assert forall|a: u32| #[trigger] ipv4_text(a) == t implies false by {
                    lemma_text_structure(a);
                }
            }
        return None;
    }
    let a: u32 = (o0 as u32) * 0x100_0000 + (o1 as u32) * 0x1_0000 + (o2 as u32) * 0x100 + o3 as u32;
    proof {
        lemma_octets_address(o0, o1, o2, o3, a);
        assert(t =~= t.subrange(0, e0 as int) + "."@ + t.subrange(e0 + 1, e1 as int) + "."@
            + t.subrange(e1 + 1, e2 as int) + "."@ + t.subrange(e2 + 1, e3 as int)) by {
            reveal_strlit(".");
        }
        assert(ipv4_text(a) == t);
        assert forall|b: u32| #[trigger] ipv4_text(b) == t implies b == a by {
            lemma_text_structure(b);
            lemma_address_octets(b);
        }
    }
    Some(a)
}


/// `d` holds decimal digits only.
pub open spec fn digits_only(d: Seq<char>) -> bool {
    forall|i: int| 0 <= i < d.len() ==> is_digit(#[trigger] d[i])
}

/// The digits of the text of an unsigned number: the text without a
/// leading `+`.
pub open spec fn unsigned_digits(t: Seq<char>) -> Seq<char> {
    if t.len() > 0 && t[0] == '+' {
        t.drop_first()
    } else {
        t
    }
}

/// The value `u8::from_str` reads from `t`: an optional `+` followed by one
/// or more digits whose value is at most 255.
pub open spec fn u8_of_text(t: Seq<char>) -> Option<u8> {
    let d = unsigned_digits(t);
    if d.len() > 0 && digits_only(d) && digits_value(d) <= 255 {
        Some(digits_value(d) as u8)
    } else {
        None
    }
}

/// Reads a `u8` written in decimal, as `u8::from_str` does.
pub fn parse_u8(t: &[char]) -> (r: Option<u8>)
    ensures
        r == u8_of_text(t@),
{
    let d: &[char] = if t.len() > 0 && t[0] == '+' {
        &t[1..t.len()]
    } else {
        t
    };
    assert(d@ =~= unsigned_digits(t@));
    if d.len() == 0 {
        return None;
    }
    let mut i: usize = 0;
    let mut val: u32 = 0;
    while i < d.len()
        invariant
            i <= d@.len(),
            d@ == unsigned_digits(t@),
            forall|k: int| 0 <= k < i ==> is_digit(#[trigger] d@[k]),
            val == (if digits_value(d@.subrange(0, i as int)) <= 256 {
                digits_value(d@.subrange(0, i as int))
            } else {
                256
            }),
        decreases d@.len() - i,
    {
        let c = d[i];
        if c < '0' || c > '9' {
            assert(!is_digit(d@[i as int]));
            return None;
        }
        proof {
            assert(d@.subrange(0, i + 1).drop_last() =~= d@.subrange(0, i as int));
            assert(d@.subrange(0, i + 1).last() == c);
        }
        let digit = c as u32 - '0' as u32;
        if val < 256 {
            let next = val * 10 + digit;
            val = if next > 256 {
                256
            } else {
                next
            };
        }
        i = i + 1;
    }
    assert(d@.subrange(0, i as int) =~= d@);
    if val > 255 {
        return None;
    }
    Some(val as u8)
}

/// The index of the first `/` of `s` at or after `from`, or the length of
/// `s` when there is none.
pub open spec fn find_slash(s: Seq<char>, from: int) -> int
    decreases s.len() - from,
{
    if from < 0 || from >= s.len() {
        s.len() as int
    } else if s[from] == '/' {
        from
    } else {
        find_slash(s, from + 1)
    }
}

proof fn lemma_find_slash(s: Seq<char>, from: int, i: int)
    requires
        0 <= from <= i <= s.len(),
        forall|k: int| from <= k < i ==> s[k] != '/',
        i == s.len() || s[i] == '/',
    ensures
        find_slash(s, from) == i,
    decreases i - from,
{
    if from < i {
        lemma_find_slash(s, from + 1, i);
    }
}

/// Index of the first `/` at or after `from`.
fn slash_from(s: &[char], from: usize) -> (i: usize)
    requires
        from <= s@.len(),
    ensures
        i == find_slash(s@, from as int),
        from <= i <= s@.len(),
{
    let mut i = from;
    while i < s.len() && s[i] != '/'
        invariant
            from <= i <= s@.len(),
            forall|k: int| from <= k < i ==> s@[k] != '/',
        decreases s@.len() - i,
    {
        i = i + 1;
    }
    proof {
        lemma_find_slash(s@, from as int, i as int);
    }
    i
}

/// The address part of a network written `address/prefix`: what precedes
/// the first `/`.
pub open spec fn cidr_address_text(s: Seq<char>) -> Seq<char> {
    s.subrange(0, find_slash(s, 0))
}

/// The prefix part of a network written `address/prefix`: what lies
/// between the first and the second `/`, or `32` when there is no `/`.
pub open spec fn cidr_prefix_text(s: Seq<char>) -> Seq<char> {
    let i = find_slash(s, 0);
    if i == s.len() {
        "32"@
    } else {
        s.subrange(i + 1, find_slash(s, i + 1))
    }
}

/// `s` writes an IPv4 address in dotted decimal.
pub open spec fn is_ipv4_text(s: Seq<char>) -> bool {
    exists|a: u32| #[trigger] ipv4_text(a) == s
}

/// Reads an IPv4 network written `address/prefix` (prefix `32` when it is
/// left out) into its address and prefix, refusing what is not an IPv4
/// address or not a `u8`.
pub fn parse_cidr(s: &str) -> (r: Result<(u32, u8), &'static str>)
    ensures
        !is_ipv4_text(cidr_address_text(s@)) ==> r == Err::<(u32, u8), &'static str>(
            "unable to parse ip address",
        ),
        is_ipv4_text(cidr_address_text(s@)) && u8_of_text(cidr_prefix_text(s@)) is None ==> r
            == Err::<(u32, u8), &'static str>("unable to parse subnet mask"),
        is_ipv4_text(cidr_address_text(s@)) ==> (u8_of_text(cidr_prefix_text(s@)) matches Some(m)
            ==> (r matches Ok((a, p)) && ipv4_text(a) == cidr_address_text(s@) && p == m)),
{
    let chars = str_chars(s);
    let cs = chars.as_slice();
    let i = slash_from(cs, 0);
    let ip = parse_ipv4(&cs[0..i]);
    let mask = if i == cs.len() {
        let dflt = str_chars("32");
        parse_u8(dflt.as_slice())
    } else {
        let j = slash_from(cs, i + 1);
        parse_u8(&cs[i + 1..j])
    };
    match ip {
        None => Err("unable to parse ip address"),
        Some(a) => match mask {
            None => Err("unable to parse subnet mask"),
            Some(m) => Ok((a, m)),
        },
    }
}


impl NetworkAddress {
    /// Parses an IPv4 network written `address/prefix`, e.g.
    /// `192.168.2.1/24` (prefix 32 when left out).
    pub fn from_str(s: &str) -> (r: Result<NetworkAddress, &'static str>)
        requires
            is_ipv4_text(cidr_address_text(s@)) ==> (u8_of_text(cidr_prefix_text(s@)) matches Some(
                m,
            ) ==> m <= 32),
        ensures
            !is_ipv4_text(cidr_address_text(s@)) ==> (r matches Err(e) && e
                == "unable to parse ip address"),
            is_ipv4_text(cidr_address_text(s@)) && u8_of_text(cidr_prefix_text(s@)) is None ==> (r matches Err(
                e,
            ) && e == "unable to parse subnet mask"),
            is_ipv4_text(cidr_address_text(s@)) ==> (u8_of_text(cidr_prefix_text(s@)) matches Some(
                m,
            ) ==> (r matches Ok(n) && n.spec_ip() is V4 && ipv4_text(n.spec_ip()->V4_0)
                == cidr_address_text(s@) && n.spec_prefix() == m)),
    {
        match parse_cidr(s) {
            Ok((a, m)) => Ok(NetworkAddress::new_v4_value(a, m)),
            Err(e) => Err(e),
        }
    }
}

impl IpAddress {
    /// Renders an IPv4 address in dotted decimal.
    pub fn to_string(&self) -> (s: String)
        requires
            *self is V4,
        ensures
            s@ == ipv4_text(self->V4_0),
    {
        match self {
            IpAddress::V4(a) => ipv4_to_string(*a),
            IpAddress::V6(_) => String::new(),
        }
    }
}


proof fn lemma_ipv4_text_no_slash(a: u32)
    ensures
        forall|k: int| 0 <= k < ipv4_text(a).len() ==> #[trigger] ipv4_text(a)[k] != '/',
{
    lemma_text_structure(a);
    let t = ipv4_text(a);
    let b0 = (a as nat / 0x100_0000) % 256;
    let b1 = (a as nat / 0x1_0000) % 256;
    let b2 = (a as nat / 0x100) % 256;
    let b3 = a as nat % 256;
    lemma_octet_text(b0);
    lemma_octet_text(b1);
    lemma_octet_text(b2);
    lemma_octet_text(b3);
    let e0 = dec_text(b0).len() as int;
    let e1 = e0 + 1 + dec_text(b1).len();
    let e2 = e1 + 1 + dec_text(b2).len();
    assert forall|k: int| 0 <= k < t.len() implies #[trigger] t[k] != '/' by {
        if k < e0 {
            assert(t[k] == t.subrange(0, e0)[k]);
        } else if k == e0 || k == e1 || k == e2 {
        } else if k < e1 {
            assert(t[k] == t.subrange(e0 + 1, e1)[k - e0 - 1]);
        } else if k < e2 {
            assert(t[k] == t.subrange(e1 + 1, e2)[k - e1 - 1]);
        } else {
            assert(t[k] == t.subrange(e2 + 1, t.len() as int)[k - e2 - 1]);
        }
    }
}

/// The text of an IPv4 network reads back as that network: for every
/// address `a` and prefix `p`, the text `a/p` (as `to_string` writes it) has
/// `a` as its address part and `p` as its prefix.
pub proof fn lemma_cidr_text_roundtrip(a: u32, p: u8)
    ensures
        ({
            let t = ipv4_text(a) + "/"@ + dec_text(p as nat);
            &&& is_ipv4_text(cidr_address_text(t))
            &&& cidr_address_text(t) == ipv4_text(a)
            &&& u8_of_text(cidr_prefix_text(t)) == Some(p)
        }),
{
    reveal_strlit("/");
    let ip = ipv4_text(a);
    let d = dec_text(p as nat);
    let t = ip + "/"@ + d;
    let l = ip.len() as int;
    lemma_ipv4_text_no_slash(a);
    lemma_octet_text(p as nat);
    assert(t[l] == '/');
    assert forall|k: int| 0 <= k < l implies t[k] != '/' by {
        assert(t[k] == ip[k]);
    }
    lemma_find_slash(t, 0, l);
    assert forall|k: int| l + 1 <= k < t.len() implies t[k] != '/' by {
        assert(t[k] == d[k - l - 1]);
    }
    lemma_find_slash(t, l + 1, t.len() as int);
    assert(cidr_address_text(t) =~= ip);
    assert(cidr_prefix_text(t) =~= d);
    assert(unsigned_digits(d) == d);
    assert(is_ipv4_text(ip));
}

} // verus!
