use vstd::prelude::*;

verus! {

/// The number of bytes in an info hash and in a node id.
pub const ID_LEN: usize = 20;

/// The 20-byte key under which a torrent's peers are looked up.
#[derive(Clone, Copy, Debug, Eq, Hash)]
pub struct InfoHash {
    pub bytes: [u8; 20],
}

impl InfoHash {
    /// The info hash with the given bytes.
    pub fn from_bytes(bytes: [u8; 20]) -> (info_hash: InfoHash)
        ensures
            info_hash.bytes == bytes,
    {
        InfoHash { bytes }
    }

    /// The info hash in `bytes`, where there are exactly 20 of them.
    pub fn from_vec(bytes: &Vec<u8>) -> (info_hash: Option<InfoHash>)
        ensures
            info_hash.is_some() <==> bytes@.len() == ID_LEN,
            info_hash.is_some() ==> info_hash.unwrap().bytes@ =~= bytes@,
    {
        match id_bytes(bytes) {
            Some(bytes) => Some(InfoHash { bytes }),
            None => None,
        }
    }
}

impl PartialEq for InfoHash {
    fn eq(&self, other: &Self) -> (same: bool) {
        let mut i: usize = 0;
        while i < ID_LEN
            invariant
                0 <= i <= ID_LEN,
                forall|j: int| 0 <= j < i ==> self.bytes@[j] == other.bytes@[j],
            decreases ID_LEN - i,
        {
            if self.bytes[i] != other.bytes[i] {
                return false;
            }
            i = i + 1;
        }
        assert(self.bytes@ =~= other.bytes@);
        assert(self.bytes =~= other.bytes);
        true
    }
}

impl vstd::std_specs::cmp::PartialEqSpecImpl for InfoHash {
    open spec fn obeys_eq_spec() -> bool {
        true
    }

    open spec fn eq_spec(&self, other: &Self) -> bool {
        *self == *other
    }
}

/// The 20-byte identity of a node.
#[derive(Clone, Copy, Debug, Eq, PartialEq, Hash)]
pub struct NodeId {
    pub bytes: [u8; 20],
}

/// The 20 bytes in `bytes`, where there are exactly 20 of them.
pub fn id_bytes(bytes: &Vec<u8>) -> (id: Option<[u8; 20]>)
    ensures
        id.is_some() <==> bytes@.len() == ID_LEN,
        id.is_some() ==> id.unwrap()@ =~= bytes@,
{
    if bytes.len() != ID_LEN {
        return None;
    }
    let mut id: [u8; 20] = [0u8; 20];
    let mut i: usize = 0;
    while i < ID_LEN
        invariant
            0 <= i <= ID_LEN,
            bytes@.len() == ID_LEN,
            forall|j: int| 0 <= j < i ==> id@[j] == bytes@[j],
        decreases ID_LEN - i,
    {
        id[i] = bytes[i];
        i = i + 1;
    }
    Some(id)
}

/// The number under which a running lookup is known to the runtime.
#[derive(Clone, Copy, Debug, PartialEq, Eq, PartialOrd, Ord, Hash, Structural)]
pub struct LookupId(pub u64);

/// The address family that a lookup runs over.
#[derive(Clone, Copy, Debug, PartialEq, Eq, Hash, Structural)]
pub enum AddressFamily {
    Ipv4,
    Ipv6,
}

/// The socket address of a peer: every part by which two socket addresses differ.
#[derive(Clone, Copy, Debug, PartialEq, Eq, PartialOrd, Ord, Hash, Structural)]
pub enum PeerAddr {
    V4 { ip: u32, port: u16 },
    V6 { segments: u128, port: u16, flow_info: u32, scope_id: u32 },
}

impl PeerAddr {
    /// Whether this is an IPv4 address.
    pub open spec fn spec_is_ipv4(&self) -> bool {
        self is V4
    }

    /// Whether this is an IPv4 address.
    #[verifier::when_used_as_spec(spec_is_ipv4)]
    pub fn is_ipv4(&self) -> (yes: bool)
        ensures
            yes == self.spec_is_ipv4(),
    {
        match self {
            PeerAddr::V4 { .. } => true,
            PeerAddr::V6 { .. } => false,
        }
    }
}

} // verus!
