use vstd::prelude::*;
use crate::bucket::{bucketize, counts_view, sum_of, table_of};

verus! {

/// Length in bytes of the encoded identity of an Ed25519 peer.
pub const PEER_ID_LEN: usize = 38;

/// Offset of the eight-byte window that serves as the identifier.
pub const SUFFIX_START: usize = 30;

/// An encoded peer identity did not have the expected width.
#[derive(Debug, Clone, Copy, PartialEq, Eq, Structural)]
pub enum InvalidInputError {
    WrongWidth,
}

/// Relies on fluence_keypair's `KeyPair::generate_ed25519`, `KeyPair::get_peer_id`
/// and `PeerId::to_bytes`: the encoded identity of a freshly generated random
/// key pair. The 36-byte protobuf encoding of an Ed25519 public key is inlined
/// in an identity multihash (one code byte, one length byte), so the result is
/// always 38 bytes long; its contents are random.
#[verifier::external_body]
fn generate_peer_id_bytes() -> (r: Vec<u8>)
    ensures
        r@.len() == PEER_ID_LEN,
{
    fluence_keypair::key_pair::KeyPair::generate_ed25519().get_peer_id().to_bytes()
}

/// The identifier taken from an encoded peer identity: its eight bytes at
/// offsets `30..38`. Fails exactly when the encoding is not 38 bytes long.
pub fn peer_id_suffix(bytes: &Vec<u8>) -> (r: Result<[u8; 8], InvalidInputError>)
    ensures
        r is Ok <==> bytes.len() == PEER_ID_LEN,
        r matches Ok(id) ==> id@ == bytes@.subrange(30, 38),
        r matches Err(e) ==> e == InvalidInputError::WrongWidth,
{
    if bytes.len() != PEER_ID_LEN {
        return Err(InvalidInputError::WrongWidth);
    }
    let s = SUFFIX_START;
    let id: [u8; 8] = [
        bytes[s],
        bytes[s + 1],
        bytes[s + 2],
        bytes[s + 3],
        bytes[s + 4],
        bytes[s + 5],
        bytes[s + 6],
        bytes[s + 7],
    ];
    assert(id@ =~= bytes@.subrange(30, 38));
    Ok(id)
}

/// Generates `n_peers` random peer identities, takes the identifier of each and
/// buckets them. Always succeeds: the table has 24 counts that are the table of
/// some `n_peers` identifiers, and they sum to `n_peers`; for no peers every
/// count is zero.
pub fn get_peer_slot_distro(n_peers: usize) -> (r: Result<Vec<u32>, InvalidInputError>)
    requires
        n_peers <= u32::MAX,
    ensures
        r is Ok,
        r matches Ok(t) ==> (n_peers == 0 ==> forall|k: int| 0 <= k < 24 ==> #[trigger] t@[k] == 0),
        r matches Ok(t) ==> t.len() == 24 && sum_of(counts_view(t@)) == n_peers && exists|
            ids: Seq<[u8; 8]>,
        | ids.len() == n_peers && #[trigger] table_of(ids) == counts_view(t@),
{
    let mut peer_ids: Vec<[u8; 8]> = Vec::new();
    let mut p: usize = 0;
    while p < n_peers
        invariant
            p <= n_peers,
            peer_ids.len() == p,
        decreases n_peers - p,
    {
        let bytes = generate_peer_id_bytes();
        let id = peer_id_suffix(&bytes)?;
        peer_ids.push(id);
        p = p + 1;
    }
    let t = bucketize(&peer_ids);
    proof {
        if n_peers == 0 {
            assert(peer_ids@ =~= Seq::<[u8; 8]>::empty());
            assert forall|k: int| 0 <= k < 24 implies #[trigger] t@[k] == 0 by {
                assert(counts_view(t@)[k] == t@[k] as int);
            }
        }
    }
    Ok(t)
}

} // verus!
