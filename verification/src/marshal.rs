//! Byte layouts handed to the engine: NUL-terminated paths and flattened
//! replica identifiers.

use vstd::prelude::*;

verus! {

/// Length in bytes of a replica identifier, a seed and a ticket.
pub const ID_LEN: usize = 32;

/// A path as the engine reads it: the bytes of the path, then one NUL.
pub open spec fn c_string(path: Seq<u8>) -> Seq<u8> {
    path.push(0u8)
}

/// Whether a NUL byte occurs anywhere in `path`.
pub open spec fn has_nul(path: Seq<u8>) -> bool {
    exists|i: int| 0 <= i < path.len() && path[i] == 0u8
}

/// Whether `at` is the position of the first NUL byte of `path`.
pub open spec fn is_first_nul(path: Seq<u8>, at: int) -> bool {
    &&& 0 <= at < path.len()
    &&& path[at] == 0u8
    &&& forall|j: int| 0 <= j < at ==> path[j] != 0u8
}

/// The path that `encoded` terminates, if `encoded` is a path followed by
/// its terminator and holds no other NUL.
pub open spec fn decoded(encoded: Seq<u8>) -> Option<Seq<u8>> {
    if encoded.len() > 0 && encoded.last() == 0u8 && !has_nul(encoded.drop_last()) {
        Some(encoded.drop_last())
    } else {
        None
    }
}

/// A path that cannot be handed to the engine because it holds a NUL byte.
#[derive(Clone, Copy, Debug, PartialEq, Eq, Structural)]
pub struct EmbeddedNul {
    /// Position of the first NUL byte in the path.
    pub position: usize,
}

/// Terminates `path` with a NUL byte, or reports the first NUL byte found
/// inside it.
pub fn encode_path(path: &[u8]) -> (r: Result<Vec<u8>, EmbeddedNul>)
    ensures
        match r {
            Ok(bytes) => !has_nul(path@) && bytes@ == c_string(path@),
            Err(e) => is_first_nul(path@, e.position as int),
        },
{
    let mut out: Vec<u8> = Vec::new();
    let mut i: usize = 0;
    while i < path.len()
        invariant
            i <= path.len(),
            out@ == path@.take(i as int),
            forall|j: int| 0 <= j < i ==> path[j] != 0u8,
        decreases path.len() - i,
    {
        let b: u8 = path[i];
        if b == 0 {
            return Err(EmbeddedNul { position: i });
        }
        out.push(b);
        i += 1;
    }
    assert(path@.take(i as int) == path@);
    out.push(0);
    Ok(out)
}

/// Strips the terminator from an encoded path. Answers `None` when `encoded`
/// does not end in NUL or holds a NUL before its last byte.
pub fn decode_path(encoded: &[u8]) -> (r: Option<Vec<u8>>)
    ensures
        match r {
            Some(path) => decoded(encoded@) == Some(path@),
            None => decoded(encoded@) is None,
        },
{
    let n: usize = encoded.len();
    if n == 0 || encoded[n - 1] != 0 {
        return None;
    }
    let mut out: Vec<u8> = Vec::new();
    let mut i: usize = 0;
    while i < n - 1
        invariant
            n == encoded.len(),
            n > 0,
            i <= n - 1,
            out@ == encoded@.take(i as int),
            forall|j: int| 0 <= j < i ==> encoded[j] != 0u8,
        decreases n - i,
    {
        let b: u8 = encoded[i];
        if b == 0 {
            assert(encoded@.drop_last()[i as int] == 0u8);
            return None;
        }
        out.push(b);
        i += 1;
    }
    assert(encoded@.take(i as int) == encoded@.drop_last());
    Some(out)
}

/// Decoding an encoded path gives the path back: a path without NUL bytes
/// survives the trip through its terminated form unchanged.
pub proof fn lemma_path_round_trip(path: Seq<u8>)
    requires
        !has_nul(path),
    ensures
        decoded(c_string(path)) == Some(path),
{
    assert(c_string(path).drop_last() == path);
}

/// The byte strings held by a list of paths, in order.
pub open spec fn path_views(list: Seq<Vec<u8>>) -> Seq<Seq<u8>> {
    Seq::new(list.len(), |i: int| list[i]@)
}

/// Whether `at` is the first place in `paths` whose path holds a NUL byte.
pub open spec fn is_first_unencodable(paths: Seq<Seq<u8>>, at: int) -> bool {
    &&& 0 <= at < paths.len()
    &&& has_nul(paths[at])
    &&& forall|j: int| 0 <= j < at ==> !has_nul(#[trigger] paths[j])
}

/// Whether `encoded` holds, place for place, the terminated form of each
/// path of `paths`, none of which holds a NUL byte.
pub open spec fn encodes_each(paths: Seq<Seq<u8>>, encoded: Seq<Seq<u8>>) -> bool {
    &&& encoded.len() == paths.len()
    &&& forall|i: int|
        0 <= i < paths.len() ==> !has_nul(#[trigger] paths[i]) && encoded[i] == c_string(paths[i])
}

/// A list of paths that cannot be handed to the engine because one of them
/// holds a NUL byte.
#[derive(Clone, Copy, Debug, PartialEq, Eq, Structural)]
pub struct UnencodablePath {
    /// Place in the list of the first path that holds a NUL byte.
    pub index: usize,
    /// Position of the first NUL byte in that path.
    pub position: usize,
}

/// Terminates every path of `list` on its own, keeping the order of the list,
/// or reports the first path that holds a NUL byte.
pub fn encode_path_list(list: &[Vec<u8>]) -> (r: Result<Vec<Vec<u8>>, UnencodablePath>)
    ensures
        match r {
            Ok(out) => encodes_each(path_views(list@), path_views(out@)),
            Err(e) => {
                &&& is_first_unencodable(path_views(list@), e.index as int)
                &&& is_first_nul(list[e.index as int]@, e.position as int)
            },
        },
{
    let mut out: Vec<Vec<u8>> = Vec::new();
    let mut i: usize = 0;
    while i < list.len()
        invariant
            i <= list.len(),
            out.len() == i,
            forall|k: int| 0 <= k < i ==> !has_nul(#[trigger] list[k]@) && out[k]@ == c_string(list[k]@),
        decreases list.len() - i,
    {
        match encode_path(list[i].as_slice()) {
            Ok(bytes) => {
                out.push(bytes);
            },
            Err(e) => {
                assert(has_nul(list[i as int]@)) by {
                    assert(list[i as int]@[e.position as int] == 0u8);
                }
                assert(forall|k: int| 0 <= k < i ==> path_views(list@)[k] == list[k]@);
                return Err(UnencodablePath { index: i, position: e.position });
            },
        }
        i += 1;
    }
    assert(forall|k: int| 0 <= k < i ==> path_views(list@)[k] == list[k]@);
    Ok(out)
}

/// Tells whether no path occurs twice in `list`.
pub fn all_distinct(list: &[Vec<u8>]) -> (r: bool)
    ensures
        r == path_views(list@).no_duplicates(),
{
    let mut i: usize = 0;
    while i < list.len()
        invariant
            i <= list.len(),
            forall|a: int, b: int| 0 <= a < b < i ==> list[a]@ != list[b]@,
        decreases list.len() - i,
    {
        let mut j: usize = 0;
        while j < i
            invariant
                j <= i < list.len(),
                forall|a: int| 0 <= a < j ==> list[a]@ != list[i as int]@,
            decreases i - j,
        {
            if list[j] == list[i] {
                assert(path_views(list@)[j as int] == path_views(list@)[i as int]);
                return false;
            }
            j += 1;
        }
        i += 1;
    }
    true
}

/// The flat layout of a batch of identifiers: thirty-two bytes for each, one
/// identifier after the other in batch order, with nothing before, between
/// or after them. Byte `j` of identifier `i` stands at offset `32 * i + j`.
pub open spec fn flattened(ids: Seq<[u8; 32]>) -> Seq<u8> {
    Seq::new(ids.len() * 32, |k: int| ids[k / 32][k % 32])
}

/// The `i`-th run of thirty-two bytes of `bytes`.
pub open spec fn chunk(bytes: Seq<u8>, i: int) -> Seq<u8> {
    bytes.subrange(32 * i, 32 * i + 32)
}

/// Lays a batch of identifiers out as one contiguous run of bytes.
pub fn flatten_replica_ids(ids: &Vec<[u8; 32]>) -> (out: Vec<u8>)
    ensures
        out@ == flattened(ids@),
{
    let mut out: Vec<u8> = Vec::new();
    let mut i: usize = 0;
    while i < ids.len()
        invariant
            i <= ids.len(),
            out.len() == 32 * i,
            forall|k: int| 0 <= k < out.len() ==> out[k] == ids[k / 32][k % 32],
        decreases ids.len() - i,
    {
        let mut j: usize = 0;
        while j < ID_LEN
            invariant
                i < ids.len(),
                j <= 32,
                out.len() == 32 * i + j,
                forall|k: int| 0 <= k < out.len() ==> out[k] == ids[k / 32][k % 32],
            decreases 32 - j,
        {
            out.push(ids[i][j]);
            j += 1;
        }
        i += 1;
    }
    out
}

/// Cuts a run of bytes back into identifiers of thirty-two bytes each.
/// Answers `None` when the length is not a multiple of thirty-two.
pub fn unflatten_replica_ids(bytes: &[u8]) -> (r: Option<Vec<[u8; 32]>>)
    ensures
        match r {
            Some(ids) => {
                &&& bytes.len() == 32 * ids.len()
                &&& forall|i: int| 0 <= i < ids.len() ==> (#[trigger] ids[i])@ == chunk(bytes@, i)
            },
            None => bytes.len() % 32 != 0,
        },
{
    if bytes.len() % ID_LEN != 0 {
        return None;
    }
    let count: usize = bytes.len() / ID_LEN;
    let mut ids: Vec<[u8; 32]> = Vec::new();
    let mut i: usize = 0;
    while i < count
        invariant
            i <= count,
            bytes.len() == 32 * count,
            ids.len() == i,
            forall|a: int| 0 <= a < i ==> (#[trigger] ids[a])@ == chunk(bytes@, a),
        decreases count - i,
    {
        let mut id: [u8; 32] = [0u8; 32];
        let mut j: usize = 0;
        while j < ID_LEN
            invariant
                i < count,
                bytes.len() == 32 * count,
                j <= 32,
                forall|b: int| 0 <= b < j ==> id[b] == bytes[32 * i + b],
            decreases 32 - j,
        {
            id[j] = bytes[ID_LEN * i + j];
            j += 1;
        }
        assert(id@ == chunk(bytes@, i as int));
        ids.push(id);
        i += 1;
    }
    Some(ids)
}

/// Flattening a batch of identifiers gives thirty-two bytes for each of
/// them, and cutting the result into runs of thirty-two bytes gives every
/// identifier back in its place.
pub proof fn lemma_flatten_round_trip(ids: Seq<[u8; 32]>)
    ensures
        flattened(ids).len() == 32 * ids.len(),
        forall|i: int| 0 <= i < ids.len() ==> chunk(flattened(ids), i) == (#[trigger] ids[i])@,
{
    assert forall|i: int| 0 <= i < ids.len() implies chunk(flattened(ids), i) == (
    #[trigger] ids[i])@ by {
        let run = chunk(flattened(ids), i);
        assert(run.len() == 32);
        assert forall|j: int| 0 <= j < 32 implies run[j] == ids[i]@[j] by {
            assert(run[j] == flattened(ids)[32 * i + j]);
            assert((32 * i + j) / 32 == i);
            assert((32 * i + j) % 32 == j);
        }
    }
}

/// Cutting the flat layout of a batch gives the batch back: whatever holds,
/// place for place, the runs of thirty-two bytes of the flattened batch is
/// the batch itself, in the same order.
pub proof fn lemma_unflatten_after_flatten(ids: Seq<[u8; 32]>, back: Seq<[u8; 32]>)
    requires
        flattened(ids).len() == 32 * back.len(),
        forall|i: int| 0 <= i < back.len() ==> (#[trigger] back[i])@ == chunk(flattened(ids), i),
    ensures
        back == ids,
{
    lemma_flatten_round_trip(ids);
    assert forall|i: int| 0 <= i < ids.len() implies back[i] == ids[i] by {
        assert(back[i]@ == ids[i]@);
        assert(back[i] =~= ids[i]);
    }
    assert(back =~= ids);
}

} // verus!
