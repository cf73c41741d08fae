//! Model identity: the SHA-256 Merkle root of a model file's 4 MiB chunks.
//!
//! The leaves are the SHA-256 digests of the chunks in order.  Each level
//! hashes adjacent pairs; an odd last node is paired with itself.  An empty
//! file hashes to the SHA-256 digest of no bytes.  (Pairing a node with
//! itself makes two leaf lists share a root, so this root must not back
//! inclusion proofs.)

use vstd::prelude::*;
use crate::crypto::{sha256, spec_sha256};

verus! {

/// Bytes per leaf chunk: 4 MiB.
pub const CHUNK_SIZE: usize = 4194304;

/// The leaf digests of `data`: one per `CHUNK_SIZE` chunk, the last chunk
/// possibly shorter.
pub open spec fn spec_leaf_hashes(data: Seq<u8>) -> Seq<Seq<u8>>
    decreases data.len(),
{
    if data.len() == 0 {
        Seq::empty()
    } else if data.len() <= CHUNK_SIZE {
        seq![spec_sha256(data)]
    } else {
        seq![spec_sha256(data.take(CHUNK_SIZE as int))] + spec_leaf_hashes(
            data.skip(CHUNK_SIZE as int),
        )
    }
}

/// The parent of node `i` of the next level: the digest of the pair that
/// starts at `2i`, an odd last node paired with itself.
pub open spec fn spec_parent(l: Seq<Seq<u8>>, i: int) -> Seq<u8> {
    spec_sha256(
        l[2 * i] + if 2 * i + 1 < l.len() {
            l[2 * i + 1]
        } else {
            l[2 * i]
        },
    )
}

/// The level above `l`.
pub open spec fn spec_pair_level(l: Seq<Seq<u8>>) -> Seq<Seq<u8>> {
    Seq::new(((l.len() + 1) / 2) as nat, |i: int| spec_parent(l, i))
}

/// The Merkle root of a list of nodes.
pub open spec fn spec_merkle_root(l: Seq<Seq<u8>>) -> Seq<u8>
    decreases l.len(),
{
    if l.len() == 0 {
        spec_sha256(Seq::empty())
    } else if l.len() == 1 {
        l[0]
    } else {
        spec_merkle_root(spec_pair_level(l))
    }
}

/// The model hash of the content `data`.
pub open spec fn spec_model_hash(data: Seq<u8>) -> Seq<u8> {
    spec_merkle_root(spec_leaf_hashes(data))
}

/// Nodes as byte strings.
pub open spec fn nodes_view(l: Seq<[u8; 32]>) -> Seq<Seq<u8>> {
    l.map_values(|a: [u8; 32]| a@)
}

/// An empty model hashes to the digest of no bytes; a model of one chunk
/// hashes to the plain SHA-256 digest of its content.
pub proof fn lemma_model_hash_single_chunk(data: Seq<u8>)
    requires
        data.len() <= CHUNK_SIZE,
    ensures
        spec_model_hash(data) == spec_sha256(data),
{
    if data.len() == 0 {
        assert(data =~= Seq::<u8>::empty());
    }
}

fn concat_pair(a: &[u8; 32], b: &[u8; 32]) -> (r: Vec<u8>)
    ensures
        r@ == a@ + b@,
{
    let mut r: Vec<u8> = Vec::new();
    let mut i: usize = 0;
    while i < 32
        invariant
            i <= 32,
            r@ == a@.take(i as int),
        decreases 32 - i,
    {
        r.push(a[i]);
        i = i + 1;
        assert(r@ =~= a@.take(i as int));
    }
    let mut j: usize = 0;
    while j < 32
        invariant
            j <= 32,
            r@ == a@ + b@.take(j as int),
        decreases 32 - j,
    {
        assert(a@.take(32) =~= a@);
        r.push(b[j]);
        j = j + 1;
        assert(r@ =~= a@ + b@.take(j as int));
    }
    assert(b@.take(32) =~= b@);
    r
}

/// The level above `l`: each adjacent pair hashed, an odd last node paired
/// with itself.
pub fn merkle_level(l: &Vec<[u8; 32]>) -> (r: Vec<[u8; 32]>)
    ensures
        nodes_view(r@) == spec_pair_level(nodes_view(l@)),
{
    let ghost v = nodes_view(l@);
    let n = l.len();
    let mut out: Vec<[u8; 32]> = Vec::new();
    let half = n / 2 + n % 2;
    let mut k: usize = 0;
    while k < half
        invariant
            n == l.len(),
            v == nodes_view(l@),
            v.len() == n,
            half == (n + 1) / 2,
            k <= half,
            out.len() == k,
            forall|j: int| 0 <= j < k ==> out@[j]@ == spec_parent(v, j),
        decreases half - k,
    {
        let i = 2 * k;
        let left = l[i];
        let right = if i + 1 < n {
            l[i + 1]
        } else {
            l[i]
        };
        let buf = concat_pair(&left, &right);
        let h = sha256(buf.as_slice());
        out.push(h);
        k = k + 1;
    }
    assert(nodes_view(out@) =~= spec_pair_level(v));
    out
}

/// The Merkle root of the leaf digests `leaves`.
pub fn merkle_root(leaves: Vec<[u8; 32]>) -> (r: [u8; 32])
    ensures
        r@ == spec_merkle_root(nodes_view(leaves@)),
{
    if leaves.len() == 0 {
        let empty: [u8; 0] = [];
        let r = sha256(&empty);
        assert(empty@ =~= Seq::<u8>::empty());
        return r;
    }
    let ghost target = spec_merkle_root(nodes_view(leaves@));
    let mut cur = leaves;
    while cur.len() > 1
        invariant
            cur.len() >= 1,
            spec_merkle_root(nodes_view(cur@)) == target,
        decreases cur.len(),
    {
        let next = merkle_level(&cur);
        assert(nodes_view(next@).len() == (cur.len() + 1) / 2);
        cur = next;
    }
    assert(nodes_view(cur@)[0] == cur@[0]@);
    cur[0]
}

/// The digest of one leaf chunk.
pub fn leaf_hash(chunk: &[u8]) -> (r: [u8; 32])
    ensures
        r@ == spec_sha256(chunk@),
{
    sha256(chunk)
}

/// The model hash of the content `data`: the Merkle root of its 4 MiB chunks.
pub fn compute_model_hash(data: &[u8]) -> (r: [u8; 32])
    ensures
        r@ == spec_model_hash(data@),
{
    let len = data.len();
    let mut leaves: Vec<[u8; 32]> = Vec::new();
    let mut pos: usize = 0;
    assert(data@.skip(0) =~= data@);
    assert(nodes_view(leaves@) + spec_leaf_hashes(data@.skip(0)) =~= spec_leaf_hashes(data@));
    while pos < len
        invariant
            len == data.len(),
            pos <= len,
            spec_leaf_hashes(data@) == nodes_view(leaves@) + spec_leaf_hashes(data@.skip(pos as int)),
        decreases len - pos,
    {
        let ghost before = nodes_view(leaves@);
        let ghost rest = data@.skip(pos as int);
        let end = if len - pos > CHUNK_SIZE {
            pos + CHUNK_SIZE
        } else {
            len
        };
        let chunk = &data[pos..end];
        let h = leaf_hash(chunk);
        leaves.push(h);
        proof {
            assert(nodes_view(leaves@) =~= before + seq![h@]);
            if len - pos > CHUNK_SIZE {
                assert(rest.take(CHUNK_SIZE as int) =~= chunk@);
                assert(rest.skip(CHUNK_SIZE as int) =~= data@.skip(end as int));
            } else {
                assert(rest =~= chunk@);
                assert(data@.skip(end as int) =~= Seq::<u8>::empty());
                assert(spec_leaf_hashes(data@.skip(end as int)) =~= Seq::<Seq<u8>>::empty());
            }
            assert(before + (seq![h@] + spec_leaf_hashes(data@.skip(end as int))) =~= nodes_view(
                leaves@,
            ) + spec_leaf_hashes(data@.skip(end as int)));
        }
        pos = end;
    }
    proof {
        assert(data@.skip(len as int) =~= Seq::<u8>::empty());
        assert(nodes_view(leaves@) + Seq::<Seq<u8>>::empty() =~= nodes_view(leaves@));
    }
    merkle_root(leaves)
}

/// Appending a chunk of at most `CHUNK_SIZE` bytes to whole chunks adds
/// one leaf.
proof fn lemma_leaf_hashes_append(c: Seq<u8>, chunk: Seq<u8>, k: nat)
    requires
        c.len() == k * CHUNK_SIZE,
        0 < chunk.len() <= CHUNK_SIZE,
    ensures
        spec_leaf_hashes(c + chunk) == spec_leaf_hashes(c) + seq![spec_sha256(chunk)],
    decreases k,
{
    if k == 0 {
        assert(c + chunk =~= chunk);
        assert(c =~= Seq::<u8>::empty());
        assert(spec_leaf_hashes(c) =~= Seq::<Seq<u8>>::empty());
    } else {
        let rest = c.skip(CHUNK_SIZE as int);
        assert((c + chunk).take(CHUNK_SIZE as int) =~= c.take(CHUNK_SIZE as int));
        assert((c + chunk).skip(CHUNK_SIZE as int) =~= rest + chunk);
        lemma_leaf_hashes_append(rest, chunk, (k - 1) as nat);
        if k == 1 {
            assert(rest =~= Seq::<u8>::empty());
            assert(spec_leaf_hashes(rest) =~= Seq::<Seq<u8>>::empty());
            assert(c.take(CHUNK_SIZE as int) =~= c);
        }
        assert(seq![spec_sha256(c.take(CHUNK_SIZE as int))] + (spec_leaf_hashes(rest) + seq![spec_sha256(chunk)])
            =~= seq![spec_sha256(c.take(CHUNK_SIZE as int))] + spec_leaf_hashes(rest) + seq![spec_sha256(chunk)]);
    }
}

/// A model hash computed one chunk at a time, for content that is read in
/// pieces: every chunk but the last holds exactly `CHUNK_SIZE` bytes.
pub struct ModelHasher {
    leaves: Vec<[u8; 32]>,
    content: Ghost<Seq<u8>>,
    open: bool,
}

impl ModelHasher {
    /// The content taken in so far.
    pub closed spec fn content(&self) -> Seq<u8> {
        self.content@
    }

    /// Whether more content may follow: every chunk so far was whole.
    pub closed spec fn accepts_more(&self) -> bool {
        self.open
    }

    /// The hasher's state agrees with its content.
    pub closed spec fn wf(&self) -> bool {
        &&& nodes_view(self.leaves@) == spec_leaf_hashes(self.content@)
        &&& self.open ==> self.content@.len() == self.leaves@.len() * CHUNK_SIZE
    }

    /// A hasher that has taken in nothing.
    pub fn new() -> (h: Self)
        ensures
            h.wf(),
            h.content() == Seq::<u8>::empty(),
            h.accepts_more(),
    {
        let h = ModelHasher { leaves: Vec::new(), content: Ghost(Seq::empty()), open: true };
        assert(nodes_view(h.leaves@) =~= spec_leaf_hashes(Seq::<u8>::empty()));
        h
    }

    /// Whether more content may follow.
    pub fn is_open(&self) -> (r: bool)
        ensures
            r == self.accepts_more(),
    {
        self.open
    }

    /// Takes in the next chunk; a chunk shorter than `CHUNK_SIZE` is the
    /// last.
    pub fn absorb(&mut self, chunk: &[u8])
        requires
            old(self).wf(),
            old(self).accepts_more(),
            0 < chunk.len() <= CHUNK_SIZE,
        ensures
            final(self).wf(),
            final(self).content() == old(self).content() + chunk@,
            final(self).accepts_more() == (chunk.len() == CHUNK_SIZE),
    {
        let ghost before = self.content@;
        proof {
            lemma_leaf_hashes_append(before, chunk@, self.leaves@.len() as nat);
        }
        let h = leaf_hash(chunk);
        let ghost old_leaves = self.leaves@;
        self.leaves.push(h);
        self.content = Ghost(before + chunk@);
        self.open = chunk.len() == CHUNK_SIZE;
        assert(nodes_view(self.leaves@) =~= nodes_view(old_leaves) + seq![h@]);
        assert(self.open ==> self.content@.len() == self.leaves@.len() * CHUNK_SIZE);
    }

    /// The model hash of the content taken in.
    pub fn finish(self) -> (r: [u8; 32])
        requires
            self.wf(),
        ensures
            r@ == spec_model_hash(self.content()),
    {
        merkle_root(self.leaves)
    }
}

} // verus!
