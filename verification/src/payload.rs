//! User payloads and how a payload too large for one packet is cut into fragments.
use vstd::prelude::*;

verus! {

/// The largest payload that travels in a single packet.
pub const FRAGMENT_SIZE: usize = 1500;

/// The bytes a user hands to the protocol.
#[derive(Debug, Clone, PartialEq, Default, PartialOrd)]
pub struct Payload(pub Vec<u8>);

/// A payload left whole, or cut into parts.
#[derive(Debug, Clone, PartialEq, PartialOrd)]
pub enum Fragment {
    Single(Payload),
    Multiple(Vec<Payload>),
}

/// `s` cut into consecutive chunks of `size` bytes; the last chunk holds what remains. An empty
/// sequence has no chunks.
pub open spec fn chunks(s: Seq<u8>, size: nat) -> Seq<Seq<u8>>
    decreases s.len(),
{
    if s.len() == 0 || size == 0 {
        Seq::empty()
    } else if s.len() <= size {
        seq![s]
    } else {
        seq![s.take(size as int)] + chunks(s.skip(size as int), size)
    }
}

/// The concatenation of `parts`.
pub open spec fn flatten(parts: Seq<Seq<u8>>) -> Seq<u8>
    decreases parts.len(),
{
    if parts.len() == 0 {
        Seq::empty()
    } else {
        parts[0] + flatten(parts.drop_first())
    }
}

/// The number of chunks of `size` bytes that `len` bytes make, rounding up.
pub open spec fn chunk_count(len: nat, size: nat) -> nat {
    if size == 0 {
        0
    } else {
        ((len + size - 1) / size as int) as nat
    }
}

/// The views of a sequence of payloads.
pub open spec fn payloads_view(ps: Seq<Payload>) -> Seq<Seq<u8>> {
    ps.map_values(|p: Payload| p.0@)
}

/// Cutting a sequence into chunks and joining them gives it back; every chunk holds between one
/// and `size` bytes, and there are `len / size` of them, rounded up.
pub proof fn law_chunks_rebuild(s: Seq<u8>, size: nat)
    requires
        size > 0,
    ensures
        flatten(chunks(s, size)) == s,
        chunks(s, size).len() == chunk_count(s.len(), size),
        forall|i: int|
            0 <= i < chunks(s, size).len() ==> 0 < #[trigger] chunks(s, size)[i].len() <= size,
    decreases s.len(),
{
    if s.len() == 0 {
        assert(flatten(Seq::<Seq<u8>>::empty()) == Seq::<u8>::empty());
        assert(s =~= Seq::<u8>::empty());
        assert((0 + size - 1) / size as int == 0) by (nonlinear_arith)
            requires
                size > 0,
        ;
    } else if s.len() <= size {
        let c = chunks(s, size);
        assert(c =~= seq![s]);
        assert(c.drop_first() =~= Seq::<Seq<u8>>::empty());
        assert(flatten(c.drop_first()) == Seq::<u8>::empty());
        assert(flatten(c) =~= s + Seq::<u8>::empty());
        assert((s.len() + size - 1) / size as int == 1) by (nonlinear_arith)
            requires
                0 < s.len() <= size,
        ;
    } else {
        let rest = s.skip(size as int);
        law_chunks_rebuild(rest, size);
        let c = chunks(s, size);
        assert(c.drop_first() =~= chunks(rest, size));
        assert(s.take(size as int) + rest =~= s);
        let n = s.len();
        assert((n + size - 1) / size as int == ((n - size) + size - 1) / size as int + 1)
            by (nonlinear_arith)
            requires
                n > size,
                size > 0,
        ;
        assert forall|i: int| 0 <= i < c.len() implies 0 < #[trigger] c[i].len() <= size by {
            if i > 0 {
                assert(c[i] == chunks(rest, size)[i - 1]);
            }
        }
    }
}

/// Unfolds one step of `chunks`: the first chunk of a sequence longer than `size` is its first
/// `size` bytes.
proof fn lemma_chunks_step(s: Seq<u8>, pos: int, size: nat)
    requires
        size > 0,
        0 <= pos < s.len(),
    ensures
        pos + size < s.len() ==> chunks(s.skip(pos), size) == seq![s.subrange(pos, pos + size)]
            + chunks(s.skip(pos + size), size),
        pos + size >= s.len() ==> chunks(s.skip(pos), size) == seq![
            s.subrange(pos, s.len() as int),
        ] && chunks(s.skip(s.len() as int), size) == Seq::<Seq<u8>>::empty(),
{
    let t = s.skip(pos);
    if pos + size < s.len() {
        assert(t.take(size as int) =~= s.subrange(pos, pos + size));
        assert(t.skip(size as int) =~= s.skip(pos + size));
    } else {
        assert(t =~= s.subrange(pos, s.len() as int));
        assert(s.skip(s.len() as int).len() == 0);
    }
}

/// The bytes `bytes[start..end]`.
pub fn copy_range(bytes: &[u8], start: usize, end: usize) -> (r: Vec<u8>)
    requires
        start <= end <= bytes@.len(),
    ensures
        r@ == bytes@.subrange(start as int, end as int),
{
    let mut r: Vec<u8> = Vec::new();
    let mut i = start;
    while i < end
        invariant
            start <= i <= end <= bytes@.len(),
            r@ == bytes@.subrange(start as int, i as int),
        decreases end - i,
    {
        r.push(bytes[i]);
        i = i + 1;
        assert(r@ =~= bytes@.subrange(start as int, i as int));
    }
    r
}

/// `bytes` cut into consecutive chunks of `size` bytes, as `<[u8]>::chunks` cuts them.
pub fn chunk_bytes(bytes: &[u8], size: usize) -> (r: Vec<Vec<u8>>)
    requires
        size > 0,
    ensures
        r@.map_values(|v: Vec<u8>| v@) == chunks(bytes@, size as nat),
{
    let mut r: Vec<Vec<u8>> = Vec::new();
    let mut pos: usize = 0;
    let len = bytes.len();
    proof {
        assert(bytes@.skip(0) =~= bytes@);
    }
    while pos < len
        invariant
            size > 0,
            len == bytes@.len(),
            pos <= len,
            r@.map_values(|v: Vec<u8>| v@) + chunks(bytes@.skip(pos as int), size as nat) == chunks(
                bytes@,
                size as nat,
            ),
        decreases len - pos,
    {
        let ghost old_views = r@.map_values(|v: Vec<u8>| v@);
        proof {
            lemma_chunks_step(bytes@, pos as int, size as nat);
        }
        if len - pos > size {
            let chunk = copy_range(bytes, pos, pos + size);
            r.push(chunk);
            proof {
                assert(r@.map_values(|v: Vec<u8>| v@) =~= old_views.push(
                    bytes@.subrange(pos as int, pos + size),
                ));
                assert(r@.map_values(|v: Vec<u8>| v@) + chunks(
                    bytes@.skip(pos + size),
                    size as nat,
                ) =~= old_views + chunks(bytes@.skip(pos as int), size as nat));
            }
            pos = pos + size;
        } else {
            let chunk = copy_range(bytes, pos, len);
            r.push(chunk);
            proof {
                assert(r@.map_values(|v: Vec<u8>| v@) =~= old_views.push(
                    bytes@.subrange(pos as int, len as int),
                ));
                assert(r@.map_values(|v: Vec<u8>| v@) + chunks(bytes@.skip(len as int), size as nat)
                    =~= old_views + chunks(bytes@.skip(pos as int), size as nat));
            }
            pos = len;
        }
    }
    proof {
        assert(bytes@.skip(len as int).len() == 0);
        assert(chunks(bytes@.skip(len as int), size as nat) =~= Seq::<Seq<u8>>::empty());
        assert(r@.map_values(|v: Vec<u8>| v@) + Seq::<Seq<u8>>::empty() =~= r@.map_values(
            |v: Vec<u8>| v@,
        ));
    }
    r
}

impl core::ops::Deref for Payload {
    type Target = Vec<u8>;

    /// The bytes of the payload.
    fn deref(&self) -> (r: &Vec<u8>)
        ensures
            r@ == self.0@,
    {
        &self.0
    }
}

impl Payload {
    /// The number of bytes in the payload.
    pub fn len(&self) -> (r: usize)
        ensures
            r == self.0@.len(),
    {
        self.0.len()
    }

    /// Whether the payload is too large for one packet.
    pub fn should_fragment(&self) -> (r: bool)
        ensures
            r == (self.0@.len() > FRAGMENT_SIZE),
    {
        self.len() > FRAGMENT_SIZE
    }

    /// The payload left whole when it fits in one packet, otherwise cut into chunks of
    /// `FRAGMENT_SIZE` bytes.
    pub fn fragment(self) -> (r: Fragment)
        ensures
            self.0@.len() <= FRAGMENT_SIZE ==> r == Fragment::Single(self),
            self.0@.len() > FRAGMENT_SIZE ==> (r matches Fragment::Multiple(parts) && payloads_view(
                parts@,
            ) == chunks(self.0@, FRAGMENT_SIZE as nat)),
    {
        if self.should_fragment() {
            let bytes = self.0;
            let chunks = chunk_bytes(bytes.as_slice(), FRAGMENT_SIZE);
            let mut payloads: Vec<Payload> = Vec::new();
            let mut rest = chunks;
            let ghost all = rest@;
            while rest.len() > 0
                invariant
                    payloads_view(payloads@) + rest@.map_values(|v: Vec<u8>| v@) == all.map_values(
                        |v: Vec<u8>| v@,
                    ),
                decreases rest.len(),
            {
                let ghost before = payloads_view(payloads@);
                let chunk = rest.remove(0);
                payloads.push(Payload(chunk));
                proof {
                    assert(payloads_view(payloads@) =~= before.push(chunk@));
                    assert(payloads_view(payloads@) + rest@.map_values(|v: Vec<u8>| v@) =~= all.map_values(
                        |v: Vec<u8>| v@,
                    ));
                }
            }
            proof {
                assert(rest@.map_values(|v: Vec<u8>| v@) =~= Seq::<Seq<u8>>::empty());
                assert(payloads_view(payloads@) =~= all.map_values(|v: Vec<u8>| v@));
            }
            Fragment::Multiple(payloads)
        } else {
            Fragment::Single(self)
        }
    }
}

} // verus!
