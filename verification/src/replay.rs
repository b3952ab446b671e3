//! Reading a stream some of whose first bytes were already taken from it.

use tokio::io::ReadBuf;
use tokio::net::TcpStream;
use vstd::prelude::*;
use vstd::slice::slice_subrange;

verus! {

/// `tokio::net::TcpStream`, carried as it is.
#[verifier::external_type_specification]
#[verifier::external_body]
pub struct ExTcpStream(tokio::net::TcpStream);

/// `tokio::io::ReadBuf`, read through [`filled_bytes`] and [`free_room`].
#[verifier::external_type_specification]
#[verifier::external_body]
pub struct ExReadBuf<'a>(tokio::io::ReadBuf<'a>);

/// The bytes that were read into the buffer.
pub uninterp spec fn filled_bytes(buf: ReadBuf<'_>) -> Seq<u8>;

/// How many more bytes the buffer takes.
pub uninterp spec fn free_room(buf: ReadBuf<'_>) -> nat;

/// `ReadBuf::remaining`: how many more bytes the buffer takes.
pub assume_specification<'a>[ ReadBuf::<'a>::remaining ](buf: &ReadBuf<'a>) -> (n: usize)
    ensures
        n == free_room(*buf),
;

/// `ReadBuf::put_slice`: adds the bytes after those that are there. It panics
/// where they do not fit.
pub assume_specification<'a>[ ReadBuf::<'a>::put_slice ](buf: &mut ReadBuf<'a>, bytes: &[u8])
    requires
        bytes@.len() <= free_room(*old(buf)),
    ensures
        filled_bytes(*final(buf)) == filled_bytes(*old(buf)) + bytes@,
        free_room(*final(buf)) == free_room(*old(buf)) - bytes@.len(),
;

/// Bytes that were taken from a stream and are still to be read.
pub struct Replay {
    prefix: Vec<u8>,
    offset: usize,
}

/// How many of the pending bytes one read gives, with the given room for them.
pub open spec fn served(pending: Seq<u8>, room: nat) -> int {
    if pending.len() < room {
        pending.len() as int
    } else {
        room as int
    }
}

impl Replay {
    /// The bytes that are still to be read.
    pub closed spec fn pending(&self) -> Seq<u8> {
        self.prefix@.skip(self.offset as int)
    }

    #[verifier::type_invariant]
    spec fn offset_in_prefix(self) -> bool {
        self.offset <= self.prefix@.len()
    }

    /// Bytes that are to be read first.
    pub fn new(prefix: Vec<u8>) -> (replay: Self)
        ensures
            replay.pending() == prefix@,
    {
        let replay = Replay { prefix, offset: 0 };
        assert(replay.pending() =~= prefix@);
        replay
    }

    /// Reads pending bytes into the buffer, as many as it takes. Where none are
    /// pending, it leaves the buffer alone and says so: the next bytes are those
    /// of the stream.
    pub fn read(&mut self, buf: &mut ReadBuf<'_>) -> (replayed: bool)
        ensures
            replayed == (old(self).pending().len() > 0),
            ({
                let n = served(old(self).pending(), free_room(*old(buf)));
                &&& filled_bytes(*final(buf)) == filled_bytes(*old(buf)) + old(self).pending().take(n)
                &&& free_room(*final(buf)) == free_room(*old(buf)) - n
                &&& final(self).pending() == old(self).pending().skip(n)
            }),
    {
        proof {
            use_type_invariant(&*self);
        }
        if self.offset < self.prefix.len() {
            let left = self.prefix.len() - self.offset;
            let room = buf.remaining();
            let to_copy = if left < room {
                left
            } else {
                room
            };
            let end = self.offset + to_copy;
            buf.put_slice(slice_subrange(self.prefix.as_slice(), self.offset, end));
            self.offset = end;
            return true;
        }
        false
    }
}

/// A `TcpStream` with bytes to read before its own. Feeds the already-read
/// TLS ClientHello back into the TLS acceptor.
pub struct PrefixedTcpStream {
    replay: Replay,
    inner: TcpStream,
}

impl PrefixedTcpStream {
    /// The bytes that are still to be read before those of the stream.
    pub closed spec fn pending(&self) -> Seq<u8> {
        self.replay.pending()
    }

    /// The stream itself.
    pub closed spec fn stream(&self) -> TcpStream {
        self.inner
    }

    /// Puts the prefix before the stream.
    pub fn new(prefix: Vec<u8>, inner: TcpStream) -> (stream: Self)
        ensures
            stream.pending() == prefix@,
            stream.stream() == inner,
    {
        PrefixedTcpStream { replay: Replay::new(prefix), inner }
    }

    /// Reads bytes of the prefix into the buffer. Where none are left, it leaves
    /// the buffer alone and says so: the stream itself is to be read.
    pub fn read_prefix(&mut self, buf: &mut ReadBuf<'_>) -> (replayed: bool)
        ensures
            final(self).stream() == old(self).stream(),
            replayed == (old(self).pending().len() > 0),
            ({
                let n = served(old(self).pending(), free_room(*old(buf)));
                &&& filled_bytes(*final(buf)) == filled_bytes(*old(buf)) + old(self).pending().take(n)
                &&& free_room(*final(buf)) == free_room(*old(buf)) - n
                &&& final(self).pending() == old(self).pending().skip(n)
            }),
    {
        self.replay.read(buf)
    }

    /// The stream itself, to read what follows the prefix and to write.
    pub fn inner_mut(&mut self) -> (inner: &mut TcpStream)
        ensures
            *inner == old(self).stream(),
            final(self).stream() == *final(inner),
            final(self).pending() == old(self).pending(),
    {
        &mut self.inner
    }
}

/// What reads with the given rooms give of the pending bytes, and what they
/// leave pending.
pub open spec fn reads(pending: Seq<u8>, rooms: Seq<nat>) -> (Seq<u8>, Seq<u8>)
    decreases rooms.len(),
{
    if rooms.len() == 0 {
        (Seq::empty(), pending)
    } else {
        let n = served(pending, rooms[0]);
        let (given, left) = reads(pending.skip(n), rooms.skip(1));
        (pending.take(n) + given, left)
    }
}

/// Reads, of whatever size, give the prefix from its start, each byte once and
/// in order.
pub proof fn reads_replay_prefix_in_order(prefix: Seq<u8>, rooms: Seq<nat>)
    ensures
        reads(prefix, rooms).0 + reads(prefix, rooms).1 == prefix,
    decreases rooms.len(),
{
    if rooms.len() > 0 {
        let n = served(prefix, rooms[0]);
        let rest = prefix.skip(n);
        reads_replay_prefix_in_order(rest, rooms.skip(1));
        let (given, left) = reads(rest, rooms.skip(1));
        assert(prefix.take(n) + given + left =~= prefix.take(n) + (given + left));
        assert(prefix.take(n) + rest =~= prefix);
    } else {
        assert(Seq::<u8>::empty() + prefix =~= prefix);
    }
}

/// As many reads as the prefix has bytes, each with room for one at least, give
/// the whole prefix; the stream's own bytes come next.
pub proof fn reads_replay_whole_prefix(prefix: Seq<u8>, rooms: Seq<nat>)
    requires
        rooms.len() >= prefix.len(),
        forall|i: int| 0 <= i < rooms.len() ==> #[trigger] rooms[i] >= 1,
    ensures
        reads(prefix, rooms) == (prefix, Seq::<u8>::empty()),
    decreases rooms.len(),
{
    if rooms.len() > 0 {
        let n = served(prefix, rooms[0]);
        let rest = prefix.skip(n);
        let rest_rooms = rooms.skip(1);
        assert forall|i: int| 0 <= i < rest_rooms.len() implies #[trigger] rest_rooms[i] >= 1 by {
            assert(rest_rooms[i] == rooms[i + 1]);
        }
        assert(rooms[0] >= 1);
        reads_replay_whole_prefix(rest, rest_rooms);
        assert(prefix.take(n) + rest =~= prefix);
    } else {
        assert(prefix =~= Seq::<u8>::empty());
    }
}

/// A read gives as much as there is room for, or all that is pending: it stops
/// early for nothing else.
pub proof fn read_fills_the_room(pending: Seq<u8>, room: nat)
    ensures
        0 <= served(pending, room) <= room,
        served(pending, room) <= pending.len(),
        served(pending, room) == room || served(pending, room) == pending.len(),
{
}

/// Two reads in a row give what one read with the room of both would give.
pub proof fn reads_add_up(pending: Seq<u8>, a: nat, b: nat)
    ensures
        served(pending, a) + served(pending.skip(served(pending, a)), b) == served(pending, a + b),
        reads(pending, seq![a, b]) == reads(pending, seq![a + b]),
{
    reveal_with_fuel(reads, 3);
    let n = served(pending, a);
    let m = served(pending.skip(n), b);
    assert(seq![a, b].skip(1) =~= seq![b]);
    assert(seq![b].skip(1) =~= Seq::<nat>::empty());
    assert(seq![a + b].skip(1) =~= Seq::<nat>::empty());
    assert(pending.skip(n).skip(m) =~= pending.skip(n + m));
    assert(pending.take(n) + (pending.skip(n).take(m) + Seq::<u8>::empty()) =~= pending.take(n + m)
        + Seq::<u8>::empty());
}

} // verus!
