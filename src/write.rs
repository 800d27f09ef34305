//! The byte sink that the XML writer streams into.

use vstd::prelude::*;

use crate::error::Error;

verus! {

/// The most bytes that an in-memory buffer can hold: an allocation may not
/// exceed `isize::MAX` bytes.
pub open spec fn buffer_limit() -> nat {
    isize::MAX as nat
}

/// What is left below [`buffer_limit`] once `len` bytes are held.
pub open spec fn buffer_room(len: nat) -> nat {
    if len <= buffer_limit() {
        (buffer_limit() - len) as nat
    } else {
        0
    }
}

/// `after` is `before` followed by a prefix of `intended`: what a sink holds
/// when writing `intended` stopped part way.
pub open spec fn partly_written(before: Seq<u8>, after: Seq<u8>, intended: Seq<u8>) -> bool {
    &&& before.len() <= after.len() <= before.len() + intended.len()
    &&& after == (before + intended).take(after.len() as int)
}

/// Cutting a concatenation within its first part cuts the first part.
pub broadcast proof fn lemma_take_append(p: Seq<u8>, q: Seq<u8>, n: int)
    requires
        0 <= n <= p.len(),
    ensures
        #[trigger] (p + q).take(n) == p.take(n),
{
    assert((p + q).take(n) =~= p.take(n));
}

/// A byte-oriented sink.
///
/// `written` is the sequence of bytes that the sink has accepted so far and
/// `room` the number of further bytes that it promises to accept.
///
/// `written` and `room` are specification items: verified code reasons with
/// them and never calls them. A sink implemented outside verified code must
/// still define them to satisfy the trait; their bodies are never run, so
/// `unreachable!()` serves.
pub trait Write {
    /// The bytes accepted so far, in order.
    spec fn written(&self) -> Seq<u8>;

    /// How many more bytes the sink promises to accept.
    spec fn room(&self) -> nat;

    /// Flushes the sink, so that buffered contents reach their destination.
    fn flush(&mut self) -> (r: Result<(), Error>)
        ensures
            final(self).written() == old(self).written(),
            final(self).room() >= old(self).room(),
    ;

    /// Writes a prefix of `buf` and returns its length.
    ///
    /// On an error no byte of `buf` was accepted. Within the promised room
    /// the whole buffer is accepted.
    fn write(&mut self, buf: &[u8]) -> (r: Result<usize, Error>)
        ensures
            match r {
                Ok(n) => n <= buf@.len() && final(self).written() == old(self).written()
                    + buf@.subrange(0, n as int),
                Err(_) => final(self).written() == old(self).written(),
            },
            buf@.len() <= old(self).room() ==> r == Ok::<usize, Error>(buf@.len() as usize)
                && final(self).room() == old(self).room() - buf@.len(),
    ;

    /// Writes all of `buf`, calling [`Write::write`] until nothing is left.
    ///
    /// Fails with [`Error::WriteAllEof`] when the sink accepts no further
    /// byte, and with the sink's own error when it reports one.
    fn write_all(&mut self, buf: &[u8]) -> (r: Result<(), Error>)
        ensures
            r is Ok ==> final(self).written() == old(self).written() + buf@,
            r is Err ==> partly_written(old(self).written(), final(self).written(), buf@),
            r is Err ==> final(self).written().len() < old(self).written().len() + buf@.len(),
            buf@.len() <= old(self).room() ==> r is Ok && final(self).room() == old(self).room()
                - buf@.len(),
    {
        let mut pos: usize = 0;
        while pos < buf.len()
            invariant
                pos <= buf@.len(),
                self.written() == old(self).written() + buf@.subrange(0, pos as int),
                buf@.len() <= old(self).room() ==> self.room() == old(self).room() - pos,
            decreases buf@.len() - pos,
        {
            let rest = &buf[pos..buf.len()];
            assert((old(self).written() + buf@).take(self.written().len() as int) =~= self.written());
            match self.write(rest) {
                Ok(0) => {
                    return Err(Error::WriteAllEof);
                },
                Ok(n) => {
                    assert(buf@.subrange(0, pos + n) =~= buf@.subrange(0, pos as int)
                        + rest@.subrange(0, n as int));
                    pos = pos + n;
                },
                Err(e) => {
                    return Err(e);
                },
            }
        }
        assert(buf@.subrange(0, pos as int) =~= buf@);
        Ok(())
    }
}

/// A growable byte vector is a sink that never fails within its size limit.
impl Write for Vec<u8> {
    open spec fn written(&self) -> Seq<u8> {
        self@
    }

    open spec fn room(&self) -> nat {
        buffer_room(self@.len())
    }

    fn flush(&mut self) -> (r: Result<(), Error>)
        ensures
            r is Ok,
            *final(self) == *old(self),
    {
        Ok(())
    }

    fn write(&mut self, buf: &[u8]) -> (r: Result<usize, Error>)
        ensures
            r == Ok::<usize, Error>(buf@.len() as usize),
            final(self)@ == old(self)@ + buf@,
    {
        self.extend_from_slice(buf);
        assert(self@ =~= old(self)@ + buf@);
        Ok(buf.len())
    }

    fn write_all(&mut self, buf: &[u8]) -> (r: Result<(), Error>)
        ensures
            r is Ok,
            final(self)@ == old(self)@ + buf@,
    {
        if self.write(buf)? < buf.len() {
            Err(Error::WriteAllEof)
        } else {
            Ok(())
        }
    }
}

#[verifier::external_type_specification]
#[verifier::external_body]
pub struct ExBytesMut(bytes::BytesMut);

/// The bytes that a `bytes::BytesMut` holds.
pub uninterp spec fn bytes_mut_contents(b: bytes::BytesMut) -> Seq<u8>;

/// Relies on `BytesMut::len`: the number of bytes held.
pub assume_specification[ bytes::BytesMut::len ](b: &bytes::BytesMut) -> (r: usize)
    ensures
        r == bytes_mut_contents(*b).len(),
;

/// Relies on `BytesMut::extend_from_slice`: appends the bytes given. It
/// panics when the grown buffer would exceed `isize::MAX` bytes.
pub assume_specification[ bytes::BytesMut::extend_from_slice ](
    b: &mut bytes::BytesMut,
    extend: &[u8],
)
    requires
        bytes_mut_contents(*old(b)).len() + extend@.len() <= isize::MAX,
    ensures
        bytes_mut_contents(*final(b)) == bytes_mut_contents(*old(b)) + extend@,
;

/// A `bytes::BytesMut` is a sink that never fails within its size limit;
/// beyond it, it accepts nothing.
impl Write for bytes::BytesMut {
    open spec fn written(&self) -> Seq<u8> {
        bytes_mut_contents(*self)
    }

    open spec fn room(&self) -> nat {
        buffer_room(bytes_mut_contents(*self).len())
    }

    fn flush(&mut self) -> (r: Result<(), Error>)
        ensures
            r is Ok,
            *final(self) == *old(self),
    {
        Ok(())
    }

    fn write(&mut self, buf: &[u8]) -> (r: Result<usize, Error>)
        ensures
            buf@.len() <= old(self).room() ==> final(self).written() == old(self).written()
                + buf@,
            buf@.len() > old(self).room() ==> r == Ok::<usize, Error>(0) && *final(self)
                == *old(self),
    {
        let held = self.len();
        if held > isize::MAX as usize || buf.len() > (isize::MAX as usize) - held {
            return Ok(0);
        }
        self.extend_from_slice(buf);
        assert(buf@.subrange(0, buf@.len() as int) =~= buf@);
        Ok(buf.len())
    }

    fn write_all(&mut self, buf: &[u8]) -> (r: Result<(), Error>)
        ensures
            buf@.len() > old(self).room() ==> r == Err::<(), Error>(Error::WriteAllEof),
    {
        assert((self.written() + buf@).take(self.written().len() as int) =~= self.written());
        if self.write(buf)? < buf.len() {
            Err(Error::WriteAllEof)
        } else {
            Ok(())
        }
    }
}

} // verus!
