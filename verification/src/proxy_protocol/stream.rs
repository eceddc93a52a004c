//! A transport whose first bytes were looked at for a PROXY protocol
//! header.

use vstd::prelude::*;

use super::header::{Error, Header, HeaderView};
use super::spec_parse;

verus! {

/// What to do after a read while the start of a connection is gathered.
#[derive(Debug)]
pub enum Sniffed {
    /// The bytes gathered may still become a header: read again.
    NeedMore,
    /// The transport ended before the question was settled.
    EndOfStream,
    /// Settled. With a header, the bytes gathered after it are left in
    /// the buffer. Without one, the connection does not use the protocol
    /// and every byte gathered is left in the buffer.
    Resolved(Option<Header>),
}

/// Decides what a read means for a connection whose start is gathered in
/// `gathered`. The read has put `bytes_read` bytes at the end of
/// `gathered`; none stands for the end of the transport.
pub fn sniff(gathered: &mut Vec<u8>, bytes_read: usize) -> (r: Sniffed)
    ensures
        match r {
            Sniffed::EndOfStream => bytes_read == 0 && final(gathered)@ == old(gathered)@,
            Sniffed::NeedMore => {
                &&& bytes_read != 0
                &&& spec_parse(old(gathered)@) == Err::<(HeaderView, int), _>(
                    Error::BufferTooShort,
                )
                &&& final(gathered)@ == old(gathered)@
            },
            Sniffed::Resolved(None) => {
                &&& bytes_read != 0
                &&& spec_parse(old(gathered)@) == Err::<(HeaderView, int), _>(Error::Invalid)
                &&& final(gathered)@ == old(gathered)@
            },
            Sniffed::Resolved(Some(h)) => {
                &&& bytes_read != 0
                &&& spec_parse(old(gathered)@) is Ok
                &&& spec_parse(old(gathered)@).unwrap().0 == h@
                &&& final(gathered)@ == old(gathered)@.subrange(
                    spec_parse(old(gathered)@).unwrap().1,
                    old(gathered)@.len() as int,
                )
            },
        },
{
    if bytes_read == 0 {
        return Sniffed::EndOfStream;
    }
    match Header::parse(gathered.as_slice()) {
        Ok((header, consumed)) => {
            let surplus = gathered.split_off(consumed);
            *gathered = surplus;
            Sniffed::Resolved(Some(header))
        },
        Err(Error::BufferTooShort) => Sniffed::NeedMore,
        Err(Error::Invalid) => Sniffed::Resolved(None),
    }
}

/// A transport together with the bytes that were read from it ahead of
/// its user, and the header that came before them, if one did.
pub struct ProxyProtocolStream<S> {
    stream: S,
    remaining: Vec<u8>,
    header: Option<Header>,
}

impl<S> ProxyProtocolStream<S> {
    /// The transport.
    pub closed spec fn inner(&self) -> S {
        self.stream
    }

    /// The bytes that the next reads hand out before the transport is
    /// read again.
    pub closed spec fn buffered(&self) -> Seq<u8> {
        self.remaining@
    }

    /// The header that the connection started with.
    pub closed spec fn decoded(&self) -> Option<HeaderView> {
        match self.header {
            Some(h) => Some(h@),
            None => None,
        }
    }

    /// Puts together a transport, what `sniff` settled for it, and the
    /// bytes that it left in the buffer.
    pub fn new(stream: S, header: Option<Header>, remaining: Vec<u8>) -> (r: Self)
        ensures
            r.inner() == stream,
            r.buffered() == remaining@,
            r.decoded() == match header {
                Some(h) => Some(h@),
                None => None,
            },
    {
        ProxyProtocolStream { stream, remaining, header }
    }

    /// The header that the connection started with, if it did.
    pub fn header(&self) -> (r: Option<&Header>)
        ensures
            match r {
                Some(h) => self.decoded() == Some(h@),
                None => self.decoded() is None,
            },
    {
        self.header.as_ref()
    }

    /// The transport, to look at.
    pub fn get_ref(&self) -> (r: &S)
        ensures
            *r == self.inner(),
    {
        &self.stream
    }

    /// The transport, to read from and write to.
    pub fn get_mut(&mut self) -> (r: &mut S)
        ensures
            *r == old(self).inner(),
            final(self).inner() == *final(r),
            final(self).buffered() == old(self).buffered(),
            final(self).decoded() == old(self).decoded(),
    {
        &mut self.stream
    }

    /// Whether bytes are waiting that were read ahead.
    pub fn has_buffered(&self) -> (r: bool)
        ensures
            r == (self.buffered().len() > 0),
    {
        self.remaining.len() > 0
    }

    /// The bytes that were read ahead and not handed out yet.
    pub fn peek_buffered(&self) -> (r: &[u8])
        ensures
            r@ == self.buffered(),
    {
        self.remaining.as_slice()
    }

    /// Hands out up to `max` of the bytes that were read ahead, oldest
    /// first, and keeps the rest for later reads.
    pub fn read_buffered(&mut self, max: usize) -> (r: Vec<u8>)
        ensures
            r@.len() == if max <= old(self).buffered().len() {
                max as int
            } else {
                old(self).buffered().len() as int
            },
            r@ + final(self).buffered() == old(self).buffered(),
            final(self).inner() == old(self).inner(),
            final(self).decoded() == old(self).decoded(),
    {
        let to_copy = if max <= self.remaining.len() {
            max
        } else {
            self.remaining.len()
        };
        let rest = self.remaining.split_off(to_copy);
        let mut out: Vec<u8> = Vec::new();
        out.append(&mut self.remaining);
        self.remaining = rest;
        out
    }

    /// Marks `amt` bytes as read. The bytes read ahead go first; the
    /// result is the number of bytes beyond them, which the transport
    /// itself has to mark as read.
    pub fn consume(&mut self, amt: usize) -> (r: usize)
        ensures
            r == if amt <= old(self).buffered().len() {
                0
            } else {
                amt - old(self).buffered().len()
            },
            final(self).buffered() == if amt <= old(self).buffered().len() {
                old(self).buffered().subrange(amt as int, old(self).buffered().len() as int)
            } else {
                Seq::<u8>::empty()
            },
            final(self).inner() == old(self).inner(),
            final(self).decoded() == old(self).decoded(),
    {
        let len = self.remaining.len();
        if amt <= len {
            let rest = self.remaining.split_off(amt);
            self.remaining = rest;
            0
        } else {
            self.remaining.clear();
            amt - len
        }
    }

    /// Gives the transport back, which can only be done once every byte
    /// read ahead was handed out: otherwise those bytes would be lost, and
    /// the stream comes back unchanged.
    pub fn try_into_stream(self) -> (r: Result<S, Self>)
        ensures
            match r {
                Ok(s) => self.buffered().len() == 0 && s == self.inner(),
                Err(same) => self.buffered().len() > 0 && same == self,
            },
    {
        if self.remaining.len() == 0 {
            Ok(self.stream)
        } else {
            Err(self)
        }
    }

    /// Gives the transport back; see `try_into_stream`.
    pub fn try_into_inner(self) -> (r: Result<S, Self>)
        ensures
            match r {
                Ok(s) => self.buffered().len() == 0 && s == self.inner(),
                Err(same) => self.buffered().len() > 0 && same == self,
            },
    {
        self.try_into_stream()
    }
}

} // verus!
