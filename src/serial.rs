use vstd::prelude::*;

verus! {

/// Most bytes a serial buffer queues; further bytes are dropped.
pub const SERIAL_CAPACITY: usize = 256;

/// The byte a character is written as: the low eight bits of its code.
pub open spec fn char_byte(c: char) -> u8 {
    (c as u32 % 256) as u8
}

/// The queue after offering `bytes` in order: as many are appended as there is
/// room for, and the rest are dropped.
pub open spec fn spec_put_all(q: Seq<u8>, bytes: Seq<u8>) -> Seq<u8> {
    let room = SERIAL_CAPACITY - q.len();
    if bytes.len() <= room {
        q + bytes
    } else {
        q + bytes.take(room)
    }
}

/// Whether all of `bytes` fit in the queue `q`.
pub open spec fn fits(q: Seq<u8>, bytes: Seq<u8>) -> bool {
    q.len() + bytes.len() <= SERIAL_CAPACITY
}

fn byte_of_char(c: char) -> (r: u8)
    ensures
        r == char_byte(c),
{
    (c as u32 % 256) as u8
}

/// A first-in first-out byte queue of bounded size; its view lists the queued
/// bytes oldest first.
pub struct SerialBuffer {
    buffer: Vec<u8>,
}

impl View for SerialBuffer {
    type V = Seq<u8>;

    closed spec fn view(&self) -> Seq<u8> {
        self.buffer@
    }
}

impl SerialBuffer {
    pub open spec fn wf(&self) -> bool {
        self@.len() <= SERIAL_CAPACITY
    }

    pub fn new() -> (r: SerialBuffer)
        ensures
            r@ == Seq::<u8>::empty(),
            r.wf(),
    {
        SerialBuffer { buffer: Vec::new() }
    }

    /// Queues one byte; answers false, and drops it, when the queue is full.
    pub fn put(&mut self, item: u8) -> (r: bool)
        requires
            old(self).wf(),
        ensures
            final(self).wf(),
            r == (old(self)@.len() < SERIAL_CAPACITY),
            final(self)@ == if r { old(self)@.push(item) } else { old(self)@ },
    {
        if self.buffer.len() == SERIAL_CAPACITY {
            return false;
        }
        self.buffer.push(item);
        true
    }

    /// Queues a character as the low byte of its code.
    pub fn put_char(&mut self, item: char) -> (r: bool)
        requires
            old(self).wf(),
        ensures
            final(self).wf(),
            r == (old(self)@.len() < SERIAL_CAPACITY),
            final(self)@ == if r { old(self)@.push(char_byte(item)) } else { old(self)@ },
    {
        self.put(byte_of_char(item))
    }

    /// Queues bytes in order until the queue is full; answers whether all fit.
    pub fn put_all(&mut self, items: Vec<u8>) -> (r: bool)
        requires
            old(self).wf(),
        ensures
            final(self).wf(),
            r == fits(old(self)@, items@),
            final(self)@ == spec_put_all(old(self)@, items@),
    {
        let mut i: usize = 0;
        while i < items.len()
            invariant
                self.wf(),
                i <= items@.len(),
                i <= SERIAL_CAPACITY - old(self)@.len(),
                self@ == old(self)@ + items@.take(i as int),
            decreases items.len() - i,
        {
            if self.buffer.len() == SERIAL_CAPACITY {
                assert(items@.take(i as int) =~= items@.take(
                    (SERIAL_CAPACITY - old(self)@.len()) as int,
                ));
                return false;
            }
            self.buffer.push(items[i]);
            assert(items@.take(i as int).push(items@[i as int]) =~= items@.take(i + 1));
            i += 1;
        }
        assert(items@.take(i as int) =~= items@);
        true
    }

    /// Queues characters in order, each as the low byte of its code.
    pub fn put_all_char(&mut self, items: Vec<char>) -> (r: bool)
        requires
            old(self).wf(),
        ensures
            final(self).wf(),
            r == fits(old(self)@, items@.map_values(|c: char| char_byte(c))),
            final(self)@ == spec_put_all(old(self)@, items@.map_values(|c: char| char_byte(c))),
    {
        let mut bytes: Vec<u8> = Vec::new();
        let mut i: usize = 0;
        while i < items.len()
            invariant
                i <= items@.len(),
                bytes@ == items@.take(i as int).map_values(|c: char| char_byte(c)),
            decreases items.len() - i,
        {
            bytes.push(byte_of_char(items[i]));
            assert(items@.take(i + 1) =~= items@.take(i as int).push(items@[i as int]));
            i += 1;
        }
        assert(items@.take(i as int) =~= items@);
        self.put_all(bytes)
    }

    /// Queues the characters of a string in order, each as the low byte of its code.
    pub fn put_string(&mut self, items: String) -> (r: bool)
        requires
            old(self).wf(),
        ensures
            final(self).wf(),
            r == fits(old(self)@, items@.map_values(|c: char| char_byte(c))),
            final(self)@ == spec_put_all(old(self)@, items@.map_values(|c: char| char_byte(c))),
    {
        let chars = crate::text::chars_of(items.as_str());
        self.put_all_char(chars)
    }

    /// Takes the oldest byte, if any.
    pub fn take(&mut self) -> (r: Option<u8>)
        requires
            old(self).wf(),
        ensures
            final(self).wf(),
            old(self)@.len() == 0 ==> r is None && final(self)@ == old(self)@,
            old(self)@.len() > 0 ==> r == Some(old(self)@[0]) && final(self)@ == old(self)@.drop_first(),
    {
        if self.buffer.len() == 0 {
            None
        } else {
            Some(self.buffer.remove(0))
        }
    }

    /// Takes every queued byte, oldest first, and leaves the queue empty.
    pub fn take_all(&mut self) -> (r: Vec<u8>)
        requires
            old(self).wf(),
        ensures
            final(self).wf(),
            r@ == old(self)@,
            final(self)@ == Seq::<u8>::empty(),
    {
        let mut result: Vec<u8> = Vec::new();
        std::mem::swap(&mut result, &mut self.buffer);
        result
    }

    /// Drops every queued byte.
    pub fn clear(&mut self)
        requires
            old(self).wf(),
        ensures
            final(self).wf(),
            final(self)@ == Seq::<u8>::empty(),
    {
        self.buffer.clear()
    }

    /// Whether any byte is queued.
    pub fn has_bytes(&self) -> (r: bool)
        ensures
            r == (self@.len() > 0),
    {
        self.buffer.len() > 0
    }
}

} // verus!
