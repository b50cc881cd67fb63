//! Local input that a transport may have to see again: everything in a file, or
//! the newest bytes in a window.
use std::collections::VecDeque;
use vstd::prelude::*;

use crate::broker::CHUNK_SIZE;

verus! {

/// How many of the newest bytes a window keeps.
pub const LIVE_STDIN_CAPACITY: usize = 65_536;

/// What is known of local input.
#[derive(Clone, Debug)]
pub struct InputMeta {
    /// How many bytes were read.
    pub end: u64,
    /// Whether input has ended.
    pub eof: bool,
    /// The position of the window's first byte.
    pub live_base: u64,
    /// The window.
    pub live: VecDeque<u8>,
}

/// What an attachment says about input when it opens.
#[derive(Clone, Copy, Debug, PartialEq, Eq, Structural)]
pub struct InputState {
    pub start: u64,
    pub eof: Option<u64>,
}

/// The next part of input.
#[derive(Clone, Debug)]
pub enum InputPart {
    /// Bytes of the window.
    Data { offset: u64, data: Vec<u8> },
    /// So many bytes of the file, or fewer.
    File { offset: u64, count: usize },
    /// The end.
    Eof { offset: u64 },
    /// Nothing yet.
    Wait,
}

/// The next part of input.
pub enum InputPartView {
    Data { offset: u64, data: Seq<u8> },
    File { offset: u64, count: usize },
    Eof { offset: u64 },
    Wait,
}

impl View for InputPart {
    type V = InputPartView;

    open spec fn view(&self) -> InputPartView {
        match *self {
            InputPart::Data { offset, data } => InputPartView::Data { offset, data: data@ },
            InputPart::File { offset, count } => InputPartView::File { offset, count },
            InputPart::Eof { offset } => InputPartView::Eof { offset },
            InputPart::Wait => InputPartView::Wait,
        }
    }
}

/// The newest bytes of `bytes`, as many as a window keeps.
pub open spec fn newest(bytes: Seq<u8>) -> Seq<u8> {
    if bytes.len() > LIVE_STDIN_CAPACITY {
        bytes.skip(bytes.len() - LIVE_STDIN_CAPACITY)
    } else {
        bytes
    }
}

/// At most as many bytes as one read takes.
pub open spec fn chunk_of(count: int) -> int {
    if count <= CHUNK_SIZE {
        count
    } else {
        CHUNK_SIZE as int
    }
}

impl InputMeta {
    /// The window ends where input ends, and is no longer than it may be.
    pub open spec fn window_valid(self) -> bool {
        &&& self.live@.len() <= LIVE_STDIN_CAPACITY
        &&& self.live_base + self.live@.len() == self.end
    }

    /// What comes after `position`.
    pub open spec fn part_after(self, position: u64, buffered: bool) -> InputPartView {
        let ended = if self.eof {
            InputPartView::Eof { offset: self.end }
        } else {
            InputPartView::Wait
        };
        if buffered {
            if position < self.end {
                InputPartView::File {
                    offset: position,
                    count: chunk_of(self.end - position) as usize,
                }
            } else {
                ended
            }
        } else {
            let offset = if position > self.live_base {
                position
            } else {
                self.live_base
            };
            if offset < self.end {
                let start = offset - self.live_base;
                InputPartView::Data {
                    offset,
                    data: self.live@.subrange(start, start + chunk_of(self.end - offset)),
                }
            } else {
                ended
            }
        }
    }

    /// Appends to the window and keeps its newest bytes. The position of the
    /// window's first byte moves past everything that is dropped.
    pub fn retain_live_tail(&mut self, data: &[u8])
        requires
            old(self).live@.len() <= LIVE_STDIN_CAPACITY,
            old(self).live_base + data@.len() <= u64::MAX,
        ensures
            final(self).live@ == newest(old(self).live@ + data@),
            final(self).live_base == old(self).live_base + (old(self).live@.len() + data@.len()
                - final(self).live@.len()),
            final(self).end == old(self).end,
            final(self).eof == old(self).eof,
    {
        let ghost before = self.live@;
        let ghost base = self.live_base;
        let mut i: usize = 0;
        assert(before + data@.take(0) =~= before);
        while i < data.len()
            invariant
                i <= data@.len(),
                before == old(self).live@,
                base == old(self).live_base,
                before.len() <= LIVE_STDIN_CAPACITY,
                base + data@.len() <= u64::MAX,
                self.live@ == newest(before + data@.take(i as int)),
                self.live_base == base + (before.len() + i - self.live@.len()),
                self.live_base <= base + i,
                self.end == old(self).end,
                self.eof == old(self).eof,
            decreases data@.len() - i,
        {
            let ghost all = before + data@.take(i as int);
            let ghost window = self.live@;
            self.live.push_back(data[i]);
            proof {
                assert(before + data@.take(i + 1) =~= all.push(data@[i as int]));
            }
            if self.live.len() > LIVE_STDIN_CAPACITY {
                let _ = self.live.pop_front();
                self.live_base = self.live_base + 1;
                proof {
                    assert(window.push(data@[i as int]).subrange(
                        1,
                        window.len() as int + 1,
                    ) =~= newest(all.push(data@[i as int])));
                }
            } else {
                assert(self.live@ =~= newest(all.push(data@[i as int])));
            }
            i += 1;
        }
        assert(data@.take(data@.len() as int) =~= data@);
    }

    pub fn new() -> (r: InputMeta)
        ensures
            r.end == 0,
            !r.eof,
            r.live_base == 0,
            r.live@ == Seq::<u8>::empty(),
            r.window_valid(),
    {
        InputMeta { end: 0, eof: false, live_base: 0, live: VecDeque::new() }
    }

    /// Notes bytes that were read. With a file they have been stored there, and
    /// no window is kept.
    pub fn accepted(&mut self, data: &[u8], buffered: bool)
        requires
            !buffered ==> old(self).window_valid(),
            old(self).end + data@.len() <= u64::MAX,
        ensures
            final(self).end == old(self).end + data@.len(),
            final(self).eof == old(self).eof,
            buffered ==> final(self).live@ == old(self).live@ && final(self).live_base == old(
                self,
            ).live_base,
            !buffered ==> final(self).window_valid() && final(self).live@ == newest(
                old(self).live@ + data@,
            ),
    {
        self.end = self.end + data.len() as u64;
        if !buffered {
            self.retain_live_tail(data);
        }
    }

    /// Notes that input has ended, or cannot be stored any more.
    pub fn ended(&mut self)
        ensures
            final(self).eof,
            final(self).end == old(self).end,
            final(self).live_base == old(self).live_base,
            final(self).live@ == old(self).live@,
    {
        self.eof = true;
    }

    /// What an attachment says about input when it opens: the first byte that
    /// can be sent, and the end if it is known.
    pub fn attachment_state(&self, buffered: bool) -> (r: InputState)
        ensures
            r.start == (if buffered {
                0
            } else {
                self.live_base
            }),
            r.eof == (if self.eof {
                Some(self.end)
            } else {
                None
            }),
    {
        InputState {
            start: if buffered {
                0
            } else {
                self.live_base
            },
            eof: if self.eof {
                Some(self.end)
            } else {
                None
            },
        }
    }

    /// The part of input after `position`. A window begins where it begins: what
    /// was dropped shows as a later offset, never as other bytes.
    pub fn next(&self, position: u64, buffered: bool) -> (r: InputPart)
        requires
            !buffered ==> self.window_valid(),
        ensures
            r@ == self.part_after(position, buffered),
    {
        if buffered {
            if position < self.end {
                let rest: u64 = self.end - position;
                let count: usize = if rest <= CHUNK_SIZE as u64 {
                    rest as usize
                } else {
                    CHUNK_SIZE
                };
                return InputPart::File { offset: position, count };
            }
        } else {
            let offset: u64 = if position > self.live_base {
                position
            } else {
                self.live_base
            };
            if offset < self.end {
                let start: usize = (offset - self.live_base) as usize;
                let rest: u64 = self.end - offset;
                let count: usize = if rest <= CHUNK_SIZE as u64 {
                    rest as usize
                } else {
                    CHUNK_SIZE
                };
                let data = self.window_part(start, count);
                return InputPart::Data { offset, data };
            }
        }
        if self.eof {
            InputPart::Eof { offset: self.end }
        } else {
            InputPart::Wait
        }
    }

    fn window_part(&self, start: usize, count: usize) -> (r: Vec<u8>)
        requires
            start + count <= self.live@.len(),
            self.live@.len() <= LIVE_STDIN_CAPACITY,
        ensures
            r@ == self.live@.subrange(start as int, start + count),
    {
        let mut data: Vec<u8> = Vec::new();
        let mut i: usize = 0;
        while i < count
            invariant
                i <= count,
                start + count <= self.live@.len(),
                self.live@.len() <= LIVE_STDIN_CAPACITY,
                data@ == self.live@.subrange(start as int, start + i),
            decreases count - i,
        {
            let byte: u8 = self.live[start + i];
            data.push(byte);
            i += 1;
            assert(data@ =~= self.live@.subrange(start as int, start + i));
        }
        data
    }
}

impl Default for InputMeta {
    fn default() -> (r: Self)
        ensures
            r.end == 0,
            !r.eof,
            r.live_base == 0,
            r.live@ == Seq::<u8>::empty(),
            r.window_valid(),
    {
        InputMeta::new()
    }
}

/// However input arrives, the window of the whole of it is the window of its
/// window: what is kept does not depend on how the bytes were split.
pub proof fn window_ignores_chunking(first: Seq<u8>, second: Seq<u8>)
    ensures
        newest(newest(first) + second) == newest(first + second),
{
    assert(newest(newest(first) + second) =~= newest(first + second));
}

/// A byte that a window still keeps keeps its position.
pub proof fn window_keeps_positions(window: Seq<u8>, base: int, data: Seq<u8>, position: int)
    requires
        window.len() <= LIVE_STDIN_CAPACITY,
        ({
            let after = newest(window + data);
            let moved = base + (window.len() + data.len() - after.len());
            moved <= position < base + window.len()
        }),
    ensures
        ({
            let after = newest(window + data);
            let moved = base + (window.len() + data.len() - after.len());
            after[position - moved] == window[position - base]
        }),
{
}

/// With buffering the next part of input begins exactly at the position that was
/// asked for, is not empty, is no longer than one read and does not pass the
/// end. Behind the last byte comes the end, once input has ended, at its own
/// position; before that there is nothing to send but a wait.
pub proof fn buffered_parts_begin_where_asked(meta: InputMeta, position: u64, part: InputPart)
    requires
        call_ensures(InputMeta::next, (&meta, position, true), part),
    ensures
        part is File <==> position < meta.end,
        part matches InputPart::File { offset, count } ==> offset == position && 0 < count
            && position + count <= meta.end && count <= 32_768,
        part matches InputPart::File { offset, count } ==> count == 32_768 || position + count
            == meta.end,
        part is Eof <==> position >= meta.end && meta.eof,
        part matches InputPart::Eof { offset } ==> offset == meta.end,
        part is Wait <==> position >= meta.end && !meta.eof,
{
}

/// Without buffering the next part of input are bytes of the window at their own
/// positions: from the position that was asked for, or from the window's first
/// byte where that was dropped.
pub proof fn live_parts_keep_their_positions(meta: InputMeta, position: u64, part: InputPart)
    requires
        meta.window_valid(),
        call_ensures(InputMeta::next, (&meta, position, false), part),
    ensures
        part is Data <==> position < meta.end && meta.live@.len() > 0,
        part matches InputPart::Data { offset, data } ==> {
            &&& position <= offset && meta.live_base <= offset
            &&& offset == position || offset == meta.live_base
            &&& 0 < data@.len() <= 32_768
            &&& offset + data@.len() <= meta.end
            &&& data@.len() < 32_768 ==> offset + data@.len() == meta.end
            &&& forall|i: int|
                0 <= i < data@.len() ==> data@[i] == meta.live@[offset - meta.live_base + i]
        },
        part is Eof ==> meta.eof && part->Eof_offset == meta.end,
        part is Wait ==> !meta.eof,
        part !is File,
{
}

/// The bytes of stored input that parts take one after another from a position
/// on, where `counts` is how many each of them takes.
pub open spec fn taken(input: Seq<u8>, position: int, counts: Seq<usize>) -> Seq<u8>
    decreases counts.len(),
{
    if counts.len() == 0 {
        Seq::empty()
    } else {
        let last = counts.last();
        let before = taken(input, position, counts.drop_last());
        before + input.subrange(position + before.len(), position + before.len() + last)
    }
}

/// Whether parts follow one another: each is the part that comes after what the
/// ones before it took.
pub open spec fn parts_follow(meta: InputMeta, input: Seq<u8>, position: u64, counts: Seq<usize>) -> bool
    decreases counts.len(),
{
    counts.len() == 0 || {
        let before = taken(input, position as int, counts.drop_last());
        &&& parts_follow(meta, input, position, counts.drop_last())
        &&& meta.part_after((position + before.len()) as u64, true) == (InputPartView::File {
            offset: (position + before.len()) as u64,
            count: counts.last(),
        })
    }
}

/// The parts of stored input that are taken one after another from a position
/// are the input from there on, each byte once and in order; and only at the end
/// of input is there no further part.
pub proof fn parts_join_to_the_input(
    meta: InputMeta,
    input: Seq<u8>,
    position: u64,
    counts: Seq<usize>,
)
    requires
        meta.end == input.len(),
        position <= meta.end,
        parts_follow(meta, input, position, counts),
    ensures
        ({
            let sent = taken(input, position as int, counts);
            &&& position + sent.len() <= meta.end
            &&& sent == input.subrange(position as int, position + sent.len())
            &&& sent.len() >= counts.len()
            &&& !(meta.part_after((position + sent.len()) as u64, true) is File) <==> sent
                == input.skip(position as int)
        }),
    decreases counts.len(),
{
    let sent = taken(input, position as int, counts);
    if counts.len() == 0 {
        assert(input.subrange(position as int, position as int) =~= Seq::empty());
    } else {
        let before = taken(input, position as int, counts.drop_last());
        parts_join_to_the_input(meta, input, position, counts.drop_last());
        assert(sent =~= input.subrange(position as int, position + sent.len()));
    }
    assert(input.skip(position as int).len() == input.len() - position);
    if position + sent.len() == input.len() {
        assert(sent =~= input.skip(position as int));
    }
}

/// The window keeps the newest bytes, in order: all of them while they fit, and
/// otherwise exactly as many as it may.
pub proof fn windows_keep_the_newest_bytes(bytes: Seq<u8>)
    ensures
        newest(bytes).len() == (if bytes.len() <= 65_536 {
            bytes.len()
        } else {
            65_536
        }),
        forall|i: int|
            0 <= i < newest(bytes).len() ==> #[trigger] newest(bytes)[i] == bytes[bytes.len()
                - newest(bytes).len() + i],
{
}

/// Input that is read moves the end past it. A window then ends with it, and its
/// first byte has moved past what was dropped.
pub proof fn read_input_moves_the_end(
    meta: &mut InputMeta,
    data: &[u8],
    buffered: bool,
)
    requires
        !buffered ==> old(meta).window_valid(),
        old(meta).end + data@.len() <= u64::MAX,
        call_ensures(InputMeta::accepted, (meta, data, buffered), ()),
    ensures
        final(meta).end == old(meta).end + data@.len(),
        final(meta).eof == old(meta).eof,
        !buffered ==> {
            let window = final(meta).live@;
            let all = old(meta).live@ + data@;
            &&& final(meta).live_base + window.len() == final(meta).end
            &&& window.len() <= 65_536
            &&& window.len() == 65_536 || window.len() == all.len()
            &&& forall|i: int|
                0 <= i < window.len() ==> window[i] == all[all.len() - window.len() + i]
        },
{
}

/// An opening offers stored input from its first byte and a window from the
/// window's first byte, and names the end exactly if input has ended.
pub proof fn openings_offer_what_is_kept(meta: InputMeta, buffered: bool, state: InputState)
    requires
        call_ensures(InputMeta::attachment_state, (&meta, buffered), state),
    ensures
        buffered ==> state.start == 0,
        !buffered ==> state.start == meta.live_base,
        state.eof is Some <==> meta.eof,
        state.eof is Some ==> state.eof->0 == meta.end,
{
}

/// The end of input is final and moves nothing.
pub proof fn ended_input_stays(meta: &mut InputMeta)
    requires
        call_ensures(InputMeta::ended, (meta,), ()),
    ensures
        final(meta).eof,
        final(meta).end == old(meta).end,
        final(meta).live_base == old(meta).live_base,
        final(meta).live@ == old(meta).live@,
{
}

/// The window holds the newest bytes of what was read, up to 65536 of them, and its
/// first byte stands where it stands in the whole input.
pub proof fn windows_move_with_the_input(meta: &mut InputMeta, data: &[u8])
    requires
        old(meta).live@.len() <= 65_536,
        old(meta).live_base + data@.len() <= u64::MAX,
        call_ensures(InputMeta::retain_live_tail, (meta, data), ()),
    ensures
        ({
            let all = old(meta).live@ + data@;
            let kept = final(meta).live@;
            &&& kept == all.skip(all.len() - kept.len())
            &&& all.len() <= 65_536 ==> kept.len() == all.len()
            &&& all.len() > 65_536 ==> kept.len() == 65_536
            &&& final(meta).live_base + kept.len() == old(meta).live_base + all.len()
            &&& final(meta).end == old(meta).end
            &&& final(meta).eof == old(meta).eof
        }),
{
    let all = old(meta).live@ + data@;
    assert(all.skip(0) =~= all);
}

/// Input begins with nothing read, and open.
pub proof fn input_begins_empty(r: InputMeta)
    requires
        call_ensures(InputMeta::new, (), r),
    ensures
        r.end == 0,
        !r.eof,
        r.live_base == 0,
        r.live@.len() == 0,
{
}

} // verus!
