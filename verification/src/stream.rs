//! The mathematical model of a seekable byte stream.
//!
//! A stream is a sequence of bytes and a position. Reading is a function
//! from the bytes and a position to a value and the position behind it;
//! writing places a chunk of bytes at a position, padding with zeros where
//! the position lies behind the end.

use crate::error::Error;
use crate::le::{dec_i16, dec_i32, dec_i64, dec_i8, dec_u16, dec_u32, dec_u64, dec_u8};
use vstd::prelude::*;

verus! {

/// What a read yields: the value and the position behind it, or the error.
pub type Parsed<T> = Result<(T, u64), Error>;

/// `n` zero bytes.
pub open spec fn zeros(n: nat) -> Seq<u8> {
    Seq::new(n, |i: int| 0u8)
}

/// `bytes`, extended by zeros up to `pos` where it is shorter.
pub open spec fn padded(bytes: Seq<u8>, pos: int) -> Seq<u8> {
    if pos > bytes.len() {
        bytes + zeros((pos - bytes.len()) as nat)
    } else {
        bytes
    }
}

/// `bytes` after `chunk` was written at `pos`: what lies under the chunk is
/// replaced, what lies behind it stays, and the stream grows where the chunk
/// reaches past its end. An empty chunk changes nothing.
pub open spec fn write_at(bytes: Seq<u8>, pos: int, chunk: Seq<u8>) -> Seq<u8> {
    if chunk.len() == 0 {
        bytes
    } else {
        let base = padded(bytes, pos);
        let end = pos + chunk.len();
        let tail = if end < base.len() {
            base.subrange(end, base.len() as int)
        } else {
            Seq::<u8>::empty()
        };
        base.subrange(0, pos) + chunk + tail
    }
}

/// `chunk` stands in `bytes` at `pos`.
pub open spec fn has_at(bytes: Seq<u8>, pos: int, chunk: Seq<u8>) -> bool {
    &&& 0 <= pos
    &&& pos + chunk.len() <= bytes.len()
    &&& bytes.subrange(pos, pos + chunk.len()) == chunk
}

/// What was written stands where it was written, and the stream is as
/// long as before or ends with what was written.
pub proof fn lemma_write_at_has(bytes: Seq<u8>, pos: int, chunk: Seq<u8>)
    requires
        0 <= pos,
        chunk.len() > 0 || pos <= bytes.len(),
    ensures
        has_at(write_at(bytes, pos, chunk), pos, chunk),
        write_at(bytes, pos, chunk).len() == if bytes.len() >= pos + chunk.len() {
            bytes.len() as int
        } else {
            pos + chunk.len()
        },
{
    let w = write_at(bytes, pos, chunk);
    assert(w.subrange(pos, pos + chunk.len()) =~= chunk);
}

/// Two writes, the second where the first ended, are one write of both chunks.
pub proof fn lemma_write_at_concat(bytes: Seq<u8>, pos: int, x: Seq<u8>, y: Seq<u8>)
    requires
        0 <= pos,
    ensures
        write_at(write_at(bytes, pos, x), pos + x.len(), y) == write_at(bytes, pos, x + y),
{
    if x.len() == 0 {
        assert(x + y =~= y);
    } else if y.len() == 0 {
        assert(x + y =~= x);
    } else {
        assert(write_at(write_at(bytes, pos, x), pos + x.len(), y) =~= write_at(
            bytes,
            pos,
            x + y,
        ));
    }
}

/// One more chunk behind what was written since the position `start`: the
/// write succeeds exactly when all of it fits, and then all of it stands
/// at `start`.
pub proof fn lemma_emit(
    r: Result<(), Error>,
    origin: Seq<u8>,
    start: u64,
    done: Seq<u8>,
    chunk: Seq<u8>,
    bytes: Seq<u8>,
    pos: u64,
    new_bytes: Seq<u8>,
    new_pos: u64,
)
    requires
        bytes == write_at(origin, start as int, done),
        pos == start + done.len(),
        fits(start, done.len()),
        wrote(r, bytes, pos, new_bytes, new_pos, chunk),
    ensures
        r is Ok <==> fits(start, (done + chunk).len()),
        r is Ok ==> new_bytes == write_at(origin, start as int, done + chunk) && new_pos == start
            + (done + chunk).len(),
        r is Err ==> r == Err::<(), Error>(Error::invalid_input()) && new_bytes == bytes && new_pos
            == pos,
{
    lemma_write_at_concat(origin, start as int, done, chunk);
}

/// Writing over the head of an earlier write replaces that head alone.
pub proof fn lemma_write_at_patch(
    bytes: Seq<u8>,
    pos: int,
    x: Seq<u8>,
    y: Seq<u8>,
    patch: Seq<u8>,
)
    requires
        0 <= pos,
        patch.len() == x.len(),
    ensures
        write_at(write_at(bytes, pos, x + y), pos, patch) == write_at(bytes, pos, patch + y),
{
    if x.len() == 0 {
        assert(x + y =~= y);
        assert(patch + y =~= y);
    } else {
        assert(write_at(write_at(bytes, pos, x + y), pos, patch) =~= write_at(
            bytes,
            pos,
            patch + y,
        ));
    }
}

/// Writing over a part in the middle of an earlier write replaces that
/// part alone.
pub proof fn lemma_write_at_patch_mid(
    bytes: Seq<u8>,
    pos: int,
    a: Seq<u8>,
    x: Seq<u8>,
    b: Seq<u8>,
    patch: Seq<u8>,
)
    requires
        0 <= pos,
        patch.len() == x.len(),
    ensures
        write_at(write_at(bytes, pos, a + x + b), pos + a.len(), patch) == write_at(
            bytes,
            pos,
            a + patch + b,
        ),
{
    if x.len() == 0 {
        assert(a + x + b =~= a + patch + b);
    } else {
        assert(write_at(write_at(bytes, pos, a + x + b), pos + a.len(), patch) =~= write_at(
            bytes,
            pos,
            a + patch + b,
        ));
    }
}

/// A concatenation stands at a position exactly when its first part stands
/// there and its second part behind the first.
pub proof fn lemma_has_at_concat(bytes: Seq<u8>, pos: int, x: Seq<u8>, y: Seq<u8>)
    ensures
        has_at(bytes, pos, x + y) <==> has_at(bytes, pos, x) && has_at(bytes, pos + x.len(), y),
{
    if has_at(bytes, pos, x + y) {
        let s = bytes.subrange(pos, pos + (x + y).len());
        assert(bytes.subrange(pos, pos + x.len()) =~= s.subrange(0, x.len() as int));
        assert(s.subrange(0, x.len() as int) =~= x);
        assert(bytes.subrange(pos + x.len(), pos + x.len() + y.len()) =~= s.subrange(
            x.len() as int,
            (x + y).len() as int,
        ));
        assert(s.subrange(x.len() as int, (x + y).len() as int) =~= y);
    }
    if has_at(bytes, pos, x) && has_at(bytes, pos + x.len(), y) {
        assert(bytes.subrange(pos, pos + (x + y).len()) =~= bytes.subrange(pos, pos + x.len())
            + bytes.subrange(pos + x.len(), pos + x.len() + y.len()));
    }
}

/// The `n` bytes at `pos`, and the position behind them.
pub open spec fn take(bytes: Seq<u8>, pos: u64, n: nat) -> Parsed<Seq<u8>> {
    if pos + n <= bytes.len() {
        Ok((bytes.subrange(pos as int, pos + n), (pos + n) as u64))
    } else {
        Err(Error::eof())
    }
}

/// The position `n` bytes behind `pos`, whether or not the stream reaches it.
pub open spec fn skip(pos: u64, n: nat) -> Result<u64, Error> {
    if pos + n <= u64::MAX {
        Ok((pos + n) as u64)
    } else {
        Err(Error::invalid_input())
    }
}

pub open spec fn parse_u8(bytes: Seq<u8>, pos: u64) -> Parsed<u8> {
    match take(bytes, pos, 1) {
        Ok((s, p)) => Ok((dec_u8(s), p)),
        Err(e) => Err(e),
    }
}

pub open spec fn parse_i8(bytes: Seq<u8>, pos: u64) -> Parsed<i8> {
    match take(bytes, pos, 1) {
        Ok((s, p)) => Ok((dec_i8(s), p)),
        Err(e) => Err(e),
    }
}

pub open spec fn parse_u16(bytes: Seq<u8>, pos: u64) -> Parsed<u16> {
    match take(bytes, pos, 2) {
        Ok((s, p)) => Ok((dec_u16(s), p)),
        Err(e) => Err(e),
    }
}

pub open spec fn parse_i16(bytes: Seq<u8>, pos: u64) -> Parsed<i16> {
    match take(bytes, pos, 2) {
        Ok((s, p)) => Ok((dec_i16(s), p)),
        Err(e) => Err(e),
    }
}

pub open spec fn parse_u32(bytes: Seq<u8>, pos: u64) -> Parsed<u32> {
    match take(bytes, pos, 4) {
        Ok((s, p)) => Ok((dec_u32(s), p)),
        Err(e) => Err(e),
    }
}

pub open spec fn parse_i32(bytes: Seq<u8>, pos: u64) -> Parsed<i32> {
    match take(bytes, pos, 4) {
        Ok((s, p)) => Ok((dec_i32(s), p)),
        Err(e) => Err(e),
    }
}

pub open spec fn parse_u64(bytes: Seq<u8>, pos: u64) -> Parsed<u64> {
    match take(bytes, pos, 8) {
        Ok((s, p)) => Ok((dec_u64(s), p)),
        Err(e) => Err(e),
    }
}

pub open spec fn parse_i64(bytes: Seq<u8>, pos: u64) -> Parsed<i64> {
    match take(bytes, pos, 8) {
        Ok((s, p)) => Ok((dec_i64(s), p)),
        Err(e) => Err(e),
    }
}

/// One byte, read as a truth value: anything but zero is true.
pub open spec fn parse_bool(bytes: Seq<u8>, pos: u64) -> Parsed<bool> {
    match parse_u8(bytes, pos) {
        Ok((b, p)) => Ok((b != 0, p)),
        Err(e) => Err(e),
    }
}

pub open spec fn enc_bool(value: bool) -> Seq<u8> {
    if value {
        seq![1u8]
    } else {
        seq![0u8]
    }
}

/// A read that leaves the position where it was when it fails.
pub open spec fn reads<T>(r: Result<T, Error>, start: u64, end: u64, model: Parsed<T>) -> bool {
    match model {
        Ok((v, p)) => r == Ok::<T, Error>(v) && end == p,
        Err(e) => r == Err::<T, Error>(e) && end == start,
    }
}

/// A read that leaves the position where it was when it fails, and whose
/// value is compared by its view.
pub open spec fn reads_view<T: View>(
    r: Result<T, Error>,
    start: u64,
    end: u64,
    model: Parsed<T::V>,
) -> bool {
    match model {
        Ok((v, p)) => r is Ok && r->Ok_0@ == v && end == p,
        Err(e) => r == Err::<T, Error>(e) && end == start,
    }
}

/// A read of several parts: where it fails, the position is left open.
pub open spec fn yields<T>(r: Result<T, Error>, end: u64, model: Parsed<T>) -> bool {
    match model {
        Ok((v, p)) => r == Ok::<T, Error>(v) && end == p,
        Err(e) => r == Err::<T, Error>(e),
    }
}

/// A read of several parts whose value is compared by its view.
pub open spec fn yields_view<T: View>(r: Result<T, Error>, end: u64, model: Parsed<T::V>) -> bool {
    match model {
        Ok((v, p)) => r is Ok && r->Ok_0@ == v && end == p,
        Err(e) => r == Err::<T, Error>(e),
    }
}

/// A read of several parts whose value is compared by its deep view.
pub open spec fn yields_deep<T: DeepView>(
    r: Result<T, Error>,
    end: u64,
    model: Parsed<T::V>,
) -> bool {
    match model {
        Ok((v, p)) => r is Ok && r->Ok_0.deep_view() == v && end == p,
        Err(e) => r == Err::<T, Error>(e),
    }
}

/// Whether a chunk of `n` bytes can be written at `pos` of a stream in
/// memory: its end can be addressed. An empty chunk can be written anywhere.
pub open spec fn fits(pos: u64, n: nat) -> bool {
    n == 0 || pos + n <= usize::MAX
}

/// What is known after a write of one chunk: it happened in full, or the
/// chunk did not fit and nothing changed.
pub open spec fn wrote(
    r: Result<(), Error>,
    old_bytes: Seq<u8>,
    old_pos: u64,
    new_bytes: Seq<u8>,
    new_pos: u64,
    chunk: Seq<u8>,
) -> bool {
    if fits(old_pos, chunk.len()) {
        &&& r == Ok::<(), Error>(())
        &&& new_bytes == write_at(old_bytes, old_pos as int, chunk)
        &&& new_pos == old_pos + chunk.len()
    } else {
        &&& r == Err::<(), Error>(Error::invalid_input())
        &&& new_bytes == old_bytes
        &&& new_pos == old_pos
    }
}

/// What is known after a write of one chunk that reports a value: the
/// chunk was written in full and `value` is reported, or the chunk did not
/// fit and nothing changed.
pub open spec fn wrote_with<T>(
    r: Result<T, Error>,
    value: T,
    old_bytes: Seq<u8>,
    old_pos: u64,
    new_bytes: Seq<u8>,
    new_pos: u64,
    chunk: Seq<u8>,
) -> bool {
    if fits(old_pos, chunk.len()) {
        &&& r == Ok::<T, Error>(value)
        &&& new_bytes == write_at(old_bytes, old_pos as int, chunk)
        &&& new_pos == old_pos + chunk.len()
    } else {
        &&& r == Err::<T, Error>(Error::invalid_input())
        &&& new_bytes == old_bytes
        &&& new_pos == old_pos
    }
}

/// One more part behind what was written since the position `start`,
/// the part itself being written in several chunks: the write succeeds
/// exactly when all of it fits, and then all of it stands at `start`.
pub proof fn lemma_emit_part<T>(
    r: Result<T, Error>,
    value: T,
    origin: Seq<u8>,
    start: u64,
    done: Seq<u8>,
    chunk: Seq<u8>,
    bytes: Seq<u8>,
    pos: u64,
    new_bytes: Seq<u8>,
    new_pos: u64,
)
    requires
        bytes == write_at(origin, start as int, done),
        pos == start + done.len(),
        fits(start, done.len()),
        emitted(r, value, bytes, pos, new_bytes, new_pos, chunk),
    ensures
        r is Ok <==> fits(start, (done + chunk).len()),
        r is Ok ==> r == Ok::<T, Error>(value) && new_bytes == write_at(
            origin,
            start as int,
            done + chunk,
        ) && new_pos == start + (done + chunk).len(),
        r is Err ==> r == Err::<T, Error>(Error::invalid_input()),
{
    lemma_write_at_concat(origin, start as int, done, chunk);
}

/// `count` items read one behind the other from `pos` on, each by `f`,
/// behind the items `acc` that were read before.
pub open spec fn parse_from<T>(
    f: spec_fn(u64) -> Parsed<T>,
    pos: u64,
    count: nat,
    acc: Seq<T>,
) -> Parsed<Seq<T>>
    decreases count,
{
    if count == 0 {
        Ok((acc, pos))
    } else {
        match f(pos) {
            Err(e) => Err(e),
            Ok((item, p)) => parse_from(f, p, (count - 1) as nat, acc.push(item)),
        }
    }
}

/// `count` items read one behind the other from `pos` on, each by `f`.
pub open spec fn parse_many<T>(f: spec_fn(u64) -> Parsed<T>, pos: u64, count: nat) -> Parsed<
    Seq<T>,
> {
    parse_from(f, pos, count, Seq::<T>::empty())
}

/// The bytes of the items from index `i` on, each by `g`, behind the bytes
/// `acc` of the items before; the error of the first item that cannot be
/// written.
pub open spec fn ser_from<T>(
    g: spec_fn(T) -> Result<Seq<u8>, Error>,
    items: Seq<T>,
    i: nat,
    acc: Seq<u8>,
) -> Result<Seq<u8>, Error>
    decreases items.len() - i,
{
    if i >= items.len() {
        Ok(acc)
    } else {
        match g(items[i as int]) {
            Err(e) => Err(e),
            Ok(c) => ser_from(g, items, i + 1, acc + c),
        }
    }
}

/// The bytes of all items, each by `g`.
pub open spec fn ser_all<T>(g: spec_fn(T) -> Result<Seq<u8>, Error>, items: Seq<T>) -> Result<
    Seq<u8>,
    Error,
> {
    ser_from(g, items, 0, Seq::<u8>::empty())
}

/// Reading a list of items, none of which ends before it starts, does not
/// end before it starts.
pub proof fn lemma_parse_from_monotone<T>(
    f: spec_fn(u64) -> Parsed<T>,
    pos: u64,
    count: nat,
    acc: Seq<T>,
)
    requires
        forall|p: u64| (#[trigger] f(p)) matches Ok((_, q)) ==> q >= p,
    ensures
        parse_from(f, pos, count, acc) matches Ok((_, end)) ==> end >= pos,
    decreases count,
{
    if count > 0 {
        match f(pos) {
            Ok((item, p)) => {
                lemma_parse_from_monotone(f, p, (count - 1) as nat, acc.push(item));
            },
            Err(e) => {},
        }
    }
}

/// Reading a list of items, each of which ends at least `step` bytes
/// behind its start, ends at least `step` bytes for each item behind its
/// start.
pub proof fn lemma_parse_from_advances<T>(
    f: spec_fn(u64) -> Parsed<T>,
    pos: u64,
    count: nat,
    acc: Seq<T>,
    step: nat,
)
    requires
        forall|p: u64| (#[trigger] f(p)) matches Ok((_, q)) ==> q >= p + step,
    ensures
        parse_from(f, pos, count, acc) matches Ok((_, end)) ==> end >= pos + step * count,
    decreases count,
{
    if count > 0 {
        match f(pos) {
            Ok((item, p)) => {
                lemma_parse_from_advances(f, p, (count - 1) as nat, acc.push(item), step);
                assert(step * count == step * (count - 1) + step) by (nonlinear_arith);
            },
            Err(e) => {},
        }
    } else {
        assert(step * count == 0) by (nonlinear_arith)
            requires
                count == 0,
        ;
    }
}

/// Reading a list of at least one item, each of which ends within
/// `limit`, ends within `limit`.
pub proof fn lemma_parse_from_within<T>(
    f: spec_fn(u64) -> Parsed<T>,
    pos: u64,
    count: nat,
    acc: Seq<T>,
    limit: nat,
)
    requires
        forall|p: u64| (#[trigger] f(p)) matches Ok((_, q)) ==> q <= limit,
        count > 0,
    ensures
        parse_from(f, pos, count, acc) matches Ok((_, end)) ==> end <= limit,
    decreases count,
{
    match f(pos) {
        Ok((item, p)) => {
            if count > 1 {
                lemma_parse_from_within(f, p, (count - 1) as nat, acc.push(item), limit);
            }
        },
        Err(e) => {},
    }
}

/// What holds of every item that `f` reads holds of every item of a list
/// that is read by `f`, and the list has as many items as were asked for.
pub proof fn lemma_parse_from_each<T>(
    f: spec_fn(u64) -> Parsed<T>,
    pos: u64,
    count: nat,
    acc: Seq<T>,
    good: spec_fn(T) -> bool,
)
    requires
        forall|p: u64| (#[trigger] f(p)) matches Ok((x, _)) ==> good(x),
        forall|i: int| 0 <= i < acc.len() ==> good(#[trigger] acc[i]),
    ensures
        parse_from(f, pos, count, acc) matches Ok((items, _)) ==> items.len() == acc.len() + count
            && forall|i: int| 0 <= i < items.len() ==> good(#[trigger] items[i]),
    decreases count,
{
    if count > 0 {
        match f(pos) {
            Ok((item, p)) => {
                lemma_parse_from_each(f, p, (count - 1) as nat, acc.push(item), good);
            },
            Err(e) => {},
        }
    }
}

/// A list whose items can all be written can be written.
pub proof fn lemma_ser_from_total<T>(
    g: spec_fn(T) -> Result<Seq<u8>, Error>,
    items: Seq<T>,
    i: nat,
    acc: Seq<u8>,
)
    requires
        forall|k: int| i <= k < items.len() ==> (#[trigger] g(items[k])) is Ok,
    ensures
        ser_from(g, items, i, acc) is Ok,
    decreases items.len() - i,
{
    if i < items.len() {
        lemma_ser_from_total(g, items, i + 1, acc + g(items[i as int])->Ok_0);
    }
}

/// The bytes of a list grow behind what was gathered before.
pub proof fn lemma_ser_from_extends<T>(
    g: spec_fn(T) -> Result<Seq<u8>, Error>,
    items: Seq<T>,
    i: nat,
    acc: Seq<u8>,
)
    ensures
        ser_from(g, items, i, acc) matches Ok(s) ==> s.len() >= acc.len() && s.subrange(
            0,
            acc.len() as int,
        ) == acc,
    decreases items.len() - i,
{
    if i < items.len() {
        match g(items[i as int]) {
            Err(e) => {},
            Ok(c) => {
                lemma_ser_from_extends(g, items, i + 1, acc + c);
                match ser_from(g, items, i + 1, acc + c) {
                    Ok(s) => {
                        assert(s.subrange(0, acc.len() as int) =~= (acc + c).subrange(
                            0,
                            acc.len() as int,
                        ));
                        assert((acc + c).subrange(0, acc.len() as int) =~= acc);
                    },
                    Err(e) => {},
                }
            },
        }
    } else {
        assert(acc.subrange(0, acc.len() as int) =~= acc);
    }
}

/// The bytes of a list behind gathered bytes are the gathered bytes and
/// the bytes of the list behind nothing.
pub proof fn lemma_ser_from_shift<T>(
    g: spec_fn(T) -> Result<Seq<u8>, Error>,
    items: Seq<T>,
    i: nat,
    acc: Seq<u8>,
)
    ensures
        ser_from(g, items, i, acc) == match ser_from(g, items, i, Seq::<u8>::empty()) {
            Ok(s) => Ok::<Seq<u8>, Error>(acc + s),
            Err(e) => Err::<Seq<u8>, Error>(e),
        },
    decreases items.len() - i,
{
    let none = Seq::<u8>::empty();
    if i < items.len() {
        match g(items[i as int]) {
            Err(e) => {},
            Ok(c) => {
                lemma_ser_from_shift(g, items, i + 1, acc + c);
                lemma_ser_from_shift(g, items, i + 1, none + c);
                match ser_from(g, items, i + 1, none) {
                    Ok(s) => {
                        assert((acc + c) + s =~= acc + ((none + c) + s));
                    },
                    Err(e) => {},
                }
            },
        }
    } else {
        assert(acc + none =~= acc);
    }
}

/// A list that was written is read back, where each of its items is: if
/// every item, wherever its bytes stand, is read back from there, then the
/// items from index `i` on are read back from where their bytes stand.
pub proof fn lemma_from_round_trip<T>(
    f: spec_fn(u64) -> Parsed<T>,
    g: spec_fn(T) -> Result<Seq<u8>, Error>,
    bytes: Seq<u8>,
    pos: u64,
    items: Seq<T>,
    i: nat,
    acc: Seq<T>,
)
    requires
        bytes.len() <= u64::MAX,
        i <= items.len(),
        ser_from(g, items, i, Seq::<u8>::empty()) is Ok,
        has_at(bytes, pos as int, ser_from(g, items, i, Seq::<u8>::empty())->Ok_0),
        forall|k: int, p: u64|
            #![trigger g(items[k]), f(p)]
            0 <= k < items.len() && g(items[k]) is Ok && has_at(bytes, p as int, g(items[k])->Ok_0)
                ==> f(p) == Ok::<(T, u64), Error>(
                (items[k], (p + g(items[k])->Ok_0.len()) as u64),
            ),
    ensures
        parse_from(f, pos, (items.len() - i) as nat, acc) == Ok::<(Seq<T>, u64), Error>(
            (
                acc + items.subrange(i as int, items.len() as int),
                (pos + ser_from(g, items, i, Seq::<u8>::empty())->Ok_0.len()) as u64,
            ),
        ),
    decreases items.len() - i,
{
    let none = Seq::<u8>::empty();
    if i < items.len() {
        let c = g(items[i as int])->Ok_0;
        lemma_ser_from_shift(g, items, i + 1, none + c);
        let rest = ser_from(g, items, i + 1, none)->Ok_0;
        assert(none + c =~= c);
        lemma_has_at_concat(bytes, pos as int, c, rest);
        assert(f(pos) == Ok::<(T, u64), Error>((items[i as int], (pos + c.len()) as u64)));
        lemma_from_round_trip(
            f,
            g,
            bytes,
            (pos + c.len()) as u64,
            items,
            i + 1,
            acc.push(items[i as int]),
        );
        assert(acc.push(items[i as int]) + items.subrange(i as int + 1, items.len() as int) =~= acc
            + items.subrange(i as int, items.len() as int));
    } else {
        assert(acc + items.subrange(i as int, items.len() as int) =~= acc);
    }
}

/// What is known after several chunks were written one behind the other,
/// `chunk` being all of them: where `chunk` fits, it stands at the old
/// position and `value` is reported; where it does not, the write fails
/// and may have written a part.
pub open spec fn emitted<T>(
    r: Result<T, Error>,
    value: T,
    old_bytes: Seq<u8>,
    old_pos: u64,
    new_bytes: Seq<u8>,
    new_pos: u64,
    chunk: Seq<u8>,
) -> bool {
    if fits(old_pos, chunk.len()) {
        &&& r == Ok::<T, Error>(value)
        &&& new_bytes == write_at(old_bytes, old_pos as int, chunk)
        &&& new_pos == old_pos + chunk.len()
    } else {
        r == Err::<T, Error>(Error::invalid_input())
    }
}

/// [`emitted`] for a value that may not be writable at all: then the write
/// fails with the value's own error, or, where a part was written before
/// the fault was met and did not fit, with that of the stream.
pub open spec fn emitted_checked<T>(
    r: Result<T, Error>,
    value: T,
    old_bytes: Seq<u8>,
    old_pos: u64,
    new_bytes: Seq<u8>,
    new_pos: u64,
    chunk: Result<Seq<u8>, Error>,
) -> bool {
    match chunk {
        Ok(c) => emitted(r, value, old_bytes, old_pos, new_bytes, new_pos, c),
        Err(e) => r == Err::<T, Error>(e) || r == Err::<T, Error>(Error::invalid_input()),
    }
}

} // verus!
