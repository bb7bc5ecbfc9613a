//! Runs of integers, links and names, which many structures store one
//! behind the other, with or without a count before them.

use crate::error::Error;
use crate::le::{enc_i32, enc_u32, lemma_enc_dec};
use crate::reader::asset_reader::AssetReader;
use crate::reader::asset_trait::{parse_fname, ser_fname, Env};
use crate::reader::asset_writer::AssetWriter;
use crate::stream::{
    emitted, emitted_checked, fits, has_at, lemma_emit, lemma_from_round_trip,
    lemma_ser_from_extends, parse_from, parse_i32, parse_many, parse_u32, ser_all, ser_from,
    write_at, yields_view, Parsed,
};
use crate::unreal_types::{FName, FNameView, PackageIndex};
use vstd::prelude::*;

verus! {

/// Reading one 32-bit integer, as a function of the position.
pub open spec fn i32_reader(bytes: Seq<u8>) -> spec_fn(u64) -> Parsed<i32> {
    |p: u64| parse_i32(bytes, p)
}

/// Writing one 32-bit integer, as a function of the integer.
pub open spec fn i32_writer() -> spec_fn(i32) -> Result<Seq<u8>, Error> {
    |v: i32| Ok::<Seq<u8>, Error>(enc_i32(v))
}

/// The bytes of a run of 32-bit integers.
pub open spec fn ser_i32s(items: Seq<i32>) -> Seq<u8> {
    ser_all(i32_writer(), items)->Ok_0
}

/// The bytes of the integers from index `i` on stand behind what was
/// gathered, four for each.
pub proof fn lemma_ser_i32s_from(items: Seq<i32>, i: nat, acc: Seq<u8>)
    requires
        i <= items.len(),
    ensures
        ser_from(i32_writer(), items, i, acc) is Ok,
        ser_from(i32_writer(), items, i, acc)->Ok_0.len() == acc.len() + 4 * (items.len() - i),
    decreases items.len() - i,
{
    lemma_enc_dec();
    if i < items.len() {
        lemma_ser_i32s_from(items, i + 1, acc + enc_i32(items[i as int]));
    }
}

/// Every run of integers has bytes, four for each integer.
pub proof fn lemma_ser_i32s(items: Seq<i32>)
    ensures
        ser_all(i32_writer(), items) == Ok::<Seq<u8>, Error>(ser_i32s(items)),
        ser_i32s(items).len() == 4 * items.len(),
{
    lemma_ser_i32s_from(items, 0, Seq::empty());
}

/// A run of integers that was written is read back.
pub proof fn lemma_i32s_round_trip(bytes: Seq<u8>, pos: u64, items: Seq<i32>)
    requires
        bytes.len() <= u64::MAX,
        has_at(bytes, pos as int, ser_i32s(items)),
    ensures
        parse_many(i32_reader(bytes), pos, items.len()) == Ok::<(Seq<i32>, u64), Error>(
            (items, (pos + 4 * items.len()) as u64),
        ),
{
    lemma_enc_dec();
    lemma_ser_i32s(items);
    let f = i32_reader(bytes);
    let g = i32_writer();
    assert forall|k: int, p: u64|
        #![trigger g(items[k]), f(p)]
        0 <= k < items.len() && g(items[k]) is Ok && has_at(bytes, p as int, g(items[k])->Ok_0)
            implies f(p) == Ok::<(i32, u64), Error>(
        (items[k], (p + g(items[k])->Ok_0.len()) as u64),
    ) by {}
    lemma_from_round_trip(f, g, bytes, pos, items, 0, Seq::empty());
    assert(Seq::<i32>::empty() + items.subrange(0, items.len() as int) =~= items);
}

/// The number of items that a stored count announces: the count itself,
/// and for a negative count what it is when taken as unsigned.
pub open spec fn announced(count: i32) -> nat {
    (count as usize) as nat
}

/// A count that is not negative announces itself. A negative count
/// announces more items than a stream in memory can hold: more than the
/// largest length of a vector, and more than any length, if an item takes
/// two bytes or more.
pub proof fn lemma_announced(count: i32)
    ensures
        count >= 0 ==> announced(count) == count,
        count < 0 ==> announced(count) > isize::MAX,
        count < 0 ==> 2 * announced(count) > usize::MAX,
{
    let top: usize = !0usize;
    let most: usize = usize::MAX;
    assert(most <= !0usize) by (bit_vector);
    assert(top >= 0xffff_ffffusize) by (bit_vector)
        requires
            top == !0usize,
    ;
    assert(count < 0 ==> (count as usize) > top - 0x8000_0000usize) by (bit_vector)
        requires
            top == !0usize,
    ;
}

/// Reads `count` 32-bit integers.
#[verifier::loop_isolation(false)]
pub fn read_i32_list<Reader: AssetReader>(asset: &mut Reader, count: usize) -> (r: Result<
    Vec<i32>,
    Error,
>)
    ensures
        final(asset).bytes() == old(asset).bytes(),
        final(asset).env() == old(asset).env(),
        yields_view(
            r,
            final(asset).pos(),
            parse_many(i32_reader(old(asset).bytes()), old(asset).pos(), count as nat),
        ),
{
    let ghost bytes = asset.bytes();
    let ghost start = asset.pos();
    let ghost f = i32_reader(bytes);
    let mut items: Vec<i32> = Vec::new();
    let mut i: usize = 0;
    while i < count
        invariant
            i <= count,
            asset.bytes() == bytes,
            asset.env() == old(asset).env(),
            parse_many(f, start, count as nat) == parse_from(
                f,
                asset.pos(),
                (count - i) as nat,
                items@,
            ),
        decreases count - i,
    {
        let item = match asset.read_i32() {
            Ok(item) => item,
            Err(e) => return Err(e),
        };
        items.push(item);
        i = i + 1;
    }
    Ok(items)
}

/// Writes the integers of `items`.
#[verifier::loop_isolation(false)]
pub fn write_i32_list<Writer: AssetWriter>(asset: &mut Writer, items: &Vec<i32>) -> (r: Result<
    (),
    Error,
>)
    ensures
        final(asset).env() == old(asset).env(),
        emitted(
            r,
            (),
            old(asset).bytes(),
            old(asset).pos(),
            final(asset).bytes(),
            final(asset).pos(),
            ser_i32s(items@),
        ),
{
    proof {
        lemma_ser_i32s(items@);
    }
    let ghost origin = asset.bytes();
    let ghost start = asset.pos();
    let ghost none = Seq::<u8>::empty();
    let ghost g = i32_writer();
    let count = items.len();
    let ghost mut list = none;
    let mut i: usize = 0;
    while i < count
        invariant
            i <= count,
            asset.env() == old(asset).env(),
            asset.bytes() == write_at(origin, start as int, list),
            asset.pos() == start + list.len(),
            crate::stream::fits(start, list.len()),
            ser_all(g, items@) == ser_from(g, items@, i as nat, list),
        decreases count - i,
    {
        let ghost b = asset.bytes();
        let ghost p = asset.pos();
        let one = asset.write_i32(items[i]);
        proof {
            lemma_emit(
                one,
                origin,
                start,
                list,
                enc_i32(items@[i as int]),
                b,
                p,
                asset.bytes(),
                asset.pos(),
            );
            lemma_ser_from_extends(g, items@, (i + 1) as nat, list + enc_i32(items@[i as int]));
            if one is Ok {
                list = list + enc_i32(items@[i as int]);
            }
        }
        if let Err(e) = one {
            return Err(e);
        }
        i = i + 1;
    }
    Ok(())
}

/// Reading one link to an object, as a function of the position.
pub open spec fn link_reader(bytes: Seq<u8>) -> spec_fn(u64) -> Parsed<PackageIndex> {
    |p: u64|
        match parse_i32(bytes, p) {
            Err(e) => Err::<(PackageIndex, u64), Error>(e),
            Ok((index, q)) => Ok::<(PackageIndex, u64), Error>((PackageIndex { index }, q)),
        }
}

/// Writing one link to an object, as a function of the link.
pub open spec fn link_writer() -> spec_fn(PackageIndex) -> Result<Seq<u8>, Error> {
    |link: PackageIndex| Ok::<Seq<u8>, Error>(enc_i32(link.index))
}

/// The bytes of a run of links.
pub open spec fn ser_links(items: Seq<PackageIndex>) -> Seq<u8> {
    ser_all(link_writer(), items)->Ok_0
}

/// The bytes of the links from index `i` on stand behind what was
/// gathered, four for each.
pub proof fn lemma_ser_links_from(items: Seq<PackageIndex>, i: nat, acc: Seq<u8>)
    requires
        i <= items.len(),
    ensures
        ser_from(link_writer(), items, i, acc) is Ok,
        ser_from(link_writer(), items, i, acc)->Ok_0.len() == acc.len() + 4 * (items.len() - i),
    decreases items.len() - i,
{
    lemma_enc_dec();
    if i < items.len() {
        lemma_ser_links_from(items, i + 1, acc + enc_i32(items[i as int].index));
    }
}

/// Every run of links has bytes, four for each link.
pub proof fn lemma_ser_links(items: Seq<PackageIndex>)
    ensures
        ser_all(link_writer(), items) == Ok::<Seq<u8>, Error>(ser_links(items)),
        ser_links(items).len() == 4 * items.len(),
{
    lemma_ser_links_from(items, 0, Seq::empty());
}

/// A run of links that was written is read back.
pub proof fn lemma_links_round_trip(bytes: Seq<u8>, pos: u64, items: Seq<PackageIndex>)
    requires
        bytes.len() <= u64::MAX,
        has_at(bytes, pos as int, ser_links(items)),
    ensures
        parse_many(link_reader(bytes), pos, items.len()) == Ok::<(Seq<PackageIndex>, u64), Error>(
            (items, (pos + 4 * items.len()) as u64),
        ),
{
    lemma_enc_dec();
    lemma_ser_links(items);
    let f = link_reader(bytes);
    let g = link_writer();
    assert forall|k: int, p: u64|
        #![trigger g(items[k]), f(p)]
        0 <= k < items.len() && g(items[k]) is Ok && has_at(bytes, p as int, g(items[k])->Ok_0)
            implies f(p) == Ok::<(PackageIndex, u64), Error>(
        (items[k], (p + g(items[k])->Ok_0.len()) as u64),
    ) by {}
    lemma_from_round_trip(f, g, bytes, pos, items, 0, Seq::empty());
    assert(Seq::<PackageIndex>::empty() + items.subrange(0, items.len() as int) =~= items);
}

/// Reads `count` links to objects.
#[verifier::loop_isolation(false)]
pub fn read_link_list<Reader: AssetReader>(asset: &mut Reader, count: usize) -> (r: Result<
    Vec<PackageIndex>,
    Error,
>)
    ensures
        final(asset).bytes() == old(asset).bytes(),
        final(asset).env() == old(asset).env(),
        yields_view(
            r,
            final(asset).pos(),
            parse_many(link_reader(old(asset).bytes()), old(asset).pos(), count as nat),
        ),
{
    let ghost bytes = asset.bytes();
    let ghost start = asset.pos();
    let ghost f = link_reader(bytes);
    let mut items: Vec<PackageIndex> = Vec::new();
    let mut i: usize = 0;
    while i < count
        invariant
            i <= count,
            asset.bytes() == bytes,
            asset.env() == old(asset).env(),
            parse_many(f, start, count as nat) == parse_from(
                f,
                asset.pos(),
                (count - i) as nat,
                items@,
            ),
        decreases count - i,
    {
        let item = match asset.read_i32() {
            Ok(item) => item,
            Err(e) => return Err(e),
        };
        items.push(PackageIndex::new(item));
        i = i + 1;
    }
    Ok(items)
}

/// Writes the links of `items`.
#[verifier::loop_isolation(false)]
pub fn write_link_list<Writer: AssetWriter>(asset: &mut Writer, items: &Vec<PackageIndex>) -> (r:
    Result<(), Error>)
    ensures
        final(asset).env() == old(asset).env(),
        emitted(
            r,
            (),
            old(asset).bytes(),
            old(asset).pos(),
            final(asset).bytes(),
            final(asset).pos(),
            ser_links(items@),
        ),
{
    proof {
        lemma_ser_links(items@);
    }
    let ghost origin = asset.bytes();
    let ghost start = asset.pos();
    let ghost none = Seq::<u8>::empty();
    let ghost g = link_writer();
    let count = items.len();
    let ghost mut list = none;
    let mut i: usize = 0;
    while i < count
        invariant
            i <= count,
            asset.env() == old(asset).env(),
            asset.bytes() == write_at(origin, start as int, list),
            asset.pos() == start + list.len(),
            crate::stream::fits(start, list.len()),
            ser_all(g, items@) == ser_from(g, items@, i as nat, list),
        decreases count - i,
    {
        let ghost b = asset.bytes();
        let ghost p = asset.pos();
        let one = asset.write_i32(items[i].index);
        proof {
            lemma_emit(
                one,
                origin,
                start,
                list,
                enc_i32(items@[i as int].index),
                b,
                p,
                asset.bytes(),
                asset.pos(),
            );
            lemma_ser_from_extends(
                g,
                items@,
                (i + 1) as nat,
                list + enc_i32(items@[i as int].index),
            );
            if one is Ok {
                list = list + enc_i32(items@[i as int].index);
            }
        }
        if let Err(e) = one {
            return Err(e);
        }
        i = i + 1;
    }
    Ok(())
}

/// The number of items that a stored count announces where a negative
/// count announces none.
pub open spec fn counted(count: i32) -> nat {
    if count < 0 {
        0
    } else {
        count as nat
    }
}

/// A count and as many items read one behind the other, each by `f`;
/// none where the count is negative.
pub open spec fn parse_array<T>(f: spec_fn(u64) -> Parsed<T>, bytes: Seq<u8>, pos: u64) -> Parsed<
    Seq<T>,
> {
    match parse_i32(bytes, pos) {
        Err(e) => Err(e),
        Ok((length, p)) => parse_many(f, p, counted(length)),
    }
}

/// The number of items to read for a stored count where a negative count
/// announces none.
pub fn counted_items(count: i32) -> (n: usize)
    ensures
        n == counted(count),
{
    if count < 0 {
        0
    } else {
        count as usize
    }
}

/// Reading one 32-bit word, as a function of the position.
pub open spec fn u32_reader(bytes: Seq<u8>) -> spec_fn(u64) -> Parsed<u32> {
    |p: u64| parse_u32(bytes, p)
}

/// Writing one 32-bit word, as a function of the word.
pub open spec fn u32_writer() -> spec_fn(u32) -> Result<Seq<u8>, Error> {
    |v: u32| Ok::<Seq<u8>, Error>(enc_u32(v))
}

/// Reading one name, as a function of the position.
pub open spec fn fname_reader(env: Env, bytes: Seq<u8>) -> spec_fn(u64) -> Parsed<FNameView> {
    |p: u64| parse_fname(env, bytes, p)
}

/// Writing one name, as a function of the name.
pub open spec fn fname_writer(env: Env) -> spec_fn(FNameView) -> Result<Seq<u8>, Error> {
    |name: FNameView| ser_fname(env, name)
}

/// Reads `count` 32-bit words.
#[verifier::loop_isolation(false)]
pub fn read_u32_list<Reader: AssetReader>(asset: &mut Reader, count: usize) -> (r: Result<
    Vec<u32>,
    Error,
>)
    ensures
        final(asset).bytes() == old(asset).bytes(),
        final(asset).env() == old(asset).env(),
        yields_view(
            r,
            final(asset).pos(),
            parse_many(u32_reader(old(asset).bytes()), old(asset).pos(), count as nat),
        ),
{
    let ghost env = asset.env();
    let ghost bytes = asset.bytes();
    let ghost start = asset.pos();
    let ghost f = u32_reader(bytes);
    let mut items: Vec<u32> = Vec::new();
    let mut i: usize = 0;
    while i < count
        invariant
            i <= count,
            asset.bytes() == bytes,
            asset.env() == env,
            parse_many(f, start, count as nat) == parse_from(
                f,
                asset.pos(),
                (count - i) as nat,
                items@,
            ),
        decreases count - i,
    {
        let item = match asset.read_u32() {
            Ok(item) => item,
            Err(e) => return Err(e),
        };
        items.push(item);
        i = i + 1;
    }
    Ok(items)
}

/// Writes the words of `items`.
#[verifier::loop_isolation(false)]
pub fn write_u32_list<Writer: AssetWriter>(asset: &mut Writer, items: &Vec<u32>) -> (r: Result<
    (),
    Error,
>)
    ensures
        final(asset).env() == old(asset).env(),
        emitted_checked(
            r,
            (),
            old(asset).bytes(),
            old(asset).pos(),
            final(asset).bytes(),
            final(asset).pos(),
            ser_all(u32_writer(), items@),
        ),
{
    let ghost env = asset.env();
    let ghost origin = asset.bytes();
    let ghost start = asset.pos();
    let ghost none = Seq::<u8>::empty();
    let ghost g = u32_writer();
    let ghost views = items@;
    let count = items.len();
    let ghost mut list = none;
    let mut i: usize = 0;
    proof {
        lemma_ser_from_extends(g, views, 0, none);
    }
    while i < count
        invariant
            i <= count,
            asset.env() == env,
            asset.bytes() == write_at(origin, start as int, list),
            asset.pos() == start + list.len(),
            fits(start, list.len()),
            ser_all(g, views) == ser_from(g, views, i as nat, list),
        decreases count - i,
    {
        let entry = &items[i];
        assert(views[i as int] == *entry);
        let ghost b = asset.bytes();
        let ghost p = asset.pos();
        let one = asset.write_u32(*entry);
        proof {
            match Ok::<Seq<u8>, Error>(enc_u32(*entry)) {
                Ok(chunk) => {
                    lemma_emit(one, origin, start, list, chunk, b, p, asset.bytes(), asset.pos());
                    lemma_ser_from_extends(g, views, (i + 1) as nat, list + chunk);
                    if one is Ok {
                        list = list + chunk;
                    }
                },
                Err(e) => {},
            }
        }
        if let Err(e) = one {
            return Err(e);
        }
        i = i + 1;
    }
    Ok(())
}

/// Writes the names of `items`.
#[verifier::loop_isolation(false)]
pub fn write_fname_list<Writer: AssetWriter>(asset: &mut Writer, items: &Vec<FName>) -> (r: Result<
    (),
    Error,
>)
    ensures
        final(asset).env() == old(asset).env(),
        emitted_checked(
            r,
            (),
            old(asset).bytes(),
            old(asset).pos(),
            final(asset).bytes(),
            final(asset).pos(),
            ser_all(fname_writer(old(asset).env()), items.deep_view()),
        ),
{
    let ghost env = asset.env();
    let ghost origin = asset.bytes();
    let ghost start = asset.pos();
    let ghost none = Seq::<u8>::empty();
    let ghost g = fname_writer(env);
    let ghost views = items.deep_view();
    let count = items.len();
    let ghost mut list = none;
    let mut i: usize = 0;
    proof {
        lemma_ser_from_extends(g, views, 0, none);
    }
    while i < count
        invariant
            i <= count,
            asset.env() == env,
            asset.bytes() == write_at(origin, start as int, list),
            asset.pos() == start + list.len(),
            fits(start, list.len()),
            ser_all(g, views) == ser_from(g, views, i as nat, list),
        decreases count - i,
    {
        let entry = &items[i];
        assert(views[i as int] == entry.deep_view());
        let ghost b = asset.bytes();
        let ghost p = asset.pos();
        let one = asset.write_fname(entry);
        proof {
            match ser_fname(env, entry.deep_view()) {
                Ok(chunk) => {
                    lemma_emit(one, origin, start, list, chunk, b, p, asset.bytes(), asset.pos());
                    lemma_ser_from_extends(g, views, (i + 1) as nat, list + chunk);
                    if one is Ok {
                        list = list + chunk;
                    }
                },
                Err(e) => {},
            }
        }
        if let Err(e) = one {
            return Err(e);
        }
        i = i + 1;
    }
    Ok(())
}

} // verus!
