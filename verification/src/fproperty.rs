//! The descriptor of a property in the layout of a struct.

use crate::error::Error;
use crate::le::{enc_i32, enc_u16, enc_u32, enc_u64, enc_u8, lemma_enc_dec};
use crate::reader::asset_reader::AssetReader;
use crate::reader::asset_trait::{
    lemma_fname_advances, lemma_fname_read_is_kept, lemma_fname_round_trip, name_kept, paired,
    parse_fname, ser_fname, table_kept, Env,
};
use crate::reader::asset_writer::AssetWriter;
use crate::stream::{
    emitted_checked, has_at, lemma_emit, lemma_has_at_concat, parse_i32, parse_u16, parse_u32,
    parse_u64, parse_u8, yields_deep, Parsed,
};
use crate::unreal_types::{FName, FNameView};
use vstd::prelude::*;

verus! {

/// The descriptor of a property: what every kind of descriptor stores.
#[derive(Clone, Debug, PartialEq, Eq, Hash)]
pub struct FProperty {
    /// The name of the kind of the descriptor.
    pub serialized_type: FName,
    /// The name of the property.
    pub name: FName,
    /// The flags of the object.
    pub flags: u32,
    /// The number of elements of a static array.
    pub array_dim: i32,
    /// The size of one element.
    pub element_size: i32,
    /// The flags of the property.
    pub property_flags: u64,
    /// The index of the property in replication.
    pub rep_index: u16,
    /// The function that is called when the property is replicated.
    pub rep_notify_func: FName,
    /// When the property is replicated.
    pub blueprint_replication_condition: u8,
}

/// What an [`FProperty`] stands for.
pub struct FPropertyView {
    pub serialized_type: FNameView,
    pub name: FNameView,
    pub flags: u32,
    pub array_dim: i32,
    pub element_size: i32,
    pub property_flags: u64,
    pub rep_index: u16,
    pub rep_notify_func: FNameView,
    pub blueprint_replication_condition: u8,
}

impl DeepView for FProperty {
    type V = FPropertyView;

    open spec fn deep_view(&self) -> FPropertyView {
        FPropertyView {
            serialized_type: self.serialized_type.deep_view(),
            name: self.name.deep_view(),
            flags: self.flags,
            array_dim: self.array_dim,
            element_size: self.element_size,
            property_flags: self.property_flags,
            rep_index: self.rep_index,
            rep_notify_func: self.rep_notify_func.deep_view(),
            blueprint_replication_condition: self.blueprint_replication_condition,
        }
    }
}

/// The descriptor at `pos`.
pub open spec fn parse_fproperty(env: Env, bytes: Seq<u8>, pos: u64) -> Parsed<FPropertyView> {
    match parse_fname(env, bytes, pos) {
        Err(e) => Err(e),
        Ok((serialized_type, p1)) =>
        match parse_fname(env, bytes, p1) {
            Err(e) => Err(e),
            Ok((name, p2)) =>
            match parse_u32(bytes, p2) {
                Err(e) => Err(e),
                Ok((flags, p3)) =>
                match parse_i32(bytes, p3) {
                    Err(e) => Err(e),
                    Ok((array_dim, p4)) =>
                    match parse_i32(bytes, p4) {
                        Err(e) => Err(e),
                        Ok((element_size, p5)) =>
                        match parse_u64(bytes, p5) {
                            Err(e) => Err(e),
                            Ok((property_flags, p6)) =>
                            match parse_u16(bytes, p6) {
                                Err(e) => Err(e),
                                Ok((rep_index, p7)) =>
                                match parse_fname(env, bytes, p7) {
                                    Err(e) => Err(e),
                                    Ok((rep_notify_func, p8)) =>
                                    match parse_u8(bytes, p8) {
                                        Err(e) => Err(e),
                                        Ok((blueprint_replication_condition, p9)) =>
                                        Ok((FPropertyView {
                                            serialized_type,
                                            name,
                                            flags,
                                            array_dim,
                                            element_size,
                                            property_flags,
                                            rep_index,
                                            rep_notify_func,
                                            blueprint_replication_condition,
                                        }, p9)),
                                    },
                                },
                            },
                        },
                    },
                },
            },
        },
    }
}

/// The bytes of the two names that a descriptor starts with.
pub open spec fn ser_fproperty_names(env: Env, v: FPropertyView) -> Result<Seq<u8>, Error> {
    match ser_fname(env, v.serialized_type) {
        Err(e) => Err(e),
        Ok(kind) => match ser_fname(env, v.name) {
            Err(e) => Err(e),
            Ok(name) => Ok(kind + name),
        },
    }
}

/// The bytes of a descriptor on disk.
pub open spec fn ser_fproperty(env: Env, v: FPropertyView) -> Result<Seq<u8>, Error> {
    match ser_fproperty_names(env, v) {
        Err(e) => Err(e),
        Ok(names) => match ser_fname(env, v.rep_notify_func) {
            Err(e) => Err(e),
            Ok(notify) => Ok(
                names + enc_u32(v.flags) + enc_i32(v.array_dim) + enc_i32(v.element_size)
                    + enc_u64(v.property_flags) + enc_u16(v.rep_index) + notify + enc_u8(
                    v.blueprint_replication_condition,
                ),
            ),
        },
    }
}

/// Whether a descriptor is read back as it was written: its three names
/// are.
pub open spec fn fproperty_kept(reading: Env, writing: Env, v: FPropertyView) -> bool {
    &&& name_kept(reading, writing, v.serialized_type)
    &&& name_kept(reading, writing, v.name)
    &&& name_kept(reading, writing, v.rep_notify_func)
}

/// A descriptor that was written is read back.
#[verifier::rlimit(40)]
pub proof fn lemma_fproperty_round_trip(
    reading: Env,
    writing: Env,
    bytes: Seq<u8>,
    pos: u64,
    v: FPropertyView,
)
    requires
        paired(reading, writing),
        bytes.len() <= u64::MAX,
        ser_fproperty(writing, v) is Ok,
        has_at(bytes, pos as int, ser_fproperty(writing, v)->Ok_0),
        fproperty_kept(reading, writing, v),
    ensures
        parse_fproperty(reading, bytes, pos) == Ok::<(FPropertyView, u64), Error>(
            (v, (pos + ser_fproperty(writing, v)->Ok_0.len()) as u64),
        ),
{
    lemma_enc_dec();
    let c1 = ser_fname(writing, v.serialized_type)->Ok_0;
    let c2 = ser_fname(writing, v.name)->Ok_0;
    let c3 = enc_u32(v.flags);
    let c4 = enc_i32(v.array_dim);
    let c5 = enc_i32(v.element_size);
    let c6 = enc_u64(v.property_flags);
    let c7 = enc_u16(v.rep_index);
    let c8 = ser_fname(writing, v.rep_notify_func)->Ok_0;
    let c9 = enc_u8(v.blueprint_replication_condition);
    lemma_has_at_concat(bytes, pos as int, c1 + c2 + c3 + c4 + c5 + c6 + c7 + c8, c9);
    lemma_has_at_concat(bytes, pos as int, c1 + c2 + c3 + c4 + c5 + c6 + c7, c8);
    lemma_has_at_concat(bytes, pos as int, c1 + c2 + c3 + c4 + c5 + c6, c7);
    lemma_has_at_concat(bytes, pos as int, c1 + c2 + c3 + c4 + c5, c6);
    lemma_has_at_concat(bytes, pos as int, c1 + c2 + c3 + c4, c5);
    lemma_has_at_concat(bytes, pos as int, c1 + c2 + c3, c4);
    lemma_has_at_concat(bytes, pos as int, c1 + c2, c3);
    lemma_has_at_concat(bytes, pos as int, c1, c2);
    lemma_fname_round_trip(reading, writing, bytes, pos, v.serialized_type);
    let p1 = (pos + c1.len()) as u64;
    lemma_fname_round_trip(reading, writing, bytes, p1, v.name);
    let p7 = (p1 + c2.len() + 22) as u64;
    lemma_fname_round_trip(reading, writing, bytes, p7, v.rep_notify_func);
    let p8 = (p7 + c8.len()) as u64;
    assert(bytes.subrange(p8 as int, p8 + 1)[0] == c9[0]);
}

impl FProperty {
    /// Reads a descriptor.
    pub fn new<Reader: AssetReader>(asset: &mut Reader) -> (r: Result<FProperty, Error>)
        ensures
            final(asset).bytes() == old(asset).bytes(),
            final(asset).env() == old(asset).env(),
            yields_deep(
                r,
                final(asset).pos(),
                parse_fproperty(old(asset).env(), old(asset).bytes(), old(asset).pos()),
            ),
    {
        let serialized_type = match asset.read_fname() {
            Ok(v) => v,
            Err(e) => return Err(e),
        };
        let name = match asset.read_fname() {
            Ok(v) => v,
            Err(e) => return Err(e),
        };
        let flags = match asset.read_u32() {
            Ok(v) => v,
            Err(e) => return Err(e),
        };
        let array_dim = match asset.read_i32() {
            Ok(v) => v,
            Err(e) => return Err(e),
        };
        let element_size = match asset.read_i32() {
            Ok(v) => v,
            Err(e) => return Err(e),
        };
        let property_flags = match asset.read_u64() {
            Ok(v) => v,
            Err(e) => return Err(e),
        };
        let rep_index = match asset.read_u16() {
            Ok(v) => v,
            Err(e) => return Err(e),
        };
        let rep_notify_func = match asset.read_fname() {
            Ok(v) => v,
            Err(e) => return Err(e),
        };
        let blueprint_replication_condition = match asset.read_u8() {
            Ok(v) => v,
            Err(e) => return Err(e),
        };
        Ok(FProperty {
            serialized_type,
            name,
            flags,
            array_dim,
            element_size,
            property_flags,
            rep_index,
            rep_notify_func,
            blueprint_replication_condition,
        })
    }

    /// Writes a descriptor.
    #[verifier::rlimit(60)]
    pub fn write<Writer: AssetWriter>(property: &FProperty, asset: &mut Writer) -> (r: Result<
        (),
        Error,
    >)
        ensures
            final(asset).env() == old(asset).env(),
            emitted_checked(
                r,
                (),
                old(asset).bytes(),
                old(asset).pos(),
                final(asset).bytes(),
                final(asset).pos(),
                ser_fproperty(old(asset).env(), property.deep_view()),
            ),
    {
        let ghost env = asset.env();
        let ghost origin = asset.bytes();
        let ghost start = asset.pos();
        let ghost mut done = Seq::<u8>::empty();
        let ghost v = property.deep_view();
        proof {
            lemma_enc_dec();
        }
        let ghost b = asset.bytes();
        let ghost p = asset.pos();
        let ghost part = ser_fname(env, v.serialized_type);
        let step = asset.write_fname(&property.serialized_type);
        proof {
            if part is Ok {
                lemma_emit(step, origin, start, done, part->Ok_0, b, p, asset.bytes(), asset.pos());
                done = done + part->Ok_0;
            }
        }
        if let Err(e) = step {
            return Err(e);
        }
        let ghost b = asset.bytes();
        let ghost p = asset.pos();
        let ghost part = ser_fname(env, v.name);
        let step = asset.write_fname(&property.name);
        proof {
            if part is Ok {
                lemma_emit(step, origin, start, done, part->Ok_0, b, p, asset.bytes(), asset.pos());
                done = done + part->Ok_0;
            }
        }
        if let Err(e) = step {
            return Err(e);
        }
        let ghost b = asset.bytes();
        let ghost p = asset.pos();
        let ghost chunk = enc_u32(property.flags);
        let step = asset.write_u32(property.flags);
        proof {
            lemma_emit(step, origin, start, done, chunk, b, p, asset.bytes(), asset.pos());
            done = done + chunk;
        }
        if let Err(e) = step {
            return Err(e);
        }
        let ghost b = asset.bytes();
        let ghost p = asset.pos();
        let ghost chunk = enc_i32(property.array_dim);
        let step = asset.write_i32(property.array_dim);
        proof {
            lemma_emit(step, origin, start, done, chunk, b, p, asset.bytes(), asset.pos());
            done = done + chunk;
        }
        if let Err(e) = step {
            return Err(e);
        }
        let ghost b = asset.bytes();
        let ghost p = asset.pos();
        let ghost chunk = enc_i32(property.element_size);
        let step = asset.write_i32(property.element_size);
        proof {
            lemma_emit(step, origin, start, done, chunk, b, p, asset.bytes(), asset.pos());
            done = done + chunk;
        }
        if let Err(e) = step {
            return Err(e);
        }
        let ghost b = asset.bytes();
        let ghost p = asset.pos();
        let ghost chunk = enc_u64(property.property_flags);
        let step = asset.write_u64(property.property_flags);
        proof {
            lemma_emit(step, origin, start, done, chunk, b, p, asset.bytes(), asset.pos());
            done = done + chunk;
        }
        if let Err(e) = step {
            return Err(e);
        }
        let ghost b = asset.bytes();
        let ghost p = asset.pos();
        let ghost chunk = enc_u16(property.rep_index);
        let step = asset.write_u16(property.rep_index);
        proof {
            lemma_emit(step, origin, start, done, chunk, b, p, asset.bytes(), asset.pos());
            done = done + chunk;
        }
        if let Err(e) = step {
            return Err(e);
        }
        let ghost b = asset.bytes();
        let ghost p = asset.pos();
        let ghost part = ser_fname(env, v.rep_notify_func);
        let step = asset.write_fname(&property.rep_notify_func);
        proof {
            if part is Ok {
                lemma_emit(step, origin, start, done, part->Ok_0, b, p, asset.bytes(), asset.pos());
                done = done + part->Ok_0;
            }
        }
        if let Err(e) = step {
            return Err(e);
        }
        let ghost b = asset.bytes();
        let ghost p = asset.pos();
        let ghost chunk = enc_u8(property.blueprint_replication_condition);
        let step = asset.write_u8(property.blueprint_replication_condition);
        proof {
            lemma_emit(step, origin, start, done, chunk, b, p, asset.bytes(), asset.pos());
            done = done + chunk;
        }
        if let Err(e) = step {
            return Err(e);
        }
        assert(Ok::<Seq<u8>, Error>(done) =~= ser_fproperty(env, v)) by {
            assert(done =~= ser_fproperty(env, v)->Ok_0);
        }
        Ok(())
    }
}

/// Every descriptor that is read can be written, and is read back when it
/// is. It takes four bytes or more, and it ends within the stream.
pub proof fn lemma_fproperty_read_is_kept(env: Env, bytes: Seq<u8>, pos: u64)
    requires
        bytes.len() <= u64::MAX,
        table_kept(env),
    ensures
        parse_fproperty(env, bytes, pos) matches Ok((v, end)) ==> {
            &&& fproperty_kept(env, env, v)
            &&& ser_fproperty(env, v) is Ok
            &&& pos + 4 <= end <= bytes.len()
        },
{
    if let Ok((v, end)) = parse_fproperty(env, bytes, pos) {
        let p1 = parse_fname(env, bytes, pos)->Ok_0.1;
        let p2 = parse_fname(env, bytes, p1)->Ok_0.1;
        let p3 = parse_u32(bytes, p2)->Ok_0.1;
        let p4 = parse_i32(bytes, p3)->Ok_0.1;
        let p5 = parse_i32(bytes, p4)->Ok_0.1;
        let p6 = parse_u64(bytes, p5)->Ok_0.1;
        let p7 = parse_u16(bytes, p6)->Ok_0.1;
        lemma_fname_read_is_kept(env, bytes, pos);
        lemma_fname_read_is_kept(env, bytes, p1);
        lemma_fname_read_is_kept(env, bytes, p7);
        lemma_fname_advances(env, bytes, pos);
        lemma_fname_advances(env, bytes, p1);
        lemma_fname_advances(env, bytes, p7);
    }
}

} // verus!
