//! The parameters of a blend between two camera view targets.

use crate::error::{Error, InvalidFileError};
use crate::le::{enc_i32, enc_u32, enc_u8, lemma_enc_dec};
use crate::properties::{
    guid_kept, lemma_optional_guid_round_trip, optional_guid, optional_guid_write,
    parse_optional_guid, ser_optional_guid,
};
use crate::reader::asset_reader::AssetReader;
use crate::reader::asset_trait::{paired, Env};
use crate::reader::asset_writer::AssetWriter;
use crate::stream::{
    emitted, has_at, lemma_emit, lemma_has_at_concat, parse_i32, parse_u32, parse_u8, yields_deep,
    Parsed,
};
use crate::unreal_types::{FName, FNameView, Guid};
use vstd::prelude::*;

verus! {

/// The shape of a blend over time.
#[derive(Clone, Copy, Debug, PartialEq, Eq, Hash, Structural)]
pub enum ViewTargetBlendFunction {
    /// Camera does a simple linear interpolation.
    VtBlendLinear,
    /// Camera has a slight ease in and ease out, but the amount of ease cannot be tweaked.
    VtBlendCubic,
    /// Camera immediately accelerates, but smoothly decelerates into the target.
    VtBlendEaseIn,
    /// Camera smoothly accelerates, but does not decelerate into the target.
    VtBlendEaseOut,
    /// Camera smoothly accelerates and decelerates.
    VtBlendEaseInOut,
    VtBlendMax,
}

impl ViewTargetBlendFunction {
    /// The byte that stands for the function on disk.
    pub open spec fn ordinal(self) -> u8 {
        match self {
            ViewTargetBlendFunction::VtBlendLinear => 0,
            ViewTargetBlendFunction::VtBlendCubic => 1,
            ViewTargetBlendFunction::VtBlendEaseIn => 2,
            ViewTargetBlendFunction::VtBlendEaseOut => 3,
            ViewTargetBlendFunction::VtBlendEaseInOut => 4,
            ViewTargetBlendFunction::VtBlendMax => 5,
        }
    }

    /// The function that a byte stands for, if any.
    pub open spec fn of_ordinal(b: u8) -> Option<ViewTargetBlendFunction> {
        if b == 0 {
            Some(ViewTargetBlendFunction::VtBlendLinear)
        } else if b == 1 {
            Some(ViewTargetBlendFunction::VtBlendCubic)
        } else if b == 2 {
            Some(ViewTargetBlendFunction::VtBlendEaseIn)
        } else if b == 3 {
            Some(ViewTargetBlendFunction::VtBlendEaseOut)
        } else if b == 4 {
            Some(ViewTargetBlendFunction::VtBlendEaseInOut)
        } else if b == 5 {
            Some(ViewTargetBlendFunction::VtBlendMax)
        } else {
            None
        }
    }

    /// The byte that stands for the function on disk.
    pub fn into_u8(self) -> (b: u8)
        ensures
            b == self.ordinal(),
            ViewTargetBlendFunction::of_ordinal(b) == Some(self),
    {
        match self {
            ViewTargetBlendFunction::VtBlendLinear => 0,
            ViewTargetBlendFunction::VtBlendCubic => 1,
            ViewTargetBlendFunction::VtBlendEaseIn => 2,
            ViewTargetBlendFunction::VtBlendEaseOut => 3,
            ViewTargetBlendFunction::VtBlendEaseInOut => 4,
            ViewTargetBlendFunction::VtBlendMax => 5,
        }
    }

    /// The function that a byte stands for; a byte above five stands for none.
    pub fn try_from_u8(b: u8) -> (r: Result<ViewTargetBlendFunction, Error>)
        ensures
            match ViewTargetBlendFunction::of_ordinal(b) {
                Some(f) => r == Ok::<ViewTargetBlendFunction, Error>(f),
                None => r == Err::<ViewTargetBlendFunction, Error>(
                    Error::InvalidFile(InvalidFileError::UnknownBlendFunction(b)),
                ),
            },
    {
        match b {
            0 => Ok(ViewTargetBlendFunction::VtBlendLinear),
            1 => Ok(ViewTargetBlendFunction::VtBlendCubic),
            2 => Ok(ViewTargetBlendFunction::VtBlendEaseIn),
            3 => Ok(ViewTargetBlendFunction::VtBlendEaseOut),
            4 => Ok(ViewTargetBlendFunction::VtBlendEaseInOut),
            5 => Ok(ViewTargetBlendFunction::VtBlendMax),
            _ => Err(Error::InvalidFile(InvalidFileError::UnknownBlendFunction(b))),
        }
    }
}

/// How one view target is blended into another. The two numbers are held
/// as the bit patterns of single-precision numbers.
#[derive(Clone, Debug, PartialEq, Eq, Hash)]
pub struct ViewTargetBlendParamsProperty {
    pub name: FName,
    pub property_guid: Option<Guid>,
    pub duplication_index: i32,
    /// The duration of the blend, as the bits of a single-precision number.
    pub blend_time: u32,
    pub blend_function: ViewTargetBlendFunction,
    /// The exponent of the ease, as the bits of a single-precision number.
    pub blend_exp: u32,
    pub lock_outgoing: bool,
}

/// What a [`ViewTargetBlendParamsProperty`] stands for.
pub struct ViewTargetBlendParamsPropertyView {
    pub name: FNameView,
    pub property_guid: Option<Seq<u8>>,
    pub duplication_index: i32,
    pub blend_time: u32,
    pub blend_function: ViewTargetBlendFunction,
    pub blend_exp: u32,
    pub lock_outgoing: bool,
}

impl DeepView for ViewTargetBlendParamsProperty {
    type V = ViewTargetBlendParamsPropertyView;

    open spec fn deep_view(&self) -> ViewTargetBlendParamsPropertyView {
        ViewTargetBlendParamsPropertyView {
            name: self.name.deep_view(),
            property_guid: self.property_guid.deep_view(),
            duplication_index: self.duplication_index,
            blend_time: self.blend_time,
            blend_function: self.blend_function,
            blend_exp: self.blend_exp,
            lock_outgoing: self.lock_outgoing,
        }
    }
}

/// The property at `pos`: its identifier where a header is stored, the
/// duration, the function as one byte, the exponent, and the lock as a
/// 32-bit integer that is zero for false.
pub open spec fn parse_view_target_blend_params_property(
    env: Env,
    bytes: Seq<u8>,
    pos: u64,
    name: FNameView,
    include_header: bool,
    duplication_index: i32,
) -> Parsed<ViewTargetBlendParamsPropertyView> {
    match parse_optional_guid(env, bytes, pos, include_header) {
        Err(e) => Err(e),
        Ok((property_guid, p1)) => match parse_u32(bytes, p1) {
            Err(e) => Err(e),
            Ok((blend_time, p2)) => match parse_u8(bytes, p2) {
                Err(e) => Err(e),
                Ok((function, p3)) => match ViewTargetBlendFunction::of_ordinal(function) {
                    None => Err(
                        Error::InvalidFile(InvalidFileError::UnknownBlendFunction(function)),
                    ),
                    Some(blend_function) => match parse_u32(bytes, p3) {
                        Err(e) => Err(e),
                        Ok((blend_exp, p4)) => match parse_i32(bytes, p4) {
                            Err(e) => Err(e),
                            Ok((lock, p5)) => Ok(
                                (
                                    ViewTargetBlendParamsPropertyView {
                                        name,
                                        property_guid,
                                        duplication_index,
                                        blend_time,
                                        blend_function,
                                        blend_exp,
                                        lock_outgoing: lock != 0,
                                    },
                                    p5,
                                ),
                            ),
                        },
                    },
                },
            },
        },
    }
}

/// The lock of a blend as the integer that is stored for it.
pub open spec fn lock_word(lock_outgoing: bool) -> i32 {
    if lock_outgoing {
        1
    } else {
        0
    }
}

/// The bytes of the property on disk.
pub open spec fn ser_view_target_blend_params_property(
    env: Env,
    v: ViewTargetBlendParamsPropertyView,
    include_header: bool,
) -> Seq<u8> {
    ser_optional_guid(env, v.property_guid, include_header) + enc_u32(v.blend_time) + enc_u8(
        v.blend_function.ordinal(),
    ) + enc_u32(v.blend_exp) + enc_i32(lock_word(v.lock_outgoing))
}

impl ViewTargetBlendParamsProperty {
    /// Reads the property. The declared length is not consulted.
    pub fn new<Reader: AssetReader>(
        asset: &mut Reader,
        name: FName,
        include_header: bool,
        _length: i64,
        duplication_index: i32,
    ) -> (r: Result<ViewTargetBlendParamsProperty, Error>)
        ensures
            final(asset).bytes() == old(asset).bytes(),
            final(asset).env() == old(asset).env(),
            yields_deep(
                r,
                final(asset).pos(),
                parse_view_target_blend_params_property(
                    old(asset).env(),
                    old(asset).bytes(),
                    old(asset).pos(),
                    name.deep_view(),
                    include_header,
                    duplication_index,
                ),
            ),
    {
        let property_guid = match optional_guid(asset, include_header) {
            Ok(guid) => guid,
            Err(e) => return Err(e),
        };
        let blend_time = match asset.read_f32() {
            Ok(v) => v,
            Err(e) => return Err(e),
        };
        let function = match asset.read_u8() {
            Ok(v) => v,
            Err(e) => return Err(e),
        };
        let blend_function = match ViewTargetBlendFunction::try_from_u8(function) {
            Ok(v) => v,
            Err(e) => return Err(e),
        };
        let blend_exp = match asset.read_f32() {
            Ok(v) => v,
            Err(e) => return Err(e),
        };
        let lock = match asset.read_i32() {
            Ok(v) => v,
            Err(e) => return Err(e),
        };
        Ok(
            ViewTargetBlendParamsProperty {
                name,
                property_guid,
                duplication_index,
                blend_time,
                blend_function,
                blend_exp,
                lock_outgoing: lock != 0,
            },
        )
    }

    /// Writes the property and reports thirteen, the width of its values.
    pub fn write<Writer: AssetWriter>(
        &self,
        asset: &mut Writer,
        include_header: bool,
    ) -> (r: Result<usize, Error>)
        ensures
            final(asset).env() == old(asset).env(),
            emitted(
                r,
                13usize,
                old(asset).bytes(),
                old(asset).pos(),
                final(asset).bytes(),
                final(asset).pos(),
                ser_view_target_blend_params_property(
                    old(asset).env(),
                    self.deep_view(),
                    include_header,
                ),
            ),
    {
        let ghost origin = asset.bytes();
        let ghost start = asset.pos();
        let ghost none = Seq::<u8>::empty();
        let ghost c1 = ser_optional_guid(
            asset.env(),
            self.property_guid.deep_view(),
            include_header,
        );
        let ghost c2 = enc_u32(self.blend_time);
        let ghost c3 = enc_u8(self.blend_function.ordinal());
        let ghost c4 = enc_u32(self.blend_exp);
        let ghost c5 = enc_i32(lock_word(self.lock_outgoing));
        let r1 = optional_guid_write(asset, &self.property_guid, include_header);
        proof {
            lemma_emit(r1, origin, start, none, c1, origin, start, asset.bytes(), asset.pos());
            assert(none + c1 =~= c1);
        }
        if let Err(e) = r1 {
            return Err(e);
        }
        let ghost b = asset.bytes();
        let ghost p = asset.pos();
        let r2 = asset.write_f32(self.blend_time);
        proof {
            lemma_emit(r2, origin, start, c1, c2, b, p, asset.bytes(), asset.pos());
        }
        if let Err(e) = r2 {
            return Err(e);
        }
        let ghost b = asset.bytes();
        let ghost p = asset.pos();
        let r3 = asset.write_u8(self.blend_function.into_u8());
        proof {
            lemma_emit(r3, origin, start, c1 + c2, c3, b, p, asset.bytes(), asset.pos());
        }
        if let Err(e) = r3 {
            return Err(e);
        }
        let ghost b = asset.bytes();
        let ghost p = asset.pos();
        let r4 = asset.write_f32(self.blend_exp);
        proof {
            lemma_emit(r4, origin, start, c1 + c2 + c3, c4, b, p, asset.bytes(), asset.pos());
        }
        if let Err(e) = r4 {
            return Err(e);
        }
        let ghost b = asset.bytes();
        let ghost p = asset.pos();
        let r5 = asset.write_i32(
            match self.lock_outgoing {
                true => 1,
                false => 0,
            },
        );
        proof {
            lemma_emit(r5, origin, start, c1 + c2 + c3 + c4, c5, b, p, asset.bytes(), asset.pos());
        }
        match r5 {
            Ok(()) => Ok(13),
            Err(e) => Err(e),
        }
    }
}

/// A property that was written is read back.
pub proof fn lemma_view_target_blend_params_property_round_trip(
    reading: Env,
    writing: Env,
    bytes: Seq<u8>,
    pos: u64,
    v: ViewTargetBlendParamsPropertyView,
    include_header: bool,
)
    requires
        paired(reading, writing),
        bytes.len() <= u64::MAX,
        has_at(
            bytes,
            pos as int,
            ser_view_target_blend_params_property(writing, v, include_header),
        ),
        guid_kept(writing, v.property_guid, include_header),
    ensures
        parse_view_target_blend_params_property(reading,
            bytes,
            pos,
            v.name,
            include_header,
            v.duplication_index,
        ) == Ok::<(ViewTargetBlendParamsPropertyView, u64), Error>(
            (
                v,
                (pos + ser_view_target_blend_params_property(
                    writing,
                    v,
                    include_header,
                ).len()) as u64,
            ),
        ),
{
    lemma_enc_dec();
    let c1 = ser_optional_guid(writing, v.property_guid, include_header);
    let c2 = enc_u32(v.blend_time);
    let c3 = enc_u8(v.blend_function.ordinal());
    let c4 = enc_u32(v.blend_exp);
    let c5 = enc_i32(lock_word(v.lock_outgoing));
    lemma_has_at_concat(bytes, pos as int, c1 + c2 + c3 + c4, c5);
    lemma_has_at_concat(bytes, pos as int, c1 + c2 + c3, c4);
    lemma_has_at_concat(bytes, pos as int, c1 + c2, c3);
    lemma_has_at_concat(bytes, pos as int, c1, c2);
    lemma_optional_guid_round_trip(reading, writing, bytes, pos, v.property_guid, include_header);
    let p3 = pos + c1.len() + 4;
    assert(bytes.subrange(p3, p3 + 1)[0] == c3[0]);
}


/// Reading the property does not end before it starts.
pub proof fn lemma_view_target_blend_params_property_monotone(
    env: Env,
    bytes: Seq<u8>,
    pos: u64,
    name: FNameView,
    include_header: bool,
    duplication_index: i32,
)
    requires
        bytes.len() <= u64::MAX,
    ensures
        parse_view_target_blend_params_property(
            env,
            bytes,
            pos,
            name,
            include_header,
            duplication_index,
        ) matches Ok(
            (_, end),
        ) ==> end >= pos,
{
}

} // verus!
