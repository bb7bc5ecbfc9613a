//! The objects that a package holds, each with a serializer of its kind.

pub mod base_export;
pub mod level_export;
pub mod normal_export;
pub mod raw_export;
pub mod struct_export;

use crate::error::Error;
use crate::exports::base_export::{BaseExport, BaseExportView};
use crate::exports::level_export::{
    parse_level_export, ser_level_export, LevelExport, LevelExportView,
};
use crate::exports::normal_export::{
    parse_normal_export_until, ser_normal_export, NormalExport, NormalExportView,
};
use crate::exports::raw_export::{RawExport, RawExportView};
use crate::exports::struct_export::{
    parse_struct_export, ser_struct_export, StructExport, StructExportView,
};
use crate::reader::asset_reader::AssetReader;
use crate::reader::asset_trait::Env;
use crate::reader::asset_writer::AssetWriter;
use crate::stream::{emitted_checked, yields_deep, Parsed};
use vstd::prelude::*;
use vstd::string::StringExecFns;

verus! {

/// An export that has bookkeeping.
pub trait ExportBaseTrait: Sized {
    /// The bookkeeping of the export.
    spec fn base(&self) -> BaseExport;

    /// The export with other bookkeeping.
    spec fn with_base(self, base: BaseExport) -> Self;

    fn get_base_export(&self) -> (base: &BaseExport)
        ensures
            *base == self.base(),
    ;

    /// The bookkeeping of the export, to be changed in place: the export
    /// ends up with the bookkeeping as it is left, and is else unchanged.
    fn get_base_export_mut(&mut self) -> (base: &mut BaseExport)
        ensures
            *base == old(self).base(),
            *final(self) == old(self).with_base(*final(base)),
    ;
}

/// An export that may hold an ordinary export.
pub trait ExportNormalTrait: Sized {
    /// The ordinary export that the export holds.
    spec fn normal(&self) -> Option<NormalExport>;

    /// The export with another ordinary export.
    spec fn with_normal(self, normal: NormalExport) -> Self;

    fn get_normal_export(&self) -> (normal: Option<&NormalExport>)
        ensures
            match normal {
                Some(held) => self.normal() == Some(*held),
                None => self.normal() is None,
            },
    ;

    /// The ordinary export that the export holds, to be changed in place:
    /// the export ends up with the ordinary export as it is left, and is
    /// else unchanged.
    fn get_normal_export_mut(&mut self) -> (normal: Option<&mut NormalExport>)
        ensures
            match normal {
                Some(held) => old(self).normal() == Some(*held) && *final(self) == old(
                    self,
                ).with_normal(*final(held)),
                None => old(self).normal() is None && *final(self) == *old(self),
            },
    ;
}

/// An export that can be written.
pub trait ExportTrait {
    /// The bytes of the export on disk, where it can be written.
    spec fn ser(&self, env: Env) -> Result<Seq<u8>, Error>;

    /// Writes the export.
    fn write<Writer: AssetWriter>(&self, asset: &mut Writer) -> (r: Result<(), Error>)
        ensures
            final(asset).env() == old(asset).env(),
            emitted_checked(
                r,
                (),
                old(asset).bytes(),
                old(asset).pos(),
                final(asset).bytes(),
                final(asset).pos(),
                self.ser(old(asset).env()),
            ),
    ;
}

impl ExportBaseTrait for NormalExport {
    open spec fn base(&self) -> BaseExport {
        self.base_export
    }

    open spec fn with_base(self, base: BaseExport) -> NormalExport {
        NormalExport { base_export: base, ..self }
    }

    fn get_base_export(&self) -> (base: &BaseExport) {
        &self.base_export
    }

    fn get_base_export_mut(&mut self) -> (base: &mut BaseExport) {
        &mut self.base_export
    }
}

impl ExportNormalTrait for NormalExport {
    open spec fn normal(&self) -> Option<NormalExport> {
        Some(*self)
    }

    open spec fn with_normal(self, normal: NormalExport) -> NormalExport {
        normal
    }

    fn get_normal_export(&self) -> (normal: Option<&NormalExport>) {
        Some(self)
    }

    fn get_normal_export_mut(&mut self) -> (normal: Option<&mut NormalExport>) {
        Some(self)
    }
}

impl ExportTrait for NormalExport {
    open spec fn ser(&self, env: Env) -> Result<Seq<u8>, Error> {
        ser_normal_export(env, self.deep_view())
    }

    fn write<Writer: AssetWriter>(&self, asset: &mut Writer) -> (r: Result<(), Error>) {
        NormalExport::write(self, asset)
    }
}

impl ExportBaseTrait for RawExport {
    open spec fn base(&self) -> BaseExport {
        self.base_export
    }

    open spec fn with_base(self, base: BaseExport) -> RawExport {
        RawExport { base_export: base, ..self }
    }

    fn get_base_export(&self) -> (base: &BaseExport) {
        &self.base_export
    }

    fn get_base_export_mut(&mut self) -> (base: &mut BaseExport) {
        &mut self.base_export
    }
}

impl ExportNormalTrait for RawExport {
    open spec fn normal(&self) -> Option<NormalExport> {
        None
    }

    open spec fn with_normal(self, normal: NormalExport) -> RawExport {
        self
    }

    fn get_normal_export(&self) -> (normal: Option<&NormalExport>) {
        None
    }

    fn get_normal_export_mut(&mut self) -> (normal: Option<&mut NormalExport>) {
        None
    }
}

impl ExportTrait for RawExport {
    open spec fn ser(&self, env: Env) -> Result<Seq<u8>, Error> {
        Ok(self.data@)
    }

    fn write<Writer: AssetWriter>(&self, asset: &mut Writer) -> (r: Result<(), Error>) {
        RawExport::write(self, asset)
    }
}

impl ExportBaseTrait for LevelExport {
    open spec fn base(&self) -> BaseExport {
        self.normal_export.base_export
    }

    open spec fn with_base(self, base: BaseExport) -> LevelExport {
        LevelExport {
            normal_export: NormalExport { base_export: base, ..self.normal_export },
            ..self
        }
    }

    fn get_base_export(&self) -> (base: &BaseExport) {
        &self.normal_export.base_export
    }

    fn get_base_export_mut(&mut self) -> (base: &mut BaseExport) {
        &mut self.normal_export.base_export
    }
}

impl ExportNormalTrait for LevelExport {
    open spec fn normal(&self) -> Option<NormalExport> {
        Some(self.normal_export)
    }

    open spec fn with_normal(self, normal: NormalExport) -> LevelExport {
        LevelExport { normal_export: normal, ..self }
    }

    fn get_normal_export(&self) -> (normal: Option<&NormalExport>) {
        Some(&self.normal_export)
    }

    fn get_normal_export_mut(&mut self) -> (normal: Option<&mut NormalExport>) {
        Some(&mut self.normal_export)
    }
}

impl ExportTrait for LevelExport {
    open spec fn ser(&self, env: Env) -> Result<Seq<u8>, Error> {
        ser_level_export(env, self.deep_view())
    }

    fn write<Writer: AssetWriter>(&self, asset: &mut Writer) -> (r: Result<(), Error>) {
        LevelExport::write(self, asset)
    }
}

impl ExportBaseTrait for StructExport {
    open spec fn base(&self) -> BaseExport {
        self.normal_export.base_export
    }

    open spec fn with_base(self, base: BaseExport) -> StructExport {
        StructExport {
            normal_export: NormalExport { base_export: base, ..self.normal_export },
            ..self
        }
    }

    fn get_base_export(&self) -> (base: &BaseExport) {
        &self.normal_export.base_export
    }

    fn get_base_export_mut(&mut self) -> (base: &mut BaseExport) {
        &mut self.normal_export.base_export
    }
}

impl ExportNormalTrait for StructExport {
    open spec fn normal(&self) -> Option<NormalExport> {
        Some(self.normal_export)
    }

    open spec fn with_normal(self, normal: NormalExport) -> StructExport {
        StructExport { normal_export: normal, ..self }
    }

    fn get_normal_export(&self) -> (normal: Option<&NormalExport>) {
        Some(&self.normal_export)
    }

    fn get_normal_export_mut(&mut self) -> (normal: Option<&mut NormalExport>) {
        Some(&mut self.normal_export)
    }
}

impl ExportTrait for StructExport {
    open spec fn ser(&self, env: Env) -> Result<Seq<u8>, Error> {
        ser_struct_export(env, self.deep_view())
    }

    fn write<Writer: AssetWriter>(&self, asset: &mut Writer) -> (r: Result<(), Error>) {
        StructExport::write(self, asset)
    }
}

/// An export of any kind.
#[derive(Debug, PartialEq, Eq)]
pub enum Export {
    NormalExport(NormalExport),
    LevelExport(LevelExport),
    StructExport(StructExport),
    RawExport(RawExport),
}

/// What an [`Export`] stands for.
pub enum ExportView {
    NormalExport(NormalExportView),
    LevelExport(LevelExportView),
    StructExport(StructExportView),
    RawExport(RawExportView),
}

impl DeepView for Export {
    type V = ExportView;

    open spec fn deep_view(&self) -> ExportView {
        match self {
            Export::NormalExport(x) => ExportView::NormalExport(x.deep_view()),
            Export::LevelExport(x) => ExportView::LevelExport(x.deep_view()),
            Export::StructExport(x) => ExportView::StructExport(x.deep_view()),
            Export::RawExport(x) => ExportView::RawExport(x.deep_view()),
        }
    }
}

/// The export at `pos` whose class is named in its bookkeeping, where the
/// next export starts at `next_starting`: a level for the class `Level`, a
/// struct layout for the class `ScriptStruct`, and an ordinary export with
/// extra bytes up to the next export for any other class.
pub open spec fn parse_export(
    env: Env,
    bytes: Seq<u8>,
    pos: u64,
    base: BaseExportView,
    next_starting: u64,
) -> Parsed<ExportView> {
    if base.class_name.content == "Level"@ {
        match parse_level_export(env, bytes, pos, base, next_starting) {
            Err(e) => Err(e),
            Ok((x, end)) => Ok((ExportView::LevelExport(x), end)),
        }
    } else if base.class_name.content == "ScriptStruct"@ {
        match parse_struct_export(env, bytes, pos, base) {
            Err(e) => Err(e),
            Ok((x, end)) => Ok((ExportView::StructExport(x), end)),
        }
    } else {
        match parse_normal_export_until(env, bytes, pos, base, next_starting) {
            Err(e) => Err(e),
            Ok((x, end)) => Ok((ExportView::NormalExport(x), end)),
        }
    }
}

/// The bytes of an export on disk.
pub open spec fn ser_export(env: Env, v: ExportView) -> Result<Seq<u8>, Error> {
    match v {
        ExportView::NormalExport(x) => ser_normal_export(env, x),
        ExportView::LevelExport(x) => ser_level_export(env, x),
        ExportView::StructExport(x) => ser_struct_export(env, x),
        ExportView::RawExport(x) => Ok(x.data),
    }
}

impl Export {
    /// Reads the export whose class is named in `base`, with the
    /// serializer of its class.
    pub fn from_base<Reader: AssetReader>(
        base: &BaseExport,
        asset: &mut Reader,
        next_starting: u64,
    ) -> (r: Result<Export, Error>)
        ensures
            final(asset).bytes() == old(asset).bytes(),
            final(asset).env() == old(asset).env(),
            yields_deep(
                r,
                final(asset).pos(),
                parse_export(
                    old(asset).env(),
                    old(asset).bytes(),
                    old(asset).pos(),
                    base.deep_view(),
                    next_starting,
                ),
            ),
    {
        if base.class_name.content == String::from_str("Level") {
            match LevelExport::from_base(base, asset, next_starting) {
                Ok(x) => Ok(Export::LevelExport(x)),
                Err(e) => Err(e),
            }
        } else if base.class_name.content == String::from_str("ScriptStruct") {
            match StructExport::from_base(base, asset) {
                Ok(x) => Ok(Export::StructExport(x)),
                Err(e) => Err(e),
            }
        } else {
            match NormalExport::from_base_with_extras(base, asset, next_starting) {
                Ok(x) => Ok(Export::NormalExport(x)),
                Err(e) => Err(e),
            }
        }
    }

    /// Writes the export with the serializer of its kind.
    pub fn write<Writer: AssetWriter>(&self, asset: &mut Writer) -> (r: Result<(), Error>)
        ensures
            final(asset).env() == old(asset).env(),
            emitted_checked(
                r,
                (),
                old(asset).bytes(),
                old(asset).pos(),
                final(asset).bytes(),
                final(asset).pos(),
                ser_export(old(asset).env(), self.deep_view()),
            ),
    {
        match self {
            Export::NormalExport(x) => x.write(asset),
            Export::LevelExport(x) => x.write(asset),
            Export::StructExport(x) => x.write(asset),
            Export::RawExport(x) => x.write(asset),
        }
    }
}

} // verus!
