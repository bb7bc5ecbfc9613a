//! What every export carries: the bookkeeping of its serialization.

use crate::unreal_types::{FName, FNameView, PackageIndex};
use vstd::prelude::*;

verus! {

/// The bookkeeping of an export.
#[derive(Clone, Debug, PartialEq, Eq)]
pub struct BaseExport {
    /// The name of the class of the object, by which its serializer is chosen.
    pub class_name: FName,
    /// The object that this one lies in.
    pub outer_index: PackageIndex,
    pub object_flags: u32,
    /// The number of bytes that the export takes in the file.
    pub serial_size: i64,
    /// Where the export starts in the file.
    pub serial_offset: i64,
}

/// What a [`BaseExport`] stands for.
pub struct BaseExportView {
    pub class_name: FNameView,
    pub outer_index: PackageIndex,
    pub object_flags: u32,
    pub serial_size: i64,
    pub serial_offset: i64,
}

impl DeepView for BaseExport {
    type V = BaseExportView;

    open spec fn deep_view(&self) -> BaseExportView {
        BaseExportView {
            class_name: self.class_name.deep_view(),
            outer_index: self.outer_index,
            object_flags: self.object_flags,
            serial_size: self.serial_size,
            serial_offset: self.serial_offset,
        }
    }
}

impl BaseExport {
    /// A copy of this bookkeeping.
    pub fn duplicate(&self) -> (copy: BaseExport)
        ensures
            copy.deep_view() == self.deep_view(),
    {
        BaseExport {
            class_name: self.class_name.duplicate(),
            outer_index: self.outer_index,
            object_flags: self.object_flags,
            serial_size: self.serial_size,
            serial_offset: self.serial_offset,
        }
    }
}

} // verus!
