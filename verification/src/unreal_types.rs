//! The small value types that every part of the codec shares.

use crate::cursor_ext::none_name;
use vstd::prelude::*;
use vstd::string::StringExecFns;

verus! {

/// Sixteen raw bytes that identify an object or a version scheme.
pub type Guid = [u8; 16];

/// The sixteen bytes of `bytes` as a [`Guid`].
pub fn guid_from_bytes(bytes: &Vec<u8>) -> (guid: Guid)
    requires
        bytes@.len() == 16,
    ensures
        guid@ == bytes@,
{
    let guid: Guid = [
        bytes[0],
        bytes[1],
        bytes[2],
        bytes[3],
        bytes[4],
        bytes[5],
        bytes[6],
        bytes[7],
        bytes[8],
        bytes[9],
        bytes[10],
        bytes[11],
        bytes[12],
        bytes[13],
        bytes[14],
        bytes[15],
    ];
    assert(guid@ =~= bytes@);
    guid
}

/// A name: a text from the name table and a numeric suffix. Two names are
/// the same when text and suffix are.
#[derive(Clone, Debug, PartialEq, Eq, Hash)]
pub struct FName {
    pub content: String,
    pub index: i32,
}

/// What an [`FName`] stands for.
pub struct FNameView {
    pub content: Seq<char>,
    pub index: i32,
}

impl DeepView for FName {
    type V = FNameView;

    open spec fn deep_view(&self) -> FNameView {
        FNameView { content: self.content@, index: self.index }
    }
}

impl FNameView {
    /// Whether this is the name `None`, which ends a list of properties.
    pub open spec fn is_none(self) -> bool {
        self.content == none_name()
    }
}

impl FName {
    pub fn new(content: String, index: i32) -> (name: FName)
        ensures
            name.deep_view() == (FNameView { content: content@, index }),
    {
        FName { content, index }
    }

    /// The name with the text `content` and the suffix zero.
    pub fn from_slice(content: &str) -> (name: FName)
        ensures
            name.deep_view() == (FNameView { content: content@, index: 0 }),
    {
        FName { content: String::from_str(content), index: 0 }
    }

    /// A copy of this name.
    pub fn duplicate(&self) -> (name: FName)
        ensures
            name.deep_view() == self.deep_view(),
    {
        FName { content: self.content.clone(), index: self.index }
    }

    /// Whether this is the name `None`, which ends a list of properties.
    pub fn is_none(&self) -> (b: bool)
        ensures
            b == self.deep_view().is_none(),
    {
        proof {
            reveal_strlit("None");
        }
        let sentinel = String::from_str("None");
        assert(sentinel@ =~= none_name());
        self.content == sentinel
    }
}

/// A link to another object of the package: an import where it is negative,
/// an export where it is positive, no object where it is zero.
#[derive(Clone, Copy, Debug, PartialEq, Eq, Hash, Structural)]
pub struct PackageIndex {
    pub index: i32,
}

impl PackageIndex {
    pub fn new(index: i32) -> (link: PackageIndex)
        ensures
            link.index == index,
    {
        PackageIndex { index }
    }

    pub fn is_import(&self) -> (b: bool)
        ensures
            b == (self.index < 0),
    {
        self.index < 0
    }

    pub fn is_export(&self) -> (b: bool)
        ensures
            b == (self.index > 0),
    {
        self.index > 0
    }

    pub fn is_null(&self) -> (b: bool)
        ensures
            b == (self.index == 0),
    {
        self.index == 0
    }
}

/// An object of another package that this package refers to.
#[derive(Clone, Debug, PartialEq, Eq, Hash)]
pub struct Import {
    pub class_package: FName,
    pub class_name: FName,
    pub outer_index: PackageIndex,
    pub object_name: FName,
}

/// What an [`Import`] stands for.
pub struct ImportView {
    pub class_package: FNameView,
    pub class_name: FNameView,
    pub outer_index: PackageIndex,
    pub object_name: FNameView,
}

impl DeepView for Import {
    type V = ImportView;

    open spec fn deep_view(&self) -> ImportView {
        ImportView {
            class_package: self.class_package.deep_view(),
            class_name: self.class_name.deep_view(),
            outer_index: self.outer_index,
            object_name: self.object_name.deep_view(),
        }
    }
}

impl Import {
    pub fn new(
        class_package: FName,
        class_name: FName,
        outer_index: PackageIndex,
        object_name: FName,
    ) -> (import: Import)
        ensures
            import.deep_view() == (ImportView {
                class_package: class_package.deep_view(),
                class_name: class_name.deep_view(),
                outer_index,
                object_name: object_name.deep_view(),
            }),
    {
        Import { class_package, class_name, outer_index, object_name }
    }
}

/// A text qualified by a namespace; either part may be the null string.
#[derive(Clone, Debug, PartialEq, Eq, Hash)]
pub struct NamespacedString {
    pub namespace: Option<String>,
    pub value: Option<String>,
}

/// What a [`NamespacedString`] stands for.
pub struct NamespacedStringView {
    pub namespace: Option<Seq<char>>,
    pub value: Option<Seq<char>>,
}

impl DeepView for NamespacedString {
    type V = NamespacedStringView;

    open spec fn deep_view(&self) -> NamespacedStringView {
        NamespacedStringView {
            namespace: self.namespace.deep_view(),
            value: self.value.deep_view(),
        }
    }
}

impl NamespacedString {
    pub fn new(namespace: Option<String>, value: Option<String>) -> (s: NamespacedString)
        ensures
            s.deep_view() == (NamespacedStringView {
                namespace: namespace.deep_view(),
                value: value.deep_view(),
            }),
    {
        NamespacedString { namespace, value }
    }
}

} // verus!
