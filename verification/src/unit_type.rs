//! Unit types, and how the path of a unit file tells the type of the unit.

use crate::error::UnitError;
use crate::path::{extension, extension_of, extension_of_named_file, SEPARATOR};
use crate::text::same_text;
use vstd::prelude::*;

verus! {

/// The kind of thing that a unit manages.
#[derive(Clone, Copy, Debug, PartialEq, Eq, Structural)]
pub enum UnitType {
    Automount,
    Busname,
    Mount,
    Path,
    Scope,
    Service,
    Slice,
    Socket,
    Swap,
    Target,
    Timer,
}

impl UnitType {
    /// The extension that the unit files of this type carry.
    pub open spec fn suffix(self) -> Seq<char> {
        match self {
            UnitType::Automount => "automount"@,
            UnitType::Busname => "busname"@,
            UnitType::Mount => "mount"@,
            UnitType::Path => "path"@,
            UnitType::Scope => "scope"@,
            UnitType::Service => "service"@,
            UnitType::Slice => "slice"@,
            UnitType::Socket => "socket"@,
            UnitType::Swap => "swap"@,
            UnitType::Target => "target"@,
            UnitType::Timer => "timer"@,
        }
    }

    /// The unit type that carries `suffix`, if there is one. Case matters.
    pub open spec fn of_suffix(suffix: Seq<char>) -> Option<UnitType> {
        if suffix == UnitType::Automount.suffix() {
            Some(UnitType::Automount)
        } else if suffix == UnitType::Busname.suffix() {
            Some(UnitType::Busname)
        } else if suffix == UnitType::Mount.suffix() {
            Some(UnitType::Mount)
        } else if suffix == UnitType::Path.suffix() {
            Some(UnitType::Path)
        } else if suffix == UnitType::Scope.suffix() {
            Some(UnitType::Scope)
        } else if suffix == UnitType::Service.suffix() {
            Some(UnitType::Service)
        } else if suffix == UnitType::Slice.suffix() {
            Some(UnitType::Slice)
        } else if suffix == UnitType::Socket.suffix() {
            Some(UnitType::Socket)
        } else if suffix == UnitType::Swap.suffix() {
            Some(UnitType::Swap)
        } else if suffix == UnitType::Target.suffix() {
            Some(UnitType::Target)
        } else if suffix == UnitType::Timer.suffix() {
            Some(UnitType::Timer)
        } else {
            None
        }
    }

    /// The type of the unit whose unit file lies at `path`: the one that
    /// carries the extension of the file name. A path without an extension,
    /// or with one that no unit type carries, is the path of no unit.
    pub open spec fn of_path(path: Seq<char>) -> Result<UnitType, UnitError> {
        match extension_of(path) {
            Some(ext) => match Self::of_suffix(ext) {
                Some(utype) => Ok(utype),
                None => Err(UnitError::UnrecognizedUnitType),
            },
            None => Err(UnitError::UnrecognizedUnitType),
        }
    }

    /// Tells the type of a unit from the path of its unit file.
    pub fn new(pathname: &str) -> (utype: Result<UnitType, UnitError>)
        ensures
            utype == Self::of_path(pathname@),
    {
        match extension(pathname) {
            Some(ext) => match Self::from_suffix(ext) {
                Some(utype) => Ok(utype),
                None => Err(UnitError::UnrecognizedUnitType),
            },
            None => Err(UnitError::UnrecognizedUnitType),
        }
    }

    /// The unit type that carries `suffix`, if there is one.
    pub fn from_suffix(suffix: &str) -> (utype: Option<UnitType>)
        ensures
            utype == Self::of_suffix(suffix@),
    {
        if same_text(suffix, "automount") {
            Some(UnitType::Automount)
        } else if same_text(suffix, "busname") {
            Some(UnitType::Busname)
        } else if same_text(suffix, "mount") {
            Some(UnitType::Mount)
        } else if same_text(suffix, "path") {
            Some(UnitType::Path)
        } else if same_text(suffix, "scope") {
            Some(UnitType::Scope)
        } else if same_text(suffix, "service") {
            Some(UnitType::Service)
        } else if same_text(suffix, "slice") {
            Some(UnitType::Slice)
        } else if same_text(suffix, "socket") {
            Some(UnitType::Socket)
        } else if same_text(suffix, "swap") {
            Some(UnitType::Swap)
        } else if same_text(suffix, "target") {
            Some(UnitType::Target)
        } else if same_text(suffix, "timer") {
            Some(UnitType::Timer)
        } else {
            None
        }
    }
}

/// What holds of the suffix of every unit type: it is not empty, and it holds
/// neither a `.` nor a separator.
proof fn lemma_suffix_is_plain(utype: UnitType)
    ensures
        utype.suffix().len() > 0,
        forall|i: int|
            0 <= i < utype.suffix().len() ==> utype.suffix()[i] != '.' && utype.suffix()[i]
                != SEPARATOR,
{
    reveal_strlit("automount");
    reveal_strlit("busname");
    reveal_strlit("mount");
    reveal_strlit("path");
    reveal_strlit("scope");
    reveal_strlit("service");
    reveal_strlit("slice");
    reveal_strlit("socket");
    reveal_strlit("swap");
    reveal_strlit("target");
    reveal_strlit("timer");
}

/// No two unit types carry the same suffix: any two of the suffixes differ in
/// their length or in one of their first two characters.
proof fn lemma_suffixes_differ(a: UnitType, b: UnitType)
    requires
        a != b,
    ensures
        a.suffix() != b.suffix(),
{
    reveal_strlit("automount");
    reveal_strlit("busname");
    reveal_strlit("mount");
    reveal_strlit("path");
    reveal_strlit("scope");
    reveal_strlit("service");
    reveal_strlit("slice");
    reveal_strlit("socket");
    reveal_strlit("swap");
    reveal_strlit("target");
    reveal_strlit("timer");
    let x = a.suffix();
    let y = b.suffix();
    assert(x.len() != y.len() || x[0] != y[0] || x[1] != y[1]);
}

/// A text names a unit type exactly when it is the suffix of that type: each
/// of the eleven suffixes names its own type, and no other text names one.
pub proof fn suffix_names_its_type(suffix: Seq<char>, utype: UnitType)
    ensures
        UnitType::of_suffix(suffix) == Some(utype) <==> suffix == utype.suffix(),
{
    match UnitType::of_suffix(suffix) {
        Some(named) => {
            if named != utype {
                lemma_suffixes_differ(named, utype);
            }
        },
        None => {},
    }
}

/// A path is the path of a unit of some type exactly when its file name has
/// the suffix of that type as its extension.
pub proof fn classifies_by_extension(path: Seq<char>, utype: UnitType)
    ensures
        UnitType::of_path(path) == Ok::<UnitType, UnitError>(utype) <==> extension_of(path)
            == Some(utype.suffix()),
{
    match extension_of(path) {
        Some(ext) => {
            suffix_names_its_type(ext, utype);
        },
        None => {},
    }
}

/// Every other path is rejected, and with no other error than
/// `UnrecognizedUnitType`: one whose file name has no extension, and one whose
/// extension is the suffix of no unit type.
pub proof fn rejects_other_paths(path: Seq<char>)
    ensures
        UnitType::of_path(path) == Err::<UnitType, UnitError>(UnitError::UnrecognizedUnitType)
            <==> forall|utype: UnitType| extension_of(path) != Some(#[trigger] utype.suffix()),
        UnitType::of_path(path) is Err ==> UnitType::of_path(path) == Err::<UnitType, UnitError>(
            UnitError::UnrecognizedUnitType,
        ),
{
    match extension_of(path) {
        Some(ext) => {
            match UnitType::of_suffix(ext) {
                Some(named) => {
                    suffix_names_its_type(ext, named);
                },
                None => {
                    assert forall|utype: UnitType| extension_of(path) != Some(
                        #[trigger] utype.suffix(),
                    ) by {
                        suffix_names_its_type(ext, utype);
                    }
                },
            }
        },
        None => {},
    }
}

/// The unit file `stem.suffix` is classified by its suffix, in whatever
/// directory it lies and whatever its stem is, as long as the stem is not
/// empty and holds no separator.
pub proof fn classifies_unit_file(dir: Seq<char>, stem: Seq<char>, utype: UnitType)
    requires
        dir.len() == 0 || dir.last() == SEPARATOR,
        stem.len() > 0,
        forall|i: int| 0 <= i < stem.len() ==> stem[i] != SEPARATOR,
    ensures
        UnitType::of_path(dir + stem + seq!['.'] + utype.suffix()) == Ok::<UnitType, UnitError>(
            utype,
        ),
{
    lemma_suffix_is_plain(utype);
    extension_of_named_file(dir, stem, utype.suffix());
    classifies_by_extension(dir + stem + seq!['.'] + utype.suffix(), utype);
}

} // verus!
