//! Where a classified file goes.
//!
//! The files of a financial year are kept in a directory named after it,
//! beside the file's old place. Nothing here touches the file system: the
//! caller says what it found there and is told what to do.

use crate::number::{decimal_digits, push_decimal};
use vstd::prelude::*;

verus! {

/// The name of the directory of financial year `fy`: the year in decimal,
/// then `FY`.
pub open spec fn directory_name_spec(fy: u16) -> Seq<char> {
    decimal_digits(fy as nat) + "FY"@
}

/// The name of the directory that holds the files of financial year `fy`,
/// such as `2021FY`.
pub fn directory_name(fy: u16) -> (name: String)
    ensures
        name@ == directory_name_spec(fy),
{
    let mut name = String::new();
    push_decimal(fy, &mut name);
    name.append("FY");
    assert(name@ =~= directory_name_spec(fy));
    name
}

/// What stands at the place of a year's directory.
#[derive(Clone, Copy, Debug, PartialEq, Eq, Structural)]
pub enum Destination {
    /// Nothing.
    Missing,
    /// A directory.
    Directory,
    /// Something that is no directory.
    Other,
}

/// What to do with a classified file.
#[derive(Clone, Copy, Debug, PartialEq, Eq, Structural)]
pub enum Placement {
    /// Make the year's directory, then move the file into it.
    CreateThenMove,
    /// Move the file into the year's directory.
    Move,
    /// Do nothing: the year's directory cannot be made, since something
    /// else bears its name.
    RefuseNotDirectory,
    /// Do nothing: the year's directory already holds a file of this name.
    RefuseCollision,
}

/// What to do with a file, given what stands at the place of its year's
/// directory and whether that directory holds a file of the same name.
pub open spec fn placement_for(destination: Destination, name_taken: bool) -> Placement {
    match destination {
        Destination::Missing => Placement::CreateThenMove,
        Destination::Other => Placement::RefuseNotDirectory,
        Destination::Directory => if name_taken {
            Placement::RefuseCollision
        } else {
            Placement::Move
        },
    }
}

/// Decides how a file is placed. A missing directory is made first; a file
/// is never moved onto another, nor into something that is no directory.
pub fn plan_placement(destination: Destination, name_taken: bool) -> (plan: Placement)
    ensures
        plan == placement_for(destination, name_taken),
{
    match destination {
        Destination::Missing => Placement::CreateThenMove,
        Destination::Other => Placement::RefuseNotDirectory,
        Destination::Directory => if name_taken {
            Placement::RefuseCollision
        } else {
            Placement::Move
        },
    }
}

} // verus!
