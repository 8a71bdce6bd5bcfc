//! Where the renderer executable is looked for by default.

use vstd::prelude::*;
use crate::text::texts;

verus! {

/// The family of the operating system that the pass runs on.
#[derive(Clone, Copy, Debug, PartialEq, Eq, Structural)]
pub enum TargetFamily {
    Windows,
    Unix,
}

/// The default location of the renderer executable, as the components of
/// its path from the outermost on.
pub open spec fn blender_location(family: TargetFamily) -> Seq<Seq<char>> {
    match family {
        TargetFamily::Windows => seq![
            "C:"@,
            "Program Files"@,
            "Blender Foundation"@,
            "Blender 3.0"@,
            "blender.exe"@,
        ],
        TargetFamily::Unix => seq!["blender"@],
    }
}

/// The default location of the renderer executable on a system of `family`,
/// as the components of its path from the outermost on: the installation
/// directory on Windows, and elsewhere the bare name, which the system looks
/// up. The caller joins the components as its system joins paths.
pub fn blender_exe(family: TargetFamily) -> (components: Vec<String>)
    ensures
        texts(components@) == blender_location(family),
{
    let mut components: Vec<String> = Vec::new();
    match family {
        TargetFamily::Windows => {
            components.push(String::from_str("C:"));
            components.push(String::from_str("Program Files"));
            components.push(String::from_str("Blender Foundation"));
            components.push(String::from_str("Blender 3.0"));
            components.push(String::from_str("blender.exe"));
        },
        TargetFamily::Unix => {
            components.push(String::from_str("blender"));
        },
    }
    assert(texts(components@) =~= blender_location(family));
    components
}

} // verus!
