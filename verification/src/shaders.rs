//! Kernels: the set that the renderer runs, and which file events call for
//! compiling it anew.

use vstd::prelude::*;
use vstd::string::*;

use crate::path;
use crate::path::FilePath;
use crate::value::Same;

verus! {

/// One compiled kernel.
#[derive(Clone, Debug, PartialEq, Eq)]
pub struct Kernel {
    /// The compiled module.
    pub spirv: Vec<u8>,
    /// The name of its entry point, which is that of its source file.
    pub entry: &'static str,
}

/// The whole set of kernels, which is swapped as a whole.
#[derive(Clone, Debug, PartialEq, Eq)]
pub struct Kernels {
    /// Starts paths from the camera.
    pub raygen: Kernel,
    /// Finds what rays meet.
    pub intersect: Kernel,
    /// Handles rays that meet nothing.
    pub shade_miss: Kernel,
    /// Shades surfaces.
    pub shade_surface: Kernel,
    /// Tests what is in the way of lights.
    pub trace_shadow: Kernel,
    /// Adds samples up.
    pub accumulate: Kernel,
    /// Turns sums into an image to look at.
    pub tonemap: Kernel,
}

/// How many kernels there are.
pub const KERNEL_COUNT: usize = 7;

/// The name of kernel `i`.
pub open spec fn kernel_text(i: int) -> Seq<char> {
    if i == 0 {
        "raygen"@
    } else if i == 1 {
        "intersect"@
    } else if i == 2 {
        "shade_miss"@
    } else if i == 3 {
        "shade_surface"@
    } else if i == 4 {
        "trace_shadow"@
    } else if i == 5 {
        "accumulate"@
    } else {
        "tonemap"@
    }
}

/// The name of kernel `i`.
pub fn kernel_name(i: usize) -> (r: &'static str)
    requires
        i < KERNEL_COUNT,
    ensures
        r@ == kernel_text(i as int),
{
    match i {
        0 => "raygen",
        1 => "intersect",
        2 => "shade_miss",
        3 => "shade_surface",
        4 => "trace_shadow",
        5 => "accumulate",
        _ => "tonemap",
    }
}

/// The file that kernel `i` is compiled from.
pub fn kernel_source(i: usize) -> (r: String)
    requires
        i < KERNEL_COUNT,
    ensures
        r@ == kernel_text(i as int) + ".slang"@,
{
    let mut name = kernel_name(i).to_owned();
    name.append(".slang");
    name
}

impl Kernels {
    /// The kernels in order.
    pub open spec fn all(self) -> Seq<Kernel> {
        seq![
            self.raygen,
            self.intersect,
            self.shade_miss,
            self.shade_surface,
            self.trace_shadow,
            self.accumulate,
            self.tonemap,
        ]
    }

    /// The set that compiling every kernel came to, in their order; or what
    /// went wrong with the first that did not compile.
    pub fn compiled<E>(outcomes: Vec<Result<Vec<u8>, E>>) -> (r: Result<Kernels, E>)
        requires
            outcomes@.len() == KERNEL_COUNT,
        ensures
            r is Ok == (forall|i: int| 0 <= i < KERNEL_COUNT ==> (#[trigger] outcomes@[i]) is Ok),
            r matches Ok(kernels) ==> forall|i: int|
                0 <= i < KERNEL_COUNT ==> (#[trigger] kernels.all()[i]).spirv
                    == outcomes@[i]->Ok_0 && kernels.all()[i].entry@ == kernel_text(i),
            r matches Err(error) ==> exists|i: int|
                0 <= i < KERNEL_COUNT && (#[trigger] outcomes@[i]) == Err::<Vec<u8>, E>(error)
                    && forall|k: int| 0 <= k < i ==> (#[trigger] outcomes@[k]) is Ok,
    {
        let ghost all = outcomes@;
        let mut rest = outcomes;
        let mut kernels: Vec<Kernel> = Vec::new();
        for i in 0..KERNEL_COUNT
            invariant
                all == outcomes@,
                all.len() == KERNEL_COUNT,
                rest@ == all.skip(i as int),
                kernels@.len() == i,
                forall|k: int|
                    0 <= k < i ==> (#[trigger] all[k]) is Ok && kernels@[k].spirv == all[k]->Ok_0
                        && kernels@[k].entry@ == kernel_text(k),
        {
            assert(rest@[0] == all[i as int]);
            let outcome = rest.remove(0);
            assert(rest@ =~= all.skip(i + 1));
            match outcome {
                Ok(spirv) => {
                    kernels.push(Kernel { spirv, entry: kernel_name(i) });
                },
                Err(error) => {
                    assert(all[i as int] == Err::<Vec<u8>, E>(error));
                    return Err(error);
                },
            }
        }
        let ghost listed = kernels@;
        let raygen = kernels.remove(0);
        let intersect = kernels.remove(0);
        let shade_miss = kernels.remove(0);
        let shade_surface = kernels.remove(0);
        let trace_shadow = kernels.remove(0);
        let accumulate = kernels.remove(0);
        let tonemap = kernels.remove(0);
        let set = Kernels {
            raygen,
            intersect,
            shade_miss,
            shade_surface,
            trace_shadow,
            accumulate,
            tonemap,
        };
        assert(set.all() =~= listed);
        Ok(set)
    }
}

/// What happened to files.
#[derive(Clone, Copy, Debug, PartialEq, Eq, Structural)]
pub enum EventKind {
    /// Nobody knows.
    Any,
    /// They were read.
    Access,
    /// They were made.
    Create,
    /// They were changed.
    Modify,
    /// They went.
    Remove,
    /// Something else.
    Other,
}

/// Something that happened to files.
#[derive(Clone, Debug, PartialEq, Eq)]
pub struct FileEvent {
    /// What happened.
    pub kind: EventKind,
    /// The files.
    pub paths: Vec<FilePath>,
}

/// A path is that of a shader's source.
pub open spec fn slang(path: FilePath) -> bool {
    match path::last_name(path@) {
        Some(name) => path::extension_of(name) == Some("slang"@),
        None => false,
    }
}

/// Whether an event changes a shader's source. Reading one does not: compiling
/// reads the sources, and must not call for itself.
pub fn is_shader_mutation(event: &FileEvent) -> (r: bool)
    ensures
        r == ((event.kind == EventKind::Create || event.kind == EventKind::Modify || event.kind
            == EventKind::Remove) && exists|i: int|
            0 <= i < event.paths@.len() && slang(#[trigger] event.paths@[i])),
{
    let mutates = match event.kind {
        EventKind::Create | EventKind::Modify | EventKind::Remove => true,
        _ => false,
    };
    if !mutates {
        return false;
    }
    let source = "slang".to_owned();
    for i in 0..event.paths.len()
        invariant
            source@ == "slang"@,
            event.kind == EventKind::Create || event.kind == EventKind::Modify || event.kind
                == EventKind::Remove,
            forall|k: int| 0 <= k < i ==> !slang(#[trigger] event.paths@[k]),
    {
        if let Some(extension) = event.paths[i].extension() {
            if extension.is_same(&source) {
                assert(slang(event.paths@[i as int]));
                return true;
            }
        }
    }
    false
}

} // verus!
