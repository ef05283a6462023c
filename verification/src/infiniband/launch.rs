//! How native programs are started: with which arguments, where, in which environment, and how they
//! are tied to their fabric.

use crate::text::copy_bytes;
use vstd::prelude::*;
use vstd::string::*;

verus! {

/// Paths of native programs and of the output directory.
pub struct OptionsView {
    pub binary: Seq<u8>,
    pub umad_library: Seq<u8>,
    pub state_dir: Seq<u8>,
}

/// Native programs and a fresh output directory. Each path is the bytes by which the system
/// knows it. Build both artifacts from the same pinned source tree.
#[derive(Clone, Debug)]
pub struct IbOptions {
    /// Path to the native ibsim executable.
    pub binary: Vec<u8>,
    /// Path to libumad2sim.so, preloaded only into managed UMAD processes.
    pub umad_library: Vec<u8>,
    /// A new directory; existing directories are never overwritten.
    pub state_dir: Vec<u8>,
}

impl View for IbOptions {
    type V = OptionsView;

    open spec fn view(&self) -> OptionsView {
        OptionsView {
            binary: self.binary@,
            umad_library: self.umad_library@,
            state_dir: self.state_dir@,
        }
    }
}

/// A byte that ends a path in `LD_PRELOAD`.
pub open spec fn separates(b: u8) -> bool {
    b == 32 || b == 9 || b == 10 || b == 12 || b == 13 || b == 58
}

/// A path that `LD_PRELOAD` takes as one.
pub open spec fn is_preloadable(path: Seq<u8>) -> bool {
    forall|i: int| 0 <= i < path.len() ==> !separates(#[trigger] path[i])
}

/// Whether a path holds no ASCII white space and no colon.
pub fn preloadable(path: &Vec<u8>) -> (r: bool)
    ensures
        r == is_preloadable(path@),
{
    let mut i: usize = 0;
    while i < path.len()
        invariant
            i <= path@.len(),
            forall|k: int| 0 <= k < i ==> !separates(#[trigger] path@[k]),
        decreases path@.len() - i,
    {
        let b: u8 = path[i];
        if b == 32 || b == 9 || b == 10 || b == 12 || b == 13 || b == 58 {
            assert(separates(path@[i as int]));
            return false;
        }
        i = i + 1;
    }
    true
}

/// What a program reads from its standard input.
#[derive(Clone, Copy, Debug, PartialEq, Eq, Structural)]
pub enum Input {
    /// Nothing.
    Null,
    /// What it is sent through a pipe.
    Piped,
}

/// How a program runs: where, with which variables, and how it is tied to its fabric.
pub struct EnvironmentView {
    pub dir: Seq<u8>,
    pub set: Seq<(Seq<char>, Seq<u8>)>,
    pub removed: Seq<Seq<char>>,
    pub input: Input,
    pub own_group: bool,
    pub kill_on_drop: bool,
}

impl EnvironmentView {
    /// The program can be killed with all its descendants, and is killed when it is let go of.
    pub open spec fn is_tied(self) -> bool {
        self.own_group && self.kill_on_drop
    }
}

/// How a program runs: where, with which variables, and how it is tied to its fabric.
#[derive(Debug)]
pub struct Environment {
    /// Working directory.
    pub dir: Vec<u8>,
    /// Variables that are set.
    pub set: Vec<(String, Vec<u8>)>,
    /// Variables that are taken away.
    pub removed: Vec<String>,
    pub input: Input,
    /// It is the leader of a process group of its own.
    pub own_group: bool,
    /// It is killed when it is let go of.
    pub kill_on_drop: bool,
}

pub open spec fn variables(s: Seq<(String, Vec<u8>)>) -> Seq<(Seq<char>, Seq<u8>)> {
    s.map_values(|v: (String, Vec<u8>)| (v.0@, v.1@))
}

impl View for Environment {
    type V = EnvironmentView;

    open spec fn view(&self) -> EnvironmentView {
        EnvironmentView {
            dir: self.dir@,
            set: variables(self.set@),
            removed: self.removed@.map_values(|s: String| s@),
            input: self.input,
            own_group: self.own_group,
            kill_on_drop: self.kill_on_drop,
        }
    }
}

impl Environment {
    /// The environment of the caller, in the directory `dir`, in a process group of its own.
    pub fn new(dir: &Vec<u8>, input: Input) -> (r: Self)
        ensures
            r@ == (EnvironmentView {
                dir: dir@,
                set: seq![],
                removed: seq![],
                input,
                own_group: true,
                kill_on_drop: true,
            }),
    {
        let r = Environment {
            dir: copy_bytes(dir.as_slice()),
            set: Vec::new(),
            removed: Vec::new(),
            input,
            own_group: true,
            kill_on_drop: true,
        };
        assert(r@.set =~= seq![]);
        assert(r@.removed =~= seq![]);
        r
    }

    pub fn set(&mut self, name: &str, value: &[u8])
        ensures
            final(self)@ == (EnvironmentView {
                set: old(self)@.set.push((name@, value@)),
                ..old(self)@
            }),
    {
        self.set.push((name.to_owned(), copy_bytes(value)));
        assert(self@.set =~= old(self)@.set.push((name@, value@)));
    }

    pub fn remove(&mut self, name: &str)
        ensures
            final(self)@ == (EnvironmentView {
                removed: old(self)@.removed.push(name@),
                ..old(self)@
            }),
    {
        self.removed.push(name.to_owned());
        assert(self@.removed =~= old(self)@.removed.push(name@));
    }
}

/// A program to be started.
pub struct LaunchView {
    pub program: Seq<u8>,
    pub args: Seq<Seq<u8>>,
    pub environment: EnvironmentView,
}

/// A program to be started.
#[derive(Debug)]
pub struct Launch {
    pub program: Vec<u8>,
    pub args: Vec<Vec<u8>>,
    pub environment: Environment,
}

pub open spec fn byte_strings(s: Seq<Vec<u8>>) -> Seq<Seq<u8>> {
    s.map_values(|v: Vec<u8>| v@)
}

impl View for Launch {
    type V = LaunchView;

    open spec fn view(&self) -> LaunchView {
        LaunchView {
            program: self.program@,
            args: byte_strings(self.args@),
            environment: self.environment@,
        }
    }
}

/// Adds an argument.
pub fn add_argument(args: &mut Vec<Vec<u8>>, arg: &[u8])
    ensures
        byte_strings(final(args)@) == byte_strings(old(args)@).push(arg@),
{
    args.push(copy_bytes(arg));
    assert(byte_strings(args@) =~= byte_strings(old(args)@).push(arg@));
}

} // verus!
