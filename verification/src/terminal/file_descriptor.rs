//! Descriptors of a terminal: who closes them, whether they wait, and which one to read.

use crate::error::{Error, Failure};
use vstd::prelude::*;

verus! {

/// The descriptor of the standard input.
pub const STDIN_FILENO: i32 = 0;

/// The descriptor of the standard output.
pub const STDOUT_FILENO: i32 = 1;

/// A file descriptor, which is closed in the end only by its owner.
#[derive(Debug, PartialEq, Eq, Structural)]
pub struct FileDesc {
    fd: i32,
    close_on_drop: bool,
}

impl FileDesc {
    /// The number of the descriptor.
    pub closed spec fn spec_fd(self) -> i32 {
        self.fd
    }

    /// Whether the descriptor is closed in the end.
    pub closed spec fn spec_closes(self) -> bool {
        self.close_on_drop
    }

    /// A descriptor, with whether it has to be closed in the end.
    pub fn new(fd: i32, close_on_drop: bool) -> (desc: FileDesc)
        ensures
            desc.spec_fd() == fd,
            desc.spec_closes() == close_on_drop,
    {
        FileDesc { fd, close_on_drop }
    }

    /// The number of the descriptor.
    pub fn raw_fd(&self) -> (fd: i32)
        ensures
            fd == self.spec_fd(),
    {
        self.fd
    }

    /// Whether the descriptor has to be closed in the end.
    pub fn closes_on_drop(&self) -> (closes: bool)
        ensures
            closes == self.spec_closes(),
    {
        self.close_on_drop
    }
}

/// How many bytes a read or write moved, by what the call returned; nothing if it failed.
pub fn transferred(result: isize) -> (count: Option<usize>)
    ensures
        match count {
            Some(count) => result >= 0 && count == result,
            None => result < 0,
        },
{
    if result < 0 {
        None
    } else {
        Some(result as usize)
    }
}

/// What a call on a descriptor returned; nothing if it failed, which it reports by a negative
/// number.
pub fn status(result: i32) -> (status: Option<i32>)
    ensures
        status == if result < 0 {
            None
        } else {
            Some(result)
        },
{
    if result < 0 {
        None
    } else {
        Some(result)
    }
}

/// Keeps a descriptor from waiting for as long as it lasts.
#[derive(Clone, Copy, Debug, PartialEq, Eq, Structural)]
pub struct NonblockingGuard {
    /// The status flags of the descriptor before.
    pub original_flags: i32,
    /// Whether they were changed.
    pub changed: bool,
}

/// What setting up a guard comes to.
pub enum GuardStep<E> {
    /// The flags of the descriptor could not be had or set.
    Failed(Failure<E>),
    /// The flags of the descriptor have to be set.
    SetFlags(SetFlagsRequest),
    /// The guard is in place.
    Ready(NonblockingGuard),
}

/// A guard that needs the flags of its descriptor set.
#[derive(Clone, Copy, Debug, PartialEq, Eq, Structural)]
pub struct SetFlagsRequest {
    pub original_flags: i32,
    /// The flags to set.
    pub flags: i32,
}

impl NonblockingGuard {
    /// How a guard is set up for a descriptor with the given flags: a flag that is set
    /// already is left alone.
    pub open spec fn begun<E>(flags: Result<i32, Failure<E>>, nonblock: i32) -> GuardStep<E> {
        match flags {
            Err(failure) => GuardStep::Failed(failure),
            Ok(flags) => if flags & nonblock == 0 {
                GuardStep::SetFlags(
                    SetFlagsRequest { original_flags: flags, flags: flags | nonblock },
                )
            } else {
                GuardStep::Ready(NonblockingGuard { original_flags: flags, changed: false })
            },
        }
    }

    /// Sets up a guard for a descriptor with the given flags, if they could be had.
    /// `nonblock` is the flag that keeps a descriptor from waiting.
    pub fn new<E>(flags: Result<i32, Failure<E>>, nonblock: i32) -> (step: GuardStep<E>)
        ensures
            step == NonblockingGuard::begun(flags, nonblock),
            flags matches Err(failure) ==> step == GuardStep::Failed(failure),
            flags matches Ok(flags) ==> (flags & nonblock == 0 ==> step == GuardStep::<
                E,
            >::SetFlags(SetFlagsRequest { original_flags: flags, flags: flags | nonblock })),
            flags matches Ok(flags) ==> (flags & nonblock != 0 ==> step == GuardStep::<E>::Ready(
                NonblockingGuard { original_flags: flags, changed: false },
            )),
    {
        match flags {
            Err(failure) => GuardStep::Failed(failure),
            Ok(flags) => {
                if flags & nonblock == 0 {
                    GuardStep::SetFlags(
                        SetFlagsRequest { original_flags: flags, flags: flags | nonblock },
                    )
                } else {
                    GuardStep::Ready(NonblockingGuard { original_flags: flags, changed: false })
                }
            },
        }
    }

    /// The flags to set once the guard is no longer needed, unless it changed none.
    pub open spec fn spec_flags_to_restore(self) -> Option<i32> {
        if self.changed {
            Some(self.original_flags)
        } else {
            None
        }
    }

    /// The flags to set once the guard is no longer needed, unless it changed none.
    pub fn flags_to_restore(&self) -> (flags: Option<i32>)
        ensures
            flags == self.spec_flags_to_restore(),
            self.changed ==> flags == Some(self.original_flags),
            !self.changed ==> flags is None,
    {
        if self.changed {
            Some(self.original_flags)
        } else {
            None
        }
    }
}

impl SetFlagsRequest {
    /// The guard once its flags are set.
    pub open spec fn guard(self) -> NonblockingGuard {
        NonblockingGuard { original_flags: self.original_flags, changed: true }
    }

    /// How setting up a guard goes on once its flags were set, or could not be.
    pub open spec fn replied<E>(self, set: Result<(), Failure<E>>) -> GuardStep<E> {
        match set {
            Err(failure) => GuardStep::Failed(failure),
            Ok(_) => GuardStep::Ready(self.guard()),
        }
    }

    /// Goes on once the flags were set, or could not be.
    pub fn reply<E>(self, set: Result<(), Failure<E>>) -> (step: GuardStep<E>)
        ensures
            step == self.replied(set),
            set matches Err(failure) ==> step == GuardStep::Failed(failure),
            set is Ok ==> step == GuardStep::<E>::Ready(
                NonblockingGuard { original_flags: self.original_flags, changed: true },
            ),
    {
        match set {
            Err(failure) => GuardStep::Failed(failure),
            Ok(_) => GuardStep::Ready(
                NonblockingGuard { original_flags: self.original_flags, changed: true },
            ),
        }
    }
}

/// The flags of a descriptor once a request to set flags is carried out, if one was made.
pub open spec fn flags_after(flags: i32, request: Option<i32>) -> i32 {
    match request {
        Some(requested) => requested,
        None => flags,
    }
}

/// While a guard lasts its descriptor does not wait, and once it is gone the descriptor has
/// the flags that it had before. Flags other than the one that the guard is about stay as
/// they are throughout.
pub proof fn law_guard_is_scoped(flags: i32, nonblock: i32)
    ensures
        flags & nonblock == 0 ==> {
            let request = SetFlagsRequest { original_flags: flags, flags: flags | nonblock };
            let during = flags_after(flags, Some(request.flags));
            &&& during & nonblock == nonblock
            &&& during & !nonblock == flags & !nonblock
            &&& flags_after(during, request.guard().spec_flags_to_restore()) == flags
        },
        flags & nonblock != 0 ==> {
            let guard = NonblockingGuard { original_flags: flags, changed: false };
            flags_after(flags, guard.spec_flags_to_restore()) == flags
        },
{
    assert((flags | nonblock) & nonblock == nonblock) by (bit_vector);
    assert((flags | nonblock) & !nonblock == flags & !nonblock) by (bit_vector);
}

/// The path of the terminal that controls the process.
pub open spec fn dev_tty() -> Seq<u8> {
    // "/dev/tty"
    seq![0x2Fu8, 0x64, 0x65, 0x76, 0x2F, 0x74, 0x74, 0x79]
}

/// The path of the terminal that controls the process.
pub fn dev_tty_path() -> (path: Vec<u8>)
    ensures
        path@ == dev_tty(),
        path@ == seq![0x2Fu8, 0x64, 0x65, 0x76, 0x2F, 0x74, 0x74, 0x79],
{
    let path: Vec<u8> = vec![0x2Fu8, 0x64, 0x65, 0x76, 0x2F, 0x74, 0x74, 0x79];
    assert(path@ =~= dev_tty());
    path
}

/// How the descriptor of a terminal is come by.
pub enum TtyStep {
    /// By a descriptor that is open already.
    Use(FileDesc),
    /// By opening the file at this path for reading and writing, see [`tty_opened`].
    Open(Vec<u8>),
}

/// The descriptor of a terminal once its file was opened for reading and writing: it is
/// owned, and has to be closed in the end. If it could not be opened there is none.
pub fn tty_opened<E>(opened: Result<i32, Failure<E>>) -> (desc: Result<FileDesc, Error<E>>)
    ensures
        match opened {
            Ok(fd) => {
                &&& desc is Ok
                &&& desc->Ok_0.spec_fd() == fd
                &&& desc->Ok_0.spec_closes()
            },
            Err(failure) => desc == Err::<FileDesc, Error<E>>(Error::Io(failure)),
        },
{
    match opened {
        Ok(fd) => Ok(FileDesc::new(fd, true)),
        Err(failure) => Err(Error::Io(failure)),
    }
}

/// The descriptor to talk to the terminal: the standard input if it is a terminal, otherwise
/// the terminal that controls the process.
pub fn tty_fd(stdin_is_terminal: bool) -> (step: TtyStep)
    ensures
        match step {
            TtyStep::Use(desc) => {
                &&& stdin_is_terminal
                &&& desc.spec_fd() == STDIN_FILENO == 0
                &&& !desc.spec_closes()
            },
            TtyStep::Open(path) => !stdin_is_terminal && path@ == dev_tty(),
        },
{
    if stdin_is_terminal {
        TtyStep::Use(FileDesc::new(STDIN_FILENO, false))
    } else {
        TtyStep::Open(dev_tty_path())
    }
}

/// The path of the terminal that supplies the input: the name of the standard input if it is
/// a terminal, otherwise the terminal that controls the process.
pub fn tty_input_path(stdin_is_terminal: bool, stdin_name: Option<Vec<u8>>) -> (path: Option<
    Vec<u8>,
>)
    ensures
        stdin_is_terminal ==> path == stdin_name,
        !stdin_is_terminal ==> path is Some && path->Some_0@ == dev_tty(),
{
    if stdin_is_terminal {
        stdin_name
    } else {
        Some(dev_tty_path())
    }
}

/// The descriptor to read input from: an independent one if the terminal could be opened for
/// reading, otherwise the one to talk to the terminal.
pub fn tty_input_fd(opened: Option<i32>, stdin_is_terminal: bool) -> (step: TtyStep)
    ensures
        match step {
            TtyStep::Use(desc) => match opened {
                Some(fd) => desc.spec_fd() == fd && desc.spec_closes(),
                None => stdin_is_terminal && desc.spec_fd() == STDIN_FILENO == 0
                    && !desc.spec_closes(),
            },
            TtyStep::Open(path) => opened is None && !stdin_is_terminal && path@ == dev_tty(),
        },
{
    match opened {
        Some(fd) => TtyStep::Use(FileDesc::new(fd, true)),
        None => tty_fd(stdin_is_terminal),
    }
}

/// A guard adds its flag exactly where it is missing and remembers the flags as they were, and
/// asks for just these flags back. A guard that added nothing asks for nothing. A failure to
/// have or to set the flags is handed on as it is.
pub proof fn law_guard_asks_for_its_flags_back<E>(
    flags: i32,
    nonblock: i32,
    failure: Failure<E>,
    set: SetFlagsRequest,
)
    ensures
        NonblockingGuard::begun::<E>(Err(failure), nonblock) == GuardStep::Failed(failure),
        set.replied::<E>(Err(failure)) == GuardStep::Failed(failure),
        set.replied::<E>(Ok(())) matches GuardStep::Ready(guard)
            && guard.spec_flags_to_restore() == Some(set.original_flags),
        set.guard() == (NonblockingGuard { original_flags: set.original_flags, changed: true }),
        flags & nonblock == 0 ==> NonblockingGuard::begun::<E>(Ok(flags), nonblock) == GuardStep::<
            E,
        >::SetFlags(SetFlagsRequest { original_flags: flags, flags: flags | nonblock }),
        flags & nonblock != 0 ==> (NonblockingGuard::begun::<E>(Ok(flags), nonblock)
            matches GuardStep::Ready(guard) && guard.spec_flags_to_restore() is None
            && guard.original_flags == flags && !guard.changed),
        (NonblockingGuard { original_flags: flags, changed: true }).spec_flags_to_restore() == Some(
            flags,
        ),
        (NonblockingGuard { original_flags: flags, changed: false }).spec_flags_to_restore()
            is None,
{
}

/// The path of the terminal that controls the process is always this one.
pub proof fn law_controlling_terminal_has_this_path()
    ensures
        dev_tty() == seq![0x2Fu8, 0x64, 0x65, 0x76, 0x2F, 0x74, 0x74, 0x79],
{
}

} // verus!
