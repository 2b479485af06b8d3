//! The execution context: the schedulable process record the loader
//! assembles — entry point, initial argument layout, owned memory regions,
//! open file table, and working directory — together with the model of the
//! console resource used for the default standard streams.

use vstd::prelude::*;

verus! {

/// An opened resource attached to a context's file table.
pub struct Resource {
    /// The source the resource was opened from.
    pub url: String,
}

/// One open-file entry: a descriptor number and its resource.
pub struct ContextFile {
    /// File descriptor number; 0, 1 and 2 are reserved for the standard
    /// streams.
    pub fd: usize,
    /// The open resource behind the descriptor.
    pub resource: Resource,
}

/// One memory region owned exclusively by a context.
#[derive(Clone, Copy, PartialEq, Eq, Structural)]
pub struct ContextMemory {
    /// Base of the allocated physical region.
    pub physical_address: usize,
    /// Address at which the region is mapped for the process.
    pub virtual_address: usize,
    /// Byte length of the region, excluding the allocator's header overhead.
    pub virtual_size: usize,
}

/// The execution context: the kernel's unit of schedulable state.
pub struct Context {
    /// Validated virtual entry address.
    pub entry: usize,
    /// Initial argument/stack layout, low index to high.
    pub args: Vec<usize>,
    /// Memory regions owned by this context.
    pub memory: Vec<ContextMemory>,
    /// Open file table.
    pub files: Vec<ContextFile>,
    /// Working directory, copied at creation time.
    pub cwd: String,
}

/// Which of the three default console opens succeed: the environment's
/// answer to the loader's attempts to open the console source for the
/// standard streams.
#[derive(Clone, Copy, PartialEq, Eq, Structural)]
pub struct Console {
    /// The open for descriptor 0 succeeds.
    pub stdin: bool,
    /// The open for descriptor 1 succeeds.
    pub stdout: bool,
    /// The open for descriptor 2 succeeds.
    pub stderr: bool,
}

/// The fixed console source the standard streams are opened from.
pub open spec fn spec_console_source() -> Seq<char> {
    "debug://"@
}

/// The descriptor numbers attached for the console opens that succeed,
/// in order: 0, then 1, then 2.
pub open spec fn spec_stream_fds(console: Console) -> Seq<usize> {
    (if console.stdin {
        seq![0usize]
    } else {
        Seq::<usize>::empty()
    }) + (if console.stdout {
        seq![1usize]
    } else {
        Seq::<usize>::empty()
    }) + (if console.stderr {
        seq![2usize]
    } else {
        Seq::<usize>::empty()
    })
}

/// The fixed console source as a value.
pub fn console_source() -> (s: String)
    ensures
        s@ == spec_console_source(),
{
    "debug://".to_owned()
}

impl Context {
    /// A fresh context with a validated entry address and an initial
    /// argument layout, owning no memory and no open files yet.
    pub fn new(entry: usize, args: Vec<usize>) -> (c: Context)
        ensures
            c.entry == entry,
            c.args@ == args@,
            c.memory@.len() == 0,
            c.files@.len() == 0,
            c.cwd@ == Seq::<char>::empty(),
    {
        Context { entry, args, memory: Vec::new(), files: Vec::new(), cwd: String::new() }
    }

    /// Opens the console source once per standard stream and attaches each
    /// successful open as descriptors 0, 1, 2 in that order. A failed open
    /// leaves that descriptor slot absent; nothing else changes.
    pub fn attach_streams(&mut self, console: Console)
        ensures
            final(self).files@.map_values(|f: ContextFile| f.fd) == old(self).files@.map_values(
                |f: ContextFile| f.fd,
            ) + spec_stream_fds(console),
            forall|i: int|
                old(self).files@.len() <= i < final(self).files@.len() ==> (
                #[trigger] final(self).files@[i]).resource.url@ == spec_console_source(),
            forall|i: int|
                0 <= i < old(self).files@.len() ==> #[trigger] final(self).files@[i] == old(
                self).files@[i],
            final(self).entry == old(self).entry,
            final(self).args@ == old(self).args@,
            final(self).memory@ == old(self).memory@,
            final(self).cwd@ == old(self).cwd@,
    {
        let ghost fds0 = self.files@.map_values(|f: ContextFile| f.fd);
        if console.stdin {
            let stdin = Resource { url: console_source() };
            self.files.push(ContextFile { fd: 0, resource: stdin });
        }
        if console.stdout {
            let stdout = Resource { url: console_source() };
            self.files.push(ContextFile { fd: 1, resource: stdout });
        }
        if console.stderr {
            let stderr = Resource { url: console_source() };
            self.files.push(ContextFile { fd: 2, resource: stderr });
        }
        proof {
            assert(self.files@.map_values(|f: ContextFile| f.fd) =~= fds0 + spec_stream_fds(
                console,
            ));
        }
    }
}

} // verus!
