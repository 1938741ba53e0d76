//! Open files as the kernel's logic sees them, and the per-task table of
//! file descriptors.
//!
//! The file objects themselves (regular files, pipes, the console) live on
//! the host side; a task's table holds, per descriptor, the handle of the
//! object and the two properties the system calls test before they hand the
//! object to the host: whether it may be read and whether it may be written.
use vstd::prelude::*;

verus! {

/// A handle to an open file object.
#[derive(Clone, Copy, Debug, PartialEq, Eq, Structural)]
pub struct FileDesc {
    /// Identifies the file object among the host's open objects.
    pub id: usize,
    /// The object may be read from.
    pub readable: bool,
    /// The object may be written to.
    pub writable: bool,
}

/// The console's input side, installed as descriptor 0 of a fresh task.
pub fn stdin() -> (f: FileDesc)
    ensures
        f == (FileDesc { id: 0, readable: true, writable: false }),
{
    FileDesc { id: 0, readable: true, writable: false }
}

/// The console's output side, installed as descriptors 1 and 2 of a fresh task.
pub fn stdout() -> (f: FileDesc)
    ensures
        f == (FileDesc { id: 1, readable: false, writable: true }),
{
    FileDesc { id: 1, readable: false, writable: true }
}

/// The descriptor table of a freshly created task: standard input, standard
/// output and standard error (which shares the console's output side).
pub open spec fn std_fd_table() -> Seq<Option<FileDesc>> {
    seq![
        Some(FileDesc { id: 0, readable: true, writable: false }),
        Some(FileDesc { id: 1, readable: false, writable: true }),
        Some(FileDesc { id: 1, readable: false, writable: true }),
    ]
}

/// Builds the descriptor table of a freshly created task.
pub fn new_std_fd_table() -> (t: Vec<Option<FileDesc>>)
    ensures
        t@ == std_fd_table(),
{
    let mut t: Vec<Option<FileDesc>> = Vec::new();
    t.push(Some(stdin()));
    t.push(Some(stdout()));
    t.push(Some(stdout()));
    t
}

/// `fd` is the lowest free descriptor of `table`: every slot below it is
/// occupied, and it is either a free slot or one past the end.
pub open spec fn is_lowest_free_fd(table: Seq<Option<FileDesc>>, fd: int) -> bool {
    &&& 0 <= fd <= table.len()
    &&& fd < table.len() ==> table[fd] is None
    &&& forall|i: int| 0 <= i < fd ==> table[i] is Some
}

/// What `alloc_fd` does: it picks the lowest free descriptor, growing the
/// table by one free slot when every slot is occupied.
pub open spec fn alloc_fd_post(
    old_table: Seq<Option<FileDesc>>,
    new_table: Seq<Option<FileDesc>>,
    fd: int,
) -> bool {
    &&& is_lowest_free_fd(old_table, fd)
    &&& fd < old_table.len() ==> new_table == old_table
    &&& fd == old_table.len() ==> new_table == old_table.push(None)
}

/// `table` with `f` installed at descriptor `fd`, which is either a slot of
/// the table or one past its end.
pub open spec fn install_at(table: Seq<Option<FileDesc>>, fd: int, f: Option<FileDesc>) -> Seq<
    Option<FileDesc>,
> {
    if fd < table.len() {
        table.update(fd, f)
    } else {
        table.push(f)
    }
}

/// The file open at descriptor `fd` of `table`, if `fd` is a slot of the
/// table that holds one.
pub open spec fn file_at(table: Seq<Option<FileDesc>>, fd: int) -> Option<FileDesc> {
    if 0 <= fd < table.len() {
        table[fd]
    } else {
        None
    }
}

/// Allocates a descriptor: the lowest free slot of the table, or a new slot
/// at its end when none is free. The slot is left free for the caller to
/// fill.
pub fn alloc_fd(fd_table: &mut Vec<Option<FileDesc>>) -> (fd: usize)
    requires
        old(fd_table)@.len() < usize::MAX,
    ensures
        alloc_fd_post(old(fd_table)@, final(fd_table)@, fd as int),
        fd < final(fd_table)@.len(),
        final(fd_table)@[fd as int] is None,
{
    let mut i: usize = 0;
    while i < fd_table.len()
        invariant
            i <= fd_table@.len(),
            forall|j: int| 0 <= j < i ==> fd_table@[j] is Some,
        decreases fd_table@.len() - i,
    {
        if fd_table[i].is_none() {
            return i;
        }
        i = i + 1;
    }
    fd_table.push(None);
    i
}

/// Copies a descriptor table; the copy refers to the same file objects.
pub fn copy_fd_table(fd_table: &Vec<Option<FileDesc>>) -> (t: Vec<Option<FileDesc>>)
    ensures
        t@ == fd_table@,
{
    let mut t: Vec<Option<FileDesc>> = Vec::new();
    let mut i: usize = 0;
    while i < fd_table.len()
        invariant
            i <= fd_table@.len(),
            t@ == fd_table@.subrange(0, i as int),
        decreases fd_table@.len() - i,
    {
        t.push(fd_table[i]);
        i = i + 1;
    }
    t
}

/// Freeing the descriptor that a file was just installed at, at the lowest
/// free descriptor, gives back the table as it was, but for one free slot at
/// its end when the table had to grow.
pub proof fn lemma_close_undoes_install(table: Seq<Option<FileDesc>>, fd: int, f: FileDesc)
    requires
        is_lowest_free_fd(table, fd),
    ensures
        fd < table.len() ==> install_at(table, fd, Some(f)).update(fd, None) == table,
        fd == table.len() ==> install_at(table, fd, Some(f)).update(fd, None) == table.push(None),
{
    if fd < table.len() {
        assert(install_at(table, fd, Some(f)).update(fd, None) =~= table);
    } else {
        assert(install_at(table, fd, Some(f)).update(fd, None) =~= table.push(None));
    }
}

/// After installing the file open at `fd` at another descriptor (as `dup`
/// does), both descriptors refer to the same file, and every other
/// descriptor is unchanged.
pub proof fn lemma_dup_shares_file(table: Seq<Option<FileDesc>>, fd: int, new_fd: int)
    requires
        file_at(table, fd) is Some,
        is_lowest_free_fd(table, new_fd),
    ensures
        new_fd != fd,
        file_at(install_at(table, new_fd, file_at(table, fd)), new_fd) == file_at(table, fd),
        file_at(install_at(table, new_fd, file_at(table, fd)), fd) == file_at(table, fd),
        forall|i: int|
            0 <= i < table.len() && i != new_fd ==> #[trigger] install_at(table, new_fd, file_at(table, fd))[i]
                == table[i],
{
}

/// Installing a file puts it at its descriptor and leaves every other slot
/// as it was; the table grows only when the descriptor is one past its end.
pub proof fn lemma_install_at_only_touches_fd(table: Seq<Option<FileDesc>>, fd: int, f: Option<FileDesc>)
    requires
        0 <= fd <= table.len(),
    ensures
        install_at(table, fd, f)[fd] == f,
        install_at(table, fd, f).len() == if fd < table.len() { table.len() } else { table.len() + 1 },
        forall|i: int| 0 <= i < table.len() && i != fd ==> #[trigger] install_at(table, fd, f)[i] == table[i],
{
}

/// Each table has exactly one lowest free descriptor, and it lies at or
/// below every free slot of the table.
pub proof fn lemma_lowest_free_fd_is_first_free(table: Seq<Option<FileDesc>>, fd: int, other: int)
    requires
        is_lowest_free_fd(table, fd),
    ensures
        is_lowest_free_fd(table, other) ==> other == fd,
        0 <= other < table.len() && table[other] is None ==> fd <= other,
        fd == table.len() ==> forall|i: int| 0 <= i < table.len() ==> #[trigger] table[i] is Some,
{
    if is_lowest_free_fd(table, other) {
        if other < fd {
            assert(table[other] is Some);
        }
        if fd < other {
            assert(table[fd] is Some);
        }
    }
}

} // verus!
