# Flocon

A file system that lives in a SQLite database. Files, directories, links and
extended attributes are rows of four tables; an image can be mounted with FUSE
or exposed to a virtual machine over virtio-fs.

## Layout

-   `src/` is the library, proved with Verus. It holds the rules of the file
    system and every decision that its operations take:
    -   `blocks`, `content`: blocks of bytes, how they are cut and replaced, and
        what a list of them says about a file
    -   `storage`, `operations`, `laws`: which rows a read, a write, an append or
        a change of size takes, step by step, and what that does to the bytes
    -   `winter`, `handler`, `rules`, `tree_laws`: the traits that a storage
        implements, the operations that the kernel asks for, and what they keep
    -   `flocon`, `sql`, `manager`, `migration`, `models`: the storage in SQLite
    -   `timestamp`, `text`, `modes`, `error`, `cli`, `virtiofs`: the rest
-   `app/` is the program around it: the command line, the database
    connections, the FUSE server and the virtio-fs daemon.
-   `tests/` runs the library, against a real database where one is involved.

## What is proved

-   A read of bytes that were written gives them back, holes read as zeros, an
    append goes to the end of the file, and a write, an append or a change of
    size touches no other byte. This is proved of the blocks in the database,
    where no two blocks of a file overlap and none reaches beyond its end, and
    of the operations on open files for every storage that keeps its contract.
-   Each operation commits everything it did or nothing; one that fails is
    rolled back, and the open files stay open.
-   An extended attribute that was set is what getting it gives, a listing of a
    directory goes on where the one before it ended, and initialising an image
    once more changes nothing.
-   Names lead to inodes that exist, whatever operations are carried out, and an
    inode is deleted when nothing leads to it and nobody refers to it.
-   Each request that is refused is answered with the error that belongs to it;
    any other error is one that the storage gave.

Outside code is trusted in a few places only, each marked and described where it
stands: the text form of points in time and the clock (`timestamp`), the reading
of UTF-8 (`text`), and sharing bytes in memory (`blocks`).
