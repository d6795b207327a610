//! The rows of the tables as they are stored.

use vstd::prelude::*;
use vstd::string::StringExecFns;
use crate::modes::S_IFDIR;
use crate::timestamp::Timestamp;

verus! {

/// A row of the `block` table.
#[derive(Debug)]
pub struct Block {
    pub id: i32,
    pub inode_id: i32,
    pub first_byte: i32,
    pub last_byte: i32,
    pub data: Option<Vec<u8>>,
}

/// A block that is to be stored.
#[derive(Debug)]
pub struct NewBlock<'a> {
    pub inode_id: i32,
    pub first_byte: i32,
    pub last_byte: i32,
    pub data: Option<&'a [u8]>,
}

/// A row of the `link` table.
#[derive(Debug)]
pub struct Link {
    pub parent_id: i32,
    pub child_id: i32,
    pub name: String,
}

/// A link that is to be stored.
#[derive(Debug)]
pub struct NewLink {
    pub parent_id: i32,
    pub child_id: i32,
    pub name: String,
}

/// A row of the `xattr` table.
#[derive(Debug)]
pub struct Xattr {
    pub inode_id: i32,
    pub name: String,
    pub value: Vec<u8>,
}

/// An extended attribute that is to be stored.
#[derive(Debug)]
pub struct NewXattr<'a> {
    pub inode_id: i32,
    pub name: &'a str,
    pub value: &'a [u8],
}

/// A point in time as it is stored.
#[derive(Clone, Copy, Debug, PartialEq, Eq, Structural)]
pub struct DateTimeUtc(pub Timestamp);

impl DateTimeUtc {
    /// The text under which the point in time is stored; in the years 0 to
    /// 9999 it is read back to it.
    pub fn to_sql(&self) -> (r: String)
        ensures
            r@ == crate::timestamp::rfc3339_short(self.0@.0, self.0@.1),
            crate::timestamp::has_four_digit_year(self.0@.0) ==> crate::timestamp::reads_as(
                r@,
                self.0@,
            ),
    {
        self.0.to_rfc3339()
    }

    /// Reads a point in time from the text under which it was stored.
    pub fn from_sql(text: &str) -> (r: Result<DateTimeUtc, String>)
        ensures
            match crate::timestamp::rfc3339_read(text@) {
                Ok(t) => r matches Ok(d) && d.0@ == t,
                Err(fault) => r matches Err(e) && e@ == "Invalid datetime: "@ + fault,
            },
    {
        match Timestamp::parse_from_rfc3339(text) {
            Ok(t) => Ok(DateTimeUtc(t)),
            Err(fault) => {
                let mut message = "Invalid datetime: ".to_string();
                message.append(fault.as_str());
                Err(message)
            },
        }
    }
}

impl From<Timestamp> for DateTimeUtc {
    fn from(t: Timestamp) -> (r: DateTimeUtc) {
        DateTimeUtc(t)
    }
}

impl vstd::std_specs::convert::FromSpecImpl<Timestamp> for DateTimeUtc {
    open spec fn obeys_from_spec() -> bool {
        true
    }

    open spec fn from_spec(t: Timestamp) -> DateTimeUtc {
        DateTimeUtc(t)
    }
}

impl From<DateTimeUtc> for Timestamp {
    fn from(t: DateTimeUtc) -> (r: Timestamp) {
        t.0
    }
}

impl vstd::std_specs::convert::FromSpecImpl<DateTimeUtc> for Timestamp {
    open spec fn obeys_from_spec() -> bool {
        true
    }

    open spec fn from_spec(t: DateTimeUtc) -> Timestamp {
        t.0
    }
}

/// A row of the `inode` table.
#[derive(Clone, Copy, Debug)]
pub struct Inode {
    pub id: i32,
    pub mode: i32,
    pub uid: i32,
    pub gid: i32,
    pub size: i32,
    pub rdev: i32,
    pub atime: DateTimeUtc,
    pub mtime: DateTimeUtc,
    pub ctime: DateTimeUtc,
    pub btime: DateTimeUtc,
}

/// An inode that is to be stored.
#[derive(Clone, Copy, Debug)]
pub struct NewInode {
    pub mode: i32,
    pub uid: i32,
    pub gid: i32,
    pub size: i32,
    pub rdev: i32,
    pub atime: DateTimeUtc,
    pub mtime: DateTimeUtc,
    pub ctime: DateTimeUtc,
    pub btime: DateTimeUtc,
}

impl NewInode {
    /// The root inode: an empty directory with these permissions, all of whose
    /// times are `now`.
    pub fn root(mode: u32, uid: u32, gid: u32, now: Timestamp) -> (r: NewInode)
        ensures
            r == (NewInode {
                mode: (S_IFDIR | mode) as i32,
                uid: uid as i32,
                gid: gid as i32,
                size: 0,
                rdev: 0,
                atime: DateTimeUtc(now),
                mtime: DateTimeUtc(now),
                ctime: DateTimeUtc(now),
                btime: DateTimeUtc(now),
            }),
    {
        let full_mode: u32 = S_IFDIR | mode;
        NewInode {
            mode: full_mode as i32,
            uid: uid as i32,
            gid: gid as i32,
            size: 0,
            rdev: 0,
            atime: DateTimeUtc::from(now),
            mtime: DateTimeUtc::from(now),
            ctime: DateTimeUtc::from(now),
            btime: DateTimeUtc::from(now),
        }
    }
}

} // verus!
