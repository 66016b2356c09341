//! Classification of a filesystem object into a closed set of kind tags.

use vstd::prelude::*;
use vstd::string::StringExecFns;

verus! {

/// The raw file-type indicators of one filesystem object, as plain truth
/// values, in the order the classifier consults them.
#[derive(Clone, Copy, Debug, PartialEq, Eq, Structural)]
pub struct FileTypeFlags {
    pub is_file: bool,
    pub is_dir: bool,
    pub is_socket: bool,
    pub is_char_device: bool,
    pub is_block_device: bool,
    pub is_fifo: bool,
}

/// The closed set of kind tags an entry can carry.
#[derive(Clone, Copy, Debug, PartialEq, Eq, Structural)]
pub enum DirectoryEntryKind {
    File,
    Directory,
    Socket,
    Character,
    Block,
    Fifo,
    Unknown,
}

impl DirectoryEntryKind {
    /// The tag the fixed precedence order assigns to a set of file-type
    /// indicators: File first, then Directory, Socket, Character, Block,
    /// Fifo, and Unknown when none of the indicators is set.
    pub open spec fn spec_from(flags: FileTypeFlags) -> DirectoryEntryKind {
        if flags.is_file {
            DirectoryEntryKind::File
        } else if flags.is_dir {
            DirectoryEntryKind::Directory
        } else if flags.is_socket {
            DirectoryEntryKind::Socket
        } else if flags.is_char_device {
            DirectoryEntryKind::Character
        } else if flags.is_block_device {
            DirectoryEntryKind::Block
        } else if flags.is_fifo {
            DirectoryEntryKind::Fifo
        } else {
            DirectoryEntryKind::Unknown
        }
    }

    /// Classifies one set of file-type indicators, following the fixed
    /// precedence order.
    pub fn from(flags: FileTypeFlags) -> (kind: DirectoryEntryKind)
        ensures
            kind == DirectoryEntryKind::spec_from(flags),
    {
        if flags.is_file {
            DirectoryEntryKind::File
        } else if flags.is_dir {
            DirectoryEntryKind::Directory
        } else if flags.is_socket {
            DirectoryEntryKind::Socket
        } else if flags.is_char_device {
            DirectoryEntryKind::Character
        } else if flags.is_block_device {
            DirectoryEntryKind::Block
        } else if flags.is_fifo {
            DirectoryEntryKind::Fifo
        } else {
            DirectoryEntryKind::Unknown
        }
    }

    /// The display name of one kind tag.
    pub open spec fn spec_name(self) -> Seq<char> {
        match self {
            DirectoryEntryKind::File => ("File")@,
            DirectoryEntryKind::Directory => ("Directory")@,
            DirectoryEntryKind::Socket => ("Socket")@,
            DirectoryEntryKind::Character => ("Character")@,
            DirectoryEntryKind::Block => ("Block")@,
            DirectoryEntryKind::Fifo => ("Fifo")@,
            DirectoryEntryKind::Unknown => ("Unknown")@,
        }
    }

    /// Renders the kind tag as its display name.
    pub fn as_string(&self) -> (name: String)
        ensures
            name@ == self.spec_name(),
    {
        match self {
            DirectoryEntryKind::File => String::from_str("File"),
            DirectoryEntryKind::Directory => String::from_str("Directory"),
            DirectoryEntryKind::Socket => String::from_str("Socket"),
            DirectoryEntryKind::Character => String::from_str("Character"),
            DirectoryEntryKind::Block => String::from_str("Block"),
            DirectoryEntryKind::Fifo => String::from_str("Fifo"),
            DirectoryEntryKind::Unknown => String::from_str("Unknown"),
        }
    }
}

} // verus!
