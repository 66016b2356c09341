//! One directory member as the report shows it, and its line rendering.

use vstd::prelude::*;
use vstd::string::StringExecFns;
use crate::kind::DirectoryEntryKind;
use crate::permissions::UnixPermissions;
use crate::permissions::oct_seq;
use crate::permissions::sym_seq;
use crate::sizes::DigitalSize;
use crate::sizes::size_seq;
use crate::text::pad_left;
use crate::text::pad_left_string;
use crate::text::pad_right;
use crate::text::pad_right_string;
use crate::users::UnixUser;

verus! {

/// One successfully read directory member, ready to render.
pub struct DirectoryEntry {
    pub name: String,
    pub permissions: UnixPermissions,
    pub kind: DirectoryEntryKind,
    pub size: DigitalSize,
    pub owner: Option<UnixUser>,
    pub symlink_path: Option<String>,
}

impl DirectoryEntry {
    /// The marker column: an at sign for a symbolic link, a space otherwise.
    pub open spec fn marker_seq(self) -> Seq<char> {
        if self.symlink_path is Some {
            ("@")@
        } else {
            (" ")@
        }
    }

    /// The owner column: the resolved name, empty when unresolved.
    pub open spec fn owner_seq(self) -> Seq<char> {
        match self.owner {
            Some(user) => user.name@,
            None => Seq::empty(),
        }
    }

    /// The link suffix: an arrow to the raw target for a symbolic link,
    /// empty otherwise.
    pub open spec fn suffix_seq(self) -> Seq<char> {
        match self.symlink_path {
            Some(target) => (" -> ")@ + target@,
            None => Seq::empty(),
        }
    }

    /// The whole rendered line: link marker, kind name left-aligned to nine
    /// characters, size right-aligned to seven, symbolic permissions with the
    /// octal display in parentheses, owner left-aligned to ten, the name, and
    /// the link suffix.
    pub open spec fn line_seq(self) -> Seq<char> {
        self.marker_seq() + pad_right(self.kind.spec_name(), 9) + ("   ")@ + pad_left(
            size_seq(self.size.bytes as nat),
            7,
        ) + ("   ")@ + sym_seq(self.permissions.mode) + (" (")@ + oct_seq(
            (self.permissions.mode & 0o777) as nat,
        ) + (")   ")@ + pad_right(self.owner_seq(), 10) + ("   ")@ + self.name@
            + self.suffix_seq()
    }

    /// The link marker law: a rendered line starts with an at sign exactly
    /// when the entry carries a link target, and with a space otherwise.
    pub proof fn lemma_link_marker(self)
        ensures
            self.line_seq().len() > 0,
            (self.line_seq()[0] == '@') <==> self.symlink_path is Some,
            self.symlink_path is None ==> self.line_seq()[0] == ' ',
    {
        reveal_strlit("@");
        reveal_strlit(" ");
        assert(self.line_seq()[0] == self.marker_seq()[0]);
    }

    /// Renders the entry as one aligned report line.
    pub fn as_string(&self) -> (r: String)
        ensures
            r@ == self.line_seq(),
    {
        let mut line: String = match &self.symlink_path {
            Some(_) => String::from_str("@"),
            None => String::from_str(" "),
        };
        let kind_column = pad_right_string(self.kind.as_string(), 9);
        line.append(kind_column.as_str());
        line.append("   ");
        let size_column = pad_left_string(self.size.as_string(), 7);
        line.append(size_column.as_str());
        line.append("   ");
        let symbols = self.permissions.as_string();
        line.append(symbols.as_str());
        line.append(" (");
        let octal = self.permissions.as_octal_string();
        line.append(octal.as_str());
        line.append(")   ");
        let owner: String = match &self.owner {
            Some(user) => user.get_name(),
            None => String::new(),
        };
        let owner_column = pad_right_string(owner, 10);
        line.append(owner_column.as_str());
        line.append("   ");
        line.append(self.name.as_str());
        match &self.symlink_path {
            Some(target) => {
                line.append(" -> ");
                line.append(target.as_str());
            },
            None => {},
        }
        proof {
            assert(line@ =~= self.line_seq());
        }
        line
    }
}

} // verus!
