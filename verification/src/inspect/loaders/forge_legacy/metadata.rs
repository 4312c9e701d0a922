//! The `mcmod.info` model and its human-readable form.

use vstd::prelude::*;

use crate::inspect::json::JsonValue;
use crate::text::{contains_seq, line, list_line, opt_line, push_line, push_list_line, push_opt_line, push_str};

verus! {

/// `mcmod.info` is a JSON array of mod entries.
pub type ForgeLegacyMetadata = Vec<ForgeLegacyModEntry>;

/// One mod entry of `mcmod.info`.
#[derive(Debug, PartialEq)]
pub struct ForgeLegacyModEntry {
    pub modid: String,
    pub name: Option<String>,
    pub description: Option<String>,
    pub version: Option<String>,
    pub mcversion: Option<String>,
    pub url: Option<String>,
    pub update_url: Option<String>,
    pub author_list: Vec<String>,
    pub credits: Option<String>,
    pub logo_file: Option<String>,
    pub screenshots: Vec<JsonValue>,
    pub dependencies: Vec<String>,
    pub parent: Option<String>,
    pub authors: Vec<String>,
}

/// The human-readable form of one entry.
pub open spec fn legacy_entry_text(e: ForgeLegacyModEntry) -> Seq<char> {
    line("Mod ID:   "@, e.modid@) + opt_line("Name:     "@, e.name) + opt_line(
        "About:    "@,
        e.description,
    ) + opt_line("Version:  "@, e.version) + opt_line("MC:       "@, e.mcversion) + list_line(
        "Authors:  "@,
        e.author_list@,
    ) + list_line("Deps:     "@, e.dependencies@)
}

/// The human-readable form of several entries, separated by `---` lines.
pub open spec fn legacy_text(entries: Seq<ForgeLegacyModEntry>) -> Seq<char>
    decreases entries.len(),
{
    if entries.len() == 0 {
        Seq::empty()
    } else if entries.len() == 1 {
        legacy_entry_text(entries[0])
    } else {
        legacy_text(entries.drop_last()) + "---\n"@ + legacy_entry_text(entries.last())
    }
}

impl ForgeLegacyModEntry {
    /// Appends the human-readable form of this entry.
    pub fn write_to(&self, out: &mut String)
        ensures
            final(out)@ == old(out)@ + legacy_entry_text(*self),
    {
        let ghost start = out@;
        push_line(out, "Mod ID:   ", self.modid.as_str());
        push_opt_line(out, "Name:     ", &self.name);
        push_opt_line(out, "About:    ", &self.description);
        push_opt_line(out, "Version:  ", &self.version);
        push_opt_line(out, "MC:       ", &self.mcversion);
        push_list_line(out, "Authors:  ", &self.author_list);
        push_list_line(out, "Deps:     ", &self.dependencies);
        proof {
            assert(out@ =~= start + legacy_entry_text(*self));
        }
    }

    /// The human-readable form: ID, name, description, versions, authors and dependencies.
    pub fn to_string(&self) -> (r: String)
        ensures
            r@ == legacy_entry_text(*self),
    {
        let mut out = String::new();
        self.write_to(&mut out);
        proof {
            assert(out@ =~= legacy_entry_text(*self));
        }
        out
    }
}

/// Shows a whole `mcmod.info`, entries separated by `---` lines.
pub struct ForgeLegacyDisplay<'a>(pub &'a [ForgeLegacyModEntry]);

impl<'a> ForgeLegacyDisplay<'a> {
    /// The human-readable form of all entries.
    pub fn to_string(&self) -> (r: String)
        ensures
            r@ == legacy_text(self.0@),
    {
        let entries = self.0;
        let mut out = String::new();
        let mut i: usize = 0;
        while i < entries.len()
            invariant
                i <= entries@.len(),
                entries@ == self.0@,
                out@ == legacy_text(entries@.take(i as int)),
            decreases entries@.len() - i,
        {
            proof {
                assert(entries@.take(i + 1).drop_last() =~= entries@.take(i as int));
            }
            if i > 0 {
                push_str(&mut out, "---\n");
            }
            entries[i].write_to(&mut out);
            proof {
                if i == 0 {
                    assert(out@ =~= legacy_text(entries@.take(1)));
                } else {
                    assert(out@ =~= legacy_text(entries@.take(i + 1)));
                }
            }
            i = i + 1;
        }
        proof {
            assert(entries@.take(entries@.len() as int) =~= entries@);
        }
        out
    }
}

/// Law: an entry that names its Minecraft version shows it on a line of its
/// own, `MC:` and the version.
pub proof fn lemma_mcversion_shown(e: ForgeLegacyModEntry, v: String)
    requires
        e.mcversion == Some(v),
    ensures
        contains_seq(legacy_entry_text(e), "MC:       "@ + v@ + "\n"@),
{
    let pre = line("Mod ID:   "@, e.modid@) + opt_line("Name:     "@, e.name) + opt_line("About:    "@, e.description)
        + opt_line("Version:  "@, e.version);
    let mc = "MC:       "@ + v@ + "\n"@;
    let rest = list_line("Authors:  "@, e.author_list@) + list_line("Deps:     "@, e.dependencies@);
    assert(legacy_entry_text(e) =~= pre + mc + rest);
    assert(legacy_entry_text(e).subrange(pre.len() as int, (pre.len() + mc.len()) as int) =~= mc);
}

/// Law: the Minecraft version adds exactly its `MC:` line: two entries that
/// differ only in that one names a Minecraft version and the other does not
/// print the same text but for that line.
pub proof fn lemma_mcversion_adds_its_line(e1: ForgeLegacyModEntry, e2: ForgeLegacyModEntry, v: String)
    requires
        e1.modid == e2.modid,
        e1.name == e2.name,
        e1.description == e2.description,
        e1.version == e2.version,
        e1.author_list@ == e2.author_list@,
        e1.dependencies@ == e2.dependencies@,
        e1.mcversion is None,
        e2.mcversion == Some(v),
    ensures
        exists|i: int|
            0 <= i <= legacy_entry_text(e1).len() && legacy_entry_text(e2) == legacy_entry_text(e1).take(i)
                + "MC:       "@ + v@ + "\n"@ + legacy_entry_text(e1).skip(i),
{
    let pre = line("Mod ID:   "@, e1.modid@) + opt_line("Name:     "@, e1.name) + opt_line(
        "About:    "@,
        e1.description,
    ) + opt_line("Version:  "@, e1.version);
    let rest = list_line("Authors:  "@, e1.author_list@) + list_line("Deps:     "@, e1.dependencies@);
    let i = pre.len() as int;
    assert(legacy_entry_text(e1) =~= pre + rest);
    assert(legacy_entry_text(e1).take(i) =~= pre);
    assert(legacy_entry_text(e1).skip(i) =~= rest);
    assert(legacy_entry_text(e2) =~= legacy_entry_text(e1).take(i) + "MC:       "@ + v@ + "\n"@
        + legacy_entry_text(e1).skip(i));
}

} // verus!
