//! The `fabric.mod.json` model and its human-readable form.

use vstd::prelude::*;

use crate::inspect::json::{json_display, JsonValue};
use crate::text::{join, line, opt_line, owned, push_line, push_opt_line, push_str};

verus! {

/// Top-level `fabric.mod.json` entry. Maps are kept as ordered key/value pairs.
#[derive(Debug, PartialEq)]
pub struct FabricModMetadata {
    pub schema_version: i64,
    pub id: String,
    pub version: String,
    pub name: Option<String>,
    pub description: Option<String>,
    pub authors: Vec<JsonValue>,
    pub contact: Option<FabricContact>,
    pub license: Option<String>,
    pub icon: Option<String>,
    pub environment: Option<String>,
    pub entrypoints: Vec<(String, Vec<String>)>,
    pub mixins: Vec<JsonValue>,
    pub depends: Vec<(String, JsonValue)>,
    pub recommends: Vec<(String, JsonValue)>,
    pub suggests: Vec<(String, JsonValue)>,
    pub breaks: Vec<(String, JsonValue)>,
    pub conflicts: Vec<(String, JsonValue)>,
    pub jars: Vec<FabricJarEntry>,
    pub custom: Vec<(String, JsonValue)>,
    pub access_widener: Option<String>,
    pub provides: Vec<String>,
    pub contributors: Vec<JsonValue>,
    pub language_adapters: Vec<(String, String)>,
}

/// Contact information of a Fabric mod.
#[derive(Debug, Clone, PartialEq)]
pub struct FabricContact {
    pub sources: Option<String>,
    pub homepage: Option<String>,
    pub issues: Option<String>,
    pub discord: Option<String>,
    pub irc: Option<String>,
    pub source_url: Option<String>,
}

/// A JAR bundled with a Fabric mod.
#[derive(Debug, Clone, PartialEq)]
pub struct FabricJarEntry {
    pub file: String,
}

/// The string elements of a JSON array, in order.
pub open spec fn string_items(items: Seq<JsonValue>) -> Seq<Seq<char>>
    decreases items.len(),
{
    if items.len() == 0 {
        Seq::empty()
    } else {
        let prev = string_items(items.drop_last());
        match items.last() {
            JsonValue::Str(s) => prev.push(s@),
            _ => prev,
        }
    }
}

/// How a dependency's version requirement is shown: a string as is, the
/// strings of an array joined by ` | `, anything else as JSON.
pub open spec fn requirement_text(v: JsonValue) -> Seq<char> {
    match v {
        JsonValue::Str(s) => s@,
        JsonValue::Array(items) => join(string_items(items@), " | "@),
        _ => json_display(v),
    }
}

/// The `Depends:` lines, one per dependency.
pub open spec fn depends_lines(deps: Seq<(String, JsonValue)>) -> Seq<char>
    decreases deps.len(),
{
    if deps.len() == 0 {
        Seq::empty()
    } else {
        depends_lines(deps.drop_last()) + "  - "@ + deps.last().0@ + " ("@ + requirement_text(
            deps.last().1,
        ) + ")\n"@
    }
}

/// The contact lines (sources and homepage).
pub open spec fn contact_text(c: Option<FabricContact>) -> Seq<char> {
    match c {
        Some(c) => opt_line("Sources:  "@, c.sources) + opt_line("Homepage: "@, c.homepage),
        None => Seq::empty(),
    }
}

/// The human-readable form of a `fabric.mod.json`.
pub open spec fn fabric_text(m: FabricModMetadata) -> Seq<char> {
    line("ID:       "@, m.id@) + opt_line("Name:     "@, m.name) + line("Version:  "@, m.version@)
        + opt_line("About:    "@, m.description) + opt_line("License:  "@, m.license)
        + contact_text(m.contact) + if m.depends@.len() > 0 {
        "Depends:\n"@ + depends_lines(m.depends@)
    } else {
        Seq::empty()
    }
}

/// The strings of a JSON array joined by ` | `.
pub fn join_string_items(items: &Vec<JsonValue>) -> (r: String)
    ensures
        r@ == join(string_items(items@), " | "@),
{
    let mut out = String::new();
    let mut count: usize = 0;
    let mut i: usize = 0;
    while i < items.len()
        invariant
            i <= items@.len(),
            count <= i,
            count == string_items(items@.take(i as int)).len(),
            out@ == join(string_items(items@.take(i as int)), " | "@),
        decreases items@.len() - i,
    {
        proof {
            assert(items@.take(i + 1).drop_last() =~= items@.take(i as int));
        }
        match &items[i] {
            JsonValue::Str(s) => {
                let ghost before = string_items(items@.take(i as int));
                if count > 0 {
                    push_str(&mut out, " | ");
                }
                push_str(&mut out, s.as_str());
                proof {
                    let now = string_items(items@.take(i + 1));
                    assert(now == before.push(s@));
                    assert(now.drop_last() =~= before);
                    if count == 0 {
                        assert(out@ =~= join(now, " | "@));
                    } else {
                        assert(out@ =~= join(now, " | "@));
                    }
                }
                count = count + 1;
            },
            _ => {},
        }
        i = i + 1;
    }
    proof {
        assert(items@.take(items@.len() as int) =~= items@);
    }
    out
}

/// How a version requirement is shown.
pub fn requirement_string(v: &JsonValue) -> (r: String)
    ensures
        r@ == requirement_text(*v),
{
    match v {
        JsonValue::Str(s) => s.clone(),
        JsonValue::Array(items) => join_string_items(items),
        _ => v.to_string(),
    }
}

impl FabricModMetadata {
    /// The human-readable form: ID, name, version, description, license,
    /// contact links and the declared dependencies.
    pub fn to_string(&self) -> (r: String)
        ensures
            r@ == fabric_text(*self),
    {
        let mut out = String::new();
        push_line(&mut out, "ID:       ", self.id.as_str());
        push_opt_line(&mut out, "Name:     ", &self.name);
        push_line(&mut out, "Version:  ", self.version.as_str());
        push_opt_line(&mut out, "About:    ", &self.description);
        push_opt_line(&mut out, "License:  ", &self.license);
        match &self.contact {
            Some(c) => {
                push_opt_line(&mut out, "Sources:  ", &c.sources);
                push_opt_line(&mut out, "Homepage: ", &c.homepage);
            },
            None => {},
        }
        let ghost head = out@;
        if self.depends.len() > 0 {
            push_str(&mut out, "Depends:\n");
            let ghost top = out@;
            let mut i: usize = 0;
            while i < self.depends.len()
                invariant
                    i <= self.depends@.len(),
                    out@ == top + depends_lines(self.depends@.take(i as int)),
                decreases self.depends@.len() - i,
            {
                proof {
                    assert(self.depends@.take(i + 1).drop_last() =~= self.depends@.take(i as int));
                }
                let (k, v) = &self.depends[i];
                let req = requirement_string(v);
                push_str(&mut out, "  - ");
                push_str(&mut out, k.as_str());
                push_str(&mut out, " (");
                push_str(&mut out, req.as_str());
                push_str(&mut out, ")\n");
                proof {
                    assert(out@ =~= top + depends_lines(self.depends@.take(i + 1)));
                }
                i = i + 1;
            }
            proof {
                assert(self.depends@.take(self.depends@.len() as int) =~= self.depends@);
            }
        }
        proof {
            assert(out@ =~= fabric_text(*self));
        }
        out
    }
}

} // verus!
