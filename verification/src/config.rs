//! The configuration: a root directory and the sources declared for it.

use vstd::prelude::*;
use vstd::string::StringExecFns;
use crate::error::{ErrorText, RingsideError};
use crate::resolution::law_resolution_settles;
use crate::source::{parse_source, resolved};
use crate::text::{opt_str_text, opt_text, own_opt, same_opt_text, same_text};

verus! {

/// The directory that holds configuration and lock table.
pub const RINGSIDE_DIR: &'static str = ".ringside";

/// The file that holds the configuration.
pub const CONFIG_FILE: &'static str = ".ringside/config.toml";

/// The file that holds the lock table.
pub const LOCK_FILE: &'static str = ".ringside/lock.toml";

/// A declared source: where it comes from, which part of it is wanted, at
/// which ref, and where under the root it goes.
#[derive(Debug, Clone, PartialEq, Eq)]
pub struct Source {
    pub url: String,
    pub path: Option<String>,
    pub dest: Option<String>,
    pub git_ref: Option<String>,
}

/// What a [`Source`] holds, as text.
pub struct SourceText {
    pub url: Seq<char>,
    pub path: Option<Seq<char>>,
    pub dest: Option<Seq<char>>,
    pub git_ref: Option<Seq<char>>,
}

impl View for Source {
    type V = SourceText;

    open spec fn view(&self) -> SourceText {
        SourceText {
            url: self.url@,
            path: opt_text(self.path),
            dest: opt_text(self.dest),
            git_ref: opt_text(self.git_ref),
        }
    }
}

/// The texts of a list of sources.
pub open spec fn source_texts(v: Seq<Source>) -> Seq<SourceText> {
    Seq::new(v.len(), |i: int| v[i]@)
}

/// The configuration.
#[derive(Debug, Clone, PartialEq, Eq)]
pub struct Config {
    pub root: String,
    pub sources: Vec<Source>,
}

/// What a [`Config`] holds, as text.
pub struct ConfigText {
    pub root: Seq<char>,
    pub sources: Seq<SourceText>,
}

impl View for Config {
    type V = ConfigText;

    open spec fn view(&self) -> ConfigText {
        ConfigText { root: self.root@, sources: source_texts(self.sources@) }
    }
}

/// The root that a configuration has where none is named.
pub open spec fn default_root() -> Seq<char> {
    ".agents"@
}

/// The list declares a source with this address and this destination. A
/// source is told from another by these two alone, and its address is what
/// the declared address resolves to, however it is written.
pub open spec fn declares(sources: Seq<SourceText>, url: Seq<char>, dest: Option<Seq<char>>) -> bool {
    exists|i: int|
        0 <= i < sources.len() && resolved((#[trigger] sources[i]).url).url == url
            && sources[i].dest == dest
}

/// The source that is declared where `input` is added with destination
/// `dest`: what the input resolves to, under that destination.
pub open spec fn declaration(input: Seq<char>, dest: Option<Seq<char>>) -> SourceText {
    let p = resolved(input);
    SourceText { url: p.url, path: p.path, dest, git_ref: p.git_ref }
}

impl Default for Config {
    /// The default root, and no sources.
    fn default() -> (r: Config)
        ensures
            r@ == (ConfigText { root: default_root(), sources: seq![] }),
    {
        let r = Config { root: String::from_str(".agents"), sources: Vec::new() };
        assert(source_texts(r.sources@) =~= seq![]);
        r
    }
}

impl Config {
    /// A configuration without sources, under `root` or, where none is
    /// named, under the default root.
    pub fn with_root(root: Option<&str>) -> (r: Config)
        ensures
            r@ == (ConfigText {
                root: match root {
                    Some(t) => t@,
                    None => default_root(),
                },
                sources: seq![],
            }),
    {
        let r = Config {
            root: match root {
                Some(t) => String::from_str(t),
                None => String::from_str(".agents"),
            },
            sources: Vec::new(),
        };
        assert(source_texts(r.sources@) =~= seq![]);
        r
    }

    /// Whether a source is declared whose address is the one that `input`
    /// resolves to, and whose destination is `dest`.
    pub fn holds(&self, input: &str, dest: Option<&str>) -> (r: bool)
        ensures
            r == declares(self@.sources, resolved(input@).url, opt_str_text(dest)),
    {
        let wanted = parse_source(input);
        let wanted_dest = own_opt(dest);
        let mut i: usize = 0;
        while i < self.sources.len()
            invariant
                i <= self.sources.len(),
                wanted@ == resolved(input@),
                opt_text(wanted_dest) == opt_str_text(dest),
                forall|k: int|
                    0 <= k < i ==> !(resolved((#[trigger] self@.sources[k]).url).url == resolved(
                        input@,
                    ).url && self@.sources[k].dest == opt_str_text(dest)),
            decreases self.sources.len() - i,
        {
            let declared = parse_source(self.sources[i].url.as_str());
            if same_text(declared.url.as_str(), wanted.url.as_str()) && same_opt_text(
                &self.sources[i].dest,
                &wanted_dest,
            ) {
                assert(resolved(self@.sources[i as int].url).url == resolved(input@).url);
                return true;
            }
            i += 1;
        }
        false
    }

    /// Declares the source that `input` resolves to, under destination
    /// `dest`. A source that is declared already, with an address that
    /// resolves to the same and with the same destination, is refused as a
    /// duplicate, and the configuration stays as it is.
    pub fn add(&mut self, input: &str, dest: Option<&str>) -> (r: Result<(), RingsideError>)
        ensures
            declares(old(self)@.sources, resolved(input@).url, opt_str_text(dest)) ==> {
                &&& r is Err
                &&& r->Err_0@ == ErrorText::DuplicateSource
                &&& final(self)@ == old(self)@
            },
            !declares(old(self)@.sources, resolved(input@).url, opt_str_text(dest)) ==> {
                &&& r is Ok
                &&& final(self)@.root == old(self)@.root
                &&& final(self)@.sources == old(self)@.sources.push(
                    declaration(input@, opt_str_text(dest)),
                )
                &&& declares(final(self)@.sources, resolved(input@).url, opt_str_text(dest))
            },
    {
        if self.holds(input, dest) {
            return Err(RingsideError::DuplicateSource);
        }
        let parsed = parse_source(input);
        let source = Source {
            url: parsed.url,
            path: parsed.path,
            dest: own_opt(dest),
            git_ref: parsed.git_ref,
        };
        self.sources.push(source);
        proof {
            let added = declaration(input@, opt_str_text(dest));
            assert(source_texts(self.sources@) =~= source_texts(old(self).sources@).push(added));
            law_resolution_settles(input@);
            assert(self@.sources[old(self).sources@.len() as int] == added);
        }
        Ok(())
    }
}

/// Declaring a source changes nothing for any other pair of address and
/// destination: one that was not declared is not declared afterwards, so
/// the same address may be declared again under another destination.
pub proof fn law_destinations_tell_sources_apart(
    sources: Seq<SourceText>,
    added: SourceText,
    url: Seq<char>,
    dest: Option<Seq<char>>,
)
    requires
        !(resolved(added.url).url == url && added.dest == dest),
    ensures
        declares(sources.push(added), url, dest) == declares(sources, url, dest),
        declares(sources.push(added), resolved(added.url).url, added.dest),
{
    let after = sources.push(added);
    assert(after[sources.len() as int] == added);
    if declares(sources, url, dest) {
        let i = choose|i: int|
            0 <= i < sources.len() && resolved((#[trigger] sources[i]).url).url == url
                && sources[i].dest == dest;
        assert(after[i] == sources[i]);
    }
    if declares(after, url, dest) {
        let i = choose|i: int|
            0 <= i < after.len() && resolved((#[trigger] after[i]).url).url == url && after[i].dest
                == dest;
        assert(after[i] == sources[i]);
    }
}

} // verus!
