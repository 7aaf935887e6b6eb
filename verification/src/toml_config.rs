use vstd::prelude::*;

verus! {

use crate::document::{DocValue, doc_lookup, doc_get, toml_document_of, parse_toml};
use vstd::string::StringExecFns;
use crate::config::spec_config_path;

/// The checkout settings of the older TOML configuration layout.
#[derive(Debug)]
pub struct CheckoutConfig {
    pub default: Option<String>,
}

impl CheckoutConfig {
    pub open spec fn default_view(&self) -> Option<Seq<char>> {
        match self.default {
            Some(s) => Some(s@),
            None => None,
        }
    }
}

/// The documents that load from the given TOML texts, in order; a text that
/// does not parse is skipped, never fatal.
pub open spec fn spec_loaded_docs(texts: Seq<String>) -> Seq<DocValue>
    decreases texts.len(),
{
    if texts.len() == 0 {
        Seq::empty()
    } else {
        let rest = spec_loaded_docs(texts.drop_first());
        match toml_document_of(texts[0]@) {
            Some(d) => seq![d] + rest,
            None => rest,
        }
    }
}

/// Parses each text and keeps the documents that load.
#[verifier::loop_isolation(false)]
pub fn collapse_the_configs(texts: &Vec<String>) -> (r: Vec<DocValue>)
    ensures
        r@ == spec_loaded_docs(texts@),
{
    let mut out: Vec<DocValue> = Vec::new();
    proof {
        assert(texts@.skip(0) =~= texts@);
        assert(out@ + spec_loaded_docs(texts@) =~= spec_loaded_docs(texts@));
    }
    let mut i: usize = 0;
    while i < texts.len()
        invariant
            i <= texts@.len(),
            out@ + spec_loaded_docs(texts@.skip(i as int)) == spec_loaded_docs(texts@),
        decreases texts@.len() - i,
    {
        proof {
            assert(texts@.skip(i as int)[0] == texts@[i as int]);
            assert(texts@.skip(i as int).drop_first() =~= texts@.skip(i + 1));
        }
        match parse_toml(texts[i].as_str()) {
            Some(d) => {
                let ghost prior = out@;
                let ghost dv = d;
                out.push(d);
                proof {
                    assert(out@ =~= prior.push(dv));
                    assert(prior.push(dv) + spec_loaded_docs(texts@.skip(i + 1)) =~= prior + (
                    seq![dv] + spec_loaded_docs(texts@.skip(i + 1))));
                }
            },
            None => {},
        }
        i += 1;
    }
    proof {
        assert(texts@.skip(texts@.len() as int) =~= Seq::<String>::empty());
        assert(out@ + Seq::<DocValue>::empty() =~= out@);
    }
    out
}

/// The default checkout provider the home documents configure: the value of
/// `config.default` in the first home document, where it is a string.
pub open spec fn spec_checkout_default(docs: Seq<DocValue>) -> Option<Seq<char>> {
    if docs.len() == 0 {
        None
    } else {
        match docs[0] {
            DocValue::Table(pairs) => match doc_lookup(pairs@, "config"@) {
                Some(DocValue::Table(cpairs)) => match doc_lookup(cpairs@, "default"@) {
                    Some(DocValue::Str(s)) => Some(s@),
                    _ => None,
                },
                _ => None,
            },
            _ => None,
        }
    }
}

/// The project and home documents of the older TOML configuration layout.
#[derive(Debug)]
pub struct ConfigContainer {
    pub project_config: Vec<DocValue>,
    pub home_config: Vec<DocValue>,
}

impl ConfigContainer {
    /// Assembles the container from the document texts the cascade found.
    pub fn new(project_texts: &Vec<String>, home_texts: &Vec<String>) -> (r: Self)
        ensures
            r.project_config@ == spec_loaded_docs(project_texts@),
            r.home_config@ == spec_loaded_docs(home_texts@),
    {
        let project_config = collapse_the_configs(project_texts);
        let home_config = collapse_the_configs(home_texts);
        ConfigContainer { project_config, home_config }
    }

    /// Reads the configured default checkout provider out of the home
    /// documents; anything missing on the way leaves it unset.
    pub fn get_checkout_configs(&self) -> (r: CheckoutConfig)
        ensures
            r.default_view() == spec_checkout_default(self.home_config@),
    {
        if self.home_config.len() == 0 {
            return CheckoutConfig { default: None };
        }
        let pairs = match &self.home_config[0] {
            DocValue::Table(pairs) => pairs,
            _ => {
                return CheckoutConfig { default: None };
            },
        };
        let cpairs = match doc_get(pairs, "config") {
            Some(DocValue::Table(cpairs)) => cpairs,
            _ => {
                return CheckoutConfig { default: None };
            },
        };
        match doc_get(cpairs, "default") {
            Some(DocValue::Str(s)) => CheckoutConfig { default: Some(s.clone()) },
            _ => CheckoutConfig { default: None },
        }
    }
}

/// Picks the configuration file of one directory level in the TOML layout:
/// only the `inc.toml` name is recognized. The existence of the candidate is
/// handed in by the caller, which probes the file system.
pub fn config_file(prefix: &str, dir: &str, has_toml: bool) -> (r: Option<String>)
    ensures
        has_toml ==> (r matches Some(p) && p@ == spec_config_path(dir@, prefix@, "inc.toml"@)),
        !has_toml ==> r is None,
{
    proof {
        reveal_strlit("/");
    }
    if has_toml {
        let mut s: String = dir.to_owned();
        s.append("/");
        s.append(prefix);
        s.append("inc.toml");
        proof {
            assert(s@ =~= spec_config_path(dir@, prefix@, "inc.toml"@));
        }
        Some(s)
    } else {
        None
    }
}

} // verus!
