use vstd::prelude::*;

verus! {

use crate::document::{DocValue, doc_lookup, doc_get, yaml_document_of};
use crate::kvlist::{kv_map, kv_distinct, kv_insert_if_absent, lemma_kv_map_domain};

/// The home-level checkout settings: which checkout service to use when the
/// command line names none.
#[derive(Debug)]
pub struct CheckoutConfigs {
    pub default_provider: Option<String>,
}

/// The single home-level configuration.
#[derive(Debug)]
pub struct HomeConfig {
    pub checkout: CheckoutConfigs,
}

impl HomeConfig {
    /// The configured default provider, as a value.
    pub open spec fn provider_view(&self) -> Option<Seq<char>> {
        match self.checkout.default_provider {
            Some(s) => Some(s@),
            None => None,
        }
    }

    /// Copies the configuration, keeping its value.
    pub fn duplicate(&self) -> (r: Self)
        ensures
            r.provider_view() == self.provider_view(),
    {
        HomeConfig {
            checkout: CheckoutConfigs {
                default_provider: match &self.checkout.default_provider {
                    Some(s) => Some(s.clone()),
                    None => None,
                },
            },
        }
    }
}

impl Default for HomeConfig {
    /// The fallback used when no home configuration file exists or none
    /// parses: no default provider is configured.
    fn default() -> (r: Self)
        ensures
            r.provider_view() is None,
    {
        HomeConfig { checkout: CheckoutConfigs { default_provider: None } }
    }
}

/// One named command: its shell steps in order, whether failing steps are
/// ignored, and a human-readable description.
#[derive(Debug, PartialEq)]
pub struct ExecCommandConfig {
    pub commands: Vec<String>,
    pub ignore_failures: bool,
    pub description: String,
}

/// The value of an `ExecCommandConfig`.
pub ghost struct ExecCommandModel {
    pub commands: Seq<Seq<char>>,
    pub ignore_failures: bool,
    pub description: Seq<char>,
}

impl DeepView for ExecCommandConfig {
    type V = ExecCommandModel;

    open spec fn deep_view(&self) -> ExecCommandModel {
        ExecCommandModel {
            commands: self.commands.deep_view(),
            ignore_failures: self.ignore_failures,
            description: self.description@,
        }
    }
}

impl ExecCommandConfig {
    /// Copies the command configuration, keeping its value.
    pub fn duplicate(&self) -> (r: Self)
        ensures
            r.deep_view() == self.deep_view(),
    {
        let mut commands: Vec<String> = Vec::new();
        let mut i: usize = 0;
        while i < self.commands.len()
            invariant
                i <= self.commands@.len(),
                commands@.len() == i,
                forall|j: int| 0 <= j < i ==> commands@[j]@ == self.commands@[j]@,
            decreases self.commands@.len() - i,
        {
            commands.push(self.commands[i].clone());
            i += 1;
        }
        let r = ExecCommandConfig {
            commands,
            ignore_failures: self.ignore_failures,
            description: self.description.clone(),
        };
        proof {
            assert(r.deep_view().commands =~= self.deep_view().commands);
        }
        r
    }
}

/// The commands of one project configuration document, each name bound once.
#[derive(Debug)]
pub struct ProjectConfig {
    pub commands: Vec<(String, ExecCommandConfig)>,
}

impl ProjectConfig {
    pub open spec fn wf(&self) -> bool {
        kv_distinct(self.commands@)
    }

    /// The command table this document defines.
    pub open spec fn table(&self) -> Map<Seq<char>, ExecCommandModel> {
        kv_map(self.commands@)
    }
}

/// The merged command table of the whole cascade.
#[derive(Debug)]
pub struct ExecConfig {
    pub commands: Vec<(String, ExecCommandConfig)>,
}

impl ExecConfig {
    pub open spec fn wf(&self) -> bool {
        kv_distinct(self.commands@)
    }

    pub open spec fn table(&self) -> Map<Seq<char>, ExecCommandModel> {
        kv_map(self.commands@)
    }

    /// Looks a command up by name.
    pub fn get<'a>(&'a self, name: &str) -> (r: Option<&'a ExecCommandConfig>)
        requires
            self.wf(),
        ensures
            match r {
                Some(c) => self.table().contains_key(name@) && c.deep_view() == self.table()[
                    name@],
                None => !self.table().contains_key(name@),
            },
    {
        crate::kvlist::kv_get(&self.commands, name)
    }
}

pub open spec fn spec_default_description() -> Seq<char> {
    "No Description Provided"@
}

/// The description a command gets when its document names none.
pub fn default_description() -> (r: String)
    ensures
        r@ == spec_default_description(),
{
    "No Description Provided".to_owned()
}

/// Whether failing steps are ignored when a document does not say.
pub fn default_ignore_failures() -> (r: bool)
    ensures
        r == false,
{
    false
}

/// The step strings of a `commands` list, where every item is a string.
pub open spec fn spec_str_items(items: Seq<DocValue>) -> Option<Seq<Seq<char>>>
    decreases items.len(),
{
    if items.len() == 0 {
        Some(Seq::empty())
    } else {
        match items[0] {
            DocValue::Str(s) => match spec_str_items(items.drop_first()) {
                Some(rest) => Some(seq![s@] + rest),
                None => None,
            },
            _ => None,
        }
    }
}

/// The normalized steps of a `commands` value: a single string becomes the
/// one-step sequence, a non-empty list of strings becomes those steps in
/// order, and anything else is rejected.
pub open spec fn spec_steps_of(v: DocValue) -> Option<Seq<Seq<char>>> {
    match v {
        DocValue::Str(s) => Some(seq![s@]),
        DocValue::List(items) => match spec_str_items(items@) {
            Some(steps) => if steps.len() > 0 {
                Some(steps)
            } else {
                None
            },
            None => None,
        },
        _ => None,
    }
}

/// A `commands` value written as one string and one written as the list
/// holding that string normalize to the same single step.
pub proof fn lemma_commands_normalization(single: DocValue, listed: DocValue, s: String)
    requires
        single == DocValue::Str(s),
        listed matches DocValue::List(items) && items@ == seq![DocValue::Str(s)],
    ensures
        spec_steps_of(single) == Some(seq![s@]),
        spec_steps_of(listed) == spec_steps_of(single),
{
    let items = choose|items: Vec<DocValue>|
        listed == DocValue::List(items) && items@ == seq![DocValue::Str(s)];
    assert(items@[0] == DocValue::Str(s));
    assert(items@.drop_first() =~= Seq::<DocValue>::empty());
    assert(spec_str_items(Seq::<DocValue>::empty()) == Some(Seq::<Seq<char>>::empty()));
    assert(spec_str_items(items@) == Some(seq![s@] + Seq::<Seq<char>>::empty()));
    assert(seq![s@] + Seq::<Seq<char>>::empty() =~= seq![s@]);
}

/// Normalizes a `commands` value into its steps.
#[verifier::loop_isolation(false)]
pub fn steps_from_doc(v: &DocValue) -> (r: Option<Vec<String>>)
    ensures
        match r {
            Some(steps) => spec_steps_of(*v) == Some(steps.deep_view()),
            None => spec_steps_of(*v) is None,
        },
{
    match v {
        DocValue::Str(s) => {
            let mut steps: Vec<String> = Vec::new();
            steps.push(s.clone());
            proof {
                assert(steps.deep_view() =~= seq![s@]);
            }
            Some(steps)
        },
        DocValue::List(items) => {
            let mut steps: Vec<String> = Vec::new();
            proof {
                assert(items@.skip(0) =~= items@);
                assert(steps.deep_view() =~= Seq::<Seq<char>>::empty());
                if spec_str_items(items@) is Some {
                    let rest = spec_str_items(items@).unwrap();
                    assert(steps.deep_view() + rest =~= rest);
                }
            }
            let mut i: usize = 0;
            while i < items.len()
                invariant
                    i <= items@.len(),
                    steps.deep_view().len() == i,
                    match spec_str_items(items@.skip(i as int)) {
                        Some(rest) => spec_str_items(items@) == Some(steps.deep_view() + rest),
                        None => spec_str_items(items@) is None,
                    },
                decreases items@.len() - i,
            {
                proof {
                    assert(items@.skip(i as int)[0] == items@[i as int]);
                    assert(items@.skip(i as int).drop_first() =~= items@.skip(i + 1));
                }
                match &items[i] {
                    DocValue::Str(s) => {
                        let ghost prev = steps.deep_view();
                        steps.push(s.clone());
                        proof {
                            assert(steps.deep_view() =~= prev.push(s@));
                            if spec_str_items(items@.skip(i + 1)) is Some {
                                let rest = spec_str_items(items@.skip(i + 1)).unwrap();
                                assert(prev + (seq![s@] + rest) =~= prev.push(s@) + rest);
                            }
                        }
                    },
                    _ => {
                        return None;
                    },
                }
                i += 1;
            }
            proof {
                assert(items@.skip(items@.len() as int) =~= Seq::<DocValue>::empty());
                assert(steps.deep_view() + Seq::<Seq<char>>::empty() =~= steps.deep_view());
            }
            if steps.len() == 0 {
                None
            } else {
                Some(steps)
            }
        },
        _ => None,
    }
}

/// The command configuration a document value describes: a table whose
/// `commands` entry normalizes to steps, whose `ignore_failures` entry, if
/// any, is a boolean defaulting to false, and whose `description` entry, if
/// any, is a string with a fixed fallback.
pub open spec fn spec_exec_command_of(v: DocValue) -> Option<ExecCommandModel> {
    match v {
        DocValue::Table(pairs) => match doc_lookup(pairs@, "commands"@) {
            Some(cv) => match spec_steps_of(cv) {
                Some(steps) => {
                    let ig = match doc_lookup(pairs@, "ignore_failures"@) {
                        None => Some(false),
                        Some(DocValue::Bool(b)) => Some(b),
                        Some(_) => None,
                    };
                    let de = match doc_lookup(pairs@, "description"@) {
                        None => Some(spec_default_description()),
                        Some(DocValue::Str(s)) => Some(s@),
                        Some(_) => None,
                    };
                    match (ig, de) {
                        (Some(ignore_failures), Some(description)) => Some(
                            ExecCommandModel { commands: steps, ignore_failures, description },
                        ),
                        _ => None,
                    }
                },
                None => None,
            },
            None => None,
        },
        _ => None,
    }
}

/// Reads one command's configuration out of a document value.
pub fn exec_command_from_doc(v: &DocValue) -> (r: Option<ExecCommandConfig>)
    ensures
        match r {
            Some(c) => spec_exec_command_of(*v) == Some(c.deep_view()),
            None => spec_exec_command_of(*v) is None,
        },
{
    match v {
        DocValue::Table(pairs) => {
            let cv = match doc_get(pairs, "commands") {
                Some(cv) => cv,
                None => {
                    return None;
                },
            };
            let steps = match steps_from_doc(cv) {
                Some(steps) => steps,
                None => {
                    return None;
                },
            };
            let ignore_failures = match doc_get(pairs, "ignore_failures") {
                None => default_ignore_failures(),
                Some(DocValue::Bool(b)) => *b,
                Some(_) => {
                    return None;
                },
            };
            let description = match doc_get(pairs, "description") {
                None => default_description(),
                Some(DocValue::Str(s)) => s.clone(),
                Some(_) => {
                    return None;
                },
            };
            Some(ExecCommandConfig { commands: steps, ignore_failures, description })
        },
        _ => None,
    }
}

/// The named commands of an `exec` table, in document order. A name that is
/// not a string, an entry that does not parse, or a name bound twice within
/// the one document rejects the whole document.
pub open spec fn spec_command_entries(pairs: Seq<(DocValue, DocValue)>) -> Option<
    Seq<(Seq<char>, ExecCommandModel)>,
>
    decreases pairs.len(),
{
    if pairs.len() == 0 {
        Some(Seq::empty())
    } else {
        match spec_command_entries(pairs.drop_last()) {
            Some(init) => match pairs.last().0 {
                DocValue::Str(k) => match spec_exec_command_of(pairs.last().1) {
                    Some(m) => if exists|j: int| 0 <= j < init.len() && init[j].0 == k@ {
                        None
                    } else {
                        Some(init.push((k@, m)))
                    },
                    None => None,
                },
                _ => None,
            },
            None => None,
        }
    }
}

/// The project configuration a document describes: a table whose `exec` entry
/// holds the named commands.
pub open spec fn spec_project_entries_of(v: DocValue) -> Option<
    Seq<(Seq<char>, ExecCommandModel)>,
> {
    match v {
        DocValue::Table(pairs) => match doc_lookup(pairs@, "exec"@) {
            Some(DocValue::Table(cmds)) => spec_command_entries(cmds@),
            _ => None,
        },
        _ => None,
    }
}

/// The values of a command list's entries.
pub open spec fn entries_of(commands: Seq<(String, ExecCommandConfig)>) -> Seq<
    (Seq<char>, ExecCommandModel),
> {
    commands.map_values(|p: (String, ExecCommandConfig)| (p.0@, p.1.deep_view()))
}

/// Once a prefix of the table rejects, the whole table rejects.
proof fn lemma_command_entries_extend_none(pairs: Seq<(DocValue, DocValue)>, j: int)
    requires
        0 <= j <= pairs.len(),
        spec_command_entries(pairs.take(j)) is None,
    ensures
        spec_command_entries(pairs) is None,
    decreases pairs.len() - j,
{
    if j < pairs.len() {
        assert(pairs.take(j + 1).drop_last() =~= pairs.take(j));
        lemma_command_entries_extend_none(pairs, j + 1);
    } else {
        assert(pairs.take(j) =~= pairs);
    }
}

/// Reads a whole project configuration out of a document value.
#[verifier::loop_isolation(false)]
pub fn project_config_from_doc(v: &DocValue) -> (r: Option<ProjectConfig>)
    ensures
        match r {
            Some(pc) => pc.wf() && spec_project_entries_of(*v) == Some(entries_of(pc.commands@)),
            None => spec_project_entries_of(*v) is None,
        },
{
    let pairs = match v {
        DocValue::Table(pairs) => pairs,
        _ => {
            return None;
        },
    };
    let cmds = match doc_get(pairs, "exec") {
        Some(DocValue::Table(cmds)) => cmds,
        _ => {
            return None;
        },
    };
    let mut out: Vec<(String, ExecCommandConfig)> = Vec::new();
    proof {
        assert(cmds@.take(0) =~= Seq::<(DocValue, DocValue)>::empty());
        assert(entries_of(out@) =~= Seq::<(Seq<char>, ExecCommandModel)>::empty());
    }
    let mut i: usize = 0;
    while i < cmds.len()
        invariant
            i <= cmds@.len(),
            kv_distinct(out@),
            spec_command_entries(cmds@.take(i as int)) == Some(entries_of(out@)),
        decreases cmds@.len() - i,
    {
        proof {
            assert(cmds@.take(i + 1).drop_last() =~= cmds@.take(i as int));
            assert(cmds@.take(i + 1).last() == cmds@[i as int]);
        }
        let name = match &cmds[i].0 {
            DocValue::Str(k) => k,
            _ => {
                proof {
                    lemma_command_entries_extend_none(cmds@, i + 1);
                }
                return None;
            },
        };
        let cfg = match exec_command_from_doc(&cmds[i].1) {
            Some(c) => c,
            None => {
                proof {
                    lemma_command_entries_extend_none(cmds@, i + 1);
                }
                return None;
            },
        };
        let ghost init = entries_of(out@);
        proof {
            crate::kvlist::lemma_kv_map_domain(out@, name@);
            assert(forall|j: int| 0 <= j < init.len() ==> init[j].0 == out@[j].0@);
        }
        if crate::kvlist::kv_contains_key(&out, name.as_str()) {
            proof {
                let idx = choose|idx: int| 0 <= idx < out@.len() && out@[idx].0@ == name@;
                assert(init[idx].0 == name@);
                lemma_command_entries_extend_none(cmds@, i + 1);
            }
            return None;
        }
        let ghost prev = out@;
        out.push((name.clone(), cfg));
        proof {
            assert forall|a: int, b: int|
                0 <= a < b < out@.len() implies out@[a].0@ != out@[b].0@ by {
                if b == out@.len() - 1 {
                    assert(prev[a].0@ != name@);
                }
            }
            assert(entries_of(out@) =~= init.push((name@, cfg.deep_view())));
        }
        i += 1;
    }
    proof {
        assert(cmds@.take(cmds@.len() as int) =~= cmds@);
    }
    Some(ProjectConfig { commands: out })
}

/// The home configuration a document describes: a table whose `checkout`
/// entry is a table, holding an optional string `default-provider`.
pub open spec fn spec_home_config_of(v: DocValue) -> Option<Option<Seq<char>>> {
    match v {
        DocValue::Table(pairs) => match doc_lookup(pairs@, "checkout"@) {
            Some(DocValue::Table(cpairs)) => match doc_lookup(cpairs@, "default-provider"@) {
                Some(DocValue::Str(s)) => Some(Some(s@)),
                Some(DocValue::Null) => Some(None),
                None => Some(None),
                Some(_) => None,
            },
            _ => None,
        },
        _ => None,
    }
}

/// Reads the home configuration out of a document value.
pub fn home_config_from_doc(v: &DocValue) -> (r: Option<HomeConfig>)
    ensures
        match r {
            Some(h) => spec_home_config_of(*v) == Some(h.provider_view()),
            None => spec_home_config_of(*v) is None,
        },
{
    let pairs = match v {
        DocValue::Table(pairs) => pairs,
        _ => {
            return None;
        },
    };
    let cpairs = match doc_get(pairs, "checkout") {
        Some(DocValue::Table(cpairs)) => cpairs,
        _ => {
            return None;
        },
    };
    match doc_get(cpairs, "default-provider") {
        Some(DocValue::Str(s)) => Some(
            HomeConfig { checkout: CheckoutConfigs { default_provider: Some(s.clone()) } },
        ),
        Some(DocValue::Null) => Some(
            HomeConfig { checkout: CheckoutConfigs { default_provider: None } },
        ),
        None => Some(HomeConfig { checkout: CheckoutConfigs { default_provider: None } }),
        Some(_) => None,
    }
}

/// Loads one project configuration from its document text; anything that
/// does not parse as YAML or does not describe a project configuration is
/// rejected.
pub fn load_project_config(text: &str) -> (r: Option<ProjectConfig>)
    ensures
        match r {
            Some(pc) => pc.wf() && (yaml_document_of(text@) matches Some(d)
                && spec_project_entries_of(d) == Some(entries_of(pc.commands@))),
            None => match yaml_document_of(text@) {
                Some(d) => spec_project_entries_of(d) is None,
                None => true,
            },
        },
{
    match crate::document::parse_yaml(text) {
        Some(d) => project_config_from_doc(&d),
        None => None,
    }
}

pub open spec fn all_wf(configs: Seq<ProjectConfig>) -> bool {
    forall|i: int| 0 <= i < configs.len() ==> (#[trigger] configs[i]).wf()
}

pub open spec fn models_of(configs: Seq<ProjectConfig>) -> Seq<
    Seq<(Seq<char>, ExecCommandModel)>,
> {
    configs.map_values(|c: ProjectConfig| entries_of(c.commands@))
}

/// The configurations that load from the given document texts, in the given
/// order. A text that does not parse as YAML or does not describe a project
/// configuration is skipped, never fatal.
pub open spec fn spec_loaded_projects(texts: Seq<String>) -> Seq<
    Seq<(Seq<char>, ExecCommandModel)>,
>
    decreases texts.len(),
{
    if texts.len() == 0 {
        Seq::empty()
    } else {
        let rest = spec_loaded_projects(texts.drop_first());
        match yaml_document_of(texts[0]@) {
            Some(d) => match spec_project_entries_of(d) {
                Some(e) => seq![e] + rest,
                None => rest,
            },
            None => rest,
        }
    }
}

/// The provider the given home document text configures, where one loads;
/// an absent or unusable home file leaves the provider unset.
pub open spec fn spec_loaded_home_provider(text: Option<Seq<char>>) -> Option<Seq<char>> {
    match text {
        Some(t) => match yaml_document_of(t) {
            Some(d) => match spec_home_config_of(d) {
                Some(p) => p,
                None => None,
            },
            None => None,
        },
        None => None,
    }
}

/// The command table the whole cascade defines: a name already bound by a
/// closer configuration is never overwritten by one found further up.
pub open spec fn merged_table(configs: Seq<ProjectConfig>) -> Map<Seq<char>, ExecCommandModel>
    decreases configs.len(),
{
    if configs.len() == 0 {
        Map::empty()
    } else {
        merged_table(configs.drop_first()).union_prefer_right(configs[0].table())
    }
}

/// The merged table's entry for a name is exactly the entry of the closest
/// configuration that defines it.
pub proof fn lemma_cascade_precedence(configs: Seq<ProjectConfig>, i: int, name: Seq<char>)
    requires
        0 <= i < configs.len(),
        configs[i].table().contains_key(name),
        forall|j: int| 0 <= j < i ==> !(#[trigger] configs[j]).table().contains_key(name),
    ensures
        merged_table(configs).contains_key(name),
        merged_table(configs)[name] == configs[i].table()[name],
    decreases configs.len(),
{
    if i == 0 {
    } else {
        assert(!configs[0].table().contains_key(name));
        let rest = configs.drop_first();
        assert(rest[i - 1] == configs[i]);
        assert forall|j: int| 0 <= j < i - 1 implies !(#[trigger] rest[j]).table().contains_key(
            name,
        ) by {
            assert(rest[j] == configs[j + 1]);
        }
        lemma_cascade_precedence(rest, i - 1, name);
    }
}

/// The project configurations found walking up from the working directory,
/// closest first, and the single home configuration.
#[derive(Debug)]
pub struct ConfigContainer {
    pub project_config: Vec<ProjectConfig>,
    pub home_config: HomeConfig,
}

impl ConfigContainer {
    pub open spec fn wf(&self) -> bool {
        all_wf(self.project_config@)
    }

    /// Assembles the container from the document texts the cascade found:
    /// the project texts closest first, and the home text where a home file
    /// exists. Texts that do not load are skipped; a missing or unusable
    /// home file falls back to the default home configuration.
    #[verifier::loop_isolation(false)]
    pub fn new(project_texts: &Vec<String>, home_text: &Option<String>) -> (r: Self)
        ensures
            r.wf(),
            models_of(r.project_config@) == spec_loaded_projects(project_texts@),
            r.home_config.provider_view() == spec_loaded_home_provider(
                match *home_text {
                    Some(t) => Some(t@),
                    None => None,
                },
            ),
    {
        let mut configs: Vec<ProjectConfig> = Vec::new();
        proof {
            assert(project_texts@.skip(0) =~= project_texts@);
            assert(models_of(configs@) =~= Seq::<Seq<(Seq<char>, ExecCommandModel)>>::empty());
        }
        let mut i: usize = 0;
        while i < project_texts.len()
            invariant
                i <= project_texts@.len(),
                all_wf(configs@),
                models_of(configs@) + spec_loaded_projects(project_texts@.skip(i as int))
                    == spec_loaded_projects(project_texts@),
            decreases project_texts@.len() - i,
        {
            proof {
                assert(project_texts@.skip(i as int)[0] == project_texts@[i as int]);
                assert(project_texts@.skip(i as int).drop_first() =~= project_texts@.skip(i + 1));
            }
            match crate::document::parse_yaml(project_texts[i].as_str()) {
                Some(d) => match project_config_from_doc(&d) {
                    Some(pc) => {
                        let ghost prior = configs@;
                        let ghost e = entries_of(pc.commands@);
                        configs.push(pc);
                        proof {
                            assert(models_of(configs@) =~= models_of(prior) + seq![e]);
                            assert((models_of(prior) + seq![e]) + spec_loaded_projects(
                                project_texts@.skip(i + 1)) =~= models_of(prior) + (seq![e]
                                + spec_loaded_projects(project_texts@.skip(i + 1))));
                            assert forall|k: int| 0 <= k < configs@.len() implies (
                            #[trigger] configs@[k]).wf() by {
                                if k < configs@.len() - 1 {
                                    assert(configs@[k] == prior[k]);
                                }
                            }
                        }
                    },
                    None => {},
                },
                None => {},
            }
            i += 1;
        }
        proof {
            assert(project_texts@.skip(project_texts@.len() as int) =~= Seq::<String>::empty());
            assert(models_of(configs@) + Seq::<Seq<(Seq<char>, ExecCommandModel)>>::empty()
                =~= models_of(configs@));
        }
        let home_config = match home_text {
            Some(t) => match crate::document::parse_yaml(t.as_str()) {
                Some(d) => match home_config_from_doc(&d) {
                    Some(h) => h,
                    None => HomeConfig::default(),
                },
                None => HomeConfig::default(),
            },
            None => HomeConfig::default(),
        };
        ConfigContainer { project_config: configs, home_config }
    }

    /// Folds the discovered configurations into one command table; the first
    /// writer of a name wins.
    #[verifier::loop_isolation(false)]
    pub fn get_exec_configs(&self) -> (r: ExecConfig)
        requires
            self.wf(),
        ensures
            r.wf(),
            r.table() == merged_table(self.project_config@),
    {
        let ghost all = self.project_config@;
        let mut out: Vec<(String, ExecCommandConfig)> = Vec::new();
        proof {
            assert(all.skip(0) =~= all);
            assert(merged_table(all).union_prefer_right(kv_map(out@)) =~= merged_table(all));
        }
        let mut i: usize = 0;
        while i < self.project_config.len()
            invariant
                i <= all.len(),
                kv_distinct(out@),
                merged_table(all) == merged_table(all.skip(i as int)).union_prefer_right(
                    kv_map(out@)),
            decreases all.len() - i,
        {
            proof {
                assert(all.skip(i as int)[0] == all[i as int]);
                assert(all.skip(i as int).drop_first() =~= all.skip(i + 1));
            }
            let config = &self.project_config[i];
            let ghost acc0 = kv_map(out@);
            let ghost entries = config.commands@;
            proof {
                assert(config.wf());
                assert(entries.take(0) =~= Seq::<(String, ExecCommandConfig)>::empty());
                assert(kv_map(entries.take(0)).union_prefer_right(acc0) =~= acc0);
            }
            let mut j: usize = 0;
            while j < config.commands.len()
                invariant
                    j <= entries.len(),
                    kv_distinct(out@),
                    kv_map(out@) == kv_map(entries.take(j as int)).union_prefer_right(acc0),
                decreases entries.len() - j,
            {
                let ghost k = entries[j as int].0@;
                let ghost vmodel = entries[j as int].1.deep_view();
                let ghost before = kv_map(out@);
                proof {
                    assert(entries.take(j + 1).drop_last() =~= entries.take(j as int));
                    assert(entries.take(j + 1).last() == entries[j as int]);
                    lemma_kv_map_domain(out@, k);
                    lemma_kv_map_domain(entries.take(j as int), k);
                    assert(forall|a: int| 0 <= a < j ==> entries.take(j as int)[a]
                        == entries[a]);
                    assert(!kv_map(entries.take(j as int)).contains_key(k));
                }
                let pair = &config.commands[j];
                kv_insert_if_absent(&mut out, pair.0.clone(), pair.1.duplicate());
                proof {
                    if before.contains_key(k) {
                        assert(acc0.contains_key(k));
                        assert(kv_map(out@) =~= kv_map(entries.take(j + 1)).union_prefer_right(
                            acc0));
                    } else {
                        assert(!acc0.contains_key(k));
                        assert(kv_map(out@) =~= kv_map(entries.take(j + 1)).union_prefer_right(
                            acc0));
                    }
                }
                j += 1;
            }
            proof {
                assert(entries.take(entries.len() as int) =~= entries);
                assert(merged_table(all.skip(i as int)) == merged_table(all.skip(i + 1))
                    .union_prefer_right(all[i as int].table()));
                assert(merged_table(all.skip(i + 1)).union_prefer_right(
                    all[i as int].table().union_prefer_right(acc0)) =~= merged_table(
                    all.skip(i as int)).union_prefer_right(acc0));
            }
            i += 1;
        }
        proof {
            assert(all.skip(all.len() as int) =~= Seq::<ProjectConfig>::empty());
            assert(merged_table(Seq::<ProjectConfig>::empty()).union_prefer_right(kv_map(out@))
                =~= kv_map(out@));
        }
        ExecConfig { commands: out }
    }

    /// Hands the single home configuration out.
    pub fn get_home_configs(&self) -> (r: HomeConfig)
        ensures
            r.provider_view() == self.home_config.provider_view(),
    {
        self.home_config.duplicate()
    }
}

pub open spec fn spec_config_path(dir: Seq<char>, prefix: Seq<char>, file: Seq<char>) -> Seq<
    char,
> {
    dir + seq!['/'] + prefix + file
}

/// Picks the configuration file of one directory level: the `.yaml` name is
/// preferred, the `.yml` name taken where only it exists, and nothing is
/// found otherwise. The existence of each candidate is handed in by the
/// caller, which probes the file system.
pub fn config_file(prefix: &str, dir: &str, has_yaml: bool, has_yml: bool) -> (r: Option<String>)
    ensures
        has_yaml ==> (r matches Some(p) && p@ == spec_config_path(dir@, prefix@, "inc.yaml"@)),
        !has_yaml && has_yml ==> (r matches Some(p) && p@ == spec_config_path(
            dir@, prefix@, "inc.yml"@)),
        !has_yaml && !has_yml ==> r is None,
{
    proof {
        reveal_strlit("/");
    }
    if has_yaml {
        let mut s: String = dir.to_owned();
        s.append("/");
        s.append(prefix);
        s.append("inc.yaml");
        proof {
            assert(s@ =~= spec_config_path(dir@, prefix@, "inc.yaml"@));
        }
        Some(s)
    } else if has_yml {
        let mut s: String = dir.to_owned();
        s.append("/");
        s.append(prefix);
        s.append("inc.yml");
        proof {
            assert(s@ =~= spec_config_path(dir@, prefix@, "inc.yml"@));
        }
        Some(s)
    } else {
        None
    }
}

/// What the caller found probing one directory level for configuration files.
#[derive(Debug)]
pub struct DirProbe {
    pub dir: String,
    pub has_yaml: bool,
    pub has_yml: bool,
}

/// The configuration paths of the probed levels, closest first: per level the
/// `.yaml` name where it exists, else the `.yml` name, else nothing.
pub open spec fn spec_discovered(levels: Seq<DirProbe>) -> Seq<Seq<char>>
    decreases levels.len(),
{
    if levels.len() == 0 {
        Seq::empty()
    } else {
        let rest = spec_discovered(levels.drop_first());
        if levels[0].has_yaml {
            seq![spec_config_path(levels[0].dir@, Seq::empty(), "inc.yaml"@)] + rest
        } else if levels[0].has_yml {
            seq![spec_config_path(levels[0].dir@, Seq::empty(), "inc.yml"@)] + rest
        } else {
            rest
        }
    }
}

/// Collects the configuration paths of the levels walked from the working
/// directory to the root, closest first.
#[verifier::loop_isolation(false)]
pub fn discover_project_configs(levels: &Vec<DirProbe>) -> (r: Vec<String>)
    ensures
        r.deep_view() == spec_discovered(levels@),
{
    let mut out: Vec<String> = Vec::new();
    proof {
        reveal_strlit("");
        assert(levels@.skip(0) =~= levels@);
        assert(out.deep_view() =~= Seq::<Seq<char>>::empty());
        assert(out.deep_view() + spec_discovered(levels@) =~= spec_discovered(levels@));
    }
    let mut i: usize = 0;
    while i < levels.len()
        invariant
            i <= levels@.len(),
            out.deep_view() + spec_discovered(levels@.skip(i as int)) == spec_discovered(
                levels@),
        decreases levels@.len() - i,
    {
        proof {
            assert(levels@.skip(i as int)[0] == levels@[i as int]);
            assert(levels@.skip(i as int).drop_first() =~= levels@.skip(i + 1));
        }
        let level = &levels[i];
        match config_file("", level.dir.as_str(), level.has_yaml, level.has_yml) {
            Some(p) => {
                let ghost prior = out.deep_view();
                let ghost pv = p@;
                out.push(p);
                proof {
                    assert(""@ =~= Seq::<char>::empty());
                    assert(out.deep_view() =~= prior.push(pv));
                    assert((prior.push(pv)) + spec_discovered(levels@.skip(i + 1)) =~= prior + (
                    seq![pv] + spec_discovered(levels@.skip(i + 1))));
                }
            },
            None => {},
        }
        i += 1;
    }
    proof {
        assert(levels@.skip(levels@.len() as int) =~= Seq::<DirProbe>::empty());
        assert(out.deep_view() + Seq::<Seq<char>>::empty() =~= out.deep_view());
    }
    out
}

} // verus!
