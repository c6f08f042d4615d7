//! Remote definitions: what is kept of a request, what is written to the
//! configuration file for a definition, and what is read back from it.
//!
//! Passwords are stored obscured. Obscuring and revealing are done by the
//! transfer tool; this module says when they are asked for and what is done
//! with the answer.

use vstd::prelude::*;
use vstd::string::*;
use crate::models::{ConfigRequest, RcloneConfig};
use crate::strings::str_eq;

verus! {

/// The remote definitions that are held in memory, each name once, in the
/// order in which the names came.
pub struct ConfigManager {
    memory_configs: Vec<RcloneConfig>,
    use_memory_only: bool,
}

/// The characters of an optional text.
pub open spec fn opt_text(value: Option<String>) -> Option<Seq<char>> {
    match value {
        Some(s) => Some(s@),
        None => None,
    }
}

/// The password of `value` where it is set and not empty.
pub open spec fn usable_password(value: Option<String>) -> Option<Seq<char>> {
    match value {
        Some(p) => if p@.len() > 0 {
            Some(p@)
        } else {
            None
        },
        None => None,
    }
}

/// The names and values of `fields`.
pub open spec fn pairs(fields: Seq<(String, String)>) -> Seq<(Seq<char>, Seq<char>)> {
    Seq::new(fields.len(), |i: int| (fields[i].0@, fields[i].1@))
}

/// The further settings of a request; none where it has none.
pub open spec fn request_fields(fields: Option<Vec<(String, String)>>) -> Seq<(Seq<char>, Seq<char>)> {
    match fields {
        Some(f) => pairs(f@),
        None => Seq::empty(),
    }
}

/// Two definitions say the same.
pub open spec fn same_config(a: RcloneConfig, b: RcloneConfig) -> bool {
    &&& a.name@ == b.name@
    &&& a.config_type@ == b.config_type@
    &&& opt_text(a.url) == opt_text(b.url)
    &&& opt_text(a.username) == opt_text(b.username)
    &&& opt_text(a.password) == opt_text(b.password)
    &&& pairs(a.additional_fields@) == pairs(b.additional_fields@)
}

/// `config` is what is kept of a request with these parts, with `password`
/// as its stored password.
pub open spec fn is_config_of(
    config: RcloneConfig,
    request: ConfigRequest,
    password: Option<Seq<char>>,
) -> bool {
    &&& config.name@ == request.name@
    &&& config.config_type@ == request.config_type@
    &&& opt_text(config.url) == opt_text(request.url)
    &&& opt_text(config.username) == opt_text(request.username)
    &&& opt_text(config.password) == password
    &&& pairs(config.additional_fields@) == request_fields(request.additional_fields)
}

/// The settings that a definition holds by itself: its type, its address
/// and user where it has them, and its password where it has one that is not
/// empty.
pub open spec fn own_settings(config: RcloneConfig) -> Seq<(Seq<char>, Seq<char>)> {
    let kind = seq![("type"@, config.config_type@)];
    let url = match config.url {
        Some(u) => seq![("url"@, u@)],
        None => Seq::empty(),
    };
    let user = match config.username {
        Some(u) => seq![("user"@, u@)],
        None => Seq::empty(),
    };
    let pass = match usable_password(config.password) {
        Some(p) => seq![("pass"@, p)],
        None => Seq::empty(),
    };
    kind + url + user + pass
}

/// What is written to the section of a definition: the settings that it
/// holds by itself, and then its further settings.
pub open spec fn settings_of(config: RcloneConfig) -> Seq<(Seq<char>, Seq<char>)> {
    own_settings(config) + pairs(config.additional_fields@)
}

/// `key` names one of the four settings that a definition holds by itself.
pub open spec fn is_own_key(key: Seq<char>) -> bool {
    key == "type"@ || key == "url"@ || key == "user"@ || key == "pass"@
}

/// The value of the first setting of `entries` that is named `key`; `None`
/// where there is none or it has no value.
pub open spec fn setting(entries: Seq<(String, Option<String>)>, key: Seq<char>) -> Option<
    Seq<char>,
>
    decreases entries.len(),
{
    if entries.len() == 0 {
        None
    } else if entries[0].0@ == key {
        opt_text(entries[0].1)
    } else {
        setting(entries.drop_first(), key)
    }
}

/// The settings of `entries` that have a value and are not among the four
/// that a definition holds by itself, in their order.
pub open spec fn further(entries: Seq<(String, Option<String>)>) -> Seq<(Seq<char>, Seq<char>)>
    decreases entries.len(),
{
    if entries.len() == 0 {
        Seq::empty()
    } else {
        let rest = further(entries.drop_last());
        let last = entries.last();
        if !is_own_key(last.0@) && last.1 is Some {
            rest.push((last.0@, last.1->0@))
        } else {
            rest
        }
    }
}

/// `config` is the definition that the section `name` with the settings
/// `entries` holds. A section without a type has the empty type.
pub open spec fn is_config_of_section(
    config: RcloneConfig,
    name: Seq<char>,
    entries: Seq<(String, Option<String>)>,
) -> bool {
    &&& config.name@ == name
    &&& config.config_type@ == match setting(entries, "type"@) {
        Some(t) => t,
        None => Seq::empty(),
    }
    &&& opt_text(config.url) == setting(entries, "url"@)
    &&& opt_text(config.username) == setting(entries, "user"@)
    &&& opt_text(config.password) == setting(entries, "pass"@)
    &&& pairs(config.additional_fields@) == further(entries)
}

/// The index of the first of `configs` that is named `name`.
pub open spec fn named(configs: Seq<RcloneConfig>, name: Seq<char>) -> Option<int>
    decreases configs.len(),
{
    if configs.len() == 0 {
        None
    } else if configs[0].name@ == name {
        Some(0int)
    } else {
        match named(configs.drop_first(), name) {
            Some(i) => Some(i + 1),
            None => None,
        }
    }
}

/// A copy of an optional text.
pub fn copy_text(value: &Option<String>) -> (r: Option<String>)
    ensures
        r == *value,
{
    match value {
        Some(s) => Some(s.clone()),
        None => None,
    }
}

/// A copy of some settings.
pub fn copy_fields(fields: &Vec<(String, String)>) -> (r: Vec<(String, String)>)
    ensures
        r@ == fields@,
{
    let mut out: Vec<(String, String)> = Vec::new();
    let mut i: usize = 0;
    while i < fields.len()
        invariant
            i <= fields@.len(),
            out@ == fields@.take(i as int),
        decreases fields@.len() - i,
    {
        out.push((fields[i].0.clone(), fields[i].1.clone()));
        proof {
            assert(out@ =~= fields@.take(i + 1));
        }
        i = i + 1;
    }
    proof {
        assert(fields@.take(i as int) =~= fields@);
    }
    out
}

/// A copy of a definition.
pub fn copy_config(config: &RcloneConfig) -> (r: RcloneConfig)
    ensures
        same_config(r, *config),
        r.additional_fields@ == config.additional_fields@,
{
    RcloneConfig {
        name: config.name.clone(),
        config_type: config.config_type.clone(),
        url: copy_text(&config.url),
        username: copy_text(&config.username),
        password: copy_text(&config.password),
        additional_fields: copy_fields(&config.additional_fields),
    }
}

/// The password that is to be obscured before `request` is stored: the one
/// it gives, unless that is empty.
pub fn password_to_obscure(request: &ConfigRequest) -> (r: Option<&str>)
    ensures
        match r {
            Some(p) => usable_password(request.password) == Some(p@),
            None => usable_password(request.password) is None,
        },
{
    match &request.password {
        Some(p) => {
            if p.as_str().is_empty() {
                None
            } else {
                Some(p.as_str())
            }
        },
        None => None,
    }
}

/// The password that is to be revealed before `config` is shown for
/// editing: the one it holds, unless that is empty.
pub fn password_to_reveal(config: &RcloneConfig) -> (r: Option<&str>)
    ensures
        match r {
            Some(p) => usable_password(config.password) == Some(p@),
            None => usable_password(config.password) is None,
        },
{
    match &config.password {
        Some(p) => {
            if p.as_str().is_empty() {
                None
            } else {
                Some(p.as_str())
            }
        },
        None => None,
    }
}

/// What is kept of `request`, with `obscured` as the stored password.
pub fn config_of_request(request: &ConfigRequest, obscured: Option<String>) -> (config:
    RcloneConfig)
    ensures
        is_config_of(config, *request, opt_text(obscured)),
{
    let additional_fields: Vec<(String, String)> = match &request.additional_fields {
        Some(f) => copy_fields(f),
        None => Vec::new(),
    };
    proof {
        assert(pairs(additional_fields@) =~= request_fields(request.additional_fields));
    }
    RcloneConfig {
        name: request.name.clone(),
        config_type: request.config_type.clone(),
        url: copy_text(&request.url),
        username: copy_text(&request.username),
        password: obscured,
        additional_fields,
    }
}

/// `config` with the password `revealed` in place of its own; `config` as it
/// is where nothing was revealed.
pub fn with_revealed_password(config: RcloneConfig, revealed: Option<String>) -> (r: RcloneConfig)
    ensures
        r.name == config.name,
        r.config_type == config.config_type,
        r.url == config.url,
        r.username == config.username,
        r.additional_fields == config.additional_fields,
        r.password == match revealed {
            Some(p) => Some(p),
            None => config.password,
        },
{
    match revealed {
        Some(p) => RcloneConfig { password: Some(p), ..config },
        None => config,
    }
}

/// What is written to the section of `config` in the configuration file,
/// as names and values in order.
pub fn ini_settings(config: &RcloneConfig) -> (r: Vec<(String, String)>)
    ensures
        pairs(r@) == settings_of(*config),
{
    let mut out: Vec<(String, String)> = Vec::new();
    out.push((String::from_str("type"), config.config_type.clone()));
    match &config.url {
        Some(u) => {
            out.push((String::from_str("url"), u.clone()));
        },
        None => {},
    }
    match &config.username {
        Some(u) => {
            out.push((String::from_str("user"), u.clone()));
        },
        None => {},
    }
    match password_to_reveal(config) {
        Some(p) => {
            out.push((String::from_str("pass"), String::from_str(p)));
        },
        None => {},
    }
    let ghost head = out@;
    proof {
        assert(pairs(head) =~= own_settings(*config));
        assert(pairs(head) + pairs(config.additional_fields@.take(0)) =~= pairs(head));
    }
    let mut i: usize = 0;
    while i < config.additional_fields.len()
        invariant
            i <= config.additional_fields@.len(),
            pairs(out@) == pairs(head) + pairs(config.additional_fields@.take(i as int)),
        decreases config.additional_fields@.len() - i,
    {
        let ghost before = out@;
        out.push((config.additional_fields[i].0.clone(), config.additional_fields[i].1.clone()));
        proof {
            assert(pairs(out@) =~= pairs(before).push(
                (config.additional_fields@[i as int].0@, config.additional_fields@[i as int].1@),
            ));
            assert(pairs(config.additional_fields@.take(i + 1)) =~= pairs(
                config.additional_fields@.take(i as int),
            ).push((config.additional_fields@[i as int].0@, config.additional_fields@[i as int].1@)));
            assert(pairs(out@) =~= pairs(head) + pairs(config.additional_fields@.take(i + 1)));
        }
        i = i + 1;
    }
    proof {
        assert(config.additional_fields@.take(i as int) =~= config.additional_fields@);
        assert(pairs(out@) =~= settings_of(*config));
    }
    out
}

/// The value of the first setting of `entries` that is named `key`.
pub fn setting_of(entries: &Vec<(String, Option<String>)>, key: &str) -> (r: Option<String>)
    ensures
        opt_text(r) == setting(entries@, key@),
{
    let mut i: usize = 0;
    assert(entries@.skip(0) =~= entries@);
    while i < entries.len()
        invariant
            i <= entries@.len(),
            setting(entries@, key@) == setting(entries@.skip(i as int), key@),
        decreases entries@.len() - i,
    {
        proof {
            let t = entries@.skip(i as int);
            assert(t[0] == entries@[i as int]);
            assert(t.drop_first() =~= entries@.skip(i + 1));
        }
        if str_eq(entries[i].0.as_str(), key) {
            return copy_text(&entries[i].1);
        }
        i = i + 1;
    }
    None
}

/// Whether `key` names one of the four settings that a definition holds by
/// itself.
pub fn own_key(key: &str) -> (r: bool)
    ensures
        r == is_own_key(key@),
{
    str_eq(key, "type") || str_eq(key, "url") || str_eq(key, "user") || str_eq(key, "pass")
}

/// The definition that the section `name` of the configuration file holds,
/// where `entries` are the settings of the section.
pub fn config_of_section(name: &str, entries: &Vec<(String, Option<String>)>) -> (config:
    RcloneConfig)
    ensures
        is_config_of_section(config, name@, entries@),
{
    let config_type: String = match setting_of(entries, "type") {
        Some(t) => t,
        None => String::new(),
    };
    let mut additional_fields: Vec<(String, String)> = Vec::new();
    let mut i: usize = 0;
    proof {
        assert(pairs(additional_fields@) =~= further(entries@.take(0)));
    }
    while i < entries.len()
        invariant
            i <= entries@.len(),
            pairs(additional_fields@) == further(entries@.take(i as int)),
        decreases entries@.len() - i,
    {
        let ghost before = additional_fields@;
        proof {
            let t = entries@.take(i + 1);
            assert(t.last() == entries@[i as int]);
            assert(t.drop_last() =~= entries@.take(i as int));
        }
        if !own_key(entries[i].0.as_str()) {
            match &entries[i].1 {
                Some(v) => {
                    additional_fields.push((entries[i].0.clone(), v.clone()));
                    proof {
                        assert(pairs(additional_fields@) =~= pairs(before).push(
                            (entries@[i as int].0@, entries@[i as int].1->0@),
                        ));
                    }
                },
                None => {},
            }
        }
        i = i + 1;
    }
    proof {
        assert(entries@.take(i as int) =~= entries@);
    }
    RcloneConfig {
        name: String::from_str(name),
        config_type,
        url: setting_of(entries, "url"),
        username: setting_of(entries, "user"),
        password: setting_of(entries, "pass"),
        additional_fields,
    }
}

/// The first of `configs` that is named `name`.
pub fn find_config<'a>(configs: &'a Vec<RcloneConfig>, name: &str) -> (r: Option<&'a RcloneConfig>)
    ensures
        match r {
            Some(c) => named(configs@, name@) is Some && *c == configs@[named(configs@, name@)->0],
            None => named(configs@, name@) is None,
        },
{
    match index_of_name(configs, name) {
        Some(i) => Some(&configs[i]),
        None => None,
    }
}

fn index_of_name(configs: &Vec<RcloneConfig>, name: &str) -> (r: Option<usize>)
    ensures
        match r {
            Some(i) => named(configs@, name@) == Some(i as int) && i < configs@.len()
                && configs@[i as int].name@ == name@,
            None => named(configs@, name@) is None,
        },
{
    let mut i: usize = 0;
    assert(configs@.skip(0) =~= configs@);
    while i < configs.len()
        invariant
            i <= configs@.len(),
            named(configs@, name@) == match named(configs@.skip(i as int), name@) {
                Some(k) => Some(k + i),
                None => None,
            },
        decreases configs@.len() - i,
    {
        proof {
            let t = configs@.skip(i as int);
            assert(t[0] == configs@[i as int]);
            assert(t.drop_first() =~= configs@.skip(i + 1));
        }
        if str_eq(configs[i].name.as_str(), name) {
            return Some(i);
        }
        i = i + 1;
    }
    None
}

/// `configs` after `config` has been taken in: in the place of the
/// definition of the same name where there is one, else as the last.
pub open spec fn held(configs: Seq<RcloneConfig>, config: RcloneConfig) -> Seq<RcloneConfig> {
    match named(configs, config.name@) {
        Some(i) => configs.update(i, config),
        None => configs.push(config),
    }
}

/// `configs` after each of `given` has been taken in, one after the other.
pub open spec fn held_all(configs: Seq<RcloneConfig>, given: Seq<RcloneConfig>) -> Seq<RcloneConfig>
    decreases given.len(),
{
    if given.len() == 0 {
        configs
    } else {
        held(held_all(configs, given.drop_last()), given.last())
    }
}

/// No name occurs twice in `configs`.
pub open spec fn distinct_names(configs: Seq<RcloneConfig>) -> bool {
    forall|i: int, j: int| 0 <= i < j < configs.len() ==> configs[i].name@ != configs[j].name@
}

/// What `named` finds is the first definition of that name; where it finds
/// none, there is none.
pub proof fn lemma_named(configs: Seq<RcloneConfig>, name: Seq<char>)
    ensures
        match named(configs, name) {
            Some(i) => 0 <= i < configs.len() && configs[i].name@ == name && forall|j: int|
                0 <= j < i ==> configs[j].name@ != name,
            None => forall|j: int| 0 <= j < configs.len() ==> configs[j].name@ != name,
        },
    decreases configs.len(),
{
    if configs.len() == 0 {
    } else if configs[0].name@ == name {
    } else {
        let rest = configs.drop_first();
        lemma_named(rest, name);
        assert forall|j: int| 0 <= j < rest.len() implies rest[j] == configs[j + 1] by {}
        match named(rest, name) {
            Some(i) => {
                assert forall|j: int| 0 <= j < i + 1 implies configs[j].name@ != name by {
                    if j > 0 {
                        assert(rest[j - 1] == configs[j]);
                    }
                }
            },
            None => {
                assert forall|j: int| 0 <= j < configs.len() implies configs[j].name@ != name by {
                    if j > 0 {
                        assert(rest[j - 1] == configs[j]);
                    }
                }
            },
        }
    }
}

impl View for ConfigManager {
    type V = Seq<RcloneConfig>;

    /// The definitions held in memory.
    closed spec fn view(&self) -> Seq<RcloneConfig> {
        self.memory_configs@
    }
}

impl ConfigManager {
    /// What holds of every manager: no name occurs twice.
    pub open spec fn wf(&self) -> bool {
        distinct_names(self@)
    }

    /// Whether definitions are held in memory only.
    pub closed spec fn memory_only(&self) -> bool {
        self.use_memory_only
    }

    /// A manager without definitions. With `use_memory_only`, definitions
    /// are held in memory until they are written out on request; without,
    /// every change goes to the configuration file at once.
    pub fn new(use_memory_only: bool) -> (r: ConfigManager)
        ensures
            r@.len() == 0,
            r.wf(),
            r.memory_only() == use_memory_only,
    {
        ConfigManager { memory_configs: Vec::new(), use_memory_only }
    }

    /// Whether definitions are held in memory only.
    pub fn is_memory_only(&self) -> (r: bool)
        ensures
            r == self.memory_only(),
    {
        self.use_memory_only
    }

    /// A copy of the definitions held in memory.
    pub fn load_configs(&self) -> (r: Vec<RcloneConfig>)
        ensures
            r@.len() == self@.len(),
            forall|i: int| 0 <= i < r@.len() ==> same_config(#[trigger] r@[i], self@[i]),
    {
        let mut out: Vec<RcloneConfig> = Vec::new();
        let mut i: usize = 0;
        while i < self.memory_configs.len()
            invariant
                i <= self.memory_configs@.len(),
                out@.len() == i,
                forall|k: int|
                    0 <= k < i ==> same_config(#[trigger] out@[k], self.memory_configs@[k]),
            decreases self.memory_configs@.len() - i,
        {
            out.push(copy_config(&self.memory_configs[i]));
            i = i + 1;
        }
        out
    }

    /// Holds `config` in memory, in the place of a definition of the same
    /// name where there is one, else as the last.
    pub fn save_config(&mut self, config: RcloneConfig)
        requires
            old(self).wf(),
        ensures
            final(self).wf(),
            final(self).memory_only() == old(self).memory_only(),
            final(self)@ == held(old(self)@, config),
    {
        proof {
            lemma_named(self@, config.name@);
        }
        match index_of_name(&self.memory_configs, config.name.as_str()) {
            Some(i) => {
                self.memory_configs.set(i, config);
            },
            None => {
                self.memory_configs.push(config);
            },
        }
    }

    /// Drops the definition `name` from memory. Says whether there was one.
    pub fn delete_config(&mut self, name: &str) -> (found: bool)
        requires
            old(self).wf(),
        ensures
            final(self).wf(),
            final(self).memory_only() == old(self).memory_only(),
            found == (named(old(self)@, name@) is Some),
            final(self)@ == match named(old(self)@, name@) {
                Some(i) => old(self)@.remove(i),
                None => old(self)@,
            },
            named(final(self)@, name@) is None,
    {
        proof {
            lemma_named(self@, name@);
        }
        match index_of_name(&self.memory_configs, name) {
            Some(i) => {
                self.memory_configs.remove(i);
                proof {
                    let rest = self@;
                    assert forall|a: int| 0 <= a < rest.len() implies rest[a] == old(self)@[if a
                        < i {
                        a
                    } else {
                        a + 1
                    }] by {}
                    lemma_named(rest, name@);
                }
                true
            },
            None => false,
        }
    }

    /// Takes the definitions that were read from the configuration file into
    /// memory, one after the other.
    pub fn load_from_file_to_memory(&mut self, configs: Vec<RcloneConfig>)
        requires
            old(self).wf(),
        ensures
            final(self).wf(),
            final(self).memory_only() == old(self).memory_only(),
            final(self)@ == held_all(old(self)@, configs@),
    {
        let ghost start = self@;
        proof {
            assert(configs@.take(0) =~= Seq::<RcloneConfig>::empty());
        }
        for config in it: configs
            invariant
                self.wf(),
                self.memory_only() == old(self).memory_only(),
                start == old(self)@,
                it.seq() == configs@,
                self@ == held_all(start, it.seq().take(it.index() as int)),
        {
            proof {
                let t = it.seq().take(it.index() + 1);
                assert(t.last() == config);
                assert(t.drop_last() =~= it.seq().take(it.index() as int));
            }
            self.save_config(config);
        }
        proof {
            assert(configs@.take(configs@.len() as int) =~= configs@);
        }
    }
}

/// After a definition has been taken in, it is what is found under its
/// name, and every other name finds what it found before.
pub proof fn lemma_held(configs: Seq<RcloneConfig>, config: RcloneConfig, name: Seq<char>)
    requires
        distinct_names(configs),
    ensures
        distinct_names(held(configs, config)),
        named(held(configs, config), config.name@) is Some,
        held(configs, config)[named(held(configs, config), config.name@)->0] == config,
        name != config.name@ ==> named(held(configs, config), name) == named(configs, name),
        name != config.name@ && named(configs, name) is Some ==> held(configs, config)[named(
            configs,
            name,
        )->0] == configs[named(configs, name)->0],
{
    lemma_named(configs, name);
    lemma_named(configs, config.name@);
    let next = held(configs, config);
    lemma_named(next, name);
    lemma_named(next, config.name@);
    match named(configs, config.name@) {
        Some(i) => {
            assert(next[i] == config);
        },
        None => {
            assert(next[configs.len() as int] == config);
        },
    }
    assert forall|a: int| 0 <= a < configs.len() implies (#[trigger] next[a]).name@
        == configs[a].name@ by {}
    if name != config.name@ {
        match named(configs, name) {
            Some(k) => {
                assert(next[k].name@ == name);
                assert(next[k] == configs[k]);
                if named(next, name) is Some {
                    let m = named(next, name)->0;
                    if m < k {
                        assert(next[m].name@ == configs[m].name@);
                    }
                }
            },
            None => {
                if named(next, name) is Some {
                    let m = named(next, name)->0;
                    if m < configs.len() {
                        assert(next[m].name@ == configs[m].name@);
                    }
                }
            },
        }
    }
}

} // verus!
