//! Settings of the judge and the table of language toolchains.

use vstd::prelude::*;
use crate::text::{decimal, push_str, str_equals, u128_to_string};
use crate::types::Language;

verus! {

/// Where a redis server listens, and the channel used on it.
pub struct RedisSettings {
    pub host: String,
    pub port: usize,
    pub channel: String,
}

/// Where the message broker listens, and the queue and consumer names.
pub struct RabbitMqSettings {
    pub host: String,
    pub queue: String,
    pub consumer: String,
    pub port: usize,
}

/// How to reach the database.
pub struct PostgresSettings {
    pub host: String,
    pub user: String,
    pub database: String,
    pub port: usize,
    pub password: String,
}

/// The queue of submissions kept in the database, and its notification channel.
pub struct PostgresQueueSettings {
    pub queue: String,
    pub notification_channel: String,
}

/// Where test-case configurations are fetched from.
pub struct UpStreamSettings {
    pub uri: String,
}

/// Directories the judge works in.
pub struct EvaluatorSettings {
    pub playground: String,
    pub resources: String,
    pub nsjail_config: String,
}

/// How a language's programs are built and run.
#[derive(Debug, PartialEq, Eq, Structural, Clone, Copy)]
pub enum EvaluationType {
    Compiled,
    Interpreted,
    Java,
}

/// The toolchain of one language: the program to call, its arguments (where
/// `$file` and `$executable` stand for the source file and the built program),
/// how it is evaluated and the extension of source files.
pub struct CmdStr {
    pub path: String,
    pub args: Vec<String>,
    pub eval_type: EvaluationType,
    pub file_type: String,
}

impl CmdStr {
    /// A copy of the toolchain description.
    pub fn duplicate(&self) -> (r: CmdStr)
        ensures
            r.path@ == self.path@,
            r.args@ == self.args@,
            r.eval_type == self.eval_type,
            r.file_type@ == self.file_type@,
    {
        CmdStr {
            path: self.path.clone(),
            args: self.args.clone(),
            eval_type: self.eval_type,
            file_type: self.file_type.clone(),
        }
    }
}

/// The toolchain that a table gives a language: its first entry for it.
pub open spec fn lookup(entries: Seq<(Language, CmdStr)>, lang: Language) -> Option<CmdStr>
    decreases entries.len(),
{
    if entries.len() == 0 {
        None
    } else if entries[0].0 == lang {
        Some(entries[0].1)
    } else {
        lookup(entries.skip(1), lang)
    }
}

/// The toolchain of each language, as a list of entries. Made from the
/// configuration's map, it lists each language at most once
/// (`languages_unique`); a language listed twice gets its first entry.
pub struct LanguageBinary(pub Vec<(Language, CmdStr)>);

/// No language has two entries.
pub open spec fn languages_unique(entries: Seq<(Language, CmdStr)>) -> bool {
    forall|i: int, j: int| 0 <= i < j < entries.len() ==> #[trigger] entries[i].0 != #[trigger] entries[j].0
}

/// The toolchain a table gives a language is the first entry for it; where
/// no language has two entries, it is the entry for it.
pub proof fn lemma_lookup_finds_entry(entries: Seq<(Language, CmdStr)>, i: int)
    requires
        0 <= i < entries.len(),
    ensures
        lookup(entries, entries[i].0) is Some,
        (forall|j: int| 0 <= j < i ==> #[trigger] entries[j].0 != entries[i].0) ==> lookup(
            entries,
            entries[i].0,
        ) == Some(entries[i].1),
        languages_unique(entries) ==> lookup(entries, entries[i].0) == Some(entries[i].1),
    decreases i,
{
    if i > 0 && entries[0].0 != entries[i].0 {
        let t = entries.skip(1);
        assert(t[i - 1] == entries[i]);
        lemma_lookup_finds_entry(t, i - 1);
        assert forall|j: int| 0 <= j < i - 1 implies #[trigger] t[j].0 == entries[j + 1].0 by {}
        if languages_unique(entries) {
            assert forall|a: int, b: int| 0 <= a < b < t.len() implies #[trigger] t[a].0 != #[trigger] t[b].0 by {
                assert(t[a] == entries[a + 1] && t[b] == entries[b + 1]);
            }
        }
    }
    if languages_unique(entries) && i > 0 {
        assert(entries[0].0 != entries[i].0);
    }
}

impl LanguageBinary {
    /// The toolchain given for `lang`, if any.
    pub open spec fn spec_get(&self, lang: Language) -> Option<CmdStr> {
        lookup(self.0@, lang)
    }

    /// The toolchain given for `lang`, if any.
    pub fn get(&self, lang: Language) -> (r: Option<&CmdStr>)
        ensures
            r.is_some() == self.spec_get(lang).is_some(),
            r matches Some(c) ==> *c == self.spec_get(lang)->0,
    {
        let mut i: usize = 0;
        assert(self.0@.skip(0) =~= self.0@);
        while i < self.0.len()
            invariant
                i <= self.0@.len(),
                lookup(self.0@, lang) == lookup(self.0@.skip(i as int), lang),
            decreases self.0.len() - i,
        {
            assert(self.0@.skip(i as int).skip(1) =~= self.0@.skip(i + 1));
            if self.0[i].0 == lang {
                return Some(&self.0[i].1);
            }
            i = i + 1;
        }
        None
    }
}

/// All settings of the judge.
pub struct Settings {
    pub is_prod: bool,
    pub notifications: RedisSettings,
    pub cache: Option<RedisSettings>,
    pub rabbitmq: RabbitMqSettings,
    pub postgres: PostgresSettings,
    pub postgres_queue: PostgresQueueSettings,
    pub upstream: UpStreamSettings,
    pub evaluator: EvaluatorSettings,
    pub language: LanguageBinary,
}

/// `true` or `false` as `bool::from_str` reads them.
pub open spec fn spec_parse_bool(s: Seq<char>) -> Option<bool> {
    if s == "true"@ {
        Some(true)
    } else if s == "false"@ {
        Some(false)
    } else {
        None
    }
}

/// Reads the `IS_PROD` flag: exactly `true` or `false`.
pub fn parse_bool(s: &str) -> (r: Option<bool>)
    ensures
        r == spec_parse_bool(s@),
{
    if str_equals(s, "true") {
        Some(true)
    } else if str_equals(s, "false") {
        Some(false)
    } else {
        None
    }
}

impl Settings {
    /// The settings read from the configuration file, with the production flag
    /// taken from the environment.
    pub fn with_is_prod(self, is_prod: bool) -> (r: Settings)
        ensures
            r == (Settings { is_prod, ..self }),
    {
        Settings { is_prod, ..self }
    }
}

} // verus!
