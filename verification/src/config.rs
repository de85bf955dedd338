use vstd::prelude::*;

verus! {

/// A value of the configuration document, as far as the lookups read it.
pub enum ConfigValue {
    /// A string.
    Text(String),
    /// A table; where a key stands twice, its last entry counts.
    Table(Vec<ConfigEntry>),
    /// Any other value.
    Other,
}

/// One entry of a table.
pub struct ConfigEntry {
    pub key: String,
    pub value: ConfigValue,
}

/// The value under `key` among the entries of a table.
pub open spec fn entry_of(entries: Seq<ConfigEntry>, key: Seq<char>) -> Option<ConfigValue>
    decreases entries.len(),
{
    if entries.len() == 0 {
        None
    } else if entries.last().key@ == key {
        Some(entries.last().value)
    } else {
        entry_of(entries.drop_last(), key)
    }
}

/// The value under `key` in `value`, where that is a table.
pub open spec fn member(value: ConfigValue, key: Seq<char>) -> Option<ConfigValue> {
    match value {
        ConfigValue::Table(entries) => entry_of(entries@, key),
        _ => None,
    }
}

/// The table under `key` in `value`.
pub open spec fn table_member(value: ConfigValue, key: Seq<char>) -> Option<ConfigValue> {
    match member(value, key) {
        Some(found) => if found is Table {
            Some(found)
        } else {
            None
        },
        None => None,
    }
}

/// The string under `key` in `value`.
pub open spec fn text_member(value: ConfigValue, key: Seq<char>) -> Option<Seq<char>> {
    match member(value, key) {
        Some(ConfigValue::Text(text)) => Some(text@),
        _ => None,
    }
}

/// The table of a repository: the table under its name in the table
/// `repositories`.
pub open spec fn repo_table(root: ConfigValue, repo: Seq<char>) -> Option<ConfigValue> {
    match table_member(root, "repositories"@) {
        Some(repositories) => table_member(repositories, repo),
        None => None,
    }
}

/// A string option of a repository.
pub open spec fn repo_text(root: ConfigValue, repo: Seq<char>, opt: Seq<char>) -> Option<Seq<char>> {
    match repo_table(root, repo) {
        Some(table) => text_member(table, opt),
        None => None,
    }
}

impl ConfigValue {
    /// Looks a key up in a table.
    pub fn get(&self, key: &str) -> (found: Option<&ConfigValue>)
        ensures
            match found {
                Some(value) => member(*self, key@) == Some(*value),
                None => member(*self, key@).is_none(),
            },
    {
        match self {
            ConfigValue::Table(entries) => {
                let wanted = String::from_str(key);
                let mut i: usize = entries.len();
                assert(entries@.take(i as int) =~= entries@);
                while i > 0
                    invariant
                        i <= entries@.len(),
                        wanted@ == key@,
                        member(*self, key@) == entry_of(entries@, key@),
                        entry_of(entries@, key@) == entry_of(entries@.take(i as int), key@),
                    decreases i,
                {
                    assert(entries@.take(i as int).drop_last() =~= entries@.take(i - 1));
                    if entries[i - 1].key == wanted {
                        return Some(&entries[i - 1].value);
                    }
                    i = i - 1;
                }
                None
            },
            _ => None,
        }
    }

    /// Whether the value is a table.
    pub fn is_table(&self) -> (table: bool)
        ensures
            table == (*self is Table),
    {
        match self {
            ConfigValue::Table(_) => true,
            _ => false,
        }
    }

    /// The string that the value holds, if it is one.
    pub fn as_str(&self) -> (text: Option<&str>)
        ensures
            match text {
                Some(t) => *self matches ConfigValue::Text(held) && held@ == t@,
                None => !(*self is Text),
            },
    {
        match self {
            ConfigValue::Text(text) => Some(text.as_str()),
            _ => None,
        }
    }

    fn table(&self, key: &str) -> (found: Option<&ConfigValue>)
        ensures
            match found {
                Some(value) => table_member(*self, key@) == Some(*value),
                None => table_member(*self, key@).is_none(),
            },
    {
        match self.get(key) {
            Some(value) => if value.is_table() {
                Some(value)
            } else {
                None
            },
            None => None,
        }
    }

    fn text(&self, key: &str) -> (found: Option<String>)
        ensures
            match found {
                Some(text) => text_member(*self, key@) == Some(text@),
                None => text_member(*self, key@).is_none(),
            },
    {
        match self.get(key) {
            Some(ConfigValue::Text(text)) => Some(text.clone()),
            _ => None,
        }
    }
}

/// The configuration: which repositories there are, where the store and
/// the local clone of each is, and what the server binds to.
pub struct GitSqlConfig {
    root: ConfigValue,
}

impl View for GitSqlConfig {
    type V = ConfigValue;

    closed spec fn view(&self) -> ConfigValue {
        self.root
    }
}

impl GitSqlConfig {
    /// The configuration that a document holds.
    pub fn with(root: ConfigValue) -> (config: GitSqlConfig)
        ensures
            config@ == root,
    {
        GitSqlConfig { root }
    }

    /// The configuration without any repository or server.
    pub fn empty() -> (config: GitSqlConfig)
        ensures
            config@ matches ConfigValue::Table(entries) && entries@.len() == 0,
    {
        GitSqlConfig { root: ConfigValue::Table(Vec::new()) }
    }

    /// The address of a repository's store: its option `postgres-url`.
    pub fn get_repo_db_url(&self, repo: &String) -> (url: Option<String>)
        ensures
            match url {
                Some(text) => repo_text(self@, repo@, "postgres-url"@) == Some(text@),
                None => repo_text(self@, repo@, "postgres-url"@).is_none(),
            },
    {
        self.get_repo_cfg_str(repo, "postgres-url")
    }

    /// The table of a repository.
    pub fn get_repo_cfg(&self, repo: &String) -> (table: Option<&ConfigValue>)
        ensures
            match table {
                Some(value) => repo_table(self@, repo@) == Some(*value),
                None => repo_table(self@, repo@).is_none(),
            },
    {
        match self.root.table("repositories") {
            Some(repositories) => repositories.table(repo.as_str()),
            None => None,
        }
    }

    /// A string option of a repository.
    pub fn get_repo_cfg_str(&self, repo: &String, opt: &str) -> (value: Option<String>)
        ensures
            match value {
                Some(text) => repo_text(self@, repo@, opt@) == Some(text@),
                None => repo_text(self@, repo@, opt@).is_none(),
            },
    {
        match self.get_repo_cfg(repo) {
            Some(table) => table.text(opt),
            None => None,
        }
    }

    /// The table `server`.
    pub fn get_server_cfg(&self) -> (table: Option<&ConfigValue>)
        ensures
            match table {
                Some(value) => table_member(self@, "server"@) == Some(*value),
                None => table_member(self@, "server"@).is_none(),
            },
    {
        self.root.table("server")
    }
}

} // verus!
